//! Plain data carried through the settlement engine, with their views.
use vstd::prelude::*;

verus! {

/// Why an operation was refused.  A refused operation changes nothing.
#[derive(Clone, Copy, Debug, PartialEq, Eq, Structural)]
pub enum BridgeError {
    /// The caller does not hold the role the operation asks for.
    Unauthorized,
    /// An intent with this id is already stored.
    DuplicateIntent,
    /// No intent with this id is stored.
    NotFound,
    /// The intent's status does not allow the requested step.
    IllegalTransition,
    /// Deactivating the validator would leave fewer active validators than
    /// the threshold asks for.
    QuorumViolation,
    /// The threshold is zero or larger than the number of active validators.
    InvalidThreshold,
    /// The engine has been set up before.
    AlreadyInitialized,
}

/// Where an intent stands in its lifecycle.
#[derive(Debug, PartialEq, Eq)]
pub enum IntentStatus {
    /// Stored, not yet executed.
    Pending,
    /// The transfer request has been handed out and not yet acknowledged.
    Executing,
    /// The transfer was acknowledged as accepted.
    Completed,
    /// The intent was given up, for the reason carried.
    Failed(String),
}

/// Mathematical value of an [`IntentStatus`].
pub enum StatusView {
    Pending,
    Executing,
    Completed,
    Failed(Seq<char>),
}

impl StatusView {
    /// Whether an intent in this status may move to `next`.  `Pending` leads
    /// to `Executing` or `Failed`, `Executing` to `Completed` or `Failed`, and
    /// nothing leads out of `Completed` or `Failed`.
    pub open spec fn can_become(self, next: StatusView) -> bool {
        match self {
            StatusView::Pending => next is Executing || next is Failed,
            StatusView::Executing => next is Completed || next is Failed,
            StatusView::Completed => false,
            StatusView::Failed(_) => false,
        }
    }

    /// How far along the lifecycle the status is: 0 for `Pending`, 1 for
    /// `Executing`, 2 for the two final ones.
    pub open spec fn rank(self) -> nat {
        match self {
            StatusView::Pending => 0,
            StatusView::Executing => 1,
            StatusView::Completed => 2,
            StatusView::Failed(_) => 2,
        }
    }

    /// `Completed` and `Failed` are final.
    pub open spec fn is_final(self) -> bool {
        self is Completed || self is Failed
    }
}

impl View for IntentStatus {
    type V = StatusView;

    open spec fn view(&self) -> StatusView {
        match self {
            IntentStatus::Pending => StatusView::Pending,
            IntentStatus::Executing => StatusView::Executing,
            IntentStatus::Completed => StatusView::Completed,
            IntentStatus::Failed(reason) => StatusView::Failed(reason@),
        }
    }
}

impl IntentStatus {
    /// Whether an intent in this status may move to `next`.
    pub fn can_become(&self, next: &IntentStatus) -> (allowed: bool)
        ensures
            allowed == self@.can_become(next@),
    {
        match self {
            IntentStatus::Pending => match next {
                IntentStatus::Executing => true,
                IntentStatus::Failed(_) => true,
                _ => false,
            },
            IntentStatus::Executing => match next {
                IntentStatus::Completed => true,
                IntentStatus::Failed(_) => true,
                _ => false,
            },
            _ => false,
        }
    }

    /// Whether the status is `Pending`.
    pub fn is_pending(&self) -> (pending: bool)
        ensures
            pending == (self@ is Pending),
    {
        match self {
            IntentStatus::Pending => true,
            _ => false,
        }
    }
}

impl Clone for IntentStatus {
    fn clone(&self) -> (res: Self)
        ensures
            res@ == self@,
    {
        match self {
            IntentStatus::Pending => IntentStatus::Pending,
            IntentStatus::Executing => IntentStatus::Executing,
            IntentStatus::Completed => IntentStatus::Completed,
            IntentStatus::Failed(reason) => IntentStatus::Failed(reason.clone()),
        }
    }
}

/// Evidence that the source-chain transaction behind an intent took place.
#[derive(Debug, PartialEq, Eq)]
pub struct BridgeProof {
    /// Height of the source-chain block that holds the transaction.
    pub block_number: u64,
    /// Source-chain time of that block.
    pub timestamp: u64,
    /// Reference of the source-chain transaction.
    pub transaction_hash: String,
}

/// Mathematical value of a [`BridgeProof`].
pub struct ProofView {
    pub block_number: u64,
    pub timestamp: u64,
    pub transaction_hash: Seq<char>,
}

impl View for BridgeProof {
    type V = ProofView;

    open spec fn view(&self) -> ProofView {
        ProofView {
            block_number: self.block_number,
            timestamp: self.timestamp,
            transaction_hash: self.transaction_hash@,
        }
    }
}

impl Clone for BridgeProof {
    fn clone(&self) -> (res: Self)
        ensures
            res@ == self@,
    {
        BridgeProof {
            block_number: self.block_number,
            timestamp: self.timestamp,
            transaction_hash: self.transaction_hash.clone(),
        }
    }
}

/// A request to move `amount` units of `token` from `sender` on the source
/// chain to `receiver` on the destination chain.
#[derive(Debug, PartialEq, Eq)]
pub struct CrossChainIntent {
    /// Unique id; a second intent with the same id is refused.
    pub id: String,
    /// Source-chain address that pays.
    pub sender: String,
    /// Destination-chain account that is paid.
    pub receiver: String,
    /// Source-chain address of the token.
    pub token: String,
    /// Amount in units of the source-chain token.
    pub amount: u128,
    /// Evidence attached when the intent is created.
    pub proof: BridgeProof,
    /// Current lifecycle status.
    pub status: IntentStatus,
}

/// Mathematical value of a [`CrossChainIntent`].
pub struct IntentView {
    pub id: Seq<char>,
    pub sender: Seq<char>,
    pub receiver: Seq<char>,
    pub token: Seq<char>,
    pub amount: u128,
    pub proof: ProofView,
    pub status: StatusView,
}

impl IntentView {
    /// The same intent with another status.
    pub open spec fn with_status(self, status: StatusView) -> IntentView {
        IntentView { status, ..self }
    }

    /// Whether `other` differs from `self` in nothing but the status.
    pub open spec fn same_core(self, other: IntentView) -> bool {
        other.with_status(self.status) == self
    }
}

impl View for CrossChainIntent {
    type V = IntentView;

    open spec fn view(&self) -> IntentView {
        IntentView {
            id: self.id@,
            sender: self.sender@,
            receiver: self.receiver@,
            token: self.token@,
            amount: self.amount,
            proof: self.proof@,
            status: self.status@,
        }
    }
}

impl Clone for CrossChainIntent {
    fn clone(&self) -> (res: Self)
        ensures
            res@ == self@,
    {
        CrossChainIntent {
            id: self.id.clone(),
            sender: self.sender.clone(),
            receiver: self.receiver.clone(),
            token: self.token.clone(),
            amount: self.amount,
            proof: self.proof.clone(),
            status: self.status.clone(),
        }
    }
}

} // verus!
