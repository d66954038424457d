//! The mathematical model of the settlement engine: its state, and what each
//! operation makes of a state.
use crate::attestation::{attesters, AttestationView};
use crate::registry::RegistryView;
use crate::store::{keyed_by_id, transition_error, with_created, with_transition};
use crate::types::{BridgeError, IntentView, ProofView, StatusView};
use vstd::prelude::*;

verus! {

/// Value attached to every transfer request, in the smallest unit of the
/// destination chain.
pub const TRANSFER_DEPOSIT: u128 = 1;

/// Resource budget reserved for every transfer request.
pub const TRANSFER_GAS: u64 = 5_000_000_000_000;

/// The reason recorded on an intent that was executed without a valid proof.
pub open spec fn insufficient_reason() -> Seq<char> {
    "insufficient attestations"@
}

/// Mathematical value of a transfer request.
pub struct TransferRequestView {
    pub intent_id: Seq<char>,
    pub token_contract: Seq<char>,
    pub receiver: Seq<char>,
    pub amount: u128,
    pub deposit: u128,
    pub gas: u64,
}

/// Mathematical value of what an execution led to.
pub enum OutcomeView {
    Dispatched(TransferRequestView),
    InsufficientAttestations,
}

/// Mathematical value of an acknowledgment of a transfer.
pub enum AckView {
    Accepted,
    Rejected(Seq<char>),
}

impl AckView {
    /// The final status that the acknowledgment gives an intent.
    pub open spec fn status(self) -> StatusView {
        match self {
            AckView::Accepted => StatusView::Completed,
            AckView::Rejected(reason) => StatusView::Failed(reason),
        }
    }
}

/// What an operation makes of a state: the state after it, and what it
/// reports.  A refused operation leaves the state as it was.
pub struct Step<T> {
    pub next: ExecutorView,
    pub result: Result<T, BridgeError>,
}

/// Mathematical value of the settlement engine.
pub struct ExecutorView {
    /// The account that manages validators and threshold.
    pub owner: Seq<char>,
    /// The token contract that transfer requests go to and whose
    /// acknowledgments are accepted.
    pub token_contract: Seq<char>,
    /// The account that creates and executes intents.
    pub agent_account: Seq<char>,
    /// Validators and threshold.
    pub registry: RegistryView,
    /// Every intent ever created, under its id.
    pub intents: Map<Seq<char>, IntentView>,
    /// Every attestation ever recorded.
    pub attestations: Set<AttestationView>,
}

impl ExecutorView {
    /// What holds of every state of the engine.
    pub open spec fn inv(self) -> bool {
        &&& self.registry.inv()
        &&& keyed_by_id(self.intents)
    }

    /// The state right after set-up.
    pub open spec fn initial(
        owner: Seq<char>,
        token_contract: Seq<char>,
        required_signatures: nat,
        agent_account: Seq<char>,
    ) -> ExecutorView {
        ExecutorView {
            owner,
            token_contract,
            agent_account,
            registry: RegistryView { validators: Map::empty(), required_signatures },
            intents: Map::empty(),
            attestations: Set::empty(),
        }
    }

    /// The operation was refused with `error`.
    pub open spec fn refuse<T>(self, error: BridgeError) -> Step<T> {
        Step { next: self, result: Err(error) }
    }

    /// The validators that vouched for the transaction that `proof` names.
    pub open spec fn attesters_of(self, proof: ProofView) -> Set<Seq<char>> {
        attesters(self.attestations, proof.transaction_hash, proof.block_number)
    }

    /// Whether `proof` is valid: enough distinct active validators vouched
    /// for its transaction in its block, and that block is not above the
    /// finalized height of the source chain.
    pub open spec fn proof_valid(self, proof: ProofView, finalized_height: u64) -> bool {
        &&& self.registry.has_quorum(self.attesters_of(proof))
        &&& proof.block_number <= finalized_height
    }

    /// The transfer request that executing `intent` hands out.
    pub open spec fn request_for(self, intent: IntentView) -> TransferRequestView {
        TransferRequestView {
            intent_id: intent.id,
            token_contract: self.token_contract,
            receiver: intent.receiver,
            amount: intent.amount,
            deposit: TRANSFER_DEPOSIT,
            gas: TRANSFER_GAS,
        }
    }

    /// The status of the intent under `id`, if there is one.
    pub open spec fn status_of(self, id: Seq<char>) -> Option<StatusView> {
        if self.intents.contains_key(id) {
            Some(self.intents[id].status)
        } else {
            None
        }
    }

    /// The owner adds or reactivates a validator.
    pub open spec fn add_validator(self, caller: Seq<char>, validator: Seq<char>) -> Step<()> {
        if caller != self.owner {
            self.refuse(BridgeError::Unauthorized)
        } else {
            Step {
                next: ExecutorView { registry: self.registry.add(validator), ..self },
                result: Ok(()),
            }
        }
    }

    /// The owner deactivates a validator.
    pub open spec fn remove_validator(self, caller: Seq<char>, validator: Seq<char>) -> Step<()> {
        if caller != self.owner {
            self.refuse(BridgeError::Unauthorized)
        } else if !self.registry.removal_allowed(validator) {
            self.refuse(BridgeError::QuorumViolation)
        } else {
            Step {
                next: ExecutorView { registry: self.registry.remove(validator), ..self },
                result: Ok(()),
            }
        }
    }

    /// The owner replaces the threshold.
    pub open spec fn set_required_signatures(self, caller: Seq<char>, threshold: nat) -> Step<()> {
        if caller != self.owner {
            self.refuse(BridgeError::Unauthorized)
        } else if !self.registry.threshold_allowed(threshold) {
            self.refuse(BridgeError::InvalidThreshold)
        } else {
            Step {
                next: ExecutorView { registry: self.registry.with_threshold(threshold), ..self },
                result: Ok(()),
            }
        }
    }

    /// An active validator vouches for a transaction in a block.
    pub open spec fn submit_attestation(
        self,
        caller: Seq<char>,
        transaction_hash: Seq<char>,
        block_number: u64,
    ) -> Step<()> {
        if !self.registry.active().contains(caller) {
            self.refuse(BridgeError::Unauthorized)
        } else {
            Step {
                next: ExecutorView {
                    attestations: self.attestations.insert(
                        AttestationView { validator: caller, transaction_hash, block_number },
                    ),
                    ..self
                },
                result: Ok(()),
            }
        }
    }

    /// The agent creates an intent.  The step reports the id of the intent
    /// that was created.
    pub open spec fn create_intent(self, caller: Seq<char>, intent: IntentView) -> Step<Seq<char>> {
        if caller != self.agent_account {
            self.refuse(BridgeError::Unauthorized)
        } else if self.intents.contains_key(intent.id) {
            self.refuse(BridgeError::DuplicateIntent)
        } else {
            Step {
                next: ExecutorView { intents: with_created(self.intents, intent), ..self },
                result: Ok(intent.id),
            }
        }
    }

    /// The agent executes a pending intent.  With a valid proof the intent
    /// becomes `Executing` and its transfer request is handed out; without,
    /// the intent becomes `Failed` and nothing is handed out.
    pub open spec fn execute_intent(
        self,
        caller: Seq<char>,
        id: Seq<char>,
        finalized_height: u64,
    ) -> Step<OutcomeView> {
        if caller != self.agent_account {
            self.refuse(BridgeError::Unauthorized)
        } else if !self.intents.contains_key(id) {
            self.refuse(BridgeError::NotFound)
        } else if !(self.intents[id].status is Pending) {
            self.refuse(BridgeError::IllegalTransition)
        } else if self.proof_valid(self.intents[id].proof, finalized_height) {
            Step {
                next: ExecutorView {
                    intents: with_transition(self.intents, id, StatusView::Executing),
                    ..self
                },
                result: Ok(OutcomeView::Dispatched(self.request_for(self.intents[id]))),
            }
        } else {
            Step {
                next: ExecutorView {
                    intents: with_transition(
                        self.intents,
                        id,
                        StatusView::Failed(insufficient_reason()),
                    ),
                    ..self
                },
                result: Ok(OutcomeView::InsufficientAttestations),
            }
        }
    }

    /// The token contract acknowledges the transfer of an executing intent.
    pub open spec fn resolve_transfer(self, caller: Seq<char>, id: Seq<char>, ack: AckView) -> Step<
        (),
    > {
        if caller != self.token_contract {
            self.refuse(BridgeError::Unauthorized)
        } else if !self.intents.contains_key(id) {
            self.refuse(BridgeError::NotFound)
        } else if !(self.intents[id].status is Executing) {
            self.refuse(BridgeError::IllegalTransition)
        } else {
            Step {
                next: ExecutorView {
                    intents: with_transition(self.intents, id, ack.status()),
                    ..self
                },
                result: Ok(()),
            }
        }
    }
}

} // verus!
