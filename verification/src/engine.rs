//! The settlement engine: the one value that holds registry, store and
//! attestations, checks who calls, and decides what happens to an intent.
use crate::attestation::{Attestation, AttestationLog};
use crate::lists::texts;
use crate::model::{
    AckView, ExecutorView, OutcomeView, TransferRequestView, TRANSFER_DEPOSIT, TRANSFER_GAS,
};
use crate::registry::ValidatorRegistry;
use crate::snapshot::ExecutorSnapshot;
use crate::store::IntentStore;
use crate::types::{BridgeError, CrossChainIntent, IntentStatus, StatusView};
use vstd::prelude::*;

verus! {

/// A request to the token contract to pay `amount` to `receiver`.  The
/// engine hands it out; sending it is up to the caller.
#[derive(Debug, PartialEq, Eq)]
pub struct TransferRequest {
    /// The intent that the transfer settles.
    pub intent_id: String,
    /// The token contract that the request goes to.
    pub token_contract: String,
    /// Destination-chain account that is paid.
    pub receiver: String,
    /// Amount to pay.
    pub amount: u128,
    /// Value attached to the request.
    pub deposit: u128,
    /// Resource budget reserved for the request.
    pub gas: u64,
}

impl View for TransferRequest {
    type V = TransferRequestView;

    open spec fn view(&self) -> TransferRequestView {
        TransferRequestView {
            intent_id: self.intent_id@,
            token_contract: self.token_contract@,
            receiver: self.receiver@,
            amount: self.amount,
            deposit: self.deposit,
            gas: self.gas,
        }
    }
}

/// What an execution led to.
#[derive(Debug, PartialEq, Eq)]
pub enum ExecutionOutcome {
    /// The intent is now `Executing`; the request is to be sent to the token
    /// contract.
    Dispatched(TransferRequest),
    /// The proof was not valid; the intent is now `Failed`, and nothing is
    /// to be sent.
    InsufficientAttestations,
}

impl View for ExecutionOutcome {
    type V = OutcomeView;

    open spec fn view(&self) -> OutcomeView {
        match self {
            ExecutionOutcome::Dispatched(request) => OutcomeView::Dispatched(request@),
            ExecutionOutcome::InsufficientAttestations => OutcomeView::InsufficientAttestations,
        }
    }
}

/// The token contract's word on a transfer.
#[derive(Debug, PartialEq, Eq)]
pub enum TransferAck {
    /// The transfer was accepted.
    Accepted,
    /// The transfer was rejected, for the reason carried.
    Rejected(String),
}

impl View for TransferAck {
    type V = AckView;

    open spec fn view(&self) -> AckView {
        match self {
            TransferAck::Accepted => AckView::Accepted,
            TransferAck::Rejected(reason) => AckView::Rejected(reason@),
        }
    }
}

impl TransferAck {
    /// The final status that the acknowledgment gives an intent.
    pub fn into_status(self) -> (status: IntentStatus)
        ensures
            status@ == self@.status(),
    {
        match self {
            TransferAck::Accepted => IntentStatus::Completed,
            TransferAck::Rejected(reason) => IntentStatus::Failed(reason),
        }
    }
}

/// The event that tells of a new intent.
#[derive(Debug, PartialEq, Eq)]
pub struct IntentCreated {
    /// Id of the intent that was created.
    pub id: String,
}

impl View for IntentCreated {
    type V = Seq<char>;

    open spec fn view(&self) -> Seq<char> {
        self.id@
    }
}

/// What a result reports, as a mathematical value.
pub open spec fn reported<T: View>(res: Result<T, BridgeError>) -> Result<T::V, BridgeError> {
    match res {
        Ok(value) => Ok(value@),
        Err(error) => Err(error),
    }
}

/// The settlement engine.
pub struct CrossChainExecutor {
    owner: String,
    token_contract: String,
    agent_account: String,
    validators: ValidatorRegistry,
    intents: IntentStore,
    attestations: AttestationLog,
}

impl View for CrossChainExecutor {
    type V = ExecutorView;

    closed spec fn view(&self) -> ExecutorView {
        ExecutorView {
            owner: self.owner@,
            token_contract: self.token_contract@,
            agent_account: self.agent_account@,
            registry: self.validators@,
            intents: self.intents@,
            attestations: self.attestations@,
        }
    }
}

impl CrossChainExecutor {
    /// Registry, store and attestation log are each well formed.
    pub closed spec fn wf(&self) -> bool {
        &&& self.validators.wf()
        &&& self.intents.wf()
        &&& self.attestations.wf()
    }

    /// A well-formed engine has a view that meets the model's invariant.
    pub proof fn lemma_wf(&self)
        requires
            self.wf(),
        ensures
            self@.inv(),
    {
        self.validators.lemma_wf();
        self.intents.lemma_wf();
    }

    /// Sets the engine up: no validators, no intents, no attestations.
    /// Refused with `AlreadyInitialized` when `already_initialized` says that
    /// a state exists, else with `InvalidThreshold` when the threshold is
    /// zero.
    pub fn new(
        token_contract: String,
        required_signatures: u32,
        agent_account: String,
        owner: String,
        already_initialized: bool,
    ) -> (res: Result<Self, BridgeError>)
        ensures
            match res {
                Ok(engine) => !already_initialized && required_signatures > 0 && engine.wf()
                    && engine@ == ExecutorView::initial(
                    owner@,
                    token_contract@,
                    required_signatures as nat,
                    agent_account@,
                ),
                Err(error) => if already_initialized {
                    error == BridgeError::AlreadyInitialized
                } else {
                    required_signatures == 0 && error == BridgeError::InvalidThreshold
                },
            },
    {
        if already_initialized {
            return Err(BridgeError::AlreadyInitialized);
        }
        match ValidatorRegistry::new(required_signatures) {
            Err(error) => Err(error),
            Ok(validators) => Ok(
                CrossChainExecutor {
                    owner,
                    token_contract,
                    agent_account,
                    validators,
                    intents: IntentStore::new(),
                    attestations: AttestationLog::new(),
                },
            ),
        }
    }

    /// The whole state as plain lists, each in the order in which its
    /// entries came.
    pub fn snapshot(&self) -> (snapshot: ExecutorSnapshot)
        requires
            self.wf(),
        ensures
            snapshot.valid(),
            snapshot.state() == self@,
    {
        ExecutorSnapshot {
            owner: self.owner.clone(),
            token_contract: self.token_contract.clone(),
            agent_account: self.agent_account.clone(),
            required_signatures: self.validators.required_signatures(),
            validators: self.validators.entries(),
            intents: self.intents.intents(),
            attestations: self.attestations.entries(),
        }
    }

    /// The engine in the state that `snapshot` describes.  There is none
    /// when the snapshot is not valid.
    pub fn restore(snapshot: &ExecutorSnapshot) -> (res: Option<Self>)
        ensures
            match res {
                Some(engine) => snapshot.valid() && engine.wf() && engine@ == snapshot.state(),
                None => !snapshot.valid(),
            },
    {
        let validators = match ValidatorRegistry::from_entries(
            snapshot.required_signatures,
            &snapshot.validators,
        ) {
            Some(validators) => validators,
            None => {
                return None;
            },
        };
        let intents = match IntentStore::from_intents(&snapshot.intents) {
            Some(intents) => intents,
            None => {
                return None;
            },
        };
        let attestations = match AttestationLog::from_entries(&snapshot.attestations) {
            Some(attestations) => attestations,
            None => {
                return None;
            },
        };
        Some(
            CrossChainExecutor {
                owner: snapshot.owner.clone(),
                token_contract: snapshot.token_contract.clone(),
                agent_account: snapshot.agent_account.clone(),
                validators,
                intents,
                attestations,
            },
        )
    }

    /// The account that manages validators and threshold.
    pub fn owner(&self) -> (account: &String)
        ensures
            account@ == self@.owner,
    {
        &self.owner
    }

    /// The token contract that transfer requests go to.
    pub fn token_contract(&self) -> (account: &String)
        ensures
            account@ == self@.token_contract,
    {
        &self.token_contract
    }

    /// The account that creates and executes intents.
    pub fn agent_account(&self) -> (account: &String)
        ensures
            account@ == self@.agent_account,
    {
        &self.agent_account
    }

    /// The threshold of attestations.
    pub fn required_signatures(&self) -> (threshold: u32)
        requires
            self.wf(),
        ensures
            threshold == self@.registry.required_signatures,
            threshold > 0,
    {
        self.validators.required_signatures()
    }

    /// The validator registry, to read.
    pub fn registry(&self) -> (registry: &ValidatorRegistry)
        requires
            self.wf(),
        ensures
            registry.wf(),
            registry@ == self@.registry,
    {
        &self.validators
    }

    /// The intent store, to read.
    pub fn store(&self) -> (store: &IntentStore)
        requires
            self.wf(),
        ensures
            store.wf(),
            store@ == self@.intents,
    {
        &self.intents
    }

    /// The attestation log, to read.
    pub fn attestations(&self) -> (log: &AttestationLog)
        requires
            self.wf(),
        ensures
            log.wf(),
            log@ == self@.attestations,
    {
        &self.attestations
    }

    /// Whether `account_id` is an active validator.
    pub fn is_validator(&self, account_id: String) -> (active: bool)
        requires
            self.wf(),
        ensures
            active == self@.registry.active().contains(account_id@),
    {
        self.validators.is_validator(&account_id)
    }

    /// The status of the intent under `intent_id`, if there is one.
    pub fn get_intent_status(&self, intent_id: String) -> (status: Option<IntentStatus>)
        requires
            self.wf(),
        ensures
            match status {
                Some(found) => self@.status_of(intent_id@) == Some(found@),
                None => self@.status_of(intent_id@) is None,
            },
    {
        match self.intents.get(&intent_id) {
            Some(intent) => Some(intent.status.clone()),
            None => None,
        }
    }

    /// The intent under `intent_id`, if there is one.
    pub fn get_intent(&self, intent_id: &String) -> (found: Option<&CrossChainIntent>)
        requires
            self.wf(),
        ensures
            match found {
                Some(intent) => self@.intents.contains_key(intent_id@) && intent@
                    == self@.intents[intent_id@],
                None => !self@.intents.contains_key(intent_id@),
            },
    {
        self.intents.get(intent_id)
    }

    /// The validators that vouched for the transaction that the proof of the
    /// intent under `intent_id` names, each once; none when there is no such
    /// intent.
    pub fn collect_attestations(&self, intent_id: &String) -> (collected: Vec<String>)
        requires
            self.wf(),
        ensures
            texts(collected@).no_duplicates(),
            self@.intents.contains_key(intent_id@) ==> texts(collected@).to_set()
                == self@.attesters_of(self@.intents[intent_id@].proof),
            !self@.intents.contains_key(intent_id@) ==> collected@.len() == 0,
    {
        match self.intents.get(intent_id) {
            Some(intent) => self.attestations.attesters(
                &intent.proof.transaction_hash,
                intent.proof.block_number,
            ),
            None => Vec::new(),
        }
    }

    /// Whether the proof of the intent under `intent_id` is valid: enough
    /// distinct active validators are among those collected for it, and its
    /// block is not above `finalized_height`.  No proof of no intent is
    /// valid.
    pub fn is_proof_valid(&self, intent_id: &String, finalized_height: u64) -> (valid: bool)
        requires
            self.wf(),
        ensures
            valid == (self@.intents.contains_key(intent_id@) && self@.proof_valid(
                self@.intents[intent_id@].proof,
                finalized_height,
            )),
    {
        match self.intents.get(intent_id) {
            None => false,
            Some(intent) => {
                let collected = self.collect_attestations(intent_id);
                self.validators.has_quorum(&collected) && intent.proof.block_number
                    <= finalized_height
            },
        }
    }

    /// Passes when `caller` is the owner.
    fn assert_owner(&self, caller: &String) -> (res: Result<(), BridgeError>)
        ensures
            res == if caller@ == self@.owner {
                Ok::<(), BridgeError>(())
            } else {
                Err::<(), BridgeError>(BridgeError::Unauthorized)
            },
    {
        if *caller == self.owner {
            Ok(())
        } else {
            Err(BridgeError::Unauthorized)
        }
    }

    /// Passes when `caller` is the agent.
    fn assert_agent(&self, caller: &String) -> (res: Result<(), BridgeError>)
        ensures
            res == if caller@ == self@.agent_account {
                Ok::<(), BridgeError>(())
            } else {
                Err::<(), BridgeError>(BridgeError::Unauthorized)
            },
    {
        if *caller == self.agent_account {
            Ok(())
        } else {
            Err(BridgeError::Unauthorized)
        }
    }

    /// Passes when `caller` is the token contract.
    fn assert_token_contract(&self, caller: &String) -> (res: Result<(), BridgeError>)
        ensures
            res == if caller@ == self@.token_contract {
                Ok::<(), BridgeError>(())
            } else {
                Err::<(), BridgeError>(BridgeError::Unauthorized)
            },
    {
        if *caller == self.token_contract {
            Ok(())
        } else {
            Err(BridgeError::Unauthorized)
        }
    }

    /// The owner adds `validator` as an active validator, or makes it active
    /// again.  Refused with `Unauthorized` when `caller` is not the owner.
    pub fn add_validator(
        &mut self,
        caller: &String,
        validator: String,
    ) -> (res: Result<(), BridgeError>)
        requires
            old(self).wf(),
        ensures
            final(self).wf(),
            final(self)@ == old(self)@.add_validator(caller@, validator@).next,
            res == old(self)@.add_validator(caller@, validator@).result,
    {
        if let Err(error) = self.assert_owner(caller) {
            return Err(error);
        }
        self.validators.add(validator);
        Ok(())
    }

    /// The owner deactivates `validator`.  Refused with `Unauthorized` when
    /// `caller` is not the owner, else with `QuorumViolation` when
    /// `validator` is active and no more validators are active than the
    /// threshold asks for.
    pub fn remove_validator(
        &mut self,
        caller: &String,
        validator: &String,
    ) -> (res: Result<(), BridgeError>)
        requires
            old(self).wf(),
        ensures
            final(self).wf(),
            final(self)@ == old(self)@.remove_validator(caller@, validator@).next,
            res == old(self)@.remove_validator(caller@, validator@).result,
    {
        if let Err(error) = self.assert_owner(caller) {
            return Err(error);
        }
        self.validators.remove(validator)
    }

    /// The owner replaces the threshold.  Refused with `Unauthorized` when
    /// `caller` is not the owner, else with `InvalidThreshold` when
    /// `threshold` is zero or above the number of active validators.
    pub fn set_required_signatures(
        &mut self,
        caller: &String,
        threshold: u32,
    ) -> (res: Result<(), BridgeError>)
        requires
            old(self).wf(),
        ensures
            final(self).wf(),
            final(self)@ == old(self)@.set_required_signatures(caller@, threshold as nat).next,
            res == old(self)@.set_required_signatures(caller@, threshold as nat).result,
    {
        if let Err(error) = self.assert_owner(caller) {
            return Err(error);
        }
        self.validators.set_required_signatures(threshold)
    }

    /// The validator `caller` vouches for the transaction `transaction_hash`
    /// in block `block_number`.  Refused with `Unauthorized` when `caller` is
    /// not an active validator.  Vouching twice changes nothing.
    pub fn submit_attestation(
        &mut self,
        caller: &String,
        transaction_hash: String,
        block_number: u64,
    ) -> (res: Result<(), BridgeError>)
        requires
            old(self).wf(),
        ensures
            final(self).wf(),
            final(self)@ == old(self)@.submit_attestation(
                caller@,
                transaction_hash@,
                block_number,
            ).next,
            res == old(self)@.submit_attestation(caller@, transaction_hash@, block_number).result,
    {
        if !self.validators.is_validator(caller) {
            return Err(BridgeError::Unauthorized);
        }
        self.attestations.record(
            Attestation { validator: caller.clone(), transaction_hash, block_number },
        );
        Ok(())
    }

    /// The agent creates `intent`, which is stored as `Pending`.  Refused
    /// with `Unauthorized` when `caller` is not the agent, else with
    /// `DuplicateIntent` when an intent with the same id is stored.
    pub fn create_intent(
        &mut self,
        caller: &String,
        intent: CrossChainIntent,
    ) -> (res: Result<IntentCreated, BridgeError>)
        requires
            old(self).wf(),
        ensures
            final(self).wf(),
            final(self)@ == old(self)@.create_intent(caller@, intent@).next,
            reported(res) == old(self)@.create_intent(caller@, intent@).result,
    {
        if let Err(error) = self.assert_agent(caller) {
            return Err(error);
        }
        let id = intent.id.clone();
        match self.intents.create(intent) {
            Ok(()) => Ok(IntentCreated { id }),
            Err(error) => Err(error),
        }
    }

    /// The agent executes the intent under `intent_id`, with the height up
    /// to which the source chain is final.  Refused with `Unauthorized` when
    /// `caller` is not the agent, else with `NotFound` when there is no such
    /// intent, else with `IllegalTransition` when the intent is not
    /// `Pending`.  With a valid proof the intent becomes `Executing` and its
    /// transfer request is handed out; without, the intent becomes `Failed`
    /// and nothing is handed out.
    pub fn execute_intent(
        &mut self,
        caller: &String,
        intent_id: String,
        finalized_height: u64,
    ) -> (res: Result<ExecutionOutcome, BridgeError>)
        requires
            old(self).wf(),
        ensures
            final(self).wf(),
            final(self)@ == old(self)@.execute_intent(caller@, intent_id@, finalized_height).next,
            reported(res) == old(self)@.execute_intent(
                caller@,
                intent_id@,
                finalized_height,
            ).result,
    {
        if let Err(error) = self.assert_agent(caller) {
            return Err(error);
        }
        let dispatch = match self.intents.get(&intent_id) {
            None => {
                return Err(BridgeError::NotFound);
            },
            Some(intent) => {
                if !intent.status.is_pending() {
                    return Err(BridgeError::IllegalTransition);
                }
                if self.is_proof_valid(&intent_id, finalized_height) {
                    Some(
                        TransferRequest {
                            intent_id: intent.id.clone(),
                            token_contract: self.token_contract.clone(),
                            receiver: intent.receiver.clone(),
                            amount: intent.amount,
                            deposit: TRANSFER_DEPOSIT,
                            gas: TRANSFER_GAS,
                        },
                    )
                } else {
                    None
                }
            },
        };
        proof {
            self.intents.lemma_wf();
        }
        match dispatch {
            Some(request) => match self.intents.transition(&intent_id, IntentStatus::Executing) {
                Ok(()) => Ok(ExecutionOutcome::Dispatched(request)),
                Err(error) => Err(error),
            },
            None => {
                let reason = "insufficient attestations".to_owned();
                match self.intents.transition(&intent_id, IntentStatus::Failed(reason)) {
                    Ok(()) => Ok(ExecutionOutcome::InsufficientAttestations),
                    Err(error) => Err(error),
                }
            },
        }
    }

    /// The token contract acknowledges the transfer of the intent under
    /// `intent_id`: accepted, the intent becomes `Completed`; rejected, it
    /// becomes `Failed` with the reason given.  Refused with `Unauthorized`
    /// when `caller` is not the token contract, else with `NotFound` when
    /// there is no such intent, else with `IllegalTransition` when the
    /// intent is not `Executing`.
    pub fn resolve_transfer(
        &mut self,
        caller: &String,
        intent_id: &String,
        ack: TransferAck,
    ) -> (res: Result<(), BridgeError>)
        requires
            old(self).wf(),
        ensures
            final(self).wf(),
            final(self)@ == old(self)@.resolve_transfer(caller@, intent_id@, ack@).next,
            res == old(self)@.resolve_transfer(caller@, intent_id@, ack@).result,
    {
        if let Err(error) = self.assert_token_contract(caller) {
            return Err(error);
        }
        match self.intents.get(intent_id) {
            None => {
                return Err(BridgeError::NotFound);
            },
            Some(intent) => {
                match intent.status {
                    IntentStatus::Executing => {},
                    _ => {
                        return Err(BridgeError::IllegalTransition);
                    },
                }
            },
        }
        self.intents.transition(intent_id, ack.into_status())
    }
}

} // verus!
