//! What holds of the settlement engine over whole histories of operations.
//!
//! The operations of the engine are stated over [`ExecutorView`]; a history
//! is a sequence of [`Operation`]s run from some state.  The laws below are
//! proved of every state that meets the model's invariant and of every
//! history, whoever the callers are.
use crate::attestation::{attesters, AttestationView};
use crate::model::{insufficient_reason, AckView, ExecutorView, OutcomeView, TransferRequestView};
use crate::types::{BridgeError, IntentView, StatusView};
use vstd::prelude::*;

verus! {

/// One call of one operation of the engine, with its arguments.
pub enum Operation {
    AddValidator { caller: Seq<char>, validator: Seq<char> },
    RemoveValidator { caller: Seq<char>, validator: Seq<char> },
    SetRequiredSignatures { caller: Seq<char>, threshold: nat },
    SubmitAttestation { caller: Seq<char>, transaction_hash: Seq<char>, block_number: u64 },
    CreateIntent { caller: Seq<char>, intent: IntentView },
    ExecuteIntent { caller: Seq<char>, intent_id: Seq<char>, finalized_height: u64 },
    ResolveTransfer { caller: Seq<char>, intent_id: Seq<char>, ack: AckView },
}

impl ExecutorView {
    /// The state after `op`.
    pub open spec fn apply(self, op: Operation) -> ExecutorView {
        match op {
            Operation::AddValidator { caller, validator } => self.add_validator(
                caller,
                validator,
            ).next,
            Operation::RemoveValidator { caller, validator } => self.remove_validator(
                caller,
                validator,
            ).next,
            Operation::SetRequiredSignatures { caller, threshold } => self.set_required_signatures(
                caller,
                threshold,
            ).next,
            Operation::SubmitAttestation {
                caller,
                transaction_hash,
                block_number,
            } => self.submit_attestation(caller, transaction_hash, block_number).next,
            Operation::CreateIntent { caller, intent } => self.create_intent(caller, intent).next,
            Operation::ExecuteIntent { caller, intent_id, finalized_height } => self.execute_intent(
                caller,
                intent_id,
                finalized_height,
            ).next,
            Operation::ResolveTransfer { caller, intent_id, ack } => self.resolve_transfer(
                caller,
                intent_id,
                ack,
            ).next,
        }
    }

    /// The transfer request that `op` hands out, if it hands one out.  Only
    /// an execution does.
    pub open spec fn dispatched(self, op: Operation) -> Option<TransferRequestView> {
        match op {
            Operation::ExecuteIntent { caller, intent_id, finalized_height } => {
                match self.execute_intent(caller, intent_id, finalized_height).result {
                    Ok(OutcomeView::Dispatched(request)) => Some(request),
                    _ => None,
                }
            },
            _ => None,
        }
    }

    /// The error with which `op` is refused, if it is.
    pub open spec fn refusal(self, op: Operation) -> Option<BridgeError> {
        match op {
            Operation::AddValidator { caller, validator } => error_of(
                self.add_validator(caller, validator).result,
            ),
            Operation::RemoveValidator { caller, validator } => error_of(
                self.remove_validator(caller, validator).result,
            ),
            Operation::SetRequiredSignatures { caller, threshold } => error_of(
                self.set_required_signatures(caller, threshold).result,
            ),
            Operation::SubmitAttestation { caller, transaction_hash, block_number } => error_of(
                self.submit_attestation(caller, transaction_hash, block_number).result,
            ),
            Operation::CreateIntent { caller, intent } => error_of(
                self.create_intent(caller, intent).result,
            ),
            Operation::ExecuteIntent { caller, intent_id, finalized_height } => error_of(
                self.execute_intent(caller, intent_id, finalized_height).result,
            ),
            Operation::ResolveTransfer { caller, intent_id, ack } => error_of(
                self.resolve_transfer(caller, intent_id, ack).result,
            ),
        }
    }

    /// The state after the operations `ops`, one after the other.
    pub open spec fn run(self, ops: Seq<Operation>) -> ExecutorView
        decreases ops.len(),
    {
        if ops.len() == 0 {
            self
        } else {
            self.apply(ops[0]).run(ops.drop_first())
        }
    }

    /// How many transfer requests for the intent `id` the operations `ops`
    /// hand out, run one after the other.
    pub open spec fn dispatches(self, ops: Seq<Operation>, id: Seq<char>) -> nat
        decreases ops.len(),
    {
        if ops.len() == 0 {
            0
        } else {
            let here: nat = match self.dispatched(ops[0]) {
                Some(request) => if request.intent_id == id {
                    1
                } else {
                    0
                },
                None => 0,
            };
            here + self.apply(ops[0]).dispatches(ops.drop_first(), id)
        }
    }
}

/// The error that a result carries, if it carries one.
pub open spec fn error_of<T>(result: Result<T, BridgeError>) -> Option<BridgeError> {
    match result {
        Ok(_) => None,
        Err(error) => Some(error),
    }
}

/// A refused operation changes nothing at all.
pub proof fn lemma_refused_changes_nothing(state: ExecutorView, op: Operation)
    requires
        state.refusal(op) is Some,
    ensures
        state.apply(op) == state,
{
}

/// Owner, token contract and agent are set once: no operation changes them.
pub proof fn lemma_apply_keeps_configuration(state: ExecutorView, op: Operation)
    ensures
        state.apply(op).owner == state.owner,
        state.apply(op).token_contract == state.token_contract,
        state.apply(op).agent_account == state.agent_account,
{
}

/// Who may change what: validators and threshold change only at the word of
/// the owner, intents are created and executed only at the word of the
/// agent, transfers are resolved only at the word of the token contract, and
/// attestations are recorded only at the word of an active validator.
pub proof fn lemma_changes_need_the_role(state: ExecutorView, op: Operation)
    ensures
        state.apply(op).registry != state.registry ==> (match op {
            Operation::AddValidator { caller, .. } => caller == state.owner,
            Operation::RemoveValidator { caller, .. } => caller == state.owner,
            Operation::SetRequiredSignatures { caller, .. } => caller == state.owner,
            _ => false,
        }),
        state.apply(op).intents != state.intents ==> (match op {
            Operation::CreateIntent { caller, .. } => caller == state.agent_account,
            Operation::ExecuteIntent { caller, .. } => caller == state.agent_account,
            Operation::ResolveTransfer { caller, .. } => caller == state.token_contract,
            _ => false,
        }),
        state.apply(op).attestations != state.attestations ==> (match op {
            Operation::SubmitAttestation { caller, .. } => state.registry.active().contains(
                caller,
            ),
            _ => false,
        }),
{
}

/// An intent reaches a final status on two paths only.  It becomes
/// `Completed` only when the token contract accepts its transfer while it is
/// `Executing`.  It becomes `Failed` only when the token contract rejects
/// its transfer while it is `Executing`, with the reason given, or when the
/// agent executes it while it is `Pending` and its proof is not valid.
pub proof fn lemma_final_status_has_a_cause(state: ExecutorView, op: Operation, id: Seq<char>)
    requires
        state.inv(),
        state.intents.contains_key(id),
        !state.intents[id].status.is_final(),
        state.apply(op).intents[id].status.is_final(),
    ensures
        match op {
            Operation::ResolveTransfer { caller, intent_id, ack } => {
                &&& caller == state.token_contract
                &&& intent_id == id
                &&& state.intents[id].status is Executing
                &&& state.apply(op).intents[id].status == ack.status()
            },
            Operation::ExecuteIntent { caller, intent_id, finalized_height } => {
                &&& caller == state.agent_account
                &&& intent_id == id
                &&& state.intents[id].status is Pending
                &&& !state.proof_valid(state.intents[id].proof, finalized_height)
                &&& state.apply(op).intents[id].status == StatusView::Failed(insufficient_reason())
            },
            _ => false,
        },
{
}

/// Only the creation of an intent adds an id to the store, and it adds the
/// id of the intent created, as `Pending`.
pub proof fn lemma_only_creation_adds(state: ExecutorView, op: Operation, id: Seq<char>)
    requires
        !state.intents.contains_key(id),
        state.apply(op).intents.contains_key(id),
    ensures
        op matches Operation::CreateIntent { caller, intent } && caller == state.agent_account
            && intent.id == id && state.apply(op).intents[id] == intent.with_status(
            StatusView::Pending,
        ),
{
}

/// Every operation keeps the model's invariant.
pub proof fn lemma_apply_keeps_inv(state: ExecutorView, op: Operation)
    requires
        state.inv(),
    ensures
        state.apply(op).inv(),
{
    match op {
        Operation::AddValidator { caller, validator } => {
            state.registry.lemma_active(validator);
        },
        Operation::RemoveValidator { caller, validator } => {
            state.registry.lemma_active(validator);
        },
        _ => {},
    }
}

/// Every history keeps the model's invariant.
pub proof fn lemma_run_keeps_inv(state: ExecutorView, ops: Seq<Operation>)
    requires
        state.inv(),
    ensures
        state.run(ops).inv(),
    decreases ops.len(),
{
    if ops.len() > 0 {
        lemma_apply_keeps_inv(state, ops[0]);
        lemma_run_keeps_inv(state.apply(ops[0]), ops.drop_first());
    }
}

/// Once the threshold can be met by the active validators, no operation
/// takes that away: a removal or a new threshold that would is refused.
pub proof fn lemma_apply_keeps_quorum_reachable(state: ExecutorView, op: Operation)
    requires
        state.inv(),
        state.registry.quorum_reachable(),
    ensures
        state.apply(op).registry.quorum_reachable(),
{
    match op {
        Operation::AddValidator { caller, validator } => {
            state.registry.lemma_active(validator);
        },
        Operation::RemoveValidator { caller, validator } => {
            state.registry.lemma_active(validator);
        },
        _ => {},
    }
}

/// No operation deletes an intent or changes anything of it but the status,
/// and the status only moves along the lifecycle: it stays, or it becomes a
/// status that the one before leads to.
pub proof fn lemma_apply_moves_forward(state: ExecutorView, op: Operation, id: Seq<char>)
    requires
        state.inv(),
        state.intents.contains_key(id),
    ensures
        state.apply(op).intents.contains_key(id),
        state.apply(op).intents[id].same_core(state.intents[id]),
        state.apply(op).intents[id].status == state.intents[id].status
            || state.intents[id].status.can_become(state.apply(op).intents[id].status),
        state.intents[id].status.rank() <= state.apply(op).intents[id].status.rank(),
        state.intents[id].status.is_final() ==> state.apply(op).intents[id].status
            == state.intents[id].status,
{
}

/// No history deletes an intent or changes anything of it but the status,
/// no history moves a status backwards, and a final status stays for good.
/// In particular no intent ever becomes `Pending` again.
pub proof fn lemma_run_moves_forward(state: ExecutorView, ops: Seq<Operation>, id: Seq<char>)
    requires
        state.inv(),
        state.intents.contains_key(id),
    ensures
        state.run(ops).intents.contains_key(id),
        state.run(ops).intents[id].same_core(state.intents[id]),
        state.intents[id].status.rank() <= state.run(ops).intents[id].status.rank(),
        state.intents[id].status.is_final() ==> state.run(ops).intents[id].status
            == state.intents[id].status,
    decreases ops.len(),
{
    if ops.len() > 0 {
        lemma_apply_keeps_inv(state, ops[0]);
        lemma_apply_moves_forward(state, ops[0], id);
        lemma_run_moves_forward(state.apply(ops[0]), ops.drop_first(), id);
    }
}

/// An operation hands out a transfer request for `id` only when the intent
/// under `id` is `Pending`, and leaves it `Executing`.
pub proof fn lemma_dispatch_leaves_pending(state: ExecutorView, op: Operation, id: Seq<char>)
    requires
        state.inv(),
        state.dispatched(op) is Some,
        state.dispatched(op)->Some_0.intent_id == id,
    ensures
        state.status_of(id) == Some(StatusView::Pending),
        state.apply(op).status_of(id) == Some(StatusView::Executing),
        state.dispatched(op)->Some_0 == state.request_for(state.intents[id]),
{
}

/// Whatever the history and whoever the callers, at most one transfer
/// request is ever handed out for an intent; and none at all once the intent
/// has left `Pending`.
pub proof fn lemma_at_most_one_dispatch(state: ExecutorView, ops: Seq<Operation>, id: Seq<char>)
    requires
        state.inv(),
    ensures
        state.dispatches(ops, id) <= 1,
        state.intents.contains_key(id) && !(state.intents[id].status is Pending)
            ==> state.dispatches(ops, id) == 0,
    decreases ops.len(),
{
    if ops.len() > 0 {
        let op = ops[0];
        let next = state.apply(op);
        lemma_apply_keeps_inv(state, op);
        lemma_at_most_one_dispatch(next, ops.drop_first(), id);
        if state.dispatched(op) is Some && state.dispatched(op)->Some_0.intent_id == id {
            lemma_dispatch_leaves_pending(state, op, id);
        } else if state.intents.contains_key(id) {
            lemma_apply_moves_forward(state, op, id);
        }
    }
}

/// Creating an intent a second time under the same id is refused with
/// `DuplicateIntent` and changes nothing, whether or not the first creation
/// was itself refused as a duplicate.  Both calls come from the agent.
pub proof fn lemma_second_create_is_refused(
    state: ExecutorView,
    first: IntentView,
    second: IntentView,
)
    requires
        first.id == second.id,
    ensures
        ({
            let after_first = state.create_intent(state.agent_account, first).next;
            let again = after_first.create_intent(after_first.agent_account, second);
            &&& again.result == Err::<Seq<char>, BridgeError>(BridgeError::DuplicateIntent)
            &&& again.next == after_first
        }),
{
}

/// Executing an id under which no intent was created is refused with
/// `NotFound` and changes nothing.
pub proof fn lemma_execute_unknown_is_refused(
    state: ExecutorView,
    id: Seq<char>,
    finalized_height: u64,
)
    requires
        !state.intents.contains_key(id),
    ensures
        state.execute_intent(state.agent_account, id, finalized_height).result == Err::<
            OutcomeView,
            BridgeError,
        >(BridgeError::NotFound),
        state.execute_intent(state.agent_account, id, finalized_height).next == state,
{
}

/// Whether `op` is a creation, by the agent of `state`, of an intent with
/// the id `id`.
pub open spec fn creates(state: ExecutorView, op: Operation, id: Seq<char>) -> bool {
    op matches Operation::CreateIntent { caller, intent } && caller == state.agent_account
        && intent.id == id
}

/// After a history in which the agent never created an intent under `id`,
/// from a state that holds none, there is still none, and executing `id` is
/// refused with `NotFound`.
pub proof fn lemma_never_created_is_not_found(
    state: ExecutorView,
    ops: Seq<Operation>,
    id: Seq<char>,
    finalized_height: u64,
)
    requires
        !state.intents.contains_key(id),
        forall|i: int| 0 <= i < ops.len() ==> !creates(state, #[trigger] ops[i], id),
    ensures
        state.run(ops).agent_account == state.agent_account,
        !state.run(ops).intents.contains_key(id),
        state.run(ops).execute_intent(state.agent_account, id, finalized_height).result == Err::<
            OutcomeView,
            BridgeError,
        >(BridgeError::NotFound),
    decreases ops.len(),
{
    if ops.len() > 0 {
        let next = state.apply(ops[0]);
        lemma_apply_keeps_configuration(state, ops[0]);
        assert(!creates(state, ops[0], id));
        if next.intents.contains_key(id) {
            lemma_only_creation_adds(state, ops[0], id);
        }
        assert forall|i: int| 0 <= i < ops.drop_first().len() implies !creates(
            next,
            #[trigger] ops.drop_first()[i],
            id,
        ) by {
            assert(ops.drop_first()[i] == ops[i + 1]);
        }
        lemma_never_created_is_not_found(next, ops.drop_first(), id, finalized_height);
    }
}

/// Executing an intent that is `Executing`, `Completed` or `Failed` is
/// refused with `IllegalTransition`, changes nothing and hands out nothing.
pub proof fn lemma_execute_again_is_refused(
    state: ExecutorView,
    id: Seq<char>,
    finalized_height: u64,
)
    requires
        state.intents.contains_key(id),
        !(state.intents[id].status is Pending),
    ensures
        state.execute_intent(state.agent_account, id, finalized_height).result == Err::<
            OutcomeView,
            BridgeError,
        >(BridgeError::IllegalTransition),
        state.execute_intent(state.agent_account, id, finalized_height).next == state,
        state.dispatched(
            Operation::ExecuteIntent {
                caller: state.agent_account,
                intent_id: id,
                finalized_height,
            },
        ) is None,
{
}

/// Executing a pending intent for whose transaction fewer distinct active
/// validators vouched than the threshold asks for makes the intent `Failed`
/// with the reason "insufficient attestations" and hands out nothing.
pub proof fn lemma_execute_without_quorum_fails(
    state: ExecutorView,
    id: Seq<char>,
    finalized_height: u64,
)
    requires
        state.status_of(id) == Some(StatusView::Pending),
        state.registry.attested(state.attesters_of(state.intents[id].proof))
            < state.registry.required_signatures,
    ensures
        ({
            let step = state.execute_intent(state.agent_account, id, finalized_height);
            &&& step.result == Ok::<OutcomeView, BridgeError>(OutcomeView::InsufficientAttestations)
            &&& step.next.status_of(id) == Some(StatusView::Failed(insufficient_reason()))
            &&& state.dispatched(
                Operation::ExecuteIntent {
                    caller: state.agent_account,
                    intent_id: id,
                    finalized_height,
                },
            ) is None
        }),
{
}

/// Adding a validator twice is the same as adding it once.
pub proof fn lemma_add_validator_twice_is_once(state: ExecutorView, validator: Seq<char>)
    ensures
        ({
            let once = state.add_validator(state.owner, validator).next;
            let twice = once.add_validator(once.owner, validator).next;
            twice == once
        }),
{
    let once = state.add_validator(state.owner, validator).next;
    assert(once.registry.validators.insert(validator, true) =~= once.registry.validators);
}

/// A removal that would leave fewer active validators than the threshold
/// asks for is refused with `QuorumViolation` and changes nothing.
pub proof fn lemma_removal_below_threshold_is_refused(state: ExecutorView, validator: Seq<char>)
    requires
        state.inv(),
        state.registry.remove(validator).active().len() != state.registry.active().len(),
        state.registry.remove(validator).active().len() < state.registry.required_signatures,
    ensures
        state.remove_validator(state.owner, validator).result == Err::<(), BridgeError>(
            BridgeError::QuorumViolation,
        ),
        state.remove_validator(state.owner, validator).next == state,
{
    state.registry.lemma_active(validator);
}

/// The status that can be read follows the life of an intent: `Pending`
/// after creation; from there, with a valid proof, `Executing` after
/// execution; from there `Completed` after an accepting acknowledgment, and
/// `Failed` with the very reason given after a rejecting one.
pub proof fn lemma_status_follows_lifecycle(
    state: ExecutorView,
    intent: IntentView,
    finalized_height: u64,
    reason: Seq<char>,
)
    requires
        state.inv(),
        !state.intents.contains_key(intent.id),
    ensures
        ({
            let created = state.create_intent(state.agent_account, intent).next;
            let executed = created.execute_intent(
                created.agent_account,
                intent.id,
                finalized_height,
            );
            let accepted = executed.next.resolve_transfer(
                executed.next.token_contract,
                intent.id,
                AckView::Accepted,
            ).next;
            let rejected = executed.next.resolve_transfer(
                executed.next.token_contract,
                intent.id,
                AckView::Rejected(reason),
            ).next;
            &&& created.status_of(intent.id) == Some(StatusView::Pending)
            &&& created.proof_valid(intent.proof, finalized_height) ==> {
                &&& executed.result == Ok::<OutcomeView, BridgeError>(
                    OutcomeView::Dispatched(created.request_for(intent)),
                )
                &&& executed.next.status_of(intent.id) == Some(StatusView::Executing)
                &&& accepted.status_of(intent.id) == Some(StatusView::Completed)
                &&& rejected.status_of(intent.id) == Some(StatusView::Failed(reason))
            }
        }),
{
}

/// An attestation counts towards the proof of every intent that names its
/// transaction and block, and of no other.
pub proof fn lemma_attestation_counts_for_its_transaction(
    state: ExecutorView,
    attestation: AttestationView,
    transaction_hash: Seq<char>,
    block_number: u64,
)
    requires
        state.registry.active().contains(attestation.validator),
    ensures
        ({
            let next = state.submit_attestation(
                attestation.validator,
                attestation.transaction_hash,
                attestation.block_number,
            ).next;
            let before = attesters(state.attestations, transaction_hash, block_number);
            let after = attesters(next.attestations, transaction_hash, block_number);
            after == if attestation.transaction_hash == transaction_hash
                && attestation.block_number == block_number {
                before.insert(attestation.validator)
            } else {
                before
            }
        }),
{
    let next = state.submit_attestation(
        attestation.validator,
        attestation.transaction_hash,
        attestation.block_number,
    ).next;
    let before = attesters(state.attestations, transaction_hash, block_number);
    let after = attesters(next.attestations, transaction_hash, block_number);
    if attestation.transaction_hash == transaction_hash && attestation.block_number
        == block_number {
        assert(after =~= before.insert(attestation.validator));
    } else {
        assert(after =~= before);
    }
}

} // verus!
