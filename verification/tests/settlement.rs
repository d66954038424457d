use cross_chain_executor::attestation::{Attestation, AttestationLog};
use cross_chain_executor::engine::{
    CrossChainExecutor, ExecutionOutcome, IntentCreated, TransferAck, TransferRequest,
};
use cross_chain_executor::model::{TRANSFER_DEPOSIT, TRANSFER_GAS};
use cross_chain_executor::registry::ValidatorRegistry;
use cross_chain_executor::store::IntentStore;
use cross_chain_executor::table::KeyedTable;
use cross_chain_executor::types::{BridgeError, BridgeProof, CrossChainIntent, IntentStatus};

fn s(text: &str) -> String {
    text.to_string()
}

fn intent(id: &str, amount: u128) -> CrossChainIntent {
    CrossChainIntent {
        id: s(id),
        sender: s("0xsender"),
        receiver: s("alice.near"),
        token: s("0xtoken"),
        amount,
        proof: BridgeProof {
            block_number: 90,
            timestamp: 1_700_000_000,
            transaction_hash: s("0xabc"),
        },
        status: IntentStatus::Pending,
    }
}

fn engine(threshold: u32) -> CrossChainExecutor {
    CrossChainExecutor::new(s("token.near"), threshold, s("agent.near"), s("owner.near"), false)
        .ok()
        .unwrap()
}

/// An engine with validators v1, v2, v3 and threshold 2.
fn engine_with_three_validators() -> CrossChainExecutor {
    let mut e = engine(2);
    for v in ["v1.near", "v2.near", "v3.near"] {
        assert_eq!(e.add_validator(&s("owner.near"), s(v)), Ok(()));
    }
    e
}

#[test]
fn end_to_end_quorum_reached_then_completed() {
    let mut e = engine_with_three_validators();
    let created = e.create_intent(&s("agent.near"), intent("x1", 100));
    assert_eq!(created, Ok(IntentCreated { id: s("x1") }));
    assert_eq!(e.submit_attestation(&s("v1.near"), s("0xabc"), 90), Ok(()));
    assert_eq!(e.submit_attestation(&s("v2.near"), s("0xabc"), 90), Ok(()));

    let outcome = e.execute_intent(&s("agent.near"), s("x1"), 100);
    assert_eq!(
        outcome,
        Ok(ExecutionOutcome::Dispatched(TransferRequest {
            intent_id: s("x1"),
            token_contract: s("token.near"),
            receiver: s("alice.near"),
            amount: 100,
            deposit: 1,
            gas: 5_000_000_000_000,
        }))
    );
    assert_eq!(e.get_intent_status(s("x1")), Some(IntentStatus::Executing));

    assert_eq!(e.resolve_transfer(&s("token.near"), &s("x1"), TransferAck::Accepted), Ok(()));
    assert_eq!(e.get_intent_status(s("x1")), Some(IntentStatus::Completed));
}

#[test]
fn end_to_end_single_attestation_fails() {
    let mut e = engine_with_three_validators();
    assert!(e.create_intent(&s("agent.near"), intent("x1", 100)).is_ok());
    assert_eq!(e.submit_attestation(&s("v1.near"), s("0xabc"), 90), Ok(()));

    let outcome = e.execute_intent(&s("agent.near"), s("x1"), 100);
    assert_eq!(outcome, Ok(ExecutionOutcome::InsufficientAttestations));
    assert_eq!(
        e.get_intent_status(s("x1")),
        Some(IntentStatus::Failed(s("insufficient attestations")))
    );
}

#[test]
fn transfer_constants_have_their_values() {
    assert_eq!(TRANSFER_DEPOSIT, 1u128);
    assert_eq!(TRANSFER_GAS, 5_000_000_000_000u64);
}

#[test]
fn new_refuses_second_set_up_and_zero_threshold() {
    let again = CrossChainExecutor::new(s("t"), 1, s("a"), s("o"), true);
    assert_eq!(again.err(), Some(BridgeError::AlreadyInitialized));
    let zero = CrossChainExecutor::new(s("t"), 0, s("a"), s("o"), false);
    assert_eq!(zero.err(), Some(BridgeError::InvalidThreshold));
    let both = CrossChainExecutor::new(s("t"), 0, s("a"), s("o"), true);
    assert_eq!(both.err(), Some(BridgeError::AlreadyInitialized));
}

#[test]
fn new_engine_is_empty_and_configured() {
    let e = engine(3);
    assert_eq!(e.owner(), "owner.near");
    assert_eq!(e.token_contract(), "token.near");
    assert_eq!(e.agent_account(), "agent.near");
    assert_eq!(e.required_signatures(), 3);
    assert_eq!(e.registry().active_count(), 0);
    assert_eq!(e.store().len(), 0);
    assert_eq!(e.attestations().len(), 0);
    assert!(!e.is_validator(s("v1.near")));
    assert_eq!(e.get_intent_status(s("x1")), None);
}

#[test]
fn create_twice_reports_duplicate_and_changes_nothing() {
    let mut e = engine(1);
    assert!(e.create_intent(&s("agent.near"), intent("x1", 100)).is_ok());
    let second = e.create_intent(&s("agent.near"), intent("x1", 999));
    assert_eq!(second, Err(BridgeError::DuplicateIntent));
    assert_eq!(e.store().len(), 1);
    assert_eq!(e.get_intent(&s("x1")), Some(&intent("x1", 100)));
}

#[test]
fn create_stores_as_pending_whatever_status_came() {
    let mut e = engine(1);
    let mut given = intent("x1", 7);
    given.status = IntentStatus::Completed;
    assert!(e.create_intent(&s("agent.near"), given).is_ok());
    assert_eq!(e.get_intent_status(s("x1")), Some(IntentStatus::Pending));
}

#[test]
fn create_and_execute_are_for_the_agent_only() {
    let mut e = engine(1);
    assert_eq!(
        e.create_intent(&s("owner.near"), intent("x1", 1)),
        Err(BridgeError::Unauthorized)
    );
    assert_eq!(e.get_intent_status(s("x1")), None);
    assert!(e.create_intent(&s("agent.near"), intent("x1", 1)).is_ok());
    assert_eq!(e.execute_intent(&s("owner.near"), s("x1"), 100), Err(BridgeError::Unauthorized));
    assert_eq!(e.get_intent_status(s("x1")), Some(IntentStatus::Pending));
    // The caller is checked before the id is looked up.
    assert_eq!(e.execute_intent(&s("someone"), s("nope"), 100), Err(BridgeError::Unauthorized));
}

#[test]
fn execute_unknown_reports_not_found() {
    let mut e = engine_with_three_validators();
    assert_eq!(e.execute_intent(&s("agent.near"), s("ghost"), 100), Err(BridgeError::NotFound));
    assert_eq!(e.get_intent_status(s("ghost")), None);
    assert_eq!(e.store().len(), 0);
}

#[test]
fn execute_again_reports_illegal_transition_in_every_later_status() {
    let mut e = engine_with_three_validators();
    e.submit_attestation(&s("v1.near"), s("0xabc"), 90).unwrap();
    e.submit_attestation(&s("v2.near"), s("0xabc"), 90).unwrap();
    e.create_intent(&s("agent.near"), intent("x1", 100)).unwrap();

    // Executing
    assert!(matches!(
        e.execute_intent(&s("agent.near"), s("x1"), 100),
        Ok(ExecutionOutcome::Dispatched(_))
    ));
    assert_eq!(
        e.execute_intent(&s("agent.near"), s("x1"), 100),
        Err(BridgeError::IllegalTransition)
    );
    assert_eq!(e.get_intent_status(s("x1")), Some(IntentStatus::Executing));

    // Completed
    e.resolve_transfer(&s("token.near"), &s("x1"), TransferAck::Accepted).unwrap();
    assert_eq!(
        e.execute_intent(&s("agent.near"), s("x1"), 100),
        Err(BridgeError::IllegalTransition)
    );
    assert_eq!(e.get_intent_status(s("x1")), Some(IntentStatus::Completed));

    // Failed
    e.create_intent(&s("agent.near"), intent("x2", 100)).unwrap();
    e.execute_intent(&s("agent.near"), s("x2"), 100).unwrap();
    e.resolve_transfer(&s("token.near"), &s("x2"), TransferAck::Rejected(s("no funds"))).unwrap();
    assert_eq!(
        e.execute_intent(&s("agent.near"), s("x2"), 100),
        Err(BridgeError::IllegalTransition)
    );
    assert_eq!(e.get_intent_status(s("x2")), Some(IntentStatus::Failed(s("no funds"))));
}

#[test]
fn repeated_execution_hands_out_one_request() {
    let mut e = engine_with_three_validators();
    e.submit_attestation(&s("v1.near"), s("0xabc"), 90).unwrap();
    e.submit_attestation(&s("v3.near"), s("0xabc"), 90).unwrap();
    e.create_intent(&s("agent.near"), intent("x1", 100)).unwrap();
    let mut handed_out = 0;
    for _ in 0..5 {
        let outcome = e.execute_intent(&s("agent.near"), s("x1"), 100);
        if let Ok(ExecutionOutcome::Dispatched(_)) = outcome {
            handed_out += 1;
        }
    }
    e.resolve_transfer(&s("token.near"), &s("x1"), TransferAck::Accepted).unwrap();
    for _ in 0..5 {
        let outcome = e.execute_intent(&s("agent.near"), s("x1"), 100);
        if let Ok(ExecutionOutcome::Dispatched(_)) = outcome {
            handed_out += 1;
        }
    }
    assert_eq!(handed_out, 1);
}

#[test]
fn failed_for_want_of_quorum_stays_failed() {
    let mut e = engine_with_three_validators();
    e.create_intent(&s("agent.near"), intent("x1", 100)).unwrap();
    assert_eq!(
        e.execute_intent(&s("agent.near"), s("x1"), 100),
        Ok(ExecutionOutcome::InsufficientAttestations)
    );
    // Attestations that come later do not revive the intent.
    e.submit_attestation(&s("v1.near"), s("0xabc"), 90).unwrap();
    e.submit_attestation(&s("v2.near"), s("0xabc"), 90).unwrap();
    assert_eq!(
        e.execute_intent(&s("agent.near"), s("x1"), 100),
        Err(BridgeError::IllegalTransition)
    );
    assert_eq!(
        e.resolve_transfer(&s("token.near"), &s("x1"), TransferAck::Accepted),
        Err(BridgeError::IllegalTransition)
    );
    assert_eq!(
        e.get_intent_status(s("x1")),
        Some(IntentStatus::Failed(s("insufficient attestations")))
    );
}

#[test]
fn quorum_counts_distinct_active_validators_for_the_same_transaction() {
    let mut e = engine_with_three_validators();
    e.create_intent(&s("agent.near"), intent("x1", 100)).unwrap();
    // The same validator twice counts once.
    e.submit_attestation(&s("v1.near"), s("0xabc"), 90).unwrap();
    e.submit_attestation(&s("v1.near"), s("0xabc"), 90).unwrap();
    // Another transaction, and the same transaction in another block, do not count.
    e.submit_attestation(&s("v2.near"), s("0xdef"), 90).unwrap();
    e.submit_attestation(&s("v3.near"), s("0xabc"), 91).unwrap();
    assert_eq!(e.collect_attestations(&s("x1")), vec![s("v1.near")]);
    assert_eq!(e.attestations().len(), 3);
    assert_eq!(
        e.execute_intent(&s("agent.near"), s("x1"), 100),
        Ok(ExecutionOutcome::InsufficientAttestations)
    );
}

#[test]
fn attestation_of_a_removed_validator_does_not_count() {
    let mut e = engine_with_three_validators();
    e.create_intent(&s("agent.near"), intent("x1", 100)).unwrap();
    e.submit_attestation(&s("v1.near"), s("0xabc"), 90).unwrap();
    e.submit_attestation(&s("v2.near"), s("0xabc"), 90).unwrap();
    assert_eq!(e.remove_validator(&s("owner.near"), &s("v2.near")), Ok(()));
    assert_eq!(e.collect_attestations(&s("x1")), vec![s("v1.near"), s("v2.near")]);
    assert_eq!(
        e.execute_intent(&s("agent.near"), s("x1"), 100),
        Ok(ExecutionOutcome::InsufficientAttestations)
    );
}

#[test]
fn attestation_is_for_active_validators_only() {
    let mut e = engine_with_three_validators();
    assert_eq!(
        e.submit_attestation(&s("stranger.near"), s("0xabc"), 90),
        Err(BridgeError::Unauthorized)
    );
    assert_eq!(
        e.submit_attestation(&s("owner.near"), s("0xabc"), 90),
        Err(BridgeError::Unauthorized)
    );
    assert_eq!(e.attestations().len(), 0);
    e.remove_validator(&s("owner.near"), &s("v3.near")).unwrap();
    assert_eq!(
        e.submit_attestation(&s("v3.near"), s("0xabc"), 90),
        Err(BridgeError::Unauthorized)
    );
}

#[test]
fn block_above_finalized_height_makes_the_proof_invalid() {
    let mut e = engine_with_three_validators();
    e.submit_attestation(&s("v1.near"), s("0xabc"), 90).unwrap();
    e.submit_attestation(&s("v2.near"), s("0xabc"), 90).unwrap();
    e.create_intent(&s("agent.near"), intent("late", 5)).unwrap();
    e.create_intent(&s("agent.near"), intent("edge", 5)).unwrap();
    assert_eq!(
        e.execute_intent(&s("agent.near"), s("late"), 89),
        Ok(ExecutionOutcome::InsufficientAttestations)
    );
    // A block at the finalized height is final.
    assert!(matches!(
        e.execute_intent(&s("agent.near"), s("edge"), 90),
        Ok(ExecutionOutcome::Dispatched(_))
    ));
}

#[test]
fn collect_attestations_of_unknown_intent_is_empty() {
    let mut e = engine_with_three_validators();
    e.submit_attestation(&s("v1.near"), s("0xabc"), 90).unwrap();
    assert!(e.collect_attestations(&s("ghost")).is_empty());
}

#[test]
fn status_round_trip_keeps_the_reason_verbatim() {
    let mut e = engine_with_three_validators();
    e.submit_attestation(&s("v1.near"), s("0xabc"), 90).unwrap();
    e.submit_attestation(&s("v2.near"), s("0xabc"), 90).unwrap();
    e.create_intent(&s("agent.near"), intent("x1", 100)).unwrap();
    assert_eq!(e.get_intent_status(s("x1")), Some(IntentStatus::Pending));
    e.execute_intent(&s("agent.near"), s("x1"), 100).unwrap();
    let reason = "  Smart contract panicked: The account doesn't have enough balance \u{1F4A5}\n";
    assert_eq!(
        e.resolve_transfer(&s("token.near"), &s("x1"), TransferAck::Rejected(s(reason))),
        Ok(())
    );
    assert_eq!(e.get_intent_status(s("x1")), Some(IntentStatus::Failed(s(reason))));
}

#[test]
fn resolve_is_for_the_token_contract_and_for_executing_intents() {
    let mut e = engine_with_three_validators();
    e.submit_attestation(&s("v1.near"), s("0xabc"), 90).unwrap();
    e.submit_attestation(&s("v2.near"), s("0xabc"), 90).unwrap();
    e.create_intent(&s("agent.near"), intent("x1", 100)).unwrap();
    // Pending: not yet
    assert_eq!(
        e.resolve_transfer(&s("token.near"), &s("x1"), TransferAck::Accepted),
        Err(BridgeError::IllegalTransition)
    );
    assert_eq!(e.get_intent_status(s("x1")), Some(IntentStatus::Pending));
    e.execute_intent(&s("agent.near"), s("x1"), 100).unwrap();
    for caller in ["agent.near", "owner.near", "v1.near"] {
        assert_eq!(
            e.resolve_transfer(&s(caller), &s("x1"), TransferAck::Accepted),
            Err(BridgeError::Unauthorized)
        );
    }
    assert_eq!(
        e.resolve_transfer(&s("token.near"), &s("ghost"), TransferAck::Accepted),
        Err(BridgeError::NotFound)
    );
    assert_eq!(e.get_intent_status(s("x1")), Some(IntentStatus::Executing));
    assert_eq!(e.resolve_transfer(&s("token.near"), &s("x1"), TransferAck::Accepted), Ok(()));
    // Completed: not again
    assert_eq!(
        e.resolve_transfer(&s("token.near"), &s("x1"), TransferAck::Rejected(s("late"))),
        Err(BridgeError::IllegalTransition)
    );
    assert_eq!(e.get_intent_status(s("x1")), Some(IntentStatus::Completed));
}

#[test]
fn validators_are_managed_by_the_owner_only() {
    let mut e = engine(1);
    assert_eq!(e.add_validator(&s("agent.near"), s("v1.near")), Err(BridgeError::Unauthorized));
    assert!(!e.is_validator(s("v1.near")));
    assert_eq!(e.add_validator(&s("owner.near"), s("v1.near")), Ok(()));
    assert_eq!(e.add_validator(&s("owner.near"), s("v2.near")), Ok(()));
    assert!(e.is_validator(s("v1.near")));
    assert_eq!(
        e.remove_validator(&s("agent.near"), &s("v1.near")),
        Err(BridgeError::Unauthorized)
    );
    assert!(e.is_validator(s("v1.near")));
    assert_eq!(e.set_required_signatures(&s("agent.near"), 2), Err(BridgeError::Unauthorized));
    assert_eq!(e.required_signatures(), 1);
}

#[test]
fn add_validator_twice_is_the_same_as_once() {
    let mut e = engine(1);
    e.add_validator(&s("owner.near"), s("v1.near")).unwrap();
    e.add_validator(&s("owner.near"), s("v1.near")).unwrap();
    assert_eq!(e.registry().active_count(), 1);
    assert_eq!(e.registry().len(), 1);
    assert!(e.is_validator(s("v1.near")));
}

#[test]
fn remove_validator_below_threshold_is_rejected() {
    let mut e = engine_with_three_validators();
    assert_eq!(e.remove_validator(&s("owner.near"), &s("v1.near")), Ok(()));
    assert!(!e.is_validator(s("v1.near")));
    assert_eq!(e.registry().active_count(), 2);
    // Two are active and two are required.
    assert_eq!(
        e.remove_validator(&s("owner.near"), &s("v2.near")),
        Err(BridgeError::QuorumViolation)
    );
    assert!(e.is_validator(s("v2.near")));
    assert!(e.is_validator(s("v3.near")));
    assert_eq!(e.registry().active_count(), 2);
    // Nothing changes for an account that is not active, so that is no violation.
    assert_eq!(e.remove_validator(&s("owner.near"), &s("v1.near")), Ok(()));
    assert_eq!(e.remove_validator(&s("owner.near"), &s("never.near")), Ok(()));
    assert_eq!(e.registry().active_count(), 2);
    assert_eq!(e.registry().len(), 3);
}

#[test]
fn removed_validator_can_be_added_again() {
    let mut e = engine_with_three_validators();
    e.remove_validator(&s("owner.near"), &s("v1.near")).unwrap();
    assert!(!e.is_validator(s("v1.near")));
    e.add_validator(&s("owner.near"), s("v1.near")).unwrap();
    assert!(e.is_validator(s("v1.near")));
    assert_eq!(e.registry().active_count(), 3);
    assert_eq!(e.registry().len(), 3);
}

#[test]
fn threshold_must_be_above_zero_and_within_active_count() {
    let mut e = engine_with_three_validators();
    assert_eq!(e.set_required_signatures(&s("owner.near"), 0), Err(BridgeError::InvalidThreshold));
    assert_eq!(e.set_required_signatures(&s("owner.near"), 4), Err(BridgeError::InvalidThreshold));
    assert_eq!(e.required_signatures(), 2);
    assert_eq!(e.set_required_signatures(&s("owner.near"), 3), Ok(()));
    assert_eq!(e.required_signatures(), 3);
    assert_eq!(
        e.remove_validator(&s("owner.near"), &s("v1.near")),
        Err(BridgeError::QuorumViolation)
    );
    assert_eq!(e.set_required_signatures(&s("owner.near"), 1), Ok(()));
    assert_eq!(e.remove_validator(&s("owner.near"), &s("v1.near")), Ok(()));
}

#[test]
fn registry_counts_each_active_validator_once() {
    let mut r = ValidatorRegistry::new(2).ok().unwrap();
    r.add(s("a"));
    r.add(s("b"));
    r.add(s("c"));
    r.set_required_signatures(1).unwrap();
    r.remove(&s("c")).unwrap();
    r.set_required_signatures(2).unwrap();
    assert_eq!(r.count_active(&vec![]), 0);
    assert_eq!(r.count_active(&vec![s("a"), s("a"), s("a")]), 1);
    assert_eq!(r.count_active(&vec![s("a"), s("c"), s("x"), s("b"), s("a")]), 2);
    assert!(!r.has_quorum(&vec![s("a"), s("a"), s("c")]));
    assert!(r.has_quorum(&vec![s("b"), s("a")]));
    assert_eq!(r.validator_at(2), (&s("c"), false));
    assert_eq!(r.validator_at(0), (&s("a"), true));
}

#[test]
fn registry_new_refuses_zero() {
    assert_eq!(ValidatorRegistry::new(0).err(), Some(BridgeError::InvalidThreshold));
    let r = ValidatorRegistry::new(1).ok().unwrap();
    assert_eq!(r.required_signatures(), 1);
    assert_eq!(r.active_count(), 0);
    assert!(!r.is_validator(&s("a")));
    assert!(!r.has_quorum(&vec![s("a")]));
}

#[test]
fn store_keeps_intents_in_order_of_creation() {
    let mut store = IntentStore::new();
    assert_eq!(store.create(intent("b", 2)), Ok(()));
    assert_eq!(store.create(intent("a", 1)), Ok(()));
    assert_eq!(store.create(intent("b", 3)), Err(BridgeError::DuplicateIntent));
    assert_eq!(store.len(), 2);
    assert_eq!(store.intent_at(0), &intent("b", 2));
    assert_eq!(store.intent_at(1), &intent("a", 1));
    assert_eq!(store.get(&s("a")), Some(&intent("a", 1)));
    assert_eq!(store.get(&s("c")), None);
}

#[test]
fn status_moves_only_forward() {
    let pending = IntentStatus::Pending;
    let executing = IntentStatus::Executing;
    let completed = IntentStatus::Completed;
    let failed = IntentStatus::Failed(s("why"));
    let all = [&pending, &executing, &completed, &failed];
    let allowed = [
        [false, true, false, true],
        [false, false, true, true],
        [false, false, false, false],
        [false, false, false, false],
    ];
    for (i, from) in all.iter().enumerate() {
        for (j, to) in all.iter().enumerate() {
            assert_eq!(from.can_become(to), allowed[i][j]);
        }
    }
    assert!(pending.is_pending());
    assert!(!executing.is_pending());
    assert!(!failed.is_pending());
}

#[test]
fn clones_are_equal() {
    let i = intent("x1", u128::MAX);
    assert_eq!(i.clone(), i);
    let f = IntentStatus::Failed(s("reason"));
    assert_eq!(f.clone(), f);
    let a = Attestation { validator: s("v"), transaction_hash: s("h"), block_number: u64::MAX };
    assert_eq!(a.clone(), a);
}

#[test]
fn ack_gives_the_final_status() {
    assert_eq!(TransferAck::Accepted.into_status(), IntentStatus::Completed);
    assert_eq!(TransferAck::Rejected(s("r")).into_status(), IntentStatus::Failed(s("r")));
}

#[test]
fn attestation_log_records_each_attestation_once() {
    let mut log = AttestationLog::new();
    let a = Attestation { validator: s("v1"), transaction_hash: s("h"), block_number: 1 };
    let b = Attestation { validator: s("v2"), transaction_hash: s("h"), block_number: 1 };
    let c = Attestation { validator: s("v1"), transaction_hash: s("h"), block_number: 2 };
    assert!(log.record(a.clone()));
    assert!(!log.record(a.clone()));
    assert!(log.record(b.clone()));
    assert!(log.record(c.clone()));
    assert_eq!(log.len(), 3);
    assert!(log.contains(&b));
    assert!(!log.contains(&Attestation {
        validator: s("v2"),
        transaction_hash: s("h"),
        block_number: 2
    }));
    assert_eq!(log.entry_at(2), &c);
    assert_eq!(log.attesters(&s("h"), 1), vec![s("v1"), s("v2")]);
    assert_eq!(log.attesters(&s("h"), 2), vec![s("v1")]);
    assert!(log.attesters(&s("g"), 1).is_empty());
}

#[test]
fn table_keeps_first_insertion_order_and_latest_value() {
    let mut t: KeyedTable<u32> = KeyedTable::new();
    assert_eq!(t.len(), 0);
    t.insert(s("one"), 1);
    t.insert(s("two"), 2);
    t.insert(s("one"), 11);
    assert_eq!(t.len(), 2);
    assert_eq!(t.get(&s("one")), Some(&11));
    assert_eq!(t.get(&s("two")), Some(&2));
    assert_eq!(t.get(&s("three")), None);
    assert!(t.contains_key(&s("two")));
    assert!(!t.contains_key(&s("")));
    assert_eq!(t.key_at(0), "one");
    assert_eq!(t.value_at(0), &11);
    assert_eq!(t.key_at(1), "two");
}

#[test]
fn many_intents_stay_apart() {
    let mut e = engine_with_three_validators();
    e.submit_attestation(&s("v1.near"), s("0xabc"), 90).unwrap();
    e.submit_attestation(&s("v2.near"), s("0xabc"), 90).unwrap();
    for n in 0..50u128 {
        let id = format!("intent-{}", n);
        e.create_intent(&s("agent.near"), intent(&id, n)).unwrap();
    }
    for n in (0..50u128).step_by(2) {
        let id = format!("intent-{}", n);
        match e.execute_intent(&s("agent.near"), id.clone(), 100) {
            Ok(ExecutionOutcome::Dispatched(request)) => {
                assert_eq!(request.intent_id, id);
                assert_eq!(request.amount, n);
            }
            other => panic!("unexpected outcome {:?}", other),
        }
    }
    for n in 0..50u128 {
        let id = format!("intent-{}", n);
        let expected = if n % 2 == 0 { IntentStatus::Executing } else { IntentStatus::Pending };
        assert_eq!(e.get_intent_status(id), Some(expected));
    }
    assert_eq!(e.store().len(), 50);
}

#[test]
fn proof_is_valid_with_quorum_and_final_block_only() {
    let mut e = engine_with_three_validators();
    e.create_intent(&s("agent.near"), intent("x1", 100)).unwrap();
    assert!(!e.is_proof_valid(&s("x1"), 100));
    e.submit_attestation(&s("v1.near"), s("0xabc"), 90).unwrap();
    assert!(!e.is_proof_valid(&s("x1"), 100));
    e.submit_attestation(&s("v3.near"), s("0xabc"), 90).unwrap();
    assert!(e.is_proof_valid(&s("x1"), 100));
    assert!(e.is_proof_valid(&s("x1"), 90));
    assert!(!e.is_proof_valid(&s("x1"), 89));
    assert!(!e.is_proof_valid(&s("ghost"), 100));
    // Asking changes nothing.
    assert_eq!(e.get_intent_status(s("x1")), Some(IntentStatus::Pending));
    // A higher threshold is not met by the same two.
    e.set_required_signatures(&s("owner.near"), 3).unwrap();
    assert!(!e.is_proof_valid(&s("x1"), 100));
}
