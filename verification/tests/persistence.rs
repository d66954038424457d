use cross_chain_executor::attestation::{Attestation, AttestationLog};
use cross_chain_executor::engine::{ExecutionOutcome, TransferAck};
use cross_chain_executor::registry::{ValidatorEntry, ValidatorRegistry};
use cross_chain_executor::snapshot::ExecutorSnapshot;
use cross_chain_executor::store::IntentStore;
use cross_chain_executor::{
    BridgeError, BridgeProof, CrossChainExecutor, CrossChainIntent, IntentStatus,
};

fn t(text: &str) -> String {
    text.to_string()
}

fn make_intent(id: &str, status: IntentStatus) -> CrossChainIntent {
    CrossChainIntent {
        id: t(id),
        sender: t("0xsender"),
        receiver: t("bob.near"),
        token: t("0xtoken"),
        amount: 42,
        proof: BridgeProof { block_number: 7, timestamp: 8, transaction_hash: t("0x07") },
        status,
    }
}

fn entry(id: &str, active: bool) -> ValidatorEntry {
    ValidatorEntry { id: t(id), active }
}

fn attestation(validator: &str, hash: &str, block: u64) -> Attestation {
    Attestation { validator: t(validator), transaction_hash: t(hash), block_number: block }
}

fn busy_engine() -> CrossChainExecutor {
    let owner = t("owner.near");
    let agent = t("agent.near");
    let mut e = CrossChainExecutor::new(t("token.near"), 2, agent.clone(), owner.clone(), false)
        .ok()
        .unwrap();
    for v in ["v1", "v2", "v3", "v4"] {
        e.add_validator(&owner, t(v)).unwrap();
    }
    e.remove_validator(&owner, &t("v3")).unwrap();
    e.submit_attestation(&t("v1"), t("0x07"), 7).unwrap();
    e.submit_attestation(&t("v4"), t("0x07"), 7).unwrap();
    for id in ["a", "b", "c", "d"] {
        e.create_intent(&agent, make_intent(id, IntentStatus::Pending)).unwrap();
    }
    e.execute_intent(&agent, t("a"), 10).unwrap();
    e.execute_intent(&agent, t("b"), 10).unwrap();
    e.execute_intent(&agent, t("c"), 10).unwrap();
    e.resolve_transfer(&t("token.near"), &t("a"), TransferAck::Accepted).unwrap();
    e.resolve_transfer(&t("token.near"), &t("b"), TransferAck::Rejected(t("rejected: b"))).unwrap();
    e
}

#[test]
fn snapshot_lists_everything_in_order() {
    let snapshot = busy_engine().snapshot();
    assert_eq!(
        snapshot,
        ExecutorSnapshot {
            owner: t("owner.near"),
            token_contract: t("token.near"),
            agent_account: t("agent.near"),
            required_signatures: 2,
            validators: vec![
                entry("v1", true),
                entry("v2", true),
                entry("v3", false),
                entry("v4", true),
            ],
            intents: vec![
                make_intent("a", IntentStatus::Completed),
                make_intent("b", IntentStatus::Failed(t("rejected: b"))),
                make_intent("c", IntentStatus::Executing),
                make_intent("d", IntentStatus::Pending),
            ],
            attestations: vec![attestation("v1", "0x07", 7), attestation("v4", "0x07", 7)],
        }
    );
}

#[test]
fn restore_of_snapshot_gives_the_same_engine() {
    let before = busy_engine();
    let snapshot = before.snapshot();
    let mut after = CrossChainExecutor::restore(&snapshot).unwrap();
    assert_eq!(after.snapshot(), snapshot);
    assert_eq!(after.registry().active_count(), 3);
    assert!(after.is_validator(t("v4")));
    assert!(!after.is_validator(t("v3")));
    assert_eq!(after.get_intent_status(t("b")), Some(IntentStatus::Failed(t("rejected: b"))));
    // The restored engine goes on where the other one stood.
    assert_eq!(
        after.execute_intent(&t("agent.near"), t("c"), 10),
        Err(BridgeError::IllegalTransition)
    );
    assert!(matches!(
        after.execute_intent(&t("agent.near"), t("d"), 10),
        Ok(ExecutionOutcome::Dispatched(_))
    ));
    assert_eq!(after.resolve_transfer(&t("token.near"), &t("c"), TransferAck::Accepted), Ok(()));
    assert_eq!(after.get_intent_status(t("c")), Some(IntentStatus::Completed));
}

#[test]
fn restore_refuses_what_is_no_state() {
    let good = busy_engine().snapshot();
    assert!(CrossChainExecutor::restore(&good).is_some());

    let mut zero = busy_engine().snapshot();
    zero.required_signatures = 0;
    assert!(CrossChainExecutor::restore(&zero).is_none());

    let mut twice_validator = busy_engine().snapshot();
    twice_validator.validators.push(entry("v2", false));
    assert!(CrossChainExecutor::restore(&twice_validator).is_none());

    let mut twice_intent = busy_engine().snapshot();
    twice_intent.intents.push(make_intent("a", IntentStatus::Pending));
    assert!(CrossChainExecutor::restore(&twice_intent).is_none());

    let mut twice_attestation = busy_engine().snapshot();
    twice_attestation.attestations.push(attestation("v1", "0x07", 7));
    assert!(CrossChainExecutor::restore(&twice_attestation).is_none());
}

#[test]
fn restore_of_empty_snapshot_is_a_new_engine() {
    let snapshot = ExecutorSnapshot {
        owner: t("o"),
        token_contract: t("t"),
        agent_account: t("a"),
        required_signatures: 1,
        validators: vec![],
        intents: vec![],
        attestations: vec![],
    };
    let restored = CrossChainExecutor::restore(&snapshot).unwrap();
    let fresh = CrossChainExecutor::new(t("t"), 1, t("a"), t("o"), false).ok().unwrap();
    assert_eq!(restored.snapshot(), fresh.snapshot());
    assert_eq!(restored.snapshot(), snapshot);
}

#[test]
fn registry_entries_round_trip() {
    let list = vec![entry("x", false), entry("y", true), entry("z", true)];
    let registry = ValidatorRegistry::from_entries(2, &list).unwrap();
    assert_eq!(registry.entries(), list);
    assert_eq!(registry.active_count(), 2);
    assert_eq!(registry.len(), 3);
    assert_eq!(registry.required_signatures(), 2);
    assert!(registry.is_validator(&t("y")));
    assert!(!registry.is_validator(&t("x")));
    assert!(ValidatorRegistry::from_entries(0, &list).is_none());
    let doubled = vec![entry("x", false), entry("y", true), entry("x", true)];
    assert!(ValidatorRegistry::from_entries(2, &doubled).is_none());
    // A threshold above the active count is a state that set-up leads to.
    assert!(ValidatorRegistry::from_entries(9, &list).is_some());
}

#[test]
fn store_intents_round_trip() {
    let list = vec![
        make_intent("k", IntentStatus::Executing),
        make_intent("j", IntentStatus::Failed(t("f"))),
    ];
    let store = IntentStore::from_intents(&list).unwrap();
    assert_eq!(store.intents(), list);
    assert_eq!(store.len(), 2);
    assert_eq!(store.get(&t("j")), Some(&list[1]));
    let doubled = vec![
        make_intent("k", IntentStatus::Executing),
        make_intent("k", IntentStatus::Pending),
    ];
    assert!(IntentStore::from_intents(&doubled).is_none());
    assert_eq!(IntentStore::from_intents(&vec![]).unwrap().len(), 0);
}

#[test]
fn attestation_log_entries_round_trip() {
    let list = vec![attestation("v", "h", 1), attestation("w", "h", 1), attestation("v", "h", 2)];
    let log = AttestationLog::from_entries(&list).unwrap();
    assert_eq!(log.entries(), list);
    let doubled = vec![attestation("v", "h", 1), attestation("v", "h", 1)];
    assert!(AttestationLog::from_entries(&doubled).is_none());
}
