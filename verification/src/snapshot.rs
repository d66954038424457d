//! The whole state of the engine written down as plain lists, to be stored
//! between calls and read back.
use crate::attestation::{attestation_views, Attestation};
use crate::lists::listed;
use crate::model::ExecutorView;
use crate::registry::{entry_flags, entry_ids, RegistryView, ValidatorEntry};
use crate::store::{intent_ids, intent_views};
use crate::types::CrossChainIntent;
use vstd::prelude::*;

verus! {

/// The state of the engine as plain values.
#[derive(Debug, PartialEq, Eq)]
pub struct ExecutorSnapshot {
    /// The account that manages validators and threshold.
    pub owner: String,
    /// The token contract.
    pub token_contract: String,
    /// The account that creates and executes intents.
    pub agent_account: String,
    /// The threshold of attestations.
    pub required_signatures: u32,
    /// Every account of the registry with its flag.
    pub validators: Vec<ValidatorEntry>,
    /// Every intent of the store.
    pub intents: Vec<CrossChainIntent>,
    /// Every attestation of the log.
    pub attestations: Vec<Attestation>,
}

impl ExecutorSnapshot {
    /// Whether the snapshot describes a state of the engine: the threshold
    /// is above zero, and no account, no intent id and no attestation is
    /// listed twice.
    pub open spec fn valid(&self) -> bool {
        &&& self.required_signatures > 0
        &&& entry_ids(self.validators@).no_duplicates()
        &&& intent_ids(self.intents@).no_duplicates()
        &&& attestation_views(self.attestations@).no_duplicates()
    }

    /// The state that the snapshot describes.
    pub open spec fn state(&self) -> ExecutorView {
        ExecutorView {
            owner: self.owner@,
            token_contract: self.token_contract@,
            agent_account: self.agent_account@,
            registry: RegistryView {
                validators: listed(entry_ids(self.validators@), entry_flags(self.validators@)),
                required_signatures: self.required_signatures as nat,
            },
            intents: listed(intent_ids(self.intents@), intent_views(self.intents@)),
            attestations: attestation_views(self.attestations@).to_set(),
        }
    }
}

} // verus!
