//! The validator registry: which accounts may attest, and how many of them
//! have to stand behind an intent.
use crate::lists::{lemma_listed_is, lemma_listed_push, lemma_take_to_set, listed, texts};
use crate::table::KeyedTable;
use crate::types::BridgeError;
use vstd::prelude::*;
use vstd::set_lib::lemma_len_subset;

verus! {

/// Mathematical value of a [`ValidatorRegistry`].
pub struct RegistryView {
    /// Every account ever added, with its flag: `true` for active.
    pub validators: Map<Seq<char>, bool>,
    /// Number of active validators that have to attest.
    pub required_signatures: nat,
}

impl RegistryView {
    /// The accounts that are active validators.
    pub open spec fn active(self) -> Set<Seq<char>> {
        Set::new(|id: Seq<char>| self.validators.contains_key(id) && self.validators[id])
    }

    /// What holds of every registry: finitely many accounts, and a threshold
    /// above zero.
    pub open spec fn inv(self) -> bool {
        &&& self.validators.dom().finite()
        &&& self.required_signatures > 0
    }

    /// Whether there are enough active validators to ever meet the threshold.
    pub open spec fn quorum_reachable(self) -> bool {
        self.required_signatures <= self.active().len()
    }

    /// How many of `attesters` are active validators.
    pub open spec fn attested(self, attesters: Set<Seq<char>>) -> nat {
        attesters.intersect(self.active()).len()
    }

    /// Whether the active validators among `attesters` meet the threshold.
    pub open spec fn has_quorum(self, attesters: Set<Seq<char>>) -> bool {
        self.attested(attesters) >= self.required_signatures
    }

    /// The registry after `id` was added or reactivated.
    pub open spec fn add(self, id: Seq<char>) -> RegistryView {
        RegistryView { validators: self.validators.insert(id, true), ..self }
    }

    /// Whether `id` can be deactivated: either it is not active, so nothing
    /// changes, or more validators are active than the threshold asks for.
    pub open spec fn removal_allowed(self, id: Seq<char>) -> bool {
        self.active().contains(id) ==> self.active().len() > self.required_signatures
    }

    /// The registry after `id` was deactivated.  An account that was never
    /// added stays unknown.
    pub open spec fn remove(self, id: Seq<char>) -> RegistryView {
        if self.validators.contains_key(id) {
            RegistryView { validators: self.validators.insert(id, false), ..self }
        } else {
            self
        }
    }

    /// Whether `threshold` can become the new threshold.
    pub open spec fn threshold_allowed(self, threshold: nat) -> bool {
        0 < threshold <= self.active().len()
    }

    /// The registry with another threshold.
    pub open spec fn with_threshold(self, threshold: nat) -> RegistryView {
        RegistryView { required_signatures: threshold, ..self }
    }

    /// The active validators are finitely many, and adding or deactivating
    /// one changes their set by that one account.
    pub proof fn lemma_active(self, id: Seq<char>)
        requires
            self.validators.dom().finite(),
        ensures
            self.active().finite(),
            self.add(id).active() == self.active().insert(id),
            self.remove(id).active() == self.active().remove(id),
            self.add(id).validators.dom().finite(),
            self.remove(id).validators.dom().finite(),
    {
        lemma_len_subset(self.active(), self.validators.dom());
        assert(self.add(id).active() =~= self.active().insert(id));
        assert(self.remove(id).active() =~= self.active().remove(id));
    }
}

/// One account of the registry with its flag, as it is written down when
/// the registry is stored.
#[derive(Debug, PartialEq, Eq)]
pub struct ValidatorEntry {
    /// The account.
    pub id: String,
    /// Whether the account is an active validator.
    pub active: bool,
}

/// The accounts that a list of entries names, in the same order.
pub open spec fn entry_ids(entries: Seq<ValidatorEntry>) -> Seq<Seq<char>> {
    entries.map_values(|entry: ValidatorEntry| entry.id@)
}

/// The flags that a list of entries holds, in the same order.
pub open spec fn entry_flags(entries: Seq<ValidatorEntry>) -> Seq<bool> {
    entries.map_values(|entry: ValidatorEntry| entry.active)
}

/// The accounts permitted to attest, each with an active flag, and the
/// threshold of attestations.
pub struct ValidatorRegistry {
    entries: KeyedTable<bool>,
    active: usize,
    required_signatures: u32,
}

impl View for ValidatorRegistry {
    type V = RegistryView;

    closed spec fn view(&self) -> RegistryView {
        RegistryView {
            validators: self.entries@,
            required_signatures: self.required_signatures as nat,
        }
    }
}

/// Whether the text at place `i` of `ids` also stands at an earlier place.
fn seen_before(ids: &Vec<String>, i: usize) -> (found: bool)
    requires
        i < ids.len(),
    ensures
        found == texts(ids@).take(i as int).contains(ids@[i as int]@),
{
    let ghost earlier = texts(ids@).take(i as int);
    let mut j: usize = 0;
    while j < i
        invariant
            j <= i,
            i < ids.len(),
            earlier == texts(ids@).take(i as int),
            forall|k: int| 0 <= k < j ==> earlier[k] != ids@[i as int]@,
        decreases i - j,
    {
        if ids[j] == ids[i] {
            assert(earlier[j as int] == ids@[i as int]@);
            return true;
        }
        j += 1;
    }
    false
}

impl ValidatorRegistry {
    /// The active counter and the threshold agree with the entries.
    pub closed spec fn wf(&self) -> bool {
        &&& self.entries.wf()
        &&& self.active == self@.active().len()
        &&& self.required_signatures > 0
    }

    /// The accounts in the order in which they were first added.
    pub closed spec fn order(&self) -> Seq<Seq<char>> {
        self.entries.order()
    }

    /// A well-formed registry has a view that meets the view's invariant.
    pub proof fn lemma_wf(&self)
        requires
            self.wf(),
        ensures
            self@.inv(),
    {
        self.entries.lemma_order();
    }

    /// An empty registry with the given threshold, which must not be zero.
    pub fn new(required_signatures: u32) -> (res: Result<Self, BridgeError>)
        ensures
            required_signatures == 0 ==> res == Err::<Self, BridgeError>(
                BridgeError::InvalidThreshold,
            ),
            required_signatures > 0 ==> res is Ok && res->Ok_0.wf() && res->Ok_0@ == (RegistryView {
                validators: Map::empty(),
                required_signatures: required_signatures as nat,
            }) && res->Ok_0.order() == Seq::<Seq<char>>::empty(),
    {
        if required_signatures == 0 {
            return Err(BridgeError::InvalidThreshold);
        }
        let registry = ValidatorRegistry {
            entries: KeyedTable::new(),
            active: 0,
            required_signatures,
        };
        assert(registry@.active() =~= Set::<Seq<char>>::empty());
        Ok(registry)
    }

    /// The threshold of attestations.
    pub fn required_signatures(&self) -> (threshold: u32)
        requires
            self.wf(),
        ensures
            threshold == self@.required_signatures,
            threshold > 0,
    {
        self.required_signatures
    }

    /// Number of active validators.
    pub fn active_count(&self) -> (count: usize)
        requires
            self.wf(),
        ensures
            count == self@.active().len(),
    {
        self.active
    }

    /// Number of accounts in the registry, active or not.
    pub fn len(&self) -> (n: usize)
        requires
            self.wf(),
        ensures
            n == self.order().len(),
            n == self@.validators.dom().len(),
    {
        self.entries.len()
    }

    /// The account added as the `i`-th, with its flag.
    pub fn validator_at(&self, i: usize) -> (entry: (&String, bool))
        requires
            self.wf(),
            i < self.order().len(),
        ensures
            entry.0@ == self.order()[i as int],
            self@.validators.contains_key(entry.0@),
            entry.1 == self@.validators[entry.0@],
    {
        (self.entries.key_at(i), *self.entries.value_at(i))
    }

    /// Whether `id` is an active validator.
    pub fn is_validator(&self, id: &String) -> (active: bool)
        requires
            self.wf(),
        ensures
            active == self@.active().contains(id@),
    {
        match self.entries.get(id) {
            Some(flag) => *flag,
            None => false,
        }
    }

    /// Every account with its flag, in the order in which the accounts were
    /// first added.
    pub fn entries(&self) -> (list: Vec<ValidatorEntry>)
        requires
            self.wf(),
        ensures
            entry_ids(list@) == self.order(),
            entry_ids(list@).no_duplicates(),
            listed(entry_ids(list@), entry_flags(list@)) == self@.validators,
    {
        let mut list: Vec<ValidatorEntry> = Vec::new();
        let n = self.entries.len();
        let mut i: usize = 0;
        while i < n
            invariant
                self.wf(),
                n == self.order().len(),
                i <= n,
                list@.len() == i,
                forall|j: int|
                    0 <= j < i ==> (#[trigger] list@[j]).id@ == self.order()[j] && list@[j].active
                        == self@.validators[self.order()[j]],
            decreases n - i,
        {
            let (id, active) = self.validator_at(i);
            list.push(ValidatorEntry { id: id.clone(), active });
            i = i + 1;
        }
        proof {
            self.entries.lemma_order();
            assert(entry_ids(list@) =~= self.order());
            let ids = entry_ids(list@);
            assert forall|j: int| 0 <= j < ids.len() implies self@.validators[#[trigger] ids[j]]
                == entry_flags(list@)[j] by {
                assert(list@[j].id@ == self.order()[j]);
            }
            lemma_listed_is(entry_ids(list@), entry_flags(list@), self@.validators);
        }
        list
    }

    /// The registry that holds `entries`, in their order, with the given
    /// threshold.  There is none when the threshold is zero or an account is
    /// listed twice.
    pub fn from_entries(
        required_signatures: u32,
        entries: &Vec<ValidatorEntry>,
    ) -> (res: Option<Self>)
        ensures
            match res {
                Some(registry) => {
                    &&& required_signatures > 0
                    &&& entry_ids(entries@).no_duplicates()
                    &&& registry.wf()
                    &&& registry.order() == entry_ids(entries@)
                    &&& registry@ == (RegistryView {
                        validators: listed(entry_ids(entries@), entry_flags(entries@)),
                        required_signatures: required_signatures as nat,
                    })
                },
                None => required_signatures == 0 || !entry_ids(entries@).no_duplicates(),
            },
    {
        let mut registry = match ValidatorRegistry::new(required_signatures) {
            Ok(registry) => registry,
            Err(_) => {
                return None;
            },
        };
        let ghost ids = entry_ids(entries@);
        let ghost flags = entry_flags(entries@);
        proof {
            assert(registry.order() =~= ids.take(0));
            assert(registry@.validators =~= listed(ids.take(0), flags.take(0)));
        }
        let mut i: usize = 0;
        while i < entries.len()
            invariant
                i <= entries.len(),
                ids == entry_ids(entries@),
                flags == entry_flags(entries@),
                required_signatures > 0,
                registry.wf(),
                registry.order() == ids.take(i as int),
                registry@.required_signatures == required_signatures,
                registry@.validators == listed(ids.take(i as int), flags.take(i as int)),
            decreases entries.len() - i,
        {
            let entry = &entries[i];
            proof {
                registry.entries.lemma_order();
                assert(ids.take(i + 1) =~= ids.take(i as int).push(entry.id@));
                assert(flags.take(i + 1) =~= flags.take(i as int).push(entry.active));
            }
            if registry.entries.contains_key(&entry.id) {
                proof {
                    let j = choose|j: int|
                        0 <= j < ids.take(i as int).len() && ids.take(i as int)[j] == entry.id@;
                    assert(ids[j] == ids[i as int]);
                }
                return None;
            }
            proof {
                registry.lemma_wf();
                lemma_listed_push(
                    ids.take(i as int),
                    flags.take(i as int),
                    entry.id@,
                    entry.active,
                );
            }
            let ghost before = registry@;
            registry.entries.insert(entry.id.clone(), entry.active);
            if entry.active {
                proof {
                    registry.entries.lemma_order();
                    before.lemma_active(entry.id@);
                    lemma_len_subset(registry@.active(), registry@.validators.dom());
                }
                registry.active = registry.active + 1;
            } else {
                assert(registry@.active() =~= before.active());
            }
            i = i + 1;
        }
        proof {
            assert(ids.take(i as int) =~= ids);
            assert(flags.take(i as int) =~= flags);
            registry.entries.lemma_order();
        }
        Some(registry)
    }

    /// Adds `id` as an active validator, or makes it active again.
    pub fn add(&mut self, id: String)
        requires
            old(self).wf(),
        ensures
            final(self).wf(),
            final(self)@ == old(self)@.add(id@),
            final(self).order() == if old(self)@.validators.contains_key(id@) {
                old(self).order()
            } else {
                old(self).order().push(id@)
            },
    {
        let ghost before = self@;
        let ghost key = id@;
        proof {
            self.lemma_wf();
        }
        if self.is_validator(&id) {
            assert(before.validators.insert(key, true) =~= before.validators);
        } else {
            self.entries.insert(id, true);
            proof {
                self.entries.lemma_order();
                before.lemma_active(key);
                lemma_len_subset(self@.active(), self@.validators.dom());
            }
            self.active = self.active + 1;
        }
    }

    /// Deactivates `id`.  Refused with `QuorumViolation` when `id` is active
    /// and no more validators are active than the threshold asks for.
    pub fn remove(&mut self, id: &String) -> (res: Result<(), BridgeError>)
        requires
            old(self).wf(),
        ensures
            final(self).wf(),
            final(self).order() == old(self).order(),
            old(self)@.removal_allowed(id@) ==> res == Ok::<(), BridgeError>(()) && final(self)@
                == old(self)@.remove(id@),
            !old(self)@.removal_allowed(id@) ==> res == Err::<(), BridgeError>(
                BridgeError::QuorumViolation,
            ) && final(self)@ == old(self)@,
    {
        let ghost before = self@;
        proof {
            self.lemma_wf();
        }
        if !self.is_validator(id) {
            proof {
                if before.validators.contains_key(id@) {
                    assert(before.validators.insert(id@, false) =~= before.validators);
                }
            }
            return Ok(());
        }
        if self.active <= self.required_signatures as usize {
            return Err(BridgeError::QuorumViolation);
        }
        self.entries.insert(id.clone(), false);
        proof {
            self.entries.lemma_order();
            before.lemma_active(id@);
        }
        self.active = self.active - 1;
        Ok(())
    }

    /// Replaces the threshold.  Refused with `InvalidThreshold` when
    /// `threshold` is zero or above the number of active validators.
    pub fn set_required_signatures(&mut self, threshold: u32) -> (res: Result<(), BridgeError>)
        requires
            old(self).wf(),
        ensures
            final(self).wf(),
            final(self).order() == old(self).order(),
            old(self)@.threshold_allowed(threshold as nat) ==> res == Ok::<(), BridgeError>(())
                && final(self)@ == old(self)@.with_threshold(threshold as nat),
            !old(self)@.threshold_allowed(threshold as nat) ==> res == Err::<(), BridgeError>(
                BridgeError::InvalidThreshold,
            ) && final(self)@ == old(self)@,
    {
        if threshold == 0 || threshold as usize > self.active {
            return Err(BridgeError::InvalidThreshold);
        }
        self.required_signatures = threshold;
        Ok(())
    }

    /// Number of distinct active validators among `ids`.
    pub fn count_active(&self, ids: &Vec<String>) -> (count: usize)
        requires
            self.wf(),
        ensures
            count == self@.attested(texts(ids@).to_set()),
    {
        let ghost all = texts(ids@);
        let ghost active = self@.active();
        proof {
            self.lemma_wf();
            self@.lemma_active(Seq::empty());
            assert(all.take(0).to_set().intersect(active) =~= Set::<Seq<char>>::empty());
        }
        let mut count: usize = 0;
        let mut i: usize = 0;
        while i < ids.len()
            invariant
                self.wf(),
                i <= ids.len(),
                count <= i,
                all == texts(ids@),
                active == self@.active(),
                active.finite(),
                count == all.take(i as int).to_set().intersect(active).len(),
            decreases ids.len() - i,
        {
            let ghost seen = all.take(i as int).to_set();
            let ghost id = ids@[i as int]@;
            let counts = !seen_before(ids, i) && self.is_validator(&ids[i]);
            proof {
                lemma_take_to_set(all, i as int);
                if counts {
                    assert(seen.insert(id).intersect(active) =~= seen.intersect(active).insert(id));
                } else {
                    assert(seen.insert(id).intersect(active) =~= seen.intersect(active));
                }
            }
            if counts {
                count = count + 1;
            }
            i = i + 1;
        }
        assert(all.take(ids.len() as int) =~= all);
        count
    }

    /// Whether the distinct active validators among `attesters` meet the
    /// threshold.
    pub fn has_quorum(&self, attesters: &Vec<String>) -> (met: bool)
        requires
            self.wf(),
        ensures
            met == self@.has_quorum(texts(attesters@).to_set()),
    {
        self.count_active(attesters) >= self.required_signatures as usize
    }
}

} // verus!
