//! Attestations: which validator vouched for which source-chain transaction
//! in which block.
use crate::lists::{lemma_push_to_set, lemma_take_to_set, texts};
use vstd::prelude::*;

verus! {

/// A validator's claim that a source-chain transaction took place in a
/// given block.
#[derive(Debug, PartialEq, Eq)]
pub struct Attestation {
    /// Account of the validator that makes the claim.
    pub validator: String,
    /// Reference of the source-chain transaction.
    pub transaction_hash: String,
    /// Height of the source-chain block that holds the transaction.
    pub block_number: u64,
}

/// Mathematical value of an [`Attestation`].
pub struct AttestationView {
    pub validator: Seq<char>,
    pub transaction_hash: Seq<char>,
    pub block_number: u64,
}

impl View for Attestation {
    type V = AttestationView;

    open spec fn view(&self) -> AttestationView {
        AttestationView {
            validator: self.validator@,
            transaction_hash: self.transaction_hash@,
            block_number: self.block_number,
        }
    }
}

impl Clone for Attestation {
    fn clone(&self) -> (res: Self)
        ensures
            res@ == self@,
    {
        Attestation {
            validator: self.validator.clone(),
            transaction_hash: self.transaction_hash.clone(),
            block_number: self.block_number,
        }
    }
}

/// The validators that, by `attestations`, vouched for the transaction
/// `transaction_hash` in block `block_number`.
pub open spec fn attesters(
    attestations: Set<AttestationView>,
    transaction_hash: Seq<char>,
    block_number: u64,
) -> Set<Seq<char>> {
    Set::new(
        |validator: Seq<char>|
            attestations.contains(AttestationView { validator, transaction_hash, block_number }),
    )
}

/// The values of a list of attestations, in the same order.
pub open spec fn attestation_views(attestations: Seq<Attestation>) -> Seq<AttestationView> {
    attestations.map_values(|entry: Attestation| entry@)
}

/// The attestations recorded so far, each once.
pub struct AttestationLog {
    entries: Vec<Attestation>,
}

impl View for AttestationLog {
    type V = Set<AttestationView>;

    closed spec fn view(&self) -> Set<AttestationView> {
        self.order().to_set()
    }
}

impl AttestationLog {
    /// The attestations in the order in which they were recorded.
    pub closed spec fn order(&self) -> Seq<AttestationView> {
        self.entries@.map_values(|entry: Attestation| entry@)
    }

    /// No attestation is recorded twice.
    pub closed spec fn wf(&self) -> bool {
        self.order().no_duplicates()
    }

    /// An empty log.
    pub fn new() -> (res: Self)
        ensures
            res.wf(),
            res@ == Set::<AttestationView>::empty(),
            res.order() == Seq::<AttestationView>::empty(),
    {
        let res = AttestationLog { entries: Vec::new() };
        assert(res.order() =~= Seq::<AttestationView>::empty());
        assert(res@ =~= Set::<AttestationView>::empty());
        res
    }

    /// Number of recorded attestations.
    pub fn len(&self) -> (n: usize)
        ensures
            n == self.order().len(),
    {
        self.entries.len()
    }

    /// The attestation recorded as the `i`-th.
    pub fn entry_at(&self, i: usize) -> (entry: &Attestation)
        requires
            i < self.order().len(),
        ensures
            entry@ == self.order()[i as int],
            self@.contains(entry@),
    {
        assert(self.order()[i as int] == self.entries@[i as int]@);
        &self.entries[i]
    }

    /// A copy of every attestation, in the order of recording.
    pub fn entries(&self) -> (list: Vec<Attestation>)
        requires
            self.wf(),
        ensures
            attestation_views(list@) == self.order(),
            attestation_views(list@).no_duplicates(),
            attestation_views(list@).to_set() == self@,
    {
        let mut list: Vec<Attestation> = Vec::new();
        let mut i: usize = 0;
        while i < self.entries.len()
            invariant
                i <= self.entries.len(),
                list@.len() == i,
                forall|j: int| 0 <= j < i ==> (#[trigger] list@[j])@ == self.entries@[j]@,
            decreases self.entries.len() - i,
        {
            list.push(self.entries[i].clone());
            i = i + 1;
        }
        assert(attestation_views(list@) =~= self.order());
        list
    }

    /// The log that holds a copy of `attestations`, in their order.  There
    /// is none when an attestation is listed twice.
    pub fn from_entries(attestations: &Vec<Attestation>) -> (res: Option<Self>)
        ensures
            match res {
                Some(log) => {
                    &&& attestation_views(attestations@).no_duplicates()
                    &&& log.wf()
                    &&& log.order() == attestation_views(attestations@)
                    &&& log@ == attestation_views(attestations@).to_set()
                },
                None => !attestation_views(attestations@).no_duplicates(),
            },
    {
        let mut log = AttestationLog::new();
        let ghost views = attestation_views(attestations@);
        proof {
            assert(log.order() =~= views.take(0));
        }
        let mut i: usize = 0;
        while i < attestations.len()
            invariant
                i <= attestations.len(),
                views == attestation_views(attestations@),
                log.wf(),
                log.order() == views.take(i as int),
            decreases attestations.len() - i,
        {
            proof {
                assert(views.take(i + 1) =~= views.take(i as int).push(attestations@[i as int]@));
            }
            let added = log.record(attestations[i].clone());
            if !added {
                proof {
                    let j = choose|j: int|
                        0 <= j < views.take(i as int).len() && views.take(i as int)[j]
                            == attestations@[i as int]@;
                    assert(views[j] == views[i as int]);
                }
                return None;
            }
            i = i + 1;
        }
        proof {
            assert(views.take(i as int) =~= views);
        }
        Some(log)
    }

    /// Whether `attestation` is recorded.
    pub fn contains(&self, attestation: &Attestation) -> (found: bool)
        ensures
            found == self@.contains(attestation@),
    {
        let ghost views = self.order();
        let mut i: usize = 0;
        while i < self.entries.len()
            invariant
                i <= self.entries.len(),
                views == self.order(),
                forall|k: int| 0 <= k < i ==> views[k] != attestation@,
            decreases self.entries.len() - i,
        {
            let entry = &self.entries[i];
            if entry.block_number == attestation.block_number && entry.validator
                == attestation.validator && entry.transaction_hash == attestation.transaction_hash {
                assert(views[i as int] == attestation@);
                return true;
            }
            i = i + 1;
        }
        false
    }

    /// Records `attestation`, unless it is recorded already.  Says whether
    /// it was new.
    pub fn record(&mut self, attestation: Attestation) -> (added: bool)
        requires
            old(self).wf(),
        ensures
            final(self).wf(),
            final(self)@ == old(self)@.insert(attestation@),
            added == !old(self)@.contains(attestation@),
            final(self).order() == if added {
                old(self).order().push(attestation@)
            } else {
                old(self).order()
            },
    {
        let ghost before = self.order();
        if self.contains(&attestation) {
            assert(self@.insert(attestation@) =~= self@);
            return false;
        }
        let ghost added = attestation@;
        self.entries.push(attestation);
        proof {
            assert(self.order() =~= before.push(added));
            lemma_push_to_set(before, added);
        }
        true
    }

    /// The validators that vouched for the transaction `transaction_hash` in
    /// block `block_number`, each once.
    pub fn attesters(&self, transaction_hash: &String, block_number: u64) -> (found: Vec<String>)
        requires
            self.wf(),
        ensures
            texts(found@).no_duplicates(),
            texts(found@).to_set() == attesters(self@, transaction_hash@, block_number),
    {
        let ghost views = self.order();
        let ghost tx = transaction_hash@;
        let mut found: Vec<String> = Vec::new();
        let mut i: usize = 0;
        proof {
            assert(texts(found@).to_set() =~= attesters(
                views.take(0).to_set(),
                tx,
                block_number,
            ));
        }
        while i < self.entries.len()
            invariant
                self.wf(),
                i <= self.entries.len(),
                views == self.order(),
                tx == transaction_hash@,
                texts(found@).no_duplicates(),
                texts(found@).to_set() == attesters(
                    views.take(i as int).to_set(),
                    tx,
                    block_number,
                ),
            decreases self.entries.len() - i,
        {
            let entry = &self.entries[i];
            let ghost earlier = views.take(i as int).to_set();
            proof {
                lemma_take_to_set(views, i as int);
                assert(views[i as int] == entry@);
            }
            if entry.block_number == block_number && entry.transaction_hash == *transaction_hash {
                let ghost before = texts(found@);
                let ghost validator = entry.validator@;
                found.push(entry.validator.clone());
                proof {
                    assert(texts(found@) =~= before.push(validator));
                    lemma_push_to_set(before, validator);
                    if before.contains(validator) {
                        assert(before.to_set().contains(validator));
                        assert(earlier.contains(entry@));
                        let k = choose|k: int|
                            0 <= k < views.take(i as int).len() && views.take(i as int)[k]
                                == entry@;
                        assert(views[k] == views[i as int]);
                    }
                    assert(attesters(earlier.insert(entry@), tx, block_number) =~= attesters(
                        earlier,
                        tx,
                        block_number,
                    ).insert(validator));
                }
            } else {
                proof {
                    assert(attesters(earlier.insert(entry@), tx, block_number) =~= attesters(
                        earlier,
                        tx,
                        block_number,
                    ));
                }
            }
            i = i + 1;
        }
        proof {
            assert(views.take(i as int) =~= views);
        }
        found
    }
}

} // verus!
