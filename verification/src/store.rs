//! The intent store: every intent ever created, under its id, with its
//! current status.  Nothing is ever deleted from it.
use crate::lists::{lemma_listed_is, lemma_listed_push, listed};
use crate::table::KeyedTable;
use crate::types::{BridgeError, CrossChainIntent, IntentStatus, IntentView, StatusView};
use vstd::prelude::*;

verus! {

/// What holds of the content of every store: each intent sits under its own
/// id.
pub open spec fn keyed_by_id(intents: Map<Seq<char>, IntentView>) -> bool {
    forall|id: Seq<char>| #[trigger] intents.contains_key(id) ==> intents[id].id == id
}

/// The content of a store after `intent` was created in it as `Pending`.
pub open spec fn with_created(
    intents: Map<Seq<char>, IntentView>,
    intent: IntentView,
) -> Map<Seq<char>, IntentView> {
    intents.insert(intent.id, intent.with_status(StatusView::Pending))
}

/// The content of a store after the intent under `id` moved to `next`.
pub open spec fn with_transition(
    intents: Map<Seq<char>, IntentView>,
    id: Seq<char>,
    next: StatusView,
) -> Map<Seq<char>, IntentView> {
    intents.insert(id, intents[id].with_status(next))
}

/// The error with which a move of the intent under `id` to `next` is
/// refused, if it is.
pub open spec fn transition_error(
    intents: Map<Seq<char>, IntentView>,
    id: Seq<char>,
    next: StatusView,
) -> Option<BridgeError> {
    if !intents.contains_key(id) {
        Some(BridgeError::NotFound)
    } else if !intents[id].status.can_become(next) {
        Some(BridgeError::IllegalTransition)
    } else {
        None
    }
}

/// The ids of a list of intents, in the same order.
pub open spec fn intent_ids(intents: Seq<CrossChainIntent>) -> Seq<Seq<char>> {
    intents.map_values(|intent: CrossChainIntent| intent.id@)
}

/// The values of a list of intents, in the same order.
pub open spec fn intent_views(intents: Seq<CrossChainIntent>) -> Seq<IntentView> {
    intents.map_values(|intent: CrossChainIntent| intent@)
}

/// Every intent ever created, under its id.
pub struct IntentStore {
    records: KeyedTable<CrossChainIntent>,
}

impl View for IntentStore {
    type V = Map<Seq<char>, IntentView>;

    closed spec fn view(&self) -> Map<Seq<char>, IntentView> {
        Map::new(|id: Seq<char>| self.records@.contains_key(id), |id: Seq<char>| self.records@[id]@)
    }
}

impl IntentStore {
    /// Each record sits under its own id.
    pub closed spec fn wf(&self) -> bool {
        &&& self.records.wf()
        &&& forall|id: Seq<char>| #[trigger]
            self.records@.contains_key(id) ==> self.records@[id].id@ == id
    }

    /// The ids in the order in which their intents were created.
    pub closed spec fn order(&self) -> Seq<Seq<char>> {
        self.records.order()
    }

    /// A well-formed store holds each intent under its own id, and `order`
    /// lists exactly the ids it holds, each once.
    pub proof fn lemma_wf(&self)
        requires
            self.wf(),
        ensures
            keyed_by_id(self@),
            self@.dom().finite(),
            self.order().no_duplicates(),
            self@.dom().len() == self.order().len(),
            forall|id: Seq<char>| self@.contains_key(id) <==> self.order().contains(id),
    {
        self.records.lemma_order();
        assert(self@.dom() =~= self.records@.dom());
    }

    /// An empty store.
    pub fn new() -> (res: Self)
        ensures
            res.wf(),
            res@ == Map::<Seq<char>, IntentView>::empty(),
            res.order() == Seq::<Seq<char>>::empty(),
    {
        let res = IntentStore { records: KeyedTable::new() };
        assert(res@ =~= Map::<Seq<char>, IntentView>::empty());
        res
    }

    /// Number of intents in the store.
    pub fn len(&self) -> (n: usize)
        requires
            self.wf(),
        ensures
            n == self.order().len(),
            n == self@.dom().len(),
    {
        proof {
            self.lemma_wf();
        }
        self.records.len()
    }

    /// The intent created as the `i`-th.
    pub fn intent_at(&self, i: usize) -> (intent: &CrossChainIntent)
        requires
            self.wf(),
            i < self.order().len(),
        ensures
            intent@.id == self.order()[i as int],
            self@.contains_key(intent@.id),
            intent@ == self@[intent@.id],
    {
        self.records.value_at(i)
    }

    /// A copy of every intent, in the order of creation.
    pub fn intents(&self) -> (list: Vec<CrossChainIntent>)
        requires
            self.wf(),
        ensures
            intent_ids(list@) == self.order(),
            intent_ids(list@).no_duplicates(),
            listed(intent_ids(list@), intent_views(list@)) == self@,
    {
        let mut list: Vec<CrossChainIntent> = Vec::new();
        let n = self.len();
        let mut i: usize = 0;
        while i < n
            invariant
                self.wf(),
                n == self.order().len(),
                i <= n,
                list@.len() == i,
                forall|j: int|
                    0 <= j < i ==> (#[trigger] list@[j]).id@ == self.order()[j] && list@[j]@
                        == self@[self.order()[j]],
            decreases n - i,
        {
            list.push(self.intent_at(i).clone());
            i = i + 1;
        }
        proof {
            self.lemma_wf();
            assert(intent_ids(list@) =~= self.order());
            let ids = intent_ids(list@);
            assert forall|j: int| 0 <= j < ids.len() implies self@[#[trigger] ids[j]]
                == intent_views(list@)[j] by {
                assert(list@[j].id@ == self.order()[j]);
            }
            lemma_listed_is(intent_ids(list@), intent_views(list@), self@);
        }
        list
    }

    /// The store that holds a copy of `intents`, in their order, each with
    /// the status it has.  There is none when an id is listed twice.
    pub fn from_intents(intents: &Vec<CrossChainIntent>) -> (res: Option<Self>)
        ensures
            match res {
                Some(store) => {
                    &&& intent_ids(intents@).no_duplicates()
                    &&& store.wf()
                    &&& store.order() == intent_ids(intents@)
                    &&& store@ == listed(intent_ids(intents@), intent_views(intents@))
                },
                None => !intent_ids(intents@).no_duplicates(),
            },
    {
        let mut store = IntentStore::new();
        let ghost ids = intent_ids(intents@);
        let ghost views = intent_views(intents@);
        proof {
            assert(store.order() =~= ids.take(0));
            assert(store@ =~= listed(ids.take(0), views.take(0)));
        }
        let mut i: usize = 0;
        while i < intents.len()
            invariant
                i <= intents.len(),
                ids == intent_ids(intents@),
                views == intent_views(intents@),
                store.wf(),
                store.order() == ids.take(i as int),
                store@ == listed(ids.take(i as int), views.take(i as int)),
            decreases intents.len() - i,
        {
            let intent = &intents[i];
            proof {
                store.lemma_wf();
                assert(ids.take(i + 1) =~= ids.take(i as int).push(intent.id@));
                assert(views.take(i + 1) =~= views.take(i as int).push(intent@));
            }
            if store.records.contains_key(&intent.id) {
                proof {
                    assert(store@.contains_key(intent.id@));
                    let j = choose|j: int|
                        0 <= j < ids.take(i as int).len() && ids.take(i as int)[j] == intent.id@;
                    assert(ids[j] == ids[i as int]);
                }
                return None;
            }
            proof {
                assert(!store@.contains_key(intent.id@));
                lemma_listed_push(ids.take(i as int), views.take(i as int), intent.id@, intent@);
            }
            let ghost before = store@;
            store.records.insert(intent.id.clone(), intent.clone());
            assert(store@ =~= before.insert(intent.id@, intent@));
            i = i + 1;
        }
        proof {
            assert(ids.take(i as int) =~= ids);
            assert(views.take(i as int) =~= views);
            store.lemma_wf();
        }
        Some(store)
    }

    /// The intent under `id`, if there is one.
    pub fn get(&self, id: &String) -> (found: Option<&CrossChainIntent>)
        requires
            self.wf(),
        ensures
            match found {
                Some(intent) => self@.contains_key(id@) && intent@ == self@[id@],
                None => !self@.contains_key(id@),
            },
    {
        self.records.get(id)
    }

    /// Stores `intent` as `Pending`, whatever status it came with.  Refused
    /// with `DuplicateIntent` when an intent with the same id is stored.
    pub fn create(&mut self, intent: CrossChainIntent) -> (res: Result<(), BridgeError>)
        requires
            old(self).wf(),
        ensures
            final(self).wf(),
            old(self)@.contains_key(intent@.id) ==> ({
                &&& res == Err::<(), BridgeError>(BridgeError::DuplicateIntent)
                &&& final(self)@ == old(self)@
                &&& final(self).order() == old(self).order()
            }),
            !old(self)@.contains_key(intent@.id) ==> ({
                &&& res == Ok::<(), BridgeError>(())
                &&& final(self)@ == with_created(old(self)@, intent@)
                &&& final(self).order() == old(self).order().push(intent@.id)
            }),
    {
        if self.records.contains_key(&intent.id) {
            return Err(BridgeError::DuplicateIntent);
        }
        let ghost before = self@;
        let ghost created = intent@;
        let mut stored = intent;
        stored.status = IntentStatus::Pending;
        let key = stored.id.clone();
        self.records.insert(key, stored);
        assert(self@ =~= with_created(before, created));
        Ok(())
    }

    /// Moves the intent under `id` to `next`.  Refused with `NotFound` when
    /// no such intent is stored, and with `IllegalTransition` when its status
    /// does not lead to `next`.
    pub(crate) fn transition(
        &mut self,
        id: &String,
        next: IntentStatus,
    ) -> (res: Result<(), BridgeError>)
        requires
            old(self).wf(),
        ensures
            final(self).wf(),
            final(self).order() == old(self).order(),
            match transition_error(old(self)@, id@, next@) {
                Some(error) => res == Err::<(), BridgeError>(error) && final(self)@ == old(self)@,
                None => res == Ok::<(), BridgeError>(()) && final(self)@ == with_transition(
                    old(self)@,
                    id@,
                    next@,
                ),
            },
    {
        let ghost before = self@;
        let ghost target = next@;
        let updated = match self.records.get(id) {
            None => {
                return Err(BridgeError::NotFound);
            },
            Some(record) => {
                if !record.status.can_become(&next) {
                    return Err(BridgeError::IllegalTransition);
                }
                CrossChainIntent {
                    id: record.id.clone(),
                    sender: record.sender.clone(),
                    receiver: record.receiver.clone(),
                    token: record.token.clone(),
                    amount: record.amount,
                    proof: record.proof.clone(),
                    status: next,
                }
            },
        };
        self.records.insert(id.clone(), updated);
        assert(self@ =~= with_transition(before, id@, target));
        Ok(())
    }
}

} // verus!
