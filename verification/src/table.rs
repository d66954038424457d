//! A map from text keys to values that remembers the order in which the keys
//! were first inserted.
//!
//! Lookups go through a hash index; the keys and values themselves sit in two
//! parallel vectors, so that the whole content can be walked by position.
use vstd::hash_map::StringHashMap;
use vstd::prelude::*;

verus! {

/// An insertion-ordered map keyed by text.  Keys are never removed.
pub struct KeyedTable<V> {
    index: StringHashMap<usize>,
    keys: Vec<String>,
    values: Vec<V>,
}

impl<V> View for KeyedTable<V> {
    type V = Map<Seq<char>, V>;

    closed spec fn view(&self) -> Map<Seq<char>, V> {
        Map::new(
            |k: Seq<char>| self.index@.contains_key(k),
            |k: Seq<char>| self.values@[self.index@[k] as int],
        )
    }
}

impl<V> KeyedTable<V> {
    /// The index and the two vectors describe the same content.
    pub closed spec fn wf(&self) -> bool {
        &&& self.keys@.len() == self.values@.len()
        &&& self.index@.dom().finite()
        &&& self.index@.dom().len() == self.keys@.len()
        &&& forall|k: Seq<char>| #[trigger]
            self.index@.contains_key(k) ==> self.index@[k] < self.keys@.len()
                && self.keys@[self.index@[k] as int]@ == k
        &&& forall|i: int|
            0 <= i < self.keys@.len() ==> self.index@.contains_key(#[trigger] self.keys@[i]@)
                && self.index@[self.keys@[i]@] == i
    }

    /// The keys in the order of their first insertion.
    pub closed spec fn order(&self) -> Seq<Seq<char>> {
        Seq::new(self.keys@.len(), |i: int| self.keys@[i]@)
    }

    /// The keys of a well-formed table are exactly what `order` lists, each
    /// once, and there are finitely many.
    pub proof fn lemma_order(&self)
        requires
            self.wf(),
        ensures
            self@.dom().finite(),
            self@.dom().len() == self.order().len(),
            self.order().no_duplicates(),
            self@.dom().len() <= usize::MAX,
            forall|k: Seq<char>| self@.contains_key(k) <==> self.order().contains(k),
    {
        assert(self@.dom() =~= self.index@.dom());
        assert(self.keys@.len() == self.keys.len());
        let order = self.order();
        assert forall|k: Seq<char>| self@.contains_key(k) implies order.contains(k) by {
            assert(self.index@.contains_key(k));
            assert(order[self.index@[k] as int] == k);
        }
        assert forall|k: Seq<char>| order.contains(k) implies self@.contains_key(k) by {
            let i = choose|i: int| 0 <= i < order.len() && order[i] == k;
            assert(self.index@.contains_key(self.keys@[i]@));
        }
        assert forall|i: int, j: int|
            0 <= i < order.len() && 0 <= j < order.len() && i != j implies order[i]
            != order[j] by {
            assert(self.index@[self.keys@[i]@] == i);
            assert(self.index@[self.keys@[j]@] == j);
        }
    }

    /// An empty table.
    pub fn new() -> (res: Self)
        ensures
            res.wf(),
            res@ == Map::<Seq<char>, V>::empty(),
            res.order() == Seq::<Seq<char>>::empty(),
    {
        KeyedTable { index: StringHashMap::new(), keys: Vec::new(), values: Vec::new() }
    }

    /// Number of keys.
    pub fn len(&self) -> (n: usize)
        requires
            self.wf(),
        ensures
            n == self.order().len(),
            n == self@.dom().len(),
    {
        proof {
            self.lemma_order();
        }
        self.keys.len()
    }

    /// The key inserted as the `i`-th.
    pub fn key_at(&self, i: usize) -> (key: &String)
        requires
            self.wf(),
            i < self.order().len(),
        ensures
            key@ == self.order()[i as int],
            self@.contains_key(key@),
    {
        &self.keys[i]
    }

    /// The value stored under the key inserted as the `i`-th.
    pub fn value_at(&self, i: usize) -> (value: &V)
        requires
            self.wf(),
            i < self.order().len(),
        ensures
            self@.contains_key(self.order()[i as int]),
            *value == self@[self.order()[i as int]],
    {
        &self.values[i]
    }

    /// Whether `key` is present.
    pub fn contains_key(&self, key: &String) -> (found: bool)
        requires
            self.wf(),
        ensures
            found == self@.contains_key(key@),
    {
        self.index.contains_key(key.as_str())
    }

    /// The value stored under `key`, if any.
    pub fn get(&self, key: &String) -> (found: Option<&V>)
        requires
            self.wf(),
        ensures
            match found {
                Some(value) => self@.contains_key(key@) && *value == self@[key@],
                None => !self@.contains_key(key@),
            },
    {
        match self.index.get(key.as_str()) {
            Some(position) => Some(&self.values[*position]),
            None => None,
        }
    }

    /// Stores `value` under `key`.  A new key goes to the end of the order; a
    /// key that is present keeps its place and gets the new value.
    pub fn insert(&mut self, key: String, value: V)
        requires
            old(self).wf(),
        ensures
            final(self).wf(),
            final(self)@ == old(self)@.insert(key@, value),
            final(self).order() == if old(self)@.contains_key(key@) {
                old(self).order()
            } else {
                old(self).order().push(key@)
            },
    {
        let ghost before = *self;
        match self.index.get(key.as_str()) {
            Some(position) => {
                let position = *position;
                self.values.set(position, value);
                assert(self@ =~= before@.insert(key@, value));
                assert(self.order() =~= before.order());
            },
            None => {
                let position = self.keys.len();
                self.index.insert(key.clone(), position);
                self.keys.push(key);
                self.values.push(value);
                assert(self.index@.dom() =~= before.index@.dom().insert(key@));
                assert forall|i: int| 0 <= i < self.keys@.len() implies self.index@.contains_key(
                    #[trigger] self.keys@[i]@,
                ) && self.index@[self.keys@[i]@] == i by {
                    if i < position {
                        assert(before.index@.contains_key(before.keys@[i]@));
                    }
                }
                assert(self@ =~= before@.insert(key@, value));
                assert(self.order() =~= before.order().push(key@));
            },
        }
    }
}

} // verus!
