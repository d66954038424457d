//! Small facts about sequences and the sets of their elements.
use vstd::prelude::*;

verus! {

/// The texts that a list of strings holds, in the same order.
pub open spec fn texts(ids: Seq<String>) -> Seq<Seq<char>> {
    ids.map_values(|id: String| id@)
}

/// Appending an element to a sequence adds that element to its set.
pub proof fn lemma_push_to_set<A>(s: Seq<A>, a: A)
    ensures
        s.push(a).to_set() == s.to_set().insert(a),
{
    let longer = s.push(a);
    assert forall|x: A| s.to_set().insert(a).contains(x) implies longer.contains(x) by {
        if x == a {
            assert(longer[s.len() as int] == x);
        } else {
            let k = choose|k: int| 0 <= k < s.len() && s[k] == x;
            assert(longer[k] == x);
        }
    }
    assert forall|x: A| longer.contains(x) implies s.to_set().insert(a).contains(x) by {
        let k = choose|k: int| 0 <= k < longer.len() && longer[k] == x;
        if k < s.len() {
            assert(s[k] == x);
        }
    }
    assert(longer.to_set() =~= s.to_set().insert(a));
}

/// Taking one more element of a sequence adds that element to the set of
/// what was taken.
pub proof fn lemma_take_to_set<A>(s: Seq<A>, i: int)
    requires
        0 <= i < s.len(),
    ensures
        s.take(i + 1).to_set() == s.take(i).to_set().insert(s[i]),
{
    assert(s.take(i + 1) =~= s.take(i).push(s[i]));
    lemma_push_to_set(s.take(i), s[i]);
}

/// The map that two lists of equal length describe, the first holding the
/// keys, each once, and the second their values.
pub open spec fn listed<V>(keys: Seq<Seq<char>>, values: Seq<V>) -> Map<Seq<char>, V> {
    Map::new(|key: Seq<char>| keys.contains(key), |key: Seq<char>| values[keys.index_of(key)])
}

/// A map is what its keys and values describe when they are listed in some
/// order, each key once.
pub proof fn lemma_listed_is<V>(keys: Seq<Seq<char>>, values: Seq<V>, map: Map<Seq<char>, V>)
    requires
        keys.no_duplicates(),
        keys.len() == values.len(),
        forall|key: Seq<char>| map.contains_key(key) <==> keys.contains(key),
        forall|i: int| 0 <= i < keys.len() ==> map[#[trigger] keys[i]] == values[i],
    ensures
        listed(keys, values) == map,
{
    assert forall|key: Seq<char>| keys.contains(key) implies #[trigger] listed(keys, values)[key]
        == map[key] by {
        let i = keys.index_of(key);
        assert(map[keys[i]] == values[i]);
    }
    assert(listed(keys, values) =~= map);
}

/// Appending a new key and its value to the two lists inserts the pair into
/// the map that they describe.
pub proof fn lemma_listed_push<V>(keys: Seq<Seq<char>>, values: Seq<V>, key: Seq<char>, value: V)
    requires
        keys.no_duplicates(),
        keys.len() == values.len(),
        !keys.contains(key),
    ensures
        keys.push(key).no_duplicates(),
        listed(keys.push(key), values.push(value)) == listed(keys, values).insert(key, value),
{
    let longer = keys.push(key);
    assert forall|i: int, j: int|
        0 <= i < longer.len() && 0 <= j < longer.len() && i != j implies longer[i]
        != longer[j] by {
        if i < keys.len() {
            assert(keys[i] == longer[i]);
        }
        if j < keys.len() {
            assert(keys[j] == longer[j]);
        }
    }
    lemma_push_to_set(keys, key);
    assert forall|k: Seq<char>| longer.contains(k) <==> listed(keys, values).insert(
        key,
        value,
    ).contains_key(k) by {
        assert(longer.to_set().contains(k) == longer.contains(k));
        assert(keys.to_set().contains(k) == keys.contains(k));
    }
    let grown = listed(keys, values).insert(key, value);
    assert forall|i: int| 0 <= i < longer.len() implies grown[#[trigger] longer[i]]
        == values.push(value)[i] by {
        if i < keys.len() {
            assert(keys[i] == longer[i]);
            assert(keys.contains(keys[i]));
            assert(keys.index_of(keys[i]) == i);
        }
    }
    lemma_listed_is(longer, values.push(value), listed(keys, values).insert(key, value));
}

} // verus!
