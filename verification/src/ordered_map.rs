//! A map from text keys to values that keeps its entries in ascending key
//! order.

use crate::merge::Mergeable;
use crate::text::{
    ascending, key_lt, key_order, lemma_key_lt_asymmetric, lemma_key_lt_irreflexive,
    lemma_key_lt_transitive, KeyOrder,
};
use vstd::prelude::*;

verus! {

/// The map that a sequence of keys and the values at their positions stand
/// for.
pub open spec fn model_of<V>(keys: Seq<Seq<char>>, values: Seq<V>) -> Map<Seq<char>, V> {
    Map::new(|k: Seq<char>| keys.contains(k), |k: Seq<char>| values[keys.index_of(k)])
}

/// In strictly ascending keys each key occurs once, and the model maps it to
/// the value at its position.
pub proof fn lemma_model_of<V>(keys: Seq<Seq<char>>, values: Seq<V>)
    requires
        ascending(keys),
    ensures
        keys.no_duplicates(),
        forall|i: int|
            0 <= i < keys.len() ==> model_of(keys, values).dom().contains(#[trigger] keys[i])
                && model_of(keys, values)[keys[i]] == values[i],
{
    assert forall|i: int, j: int| 0 <= i < keys.len() && 0 <= j < keys.len() && i != j implies keys[i]
        != keys[j] by {
        if i < j {
            lemma_key_lt_asymmetric(keys[i], keys[j]);
        } else {
            lemma_key_lt_asymmetric(keys[j], keys[i]);
        }
    }
    assert forall|i: int| 0 <= i < keys.len() implies model_of(keys, values).dom().contains(
        #[trigger] keys[i],
    ) && model_of(keys, values)[keys[i]] == values[i] by {
        assert(keys.contains(keys[i]));
        assert(keys.index_of(keys[i]) == i);
    }
}

/// Ascending keys are determined by which keys they are: two ascending
/// sequences that hold the same keys are the same sequence.
pub proof fn lemma_ascending_is_unique(a: Seq<Seq<char>>, b: Seq<Seq<char>>)
    requires
        ascending(a),
        ascending(b),
        forall|k: Seq<char>| a.contains(k) <==> b.contains(k),
    ensures
        a == b,
    decreases a.len(),
{
    if a.len() == 0 {
        if b.len() > 0 {
            assert(b.contains(b[0]));
        }
        assert(a =~= b);
    } else {
        assert(a.contains(a[0]));
        let x = a.last();
        let y = b.last();
        assert(a.contains(x));
        assert(b.contains(y));
        let j = b.index_of(x);
        let i = a.index_of(y);
        if x != y {
            assert(key_lt(b[j], b[b.len() - 1]));
            assert(key_lt(a[i], a[a.len() - 1]));
            lemma_key_lt_asymmetric(x, y);
        }
        let shorter_a = a.drop_last();
        let shorter_b = b.drop_last();
        assert forall|k: Seq<char>| shorter_a.contains(k) <==> shorter_b.contains(k) by {
            if shorter_a.contains(k) {
                let at = shorter_a.index_of(k);
                assert(key_lt(a[at], a[a.len() - 1]));
                lemma_key_lt_asymmetric(k, x);
                assert(a.contains(k));
                let other = b.index_of(k);
                assert(shorter_b[other] == k);
            }
            if shorter_b.contains(k) {
                let at = shorter_b.index_of(k);
                assert(key_lt(b[at], b[b.len() - 1]));
                lemma_key_lt_asymmetric(k, y);
                assert(b.contains(k));
                let other = a.index_of(k);
                assert(shorter_a[other] == k);
            }
        }
        assert(ascending(shorter_a)) by {
            assert forall|p: int, q: int| 0 <= p < q < shorter_a.len() implies key_lt(
                #[trigger] shorter_a[p],
                #[trigger] shorter_a[q],
            ) by {
                assert(key_lt(a[p], a[q]));
            }
        }
        assert(ascending(shorter_b)) by {
            assert forall|p: int, q: int| 0 <= p < q < shorter_b.len() implies key_lt(
                #[trigger] shorter_b[p],
                #[trigger] shorter_b[q],
            ) by {
                assert(key_lt(b[p], b[q]));
            }
        }
        lemma_ascending_is_unique(shorter_a, shorter_b);
        assert(a =~= shorter_a.push(x));
        assert(b =~= shorter_b.push(y));
    }
}

/// A key that stands between its neighbours is not yet among the keys.
pub proof fn lemma_gap_is_free(keys: Seq<Seq<char>>, i: int, k: Seq<char>)
    requires
        ascending(keys),
        0 <= i <= keys.len(),
        forall|j: int| 0 <= j < i ==> key_lt(keys[j], k),
        i < keys.len() ==> key_lt(k, keys[i]),
    ensures
        !keys.contains(k),
{
    if keys.contains(k) {
        let j = keys.index_of(k);
        lemma_key_lt_irreflexive(k);
        if j > i {
            lemma_key_lt_transitive(k, keys[i], keys[j]);
        }
    }
}

/// Putting a key into its gap keeps the keys ascending.
pub proof fn lemma_insert_ascending(keys: Seq<Seq<char>>, i: int, k: Seq<char>)
    requires
        ascending(keys),
        0 <= i <= keys.len(),
        forall|j: int| 0 <= j < i ==> key_lt(keys[j], k),
        i < keys.len() ==> key_lt(k, keys[i]),
    ensures
        ascending(keys.insert(i, k)),
{
    let fresh = keys.insert(i, k);
    assert forall|a: int, b: int| 0 <= a < b < fresh.len() implies key_lt(
        #[trigger] fresh[a],
        #[trigger] fresh[b],
    ) by {
        if b < i {
            assert(fresh[a] == keys[a] && fresh[b] == keys[b]);
        } else if b == i {
            assert(fresh[a] == keys[a]);
        } else if a == i {
            assert(fresh[b] == keys[b - 1]);
            if b - 1 > i {
                lemma_key_lt_transitive(k, keys[i], keys[b - 1]);
            }
        } else if a < i {
            assert(fresh[a] == keys[a] && fresh[b] == keys[b - 1]);
        } else {
            assert(fresh[a] == keys[a - 1] && fresh[b] == keys[b - 1]);
        }
    }
}

/// Putting a new key into its gap adds one entry to the model.
pub proof fn lemma_insert_model<V>(keys: Seq<Seq<char>>, values: Seq<V>, i: int, k: Seq<char>, v: V)
    requires
        ascending(keys),
        keys.len() == values.len(),
        0 <= i <= keys.len(),
        forall|j: int| 0 <= j < i ==> key_lt(keys[j], k),
        i < keys.len() ==> key_lt(k, keys[i]),
    ensures
        model_of(keys.insert(i, k), values.insert(i, v)) == model_of(keys, values).insert(k, v),
{
    let fresh_keys = keys.insert(i, k);
    let fresh_values = values.insert(i, v);
    let fresh = model_of(fresh_keys, fresh_values);
    let wanted = model_of(keys, values).insert(k, v);
    lemma_insert_ascending(keys, i, k);
    lemma_gap_is_free(keys, i, k);
    lemma_model_of(keys, values);
    lemma_model_of(fresh_keys, fresh_values);
    assert forall|x: Seq<char>| fresh.dom().contains(x) implies wanted.dom().contains(x)
        && fresh[x] == wanted[x] by {
        let j = fresh_keys.index_of(x);
        assert(fresh[fresh_keys[j]] == fresh_values[j]);
        if j < i {
            assert(keys[j] == x);
            assert(model_of(keys, values)[keys[j]] == values[j]);
        } else if j > i {
            assert(keys[j - 1] == x);
            assert(model_of(keys, values)[keys[j - 1]] == values[j - 1]);
        }
    }
    assert forall|x: Seq<char>| wanted.dom().contains(x) implies fresh.dom().contains(x) by {
        if x == k {
            assert(fresh_keys[i] == x);
        } else {
            let j = keys.index_of(x);
            if j < i {
                assert(fresh_keys[j] == x);
            } else {
                assert(fresh_keys[j + 1] == x);
            }
        }
    }
    assert(fresh =~= wanted);
}

/// The model of the first `i + 1` entries is that of the first `i` with the
/// entry at `i` added, and the first `i` entries do not hold the key at `i`.
pub proof fn lemma_prefix_step<V>(keys: Seq<Seq<char>>, values: Seq<V>, i: int)
    requires
        ascending(keys),
        keys.len() == values.len(),
        0 <= i < keys.len(),
    ensures
        model_of(keys.take(i + 1), values.take(i + 1)) == model_of(
            keys.take(i),
            values.take(i),
        ).insert(keys[i], values[i]),
        !model_of(keys.take(i), values.take(i)).dom().contains(keys[i]),
        !keys.take(i).contains(keys[i]),
{
    assert(keys.take(i + 1) =~= keys.take(i).insert(i, keys[i]));
    assert(values.take(i + 1) =~= values.take(i).insert(i, values[i]));
    lemma_insert_model(keys.take(i), values.take(i), i, keys[i], values[i]);
    lemma_gap_is_free(keys.take(i), i, keys[i]);
}

/// Replacing the value at a position replaces it in the model.
pub proof fn lemma_update_model<V>(keys: Seq<Seq<char>>, values: Seq<V>, i: int, v: V)
    requires
        ascending(keys),
        keys.len() == values.len(),
        0 <= i < keys.len(),
    ensures
        model_of(keys, values.update(i, v)) == model_of(keys, values).insert(keys[i], v),
{
    let fresh = model_of(keys, values.update(i, v));
    let wanted = model_of(keys, values).insert(keys[i], v);
    lemma_model_of(keys, values);
    lemma_model_of(keys, values.update(i, v));
    assert forall|x: Seq<char>| fresh.dom().contains(x) implies wanted.dom().contains(x)
        && fresh[x] == wanted[x] by {
        let j = keys.index_of(x);
        assert(fresh[keys[j]] == values.update(i, v)[j]);
        assert(model_of(keys, values)[keys[j]] == values[j]);
    }
    assert forall|x: Seq<char>| wanted.dom().contains(x) implies fresh.dom().contains(x) by {
        if x == keys[i] {
            assert(keys.contains(x));
        }
    }
    assert(fresh =~= wanted);
}

/// Laying the map `overlay` onto the map `base`: the keys of both; where both
/// hold a key, the overlay's value is laid onto the base's.
pub open spec fn merged_maps<V: Mergeable>(
    base: Map<Seq<char>, V::V>,
    overlay: Map<Seq<char>, V::V>,
) -> Map<Seq<char>, V::V> {
    Map::new(
        |k: Seq<char>| base.dom().contains(k) || overlay.dom().contains(k),
        |k: Seq<char>|
            if base.dom().contains(k) && overlay.dom().contains(k) {
                V::merged(base[k], overlay[k])
            } else if overlay.dom().contains(k) {
                overlay[k]
            } else {
                base[k]
            },
    )
}

/// Laying a map onto itself changes nothing.
pub proof fn lemma_merged_maps_same<V: Mergeable>(m: Map<Seq<char>, V::V>)
    ensures
        merged_maps::<V>(m, m) == m,
{
    assert forall|k: Seq<char>| m.dom().contains(k) implies merged_maps::<V>(m, m)[k] == m[k] by {
        V::lemma_merged_same(m[k]);
    }
    assert(merged_maps::<V>(m, m) =~= m);
}

/// The keys of a sequence of entries.
pub open spec fn keys_of<V>(entries: Seq<(String, V)>) -> Seq<Seq<char>> {
    Seq::new(entries.len(), |i: int| entries[i].0@)
}

/// The values of a sequence of entries.
pub open spec fn values_of<V>(entries: Seq<(String, V)>) -> Seq<V> {
    Seq::new(entries.len(), |i: int| entries[i].1)
}

/// Where `key` stands among ascending entries: the position of the entry that
/// holds it, or else the position at which it would have to be put. A key
/// that follows every key held is recognised at once; any other is found by
/// halving.
fn slot<V>(entries: &Vec<(String, V)>, key: &str) -> (r: (usize, bool))
    requires
        ascending(keys_of(entries@)),
    ensures
        r.0 <= entries@.len(),
        r.1 ==> r.0 < entries@.len() && keys_of(entries@)[r.0 as int] == key@,
        !r.1 ==> (forall|j: int| 0 <= j < r.0 ==> key_lt(keys_of(entries@)[j], key@)),
        !r.1 && r.0 < entries@.len() ==> key_lt(key@, keys_of(entries@)[r.0 as int]),
{
    let n: usize = entries.len();
    if n > 0 {
        match key_order(entries[n - 1].0.as_str(), key) {
            KeyOrder::Before => {
                proof {
                    assert forall|j: int| 0 <= j < n implies key_lt(keys_of(entries@)[j], key@) by {
                        if j < n - 1 {
                            lemma_key_lt_transitive(
                                keys_of(entries@)[j],
                                keys_of(entries@)[n - 1],
                                key@,
                            );
                        }
                    }
                }
                return (n, false);
            },
            KeyOrder::Same => {
                return (n - 1, true);
            },
            KeyOrder::After => {},
        }
    }
    let mut low: usize = 0;
    let mut high: usize = n;
    while low < high
        invariant
            low <= high <= n,
            n == entries@.len(),
            ascending(keys_of(entries@)),
            forall|j: int| 0 <= j < low ==> key_lt(keys_of(entries@)[j], key@),
            forall|j: int| high <= j < n ==> key_lt(key@, keys_of(entries@)[j]),
        decreases high - low,
    {
        let mid: usize = low + (high - low) / 2;
        match key_order(entries[mid].0.as_str(), key) {
            KeyOrder::Before => {
                proof {
                    assert forall|j: int| 0 <= j < mid + 1 implies key_lt(
                        keys_of(entries@)[j],
                        key@,
                    ) by {
                        if j < mid {
                            lemma_key_lt_transitive(
                                keys_of(entries@)[j],
                                keys_of(entries@)[mid as int],
                                key@,
                            );
                        }
                    }
                }
                low = mid + 1;
            },
            KeyOrder::Same => {
                return (mid, true);
            },
            KeyOrder::After => {
                proof {
                    assert forall|j: int| mid <= j < n implies key_lt(
                        key@,
                        keys_of(entries@)[j],
                    ) by {
                        if mid < j {
                            lemma_key_lt_transitive(
                                key@,
                                keys_of(entries@)[mid as int],
                                keys_of(entries@)[j],
                            );
                        }
                    }
                }
                high = mid;
            },
        }
    }
    (low, false)
}

/// A map keyed by text. Its entries are held in strictly ascending key order,
/// so that reading them by position visits the keys in that order.
#[derive(Debug, PartialEq, Eq)]
pub struct OrderedMap<V> {
    entries: Vec<(String, V)>,
}

impl<V> OrderedMap<V> {
    /// The keys, in the order in which they are held.
    pub closed spec fn keys(&self) -> Seq<Seq<char>> {
        keys_of(self.entries@)
    }

    /// The values, each at the position of its key.
    pub closed spec fn values(&self) -> Seq<V> {
        values_of(self.entries@)
    }

    /// Every map that executable code holds has as many values as keys, and
    /// its keys in strictly ascending order.
    #[verifier::type_invariant]
    pub open spec fn well_formed(&self) -> bool {
        &&& self.keys().len() == self.values().len()
        &&& ascending(self.keys())
    }

    /// The map as a mathematical map from keys to the values held.
    pub open spec fn model(&self) -> Map<Seq<char>, V> {
        model_of(self.keys(), self.values())
    }

    /// The order of the keys follows from which keys the map holds: two maps
    /// with the same keys hold them in the same order, so the values of two
    /// maps with the same model stand in the same order too.
    pub proof fn lemma_order_follows_model(&self, other: &Self)
        requires
            self.well_formed(),
            other.well_formed(),
            self.model().dom() == other.model().dom(),
        ensures
            self.keys() == other.keys(),
            self.model() == other.model() ==> self.values() == other.values(),
    {
        lemma_model_of(self.keys(), self.values());
        lemma_model_of(other.keys(), other.values());
        assert forall|k: Seq<char>| self.keys().contains(k) <==> other.keys().contains(k) by {
            assert(self.model().dom().contains(k) <==> self.keys().contains(k));
            assert(other.model().dom().contains(k) <==> other.keys().contains(k));
        }
        lemma_ascending_is_unique(self.keys(), other.keys());
        if self.model() == other.model() {
            assert forall|i: int| 0 <= i < self.values().len() implies self.values()[i]
                == other.values()[i] by {
                assert(self.model()[self.keys()[i]] == self.values()[i]);
                assert(other.model()[other.keys()[i]] == other.values()[i]);
            }
            assert(self.values() =~= other.values());
        }
    }

    /// An empty map.
    pub fn new() -> (r: Self)
        ensures
            r.keys() == Seq::<Seq<char>>::empty(),
            r.values() == Seq::<V>::empty(),
            r.model() == Map::<Seq<char>, V>::empty(),
    {
        let r = OrderedMap { entries: Vec::new() };
        proof {
            assert(r.keys() =~= Seq::<Seq<char>>::empty());
            assert(r.values() =~= Seq::<V>::empty());
            assert(r.model() =~= Map::<Seq<char>, V>::empty());
        }
        r
    }

    /// The number of entries.
    pub fn len(&self) -> (n: usize)
        ensures
            n == self.keys().len(),
            n == self.values().len(),
    {
        self.entries.len()
    }

    /// Whether the map holds no entry.
    pub fn is_empty(&self) -> (r: bool)
        ensures
            r == (self.keys().len() == 0),
    {
        self.entries.len() == 0
    }

    /// The key at position `i`; positions follow the ascending order of keys.
    pub fn key_at(&self, i: usize) -> (k: &str)
        requires
            i < self.keys().len(),
        ensures
            k@ == self.keys()[i as int],
    {
        self.entries[i].0.as_str()
    }

    /// The value at position `i`.
    pub fn value_at(&self, i: usize) -> (v: &V)
        requires
            i < self.keys().len(),
        ensures
            *v == self.values()[i as int],
    {
        &self.entries[i].1
    }

    /// The position of `key` among the keys, if the map holds it.
    pub fn position(&self, key: &str) -> (r: Option<usize>)
        ensures
            match r {
                Some(i) => i < self.keys().len() && self.keys()[i as int] == key@,
                None => !self.keys().contains(key@),
            },
    {
        proof {
            use_type_invariant(self);
        }
        let (i, found) = slot(&self.entries, key);
        if found {
            Some(i)
        } else {
            proof {
                lemma_gap_is_free(self.keys(), i as int, key@);
            }
            None
        }
    }

    /// The value held for `key`, if any.
    pub fn get(&self, key: &str) -> (r: Option<&V>)
        ensures
            r == match self.model().get(key@) {
                Some(v) => Some(&v),
                None => None,
            },
    {
        proof {
            use_type_invariant(self);
            lemma_model_of(self.keys(), self.values());
        }
        match self.position(key) {
            Some(i) => Some(&self.entries[i].1),
            None => None,
        }
    }

    /// Whether the map holds `key`.
    pub fn contains_key(&self, key: &str) -> (r: bool)
        ensures
            r == self.model().dom().contains(key@),
    {
        self.position(key).is_some()
    }

    /// The entries, in ascending key order.
    pub fn into_entries(self) -> (r: Vec<(String, V)>)
        ensures
            keys_of(r@) == self.keys(),
            values_of(r@) == self.values(),
            ascending(keys_of(r@)),
    {
        proof {
            use_type_invariant(&self);
        }
        self.entries
    }

    /// Sets the value held for `key`, and returns the value that was held for
    /// it before, if any.
    pub fn insert(&mut self, key: String, value: V) -> (r: Option<V>)
        ensures
            final(self).model() == old(self).model().insert(key@, value),
            r == old(self).model().get(key@),
    {
        proof {
            use_type_invariant(&*self);
            lemma_model_of(self.keys(), self.values());
        }
        let mut taken = OrderedMap { entries: Vec::new() };
        proof {
            assert(taken.keys() =~= Seq::<Seq<char>>::empty());
            assert(taken.values() =~= Seq::<V>::empty());
        }
        core::mem::swap(self, &mut taken);
        let mut entries = taken.entries;
        let (i, found) = slot(&entries, key.as_str());
        if found {
            let old_entry = entries.remove(i);
            entries.insert(i, (key, value));
            let ghost fresh = OrderedMap { entries };
            proof {
                assert(fresh.keys() =~= old(self).keys());
                assert(fresh.values() =~= old(self).values().update(i as int, value));
                lemma_update_model(old(self).keys(), old(self).values(), i as int, value);
            }
            *self = OrderedMap { entries };
            Some(old_entry.1)
        } else {
            entries.insert(i, (key, value));
            let ghost fresh = OrderedMap { entries };
            proof {
                assert(fresh.keys() =~= old(self).keys().insert(i as int, key@));
                assert(fresh.values() =~= old(self).values().insert(i as int, value));
                lemma_insert_ascending(old(self).keys(), i as int, key@);
                lemma_insert_model(old(self).keys(), old(self).values(), i as int, key@, value);
                lemma_gap_is_free(old(self).keys(), i as int, key@);
            }
            *self = OrderedMap { entries };
            None
        }
    }
}

impl<V> Default for OrderedMap<V> {
    /// An empty map.
    fn default() -> (r: Self)
        ensures
            r.keys() == Seq::<Seq<char>>::empty(),
            r.values() == Seq::<V>::empty(),
            r.model() == Map::<Seq<char>, V>::empty(),
    {
        OrderedMap::new()
    }
}

impl<V: Clone> Clone for OrderedMap<V> {
    /// A map with the same keys, each with a clone of its value.
    fn clone(&self) -> (r: Self)
        ensures
            r.keys() == self.keys(),
            r.values().len() == self.values().len(),
            forall|i: int|
                0 <= i < self.values().len() ==> cloned::<V>(
                    #[trigger] self.values()[i],
                    r.values()[i],
                ),
    {
        proof {
            use_type_invariant(self);
        }
        let n: usize = self.entries.len();
        let mut entries: Vec<(String, V)> = Vec::new();
        let mut i: usize = 0;
        while i < n
            invariant
                i <= n,
                n == self.entries@.len(),
                entries@.len() == i,
                forall|j: int| 0 <= j < i ==> (#[trigger] entries@[j]).0@ == self.entries@[j].0@,
                forall|j: int| 0 <= j < i ==> cloned::<V>(self.entries@[j].1, (#[trigger] entries@[j]).1),
            decreases n - i,
        {
            let key = self.entries[i].0.clone();
            let value = self.entries[i].1.clone();
            entries.push((key, value));
            i = i + 1;
        }
        proof {
            assert(keys_of(entries@) =~= self.keys());
        }
        OrderedMap { entries }
    }
}

impl<V: View> View for OrderedMap<V> {
    type V = Map<Seq<char>, V::V>;

    /// The map from each key to the model of its value.
    open spec fn view(&self) -> Map<Seq<char>, V::V> {
        self.model().map_values(|v: V| v@)
    }
}

/// Setting a value in a map sets its view in the map of views.
pub proof fn lemma_view_insert<V: View>(m: Map<Seq<char>, V>, k: Seq<char>, v: V)
    ensures
        m.insert(k, v).map_values(|x: V| x@) == m.map_values(|x: V| x@).insert(k, v@),
{
    assert(m.insert(k, v).map_values(|x: V| x@) =~= m.map_values(|x: V| x@).insert(k, v@));
}

impl<V: View> OrderedMap<V> {
    /// The view holds the keys of the map, each with the view of the value at
    /// its position.
    pub proof fn lemma_view(&self)
        requires
            self.well_formed(),
        ensures
            self.keys().no_duplicates(),
            forall|k: Seq<char>| self@.dom().contains(k) <==> self.keys().contains(k),
            forall|i: int|
                0 <= i < self.keys().len() ==> self@.dom().contains(#[trigger] self.keys()[i])
                    && self@[self.keys()[i]] == self.values()[i]@,
    {
        lemma_model_of(self.keys(), self.values());
    }
}

impl<V: Mergeable> OrderedMap<V> {
    /// Sets the value held for `key` where the map holds none, and lays
    /// `value` onto the one it holds otherwise.
    pub fn merge_entry(&mut self, key: String, value: V)
        ensures
            final(self)@ == old(self)@.insert(
                key@,
                if old(self)@.dom().contains(key@) {
                    V::merged(old(self)@[key@], value@)
                } else {
                    value@
                },
            ),
    {
        proof {
            use_type_invariant(&*self);
            lemma_model_of(self.keys(), self.values());
        }
        let mut taken = OrderedMap { entries: Vec::new() };
        proof {
            assert(taken.keys() =~= Seq::<Seq<char>>::empty());
            assert(taken.values() =~= Seq::<V>::empty());
        }
        core::mem::swap(self, &mut taken);
        let mut entries = taken.entries;
        let (i, found) = slot(&entries, key.as_str());
        if found {
            let old_entry = entries.remove(i);
            let merged = old_entry.1.merge(value);
            entries.insert(i, (old_entry.0, merged));
            let ghost fresh = OrderedMap { entries };
            proof {
                assert(fresh.keys() =~= old(self).keys());
                assert(fresh.values() =~= old(self).values().update(i as int, merged));
                lemma_update_model(old(self).keys(), old(self).values(), i as int, merged);
                assert(fresh@ =~= old(self)@.insert(key@, merged@));
            }
            *self = OrderedMap { entries };
        } else {
            entries.insert(i, (key, value));
            let ghost fresh = OrderedMap { entries };
            proof {
                assert(fresh.keys() =~= old(self).keys().insert(i as int, key@));
                assert(fresh.values() =~= old(self).values().insert(i as int, value));
                lemma_insert_ascending(old(self).keys(), i as int, key@);
                lemma_insert_model(old(self).keys(), old(self).values(), i as int, key@, value);
                lemma_gap_is_free(old(self).keys(), i as int, key@);
                assert(fresh@ =~= old(self)@.insert(key@, value@));
            }
            *self = OrderedMap { entries };
        }
    }

    /// Lays `other` onto this map: the result holds the keys of both; where
    /// both hold a key, the value of `other` is laid onto the value of `self`.
    pub fn extend(self, other: Self) -> (r: Self)
        ensures
            r@ == merged_maps::<V>(self@, other@),
    {
        proof {
            use_type_invariant(&self);
            use_type_invariant(&other);
        }
        let ghost base = self@;
        let ghost okeys = other.keys();
        let ghost ovalues = other.values();
        let mut acc = self;
        let entries = other.entries;
        proof {
            assert(model_of(okeys.take(0), ovalues.take(0)).map_values(|v: V| v@) =~= Map::<
                Seq<char>,
                V::V,
            >::empty());
            assert(acc@ =~= merged_maps::<V>(base, Map::<Seq<char>, V::V>::empty()));
        }
        for e in it: entries.into_iter()
            invariant
                okeys == keys_of(it.seq()),
                ovalues == values_of(it.seq()),
                ascending(okeys),
                acc@ == merged_maps::<V>(
                    base,
                    model_of(okeys.take(it.index() as int), ovalues.take(it.index() as int)).map_values(
                        |v: V| v@,
                    ),
                ),
        {
            let ghost i = it.index() as int;
            let ghost before = model_of(okeys.take(i), ovalues.take(i));
            let ghost after = model_of(okeys.take(i + 1), ovalues.take(i + 1));
            proof {
                lemma_prefix_step(okeys, ovalues, i);
                assert(after == before.insert(okeys[i], ovalues[i]));
                assert(!before.dom().contains(okeys[i]));
                assert(e.0@ == okeys[i]);
                assert(e.1 == ovalues[i]);
            }
            acc.merge_entry(e.0, e.1);
            proof {
                assert(acc@ =~= merged_maps::<V>(base, after.map_values(|v: V| v@)));
            }
        }
        proof {
            assert(okeys.take(okeys.len() as int) =~= okeys);
            assert(ovalues.take(ovalues.len() as int) =~= ovalues);
        }
        acc
    }
}

} // verus!
