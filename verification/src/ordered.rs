//! Maps and sets of texts whose entries come out in the order of their keys.
use crate::text::{compare_text, precedes, precedes_asymmetric, precedes_transitive, Side};
use vstd::prelude::*;

verus! {

/// Each text comes strictly before all that follow it.
pub open spec fn ascending(texts: Seq<Seq<char>>) -> bool {
    forall|i: int, j: int|
        0 <= i < j < texts.len() ==> precedes(#[trigger] texts[i], #[trigger] texts[j])
}

/// The keys of a list of entries.
pub open spec fn keys_of<T>(pairs: Seq<(Seq<char>, T)>) -> Seq<Seq<char>> {
    Seq::new(pairs.len(), |i: int| pairs[i].0)
}

/// The place `i` of the list holds `key`.
pub open spec fn key_at<T>(pairs: Seq<(Seq<char>, T)>, key: Seq<char>, i: int) -> bool {
    0 <= i < pairs.len() && pairs[i].0 == key
}

/// The map that a list of entries with distinct keys stands for.
pub open spec fn to_map<T>(pairs: Seq<(Seq<char>, T)>) -> Map<Seq<char>, T> {
    Map::new(
        |key: Seq<char>| exists|i: int| key_at(pairs, key, i),
        |key: Seq<char>| pairs[choose|i: int| key_at(pairs, key, i)].1,
    )
}

/// In an ascending list every key stands once.
pub proof fn ascending_distinct(texts: Seq<Seq<char>>)
    requires
        ascending(texts),
    ensures
        forall|i: int, j: int|
            0 <= i < texts.len() && 0 <= j < texts.len() && #[trigger] texts[i]
                == #[trigger] texts[j] ==> i == j,
{
    assert forall|i: int, j: int|
        0 <= i < texts.len() && 0 <= j < texts.len() && #[trigger] texts[i]
            == #[trigger] texts[j] implies i == j by {
        precedes_asymmetric(texts[i], texts[j]);
    }
}

/// Each entry of an ascending list is an entry of the map, and there are no others.
pub proof fn to_map_entries<T>(pairs: Seq<(Seq<char>, T)>)
    requires
        ascending(keys_of(pairs)),
    ensures
        forall|i: int|
            0 <= i < pairs.len() ==> to_map(pairs).contains_key(#[trigger] pairs[i].0) && to_map(
                pairs,
            )[pairs[i].0] == pairs[i].1,
        forall|key: Seq<char>| #[trigger]
            to_map(pairs).contains_key(key) ==> exists|i: int| key_at(pairs, key, i),
{
    ascending_distinct(keys_of(pairs));
    assert forall|i: int| 0 <= i < pairs.len() implies to_map(pairs).contains_key(
        #[trigger] pairs[i].0,
    ) && to_map(pairs)[pairs[i].0] == pairs[i].1 by {
        let key = pairs[i].0;
        assert(key_at(pairs, key, i));
        let j = choose|j: int| key_at(pairs, key, j);
        assert(keys_of(pairs)[i] == keys_of(pairs)[j]);
    }
}

/// Two ascending lists that stand for the same map are the same list: the order in which entries
/// come out depends on nothing but the entries.
pub proof fn listing_is_determined<T>(a: Seq<(Seq<char>, T)>, b: Seq<(Seq<char>, T)>)
    requires
        ascending(keys_of(a)),
        ascending(keys_of(b)),
        to_map(a) == to_map(b),
    ensures
        a == b,
    decreases a.len(),
{
    to_map_entries(a);
    to_map_entries(b);
    if a.len() == 0 {
        if b.len() > 0 {
            assert(to_map(a).contains_key(b[0].0));
        }
        assert(a =~= b);
    } else if b.len() == 0 {
        assert(to_map(b).contains_key(a[0].0));
    } else {
        let x = a.last();
        let y = b.last();
        assert(to_map(b).contains_key(x.0));
        assert(to_map(a).contains_key(y.0));
        let i = choose|i: int| key_at(b, x.0, i);
        let j = choose|j: int| key_at(a, y.0, j);
        if x.0 != y.0 {
            assert(precedes(keys_of(b)[i], keys_of(b)[b.len() - 1]));
            assert(precedes(keys_of(a)[j], keys_of(a)[a.len() - 1]));
            precedes_asymmetric(x.0, y.0);
        }
        assert(x == y);
        let a1 = a.drop_last();
        let b1 = b.drop_last();
        assert(ascending(keys_of(a1))) by {
            assert forall|m: int, n: int| 0 <= m < n < a1.len() implies precedes(
                #[trigger] keys_of(a1)[m],
                #[trigger] keys_of(a1)[n],
            ) by {
                assert(precedes(keys_of(a)[m], keys_of(a)[n]));
            }
        }
        assert(ascending(keys_of(b1))) by {
            assert forall|m: int, n: int| 0 <= m < n < b1.len() implies precedes(
                #[trigger] keys_of(b1)[m],
                #[trigger] keys_of(b1)[n],
            ) by {
                assert(precedes(keys_of(b)[m], keys_of(b)[n]));
            }
        }
        without_last(a);
        without_last(b);
        assert(to_map(a1) == to_map(b1));
        listing_is_determined(a1, b1);
        assert(a =~= a1.push(x));
        assert(b =~= b1.push(y));
    }
}

/// Two ascending lists of the same texts are the same list.
pub proof fn ascending_is_determined(a: Seq<Seq<char>>, b: Seq<Seq<char>>)
    requires
        ascending(a),
        ascending(b),
        a.to_set() == b.to_set(),
    ensures
        a == b,
{
    let x = Seq::new(a.len(), |i: int| (a[i], ()));
    let y = Seq::new(b.len(), |i: int| (b[i], ()));
    assert(keys_of(x) =~= a);
    assert(keys_of(y) =~= b);
    assert forall|text: Seq<char>| to_map(x).contains_key(text) <==> to_map(y).contains_key(text) by {
        assert(a.to_set().contains(text) <==> b.to_set().contains(text));
        if to_map(x).contains_key(text) {
            let i = choose|i: int| key_at(x, text, i);
            assert(a[i] == text);
            assert(a.to_set().contains(text));
            assert(b.contains(text));
            let j = choose|j: int| 0 <= j < b.len() && b[j] == text;
            assert(key_at(y, text, j));
        }
        if to_map(y).contains_key(text) {
            let i = choose|i: int| key_at(y, text, i);
            assert(b[i] == text);
            assert(b.to_set().contains(text));
            assert(a.contains(text));
            let j = choose|j: int| 0 <= j < a.len() && a[j] == text;
            assert(key_at(x, text, j));
        }
    }
    assert(to_map(x) =~= to_map(y));
    listing_is_determined(x, y);
    assert(a =~= b) by {
        assert(keys_of(x) == keys_of(y));
    }
}

/// Leaving out the last entry of an ascending list removes its key from the map.
proof fn without_last<T>(pairs: Seq<(Seq<char>, T)>)
    requires
        ascending(keys_of(pairs)),
        pairs.len() > 0,
    ensures
        to_map(pairs.drop_last()) == to_map(pairs).remove(pairs.last().0),
{
    let rest = pairs.drop_last();
    assert(pairs =~= rest.insert(rest.len() as int, pairs.last()));
    assert(ascending(keys_of(rest))) by {
        assert forall|m: int, n: int| 0 <= m < n < rest.len() implies precedes(
            #[trigger] keys_of(rest)[m],
            #[trigger] keys_of(rest)[n],
        ) by {
            assert(precedes(keys_of(pairs)[m], keys_of(pairs)[n]));
        }
    }
    to_map_entries(pairs);
    to_map_entries(rest);
    ascending_distinct(keys_of(pairs));
    let last = pairs.len() - 1;
    assert forall|key: Seq<char>|
        to_map(rest).contains_key(key) <==> to_map(pairs).remove(pairs.last().0).contains_key(
            key,
        ) by {
        if to_map(rest).contains_key(key) {
            let i = choose|i: int| key_at(rest, key, i);
            assert(pairs[i].0 == key);
            assert(keys_of(pairs)[i] == key && keys_of(pairs)[last] == pairs.last().0);
        }
        if to_map(pairs).contains_key(key) && key != pairs.last().0 {
            let i = choose|i: int| key_at(pairs, key, i);
            assert(rest[i].0 == key);
        }
    }
    assert forall|key: Seq<char>| to_map(rest).contains_key(key) implies to_map(rest)[key]
        == to_map(pairs).remove(pairs.last().0)[key] by {
        let i = choose|i: int| key_at(rest, key, i);
        assert(rest[i].0 == key && pairs[i].0 == key && rest[i] == pairs[i]);
    }
    assert(to_map(rest) =~= to_map(pairs).remove(pairs.last().0));
}

/// The entries of an ascending list up to a place, and the one at that place.
pub proof fn next_entry<T>(pairs: Seq<(Seq<char>, T)>, at: int)
    requires
        ascending(keys_of(pairs)),
        0 <= at < pairs.len(),
    ensures
        ascending(keys_of(pairs.take(at))),
        !to_map(pairs.take(at)).contains_key(pairs[at].0),
        to_map(pairs.take(at + 1)) == to_map(pairs.take(at)).insert(pairs[at].0, pairs[at].1),
{
    let keys = keys_of(pairs);
    let head = pairs.take(at);
    assert(keys_of(head) =~= keys.take(at));
    assert forall|i: int, j: int| 0 <= i < j < head.len() implies precedes(
        #[trigger] keys_of(head)[i],
        #[trigger] keys_of(head)[j],
    ) by {
        assert(precedes(keys[i], keys[j]));
    }
    to_map_entries(head);
    if to_map(head).contains_key(pairs[at].0) {
        let i = choose|i: int| key_at(head, pairs[at].0, i);
        assert(precedes(keys[i], keys[at]));
        precedes_asymmetric(keys[i], keys[at]);
    }
    assert forall|j: int| 0 <= j < at implies precedes(
        #[trigger] keys_of(head)[j],
        pairs[at].0,
    ) by {
        assert(precedes(keys[j], keys[at]));
    }
    insert_in_place(head, at, pairs[at]);
    assert(head.insert(at, pairs[at]) =~= pairs.take(at + 1));
}

/// Where `key` stands or belongs in an ascending list of keys.
spec fn place_of(keys: Seq<Seq<char>>, key: Seq<char>, at: int) -> bool {
    &&& 0 <= at <= keys.len()
    &&& forall|j: int| 0 <= j < at ==> precedes(#[trigger] keys[j], key)
    &&& forall|j: int| at < j < keys.len() ==> precedes(key, #[trigger] keys[j])
    &&& at < keys.len() ==> keys[at] == key || precedes(key, keys[at])
}

/// Putting a new key in its place keeps the order and adds one entry to the map.
proof fn insert_in_place<T>(pairs: Seq<(Seq<char>, T)>, at: int, entry: (Seq<char>, T))
    requires
        ascending(keys_of(pairs)),
        place_of(keys_of(pairs), entry.0, at),
        at < pairs.len() ==> pairs[at].0 != entry.0,
    ensures
        ascending(keys_of(pairs.insert(at, entry))),
        to_map(pairs.insert(at, entry)) == to_map(pairs).insert(entry.0, entry.1),
{
    let key = entry.0;
    let keys = keys_of(pairs);
    let new = pairs.insert(at, entry);
    let new_keys = keys_of(new);
    assert forall|i: int, j: int| 0 <= i < j < new.len() implies precedes(
        #[trigger] new_keys[i],
        #[trigger] new_keys[j],
    ) by {
        if i < at && j < at {
            assert(precedes(keys[i], keys[j]));
        } else if i < at && j == at {
            assert(precedes(keys[i], key));
        } else if i < at {
            assert(precedes(keys[i], keys[j - 1]));
        } else if i == at {
            assert(j - 1 >= at);
            assert(precedes(key, keys[j - 1]));
        } else {
            assert(precedes(keys[i - 1], keys[j - 1]));
        }
    }
    to_map_entries(pairs);
    to_map_entries(new);
    let m = to_map(pairs).insert(key, entry.1);
    assert forall|k: Seq<char>| to_map(new).contains_key(k) <==> m.contains_key(k) by {
        if to_map(new).contains_key(k) {
            let i = choose|i: int| key_at(new, k, i);
            if i < at {
                assert(pairs[i].0 == k);
            } else if i > at {
                assert(pairs[i - 1].0 == k);
            }
        }
        if to_map(pairs).contains_key(k) {
            let i = choose|i: int| key_at(pairs, k, i);
            if i < at {
                assert(new[i].0 == k);
            } else {
                assert(new[i + 1].0 == k);
            }
        }
        assert(new[at].0 == key);
    }
    assert forall|k: Seq<char>| to_map(new).contains_key(k) implies to_map(new)[k] == m[k] by {
        let i = choose|i: int| key_at(new, k, i);
        assert(to_map(new)[new[i].0] == new[i].1);
        ascending_distinct(new_keys);
        if i < at {
            assert(pairs[i].0 == k);
            assert(new_keys[i] == k && new_keys[at] == key);
        } else if i > at {
            assert(pairs[i - 1].0 == k);
            assert(new_keys[i] == k && new_keys[at] == key);
        }
    }
    assert(to_map(new) =~= m);
}

/// Changing the value of an entry changes it in the map.
proof fn update_in_place<T>(pairs: Seq<(Seq<char>, T)>, at: int, entry: (Seq<char>, T))
    requires
        ascending(keys_of(pairs)),
        0 <= at < pairs.len(),
        pairs[at].0 == entry.0,
    ensures
        ascending(keys_of(pairs.update(at, entry))),
        to_map(pairs.update(at, entry)) == to_map(pairs).insert(entry.0, entry.1),
{
    let new = pairs.update(at, entry);
    assert(keys_of(new) =~= keys_of(pairs));
    to_map_entries(pairs);
    to_map_entries(new);
    ascending_distinct(keys_of(pairs));
    let m = to_map(pairs).insert(entry.0, entry.1);
    assert forall|k: Seq<char>| to_map(new).contains_key(k) <==> m.contains_key(k) by {
        if to_map(new).contains_key(k) {
            let i = choose|i: int| key_at(new, k, i);
            assert(pairs[i].0 == k);
        }
        if to_map(pairs).contains_key(k) {
            let i = choose|i: int| key_at(pairs, k, i);
            assert(new[i].0 == k);
        }
        assert(new[at].0 == entry.0);
    }
    assert forall|k: Seq<char>| to_map(new).contains_key(k) implies to_map(new)[k] == m[k] by {
        let i = choose|i: int| key_at(new, k, i);
        assert(to_map(new)[new[i].0] == new[i].1);
        assert(pairs[i].0 == k);
        assert(keys_of(pairs)[i] == k && keys_of(pairs)[at] == entry.0);
    }
    assert(to_map(new) =~= m);
}

/// Taking an entry out keeps the order and removes its key from the map.
proof fn remove_in_place<T>(pairs: Seq<(Seq<char>, T)>, at: int)
    requires
        ascending(keys_of(pairs)),
        0 <= at < pairs.len(),
    ensures
        ascending(keys_of(pairs.remove(at))),
        to_map(pairs.remove(at)) == to_map(pairs).remove(pairs[at].0),
{
    let key = pairs[at].0;
    let keys = keys_of(pairs);
    let new = pairs.remove(at);
    let new_keys = keys_of(new);
    assert forall|i: int, j: int| 0 <= i < j < new.len() implies precedes(
        #[trigger] new_keys[i],
        #[trigger] new_keys[j],
    ) by {
        let m = if i < at { i } else { i + 1 };
        let n = if j < at { j } else { j + 1 };
        assert(precedes(keys[m], keys[n]));
    }
    to_map_entries(pairs);
    to_map_entries(new);
    ascending_distinct(keys);
    let m = to_map(pairs).remove(key);
    assert forall|k: Seq<char>| to_map(new).contains_key(k) <==> m.contains_key(k) by {
        if to_map(new).contains_key(k) {
            let i = choose|i: int| key_at(new, k, i);
            let n = if i < at { i } else { i + 1 };
            assert(pairs[n].0 == k);
            assert(keys[n] == k && keys[at] == key);
        }
        if m.contains_key(k) {
            let i = choose|i: int| key_at(pairs, k, i);
            if i < at {
                assert(new[i].0 == k);
            } else {
                assert(i != at);
                assert(new[i - 1].0 == k);
            }
        }
    }
    assert forall|k: Seq<char>| to_map(new).contains_key(k) implies to_map(new)[k] == m[k] by {
        let i = choose|i: int| key_at(new, k, i);
        assert(to_map(new)[new[i].0] == new[i].1);
        let n = if i < at { i } else { i + 1 };
        assert(pairs[n].0 == k);
        assert(keys[n] == k && keys[at] == key);
    }
    assert(to_map(new) =~= m);
}

/// A map from texts to values. No key occurs twice, and the entries come out in the order of
/// their keys.
#[verifier::reject_recursive_types(V)]
pub struct TextMap<V: DeepView> {
    entries: Vec<(String, V)>,
}

impl<V: DeepView> View for TextMap<V> {
    type V = Map<Seq<char>, V::V>;

    open spec fn view(&self) -> Map<Seq<char>, V::V> {
        to_map(self.pairs())
    }
}

impl<V: DeepView> DeepView for TextMap<V> {
    type V = Map<Seq<char>, V::V>;

    open spec fn deep_view(&self) -> Map<Seq<char>, V::V> {
        self@
    }
}

impl<V: DeepView> TextMap<V> {
    /// The entries in the order in which they come out.
    pub closed spec fn pairs(&self) -> Seq<(Seq<char>, V::V)> {
        self.entries.deep_view()
    }

    /// The keys stand in ascending order, each once.
    #[verifier::type_invariant]
    pub open spec fn in_order(&self) -> bool {
        ascending(keys_of(self.pairs()))
    }

    /// An empty map.
    pub fn new() -> (map: Self)
        ensures
            map@ == Map::<Seq<char>, V::V>::empty(),
            map.pairs() == Seq::<(Seq<char>, V::V)>::empty(),
    {
        let entries: Vec<(String, V)> = Vec::new();
        assert(entries.deep_view() =~= Seq::<(Seq<char>, V::V)>::empty());
        let map = TextMap { entries };
        assert(map@ =~= Map::<Seq<char>, V::V>::empty());
        map
    }

    /// The number of entries.
    pub fn len(&self) -> (n: usize)
        ensures
            n == self.pairs().len(),
    {
        self.entries.len()
    }

    /// The key of the entry at a place.
    pub fn key(&self, at: usize) -> (key: &str)
        requires
            at < self.pairs().len(),
        ensures
            key@ == self.pairs()[at as int].0,
    {
        self.entries[at].0.as_str()
    }

    /// The value of the entry at a place.
    pub fn value(&self, at: usize) -> (value: &V)
        requires
            at < self.pairs().len(),
        ensures
            value.deep_view() == self.pairs()[at as int].1,
    {
        &self.entries[at].1
    }

    /// The place where a key stands or belongs, and whether it is there.
    fn find(&self, key: &str) -> (r: (usize, bool))
        ensures
            place_of(keys_of(self.pairs()), key@, r.0 as int),
            r.1 <==> r.0 < self.pairs().len() && self.pairs()[r.0 as int].0 == key@,
            r.1 <==> self@.contains_key(key@),
            r.1 ==> self@[key@] == self.pairs()[r.0 as int].1,
    {
        proof {
            use_type_invariant(self);
            to_map_entries(self.pairs());
        }
        let ghost keys = keys_of(self.pairs());
        let mut at: usize = 0;
        while at < self.entries.len()
            invariant
                0 <= at <= self.entries@.len(),
                keys == keys_of(self.pairs()),
                ascending(keys),
                forall|j: int| 0 <= j < at ==> precedes(#[trigger] keys[j], key@),
                forall|i: int|
                    0 <= i < self.pairs().len() ==> self@.contains_key(#[trigger] self.pairs()[i].0)
                        && self@[self.pairs()[i].0] == self.pairs()[i].1,
                forall|k: Seq<char>| #[trigger]
                    self@.contains_key(k) ==> exists|i: int| key_at(self.pairs(), k, i),
            decreases self.entries@.len() - at,
        {
            assert(keys[at as int] == self.entries@[at as int].0@);
            match compare_text(self.entries[at].0.as_str(), key) {
                Side::Before => {
                    at = at + 1;
                },
                Side::Same => {
                    assert(self.pairs()[at as int].0 == key@);
                    assert forall|j: int| at < j < keys.len() implies precedes(
                        key@,
                        #[trigger] keys[j],
                    ) by {
                        assert(precedes(keys[at as int], keys[j]));
                    }
                    return (at, true);
                },
                Side::After => {
                    assert forall|j: int| at < j < keys.len() implies precedes(
                        key@,
                        #[trigger] keys[j],
                    ) by {
                        assert(precedes(keys[at as int], keys[j]));
                        precedes_transitive(key@, keys[at as int], keys[j]);
                    }
                    proof {
                        precedes_asymmetric(key@, keys[at as int]);
                    }
                    assert(!self@.contains_key(key@)) by {
                        if self@.contains_key(key@) {
                            let i = choose|i: int| key_at(self.pairs(), key@, i);
                            assert(keys[i] == key@);
                            precedes_asymmetric(key@, key@);
                        }
                    }
                    return (at, false);
                },
            }
        }
        proof {
            precedes_asymmetric(key@, key@);
            if self@.contains_key(key@) {
                let i = choose|i: int| key_at(self.pairs(), key@, i);
                assert(keys[i] == key@);
            }
        }
        (at, false)
    }

    /// Whether the map has an entry for the key.
    pub fn contains_key(&self, key: &str) -> (found: bool)
        ensures
            found == self@.contains_key(key@),
    {
        let (_, found) = self.find(key);
        found
    }

    /// The value of a key.
    pub fn get(&self, key: &str) -> (value: Option<&V>)
        ensures
            value is Some <==> self@.contains_key(key@),
            value matches Some(v) ==> v.deep_view() == self@[key@],
    {
        let (at, found) = self.find(key);
        if found {
            Some(&self.entries[at].1)
        } else {
            None
        }
    }

    /// Sets the value of a key, whether or not the key was there.
    pub fn insert(self, key: String, value: V) -> (map: Self)
        ensures
            map@ == self@.insert(key@, value.deep_view()),
    {
        proof {
            use_type_invariant(&self);
        }
        let (at, found) = self.find(key.as_str());
        let ghost before = self.pairs();
        let ghost entry = (key@, value.deep_view());
        let mut entries = self.entries;
        if found {
            entries.set(at, (key, value));
            proof {
                update_in_place(before, at as int, entry);
                assert(entries.deep_view() =~= before.update(at as int, entry));
            }
        } else {
            entries.insert(at, (key, value));
            proof {
                insert_in_place(before, at as int, entry);
                assert(entries.deep_view() =~= before.insert(at as int, entry));
            }
        }
        TextMap { entries }
    }

    /// Takes the entry of a key out of the map, and gives its value if there was one.
    pub fn remove(self, key: &str) -> (r: (Self, Option<V>))
        ensures
            r.0@ == self@.remove(key@),
            r.1 is Some <==> self@.contains_key(key@),
            r.1 matches Some(v) ==> v.deep_view() == self@[key@],
    {
        proof {
            use_type_invariant(&self);
        }
        let (at, found) = self.find(key);
        if found {
            let ghost before = self.pairs();
            let mut entries = self.entries;
            let (_, value) = entries.remove(at);
            proof {
                remove_in_place(before, at as int);
                assert(entries.deep_view() =~= before.remove(at as int));
            }
            (TextMap { entries }, Some(value))
        } else {
            assert(self@.remove(key@) =~= self@);
            (self, None)
        }
    }

    /// The entries in the order of their keys.
    pub fn into_entries(self) -> (entries: Vec<(String, V)>)
        ensures
            entries.deep_view() == self.pairs(),
            ascending(keys_of(entries.deep_view())),
    {
        proof {
            use_type_invariant(&self);
        }
        self.entries
    }
}

/// A set of texts, which come out in ascending order.
pub struct TextSet {
    items: TextMap<()>,
}

impl View for TextSet {
    type V = Set<Seq<char>>;

    closed spec fn view(&self) -> Set<Seq<char>> {
        self.items@.dom()
    }
}

impl DeepView for TextSet {
    type V = Set<Seq<char>>;

    open spec fn deep_view(&self) -> Set<Seq<char>> {
        self@
    }
}

impl TextSet {
    /// An empty set.
    pub fn new() -> (set: Self)
        ensures
            set@ == Set::<Seq<char>>::empty(),
    {
        let set = TextSet { items: TextMap::new() };
        assert(set@ =~= Set::<Seq<char>>::empty());
        set
    }

    /// The set of the texts of a list.
    pub fn of(texts: &Vec<String>) -> (set: Self)
        ensures
            set@ == texts.deep_view().to_set(),
    {
        let mut set = TextSet::new();
        let ghost all = texts.deep_view();
        assert(all.take(0).to_set() =~= Set::<Seq<char>>::empty());
        let mut i: usize = 0;
        while i < texts.len()
            invariant
                i <= texts@.len(),
                all == texts.deep_view(),
                set@ == all.take(i as int).to_set(),
            decreases texts@.len() - i,
        {
            set = set.insert(texts[i].clone());
            proof {
                grow_to_set(all, i as int);
            }
            i = i + 1;
        }
        assert(all.take(i as int) =~= all);
        set
    }

    /// Puts a text into the set.
    pub fn insert(self, text: String) -> (set: Self)
        ensures
            set@ == self@.insert(text@),
    {
        let ghost before = self.items@;
        let set = TextSet { items: self.items.insert(text, ()) };
        assert(set@ =~= before.dom().insert(text@));
        set
    }

    /// Whether the text is in the set.
    pub fn contains(&self, text: &str) -> (found: bool)
        ensures
            found == self@.contains(text@),
    {
        self.items.contains_key(text)
    }

    /// The texts of the set in ascending order, each once.
    pub fn to_list(&self) -> (list: Vec<String>)
        ensures
            ascending(list.deep_view()),
            list.deep_view().to_set() == self@,
    {
        let mut list: Vec<String> = Vec::new();
        let ghost pairs = self.items.pairs();
        proof {
            use_type_invariant(&self.items);
        }
        let n = self.items.len();
        let mut i: usize = 0;
        while i < n
            invariant
                i <= n == pairs.len(),
                pairs == self.items.pairs(),
                list.deep_view() =~= keys_of(pairs).take(i as int),
            decreases n - i,
        {
            let ghost before = list.deep_view();
            let key = self.items.key(i).to_owned();
            list.push(key);
            assert(list.deep_view() =~= before.push(key@));
            assert(keys_of(pairs).take(i + 1) =~= keys_of(pairs).take(i as int).push(
                keys_of(pairs)[i as int],
            ));
            i = i + 1;
        }
        proof {
            assert(list.deep_view() =~= keys_of(pairs));
            to_map_entries(pairs);
            assert forall|text: Seq<char>|
                keys_of(pairs).to_set().contains(text) <==> self@.contains(text) by {
                if keys_of(pairs).contains(text) {
                    let j = choose|j: int| 0 <= j < pairs.len() && keys_of(pairs)[j] == text;
                    assert(pairs[j].0 == text);
                }
                if self@.contains(text) {
                    let j = choose|j: int| key_at(pairs, text, j);
                    assert(keys_of(pairs)[j] == text);
                }
            }
            assert(keys_of(pairs).to_set() =~= self@);
        }
        list
    }

    /// The texts that are in one of two sets.
    pub fn union(&self, other: &TextSet) -> (set: Self)
        ensures
            set@ == self@.union(other@),
    {
        let mut all = self.to_list();
        let ghost left = all.deep_view();
        let mut more = other.to_list();
        let ghost right = more.deep_view();
        all.append(&mut more);
        assert(all.deep_view() =~= left + right);
        assert((left + right).to_set() =~= left.to_set().union(right.to_set())) by {
            assert forall|text: Seq<char>|
                (left + right).to_set().contains(text) <==> left.to_set().union(
                    right.to_set(),
                ).contains(text) by {
                if left.contains(text) {
                    let j = choose|j: int| 0 <= j < left.len() && left[j] == text;
                    assert((left + right)[j] == text);
                }
                if right.contains(text) {
                    let j = choose|j: int| 0 <= j < right.len() && right[j] == text;
                    assert((left + right)[left.len() + j] == text);
                }
            }
        }
        TextSet::of(&all)
    }
}

/// The set of the first texts of a list grows by the next one.
proof fn grow_to_set(all: Seq<Seq<char>>, i: int)
    requires
        0 <= i < all.len(),
    ensures
        all.take(i + 1).to_set() == all.take(i).to_set().insert(all[i]),
{
    let small = all.take(i);
    let large = all.take(i + 1);
    assert forall|text: Seq<char>|
        large.to_set().contains(text) <==> small.to_set().insert(all[i]).contains(text) by {
        if large.contains(text) {
            let j = choose|j: int| 0 <= j < large.len() && large[j] == text;
            if j < i {
                assert(small[j] == text);
            }
        }
        if small.contains(text) {
            let j = choose|j: int| 0 <= j < small.len() && small[j] == text;
            assert(large[j] == text);
        }
        assert(large[i] == all[i]);
    }
    assert(large.to_set() =~= small.to_set().insert(all[i]));
}

} // verus!
