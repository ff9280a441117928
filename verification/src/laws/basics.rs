//! Laws of texts, maps, sets and the parts of objects.
use crate::kube_objects::{one_entry, ObjectMeta, OwnerReference};
use crate::ordered::{key_at, keys_of, to_map, to_map_entries, TextMap, TextSet};
use crate::text::{
    ascii_cuts_cleanly, compare_text, copy_texts, cut_is_short, cuts_cleanly, decimal, digit,
    differs_at, precedes, to_decimal, truncate, Side,
};
use vstd::prelude::*;
use vstd::utf8::*;

verus! {

/// A list of values holds as many as it shows, each at its place.
pub proof fn lists_are_seen_whole<T: DeepView>(list: Vec<T>)
    ensures
        list.deep_view().len() == list@.len(),
        forall|i: int|
            0 <= i < list@.len() ==> list.deep_view()[i] == (#[trigger] list@[i]).deep_view(),
{
}

/// Two texts agree on their first characters.
pub open spec fn agree_up_to(a: Seq<char>, b: Seq<char>, n: int) -> bool {
    forall|j: int| 0 <= j < n ==> #[trigger] a[j] == b[j]
}

/// `a` stands before `b` in a dictionary: where they first differ, `a` has ended or has the smaller
/// character.
pub open spec fn comes_before(a: Seq<char>, b: Seq<char>) -> bool {
    exists|n: int|
        {
            &&& 0 <= n <= a.len()
            &&& n < b.len()
            &&& #[trigger] agree_up_to(a, b, n)
            &&& n < a.len() ==> (a[n] as int) < (b[n] as int)
        }
}

/// The order in which maps and sets list their texts is that of a dictionary.
pub proof fn order_is_that_of_a_dictionary(a: Seq<char>, b: Seq<char>)
    ensures
        precedes(a, b) <==> comes_before(a, b),
{
    if precedes(a, b) {
        let n = choose|n: int| #[trigger] differs_at(a, b, n);
        assert forall|j: int| 0 <= j < n implies #[trigger] a[j] == b[j] by {
            assert(a.take(n)[j] == b.take(n)[j]);
        }
        assert(agree_up_to(a, b, n));
    }
    if comes_before(a, b) {
        let n = choose|n: int|
            {
                &&& 0 <= n <= a.len()
                &&& n < b.len()
                &&& #[trigger] agree_up_to(a, b, n)
                &&& n < a.len() ==> (a[n] as int) < (b[n] as int)
            };
        assert(a.take(n) =~= b.take(n));
        assert(differs_at(a, b, n));
    }
}

/// Of two texts, the one that comes first in a dictionary is told to be before the other.
pub proof fn comparing_follows_the_dictionary(a: &str, b: &str, side: Side)
    requires
        call_ensures(compare_text, (a, b), side),
    ensures
        side == Side::Before <==> comes_before(a@, b@),
        side == Side::After <==> comes_before(b@, a@),
        side == Side::Same <==> a@ == b@,
{
    order_is_that_of_a_dictionary(a@, b@);
    order_is_that_of_a_dictionary(b@, a@);
}

/// Copying a list of texts gives as many texts, each as it was and at its place.
pub proof fn copies_hold_every_text(texts: Vec<String>, copy: Vec<String>)
    requires
        call_ensures(copy_texts, (&texts,), copy),
    ensures
        copy@.len() == texts@.len(),
        forall|i: int| 0 <= i < texts@.len() ==> (#[trigger] copy@[i])@ == texts@[i]@,
{
    lists_are_seen_whole(texts);
    lists_are_seen_whole(copy);
    assert forall|i: int| 0 <= i < texts@.len() implies (#[trigger] copy@[i])@ == texts@[i]@ by {
        assert(copy.deep_view()[i] == texts.deep_view()[i]);
    }
}

/// The number that a row of decimal digits stands for.
pub open spec fn number_of(digits: Seq<char>) -> int
    decreases digits.len(),
{
    if digits.len() == 0 {
        0
    } else {
        10 * number_of(digits.drop_last()) + (digits.last() as int - '0' as int)
    }
}

/// Decimal notation has only digits, does not start with a zero that could be left out, and stands
/// for the number that was written.
pub proof fn decimal_stands_for_its_number(n: nat)
    ensures
        number_of(decimal(n)) == n,
        decimal(n).len() > 0,
        forall|i: int| 0 <= i < decimal(n).len() ==> '0' <= #[trigger] decimal(n)[i] <= '9',
        n > 0 ==> decimal(n)[0] != '0',
    decreases n,
{
    assert(digit(n % 10) as int == 48 + n % 10);
    if n < 10 {
        assert(decimal(n).drop_last() =~= Seq::empty());
        assert(number_of(Seq::<char>::empty()) == 0);
    } else {
        decimal_stands_for_its_number(n / 10);
        assert(decimal(n).drop_last() =~= decimal(n / 10));
        assert forall|i: int| 0 <= i < decimal(n).len() implies '0' <= #[trigger] decimal(n)[i]
            <= '9' by {
            if i < decimal(n / 10).len() {
                assert(decimal(n)[i] == decimal(n / 10)[i]);
            }
        }
        assert(decimal(n)[0] == decimal(n / 10)[0]);
    }
}

/// A number that is written in decimal notation can be read back.
pub proof fn written_numbers_are_read_back(n: u64, text: String)
    requires
        call_ensures(to_decimal, (n,), text),
    ensures
        number_of(text@) == n,
        forall|i: int| 0 <= i < text@.len() ==> '0' <= #[trigger] text@[i] <= '9',
        n > 0 ==> text@[0] != '0',
{
    decimal_stands_for_its_number(n as nat);
}

/// Cutting a text off leaves its start, with as many bytes as are allowed unless nothing is cut.
pub proof fn truncation_keeps_the_start(text: &str, limit: usize, short: String)
    requires
        cuts_cleanly(text@, limit as int),
        call_ensures(truncate, (text, limit), short),
    ensures
        short@.len() <= text@.len(),
        short@ == text@.take(short@.len() as int),
        encode_utf8(short@).len() <= limit,
        encode_utf8(text@).len() <= limit ==> short@ == text@,
        encode_utf8(text@).len() > limit ==> encode_utf8(short@).len() == limit,
        is_ascii_chars(text@) && text@.len() > limit ==> short@ == text@.take(limit as int),
{
    cut_is_short(text@, limit as int);
    if is_ascii_chars(text@) {
        ascii_cuts_cleanly(text@, limit as int);
    }
}

/// What is put into a map under a key is found under that key, and nothing else changes.
pub proof fn inserted_entries_are_found<V: DeepView>(
    map: TextMap<V>,
    key: String,
    value: V,
    new: TextMap<V>,
    other: &str,
    before: Option<&V>,
    after: Option<&V>,
)
    requires
        call_ensures(TextMap::<V>::insert, (map, key, value), new),
        call_ensures(TextMap::<V>::get, (&map, other), before),
        call_ensures(TextMap::<V>::get, (&new, other), after),
    ensures
        other@ == key@ ==> after is Some && after->0.deep_view() == value.deep_view(),
        other@ != key@ ==> (after is Some <==> before is Some) && (after is Some
            ==> after->0.deep_view() == before->0.deep_view()),
{
}

/// What is taken out of a map is what was found under the key. It is not found any more, and
/// nothing else changes.
pub proof fn removed_entries_are_gone<V: DeepView>(
    map: TextMap<V>,
    key: &str,
    r: (TextMap<V>, Option<V>),
    other: &str,
    before: Option<&V>,
    after: Option<&V>,
)
    requires
        call_ensures(TextMap::<V>::remove, (map, key), r),
        call_ensures(TextMap::<V>::get, (&map, other), before),
        call_ensures(TextMap::<V>::get, (&r.0, other), after),
    ensures
        other@ == key@ ==> after is None && (r.1 is Some <==> before is Some) && (before is Some
            ==> r.1->0.deep_view() == before->0.deep_view()),
        other@ != key@ ==> (after is Some <==> before is Some) && (after is Some
            ==> after->0.deep_view() == before->0.deep_view()),
{
}

/// Nothing is found in a new map.
pub proof fn new_maps_are_empty<V: DeepView>(map: TextMap<V>, key: &str, found: Option<&V>)
    requires
        call_ensures(TextMap::<V>::new, (), map),
        call_ensures(TextMap::<V>::get, (&map, key), found),
    ensures
        found is None,
{
}

/// A map has a key exactly if a value is found under it.
pub proof fn keys_are_those_with_values<V: DeepView>(
    map: TextMap<V>,
    key: &str,
    has: bool,
    found: Option<&V>,
)
    requires
        call_ensures(TextMap::<V>::contains_key, (&map, key), has),
        call_ensures(TextMap::<V>::get, (&map, key), found),
    ensures
        has <==> found is Some,
{
}

/// The entries of a map come out in the order of a dictionary, each key once, and they are what is
/// found in the map.
pub proof fn entries_are_what_is_found<V: DeepView>(
    map: TextMap<V>,
    entries: Vec<(String, V)>,
    key: &str,
    found: Option<&V>,
)
    requires
        call_ensures(TextMap::<V>::into_entries, (map,), entries),
        call_ensures(TextMap::<V>::get, (&map, key), found),
    ensures
        forall|i: int, j: int|
            0 <= i < j < entries@.len() ==> comes_before(
                (#[trigger] entries@[i]).0@,
                (#[trigger] entries@[j]).0@,
            ),
        found is Some <==> exists|i: int|
            0 <= i < entries@.len() && (#[trigger] entries@[i]).0@ == key@,
        forall|i: int|
            0 <= i < entries@.len() && (#[trigger] entries@[i]).0@ == key@
                ==> found->0.deep_view() == entries@[i].1.deep_view(),
{
    lists_are_seen_whole(entries);
    let pairs = entries.deep_view();
    to_map_entries(pairs);
    assert forall|i: int, j: int| 0 <= i < j < entries@.len() implies comes_before(
        (#[trigger] entries@[i]).0@,
        (#[trigger] entries@[j]).0@,
    ) by {
        assert(precedes(keys_of(pairs)[i], keys_of(pairs)[j]));
        order_is_that_of_a_dictionary(entries@[i].0@, entries@[j].0@);
    }
    assert forall|i: int| 0 <= i < entries@.len() && (#[trigger] entries@[i]).0@ == key@ implies
        found is Some && found->0.deep_view() == entries@[i].1.deep_view() by {
        assert(pairs[i].0 == key@);
        assert(to_map(pairs).contains_key(pairs[i].0));
    }
    if found is Some {
        let i = choose|i: int| key_at(pairs, key@, i);
        assert(entries@[i].0@ == key@);
    }
}

/// A key and a value at a place are those of the entry that comes out at that place.
pub proof fn places_are_those_of_the_entries<V: DeepView>(
    map: TextMap<V>,
    entries: Vec<(String, V)>,
    n: usize,
    at: usize,
    key: &str,
    value: &V,
)
    requires
        call_ensures(TextMap::<V>::into_entries, (map,), entries),
        call_ensures(TextMap::<V>::len, (&map,), n),
        at < n,
        call_ensures(TextMap::<V>::key, (&map, at), key),
        call_ensures(TextMap::<V>::value, (&map, at), value),
    ensures
        n == entries@.len(),
        key@ == entries@[at as int].0@,
        value.deep_view() == entries@[at as int].1.deep_view(),
{
    lists_are_seen_whole(entries);
    assert(entries.deep_view()[at as int] == entries@[at as int].deep_view());
}

/// A set made of a list has exactly the texts of the list.
pub proof fn sets_have_what_their_lists_have(
    texts: Vec<String>,
    set: TextSet,
    text: &str,
    has: bool,
)
    requires
        call_ensures(TextSet::of, (&texts,), set),
        call_ensures(TextSet::contains, (&set, text), has),
    ensures
        has <==> exists|i: int| 0 <= i < texts@.len() && (#[trigger] texts@[i])@ == text@,
{
    lists_are_seen_whole(texts);
    let all = texts.deep_view();
    if has {
        assert(all.contains(text@));
        let i = choose|i: int| 0 <= i < all.len() && all[i] == text@;
        assert(texts@[i]@ == text@);
    }
    if exists|i: int| 0 <= i < texts@.len() && (#[trigger] texts@[i])@ == text@ {
        let i = choose|i: int| 0 <= i < texts@.len() && (#[trigger] texts@[i])@ == text@;
        assert(all[i] == text@);
        assert(all.to_set().contains(text@));
    }
}

/// A new set has nothing. Putting a text into a set adds it and no other.
pub proof fn sets_grow_by_what_is_put_in(
    empty: TextSet,
    in_empty: bool,
    set: TextSet,
    added: String,
    new: TextSet,
    text: &str,
    before: bool,
    after: bool,
)
    requires
        call_ensures(TextSet::new, (), empty),
        call_ensures(TextSet::contains, (&empty, text), in_empty),
        call_ensures(TextSet::insert, (set, added), new),
        call_ensures(TextSet::contains, (&set, text), before),
        call_ensures(TextSet::contains, (&new, text), after),
    ensures
        !in_empty,
        after <==> before || text@ == added@,
{
}

/// A union has what one of its sets has.
pub proof fn unions_have_what_either_has(
    a: TextSet,
    b: TextSet,
    both: TextSet,
    text: &str,
    in_a: bool,
    in_b: bool,
    in_both: bool,
)
    requires
        call_ensures(TextSet::union, (&a, &b), both),
        call_ensures(TextSet::contains, (&a, text), in_a),
        call_ensures(TextSet::contains, (&b, text), in_b),
        call_ensures(TextSet::contains, (&both, text), in_both),
    ensures
        in_both <==> in_a || in_b,
{
}

/// The texts of a set come out in the order of a dictionary, each once, and all of them do.
pub proof fn sets_list_all_they_have(set: TextSet, list: Vec<String>, text: &str, has: bool)
    requires
        call_ensures(TextSet::to_list, (&set,), list),
        call_ensures(TextSet::contains, (&set, text), has),
    ensures
        has <==> exists|i: int| 0 <= i < list@.len() && (#[trigger] list@[i])@ == text@,
        forall|i: int, j: int|
            0 <= i < j < list@.len() ==> comes_before(
                (#[trigger] list@[i])@,
                (#[trigger] list@[j])@,
            ),
{
    lists_are_seen_whole(list);
    let all = list.deep_view();
    assert(has <==> all.to_set().contains(text@));
    if has {
        assert(all.contains(text@));
        let i = choose|i: int| 0 <= i < all.len() && all[i] == text@;
        assert(list@[i]@ == text@);
    }
    if exists|i: int| 0 <= i < list@.len() && (#[trigger] list@[i])@ == text@ {
        let i = choose|i: int| 0 <= i < list@.len() && (#[trigger] list@[i])@ == text@;
        assert(all[i] == text@);
        assert(all.to_set().contains(text@));
    }
    assert forall|i: int, j: int| 0 <= i < j < list@.len() implies comes_before(
        (#[trigger] list@[i])@,
        (#[trigger] list@[j])@,
    ) by {
        assert(precedes(all[i], all[j]));
        order_is_that_of_a_dictionary(list@[i]@, list@[j]@);
    }
}

/// Two references are to the same owner: all that they say agrees.
pub open spec fn same_owner(a: OwnerReference, b: OwnerReference) -> bool {
    &&& a.api_version@ == b.api_version@
    &&& a.kind@ == b.kind@
    &&& a.name@ == b.name@
    &&& a.uid@ == b.uid@
    &&& a.controller == b.controller
    &&& a.block_owner_deletion == b.block_owner_deletion
}

/// The object has this name and no labels, and this is its only owner.
pub open spec fn is_owned_by(meta: ObjectMeta, name: Seq<char>, owner: OwnerReference) -> bool {
    &&& meta.name is Some && meta.name->0@ == name
    &&& meta.labels is None
    &&& meta.owner_references is Some && meta.owner_references->0@.len() == 1
    &&& same_owner(meta.owner_references->0@[0], owner)
}

/// The object has this name, and neither labels nor owners.
pub open spec fn is_only_named(meta: ObjectMeta, name: Seq<char>) -> bool {
    &&& meta.name is Some && meta.name->0@ == name
    &&& meta.labels is None
    &&& meta.owner_references is None
}

/// References that are seen alike are to the same owner.
pub proof fn owners_are_seen_whole(a: OwnerReference, b: OwnerReference)
    requires
        a.deep_view() == b.deep_view(),
    ensures
        same_owner(a, b),
{
}

/// A copied reference is to the same owner.
pub proof fn copied_owners_are_the_same(owner: OwnerReference, copy: OwnerReference)
    requires
        call_ensures(OwnerReference::copy, (&owner,), copy),
    ensures
        same_owner(copy, owner),
{
}

/// Metadata that is made with a name has that name and nothing else.
pub proof fn named_objects_have_their_name(name: &str, meta: ObjectMeta)
    requires
        call_ensures(ObjectMeta::named, (name,), meta),
    ensures
        is_only_named(meta, name@),
{
}

/// Metadata that is made with a name and an owner has that name and only that owner.
pub proof fn owned_objects_have_their_owner(name: &str, owner: OwnerReference, meta: ObjectMeta)
    requires
        call_ensures(ObjectMeta::owned, (name, owner), meta),
    ensures
        is_owned_by(meta, name@, owner),
{
    let owners = meta.owner_references->0;
    assert(meta.deep_view().owner_references is Some);
    lists_are_seen_whole(owners);
    assert(owners.deep_view()[0] == owner.deep_view());
}

/// A map of one entry has that entry and no other.
pub proof fn one_entry_is_all_there_is(
    key: &str,
    value: &str,
    map: TextMap<String>,
    other: &str,
    found: Option<&String>,
)
    requires
        call_ensures(one_entry, (key, value), map),
        call_ensures(TextMap::<String>::get, (&map, other), found),
    ensures
        found is Some <==> other@ == key@,
        found is Some ==> found->0@ == value@,
{
}

} // verus!
