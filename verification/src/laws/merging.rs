//! Laws of merging fresh reference values into stored ones.
use crate::compute_pcrs::{
    content_of, contents, fresh_reference_values, is_listing, last_occurrence_counts,
    list_fresh_values, merged, merged_patch, names_of, stored_reference_values, ReferenceValues,
    RvContent,
};
use crate::error::OperatorError;
use crate::laws::basics::{comes_before, lists_are_seen_whole, order_is_that_of_a_dictionary};
use crate::laws::values::{is_json_of, json_of_list_tells_all, not_before};
use crate::ordered::TextMap;
use crate::patch::{PatchOperation, PatchValue};
use crate::reference_value::{ReferenceValue, ReferenceValueView, Version};
use crate::rv_store::Pcr;
use crate::text::{decimal, precedes};
use crate::trustee::{listed, made_at, made_by_clock};
use vstd::prelude::*;

verus! {

/// The text is one of the list.
pub open spec fn holds(list: Seq<String>, text: Seq<char>) -> bool {
    exists|i: int| 0 <= i < list.len() && (#[trigger] list[i])@ == text
}

/// The reference value at a place is the last one of its name.
pub open spec fn is_last(rvs: Seq<ReferenceValue>, i: int) -> bool {
    &&& 0 <= i < rvs.len()
    &&& forall|j: int| i < j < rvs.len() ==> (#[trigger] rvs[j]).name@ != rvs[i].name@
}

/// The list has no reference value of the name.
pub open spec fn lacks(rvs: Seq<ReferenceValue>, name: Seq<char>) -> bool {
    forall|j: int| 0 <= j < rvs.len() ==> (#[trigger] rvs[j]).name@ != name
}

/// A reference value says what two of the same name say together: it accepts what either accepts
/// and nothing else, it has the expiry of one of them and does not expire before the other, and it
/// has the version of one of them.
pub open spec fn says_what_both_say(
    both: ReferenceValue,
    a: ReferenceValue,
    b: ReferenceValue,
) -> bool {
    &&& both.name@ == a.name@ && both.name@ == b.name@
    &&& forall|text: Seq<char>| #[trigger]
        holds(both.value@, text) <==> holds(a.value@, text) || holds(b.value@, text)
    &&& both.expiration@ == a.expiration@ || both.expiration@ == b.expiration@
    &&& both.expiration@.0 >= a.expiration@.0 && both.expiration@.0 >= b.expiration@.0
    &&& not_before(both.expiration@, a.expiration@) && not_before(both.expiration@, b.expiration@)
    &&& both.version@ == a.version@ || both.version@ == b.version@
}

/// A reference value says what another says: the same name, version, expiry and accepted values.
pub open spec fn says_the_same(a: ReferenceValue, b: ReferenceValue) -> bool {
    &&& a.name@ == b.name@
    &&& a.version@ == b.version@
    &&& a.expiration@ == b.expiration@
    &&& forall|text: Seq<char>| #[trigger] holds(a.value@, text) <==> holds(b.value@, text)
}

/// The accepted values of a reference value as a set.
proof fn accepted_set(rv: ReferenceValue)
    ensures
        rv.deep_view().name == rv.name@,
        rv.deep_view().version == rv.version@,
        rv.deep_view().expiration == rv.expiration@,
        forall|text: Seq<char>| #[trigger]
            holds(rv.value@, text) <==> content_of(rv.deep_view()).values.contains(text),
        content_of(rv.deep_view()).version == rv.version@,
        content_of(rv.deep_view()).expiration == rv.expiration@,
{
    lists_are_seen_whole(rv.value);
    let all = rv.value.deep_view();
    assert forall|text: Seq<char>| #[trigger]
        holds(rv.value@, text) <==> content_of(rv.deep_view()).values.contains(text) by {
        if holds(rv.value@, text) {
            let i = choose|i: int| 0 <= i < rv.value@.len() && (#[trigger] rv.value@[i])@ == text;
            assert(all[i] == text);
            assert(all.to_set().contains(text));
        }
        if all.to_set().contains(text) {
            assert(all.contains(text));
            let i = choose|i: int| 0 <= i < all.len() && all[i] == text;
            assert(rv.value@[i]@ == text);
        }
    }
}

/// The last entry of a name is what a list says of it.
proof fn last_entry_counts(rvs: Vec<ReferenceValue>, i: int)
    requires
        is_last(rvs@, i),
    ensures
        contents(rvs.deep_view()).contains_key(rvs@[i].name@),
        contents(rvs.deep_view())[rvs@[i].name@] == content_of(rvs@[i].deep_view()),
{
    lists_are_seen_whole(rvs);
    let all = rvs.deep_view();
    assert forall|j: int| i < j < all.len() implies (#[trigger] all[j]).name != all[i].name by {
        assert(all[j] == rvs@[j].deep_view());
        assert(all[i] == rvs@[i].deep_view());
    }
    assert(all[i] == rvs@[i].deep_view());
    last_occurrence_counts(all, i);
}

/// A name of which a list says something is the name of an entry.
proof fn known_names_have_entries(rvs: Seq<ReferenceValueView>, name: Seq<char>)
    ensures
        contents(rvs).contains_key(name) <==> exists|k: int|
            0 <= k < rvs.len() && (#[trigger] rvs[k]).name == name,
    decreases rvs.len(),
{
    if rvs.len() > 0 {
        let rest = rvs.drop_last();
        known_names_have_entries(rest, name);
        if contents(rest).contains_key(name) {
            let k = choose|k: int| 0 <= k < rest.len() && (#[trigger] rest[k]).name == name;
            assert(rvs[k].name == name);
        }
        if rvs.last().name == name {
            assert(rvs[rvs.len() - 1].name == name);
        }
        if exists|k: int| 0 <= k < rvs.len() && (#[trigger] rvs[k]).name == name {
            let k = choose|k: int| 0 <= k < rvs.len() && (#[trigger] rvs[k]).name == name;
            if k < rest.len() {
                assert(rest[k].name == name);
            }
        }
    }
}

/// A list says nothing of the names that it lacks.
proof fn lacking_names_are_unknown(rvs: Vec<ReferenceValue>, name: Seq<char>)
    requires
        lacks(rvs@, name),
    ensures
        !contents(rvs.deep_view()).contains_key(name),
{
    lists_are_seen_whole(rvs);
    let all = rvs.deep_view();
    known_names_have_entries(all, name);
    if contents(all).contains_key(name) {
        let k = choose|k: int| 0 <= k < all.len() && (#[trigger] all[k]).name == name;
        assert(rvs@[k].name@ == name);
    }
}

/// In a list in order, the entry of a known name.
proof fn entry_of(rvs: Vec<ReferenceValue>, name: Seq<char>) -> (k: int)
    requires
        is_listing(rvs.deep_view()),
        contents(rvs.deep_view()).contains_key(name),
    ensures
        0 <= k < rvs@.len(),
        rvs@[k].name@ == name,
        contents(rvs.deep_view())[name] == content_of(rvs@[k].deep_view()),
{
    lists_are_seen_whole(rvs);
    let all = rvs.deep_view();
    known_names_have_entries(all, name);
    let k = choose|k: int| 0 <= k < all.len() && (#[trigger] all[k]).name == name;
    assert(all[k] == rvs@[k].deep_view());
    assert(is_last(rvs@, k)) by {
        assert forall|j: int| k < j < rvs@.len() implies (#[trigger] rvs@[j]).name@
            != rvs@[k].name@ by {
            assert(all[j] == rvs@[j].deep_view());
            assert(precedes(names_of(all)[k], names_of(all)[j]));
            crate::text::precedes_asymmetric(names_of(all)[k], names_of(all)[j]);
        }
    }
    last_entry_counts(rvs, k);
    k
}

/// Of a name that both sides have, the merged list has an entry that says what both say: all
/// accepted values of both, the later expiry and the later version.
pub proof fn merging_joins_what_both_say(
    a: ReferenceValues,
    b: ReferenceValues,
    out: ReferenceValues,
    i: int,
    j: int,
    later: Version,
)
    requires
        call_ensures(ReferenceValues::merge, (&a, &b), out),
        is_last(a.0@, i),
        is_last(b.0@, j),
        a.0@[i].name@ == b.0@[j].name@,
        call_ensures(Version::later, (&a.0@[i].version, &b.0@[j].version), later),
    ensures
        exists|k: int|
            {
                &&& 0 <= k < out.0@.len()
                &&& says_what_both_say(#[trigger] out.0@[k], a.0@[i], b.0@[j])
                &&& out.0@[k].version@ == later@
            },
{
    let name = a.0@[i].name@;
    last_entry_counts(a.0, i);
    last_entry_counts(b.0, j);
    let all = merged(contents(a.0.deep_view()), contents(b.0.deep_view()));
    assert(all.contains_key(name));
    let k = entry_of(out.0, name);
    accepted_set(a.0@[i]);
    accepted_set(b.0@[j]);
    accepted_set(out.0@[k]);
    assert(contents(out.0.deep_view())[name].version == later@);
    assert(says_what_both_say(out.0@[k], a.0@[i], b.0@[j]));
}

/// What only one side says of a name, the merged list says too.
pub proof fn merging_keeps_what_one_side_says(
    a: ReferenceValues,
    b: ReferenceValues,
    out: ReferenceValues,
    i: int,
)
    requires
        call_ensures(ReferenceValues::merge, (&a, &b), out),
    ensures
        is_last(a.0@, i) && lacks(b.0@, a.0@[i].name@) ==> exists|k: int|
            0 <= k < out.0@.len() && says_the_same(#[trigger] out.0@[k], a.0@[i]),
        is_last(b.0@, i) && lacks(a.0@, b.0@[i].name@) ==> exists|k: int|
            0 <= k < out.0@.len() && says_the_same(#[trigger] out.0@[k], b.0@[i]),
{
    let all = merged(contents(a.0.deep_view()), contents(b.0.deep_view()));
    if is_last(a.0@, i) && lacks(b.0@, a.0@[i].name@) {
        let name = a.0@[i].name@;
        last_entry_counts(a.0, i);
        lacking_names_are_unknown(b.0, name);
        assert(all.contains_key(name));
        let k = entry_of(out.0, name);
        accepted_set(a.0@[i]);
        accepted_set(out.0@[k]);
        assert(says_the_same(out.0@[k], a.0@[i]));
    }
    if is_last(b.0@, i) && lacks(a.0@, b.0@[i].name@) {
        let name = b.0@[i].name@;
        last_entry_counts(b.0, i);
        lacking_names_are_unknown(a.0, name);
        assert(all.contains_key(name));
        let k = entry_of(out.0, name);
        accepted_set(b.0@[i]);
        accepted_set(out.0@[k]);
        assert(says_the_same(out.0@[k], b.0@[i]));
    }
}

/// The merged list has only names of the two sides. They stand in the order of a dictionary, each
/// once, and so do the accepted values of each.
pub proof fn merged_lists_are_in_order(
    a: ReferenceValues,
    b: ReferenceValues,
    out: ReferenceValues,
)
    requires
        call_ensures(ReferenceValues::merge, (&a, &b), out),
    ensures
        forall|k: int|
            0 <= k < out.0@.len() ==> !lacks(a.0@, (#[trigger] out.0@[k]).name@) || !lacks(
                b.0@,
                out.0@[k].name@,
            ),
        forall|k: int, l: int|
            0 <= k < l < out.0@.len() ==> comes_before(
                (#[trigger] out.0@[k]).name@,
                (#[trigger] out.0@[l]).name@,
            ),
        forall|k: int, m: int, n: int|
            0 <= k < out.0@.len() && 0 <= m < n < out.0@[k].value@.len() ==> comes_before(
                (#[trigger] out.0@[k].value@[m])@,
                (#[trigger] out.0@[k].value@[n])@,
            ),
{
    lists_are_seen_whole(out.0);
    let all = out.0.deep_view();
    assert forall|k: int| 0 <= k < out.0@.len() implies !lacks(
        a.0@,
        (#[trigger] out.0@[k]).name@,
    ) || !lacks(b.0@, out.0@[k].name@) by {
        let name = out.0@[k].name@;
        assert(all[k].name == name);
        known_names_have_entries(all, name);
        if lacks(a.0@, name) && lacks(b.0@, name) {
            lacking_names_are_unknown(a.0, name);
            lacking_names_are_unknown(b.0, name);
        }
    }
    assert forall|k: int, l: int| 0 <= k < l < out.0@.len() implies comes_before(
        (#[trigger] out.0@[k]).name@,
        (#[trigger] out.0@[l]).name@,
    ) by {
        assert(precedes(names_of(all)[k], names_of(all)[l]));
        assert(all[k] == out.0@[k].deep_view() && all[l] == out.0@[l].deep_view());
        order_is_that_of_a_dictionary(out.0@[k].name@, out.0@[l].name@);
    }
    assert forall|k: int, m: int, n: int|
        0 <= k < out.0@.len() && 0 <= m < n < out.0@[k].value@.len() implies comes_before(
        (#[trigger] out.0@[k].value@[m])@,
        (#[trigger] out.0@[k].value@[n])@,
    ) by {
        assert(all[k] == out.0@[k].deep_view());
        lists_are_seen_whole(out.0@[k].value);
        assert(precedes(all[k].value[m], all[k].value[n]));
        order_is_that_of_a_dictionary(out.0@[k].value@[m]@, out.0@[k].value@[n]@);
    }
}

/// What a list says of a name is found under the name: version, expiry and accepted values of its
/// last entry of that name. Of other names nothing is found.
pub proof fn lists_are_looked_up_by_name(
    rvs: ReferenceValues,
    map: TextMap<RvContent>,
    name: &str,
    found: Option<&RvContent>,
    i: int,
)
    requires
        call_ensures(ReferenceValues::to_map, (&rvs,), map),
        call_ensures(TextMap::<RvContent>::get, (&map, name), found),
    ensures
        lacks(rvs.0@, name@) ==> found is None,
        is_last(rvs.0@, i) && rvs.0@[i].name@ == name@ ==> {
            &&& found is Some
            &&& found->0.version@ == rvs.0@[i].version@
            &&& found->0.expiration@ == rvs.0@[i].expiration@
            &&& forall|text: Seq<char>| #[trigger]
                found->0.values@.contains(text) <==> holds(rvs.0@[i].value@, text)
        },
{
    if lacks(rvs.0@, name@) {
        lacking_names_are_unknown(rvs.0, name@);
    }
    if is_last(rvs.0@, i) && rvs.0@[i].name@ == name@ {
        last_entry_counts(rvs.0, i);
        accepted_set(rvs.0@[i]);
        let content = *found->0;
        assert(content.deep_view() == content_of(rvs.0@[i].deep_view()));
        assert forall|text: Seq<char>| #[trigger] content.values@.contains(text) <==> holds(
            rvs.0@[i].value@,
            text,
        ) by {
            assert(content.deep_view().values.contains(text) <==> holds(rvs.0@[i].value@, text));
        }
    }
}

/// Each computed register gets an entry of its own, in their order, with its number in the name and
/// its value as the only one that is accepted. The last entry accepts security version number 1.
pub proof fn fresh_entries_are_the_registers(
    pcrs: Vec<Pcr>,
    entries: Vec<(String, Vec<String>)>,
)
    requires
        call_ensures(list_fresh_values, (&pcrs,), entries),
    ensures
        entries@.len() == pcrs@.len() + 1,
        forall|i: int|
            0 <= i < pcrs@.len() ==> {
                &&& (#[trigger] entries@[i]).0@ == "tpm_pcr"@ + decimal(pcrs@[i].id as nat)
                &&& entries@[i].1@.len() == 1
                &&& entries@[i].1@[0]@ == pcrs@[i].value@
            },
        entries@.last().0@ == "tpm_svn"@,
        entries@.last().1@.len() == 1,
        entries@.last().1@[0]@ == "1"@,
{
    lists_are_seen_whole(pcrs);
    lists_are_seen_whole(entries);
    let all = entries.deep_view();
    assert forall|i: int| 0 <= i < pcrs@.len() implies {
        &&& (#[trigger] entries@[i]).0@ == "tpm_pcr"@ + decimal(pcrs@[i].id as nat)
        &&& entries@[i].1@.len() == 1
        &&& entries@[i].1@[0]@ == pcrs@[i].value@
    } by {
        assert(all[i] == entries@[i].deep_view());
        assert(pcrs.deep_view()[i] == pcrs@[i].deep_view());
        lists_are_seen_whole(entries@[i].1);
        assert(all[i].1[0] == pcrs@[i].value@);
    }
    let last = entries@.len() - 1;
    assert(all[last] == entries@[last].deep_view());
    lists_are_seen_whole(entries@[last].1);
    assert(all[last].1[0] == "1"@);
}

/// The reference value was made when the clock showed some time: it has the version of the format
/// and expires a year of 365 days after that time.
pub open spec fn is_stamped(rv: ReferenceValue) -> bool {
    &&& rv.version@ == "0.1.0"@
    &&& 31536000 <= rv.expiration@.0
    &&& rv.expiration@.1 < 1_000_000_000
}

/// Each computed register gets a reference value of its own, in their order, with its number in the
/// name and its value as the only one that is accepted. The last one accepts security version
/// number 1. All are stamped.
pub proof fn fresh_reference_values_are_the_registers(
    pcrs: Vec<Pcr>,
    rvs: Result<ReferenceValues, OperatorError>,
)
    requires
        call_ensures(fresh_reference_values, (&pcrs,), rvs),
        rvs is Ok,
    ensures
        ({
            let list = rvs->Ok_0.0@;
            &&& list.len() == pcrs@.len() + 1
            &&& forall|i: int|
                0 <= i < pcrs@.len() ==> {
                    &&& (#[trigger] list[i]).name@ == "tpm_pcr"@ + decimal(pcrs@[i].id as nat)
                    &&& list[i].value@.len() == 1
                    &&& list[i].value@[0]@ == pcrs@[i].value@
                }
            &&& list.last().name@ == "tpm_svn"@
            &&& list.last().value@.len() == 1
            &&& list.last().value@[0]@ == "1"@
            &&& forall|i: int| 0 <= i < list.len() ==> is_stamped(#[trigger] list[i])
        }),
{
    let vec = rvs->Ok_0.0;
    let list = vec@;
    lists_are_seen_whole(pcrs);
    lists_are_seen_whole(vec);
    let all = vec.deep_view();
    assert(listed(all).len() == pcrs@.len() + 1);
    assert forall|i: int| 0 <= i < pcrs@.len() implies {
        &&& (#[trigger] list[i]).name@ == "tpm_pcr"@ + decimal(pcrs@[i].id as nat)
        &&& list[i].value@.len() == 1
        &&& list[i].value@[0]@ == pcrs@[i].value@
    } by {
        assert(all[i] == list[i].deep_view());
        assert(listed(all)[i] == (all[i].name, all[i].value));
        assert(pcrs.deep_view()[i] == pcrs@[i].deep_view());
        lists_are_seen_whole(list[i].value);
        assert(all[i].value[0] == pcrs@[i].value@);
    }
    let last = list.len() - 1;
    assert(all[last] == list[last].deep_view());
    assert(listed(all)[last] == (all[last].name, all[last].value));
    lists_are_seen_whole(list[last].value);
    assert(all[last].value[0] == "1"@);
    assert forall|i: int| 0 <= i < list.len() implies is_stamped(#[trigger] list[i]) by {
        stamps_are_a_year_ahead(vec, i);
    }
}

/// Reference values that were made by the clock are stamped.
pub proof fn stamps_are_a_year_ahead(rvs: Vec<ReferenceValue>, i: int)
    requires
        0 <= i < rvs@.len(),
        made_by_clock(rvs.deep_view()[i]),
    ensures
        is_stamped(rvs@[i]),
{
    lists_are_seen_whole(rvs);
    let rv = rvs.deep_view()[i];
    assert(rv == rvs@[i].deep_view());
    let now = choose|now: (i64, u32)| made_at(rv, now);
}

/// The stored reference values are the text of their file, if there is one.
pub proof fn stored_values_are_those_of_the_file(
    data: Option<TextMap<String>>,
    text: Option<&str>,
)
    requires
        call_ensures(stored_reference_values, (&data,), text),
    ensures
        text is Some <==> data is Some && data->0@.contains_key("reference-values.json"@),
        text is Some ==> text->0@ == data->0@["reference-values.json"@],
{
}

/// The operation puts a map of one file into the data of a config map.
pub open spec fn writes_file(operation: PatchOperation, file: Seq<char>, text: Seq<char>) -> bool {
    &&& operation matches PatchOperation::Add { path, value }
    &&& path@ == "/data"@
    &&& value matches PatchValue::Fields(map)
    &&& map@ == map![file => text]
}

/// The patch leaves the merged reference values as the only file, and all of them. If there were
/// data before, the patch applies only to exactly these.
pub proof fn merged_values_become_the_data(
    existing: Option<TextMap<String>>,
    merged: ReferenceValues,
    operations: Result<Vec<PatchOperation>, OperatorError>,
)
    requires
        call_ensures(merged_patch, (existing, &merged), operations),
    ensures
        operations is Ok,
        operations->Ok_0@.len() == if existing is Some { 2int } else { 1 },
        exists|text: Seq<char>|
            {
                &&& #[trigger] is_json_of(text, merged.0@)
                &&& writes_file(operations->Ok_0@.last(), "reference-values.json"@, text)
            },
        existing is Some ==> {
            &&& operations->Ok_0@[0] matches PatchOperation::Test { path, value }
            &&& path@ == "/data"@
            &&& value matches PatchValue::Fields(map)
            &&& map@ == existing->0@
        },
{
    let list = operations->Ok_0;
    lists_are_seen_whole(list);
    json_of_list_tells_all(merged.0);
    let last = list@.len() - 1;
    assert(list.deep_view()[last] == list@[last].deep_view());
    assert(list.deep_view()[0] == list@[0].deep_view());
    let text = crate::reference_value::json_of_reference_values(merged.0.deep_view());
    assert(is_json_of(text, merged.0@));
    assert(writes_file(list@.last(), "reference-values.json"@, text));
}

} // verus!
