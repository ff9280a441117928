//! Laws of the reference values of approved images.
use crate::error::OperatorError;
use crate::kube_objects::ConfigMap;
use crate::laws::basics::{comes_before, lists_are_seen_whole, order_is_that_of_a_dictionary};
use crate::laws::merging::{holds, is_stamped, stamps_are_a_year_ahead};
use crate::laws::values::{is_json_of, json_of_list_tells_all};
use crate::ordered::{key_at, keys_of, to_map, to_map_entries, TextMap};
use crate::patch::{PatchOperation, PatchValue};
use crate::reference_value::{ReferenceValue, Timestamp, Version};
use crate::rv_store::{ImagePcrs, Pcr, PcrView};
use crate::text::{decimal, precedes};
use crate::trustee::{
    accepted_means_approved, accepted_values, accepts, all_pcrs, collect_accepted_values,
    format_version, get_image_pcrs, gives, image_gives, listed, names_register, pcr_name,
    pcr_names_are_distinct, pcr_reference_name, read_clock, recompute_reference_values, records,
    stamp, stamp_all, svn_name, update_reference_values, values_of,
};
use vstd::prelude::*;

verus! {

/// All records of a store, one image after the other.
pub open spec fn records_of(store: Seq<(Seq<char>, Seq<PcrView>)>) -> Seq<PcrView> {
    store.map_values(|entry: (Seq<char>, Seq<PcrView>)| entry.1).flatten()
}

/// The values that the records of a register have, in the order of the records.
pub open spec fn values_in(records: Seq<PcrView>, id: u64) -> Seq<Seq<char>> {
    records.filter(|pcr: PcrView| pcr.id == id).map_values(|pcr: PcrView| pcr.value)
}

/// A record is seen as it is: number, value and what else was recorded.
pub proof fn records_are_seen_whole(pcr: Pcr)
    ensures
        pcr.deep_view().id == pcr.id,
        pcr.deep_view().value == pcr.value@,
        pcr.deep_view().extra == pcr.extra@,
{
}

/// No record of a store is passed over, and the images come one after the other.
pub proof fn all_records_count(store: Seq<(Seq<char>, Seq<PcrView>)>)
    ensures
        all_pcrs(store) == records_of(store),
    decreases store.len(),
{
    let lists = store.map_values(|entry: (Seq<char>, Seq<PcrView>)| entry.1);
    lists.lemma_flatten_and_flatten_alt_are_equivalent();
    if store.len() > 0 {
        let rest = store.drop_last();
        all_records_count(rest);
        let rest_lists = rest.map_values(|entry: (Seq<char>, Seq<PcrView>)| entry.1);
        rest_lists.lemma_flatten_and_flatten_alt_are_equivalent();
        assert(lists.drop_last() =~= rest_lists);
        assert(lists.last() == store.last().1);
    }
}

/// No record of a register is passed over: each gives its value, as often as it is recorded.
pub proof fn all_values_count(records: Seq<PcrView>, id: u64)
    ensures
        values_of(records, id) == values_in(records, id),
    decreases records.len(),
{
    reveal(Seq::filter);
    if records.len() > 0 {
        all_values_count(records.drop_last(), id);
    }
    assert(values_of(records, id) =~= values_in(records, id));
}

/// The names of the reference values of registers.
proof fn names_are_plain(id: u64)
    ensures
        pcr_name(id) == "tpm_pcr"@ + decimal(id as nat),
        svn_name() == "tpm_svn"@,
{
}

/// What is accepted under the name of a register.
proof fn register_is_accepted(records: Seq<PcrView>, id: u64)
    ensures
        accepted_values(records).contains_key("tpm_pcr"@ + decimal(id as nat)) <==> values_in(
            records,
            id,
        ).len() > 0,
        values_in(records, id).len() > 0 ==> accepted_values(records)["tpm_pcr"@ + decimal(
            id as nat,
        )] == values_in(records, id),
{
    let name = pcr_name(id);
    names_are_plain(id);
    all_values_count(records, id);
    pcr_names_are_distinct(id, id);
    if values_of(records, id).len() > 0 {
        assert(names_register(records, name, id));
    }
    if accepted_values(records).contains_key(name) {
        let other = choose|other: u64| names_register(records, name, other);
        pcr_names_are_distinct(id, other);
    }
}

/// What is gathered under the name of a register is every value that an approved image records of
/// it, in the order of the images and of their records, and as often as it is recorded. Under the
/// name of the security version number it is 1.
pub proof fn gathered_values_are_all_recorded_values(
    image_pcrs: ImagePcrs,
    map: TextMap<Vec<String>>,
    id: u64,
    name: &str,
    found: Option<&Vec<String>>,
)
    requires
        call_ensures(collect_accepted_values, (&image_pcrs,), map),
        call_ensures(TextMap::<Vec<String>>::get, (&map, name), found),
    ensures
        name@ == "tpm_pcr"@ + decimal(id as nat) ==> {
            let values = values_in(records_of(image_pcrs.0.pairs()), id);
            &&& found is Some <==> values.len() > 0
            &&& found is Some ==> found->0@.len() == values.len() && forall|i: int|
                0 <= i < values.len() ==> (#[trigger] found->0@[i])@ == values[i]
        },
        name@ == "tpm_svn"@ ==> found is Some && found->0@.len() == 1 && found->0@[0]@ == "1"@,
{
    let records = records_of(image_pcrs.0.pairs());
    all_records_count(image_pcrs.0.pairs());
    register_is_accepted(records, id);
    names_are_plain(id);
    if found is Some {
        let list = *found->0;
        lists_are_seen_whole(list);
        assert forall|i: int| 0 <= i < list@.len() implies (#[trigger] list@[i])@
            == list.deep_view()[i] by {
        }
        if name@ == "tpm_svn"@ {
            assert(list.deep_view() == seq!["1"@]);
            assert(list@[0]@ == list.deep_view()[0]);
        }
    }
}

/// The reference value accepts exactly these values, in this order.
pub open spec fn accepts_exactly(rv: ReferenceValue, values: Seq<Seq<char>>) -> bool {
    &&& rv.value@.len() == values.len()
    &&& forall|i: int| 0 <= i < values.len() ==> (#[trigger] rv.value@[i])@ == values[i]
}

/// The entry of a name in a recomputed list.
proof fn recomputed_entry(list: Vec<ReferenceValue>, name: Seq<char>) -> (k: int)
    requires
        crate::ordered::ascending(keys_of(listed(list.deep_view()))),
        to_map(listed(list.deep_view())).contains_key(name),
    ensures
        0 <= k < list@.len(),
        list@[k].name@ == name,
        accepts_exactly(list@[k], to_map(listed(list.deep_view()))[name]),
{
    let all = list.deep_view();
    let pairs = listed(all);
    lists_are_seen_whole(list);
    to_map_entries(pairs);
    let k = choose|k: int| key_at(pairs, name, k);
    assert(pairs[k] == (all[k].name, all[k].value));
    assert(all[k] == list@[k].deep_view());
    assert(to_map(pairs)[pairs[k].0] == pairs[k].1);
    lists_are_seen_whole(list@[k].value);
    assert forall|i: int| 0 <= i < list@[k].value@.len() implies (#[trigger] list@[k].value@[i])@
        == pairs[k].1[i] by {
    }
    k
}

/// Each register that an approved image has a record of gets a reference value that accepts exactly
/// what is recorded of it.
pub proof fn recomputing_accepts_all_recorded_values(
    image_pcrs: ImagePcrs,
    rvs: Result<Vec<ReferenceValue>, OperatorError>,
    id: u64,
)
    requires
        call_ensures(recompute_reference_values, (image_pcrs,), rvs),
        rvs is Ok,
        values_in(records_of(image_pcrs.0.pairs()), id).len() > 0,
    ensures
        exists|k: int|
            {
                &&& 0 <= k < rvs->Ok_0@.len()
                &&& (#[trigger] rvs->Ok_0@[k]).name@ == "tpm_pcr"@ + decimal(id as nat)
                &&& accepts_exactly(
                    rvs->Ok_0@[k],
                    values_in(records_of(image_pcrs.0.pairs()), id),
                )
            },
{
    let records = records_of(image_pcrs.0.pairs());
    all_records_count(image_pcrs.0.pairs());
    register_is_accepted(records, id);
    let k = recomputed_entry(rvs->Ok_0, "tpm_pcr"@ + decimal(id as nat));
    assert(rvs->Ok_0@[k].name@ == "tpm_pcr"@ + decimal(id as nat));
}

/// There is always a reference value that accepts security version number 1 and no other, and
/// there are none but that one and those of registers that an approved image has a record of. They
/// stand in the order of a dictionary, each name once, and all are stamped.
pub proof fn recomputing_accepts_nothing_else(
    image_pcrs: ImagePcrs,
    rvs: Result<Vec<ReferenceValue>, OperatorError>,
)
    requires
        call_ensures(recompute_reference_values, (image_pcrs,), rvs),
        rvs is Ok,
    ensures
        exists|k: int|
            {
                &&& 0 <= k < rvs->Ok_0@.len()
                &&& (#[trigger] rvs->Ok_0@[k]).name@ == "tpm_svn"@
                &&& accepts_exactly(rvs->Ok_0@[k], seq!["1"@])
            },
        forall|k: int|
            0 <= k < rvs->Ok_0@.len() ==> (#[trigger] rvs->Ok_0@[k]).name@ == "tpm_svn"@ || exists|
                id: u64,
            |
                rvs->Ok_0@[k].name@ == "tpm_pcr"@ + #[trigger] decimal(id as nat) && values_in(
                    records_of(image_pcrs.0.pairs()),
                    id,
                ).len() > 0,
        forall|k: int, l: int|
            0 <= k < l < rvs->Ok_0@.len() ==> comes_before(
                (#[trigger] rvs->Ok_0@[k]).name@,
                (#[trigger] rvs->Ok_0@[l]).name@,
            ),
        forall|k: int| 0 <= k < rvs->Ok_0@.len() ==> is_stamped(#[trigger] rvs->Ok_0@[k]),
{
    let vec = rvs->Ok_0;
    let list = vec@;
    let all = vec.deep_view();
    let pairs = listed(all);
    let records = records_of(image_pcrs.0.pairs());
    all_records_count(image_pcrs.0.pairs());
    lists_are_seen_whole(vec);
    to_map_entries(pairs);
    names_are_plain(0);
    let k = recomputed_entry(vec, "tpm_svn"@);
    assert(list[k].name@ == "tpm_svn"@);
    assert forall|k: int| 0 <= k < list.len() implies (#[trigger] list[k]).name@ == "tpm_svn"@
        || exists|id: u64|
        list[k].name@ == "tpm_pcr"@ + #[trigger] decimal(id as nat) && values_in(records, id).len()
            > 0 by {
        assert(all[k] == list[k].deep_view());
        assert(pairs[k] == (all[k].name, all[k].value));
        let name = pairs[k].0;
        assert(accepted_values(records).contains_key(name));
        if name != svn_name() {
            let id = choose|id: u64| names_register(records, name, id);
            all_values_count(records, id);
            assert(name == "tpm_pcr"@ + decimal(id as nat));
        }
    }
    assert forall|k: int, l: int| 0 <= k < l < list.len() implies comes_before(
        (#[trigger] list[k]).name@,
        (#[trigger] list[l]).name@,
    ) by {
        assert(all[k] == list[k].deep_view() && all[l] == list[l].deep_view());
        assert(precedes(keys_of(pairs)[k], keys_of(pairs)[l]));
        order_is_that_of_a_dictionary(list[k].name@, list[l].name@);
    }
    assert forall|k: int| 0 <= k < list.len() implies is_stamped(#[trigger] list[k]) by {
        stamps_are_a_year_ahead(vec, k);
    }
}

/// Every value that a record of an approved image gives to a register is accepted for it.
pub proof fn approved_records_are_accepted(
    image_pcrs: ImagePcrs,
    rvs: Result<Vec<ReferenceValue>, OperatorError>,
    image: &str,
    found: Option<&Vec<Pcr>>,
    i: int,
)
    requires
        image_pcrs.0.in_order(),
        call_ensures(recompute_reference_values, (image_pcrs,), rvs),
        rvs is Ok,
        call_ensures(TextMap::<Vec<Pcr>>::get, (&image_pcrs.0, image), found),
        found is Some,
        0 <= i < found->0@.len(),
    ensures
        exists|k: int|
            {
                &&& 0 <= k < rvs->Ok_0@.len()
                &&& (#[trigger] rvs->Ok_0@[k]).name@ == "tpm_pcr"@ + decimal(
                    found->0@[i].id as nat,
                )
                &&& holds(rvs->Ok_0@[k].value@, found->0@[i].value@)
            },
{
    let list = *found->0;
    let id = list@[i].id;
    let value = list@[i].value@;
    let store = image_pcrs.0.pairs();
    lists_are_seen_whole(list);
    assert(list.deep_view()[i] == list@[i].deep_view());
    assert(records(list.deep_view(), i, id, value));
    assert(gives(list.deep_view(), id, value));
    assert(image_gives(to_map(store), image@, id, value));
    accepted_means_approved(store, id, value);
    names_are_plain(id);
    let accepted = accepted_values(all_pcrs(store))[pcr_name(id)];
    let k = recomputed_entry(rvs->Ok_0, pcr_name(id));
    let rv = rvs->Ok_0@[k];
    let m = choose|m: int| 0 <= m < accepted.len() && accepted[m] == value;
    assert(rv.value@[m]@ == value);
    assert(holds(rv.value@, value));
    assert(rvs->Ok_0@[k].name@ == "tpm_pcr"@ + decimal(id as nat));
}

/// Every value that is accepted for a register is given to it by a record of an approved image.
pub proof fn accepted_values_are_of_approved_images(
    image_pcrs: ImagePcrs,
    rvs: Result<Vec<ReferenceValue>, OperatorError>,
    k: int,
    m: int,
    id: u64,
)
    requires
        image_pcrs.0.in_order(),
        call_ensures(recompute_reference_values, (image_pcrs,), rvs),
        rvs is Ok,
        0 <= k < rvs->Ok_0@.len(),
        rvs->Ok_0@[k].name@ == "tpm_pcr"@ + decimal(id as nat),
        0 <= m < rvs->Ok_0@[k].value@.len(),
    ensures
        exists|image: Seq<char>, i: int|
            {
                &&& #[trigger] image_pcrs.0@.contains_key(image)
                &&& 0 <= i < image_pcrs.0@[image].len()
                &&& (#[trigger] image_pcrs.0@[image][i]).id == id
                &&& image_pcrs.0@[image][i].value == rvs->Ok_0@[k].value@[m]@
            },
{
    let vec = rvs->Ok_0;
    let all = vec.deep_view();
    let pairs = listed(all);
    let store = image_pcrs.0.pairs();
    let value = vec@[k].value@[m]@;
    lists_are_seen_whole(vec);
    names_are_plain(id);
    to_map_entries(pairs);
    assert(all[k] == vec@[k].deep_view());
    assert(pairs[k] == (all[k].name, all[k].value));
    assert(to_map(pairs)[pairs[k].0] == pairs[k].1);
    lists_are_seen_whole(vec@[k].value);
    assert(pairs[k].1[m] == value);
    assert(accepts(store, id, value));
    accepted_means_approved(store, id, value);
    let image = choose|image: Seq<char>| image_gives(to_map(store), image, id, value);
    let i = choose|i: int| records(to_map(store)[image], i, id, value);
    assert(image_pcrs.0@.contains_key(image));
    assert(image_pcrs.0@[image][i].id == id);
}

/// A reference value has the name and the accepted values that it is made with, the version of the
/// format, and an expiry a year of 365 days after the time that it is made at.
pub proof fn stamping_adds_version_and_expiry(
    name: String,
    value: Vec<String>,
    now: Timestamp,
    rv: Result<ReferenceValue, OperatorError>,
)
    requires
        0 <= now@.0 <= 8210266876799,
        call_ensures(stamp, (name, value, now), rv),
    ensures
        rv is Ok <==> now@.0 + 31536000 <= 8210266876799,
        rv is Ok ==> {
            let r = rv->Ok_0;
            &&& r.name@ == name@
            &&& r.value@.len() == value@.len()
            &&& forall|i: int| 0 <= i < value@.len() ==> (#[trigger] r.value@[i])@ == value@[i]@
            &&& r.version@ == "0.1.0"@
            &&& r.expiration@.0 == now@.0 + 31536000
            &&& r.expiration@.1 == now@.1
        },
{
    if rv is Ok {
        let r = rv->Ok_0;
        lists_are_seen_whole(value);
        lists_are_seen_whole(r.value);
        assert(r.deep_view().value == value.deep_view());
        assert forall|i: int| 0 <= i < value@.len() implies (#[trigger] r.value@[i])@
            == value@[i]@ by {
            assert(r.value.deep_view()[i] == value.deep_view()[i]);
        }
    }
}

/// A list of reference values has one for each name with its accepted values, in their order. Each
/// expires a year of 365 days after its own time.
pub proof fn stamping_keeps_names_and_values(
    entries: Vec<(String, Vec<String>)>,
    nows: Vec<Timestamp>,
    rvs: Result<Vec<ReferenceValue>, OperatorError>,
)
    requires
        nows@.len() == entries@.len(),
        forall|i: int| 0 <= i < nows@.len() ==> 0 <= (#[trigger] nows@[i])@.0 <= 8210266876799,
        call_ensures(stamp_all, (&entries, &nows), rvs),
    ensures
        rvs is Ok <==> forall|i: int|
            0 <= i < nows@.len() ==> (#[trigger] nows@[i])@.0 + 31536000 <= 8210266876799,
        rvs is Ok ==> rvs->Ok_0@.len() == entries@.len(),
        rvs is Ok ==> forall|i: int|
            0 <= i < entries@.len() ==> {
                &&& (#[trigger] rvs->Ok_0@[i]).name@ == entries@[i].0@
                &&& accepts_exactly(rvs->Ok_0@[i], entries@[i].1.deep_view())
                &&& rvs->Ok_0@[i].version@ == "0.1.0"@
                &&& rvs->Ok_0@[i].expiration@.0 == nows@[i]@.0 + 31536000
                &&& rvs->Ok_0@[i].expiration@.1 == nows@[i]@.1
            },
{
    lists_are_seen_whole(entries);
    lists_are_seen_whole(nows);
    let times = nows.deep_view();
    assert forall|i: int| 0 <= i < nows@.len() implies times[i] == (#[trigger] nows@[i])@ by {
    }
    if crate::trustee::all_expire_in_range(times) {
        assert forall|i: int| 0 <= i < nows@.len() implies (#[trigger] nows@[i])@.0 + 31536000
            <= 8210266876799 by {
            assert(times[i] == nows@[i]@);
        }
    }
    if rvs is Ok {
        let list = rvs->Ok_0;
        lists_are_seen_whole(list);
        assert forall|i: int| 0 <= i < entries@.len() implies {
            &&& (#[trigger] list@[i]).name@ == entries@[i].0@
            &&& accepts_exactly(list@[i], entries@[i].1.deep_view())
            &&& list@[i].version@ == "0.1.0"@
            &&& list@[i].expiration@.0 == nows@[i]@.0 + 31536000
            &&& list@[i].expiration@.1 == nows@[i]@.1
        } by {
            assert(list.deep_view()[i] == list@[i].deep_view());
            assert(entries.deep_view()[i] == entries@[i].deep_view());
            assert(times[i] == nows@[i]@);
            lists_are_seen_whole(list@[i].value);
        }
    }
}

/// The clock is read as often as asked, and shows times from 1970 on.
pub proof fn the_clock_is_read_as_often_as_asked(times: usize, nows: Vec<Timestamp>)
    requires
        call_ensures(read_clock, (times,), nows),
    ensures
        nows@.len() == times,
        forall|i: int|
            0 <= i < nows@.len() ==> 0 <= (#[trigger] nows@[i])@.0 <= 8210266876799 && nows@[i]@.1
                < 1_000_000_000,
{
    lists_are_seen_whole(nows);
    assert forall|i: int| 0 <= i < nows@.len() implies 0 <= (#[trigger] nows@[i])@.0
        <= 8210266876799 && nows@[i]@.1 < 1_000_000_000 by {
        assert(nows.deep_view()[i] == nows@[i]@);
    }
}

/// The name of the reference value of a register ends with its number, and the version of the
/// format is 0.1.0.
pub proof fn names_end_with_the_number(id: u64, name: String, version: Version)
    requires
        call_ensures(pcr_reference_name, (id,), name),
        call_ensures(format_version, (), version),
    ensures
        name@ == "tpm_pcr"@ + decimal(id as nat),
        version@ == "0.1.0"@,
{
}

/// The stored PCR values are the text of their file. No data and no file are errors of their own.
pub proof fn image_pcrs_are_those_of_the_file(
    map: ConfigMap,
    text: Result<&str, OperatorError>,
)
    requires
        call_ensures(get_image_pcrs, (&map,), text),
    ensures
        map.data is None <==> text is Err && text->Err_0 is NoImagePcrsData,
        map.data is Some && !map.data->0@.contains_key("image-pcrs.json"@) <==> text is Err
            && text->Err_0 is NoImagePcrsFile,
        text is Ok <==> map.data is Some && map.data->0@.contains_key("image-pcrs.json"@),
        text is Ok ==> text->Ok_0@ == map.data->0@["image-pcrs.json"@],
{
}

/// The patch first makes sure that the reference values are still those that were read, and then
/// puts the new ones in their place, all of them.
pub proof fn updating_replaces_what_was_read(
    rvs: Vec<ReferenceValue>,
    existing: ConfigMap,
    operations: Result<Vec<PatchOperation>, OperatorError>,
)
    requires
        call_ensures(update_reference_values, (&rvs, &existing), operations),
    ensures
        existing.data is None <==> operations is Err && operations->Err_0 is NoTrusteeData,
        existing.data is Some && !existing.data->0@.contains_key("reference-values.json"@)
            <==> operations is Err && operations->Err_0 is NoReferenceValues,
        operations is Ok <==> existing.data is Some && existing.data->0@.contains_key(
            "reference-values.json"@,
        ),
        operations is Ok ==> {
            let list = operations->Ok_0@;
            &&& list.len() == 2
            &&& list[0] matches PatchOperation::Test { path: tested, value: PatchValue::Text(old) }
            &&& tested@ == "/data/"@ + "reference-values.json"@
            &&& old@ == existing.data->0@["reference-values.json"@]
            &&& list[1] matches PatchOperation::Add { path: added, value: PatchValue::Text(new) }
            &&& added@ == "/data/"@ + "reference-values.json"@
            &&& is_json_of(new@, rvs@)
        },
{
    if operations is Ok {
        let list = operations->Ok_0;
        lists_are_seen_whole(list);
        assert(list.deep_view()[0] == list@[0].deep_view());
        assert(list.deep_view()[1] == list@[1].deep_view());
        json_of_list_tells_all(rvs);
    }
}

} // verus!
