//! The reference values of the attestation service, as they follow from the approved images.
use crate::error::OperatorError;
use crate::kbs::{trustee_data, REFERENCE_VALUES_FILE};
use crate::kube_objects::{ConfigMap, OwnerReferenceView};
use crate::ordered::{
    ascending, key_at, keys_of, listing_is_determined, to_map, to_map_entries, TextMap,
};
use crate::outside::{is_pointer, release, LAST_SECOND};
use crate::patch::{guarded_patch, patch, PatchOperation, PatchValueView};
use crate::reference_value::{
    expiration, expiry_after, is_clock_reading, json_of_reference_values, reference_values_to_json,
    ReferenceValue, ReferenceValueView, Timestamp, Version, VALIDITY_DAYS,
};
use crate::rv_store::{ImagePcrs, PcrView, PCR_CONFIG_FILE};
use crate::text::{copy_texts, decimal, decimal_injective, to_decimal};
use vstd::prelude::*;

verus! {

/// The name of the reference value of a register.
pub open spec fn pcr_name(id: u64) -> Seq<char> {
    "tpm_pcr"@ + decimal(id as nat)
}

/// The name of the reference value of the security version number.
pub open spec fn svn_name() -> Seq<char> {
    "tpm_svn"@
}

/// All records of a store, image after image in the order of the images.
pub open spec fn all_pcrs(pairs: Seq<(Seq<char>, Seq<PcrView>)>) -> Seq<PcrView>
    decreases pairs.len(),
{
    if pairs.len() == 0 {
        Seq::empty()
    } else {
        all_pcrs(pairs.drop_last()) + pairs.last().1
    }
}

/// The values that are recorded of a register, in the order of the records.
pub open spec fn values_of(pcrs: Seq<PcrView>, id: u64) -> Seq<Seq<char>>
    decreases pcrs.len(),
{
    if pcrs.len() == 0 {
        Seq::empty()
    } else if pcrs.last().id == id {
        values_of(pcrs.drop_last(), id).push(pcrs.last().value)
    } else {
        values_of(pcrs.drop_last(), id)
    }
}

/// `name` is the name of the register `id`, and there is a record of that register.
pub open spec fn names_register(pcrs: Seq<PcrView>, name: Seq<char>, id: u64) -> bool {
    name == pcr_name(id) && values_of(pcrs, id).len() > 0
}

/// The accepted values under each name: security version number 1, and for each register of which
/// there is a record all values recorded of it.
pub open spec fn accepted_values(pcrs: Seq<PcrView>) -> Map<Seq<char>, Seq<Seq<char>>> {
    Map::new(
        |name: Seq<char>| name == svn_name() || exists|id: u64| names_register(pcrs, name, id),
        |name: Seq<char>|
            if name == svn_name() {
                seq!["1"@]
            } else {
                values_of(pcrs, choose|id: u64| names_register(pcrs, name, id))
            },
    )
}

/// Different registers have different names, and none is named like the security version number.
pub proof fn pcr_names_are_distinct(a: u64, b: u64)
    ensures
        pcr_name(a) == pcr_name(b) ==> a == b,
        pcr_name(a) != svn_name(),
{
    reveal_strlit("tpm_pcr");
    reveal_strlit("tpm_svn");
    let prefix = "tpm_pcr"@;
    if pcr_name(a) == pcr_name(b) {
        assert(pcr_name(a).skip(7) =~= decimal(a as nat));
        assert(pcr_name(b).skip(7) =~= decimal(b as nat));
        decimal_injective(a as nat, b as nat);
    }
    assert(pcr_name(a)[4] == 'p');
    assert(svn_name()[4] == 's');
}

/// A value is accepted for a register exactly if some record of the store gives it to that
/// register.
pub proof fn accepted_means_recorded(pcrs: Seq<PcrView>, id: u64, value: Seq<char>)
    ensures
        (accepted_values(pcrs).contains_key(pcr_name(id)) && accepted_values(pcrs)[pcr_name(
            id,
        )].contains(value)) <==> exists|i: int| records(pcrs, i, id, value),
{
    accepted_for_register(pcrs, id);
    values_are_recorded(pcrs, id, value);
}

/// The record at a place gives the value to the register.
pub open spec fn records(pcrs: Seq<PcrView>, i: int, id: u64, value: Seq<char>) -> bool {
    0 <= i < pcrs.len() && pcrs[i].id == id && pcrs[i].value == value
}

proof fn values_are_recorded(pcrs: Seq<PcrView>, id: u64, value: Seq<char>)
    ensures
        values_of(pcrs, id).contains(value) <==> exists|i: int| records(pcrs, i, id, value),
    decreases pcrs.len(),
{
    if pcrs.len() > 0 {
        let rest = pcrs.drop_last();
        values_are_recorded(rest, id, value);
        if exists|i: int| records(rest, i, id, value) {
            let i = choose|i: int| records(rest, i, id, value);
            assert(records(pcrs, i, id, value));
        }
        if exists|i: int| records(pcrs, i, id, value) {
            let i = choose|i: int| records(pcrs, i, id, value);
            if i < rest.len() {
                assert(records(rest, i, id, value));
            }
        }
        if pcrs.last().id == id {
            let small = values_of(rest, id);
            let large = small.push(pcrs.last().value);
            if small.contains(value) {
                let k = choose|k: int| 0 <= k < small.len() && small[k] == value;
                assert(large[k] == value);
            }
            assert(large.last() == pcrs.last().value);
            if pcrs.last().value == value {
                assert(records(pcrs, pcrs.len() - 1, id, value));
                assert(large[small.len() as int] == value);
            } else if large.contains(value) {
                let k = choose|k: int| 0 <= k < large.len() && large[k] == value;
                assert(small[k] == value);
            }
        }
    }
}

/// What is accepted under the name of a register.
proof fn accepted_for_register(pcrs: Seq<PcrView>, id: u64)
    ensures
        accepted_values(pcrs).contains_key(pcr_name(id)) <==> values_of(pcrs, id).len() > 0,
        values_of(pcrs, id).len() > 0 ==> accepted_values(pcrs)[pcr_name(id)] == values_of(
            pcrs,
            id,
        ),
{
    let name = pcr_name(id);
    pcr_names_are_distinct(id, id);
    if values_of(pcrs, id).len() > 0 {
        assert(names_register(pcrs, name, id));
    }
    if accepted_values(pcrs).contains_key(name) {
        let other = choose|other: u64| names_register(pcrs, name, other);
        pcr_names_are_distinct(id, other);
    }
}

/// One more record adds its value at the end of the values of its register.
proof fn accept_one_more(pcrs: Seq<PcrView>, pcr: PcrView)
    ensures
        accepted_values(pcrs.push(pcr)) == accepted_values(pcrs).insert(
            pcr_name(pcr.id),
            (if accepted_values(pcrs).contains_key(pcr_name(pcr.id)) {
                accepted_values(pcrs)[pcr_name(pcr.id)]
            } else {
                Seq::empty()
            }).push(pcr.value),
        ),
{
    let more = pcrs.push(pcr);
    assert(more.drop_last() =~= pcrs);
    let own = pcr_name(pcr.id);
    let old = accepted_values(pcrs);
    let new = accepted_values(more);
    let values = (if old.contains_key(own) {
        old[own]
    } else {
        Seq::empty()
    }).push(pcr.value);
    let wanted = old.insert(own, values);
    accepted_for_register(pcrs, pcr.id);
    accepted_for_register(more, pcr.id);
    assert(values =~= values_of(more, pcr.id)) by {
        if values_of(pcrs, pcr.id).len() == 0 {
            assert(values_of(pcrs, pcr.id) =~= Seq::empty());
        }
    }
    assert forall|name: Seq<char>| new.contains_key(name) <==> wanted.contains_key(name) by {
        if name != own && name != svn_name() {
            if new.contains_key(name) {
                let id = choose|id: u64| names_register(more, name, id);
                assert(id != pcr.id);
                assert(names_register(pcrs, name, id));
            }
            if old.contains_key(name) {
                let id = choose|id: u64| names_register(pcrs, name, id);
                assert(names_register(more, name, id));
            }
        }
    }
    assert forall|name: Seq<char>| new.contains_key(name) implies new[name] == wanted[name] by {
        pcr_names_are_distinct(pcr.id, pcr.id);
        if name != own && name != svn_name() {
            let id = choose|id: u64| names_register(more, name, id);
            accepted_for_register(pcrs, id);
            accepted_for_register(more, id);
        }
    }
    assert(new =~= wanted);
}

/// The name of the reference value of a register, written out.
pub fn pcr_reference_name(id: u64) -> (name: String)
    ensures
        name@ == pcr_name(id),
{
    "tpm_pcr".to_owned().concat(to_decimal(id).as_str())
}

/// Gathers the accepted values of a store under their names.
pub fn collect_accepted_values(image_pcrs: &ImagePcrs) -> (map: TextMap<Vec<String>>)
    ensures
        map@ == accepted_values(all_pcrs(image_pcrs.0.pairs())),
{
    let mut svn: Vec<String> = Vec::new();
    svn.push("1".to_owned());
    assert(svn.deep_view() =~= seq!["1"@]);
    let empty: TextMap<Vec<String>> = TextMap::new();
    let mut map = empty.insert("tpm_svn".to_owned(), svn);
    let ghost pairs = image_pcrs.0.pairs();
    proof {
        assert(all_pcrs(pairs.take(0)) == Seq::<PcrView>::empty());
        assert(map@ =~= accepted_values(Seq::<PcrView>::empty()));
    }
    let n = image_pcrs.0.len();
    let mut i: usize = 0;
    while i < n
        invariant
            i <= n == pairs.len(),
            pairs == image_pcrs.0.pairs(),
            map@ == accepted_values(all_pcrs(pairs.take(i as int))),
        decreases n - i,
    {
        let pcrs = image_pcrs.0.value(i);
        let ghost before = all_pcrs(pairs.take(i as int));
        let ghost own = pcrs.deep_view();
        assert(before + own.take(0) =~= before);
        let mut j: usize = 0;
        while j < pcrs.len()
            invariant
                j <= pcrs@.len(),
                own == pcrs.deep_view(),
                map@ == accepted_values(before + own.take(j as int)),
            decreases pcrs@.len() - j,
        {
            let name = pcr_reference_name(pcrs[j].id);
            let value = pcrs[j].value.clone();
            let ghost seen = before + own.take(j as int);
            proof {
                accept_one_more(seen, own[j as int]);
                assert(seen.push(own[j as int]) =~= before + own.take(j + 1));
            }
            let ghost old_map = map@;
            let (rest, known) = map.remove(name.as_str());
            let mut values = match known {
                Some(values) => values,
                None => {
                    let none: Vec<String> = Vec::new();
                    assert(none.deep_view() =~= Seq::<Seq<char>>::empty());
                    none
                },
            };
            let ghost old_values = values.deep_view();
            values.push(value);
            assert(values.deep_view() =~= old_values.push(value@));
            map = rest.insert(name, values);
            assert(map@ =~= old_map.insert(name@, values.deep_view()));
            j = j + 1;
        }
        proof {
            assert(own.take(j as int) =~= own);
            assert(pairs.take(i + 1).drop_last() =~= pairs.take(i as int));
        }
        i = i + 1;
    }
    assert(pairs.take(i as int) =~= pairs);
    map
}

/// The version of the format of reference values.
pub fn format_version() -> (version: Version)
    ensures
        version@ == "0.1.0"@,
{
    proof {
        reveal_strlit("0.1.0");
        reveal_strlit(".");
        assert(release(0, 1, 0) =~= "0.1.0"@);
    }
    match Version::parse("0.1.0") {
        Some(version) => version,
        None => vstd::pervasive::unreached(),
    }
}

/// The reference value with a name and accepted values that is made at `now`.
pub open spec fn reference_value_at(
    name: Seq<char>,
    value: Seq<Seq<char>>,
    now: (i64, u32),
) -> ReferenceValueView {
    ReferenceValueView { version: "0.1.0"@, name, expiration: expiry_after(now), value }
}

/// Makes a reference value at a time of the clock.
pub fn stamp(name: String, value: Vec<String>, now: Timestamp) -> (rv: Result<
    ReferenceValue,
    OperatorError,
>)
    requires
        is_clock_reading(now@),
    ensures
        rv is Ok <==> now@.0 + VALIDITY_DAYS * 86400 <= LAST_SECOND,
        rv matches Ok(r) ==> r.deep_view() == reference_value_at(name@, value.deep_view(), now@),
        rv matches Err(e) ==> e is ExpiryOutOfRange,
{
    match expiration(now) {
        Some(expiration) => Ok(
            ReferenceValue { version: format_version(), name, expiration, value },
        ),
        None => Err(OperatorError::ExpiryOutOfRange),
    }
}

/// Names and accepted values of a list of reference values.
pub open spec fn listed(rvs: Seq<ReferenceValueView>) -> Seq<(Seq<char>, Seq<Seq<char>>)> {
    Seq::new(rvs.len(), |i: int| (rvs[i].name, rvs[i].value))
}

/// The reference value was made when the clock showed `now`.
pub open spec fn made_at(rv: ReferenceValueView, now: (i64, u32)) -> bool {
    is_clock_reading(now) && rv == reference_value_at(rv.name, rv.value, now)
}

/// The reference value was made at some time of the clock.
pub open spec fn made_by_clock(rv: ReferenceValueView) -> bool {
    exists|now: (i64, u32)| made_at(rv, now)
}

/// Each reference value was made at some time of the clock.
pub open spec fn stamped(rvs: Seq<ReferenceValueView>) -> bool {
    forall|i: int| 0 <= i < rvs.len() ==> made_by_clock(#[trigger] rvs[i])
}

/// The times are readings of the clock.
pub open spec fn are_clock_readings(nows: Seq<(i64, u32)>) -> bool {
    forall|i: int| 0 <= i < nows.len() ==> is_clock_reading(#[trigger] nows[i])
}

/// Whatever is made at one of the times has an expiry that can be represented.
pub open spec fn all_expire_in_range(nows: Seq<(i64, u32)>) -> bool {
    forall|i: int|
        0 <= i < nows.len() ==> (#[trigger] nows[i]).0 + VALIDITY_DAYS * 86400 <= LAST_SECOND
}

/// The reference values with names and accepted values that are made at times, one at each.
pub open spec fn reference_values_at(
    entries: Seq<(Seq<char>, Seq<Seq<char>>)>,
    nows: Seq<(i64, u32)>,
) -> Seq<ReferenceValueView> {
    Seq::new(
        entries.len(),
        |i: int| reference_value_at(entries[i].0, entries[i].1, nows[i]),
    )
}

/// Makes one reference value for each name with its accepted values, each at its own time of the
/// clock.
pub fn stamp_all(entries: &Vec<(String, Vec<String>)>, nows: &Vec<Timestamp>) -> (rvs: Result<
    Vec<ReferenceValue>,
    OperatorError,
>)
    requires
        nows@.len() == entries@.len(),
        are_clock_readings(nows.deep_view()),
    ensures
        rvs is Ok <==> all_expire_in_range(nows.deep_view()),
        rvs matches Ok(list) ==> list.deep_view() == reference_values_at(
            entries.deep_view(),
            nows.deep_view(),
        ),
        rvs matches Err(e) ==> e is ExpiryOutOfRange,
{
    let ghost times = nows.deep_view();
    let ghost wanted = reference_values_at(entries.deep_view(), times);
    let mut list: Vec<ReferenceValue> = Vec::new();
    let mut i: usize = 0;
    while i < entries.len()
        invariant
            i <= entries@.len() == nows@.len(),
            times == nows.deep_view(),
            wanted == reference_values_at(entries.deep_view(), times),
            are_clock_readings(times),
            all_expire_in_range(times.take(i as int)),
            list.deep_view() =~= wanted.take(i as int),
        decreases entries@.len() - i,
    {
        let ghost before = list.deep_view();
        let (name, values) = &entries[i];
        assert(times[i as int] == nows@[i as int]@);
        match stamp(name.clone(), copy_texts(values), nows[i]) {
            Ok(rv) => {
                list.push(rv);
                proof {
                    assert(list.deep_view() =~= before.push(rv.deep_view()));
                    assert(wanted.take(i + 1) =~= wanted.take(i as int).push(wanted[i as int]));
                    let seen = times.take(i + 1);
                    assert forall|j: int| 0 <= j < seen.len() implies (#[trigger] seen[j]).0
                        + VALIDITY_DAYS * 86400 <= LAST_SECOND by {
                        if j < i {
                            assert(seen[j] == times.take(i as int)[j]);
                        }
                    }
                }
            },
            Err(e) => {
                assert(!all_expire_in_range(times));
                return Err(e);
            },
        }
        i = i + 1;
    }
    assert(wanted.take(i as int) =~= wanted);
    assert(times.take(i as int) =~= times);
    Ok(list)
}

/// Reads the clock so many times.
pub fn read_clock(times: usize) -> (nows: Vec<Timestamp>)
    ensures
        nows@.len() == times,
        are_clock_readings(nows.deep_view()),
{
    let mut nows: Vec<Timestamp> = Vec::new();
    let mut i: usize = 0;
    while i < times
        invariant
            i <= times,
            nows@.len() == i,
            are_clock_readings(nows.deep_view()),
        decreases times - i,
    {
        let ghost before = nows.deep_view();
        let now = Timestamp::now();
        nows.push(now);
        proof {
            let after = nows.deep_view();
            assert(after =~= before.push(now@));
            assert forall|j: int| 0 <= j < after.len() implies is_clock_reading(
                #[trigger] after[j],
            ) by {
                if j < before.len() {
                    assert(after[j] == before[j]);
                }
            }
        }
        i = i + 1;
    }
    nows
}

/// Reference values that are made at times of the clock have the names and the accepted values
/// that they were made with, and each is stamped.
pub proof fn made_reference_values(
    entries: Seq<(Seq<char>, Seq<Seq<char>>)>,
    nows: Seq<(i64, u32)>,
)
    requires
        nows.len() == entries.len(),
        are_clock_readings(nows),
    ensures
        listed(reference_values_at(entries, nows)) == entries,
        stamped(reference_values_at(entries, nows)),
{
    let rvs = reference_values_at(entries, nows);
    assert(listed(rvs) =~= entries);
    assert forall|i: int| 0 <= i < rvs.len() implies made_by_clock(#[trigger] rvs[i]) by {
        assert(made_at(rvs[i], nows[i]));
    }
}

/// Makes the reference values of all approved images: one for each name under which a value is
/// accepted, in the order of the names. The clock is read for each of them.
pub fn recompute_reference_values(image_pcrs: ImagePcrs) -> (rvs: Result<
    Vec<ReferenceValue>,
    OperatorError,
>)
    ensures
        rvs matches Ok(list) ==> {
            &&& ascending(keys_of(listed(list.deep_view())))
            &&& to_map(listed(list.deep_view())) == accepted_values(
                all_pcrs(image_pcrs.0.pairs()),
            )
            &&& stamped(list.deep_view())
        },
        rvs matches Err(e) ==> e is ExpiryOutOfRange,
{
    let entries = collect_accepted_values(&image_pcrs).into_entries();
    let nows = read_clock(entries.len());
    proof {
        made_reference_values(entries.deep_view(), nows.deep_view());
    }
    stamp_all(&entries, &nows)
}

/// Finds the stored PCR values of the approved images in their config map.
pub fn get_image_pcrs(image_pcrs_map: &ConfigMap) -> (text: Result<&str, OperatorError>)
    ensures
        image_pcrs_map.data is None <==> text matches Err(OperatorError::NoImagePcrsData),
        (image_pcrs_map.data matches Some(data) && !data@.contains_key(PCR_CONFIG_FILE@))
            <==> text matches Err(OperatorError::NoImagePcrsFile),
        text is Ok <==> (image_pcrs_map.data matches Some(data) && data@.contains_key(
            PCR_CONFIG_FILE@,
        )),
        text matches Ok(t) ==> t@ == image_pcrs_map.data->0@[PCR_CONFIG_FILE@],
{
    match &image_pcrs_map.data {
        None => Err(OperatorError::NoImagePcrsData),
        Some(data) => match data.get(PCR_CONFIG_FILE) {
            None => Err(OperatorError::NoImagePcrsFile),
            Some(text) => Ok(text.as_str()),
        },
    }
}

/// Where the reference values stand in the JSON of their config map.
pub open spec fn reference_values_path() -> Seq<char> {
    "/data/"@ + REFERENCE_VALUES_FILE@
}

/// That is a JSON pointer.
proof fn reference_values_path_is_pointer()
    ensures
        is_pointer(reference_values_path()),
{
    reveal_strlit("/data/");
    reveal_strlit("reference-values.json");
    let path = reference_values_path();
    assert(path =~= seq![
        '/', 'd', 'a', 't', 'a', '/', 'r', 'e', 'f', 'e', 'r', 'e', 'n', 'c', 'e', '-', 'v', 'a',
        'l', 'u', 'e', 's', '.', 'j', 's', 'o', 'n',
    ]);
}

/// Makes the patch that puts new reference values in the place of the existing ones.
pub fn update_reference_values(
    reference_values: &Vec<ReferenceValue>,
    existing_data: &ConfigMap,
) -> (operations: Result<Vec<PatchOperation>, OperatorError>)
    ensures
        existing_data.data is None <==> operations matches Err(OperatorError::NoTrusteeData),
        (existing_data.data matches Some(data) && !data@.contains_key(REFERENCE_VALUES_FILE@))
            <==> operations matches Err(OperatorError::NoReferenceValues),
        operations is Ok <==> (existing_data.data matches Some(data) && data@.contains_key(
            REFERENCE_VALUES_FILE@,
        )),
        operations matches Ok(list) ==> list.deep_view() == guarded_patch(
            reference_values_path(),
            Some(PatchValueView::Text(existing_data.data->0@[REFERENCE_VALUES_FILE@])),
            PatchValueView::Text(json_of_reference_values(reference_values.deep_view())),
        ),
{
    let existing_data_map = match &existing_data.data {
        None => {
            return Err(OperatorError::NoTrusteeData);
        },
        Some(map) => map,
    };
    let existing_rvs = match existing_data_map.get(REFERENCE_VALUES_FILE) {
        None => {
            return Err(OperatorError::NoReferenceValues);
        },
        Some(text) => text.clone(),
    };
    proof {
        reference_values_path_is_pointer();
    }
    let path = "/data/".to_owned().concat(REFERENCE_VALUES_FILE);
    match reference_values_to_json(reference_values) {
        Ok(json) => patch(path.as_str(), existing_rvs, json),
        Err(e) => Err(OperatorError::Json(e)),
    }
}

/// Reference values can be put into the config map as it was made: they have a place in it, with
/// no reference values at first.
pub proof fn reference_values_have_a_place(
    owner: OwnerReferenceView,
    kbs_config: Seq<char>,
    policy_rego: Seq<char>,
)
    ensures
        trustee_data(owner, kbs_config, policy_rego).data is Some,
        trustee_data(owner, kbs_config, policy_rego).data->0.contains_pair(
            REFERENCE_VALUES_FILE@,
            "{}"@,
        ),
{
}

/// A value is accepted for a register when the images of a store are approved.
pub open spec fn accepts(
    store: Seq<(Seq<char>, Seq<PcrView>)>,
    id: u64,
    value: Seq<char>,
) -> bool {
    let accepted = accepted_values(all_pcrs(store));
    accepted.contains_key(pcr_name(id)) && accepted[pcr_name(id)].contains(value)
}

/// Some record of an image gives the value to the register.
pub open spec fn gives(pcrs: Seq<PcrView>, id: u64, value: Seq<char>) -> bool {
    exists|i: int| records(pcrs, i, id, value)
}

/// The image is in the store, and one of its records gives the value to the register.
pub open spec fn image_gives(
    store: Map<Seq<char>, Seq<PcrView>>,
    image: Seq<char>,
    id: u64,
    value: Seq<char>,
) -> bool {
    store.contains_key(image) && gives(store[image], id, value)
}

/// The entry at a place gives the value to the register.
spec fn entry_gives(
    store: Seq<(Seq<char>, Seq<PcrView>)>,
    at: int,
    id: u64,
    value: Seq<char>,
) -> bool {
    0 <= at < store.len() && gives(store[at].1, id, value)
}

/// All records of a store are the records of its entries.
proof fn all_pcrs_give(store: Seq<(Seq<char>, Seq<PcrView>)>, id: u64, value: Seq<char>)
    ensures
        gives(all_pcrs(store), id, value) <==> exists|at: int| entry_gives(store, at, id, value),
    decreases store.len(),
{
    if store.len() > 0 {
        let rest = store.drop_last();
        let last = store.last().1;
        let head = all_pcrs(rest);
        all_pcrs_give(rest, id, value);
        if gives(head, id, value) {
            let at = choose|at: int| entry_gives(rest, at, id, value);
            assert(entry_gives(store, at, id, value));
            let i = choose|i: int| records(head, i, id, value);
            assert(records(head + last, i, id, value));
        }
        if gives(last, id, value) {
            assert(entry_gives(store, store.len() - 1, id, value));
            let i = choose|i: int| records(last, i, id, value);
            assert(records(head + last, head.len() + i, id, value));
        }
        if gives(head + last, id, value) {
            let i = choose|i: int| records(head + last, i, id, value);
            if i < head.len() {
                assert(records(head, i, id, value));
            } else {
                assert(records(last, i - head.len(), id, value));
            }
        }
        if exists|at: int| entry_gives(store, at, id, value) {
            let at = choose|at: int| entry_gives(store, at, id, value);
            if at < rest.len() {
                assert(entry_gives(rest, at, id, value));
            }
        }
    }
}

/// A value is accepted for a register exactly if some approved image gives it to that register.
pub proof fn accepted_means_approved(
    store: Seq<(Seq<char>, Seq<PcrView>)>,
    id: u64,
    value: Seq<char>,
)
    requires
        ascending(keys_of(store)),
    ensures
        accepts(store, id, value) <==> exists|image: Seq<char>|
            image_gives(to_map(store), image, id, value),
{
    accepted_means_recorded(all_pcrs(store), id, value);
    all_pcrs_give(store, id, value);
    to_map_entries(store);
    if exists|at: int| entry_gives(store, at, id, value) {
        let at = choose|at: int| entry_gives(store, at, id, value);
        assert(to_map(store).contains_key(store[at].0));
        assert(image_gives(to_map(store), store[at].0, id, value));
    }
    if exists|image: Seq<char>| image_gives(to_map(store), image, id, value) {
        let image = choose|image: Seq<char>| image_gives(to_map(store), image, id, value);
        let at = choose|at: int| key_at(store, image, at);
        assert(to_map(store)[store[at].0] == store[at].1);
        assert(entry_gives(store, at, id, value));
    }
}

/// Approving one more image accepts exactly the values that it gives, besides those that were
/// accepted before.
pub proof fn approving_accepts_what_the_image_gives(
    before: Seq<(Seq<char>, Seq<PcrView>)>,
    after: Seq<(Seq<char>, Seq<PcrView>)>,
    image: Seq<char>,
    pcrs: Seq<PcrView>,
    id: u64,
    value: Seq<char>,
)
    requires
        ascending(keys_of(before)),
        ascending(keys_of(after)),
        !to_map(before).contains_key(image),
        to_map(after) == to_map(before).insert(image, pcrs),
    ensures
        accepts(after, id, value) <==> accepts(before, id, value) || gives(pcrs, id, value),
{
    accepted_means_approved(before, id, value);
    accepted_means_approved(after, id, value);
    if accepts(before, id, value) {
        let other = choose|other: Seq<char>| image_gives(to_map(before), other, id, value);
        assert(image_gives(to_map(after), other, id, value));
    }
    if gives(pcrs, id, value) {
        assert(image_gives(to_map(after), image, id, value));
    }
    if accepts(after, id, value) {
        let other = choose|other: Seq<char>| image_gives(to_map(after), other, id, value);
        if other != image {
            assert(image_gives(to_map(before), other, id, value));
        }
    }
}

/// After an image is disallowed, a value is accepted exactly if another approved image gives it.
pub proof fn disallowing_accepts_what_others_give(
    before: Seq<(Seq<char>, Seq<PcrView>)>,
    after: Seq<(Seq<char>, Seq<PcrView>)>,
    image: Seq<char>,
    id: u64,
    value: Seq<char>,
)
    requires
        ascending(keys_of(before)),
        ascending(keys_of(after)),
        to_map(after) == to_map(before).remove(image),
    ensures
        accepts(after, id, value) <==> exists|other: Seq<char>|
            other != image && image_gives(to_map(before), other, id, value),
{
    accepted_means_approved(after, id, value);
    if accepts(after, id, value) {
        let other = choose|other: Seq<char>| image_gives(to_map(after), other, id, value);
        assert(other != image && image_gives(to_map(before), other, id, value));
    }
    if exists|other: Seq<char>| other != image && image_gives(to_map(before), other, id, value) {
        let other = choose|other: Seq<char>|
            other != image && image_gives(to_map(before), other, id, value);
        assert(image_gives(to_map(after), other, id, value));
    }
}

/// Which values are accepted, and in which order, depends on nothing but the approved images and
/// their records.
pub proof fn store_determines_accepted_values(
    a: Seq<(Seq<char>, Seq<PcrView>)>,
    b: Seq<(Seq<char>, Seq<PcrView>)>,
)
    requires
        ascending(keys_of(a)),
        ascending(keys_of(b)),
        to_map(a) == to_map(b),
    ensures
        accepted_values(all_pcrs(a)) == accepted_values(all_pcrs(b)),
{
    listing_is_determined(a, b);
}

/// Whatever images are approved, security version number 1 is accepted, and no other.
pub proof fn svn_is_one(pcrs: Seq<PcrView>)
    ensures
        accepted_values(pcrs).contains_pair(svn_name(), seq!["1"@]),
{
}

} // verus!
