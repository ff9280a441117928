//! Laws of times, versions and the JSON of reference values.
use crate::laws::basics::lists_are_seen_whole;
use crate::outside::{json_of_records, release, time_text};
use crate::reference_value::{
    expiration, json_of_reference_values, primitive_date_time_from_str,
    primitive_date_time_to_str, record_of, reference_values_to_json, ReferenceValue,
    ReferenceValueView, TimeError, Timestamp, Version,
};
use vstd::prelude::*;

verus! {

/// A time is not before another: it is in a later second, or in the same one and no earlier in it.
pub open spec fn not_before(a: (i64, u32), b: (i64, u32)) -> bool {
    a.0 > b.0 || (a.0 == b.0 && a.1 >= b.1)
}

/// The later of two times is one of them, and it is not before either.
pub proof fn the_later_time_is_not_before_either(a: Timestamp, b: Timestamp, later: Timestamp)
    requires
        call_ensures(Timestamp::later, (a, b), later),
    ensures
        later@ == a@ || later@ == b@,
        later@.0 >= a@.0,
        later@.0 >= b@.0,
        not_before(later@, a@),
        not_before(later@, b@),
{
}

/// A time made of seconds and nanoseconds has those seconds and nanoseconds.
pub proof fn times_keep_their_parts(
    secs: i64,
    nanos: u32,
    time: Option<Timestamp>,
    time_secs: i64,
    time_nanos: u32,
)
    requires
        call_ensures(Timestamp::new, (secs, nanos), time),
        time is Some,
        call_ensures(Timestamp::secs, (&time->0,), time_secs),
        call_ensures(Timestamp::nanos, (&time->0,), time_nanos),
    ensures
        time_secs == secs,
        time_nanos == nanos,
{
}

/// Every second from the start of the year -262143 to the end of the year 262142 is a time, and the
/// last second of a minute may be followed by a leap second. Nothing else is a time.
pub proof fn times_are_those_of_the_calendar(secs: i64, nanos: u32, time: Option<Timestamp>)
    requires
        call_ensures(Timestamp::new, (secs, nanos), time),
    ensures
        time is Some <==> -8334601228800 <= secs <= 8210266876799 && (nanos < 1_000_000_000 || (
        nanos < 2_000_000_000 && (secs as int) % 60 == 59)),
{
}

/// What the clock shows is a time from 1970 on, outside a leap second.
pub proof fn the_clock_shows_a_time(now: Timestamp)
    requires
        call_ensures(Timestamp::now, (), now),
    ensures
        0 <= now@.0 <= 8210266876799,
        now@.1 < 1_000_000_000,
{
}

/// A reference value expires a year of 365 days after it is made, to the nanosecond.
pub proof fn expiry_is_a_year_later(now: Timestamp, time: Option<Timestamp>)
    requires
        call_ensures(expiration, (now,), time),
        0 <= now@.0 <= 8210266876799,
    ensures
        time is Some <==> now@.0 + 31536000 <= 8210266876799,
        time is Some ==> time->0@.0 == now@.0 + 31536000 && time->0@.1 == now@.1,
{
}

/// A time of the years 0 to 9999 that is written and read again is the same second, without the
/// fraction. A leap second stays one.
pub proof fn times_are_read_back(
    d: Timestamp,
    text: String,
    s: &str,
    time: Result<Timestamp, TimeError>,
)
    requires
        -62167219200 <= d@.0 <= 253402300799,
        call_ensures(primitive_date_time_to_str, (&d,), text),
        s@ == text@,
        call_ensures(primitive_date_time_from_str, (Some(s),), time),
    ensures
        time is Ok,
        time->Ok_0@.0 == d@.0,
        d@.1 < 1_000_000_000 ==> time->Ok_0@.1 == 0,
        d@.1 >= 1_000_000_000 ==> time->Ok_0@.1 == 1_000_000_000,
{
}

/// No text is an error of its own, and only that.
pub proof fn no_text_is_no_time(s: Option<&str>, time: Result<Timestamp, TimeError>)
    requires
        call_ensures(primitive_date_time_from_str, (s,), time),
    ensures
        s is None <==> time is Err && time->Err_0 is Missing,
{
}

/// A version keeps the text that it was read from.
pub proof fn versions_keep_their_text(
    text: &str,
    version: Option<Version>,
    copy: Version,
    shown: &str,
)
    requires
        call_ensures(Version::parse, (text,), version),
        version is Some,
        call_ensures(Version::copy, (&version->0,), copy),
        call_ensures(Version::as_str, (&copy,), shown),
    ensures
        shown@ == text@,
{
}

/// Three numbers with dots between them are a version.
pub proof fn releases_are_versions(
    major: u64,
    minor: u64,
    patch: u64,
    text: &str,
    version: Option<Version>,
)
    requires
        text@ == release(major, minor, patch),
        call_ensures(Version::parse, (text,), version),
    ensures
        version is Some,
{
}

/// The later of two versions is one of them, whichever is asked.
pub proof fn the_later_version_is_one_of_the_two(
    a: Version,
    b: Version,
    ab: Version,
    ba: Version,
)
    requires
        call_ensures(Version::later, (&a, &b), ab),
        call_ensures(Version::later, (&b, &a), ba),
    ensures
        ab@ == a@ || ab@ == b@,
        ab@ == ba@,
{
}

/// Of two releases, the later one has the greater number at the first place where they differ.
pub proof fn releases_are_ordered_by_their_numbers(
    x: (u64, u64, u64),
    y: (u64, u64, u64),
    a: Version,
    b: Version,
    later: Version,
)
    requires
        a@ == release(x.0, x.1, x.2),
        b@ == release(y.0, y.1, y.2),
        x.0 < y.0 || (x.0 == y.0 && x.1 < y.1) || (x.0 == y.0 && x.1 == y.1 && x.2 < y.2),
        call_ensures(Version::later, (&a, &b), later),
    ensures
        later@ == b@,
{
}

/// The record of a reference value has all of its accepted values in their order, and its version,
/// its name and its expiry as text.
pub proof fn records_hold_all_of_a_reference_value(rv: ReferenceValueView)
    ensures
        record_of(rv).1.0 == "value"@,
        record_of(rv).1.1.len() == rv.value.len(),
        forall|i: int| 0 <= i < rv.value.len() ==> #[trigger] record_of(rv).1.1[i] == rv.value[i],
        record_of(rv).0.len() == 3,
        record_of(rv).0[0] == ("version"@, rv.version),
        record_of(rv).0[1] == ("name"@, rv.name),
        record_of(rv).0[2] == (
            "expiration"@,
            time_text(rv.expiration.0, rv.expiration.1, "%Y-%m-%dT%H:%M:%SZ"@),
        ),
{
}

/// Reference values with the same record have the same version, name and accepted values.
pub proof fn records_tell_reference_values_apart(a: ReferenceValueView, b: ReferenceValueView)
    requires
        record_of(a) == record_of(b),
    ensures
        a.version == b.version,
        a.name == b.name,
        a.value == b.value,
{
    assert(record_of(a).0[0] == record_of(b).0[0]);
    assert(record_of(a).0[1] == record_of(b).0[1]);
    records_hold_all_of_a_reference_value(a);
    records_hold_all_of_a_reference_value(b);
    assert forall|i: int| 0 <= i < a.value.len() implies a.value[i] == b.value[i] by {
        assert(record_of(a).1.1[i] == record_of(b).1.1[i]);
    }
    assert(a.value =~= b.value);
}

/// The record says all that the reference value says: each accepted value at its place, under the
/// keys that the attestation service reads.
pub open spec fn tells_all_of(
    record: (Seq<(Seq<char>, Seq<char>)>, (Seq<char>, Seq<Seq<char>>)),
    rv: ReferenceValue,
) -> bool {
    &&& record.0.len() == 3
    &&& record.0[0] == ("version"@, rv.version@)
    &&& record.0[1] == ("name"@, rv.name@)
    &&& record.0[2].0 == "expiration"@
    &&& record.0[2].1 == time_text(rv.expiration@.0, rv.expiration@.1, "%Y-%m-%dT%H:%M:%SZ"@)
    &&& record.1.0 == "value"@
    &&& record.1.1.len() == rv.value@.len()
    &&& forall|i: int| 0 <= i < rv.value@.len() ==> #[trigger] record.1.1[i] == rv.value@[i]@
}

/// The text is the JSON of records that say all of the reference values, one after the other.
pub open spec fn is_json_of(text: Seq<char>, rvs: Seq<ReferenceValue>) -> bool {
    exists|records: Seq<(Seq<(Seq<char>, Seq<char>)>, (Seq<char>, Seq<Seq<char>>))>|
        {
            &&& text == #[trigger] json_of_records(records)
            &&& records.len() == rvs.len()
            &&& forall|i: int| 0 <= i < rvs.len() ==> tells_all_of(#[trigger] records[i], rvs[i])
        }
}

/// Writing reference values as JSON writes all that each of them says.
pub proof fn json_tells_all_reference_values(
    rvs: Vec<ReferenceValue>,
    text: Result<String, serde_json::Error>,
)
    requires
        call_ensures(reference_values_to_json, (&rvs,), text),
    ensures
        text is Ok,
        is_json_of(text->Ok_0@, rvs@),
{
    json_of_list_tells_all(rvs);
}

/// What is named as the JSON of a list tells all of it.
pub proof fn json_of_list_tells_all(rvs: Vec<ReferenceValue>)
    ensures
        is_json_of(json_of_reference_values(rvs.deep_view()), rvs@),
{
    let records = rvs.deep_view().map_values(|rv: ReferenceValueView| record_of(rv));
    lists_are_seen_whole(rvs);
    assert forall|i: int| 0 <= i < rvs@.len() implies tells_all_of(
        #[trigger] records[i],
        rvs@[i],
    ) by {
        let rv = rvs@[i];
        assert(records[i] == record_of(rv.deep_view()));
        records_hold_all_of_a_reference_value(rv.deep_view());
        lists_are_seen_whole(rv.value);
        assert forall|j: int| 0 <= j < rv.value@.len() implies #[trigger] records[i].1.1[j]
            == rv.value@[j]@ by {
            assert(record_of(rv.deep_view()).1.1[j] == rv.deep_view().value[j]);
        }
    }
    assert(json_of_reference_values(rvs.deep_view()) == json_of_records(records));
}

} // verus!
