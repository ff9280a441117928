//! Reference values as the attestation service stores them, with their times and versions.
use crate::outside::{
    add_days, format_time, is_plain_time, is_time, is_version, json_of_records, later_version,
    max_version, parse_time, parses_as_version, ranks_as_version,
    records_to_json, release, release_at_most, time_of_text, time_text,
    utc_now, whole_seconds, FIRST_SECOND, LAST_SECOND, TIME_FORMAT,
};
use crate::text::copy_texts;
use vstd::prelude::*;

verus! {

/// A time in UTC: seconds since the Unix epoch and nanoseconds.
#[derive(Clone, Copy, Debug, PartialEq, Eq)]
pub struct Timestamp {
    secs: i64,
    nanos: u32,
}

impl View for Timestamp {
    type V = (i64, u32);

    closed spec fn view(&self) -> (i64, u32) {
        (self.secs, self.nanos)
    }
}

impl DeepView for Timestamp {
    type V = (i64, u32);

    open spec fn deep_view(&self) -> (i64, u32) {
        self@
    }
}

/// The later of two times.
pub open spec fn later_time(a: (i64, u32), b: (i64, u32)) -> (i64, u32) {
    if a.0 > b.0 || (a.0 == b.0 && a.1 > b.1) {
        a
    } else {
        b
    }
}

impl Timestamp {
    /// The time can be represented.
    #[verifier::type_invariant]
    pub open spec fn is_valid(&self) -> bool {
        is_time(self@.0, self@.1)
    }

    /// A time from seconds and nanoseconds, if they are one.
    pub fn new(secs: i64, nanos: u32) -> (time: Option<Timestamp>)
        ensures
            time is Some <==> is_time(secs, nanos),
            time matches Some(t) ==> t@ == (secs, nanos),
    {
        if secs < FIRST_SECOND || secs > LAST_SECOND {
            return None;
        }
        let since_first: u64 = (secs - FIRST_SECOND) as u64;
        if nanos < 1_000_000_000 || (nanos < 2_000_000_000 && since_first % 60 == 59) {
            Some(Timestamp { secs, nanos })
        } else {
            None
        }
    }

    /// The seconds since the Unix epoch.
    pub fn secs(&self) -> (secs: i64)
        ensures
            secs == self@.0,
    {
        self.secs
    }

    /// The nanoseconds.
    pub fn nanos(&self) -> (nanos: u32)
        ensures
            nanos == self@.1,
    {
        self.nanos
    }

    /// The time on the system clock.
    pub fn now() -> (now: Timestamp)
        ensures
            is_clock_reading(now@),
    {
        let (secs, nanos) = utc_now();
        Timestamp { secs, nanos }
    }

    /// The later of two times.
    pub fn later(self, other: Timestamp) -> (time: Timestamp)
        ensures
            time@ == later_time(self@, other@),
    {
        if self.secs > other.secs || (self.secs == other.secs && self.nanos > other.nanos) {
            self
        } else {
            other
        }
    }
}

/// A time that the system clock can show: from 1970 on and outside a leap second.
pub open spec fn is_clock_reading(time: (i64, u32)) -> bool {
    is_time(time.0, time.1) && 0 <= time.0 && time.1 < 1_000_000_000
}

/// The days for which a reference value holds.
pub const VALIDITY_DAYS: u32 = 365;

/// When a reference value made at `now` expires: so many days of 86400 seconds later.
pub open spec fn expiry_after(now: (i64, u32)) -> (i64, u32) {
    ((now.0 + VALIDITY_DAYS * 86400) as i64, now.1)
}

/// The expiry of a reference value made at `now`, if it can be represented.
pub fn expiration(now: Timestamp) -> (time: Option<Timestamp>)
    requires
        is_clock_reading(now@),
    ensures
        time is Some <==> now@.0 + VALIDITY_DAYS * 86400 <= LAST_SECOND,
        time matches Some(t) ==> t@ == expiry_after(now@),
{
    match add_days(now.secs, now.nanos, VALIDITY_DAYS) {
        Some((secs, nanos)) => Some(Timestamp { secs, nanos }),
        None => None,
    }
}

/// Writes a time as reference values have it.
pub fn primitive_date_time_to_str(d: &Timestamp) -> (text: String)
    ensures
        text@ == time_text(d@.0, d@.1, TIME_FORMAT@),
        is_plain_time(d@.0) ==> time_of_text(text@, TIME_FORMAT@) == Some(
            (d@.0, whole_seconds(d@.1)),
        ),
{
    proof {
        use_type_invariant(d);
    }
    format_time(d.secs, d.nanos, TIME_FORMAT)
}

/// Why a time could not be read.
#[derive(Debug)]
pub enum TimeError {
    /// There was no text.
    Missing,
    /// The text does not follow the pattern.
    Malformed(chrono::ParseError),
}

/// Reads a time as reference values have it.
pub fn primitive_date_time_from_str(s: Option<&str>) -> (time: Result<Timestamp, TimeError>)
    ensures
        s is None <==> time matches Err(TimeError::Missing),
        s matches Some(text) ==> {
            &&& time is Ok <==> time_of_text(text@, TIME_FORMAT@) is Some
            &&& time matches Ok(t) ==> time_of_text(text@, TIME_FORMAT@) == Some(t@)
        },
{
    match s {
        None => Err(TimeError::Missing),
        Some(text) => match parse_time(text, TIME_FORMAT) {
            Ok((secs, nanos)) => Ok(Timestamp { secs, nanos }),
            Err(e) => Err(TimeError::Malformed(e)),
        },
    }
}

/// A version in the notation of Semantic Versioning.
#[derive(Debug)]
pub struct Version {
    text: String,
}

impl View for Version {
    type V = Seq<char>;

    closed spec fn view(&self) -> Seq<char> {
        self.text@
    }
}

impl DeepView for Version {
    type V = Seq<char>;

    open spec fn deep_view(&self) -> Seq<char> {
        self@
    }
}

impl Version {
    /// The text is a version and has its place in the order of versions.
    #[verifier::type_invariant]
    pub open spec fn is_valid(&self) -> bool {
        is_version(self@) && ranks_as_version(self@)
    }

    /// The version that a text denotes, if it denotes one.
    pub fn parse(text: &str) -> (version: Option<Version>)
        ensures
            version is Some <==> is_version(text@),
            version matches Some(v) ==> v@ == text@,
            (exists|a: u64, b: u64, c: u64| text@ == #[trigger] release(a, b, c))
                ==> version is Some,
    {
        if parses_as_version(text) {
            Some(Version { text: text.to_owned() })
        } else {
            None
        }
    }

    /// The text of the version.
    pub fn as_str(&self) -> (text: &str)
        ensures
            text@ == self@,
    {
        self.text.as_str()
    }

    /// The same version again.
    pub fn copy(&self) -> (version: Version)
        ensures
            version@ == self@,
    {
        proof {
            use_type_invariant(self);
        }
        Version { text: self.text.clone() }
    }

    /// The later of two versions.
    pub fn later(&self, other: &Version) -> (version: Version)
        ensures
            version@ == later_version(self@, other@),
            version@ == self@ || version@ == other@,
            version@ == later_version(other@, self@),
            forall|x: (u64, u64, u64), y: (u64, u64, u64)|
                self@ == #[trigger] release(x.0, x.1, x.2) && other@ == #[trigger] release(
                    y.0,
                    y.1,
                    y.2,
                ) ==> version@ == if release_at_most(x, y) {
                    other@
                } else {
                    self@
                },
    {
        proof {
            use_type_invariant(self);
            use_type_invariant(other);
        }
        Version { text: max_version(self.text.as_str(), other.text.as_str()) }
    }
}

/// What the attestation service compares one kind of evidence with.
pub struct ReferenceValue {
    /// The version of the format.
    pub version: Version,
    /// The name of the evidence.
    pub name: String,
    /// When the reference value expires.
    pub expiration: Timestamp,
    /// The accepted values.
    pub value: Vec<String>,
}

/// The contents of a reference value.
#[verifier::ext_equal]
pub struct ReferenceValueView {
    pub version: Seq<char>,
    pub name: Seq<char>,
    pub expiration: (i64, u32),
    pub value: Seq<Seq<char>>,
}

impl DeepView for ReferenceValue {
    type V = ReferenceValueView;

    open spec fn deep_view(&self) -> ReferenceValueView {
        ReferenceValueView {
            version: self.version@,
            name: self.name@,
            expiration: self.expiration@,
            value: self.value.deep_view(),
        }
    }
}

/// The fields of a reference value as they stand in its JSON object: version, name and expiration
/// as texts, and then the accepted values.
pub open spec fn record_of(rv: ReferenceValueView) -> (
    Seq<(Seq<char>, Seq<char>)>,
    (Seq<char>, Seq<Seq<char>>),
) {
    (
        seq![
            ("version"@, rv.version),
            ("name"@, rv.name),
            ("expiration"@, time_text(rv.expiration.0, rv.expiration.1, TIME_FORMAT@)),
        ],
        ("value"@, rv.value),
    )
}

/// The JSON text of a list of reference values.
pub open spec fn json_of_reference_values(rvs: Seq<ReferenceValueView>) -> Seq<char> {
    json_of_records(rvs.map_values(|rv: ReferenceValueView| record_of(rv)))
}

/// The record of one reference value.
fn to_record(rv: &ReferenceValue) -> (record: (Vec<(String, String)>, (String, Vec<String>)))
    ensures
        record.deep_view() == record_of(rv.deep_view()),
{
    let mut texts: Vec<(String, String)> = Vec::new();
    texts.push(("version".to_owned(), rv.version.as_str().to_owned()));
    texts.push(("name".to_owned(), rv.name.clone()));
    texts.push(("expiration".to_owned(), primitive_date_time_to_str(&rv.expiration)));
    let record = (texts, ("value".to_owned(), copy_texts(&rv.value)));
    assert(record.0.deep_view() =~= record_of(rv.deep_view()).0);
    record
}

/// Writes a list of reference values as JSON.
pub fn reference_values_to_json(rvs: &Vec<ReferenceValue>) -> (text: Result<
    String,
    serde_json::Error,
>)
    ensures
        text is Ok,
        text matches Ok(t) ==> t@ == json_of_reference_values(rvs.deep_view()),
{
    let mut records: Vec<(Vec<(String, String)>, (String, Vec<String>))> = Vec::new();
    let ghost wanted = rvs.deep_view().map_values(|rv: ReferenceValueView| record_of(rv));
    let mut i: usize = 0;
    while i < rvs.len()
        invariant
            i <= rvs@.len(),
            wanted == rvs.deep_view().map_values(|rv: ReferenceValueView| record_of(rv)),
            records.deep_view() =~= wanted.take(i as int),
        decreases rvs@.len() - i,
    {
        let ghost before = records.deep_view();
        let record = to_record(&rvs[i]);
        records.push(record);
        assert(records.deep_view() =~= before.push(record.deep_view()));
        assert(wanted.take(i + 1) =~= wanted.take(i as int).push(wanted[i as int]));
        i = i + 1;
    }
    assert(wanted.take(i as int) =~= wanted);
    records_to_json(records)
}

} // verus!
