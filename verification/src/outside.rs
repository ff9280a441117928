//! Everything that is believed of code outside this crate. Each item names the outside function
//! that it stands for and says what is claimed of it.
use crate::ordered::key_at;
use crate::text::decimal;
use base64::Engine;
use vstd::prelude::*;

verus! {

/// `String::push`: the character is appended to the text.
pub assume_specification[ String::push ](s: &mut String, c: char)
    ensures
        final(s)@ == old(s)@.push(c),
;

/// The error of `jsonptr` for a text that is no JSON pointer.
#[verifier::external_type_specification]
#[verifier::external_body]
pub struct ExPointerParseError(jsonptr::ParseError);

/// The error of `chrono` for a text that does not follow a time pattern.
#[verifier::external_type_specification]
#[verifier::external_body]
pub struct ExTimeParseError(chrono::ParseError);

/// The error queue of OpenSSL.
#[verifier::external_type_specification]
#[verifier::external_body]
pub struct ExErrorStack(openssl::error::ErrorStack);

/// The error of `serde_json`.
#[verifier::external_type_specification]
#[verifier::external_body]
pub struct ExJsonError(serde_json::Error);

/// A text is a JSON pointer if it is empty, or starts with a slash and has a `0` or a `1` behind
/// each tilde.
pub open spec fn is_pointer(text: Seq<char>) -> bool {
    text.len() == 0 || {
        &&& text[0] == '/'
        &&& forall|i: int|
            0 <= i < text.len() && #[trigger] text[i] == '~' ==> i + 1 < text.len() && (text[i + 1]
                == '0' || text[i + 1] == '1')
    }
}

/// `jsonptr::PointerBuf::parse`: gives the pointer back with the same text, or an error exactly
/// for a text that is no JSON pointer.
#[verifier::external_body]
pub(crate) fn parse_pointer(text: &str) -> (pointer: Result<String, jsonptr::ParseError>)
    ensures
        pointer is Ok <==> is_pointer(text@),
        pointer matches Ok(p) ==> p@ == text@,
{
    jsonptr::PointerBuf::parse(text)
        .map(|pointer| pointer.to_string())
        .map_err(|report| report.into_original())
}

/// The first second that `chrono` can represent: the start of the year -262143.
pub const FIRST_SECOND: i64 = -8334601228800;

/// The last second that `chrono` can represent: the end of the year 262142.
pub const LAST_SECOND: i64 = 8210266876799;

/// The first second of the year 0.
pub const FIRST_PLAIN_SECOND: i64 = -62167219200;

/// The last second of the year 9999.
pub const LAST_PLAIN_SECOND: i64 = 253402300799;

/// Seconds since the Unix epoch and nanoseconds that are a time to `chrono`. A second may last
/// for two thousand million nanoseconds if it is the last of its minute: the excess is a leap
/// second.
pub open spec fn is_time(secs: i64, nanos: u32) -> bool {
    &&& FIRST_SECOND <= secs <= LAST_SECOND
    &&& nanos < 1_000_000_000 || (nanos < 2_000_000_000 && (secs as int) % 60 == 59)
}

/// A time in the years from 0 to 9999.
pub open spec fn is_plain_time(secs: i64) -> bool {
    FIRST_PLAIN_SECOND <= secs <= LAST_PLAIN_SECOND
}

/// The nanoseconds of a time without the fraction of a second. Those of a leap second stay.
pub open spec fn whole_seconds(nanos: u32) -> u32 {
    if nanos < 1_000_000_000 {
        0
    } else {
        1_000_000_000
    }
}

/// `chrono::Utc::now`: some time from 1970 on, outside a leap second. Nothing is said of which.
/// The call panics where the system clock stands before 1970.
#[verifier::external_body]
pub(crate) fn utc_now() -> (now: (i64, u32))
    ensures
        is_time(now.0, now.1),
        0 <= now.0,
        now.1 < 1_000_000_000,
{
    let now = chrono::Utc::now();
    (now.timestamp(), now.timestamp_subsec_nanos())
}

/// `chrono::DateTime::checked_add_signed` with a `chrono::TimeDelta` of whole days: moves a time
/// that is outside a leap second by so many times 86400 seconds, or gives nothing if that is
/// beyond the last second that can be represented.
#[verifier::external_body]
pub(crate) fn add_days(secs: i64, nanos: u32, days: u32) -> (sum: Option<(i64, u32)>)
    requires
        is_time(secs, nanos),
        nanos < 1_000_000_000,
    ensures
        sum is Some <==> secs + days * 86400 <= LAST_SECOND,
        sum matches Some(t) ==> t.0 == secs + days * 86400 && t.1 == nanos,
{
    chrono::DateTime::from_timestamp(secs, nanos)?
        .checked_add_signed(chrono::TimeDelta::days(days as i64))
        .map(|time| (time.timestamp(), time.timestamp_subsec_nanos()))
}

/// What `chrono::DateTime::format` writes for a time and a pattern.
pub uninterp spec fn time_text(secs: i64, nanos: u32, pattern: Seq<char>) -> Seq<char>;

/// What `chrono::NaiveDateTime::parse_from_str` reads from a text that follows a pattern: seconds
/// since the Unix epoch and nanoseconds.
pub uninterp spec fn time_of_text(text: Seq<char>, pattern: Seq<char>) -> Option<(i64, u32)>;

/// The pattern of the times in reference values.
pub const TIME_FORMAT: &'static str = "%Y-%m-%dT%H:%M:%SZ";

/// `chrono::DateTime::format` with the pattern of reference values. In the years from 0 to 9999,
/// the text that it writes is read back with the same pattern as the same second, without the
/// fraction. A leap second is written as second 60 and read back as the leap second.
#[verifier::external_body]
pub(crate) fn format_time(secs: i64, nanos: u32, pattern: &str) -> (text: String)
    requires
        is_time(secs, nanos),
        pattern@ == TIME_FORMAT@,
    ensures
        text@ == time_text(secs, nanos, pattern@),
        is_plain_time(secs) ==> time_of_text(text@, pattern@) == Some(
            (secs, whole_seconds(nanos)),
        ),
{
    let time = chrono::DateTime::from_timestamp(secs, nanos).unwrap_or_default();
    time.format(pattern).to_string()
}

/// `chrono::NaiveDateTime::parse_from_str`: reads a time, or gives an error exactly where there is
/// none to read. What is read is a time.
#[verifier::external_body]
pub(crate) fn parse_time(text: &str, pattern: &str) -> (time: Result<
    (i64, u32),
    chrono::ParseError,
>)
    requires
        pattern@ == TIME_FORMAT@,
    ensures
        time is Ok <==> time_of_text(text@, pattern@) is Some,
        time matches Ok(t) ==> time_of_text(text@, pattern@) == Some(t) && is_time(t.0, t.1),
{
    let time = chrono::NaiveDateTime::parse_from_str(text, pattern)?.and_utc();
    Ok((time.timestamp(), time.timestamp_subsec_nanos()))
}

/// Whether `semver::Version::parse` accepts a text.
pub uninterp spec fn is_version(text: Seq<char>) -> bool;

/// The text of the greater of two versions in the order of `semver::Version`.
pub uninterp spec fn later_version(a: Seq<char>, b: Seq<char>) -> Seq<char>;

/// The text of a release: three numbers with dots between them.
pub open spec fn release(major: u64, minor: u64, patch: u64) -> Seq<char> {
    decimal(major as nat) + "."@ + decimal(minor as nat) + "."@ + decimal(patch as nat)
}

/// A text has its place in a total order of versions in which only equal texts rank as equal: the
/// greater of two versions is one of them, whichever comes first, and the greatest of three can be
/// found in any grouping.
pub open spec fn ranks_as_version(a: Seq<char>) -> bool {
    &&& later_version(a, a) == a
    &&& forall|b: Seq<char>| #[trigger]
        is_version(b) ==> later_version(a, b) == later_version(b, a) && (later_version(a, b) == a
            || later_version(a, b) == b)
    &&& forall|b: Seq<char>, c: Seq<char>| #[trigger]
        is_version(b) && #[trigger] is_version(c) ==> later_version(later_version(a, b), c)
            == later_version(a, later_version(b, c))
}

/// `semver::Version::parse`: tells whether a text is a version. A release is one. What it accepts
/// is ordered by the `Ord` of `semver::Version`, which is a total order that ranks only versions of
/// the same text as equal, as a version is written as it was read.
#[verifier::external_body]
pub(crate) fn parses_as_version(text: &str) -> (accepted: bool)
    ensures
        accepted == is_version(text@),
        (exists|a: u64, b: u64, c: u64| text@ == #[trigger] release(a, b, c)) ==> accepted,
        accepted ==> ranks_as_version(text@),
{
    semver::Version::parse(text).is_ok()
}

/// The numbers of one release come before those of another or are the same.
pub open spec fn release_at_most(a: (u64, u64, u64), b: (u64, u64, u64)) -> bool {
    a.0 < b.0 || (a.0 == b.0 && (a.1 < b.1 || (a.1 == b.1 && a.2 <= b.2)))
}

/// The order of `semver::Version`, through `Option::max`: gives the text of the greater of two
/// versions. A version is written as it was read, so the text is one of the two. Releases are
/// ordered by their numbers.
#[verifier::external_body]
pub(crate) fn max_version(a: &str, b: &str) -> (later: String)
    requires
        is_version(a@),
        is_version(b@),
    ensures
        later@ == later_version(a@, b@),
        later@ == a@ || later@ == b@,
        forall|x: (u64, u64, u64), y: (u64, u64, u64)|
            a@ == #[trigger] release(x.0, x.1, x.2) && b@ == #[trigger] release(y.0, y.1, y.2)
                ==> later@ == if release_at_most(x, y) {
                b@
            } else {
                a@
            },
{
    let later = semver::Version::parse(a).ok().max(semver::Version::parse(b).ok());
    later.map(|version| version.to_string()).unwrap_or_default()
}

/// The SHA-1 digest of some bytes.
pub uninterp spec fn sha1_of(data: Seq<u8>) -> Seq<u8>;

/// `openssl::hash::hash` with `MessageDigest::sha1`: gives the twenty bytes of the digest, or the
/// errors of OpenSSL. Whether it succeeds is up to the OpenSSL library and is left open.
#[verifier::external_body]
pub(crate) fn sha1_digest(data: &[u8]) -> (digest: Result<Vec<u8>, openssl::error::ErrorStack>)
    ensures
        digest matches Ok(d) ==> d@ == sha1_of(data@) && d@.len() == 20,
{
    openssl::hash::hash(openssl::hash::MessageDigest::sha1(), data).map(|digest| digest.to_vec())
}

/// `openssl::rand::rand_bytes`: gives so many random bytes, or the errors of OpenSSL. Nothing is
/// said of which bytes.
#[verifier::external_body]
pub(crate) fn random_bytes(len: usize) -> (bytes: Result<Vec<u8>, openssl::error::ErrorStack>)
    requires
        len <= 0x7fff_ffff,
    ensures
        bytes matches Ok(b) ==> b@.len() == len,
{
    let mut bytes = vec![0u8; len];
    openssl::rand::rand_bytes(&mut bytes)?;
    Ok(bytes)
}

/// The lower case hexadecimal digit of a number below sixteen.
pub open spec fn hex_digit(n: int) -> char {
    if n < 10 {
        (48 + n) as char
    } else {
        (87 + n) as char
    }
}

/// Two hexadecimal digits for each byte, the high one first.
pub open spec fn hex_of(bytes: Seq<u8>) -> Seq<char> {
    Seq::new(
        2 * bytes.len(),
        |i: int|
            if i % 2 == 0 {
                hex_digit(bytes[i / 2] as int / 16)
            } else {
                hex_digit(bytes[i / 2] as int % 16)
            },
    )
}

/// `hex::encode`: writes two lower case hexadecimal digits for each byte.
#[verifier::external_body]
pub(crate) fn hex_text(bytes: &[u8]) -> (text: String)
    requires
        bytes@.len() <= 0x3fff_ffff,
    ensures
        text@ == hex_of(bytes@),
{
    hex::encode(bytes)
}

/// The character of a number below sixty-four in the standard alphabet of Base64.
pub open spec fn base64_digit(n: int) -> char {
    if n < 26 {
        (65 + n) as char
    } else if n < 52 {
        (71 + n) as char
    } else if n < 62 {
        (n - 4) as char
    } else if n == 62 {
        '+'
    } else {
        '/'
    }
}

/// The byte at a place, or zero beyond the end.
pub open spec fn byte_or_zero(bytes: Seq<u8>, i: int) -> int {
    if i < bytes.len() {
        bytes[i] as int
    } else {
        0
    }
}

/// The character at a place of the Base64 notation of some bytes: each three bytes are split into
/// four numbers of six bits, and what is missing in the last group is padded.
pub open spec fn base64_char(bytes: Seq<u8>, i: int) -> char {
    let first = i / 4 * 3;
    let b0 = byte_or_zero(bytes, first);
    let b1 = byte_or_zero(bytes, first + 1);
    let b2 = byte_or_zero(bytes, first + 2);
    if i % 4 == 0 {
        base64_digit(b0 / 4)
    } else if i % 4 == 1 {
        base64_digit(b0 % 4 * 16 + b1 / 16)
    } else if i % 4 == 2 {
        if first + 1 < bytes.len() {
            base64_digit(b1 % 16 * 4 + b2 / 64)
        } else {
            '='
        }
    } else {
        if first + 2 < bytes.len() {
            base64_digit(b2 % 64)
        } else {
            '='
        }
    }
}

/// The Base64 notation of some bytes in the standard alphabet, padded: four characters for each
/// three bytes that have begun.
pub open spec fn base64_of(bytes: Seq<u8>) -> Seq<char> {
    Seq::new((bytes.len() + 2) / 3 * 4, |i: int| base64_char(bytes, i))
}

/// `base64::Engine::encode` of `base64::engine::general_purpose::STANDARD`: writes the Base64
/// notation of some bytes, in the standard alphabet and padded.
#[verifier::external_body]
pub(crate) fn base64_text(bytes: &[u8]) -> (text: String)
    requires
        bytes@.len() <= 0x3fff_ffff,
    ensures
        text@ == base64_of(bytes@),
{
    base64::engine::general_purpose::STANDARD.encode(bytes)
}

/// The JSON text of a list of objects. Each object has some fields that hold a text and then one
/// field that holds a list of texts, in the order given.
pub uninterp spec fn json_of_records(
    records: Seq<(Seq<(Seq<char>, Seq<char>)>, (Seq<char>, Seq<Seq<char>>))>,
) -> Seq<char>;

/// `serde_json::to_string` on a list of `serde_json::Map`, whose fields stay in the order in which
/// they were put in. It does not fail, as all keys are texts.
#[verifier::external_body]
pub(crate) fn records_to_json(
    records: Vec<(Vec<(String, String)>, (String, Vec<String>))>,
) -> (text: Result<String, serde_json::Error>)
    ensures
        text is Ok,
        text matches Ok(t) ==> t@ == json_of_records(records.deep_view()),
{
    let mut objects: Vec<serde_json::Map<String, serde_json::Value>> = Vec::new();
    for (texts, (key, list)) in records {
        let list = serde_json::Value::Array(list.into_iter().map(Into::into).collect());
        let texts = texts.into_iter().map(|(key, text)| (key, text.into()));
        objects.push(texts.chain([(key, list)]).collect());
    }
    serde_json::to_string(&objects)
}

/// The JSON text of a `kube` error response, from its status, message, reason and code.
pub uninterp spec fn json_of_error_response(
    status: Seq<char>,
    message: Seq<char>,
    reason: Seq<char>,
    code: u16,
) -> Seq<char>;

/// `serde_json::to_string` on a `kube::error::ErrorResponse` with the given fields. It does not
/// fail, as the fields are texts and a number.
#[verifier::external_body]
pub(crate) fn error_response_to_json(
    status: &str,
    message: &str,
    reason: &str,
    code: u16,
) -> (text: Result<String, serde_json::Error>)
    ensures
        text is Ok,
        text matches Ok(t) ==> t@ == json_of_error_response(status@, message@, reason@, code),
{
    serde_json::to_string(
        &kube::error::ErrorResponse {
            status: status.to_string(),
            message: message.to_string(),
            reason: reason.to_string(),
            code,
        },
    )
}

/// What `http::StatusCode` shows of a status code: the number and the reason phrase.
pub uninterp spec fn status_code_of(code: u16) -> Seq<char>;

/// `http::StatusCode::from_u16` and the `Display` of the status code.
#[verifier::external_body]
pub(crate) fn status_code_text(code: u16) -> (text: String)
    requires
        100 <= code <= 999,
    ensures
        text@ == status_code_of(code),
{
    http::StatusCode::from_u16(code).map(|code| code.to_string()).unwrap_or_default()
}

/// The labels in the JSON text of an OCI image configuration: nothing if the text is no image
/// configuration, and nothing inside if it has no labels.
pub uninterp spec fn labels_of_config(config: Seq<char>) -> Option<
    Option<Map<Seq<char>, Seq<char>>>,
>;

/// The entries stand for the map: each of its keys occurs once, and no other does.
pub open spec fn are_entries_of(
    entries: Seq<(Seq<char>, Seq<char>)>,
    map: Map<Seq<char>, Seq<char>>,
) -> bool {
    &&& forall|i: int|
        0 <= i < entries.len() ==> map.contains_pair((#[trigger] entries[i]).0, entries[i].1)
    &&& forall|key: Seq<char>| #[trigger]
        map.contains_key(key) ==> exists|i: int| key_at(entries, key, i)
    &&& forall|i: int, j: int|
        0 <= i < entries.len() && 0 <= j < entries.len() && #[trigger] entries[i].0
            == #[trigger] entries[j].0 ==> i == j
}

/// `oci_spec::image::ImageConfiguration::labels_of_config`, after `serde_json::from_str` into an
/// `ImageConfiguration`: gives the entries of the map of labels, in an order that is left open.
#[verifier::external_body]
pub(crate) fn config_labels(config: &str) -> (labels: Result<
    Option<Vec<(String, String)>>,
    serde_json::Error,
>)
    ensures
        labels is Ok <==> labels_of_config(config@) is Some,
        labels matches Ok(None) ==> labels_of_config(config@) == Some(
            None::<Map<Seq<char>, Seq<char>>>,
        ),
        labels matches Ok(Some(entries)) ==> labels_of_config(config@)->0 is Some
            && are_entries_of(entries.deep_view(), labels_of_config(config@)->0->0),
{
    let config: oci_spec::image::ImageConfiguration = serde_json::from_str(config)?;
    Ok(config.labels_of_config().map(|labels| labels.clone().into_iter().collect()))
}

/// The error of `oci_client` for a text that is no image reference.
#[verifier::external_type_specification]
#[verifier::external_body]
pub struct ExReferenceParseError(oci_client::ParseError);

/// An image reference of `oci_client`.
#[verifier::external_type_specification]
#[verifier::external_body]
pub struct ExReference(oci_client::Reference);

/// What `oci_client::Reference::from_str` reads from a text: registry, repository, tag and digest
/// of an image, or nothing if the text is no image reference.
pub uninterp spec fn reference_of(text: Seq<char>) -> Option<oci_client::Reference>;

/// `oci_client::Reference::from_str`: reads the image reference that a text is, or gives an error
/// exactly for a text that is none. The empty text is none.
#[verifier::external_body]
pub(crate) fn parse_reference(text: &str) -> (reference: Result<
    oci_client::Reference,
    oci_client::ParseError,
>)
    ensures
        reference is Ok <==> reference_of(text@) is Some,
        reference matches Ok(r) ==> reference_of(text@) == Some(r),
        text@.len() == 0 ==> reference is Err,
{
    text.parse()
}

} // verus!
