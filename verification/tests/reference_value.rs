use operator::compute_pcrs::{
    fresh_reference_values, merged_patch, stored_reference_values, ReferenceValues,
};
use operator::ordered::TextMap;
use operator::outside::{FIRST_SECOND, LAST_SECOND};
use operator::patch::{PatchOperation, PatchValue};
use operator::reference_value::{
    expiration, primitive_date_time_from_str, primitive_date_time_to_str,
    reference_values_to_json, ReferenceValue, TimeError, Timestamp, Version,
};
use operator::rv_store::Pcr;

fn time(secs: i64) -> Timestamp {
    Timestamp::new(secs, 0).unwrap()
}

fn texts(list: &[&str]) -> Vec<String> {
    list.iter().map(|text| text.to_string()).collect()
}

fn rv(version: &str, name: &str, secs: i64, value: &[&str]) -> ReferenceValue {
    ReferenceValue {
        version: Version::parse(version).unwrap(),
        name: name.to_string(),
        expiration: time(secs),
        value: texts(value),
    }
}

fn shown(rvs: &ReferenceValues) -> Vec<(String, String, i64, Vec<String>)> {
    rvs.0
        .iter()
        .map(|rv| {
            (
                rv.version.as_str().to_string(),
                rv.name.clone(),
                rv.expiration.secs(),
                rv.value.clone(),
            )
        })
        .collect()
}

fn pcr(id: u64, value: &str) -> Pcr {
    Pcr {
        id,
        value: value.to_string(),
        extra: "{}".to_string(),
    }
}

#[test]
fn the_first_and_the_last_second_are_those_of_chrono() {
    assert_eq!(chrono::DateTime::<chrono::Utc>::MIN_UTC.timestamp(), FIRST_SECOND);
    assert_eq!(chrono::DateTime::<chrono::Utc>::MAX_UTC.timestamp(), LAST_SECOND);
    assert!(chrono::DateTime::from_timestamp(FIRST_SECOND, 0).is_some());
    assert!(chrono::DateTime::from_timestamp(FIRST_SECOND - 1, 0).is_none());
    assert!(chrono::DateTime::from_timestamp(LAST_SECOND, 999_999_999).is_some());
    assert!(chrono::DateTime::from_timestamp(LAST_SECOND + 1, 0).is_none());
}

#[test]
fn times_are_accepted_as_chrono_accepts_them() {
    for secs in [FIRST_SECOND - 1, FIRST_SECOND, -1, 0, 59, 60, LAST_SECOND, LAST_SECOND + 1] {
        for nanos in [0, 999_999_999, 1_000_000_000, 1_999_999_999, 2_000_000_000] {
            assert_eq!(
                Timestamp::new(secs, nanos).is_some(),
                chrono::DateTime::from_timestamp(secs, nanos).is_some(),
                "{secs} {nanos}"
            );
        }
    }
}

#[test]
fn the_clock_does_not_stand_still_at_the_epoch() {
    let now = Timestamp::now();
    assert!(now.secs() > 1_600_000_000);
    assert!(now.nanos() < 1_000_000_000);
}

#[test]
fn a_reference_value_holds_for_a_year_of_days() {
    assert_eq!(expiration(time(0)).unwrap().secs(), 365 * 86400);
    assert_eq!(expiration(time(LAST_SECOND - 365 * 86400)).unwrap().secs(), LAST_SECOND);
    assert!(expiration(time(LAST_SECOND - 365 * 86400 + 1)).is_none());
}

#[test]
fn the_later_time_counts() {
    let a = Timestamp::new(5, 7).unwrap();
    let b = Timestamp::new(5, 9).unwrap();
    assert_eq!(a.later(b), b);
    assert_eq!(b.later(a), b);
    assert_eq!(time(6).later(b), time(6));
}

#[test]
fn times_are_written_and_read_back() {
    assert_eq!(primitive_date_time_to_str(&time(0)), "1970-01-01T00:00:00Z");
    let leap_day = Timestamp::new(951_782_400, 123).unwrap();
    let text = primitive_date_time_to_str(&leap_day);
    assert_eq!(text, "2000-02-29T00:00:00Z");
    let read = primitive_date_time_from_str(Some(text.as_str())).unwrap();
    assert_eq!((read.secs(), read.nanos()), (951_782_400, 0));
    for secs in [-62167219200, -1, 253402300799] {
        let text = primitive_date_time_to_str(&time(secs));
        assert_eq!(primitive_date_time_from_str(Some(text.as_str())).unwrap(), time(secs));
    }
}

#[test]
fn leap_seconds_are_written_and_read_back() {
    for secs in [-62167219200 + 59, -1, 1_341_100_799, 253402300799] {
        for nanos in [1_000_000_000, 1_999_999_999] {
            let leap = Timestamp::new(secs, nanos).unwrap();
            let text = primitive_date_time_to_str(&leap);
            assert!(text.ends_with(":60Z"));
            let read = primitive_date_time_from_str(Some(text.as_str())).unwrap();
            assert_eq!((read.secs(), read.nanos()), (secs, 1_000_000_000));
        }
    }
}

#[test]
fn a_missing_time_and_a_malformed_one_are_errors() {
    assert!(matches!(primitive_date_time_from_str(None), Err(TimeError::Missing)));
    for text in ["", "1970-01-01", "1970-01-01T00:00:00", "1970-13-01T00:00:00Z"] {
        assert!(matches!(
            primitive_date_time_from_str(Some(text)),
            Err(TimeError::Malformed(_))
        ));
    }
}

#[test]
fn versions_are_those_of_semantic_versioning() {
    assert_eq!(Version::parse("0.1.0").unwrap().as_str(), "0.1.0");
    assert!(Version::parse("0.1").is_none());
    assert!(Version::parse("01.1.0").is_none());
    let old = Version::parse("0.9.0").unwrap();
    let new = Version::parse("0.10.0").unwrap();
    assert_eq!(old.later(&new).as_str(), "0.10.0");
    assert_eq!(new.later(&old).as_str(), "0.10.0");
    assert_eq!(old.copy().as_str(), "0.9.0");
    let all = ["0.1.0-1", "0.1.0-a", "0.1.0", "0.1.0+0", "0.1.0+00", "0.1.0+a", "0.9.0", "0.10.0"];
    for (i, a) in all.iter().enumerate() {
        for (j, b) in all.iter().enumerate() {
            let later = Version::parse(a).unwrap().later(&Version::parse(b).unwrap());
            assert_eq!(later.as_str(), all[i.max(j)]);
        }
    }
    let pre = Version::parse("0.10.0-rc.1").unwrap();
    assert_eq!(pre.later(&new).as_str(), "0.10.0");
}

#[test]
fn reference_values_are_written_as_json() {
    let list = vec![rv("0.1.0", "tpm_pcr4", 0, &["a", "b\""]), rv("0.2.0", "tpm_svn", 1, &[])];
    assert_eq!(
        reference_values_to_json(&list).unwrap(),
        "[{\"version\":\"0.1.0\",\"name\":\"tpm_pcr4\",\
         \"expiration\":\"1970-01-01T00:00:00Z\",\"value\":[\"a\",\"b\\\"\"]},\
         {\"version\":\"0.2.0\",\"name\":\"tpm_svn\",\
         \"expiration\":\"1970-01-01T00:00:01Z\",\"value\":[]}]"
    );
    assert_eq!(reference_values_to_json(&Vec::new()).unwrap(), "[]");
}

#[test]
fn the_last_of_two_entries_of_a_name_counts() {
    let rvs = ReferenceValues(vec![
        rv("0.1.0", "tpm_pcr4", 1, &["a"]),
        rv("0.2.0", "tpm_pcr4", 0, &["c", "b", "c"]),
    ]);
    let map = rvs.to_map();
    assert_eq!(map.len(), 1);
    let content = map.get("tpm_pcr4").unwrap();
    assert_eq!(content.version.as_str(), "0.2.0");
    assert_eq!(content.expiration, time(0));
    assert_eq!(content.values.to_list(), texts(&["b", "c"]));
}

#[test]
fn merging_joins_values_versions_and_expiries() {
    let old = ReferenceValues(vec![
        rv("0.2.0", "tpm_pcr7", 10, &["x"]),
        rv("0.1.0", "tpm_pcr4", 30, &["b", "a"]),
    ]);
    let new = ReferenceValues(vec![
        rv("0.1.9", "tpm_pcr7", 20, &["w", "x"]),
        rv("0.1.0", "tpm_pcr14", 5, &["z"]),
    ]);
    let expected = vec![
        ("0.1.0".to_string(), "tpm_pcr14".to_string(), 5, texts(&["z"])),
        ("0.1.0".to_string(), "tpm_pcr4".to_string(), 30, texts(&["a", "b"])),
        ("0.2.0".to_string(), "tpm_pcr7".to_string(), 20, texts(&["w", "x"])),
    ];
    let merged = old.merge(&new);
    assert_eq!(shown(&merged), expected);
    assert_eq!(shown(&new.merge(&old)), expected);
    assert_eq!(shown(&merged.merge(&new)), expected);
    assert_eq!(shown(&merged.merge(&ReferenceValues(Vec::new()))), expected);
    assert_eq!(shown(&ReferenceValues(Vec::new()).merge(&merged)), expected);
    let third = ReferenceValues(vec![rv("0.1.0", "tpm_pcr7", 99, &["v"])]);
    assert_eq!(
        shown(&old.merge(&new).merge(&third)),
        shown(&old.merge(&new.merge(&third)))
    );
}

#[test]
fn fresh_reference_values_are_the_registers_and_the_svn() {
    let pcrs = vec![pcr(4, "aa"), pcr(7, "bb"), pcr(14, "cc")];
    let before = Timestamp::now().secs();
    let rvs = fresh_reference_values(&pcrs).unwrap();
    let after = Timestamp::now().secs();
    let names: Vec<&str> = rvs.0.iter().map(|rv| rv.name.as_str()).collect();
    assert_eq!(names, ["tpm_pcr4", "tpm_pcr7", "tpm_pcr14", "tpm_svn"]);
    let values: Vec<Vec<String>> = rvs.0.iter().map(|rv| rv.value.clone()).collect();
    assert_eq!(values, [texts(&["aa"]), texts(&["bb"]), texts(&["cc"]), texts(&["1"])]);
    for rv in rvs.0.iter() {
        assert_eq!(rv.version.as_str(), "0.1.0");
        let made = rv.expiration.secs() - 365 * 86400;
        assert!(before <= made && made <= after);
    }
    let stored = ReferenceValues(vec![rv("0.1.0", "tpm_pcr4", 0, &["dd"])]);
    let merged = stored.merge(&rvs);
    assert_eq!(merged.0[1].value, texts(&["aa", "dd"]));
}

#[test]
fn stored_reference_values_are_found() {
    assert_eq!(stored_reference_values(&None), None);
    let map: TextMap<String> = TextMap::new();
    let map = map.insert("policy.rego".to_string(), "p".to_string());
    let map = Some(map);
    assert_eq!(stored_reference_values(&map), None);
    let map = map.unwrap().insert("reference-values.json".to_string(), "[]".to_string());
    assert_eq!(stored_reference_values(&Some(map)), Some("[]"));
}

fn fields(value: PatchValue) -> Vec<(String, String)> {
    match value {
        PatchValue::Fields(map) => map.into_entries(),
        PatchValue::Text(text) => panic!("text {text}"),
    }
}

#[test]
fn merged_reference_values_replace_the_data() {
    let merged = ReferenceValues(Vec::new());
    let written = vec![("reference-values.json".to_string(), "[]".to_string())];
    let mut operations = merged_patch(None, &merged).unwrap();
    assert_eq!(operations.len(), 1);
    match operations.remove(0) {
        PatchOperation::Add { path, value } => {
            assert_eq!(path, "/data");
            assert_eq!(fields(value), written);
        }
        PatchOperation::Test { .. } => panic!("nothing to test"),
    }

    let map: TextMap<String> = TextMap::new();
    let map = map.insert("policy.rego".to_string(), "p".to_string());
    let mut operations = merged_patch(Some(map), &merged).unwrap();
    assert_eq!(operations.len(), 2);
    match operations.remove(0) {
        PatchOperation::Test { path, value } => {
            assert_eq!(path, "/data");
            assert_eq!(fields(value), vec![("policy.rego".to_string(), "p".to_string())]);
        }
        PatchOperation::Add { .. } => panic!("the test comes first"),
    }
    match operations.remove(0) {
        PatchOperation::Add { value, .. } => assert_eq!(fields(value), written),
        PatchOperation::Test { .. } => panic!("only one test"),
    }
}
