use operator::ordered::{TextMap, TextSet};
use operator::text::{compare_text, copy_texts, to_decimal, truncate, Side};

fn texts(list: &[&str]) -> Vec<String> {
    list.iter().map(|text| text.to_string()).collect()
}

#[test]
fn texts_are_compared_like_their_bytes() {
    let words = ["", "a", "ab", "b", "pcr11", "pcr4", "é", "\u{ffff}", "\u{10000}"];
    for a in words {
        for b in words {
            let expected = if a.as_bytes() < b.as_bytes() {
                Side::Before
            } else if a.as_bytes() == b.as_bytes() {
                Side::Same
            } else {
                Side::After
            };
            assert_eq!(compare_text(a, b), expected);
        }
    }
}

#[test]
fn numbers_are_written_in_decimal() {
    for n in [0, 9, 10, 14, 100, 1_000_000_007, u64::MAX] {
        assert_eq!(to_decimal(n), n.to_string());
    }
    assert_eq!(copy_texts(&texts(&["b", "a"])), texts(&["b", "a"]));
}

#[test]
fn texts_are_cut_off_at_a_byte() {
    assert_eq!(truncate("abc", 5), "abc");
    assert_eq!(truncate("abc", 3), "abc");
    assert_eq!(truncate("abc", 2), "ab");
    assert_eq!(truncate("abc", 0), "");
    assert_eq!(truncate("aé", 1), "a");
    assert_eq!(truncate("éa", 2), "é");
}

#[test]
fn map_entries_come_out_in_order() {
    let map: TextMap<String> = TextMap::new();
    let map = map.insert("svn".to_string(), "1".to_string());
    let map = map.insert("pcr4".to_string(), "2".to_string());
    let map = map.insert("pcr14".to_string(), "3".to_string());
    let map = map.insert("svn".to_string(), "4".to_string());
    assert_eq!(map.len(), 3);
    assert_eq!(map.key(0), "pcr14");
    assert_eq!(map.value(2), "4");
    assert_eq!(map.get("pcr4"), Some(&"2".to_string()));
    assert_eq!(map.get("pcr7"), None);
    assert!(map.contains_key("pcr14"));
    let (map, removed) = map.remove("pcr4");
    assert_eq!(removed, Some("2".to_string()));
    let (map, removed) = map.remove("pcr4");
    assert_eq!(removed, None);
    assert_eq!(
        map.into_entries(),
        vec![
            ("pcr14".to_string(), "3".to_string()),
            ("svn".to_string(), "4".to_string()),
        ]
    );
}

#[test]
fn sets_list_each_text_once_in_order() {
    let a = TextSet::of(&texts(&["b", "a", "b"]));
    let b = TextSet::new().insert("c".to_string()).insert("a".to_string());
    assert_eq!(a.to_list(), texts(&["a", "b"]));
    assert!(a.contains("b") && !a.contains("c"));
    assert_eq!(a.union(&b).to_list(), texts(&["a", "b", "c"]));
}
