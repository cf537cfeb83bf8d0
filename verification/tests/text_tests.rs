use ebay_marketing_lib::json::Json;
use ebay_marketing_lib::text::{
    contains_text, decimal_text, join_lines, same_text, signed_decimal_text, split_lines,
    starts_with, truncated,
};

#[test]
fn numbers_are_written_in_decimal() {
    for n in [0, 7, 10, 99, 100, 12_345, u64::MAX] {
        assert_eq!(decimal_text(n), n.to_string());
    }
    for n in [0, -1, 42, -305, i64::MIN, i64::MAX] {
        assert_eq!(signed_decimal_text(n), n.to_string());
    }
}

#[test]
fn texts_are_searched() {
    assert!(same_text("é", "é") && !same_text("a", "ab") && !same_text("a", "b"));
    for (hay, needle) in [("", ""), ("a", ""), ("abc", "bc"), ("abc", "cb"), ("a", "aa")] {
        assert_eq!(contains_text(hay, needle), hay.contains(needle));
        assert_eq!(starts_with(hay, needle), hay.starts_with(needle));
    }
    assert!(starts_with("abc", "ab"));
}

#[test]
fn texts_are_cut_by_characters() {
    assert_eq!(truncated("été", 2), "ét");
    assert_eq!(truncated("été", 3), "été");
    assert_eq!(truncated("", 0), "");
}

#[test]
fn lines_are_split_as_strings_split_them() {
    for t in ["", "\n", "a", "a\n", "a\nb", "a\r\nb\r\n", "a\r\r\nb\r", "\r\n\r\n", "\n\na"] {
        let expected: Vec<String> = t.lines().map(|l| l.to_string()).collect();
        assert_eq!(split_lines(t), expected);
        assert_eq!(join_lines(&expected), expected.join("\n"));
    }
}

#[test]
fn later_entries_of_an_object_count() {
    let twice = Json::Object(vec![
        ("k".to_string(), Json::Bool(false)),
        ("k".to_string(), Json::Bool(true)),
    ]);
    assert_eq!(twice.get("k"), Some(&Json::Bool(true)));
    assert_eq!(twice.get("l"), None);
    assert_eq!(Json::Null.get("k"), None);
    let set = Json::Null.with("a", Json::text("1")).with("b", Json::Null).with("a", Json::text("2"));
    assert_eq!(
        set,
        Json::Object(vec![("a".to_string(), Json::text("2")), ("b".to_string(), Json::Null)])
    );
    let nested = Json::list_of(set);
    assert_eq!(nested.clone(), nested);
    assert_eq!(Json::text("t").as_text(), Some("t"));
    assert_eq!(Json::Null.as_text(), None);
}
