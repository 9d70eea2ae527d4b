use stalkermap::scanner::formatter::{
    JsonFormatter, LogFormatter, RawFormatter, StructuredFormatter,
};
use stalkermap::scanner::results::ResultMap;

fn sample_map() -> ResultMap {
    let mut m = ResultMap::new();
    m.insert("IsPortOpen".to_string(), "open".to_string());
    m.insert("target".to_string(), "127.0.0.1".to_string());
    m
}

#[test]
fn test_raw_formatter_round_trip() {
    let fmt = RawFormatter;
    let out = fmt.format(sample_map(), b"banner");
    assert_eq!(out, b"banner".to_vec());
    assert_eq!(fmt.idle_output(), b"___IDLE___".to_vec());
    assert!(fmt.is_idle_signal(&fmt.idle_output()));
    assert!(!fmt.is_idle_signal(&out));
    assert!(!fmt.is_idle_signal(&b"___IDLE__X".to_vec()));
}

#[test]
fn test_structured_formatter_renders_bytes() {
    let fmt = StructuredFormatter;
    let record = fmt.format(sample_map(), b"hello");
    assert_eq!(record.data, "hello");
    assert_eq!(
        record.header_response.actions_results.get("IsPortOpen").unwrap(),
        "open"
    );
    let idle = fmt.idle_output();
    assert_eq!(idle.data, "idle");
    assert_eq!(idle.header_response.actions_results.len(), 0);
    assert!(fmt.is_idle_signal(&idle));
    assert!(!fmt.is_idle_signal(&record));
    assert!(record.same_record(&fmt.format(sample_map(), b"hello")));
    assert!(!record.same_record(&idle));
}

#[test]
fn test_structured_formatter_lossy_decoding() {
    let fmt = StructuredFormatter;
    // Invalid UTF-8 is replaced, never dropped silently.
    let record = fmt.format(ResultMap::new(), &[0x68, 0x69, 0xFF]);
    assert_eq!(record.data, "hi\u{FFFD}");
}

#[test]
fn test_json_formatter_idle_sentinel() {
    let fmt = JsonFormatter;
    assert_eq!(fmt.idle_output(), "{\"type\":\"idle\"}");
    assert!(fmt.is_idle_signal(&fmt.idle_output()));
    assert!(!fmt.is_idle_signal(&"{}".to_string()));
}

#[test]
fn test_json_formatter_exact_output() {
    let fmt = JsonFormatter;
    let out = fmt.format(sample_map(), b"ok");
    assert_eq!(
        out,
        "{\"header_response\":{\"actions_results\":{\"IsPortOpen\":\"open\",\"target\":\"127.0.0.1\"}},\"data\":\"ok\"}"
    );
}

#[test]
fn test_json_formatter_parses_as_json() {
    let fmt = JsonFormatter;
    let mut m = ResultMap::new();
    m.insert("key \"quoted\"".to_string(), "line\nbreak\\slash".to_string());
    m.insert("ctrl".to_string(), "bell\u{7}end\ttab".to_string());
    let out = fmt.format(m, b"body with \"quotes\" and \x01 control");

    let value: serde_json::Value = serde_json::from_str(&out).unwrap();
    assert_eq!(
        value["header_response"]["actions_results"]["key \"quoted\""],
        "line\nbreak\\slash"
    );
    assert_eq!(
        value["header_response"]["actions_results"]["ctrl"],
        "bell\u{7}end\ttab"
    );
    assert_eq!(value["data"], "body with \"quotes\" and \u{1} control");

    let idle: serde_json::Value = serde_json::from_str(&fmt.idle_output()).unwrap();
    assert_eq!(idle["type"], "idle");
}

#[test]
fn test_json_escaping_matches_reference_encoder() {
    let fmt = JsonFormatter;
    let mut m = ResultMap::new();
    m.insert("k".to_string(), "a\"b\\c\nd\te\u{8}f\u{c}g\rh\u{1f}i".to_string());
    let out = fmt.format(m, b"");
    // serde_json writes the same text for these strings.
    let reference = serde_json::to_string("a\"b\\c\nd\te\u{8}f\u{c}g\rh\u{1f}i").unwrap();
    assert!(out.contains(reference.trim_matches('"')));
    let value: serde_json::Value = serde_json::from_str(&out).unwrap();
    assert_eq!(
        value["header_response"]["actions_results"]["k"],
        "a\"b\\c\nd\te\u{8}f\u{c}g\rh\u{1f}i"
    );
}

#[test]
fn test_result_map_insert_replaces_in_place() {
    let mut m = ResultMap::new();
    m.insert("a".to_string(), "1".to_string());
    m.insert("b".to_string(), "2".to_string());
    m.insert("a".to_string(), "3".to_string());
    assert_eq!(m.len(), 2);
    assert_eq!(m.get("a").unwrap(), "3");
    assert_eq!(m.get("b").unwrap(), "2");
    assert!(m.get("c").is_none());
    assert!(m.contains_key("a"));
    let copy = m.duplicate();
    assert!(copy.same_entries(&m));
}
