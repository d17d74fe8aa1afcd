use lenz_core::json::{parse_json, to_json_bytes, to_json_string, JsonValue};
use lenz_core::resources::bytes_to_string;

#[test]
fn parse_reads_every_supported_kind() {
    let v = parse_json(b"[1, \"x\", true, null, {\"k\": -2}]").expect("valid JSON");
    assert_eq!(
        v,
        JsonValue::Arr(vec![
            JsonValue::Int(1),
            JsonValue::Str(String::from("x")),
            JsonValue::Bool(true),
            JsonValue::Null,
            JsonValue::Obj(vec![(String::from("k"), JsonValue::Int(-2))]),
        ])
    );
}

#[test]
fn parse_reports_broken_documents() {
    let err = parse_json(b"[1, ").expect_err("truncated JSON fails");
    assert!(!err.is_empty());
}

#[test]
fn parse_rejects_numbers_outside_i64() {
    let err = parse_json(b"[18446744073709551615]").expect_err("u64::MAX has no i64 form");
    assert_eq!(err, "number outside the supported range");
    let err = parse_json(b"[1.5]").expect_err("floats have no integer form");
    assert_eq!(err, "number outside the supported range");
}

#[test]
fn encoding_keeps_object_field_order() {
    let v = JsonValue::Obj(vec![
        (String::from("b"), JsonValue::Int(1)),
        (String::from("a"), JsonValue::Int(2)),
    ]);
    assert_eq!(to_json_bytes(&v), b"{\"b\":1,\"a\":2}".to_vec());
    assert_eq!(to_json_string(&v), "{\"b\":1,\"a\":2}");
}

#[test]
fn encode_then_parse_reproduces_the_value() {
    let v = JsonValue::Arr(vec![
        JsonValue::Obj(vec![
            (String::from("name"), JsonValue::Str(String::from("caf\u{e9}"))),
            (String::from("n"), JsonValue::Int(i64::MIN)),
        ]),
        JsonValue::Bool(false),
    ]);
    let bytes = to_json_bytes(&v);
    assert_eq!(parse_json(&bytes), Ok(v));
}

#[test]
fn escaped_strings_survive_the_round_trip() {
    let v = JsonValue::Str(String::from("line\none \"two\" \\ three"));
    let bytes = to_json_bytes(&v);
    assert_eq!(parse_json(&bytes), Ok(v));
}

#[test]
fn accessors_read_only_their_kind() {
    assert_eq!(JsonValue::Int(4).as_int(), Some(4));
    assert_eq!(JsonValue::Str(String::from("s")).as_int(), None);
    assert_eq!(JsonValue::Bool(true).as_bool(), Some(true));
    assert_eq!(JsonValue::Null.as_bool(), None);
    assert_eq!(
        JsonValue::Str(String::from("s")).as_str(),
        Some(&String::from("s"))
    );
    assert_eq!(JsonValue::Int(1).as_str(), None);
}

#[test]
fn byte_decoding_round_trips_utf8() {
    let decoded = bytes_to_string("caf\u{e9} \u{2713}".as_bytes().to_vec()).expect("valid UTF-8");
    assert_eq!(decoded, "caf\u{e9} \u{2713}");
    let broken = bytes_to_string(vec![0xff, 0xfe]).expect_err("not UTF-8");
    assert_eq!(broken, vec![0xff, 0xfe]);
}
