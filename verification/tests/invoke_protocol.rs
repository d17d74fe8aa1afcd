use lenz_core::invoke::{
    decode_result, encode_result, InvokeResult, InvokeResultData, ResultKind,
};
use lenz_core::json::JsonValue;

fn sample_json() -> JsonValue {
    JsonValue::Arr(vec![
        JsonValue::Int(1),
        JsonValue::Str(String::from("a")),
        JsonValue::Bool(true),
        JsonValue::Null,
        JsonValue::Obj(vec![
            (String::from("k"), JsonValue::Int(-7)),
            (String::from("l"), JsonValue::Str(String::from("v"))),
        ]),
    ])
}

#[test]
fn round_trip_json_payload() {
    let encoded = encode_result(InvokeResult::json(sample_json()));
    assert_eq!(encoded.status, 200);
    assert_eq!(encoded.result_header, ResultKind::OkMark);
    assert_eq!(encoded.content_type, "application/json");
    let decoded = decode_result(&encoded).expect("a JSON response decodes");
    assert_eq!(
        decoded,
        InvokeResult::Success(InvokeResultData::Json(sample_json()))
    );
}

#[test]
fn round_trip_binary_payload() {
    let bytes = vec![0u8, 1, 2, 255, 254, 0];
    let encoded = encode_result(InvokeResult::binary(bytes.clone()));
    assert_eq!(encoded.status, 200);
    assert_eq!(encoded.result_header, ResultKind::OkMark);
    assert_eq!(encoded.content_type, "application/octet-stream");
    assert_eq!(encoded.body, bytes);
    let decoded = decode_result(&encoded).expect("a binary response decodes");
    assert_eq!(decoded, InvokeResult::Success(InvokeResultData::Binary(bytes)));
}

#[test]
fn round_trip_error_payload() {
    let encoded = encode_result(InvokeResult::error("boom"));
    assert_eq!(encoded.status, 200);
    assert_eq!(encoded.result_header, ResultKind::ErrMark);
    assert_eq!(encoded.content_type, "application/json");
    assert_eq!(encoded.body, b"\"boom\"".to_vec());
    let decoded = decode_result(&encoded).expect("an error response decodes");
    assert_eq!(decoded, InvokeResult::Failure(String::from("boom")));
}

#[test]
fn json_null_encodes_as_null_body() {
    let encoded = encode_result(InvokeResult::json(JsonValue::Null));
    assert_eq!(encoded.body, b"null".to_vec());
}

#[test]
fn marker_matches_outcome() {
    assert_eq!(
        encode_result(InvokeResult::json(JsonValue::Bool(false))).result_header,
        ResultKind::OkMark
    );
    assert_eq!(
        encode_result(InvokeResult::error("no")).result_header,
        ResultKind::ErrMark
    );
    assert_eq!(ResultKind::OkMark.as_str(), "Ok");
    assert_eq!(ResultKind::ErrMark.as_str(), "Err");
}

#[test]
fn decode_rejects_unknown_content_type() {
    let mut encoded = encode_result(InvokeResult::json(JsonValue::Null));
    encoded.content_type = String::from("text/plain");
    assert!(decode_result(&encoded).is_none());
}

#[test]
fn is_ok_and_is_err_report_the_kind() {
    assert!(InvokeResult::json(JsonValue::Null).is_ok());
    assert!(!InvokeResult::json(JsonValue::Null).is_err());
    assert!(InvokeResult::error("x").is_err());
    assert!(!InvokeResult::binary(vec![1]).is_err());
}
