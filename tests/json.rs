use emote_fetch::json::{check_status, decode_response, get_field, parse_json, EmoteError, JsonValue};

#[test]
fn parse_json_builds_nodes() {
    let v = parse_json(r#"{"b":[1,-2,1.5,"s",true,null],"a":{}}"#).unwrap();
    match &v {
        JsonValue::Object(members) => {
            assert_eq!(members.len(), 2);
            assert_eq!(members[0].0, "a");
            assert_eq!(members[1].0, "b");
        }
        _ => panic!("not an object"),
    }
    assert_eq!(
        get_field(&v, "b"),
        Some(&JsonValue::Array(vec![
            JsonValue::U64(1),
            JsonValue::I64(-2),
            JsonValue::F64,
            JsonValue::String("s".to_string()),
            JsonValue::Boolean(true),
            JsonValue::Null,
        ]))
    );
    assert_eq!(get_field(&v, "c"), None);
}

#[test]
fn parse_json_rejects_bad_text() {
    assert_eq!(parse_json("{\"a\":"), None);
    assert_eq!(parse_json(""), None);
}

#[test]
fn status_200_is_success() {
    let r = decode_response(r#"{"status":200,"x":1}"#);
    assert!(r.is_ok());
}

#[test]
fn missing_status_is_success() {
    assert!(decode_response(r#"{"x":1}"#).is_ok());
}

#[test]
fn other_status_is_api_error() {
    assert_eq!(
        decode_response(r#"{"status":404,"message":"nope"}"#),
        Err(EmoteError::Api("nope".to_string()))
    );
    assert_eq!(
        decode_response(r#"{"status":"200","message":"text status"}"#),
        Err(EmoteError::Api("text status".to_string()))
    );
}

#[test]
fn error_status_without_message_is_decode_error() {
    assert_eq!(decode_response(r#"{"status":500}"#), Err(EmoteError::Decode));
    assert_eq!(decode_response(r#"{"status":500,"message":3}"#), Err(EmoteError::Decode));
}

#[test]
fn non_object_body_is_decode_error() {
    assert_eq!(decode_response("[1,2]"), Err(EmoteError::Decode));
    assert_eq!(decode_response("garbage"), Err(EmoteError::Decode));
}

#[test]
fn check_status_keeps_document() {
    let doc = JsonValue::Object(vec![("status".to_string(), JsonValue::I64(200))]);
    let same = JsonValue::Object(vec![("status".to_string(), JsonValue::I64(200))]);
    assert_eq!(check_status(doc), Ok(same));
}
