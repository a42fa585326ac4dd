use easy_occp::ocpp::wire::{OcppCallError, OcppMessage};

fn call(raw: &str) -> (String, String, String) {
    match OcppMessage::parse(raw) {
        Ok(OcppMessage::Call { unique_id, action, payload }) => (unique_id, action, payload),
        other => panic!("expected a CALL, got {:?}", other),
    }
}

#[test]
fn parse_call_frame() {
    let (id, action, payload) = call(r#"[2, "19223201", "BootNotification", {"chargePointVendor": "ACME", "chargePointModel": "X1"}]"#);
    assert_eq!(id, "19223201");
    assert_eq!(action, "BootNotification");
    // compact, with the keys in serde_json's order
    assert_eq!(payload, r#"{"chargePointModel":"X1","chargePointVendor":"ACME"}"#);
}

#[test]
fn parse_call_with_non_string_ids_reads_them_as_empty() {
    let (id, action, payload) = call(r#"[2, 17, null, []]"#);
    assert_eq!(id, "");
    assert_eq!(action, "");
    assert_eq!(payload, "[]");
}

#[test]
fn parse_call_result_frame() {
    match OcppMessage::parse(r#"[3,"abc",{"status":"Accepted"}]"#) {
        Ok(OcppMessage::CallResult { unique_id, payload }) => {
            assert_eq!(unique_id, "abc");
            assert_eq!(payload, r#"{"status":"Accepted"}"#);
        }
        other => panic!("unexpected {:?}", other),
    }
}

#[test]
fn parse_call_result_without_payload_is_null() {
    match OcppMessage::parse(r#"[3,"abc"]"#) {
        Ok(OcppMessage::CallResult { unique_id, payload }) => {
            assert_eq!(unique_id, "abc");
            assert_eq!(payload, "null");
        }
        other => panic!("unexpected {:?}", other),
    }
}

#[test]
fn parse_call_error_frame() {
    match OcppMessage::parse(r#"[4,"u1","NotSupported","Unknown action",{"x":1}]"#) {
        Ok(OcppMessage::CallError { unique_id, error_code, error_description, error_details }) => {
            assert_eq!(unique_id, "u1");
            assert_eq!(error_code, "NotSupported");
            assert_eq!(error_description, "Unknown action");
            assert_eq!(error_details, r#"{"x":1}"#);
        }
        other => panic!("unexpected {:?}", other),
    }
    match OcppMessage::parse(r#"[4,"u1","InternalError","boom"]"#) {
        Ok(OcppMessage::CallError { error_details, .. }) => assert_eq!(error_details, "null"),
        other => panic!("unexpected {:?}", other),
    }
}

#[test]
fn parse_rejects_empty_array() {
    assert_eq!(OcppMessage::parse("[]").unwrap_err(), "Leeres OCPP-Array");
}

#[test]
fn parse_rejects_non_numeric_type() {
    assert_eq!(OcppMessage::parse(r#"["2","a","B",{}]"#).unwrap_err(), "msgType muss Zahl sein");
    assert_eq!(OcppMessage::parse(r#"[2.5,"a","B",{}]"#).unwrap_err(), "msgType muss Zahl sein");
}

#[test]
fn parse_rejects_short_call() {
    assert_eq!(OcppMessage::parse(r#"[2,"a","B"]"#).unwrap_err(), "CALL benötigt 4 Elemente");
}

#[test]
fn parse_rejects_unknown_type() {
    assert_eq!(OcppMessage::parse(r#"[7,"a"]"#).unwrap_err(), "Unbekannter OCPP-msgType 7");
    assert_eq!(OcppMessage::parse(r#"[-12]"#).unwrap_err(), "Unbekannter OCPP-msgType -12");
}

#[test]
fn parse_reports_json_errors() {
    let e = OcppMessage::parse("not json").unwrap_err();
    assert!(e.starts_with("JSON: "), "{e}");
    assert!(e.len() > "JSON: ".len());
    let e = OcppMessage::parse(r#"{"a":1}"#).unwrap_err();
    assert!(e.starts_with("JSON: "), "{e}");
}

#[test]
fn try_parse_refuses_frames_that_are_too_short() {
    assert!(OcppMessage::try_parse("[3]").is_none());
    assert!(OcppMessage::try_parse(r#"[4,"u","c"]"#).is_none());
    assert!(matches!(OcppMessage::try_parse("[]"), Some(Err(_))));
    assert!(matches!(OcppMessage::try_parse(r#"[3,"x"]"#), Some(Ok(OcppMessage::CallResult { .. }))));
}

#[test]
fn serialize_call() {
    let m = OcppMessage::Call {
        unique_id: "id1".to_string(),
        action: "Reset".to_string(),
        payload: r#"{"type":"Hard"}"#.to_string(),
    };
    assert_eq!(m.serialize(), r#"[2,"id1","Reset",{"type":"Hard"}]"#);
}

#[test]
fn serialize_call_result_and_error() {
    let r = OcppMessage::CallResult { unique_id: "7".to_string(), payload: "{}".to_string() };
    assert_eq!(r.serialize(), r#"[3,"7",{}]"#);
    let e = OcppMessage::CallError {
        unique_id: "7".to_string(),
        error_code: "NotImplemented".to_string(),
        error_description: "nope".to_string(),
        error_details: "{}".to_string(),
    };
    assert_eq!(e.serialize(), r#"[4,"7","NotImplemented","nope",{}]"#);
}

#[test]
fn serialize_escapes_strings() {
    let m = OcppMessage::CallResult {
        unique_id: "a\"b\\c\nd\u{1}é".to_string(),
        payload: "null".to_string(),
    };
    assert_eq!(m.serialize(), "[3,\"a\\\"b\\\\c\\nd\\u0001é\",null]");
    // the same text serde_json writes
    let v = serde_json::Value::Array(vec![
        serde_json::Value::from(3),
        serde_json::Value::from("a\"b\\c\nd\u{1}é"),
        serde_json::Value::Null,
    ]);
    assert_eq!(m.serialize(), serde_json::to_string(&v).unwrap());
}

#[test]
fn serialize_then_parse_gives_the_frame_back() {
    let m = OcppMessage::CallError {
        unique_id: "x\ty".to_string(),
        error_code: "Formation\"Violation".to_string(),
        error_description: "ä / \u{7}".to_string(),
        error_details: r#"{"k":[1,2,"v"]}"#.to_string(),
    };
    match OcppMessage::parse(&m.serialize()) {
        Ok(OcppMessage::CallError { unique_id, error_code, error_description, error_details }) => {
            assert_eq!(unique_id, "x\ty");
            assert_eq!(error_code, "Formation\"Violation");
            assert_eq!(error_description, "ä / \u{7}");
            assert_eq!(error_details, r#"{"k":[1,2,"v"]}"#);
        }
        other => panic!("unexpected {:?}", other),
    }
    let c = OcppMessage::Call {
        unique_id: "1".to_string(),
        action: "Heartbeat".to_string(),
        payload: "{}".to_string(),
    };
    let (id, action, payload) = call(&c.serialize());
    assert_eq!((id.as_str(), action.as_str(), payload.as_str()), ("1", "Heartbeat", "{}"));
}

#[test]
fn call_error_message_text() {
    let e = OcppCallError { code: "NotSupported".to_string(), description: "nein".to_string() };
    assert_eq!(e.message(), "OCPP-CallError NotSupported: nein");
}
