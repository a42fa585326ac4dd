use easy_occp::ocpp::ocpp20::{ocpp20_answer, route, Ocpp20Route};
use easy_occp::ocpp::soap15::{
    boot_response, extract_header_value, fault_response, heartbeat_response, read_soap_request, soap_response,
    touches_wallbox, SoapKind, BOOT_HEAD, BOOT_TAIL, FAULT_HEAD, FAULT_TAIL, HEARTBEAT_HEAD, HEARTBEAT_TAIL,
};

const BODY: &str = r#"<soap:Envelope xmlns:soap="http://www.w3.org/2003/05/soap-envelope" xmlns:cs="urn://Ocpp/Cs/2012/06/">
  <soap:Header>
    <cs:chargeBoxIdentity>  CB-42 </cs:chargeBoxIdentity>
  </soap:Header>
  <soap:Body><cs:bootNotificationRequest/></soap:Body>
</soap:Envelope>"#;

#[test]
fn extract_with_namespace_prefix() {
    assert_eq!(extract_header_value(BODY, "chargeBoxIdentity"), Some("CB-42".to_string()));
}

#[test]
fn extract_without_prefix() {
    assert_eq!(extract_header_value("<a><id>x1</id></a>", "id"), Some("x1".to_string()));
}

#[test]
fn extract_missing_or_unclosed() {
    assert_eq!(extract_header_value("<a><id>x1</id></a>", "name"), None);
    assert_eq!(extract_header_value("<id>never closed", "id"), None);
    assert_eq!(extract_header_value("<id></id>", "id"), Some(String::new()));
}

#[test]
fn extract_takes_the_first_element() {
    assert_eq!(extract_header_value("<x:id>one</x:id><id>two</id>", "id"), Some("one".to_string()));
}

#[test]
fn read_boot_request() {
    let r = read_soap_request(Some("\"urn://Ocpp/Cs/2012/06/BootNotification\"".to_string()), BODY);
    assert_eq!(r.soap_action, "urn://Ocpp/Cs/2012/06/BootNotification");
    assert_eq!(r.action, "BootNotification");
    assert_eq!(r.kind, SoapKind::BootNotification);
    assert_eq!(r.cp_id, "CB-42");
    assert!(touches_wallbox(&r));
}

#[test]
fn read_heartbeat_and_other_requests() {
    let r = read_soap_request(Some("/Heartbeat".to_string()), "<x/>");
    assert_eq!(r.action, "Heartbeat");
    assert_eq!(r.kind, SoapKind::Heartbeat);
    assert_eq!(r.cp_id, "");
    assert!(!touches_wallbox(&r));
    let o = read_soap_request(None, BODY);
    assert_eq!(o.soap_action, "");
    assert_eq!(o.action, "");
    assert_eq!(o.kind, SoapKind::Other);
    assert!(!touches_wallbox(&o));
}

#[test]
fn responses_embed_time_and_action() {
    let now = "2024-05-01T12:00:00+00:00";
    assert_eq!(boot_response(now), format!("{BOOT_HEAD}{now}{BOOT_TAIL}"));
    assert!(boot_response(now).contains("<cs:heartbeatInterval>60</cs:heartbeatInterval>"));
    assert_eq!(heartbeat_response(now), format!("{HEARTBEAT_HEAD}{now}{HEARTBEAT_TAIL}"));
    assert_eq!(fault_response("Authorize"), format!("{FAULT_HEAD}Authorize{FAULT_TAIL}"));
    assert!(fault_response("Authorize").contains("Action 'Authorize' im 1.5-SOAP-Endpoint nicht implementiert."));
}

#[test]
fn soap_response_by_kind() {
    let now = "T";
    let boot = read_soap_request(Some("BootNotification".to_string()), BODY);
    assert_eq!(soap_response(&boot, now), boot_response(now));
    let hb = read_soap_request(Some("Heartbeat".to_string()), BODY);
    assert_eq!(soap_response(&hb, now), heartbeat_response(now));
    let other = read_soap_request(Some("\"urn:x/StatusNotification\"".to_string()), BODY);
    assert_eq!(soap_response(&other, now), fault_response("StatusNotification"));
}

#[test]
fn ocpp20_routes() {
    assert_eq!(route("TransactionEvent"), Ocpp20Route::TransactionEvent);
    assert_eq!(route("NotifyReport"), Ocpp20Route::EmptyAnswer);
    assert_eq!(route("NotifyEvent"), Ocpp20Route::EmptyAnswer);
    assert_eq!(route("NotifyMonitoringReport"), Ocpp20Route::EmptyAnswer);
    assert_eq!(route("BootNotification"), Ocpp20Route::Shared);
    assert_eq!(route("transactionevent"), Ocpp20Route::Shared);
}

#[test]
fn extracted_value_is_trimmed_element_text() {
    let v = extract_header_value("<x:id>\t a b \n</x:id>", "id").unwrap();
    assert_eq!(v, "a b");
    assert!(!v.contains('<'));
    let nested = extract_header_value("<id> outer <inner>x</inner></id>", "id").unwrap();
    assert_eq!(nested, "outer");
}

#[test]
fn ocpp20_answers() {
    let now = "2024-05-01T12:00:00Z";
    let t = ocpp20_answer("TransactionEvent", now).expect("answered");
    let mut token = serde_json::Map::new();
    token.insert("status".to_string(), serde_json::Value::from("Accepted"));
    let mut m = serde_json::Map::new();
    m.insert("totalCost".to_string(), serde_json::Value::from(0));
    m.insert("chargingPriority".to_string(), serde_json::Value::from(0));
    m.insert("idTokenInfo".to_string(), serde_json::Value::Object(token));
    m.insert("updatedPersonalMessage".to_string(), serde_json::Value::Null);
    m.insert("currentTime".to_string(), serde_json::Value::from(now));
    assert_eq!(t, serde_json::to_string(&serde_json::Value::Object(m)).unwrap());
    let v: serde_json::Value = serde_json::from_str(&t).unwrap();
    assert_eq!(v["idTokenInfo"]["status"], "Accepted");
    assert_eq!(ocpp20_answer("NotifyEvent", now), Some("{}".to_string()));
    assert_eq!(ocpp20_answer("Heartbeat", now), None);
}
