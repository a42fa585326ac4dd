use std::sync::Arc;

use easy_occp::ocpp::hub::{call_result, call_step, CallAction, CallEvent, CallOutcome, CallPhase, Connection, Hub};
use easy_occp::ocpp::wire::OcppCallError;

fn conn(id: u64, cp: &str) -> Arc<Connection> {
    let (tx, _rx) = tokio::sync::mpsc::channel::<String>(4);
    Arc::new(Connection::new(id, cp.to_string(), "ocpp1.6".to_string(), tx))
}

#[test]
fn connection_new_keeps_its_fields() {
    let c = conn(5, "CP-1");
    assert_eq!(c.id, 5);
    assert_eq!(c.charge_point_id, "CP-1");
    assert_eq!(c.ocpp_version, "ocpp1.6");
    assert!(c.pending.lock().unwrap().is_empty());
}

#[test]
fn register_and_get() {
    let mut hub = Hub::new();
    assert!(hub.get("CP-1").is_none());
    assert!(hub.register(conn(1, "CP-1")).is_none());
    let got = hub.get("CP-1").expect("online");
    assert_eq!(got.id, 1);
    assert!(hub.get("CP-2").is_none());
}

#[test]
fn register_displaces_older_connection() {
    let mut hub = Hub::new();
    hub.register(conn(1, "CP-1"));
    let old = hub.register(conn(2, "CP-1")).expect("displaced");
    assert_eq!(old.id, 1);
    assert_eq!(hub.get("CP-1").unwrap().id, 2);
    assert_eq!(hub.list_online(), vec!["CP-1".to_string()]);
}

#[test]
fn unregister_only_removes_the_same_connection() {
    let mut hub = Hub::new();
    hub.register(conn(1, "CP-1"));
    hub.register(conn(2, "CP-1"));
    // the displaced connection closing must not take the new one offline
    hub.unregister("CP-1", 1);
    assert_eq!(hub.get("CP-1").unwrap().id, 2);
    hub.unregister("CP-1", 2);
    assert!(hub.get("CP-1").is_none());
    // unknown ids are ignored
    hub.unregister("CP-9", 2);
    assert!(hub.list_online().is_empty());
}

#[test]
fn list_online_names_each_wallbox_once() {
    let mut hub = Hub::new();
    hub.register(conn(1, "A"));
    hub.register(conn(2, "B"));
    hub.register(conn(3, "A"));
    let mut l = hub.list_online();
    l.sort();
    assert_eq!(l, vec!["A".to_string(), "B".to_string()]);
}

#[test]
fn call_results_for_each_outcome() {
    assert_eq!(call_result("CP-1", CallOutcome::Answered("{}".to_string())), Ok("{}".to_string()));
    assert_eq!(
        call_result("CP-1", CallOutcome::NotConnected),
        Err("Wallbox CP-1 ist nicht verbunden".to_string())
    );
    assert_eq!(
        call_result("CP-1", CallOutcome::QueueClosed),
        Err("WebSocket-Queue geschlossen".to_string())
    );
    let e = OcppCallError { code: "NotSupported".to_string(), description: "x".to_string() };
    assert_eq!(
        call_result("CP-1", CallOutcome::Refused(e)),
        Err("Wallbox-Fehler: OCPP-CallError NotSupported: x".to_string())
    );
    assert_eq!(
        call_result("CP-1", CallOutcome::ChannelClosed),
        Err("Antwort-Kanal geschlossen".to_string())
    );
    assert_eq!(
        call_result("CP-1", CallOutcome::TimedOut),
        Err("Timeout beim Warten auf Antwort von CP-1".to_string())
    );
}

fn ret(a: CallAction) -> Result<String, String> {
    match a {
        CallAction::Return(r) => r,
        _ => panic!("expected a result"),
    }
}

#[test]
fn call_steps_store_before_send() {
    let (p, a) = call_step("CP-1", "u1", "Reset", "{}", CallPhase::Lookup, CallEvent::Found(true));
    assert_eq!(p, CallPhase::Storing);
    match a {
        CallAction::StorePending { unique_id, action } => assert_eq!((unique_id.as_str(), action.as_str()), ("u1", "Reset")),
        _ => panic!("expected StorePending"),
    }
    let (p, a) = call_step("CP-1", "u1", "Reset", "{}", p, CallEvent::Stored);
    assert_eq!(p, CallPhase::Sending);
    match a {
        CallAction::Send(frame) => assert_eq!(frame, r#"[2,"u1","Reset",{}]"#),
        _ => panic!("expected Send"),
    }
    let (p, a) = call_step("CP-1", "u1", "Reset", "{}", p, CallEvent::Queued(true));
    assert_eq!(p, CallPhase::Waiting);
    assert!(matches!(a, CallAction::Await));
    let (p, a) = call_step("CP-1", "u1", "Reset", "{}", p, CallEvent::Ended(CallOutcome::Answered("{\"status\":\"Accepted\"}".to_string())));
    assert_eq!(p, CallPhase::Done);
    assert_eq!(ret(a), Ok("{\"status\":\"Accepted\"}".to_string()));
}

#[test]
fn call_steps_that_fail() {
    let (p, a) = call_step("CP-2", "u", "Reset", "{}", CallPhase::Lookup, CallEvent::Found(false));
    assert_eq!(p, CallPhase::Done);
    assert_eq!(ret(a), Err("Wallbox CP-2 ist nicht verbunden".to_string()));
    let (_, a) = call_step("CP-2", "u", "Reset", "{}", CallPhase::Sending, CallEvent::Queued(false));
    assert_eq!(ret(a), Err("WebSocket-Queue geschlossen".to_string()));
    let (_, a) = call_step("CP-2", "u", "Reset", "{}", CallPhase::Waiting, CallEvent::Ended(CallOutcome::TimedOut));
    match a {
        CallAction::DropPendingAndReturn { unique_id, result } => {
            assert_eq!(unique_id, "u");
            assert_eq!(result, Err("Timeout beim Warten auf Antwort von CP-2".to_string()));
        }
        _ => panic!("expected DropPendingAndReturn"),
    }
    let (_, a) = call_step("CP-2", "u", "Reset", "{}", CallPhase::Waiting, CallEvent::Ended(CallOutcome::ChannelClosed));
    assert_eq!(ret(a), Err("Antwort-Kanal geschlossen".to_string()));
}
