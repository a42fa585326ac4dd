//! OCPP 2.0.1: the actions only 2.0.1 has. Actions common to both versions
//! take the shared 1.6 path.

use vstd::prelude::*;

use crate::ocpp::wire::{json_quote, push_json_quoted, push_str};
use crate::text::{eq_str, string_of};

verus! {

/// Where a 2.0.1 CALL is handled.
#[derive(PartialEq, Eq, Structural, Clone, Copy, Debug)]
pub enum Ocpp20Route {
    /// `TransactionEvent`: answered with free charging accepted.
    TransactionEvent,
    /// `NotifyReport`, `NotifyEvent`, `NotifyMonitoringReport`: an empty
    /// answer.
    EmptyAnswer,
    /// Everything else goes to the shared path.
    Shared,
}

pub open spec fn route_spec(action: Seq<char>) -> Ocpp20Route {
    if action == "TransactionEvent"@ {
        Ocpp20Route::TransactionEvent
    } else if action == "NotifyReport"@ || action == "NotifyEvent"@ || action
        == "NotifyMonitoringReport"@ {
        Ocpp20Route::EmptyAnswer
    } else {
        Ocpp20Route::Shared
    }
}

pub fn route(action: &str) -> (r: Ocpp20Route)
    ensures
        r == route_spec(action@),
{
    if eq_str(action, "TransactionEvent") {
        Ocpp20Route::TransactionEvent
    } else if eq_str(action, "NotifyReport") || eq_str(action, "NotifyEvent") || eq_str(
        action,
        "NotifyMonitoringReport",
    ) {
        Ocpp20Route::EmptyAnswer
    } else {
        Ocpp20Route::Shared
    }
}

/// The answer to a `TransactionEvent` as JSON text: free charging
/// accepted (total cost 0, priority 0, token status `Accepted`), no
/// personal message, and the server time.
pub open spec fn transaction_event_answer(now: Seq<char>) -> Seq<char> {
    "{\"chargingPriority\":0,\"currentTime\":"@ + json_quote(now)
        + ",\"idTokenInfo\":{\"status\":\"Accepted\"},\"totalCost\":0,\"updatedPersonalMessage\":null}"@
}

/// The answer text of the 2.0.1 endpoint (see `ocpp20_answer`).
pub open spec fn ocpp20_answer_spec(action: Seq<char>, now: Seq<char>) -> Option<Seq<char>> {
    match route_spec(action) {
        Ocpp20Route::TransactionEvent => Some(transaction_event_answer(now)),
        Ocpp20Route::EmptyAnswer => Some("{}"@),
        Ocpp20Route::Shared => None,
    }
}

/// What the 2.0.1 endpoint answers to a CALL, given the current time: the
/// `TransactionEvent` answer, an empty object for the notifications, and
/// `None` for the actions of the shared path.
pub fn ocpp20_answer(action: &str, now: &str) -> (r: Option<String>)
    ensures
        match route_spec(action@) {
            Ocpp20Route::TransactionEvent => r matches Some(t) && t@ == transaction_event_answer(now@),
            Ocpp20Route::EmptyAnswer => r matches Some(t) && t@ == "{}"@,
            Ocpp20Route::Shared => r is None,
        },
        match r {
            Some(t) => ocpp20_answer_spec(action@, now@) == Some(t@),
            None => ocpp20_answer_spec(action@, now@) is None,
        },
{
    match route(action) {
        Ocpp20Route::TransactionEvent => {
            let mut out: Vec<char> = Vec::new();
            push_str(&mut out, "{\"chargingPriority\":0,\"currentTime\":");
            push_json_quoted(&mut out, now);
            push_str(
                &mut out,
                ",\"idTokenInfo\":{\"status\":\"Accepted\"},\"totalCost\":0,\"updatedPersonalMessage\":null}",
            );
            Some(string_of(out.as_slice()))
        },
        Ocpp20Route::EmptyAnswer => Some(String::from_str("{}")),
        Ocpp20Route::Shared => None,
    }
}

/// Only `TransactionEvent` and the three notifications are 2.0.1's own:
/// every other action goes to the shared path.
pub proof fn lemma_route_own_actions(action: Seq<char>)
    ensures
        route_spec(action) == Ocpp20Route::TransactionEvent <==> action == "TransactionEvent"@,
        route_spec(action) == Ocpp20Route::EmptyAnswer <==> (action == "NotifyReport"@ || action
            == "NotifyEvent"@ || action == "NotifyMonitoringReport"@),
        action != "TransactionEvent"@ && action != "NotifyReport"@ && action != "NotifyEvent"@
            && action != "NotifyMonitoringReport"@ ==> route_spec(action) == Ocpp20Route::Shared,
{
    reveal_strlit("TransactionEvent");
    reveal_strlit("NotifyReport");
    reveal_strlit("NotifyEvent");
    reveal_strlit("NotifyMonitoringReport");
    assert("TransactionEvent"@.len() == 16);
    assert("NotifyReport"@.len() == 12);
    assert("NotifyEvent"@.len() == 11);
    assert("NotifyMonitoringReport"@.len() == 22);
}

/// The 2.0.1 endpoint answers only its own actions: a `TransactionEvent`
/// with a JSON object naming status `Accepted`, total cost 0 and the given
/// time, each notification with `{}`, and nothing for any other action.
pub proof fn lemma_answers(action: Seq<char>, now: Seq<char>)
    ensures
        action != "TransactionEvent"@ && action != "NotifyReport"@ && action != "NotifyEvent"@
            && action != "NotifyMonitoringReport"@ ==> ocpp20_answer_spec(action, now) is None,
        (action == "NotifyReport"@ || action == "NotifyEvent"@ || action == "NotifyMonitoringReport"@)
            ==> ocpp20_answer_spec(action, now) == Some("{}"@),
        action == "TransactionEvent"@ ==> ocpp20_answer_spec(action, now) == Some(
            "{\"chargingPriority\":0,\"currentTime\":"@ + json_quote(now)
                + ",\"idTokenInfo\":{\"status\":\"Accepted\"},\"totalCost\":0,\"updatedPersonalMessage\":null}"@,
        ),
{
    lemma_route_own_actions(action);
}

} // verus!
