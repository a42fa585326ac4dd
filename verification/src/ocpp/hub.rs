//! Registry of the live OCPP connections, keyed by charge point id. The web
//! server finds a wallbox's connection here to send it a CALL.

use vstd::prelude::*;

use std::sync::Arc;

use crate::num::dec_int;
use crate::ocpp::wire::{array_text, frame_items, json_quote, Frame, OcppCallError, OcppMessage};

verus! {

#[verifier::external_type_specification]
#[verifier::external_body]
#[verifier::reject_recursive_types(K)]
#[verifier::reject_recursive_types(V)]
#[verifier::reject_recursive_types(S)]
pub struct ExDashMap<K, V, S>(dashmap::DashMap<K, V, S>);

#[verifier::external_type_specification]
#[verifier::external_body]
#[verifier::reject_recursive_types(T)]
pub struct ExMpscSender<T>(tokio::sync::mpsc::Sender<T>);

#[verifier::external_type_specification]
#[verifier::external_body]
#[verifier::reject_recursive_types(T)]
pub struct ExOneshotSender<T>(tokio::sync::oneshot::Sender<T>);

#[verifier::external_type_specification]
#[verifier::external_body]
#[verifier::reject_recursive_types(T)]
pub struct ExMutex<T: ?Sized>(std::sync::Mutex<T>);

#[verifier::external_type_specification]
#[verifier::external_body]
pub struct ExJsonValue(serde_json::Value);

/// A CALL sent to a wallbox that waits for its answer.
pub struct PendingCall {
    pub responder: tokio::sync::oneshot::Sender<Result<serde_json::Value, OcppCallError>>,
    pub action: String,
}

/// One live WebSocket connection of a wallbox.
pub struct Connection {
    pub id: u64,
    pub charge_point_id: String,
    pub ocpp_version: String,
    pub tx: tokio::sync::mpsc::Sender<String>,
    pub pending: std::sync::Mutex<std::collections::HashMap<String, PendingCall>>,
}

/// `Mutex::new(HashMap::new())`: a lock around an empty table.
#[verifier::external_body]
fn empty_pending() -> std::sync::Mutex<std::collections::HashMap<String, PendingCall>> {
    std::sync::Mutex::new(std::collections::HashMap::new())
}

impl Connection {
    /// A connection with the given id (unique per process), charge point id,
    /// protocol version and outgoing queue, with no pending calls.
    pub fn new(id: u64, charge_point_id: String, ocpp_version: String, tx: tokio::sync::mpsc::Sender<String>) -> (c: Connection)
        ensures
            c.id == id,
            c.charge_point_id@ == charge_point_id@,
            c.ocpp_version@ == ocpp_version@,
            c.tx == tx,
    {
        Connection { id, charge_point_id, ocpp_version, tx, pending: empty_pending() }
    }
}

pub type ConnMap = dashmap::DashMap<String, Arc<Connection>, std::hash::RandomState>;

/// What the map holds: for each charge point id, the id and charge point id
/// of the connection stored under it.
pub uninterp spec fn conn_map_contents(m: ConnMap) -> Map<Seq<char>, (u64, Seq<char>)>;

pub open spec fn conn_entry(c: Arc<Connection>) -> (u64, Seq<char>) {
    (c.id, c.charge_point_id@)
}

/// `DashMap::new()`: an empty map.
#[verifier::external_body]
fn conn_map_new() -> (r: ConnMap)
    ensures
        conn_map_contents(r).dom() == Set::<Seq<char>>::empty(),
{
    dashmap::DashMap::new()
}

/// `DashMap::insert`: stores `c` under `key`, replacing and handing back what
/// was stored there.
#[verifier::external_body]
fn conn_map_insert(m: &mut ConnMap, key: String, c: Arc<Connection>) -> (r: Option<Arc<Connection>>)
    ensures
        conn_map_contents(*final(m)) == conn_map_contents(*old(m)).insert(key@, conn_entry(c)),
        r is Some <==> conn_map_contents(*old(m)).contains_key(key@),
        r matches Some(p) ==> conn_entry(p) == conn_map_contents(*old(m))[key@],
{
    m.insert(key, c)
}

/// `DashMap::get` with the stored `Arc` cloned out.
#[verifier::external_body]
fn conn_map_get(m: &ConnMap, key: &str) -> (r: Option<Arc<Connection>>)
    ensures
        r is Some <==> conn_map_contents(*m).contains_key(key@),
        r matches Some(p) ==> conn_entry(p) == conn_map_contents(*m)[key@],
{
    m.get(key).map(|e| e.value().clone())
}

/// `DashMap::remove`: the entry under `key` is gone afterwards.
#[verifier::external_body]
fn conn_map_remove(m: &mut ConnMap, key: &str)
    ensures
        conn_map_contents(*final(m)) == conn_map_contents(*old(m)).remove(key@),
{
    m.remove(key);
}

/// `DashMap::iter` collecting the keys: each stored key once, in the map's
/// own (unspecified) order.
#[verifier::external_body]
fn conn_map_keys(m: &ConnMap) -> (r: Vec<String>)
    ensures
        forall|i: int| 0 <= i < r@.len() ==> conn_map_contents(*m).contains_key(#[trigger] r@[i]@),
        forall|k: Seq<char>| #[trigger] conn_map_contents(*m).contains_key(k) ==> exists|i: int|
            0 <= i < r@.len() && #[trigger] r@[i]@ == k,
        forall|i: int, j: int| 0 <= i < j < r@.len() ==> #[trigger] r@[i]@ != #[trigger] r@[j]@,
{
    m.iter().map(|e| e.key().clone()).collect()
}

/// The online map after connection `id` of `cp` has closed: its entry goes
/// only while it is still that connection.
pub open spec fn after_unregister(m: Map<Seq<char>, u64>, cp: Seq<char>, id: u64) -> Map<Seq<char>, u64> {
    if m.contains_key(cp) && m[cp] == id {
        m.remove(cp)
    } else {
        m
    }
}

/// A registered connection is the one found under its charge point id.
pub proof fn lemma_register_then_get(m: Map<Seq<char>, u64>, cp: Seq<char>, id: u64)
    ensures
        m.insert(cp, id).contains_key(cp),
        m.insert(cp, id)[cp] == id,
{
}

/// When a wallbox reconnects, the closing of its displaced connection leaves
/// the new one online.
pub proof fn lemma_stale_close_keeps_reconnect(m: Map<Seq<char>, u64>, cp: Seq<char>, old_id: u64, new_id: u64)
    requires
        old_id != new_id,
    ensures
        after_unregister(m.insert(cp, new_id), cp, old_id) == m.insert(cp, new_id),
{
}

/// A connection that closes while it is the registered one takes its wallbox
/// offline, and leaves the other wallboxes as they were.
pub proof fn lemma_close_goes_offline(m: Map<Seq<char>, u64>, cp: Seq<char>, id: u64)
    ensures
        !after_unregister(m.insert(cp, id), cp, id).contains_key(cp),
        after_unregister(m.insert(cp, id), cp, id) == m.remove(cp),
{
    assert(m.insert(cp, id).remove(cp) =~= m.remove(cp));
}

/// The live connections.
pub struct Hub {
    connections: ConnMap,
}

impl Hub {
    /// Each connection is stored under its own charge point id.
    #[verifier::type_invariant]
    spec fn keyed_by_charge_point(self) -> bool {
        forall|k: Seq<char>|
            #[trigger] conn_map_contents(self.connections).contains_key(k) ==> conn_map_contents(
                self.connections,
            )[k].1 == k
    }

    /// Charge point id to the id of its live connection.
    pub closed spec fn online(self) -> Map<Seq<char>, u64> {
        Map::new(
            |k: Seq<char>| conn_map_contents(self.connections).contains_key(k),
            |k: Seq<char>| conn_map_contents(self.connections)[k].0,
        )
    }

    pub fn new() -> (h: Hub)
        ensures
            h.online().dom() == Set::<Seq<char>>::empty(),
    {
        let h = Hub { connections: conn_map_new() };
        assert(h.online().dom() =~= Set::<Seq<char>>::empty());
        h
    }

    /// Stores the connection under its charge point id; a connection that
    /// was there is displaced and handed back.
    pub fn register(&mut self, conn: Arc<Connection>) -> (r: Option<Arc<Connection>>)
        ensures
            final(self).online() == old(self).online().insert(conn.charge_point_id@, conn.id),
            r is Some <==> old(self).online().contains_key(conn.charge_point_id@),
            r matches Some(p) ==> p.id == old(self).online()[conn.charge_point_id@]
                && p.charge_point_id@ == conn.charge_point_id@,
    {
        proof {
            use_type_invariant(&*self);
        }
        let key = conn.charge_point_id.clone();
        let mut m = conn_map_new();
        std::mem::swap(&mut m, &mut self.connections);
        let r = conn_map_insert(&mut m, key, conn);
        self.connections = m;
        proof {
            assert(self.online() =~= old(self).online().insert(conn.charge_point_id@, conn.id));
        }
        r
    }

    /// Removes the entry of `cp_id` only while it is still the connection
    /// `conn_id`; a newer connection of the same wallbox stays.
    pub fn unregister(&mut self, cp_id: &str, conn_id: u64)
        ensures
            final(self).online() == after_unregister(old(self).online(), cp_id@, conn_id),
    {
        proof {
            use_type_invariant(&*self);
        }
        match conn_map_get(&self.connections, cp_id) {
            Some(entry) => {
                if entry.id == conn_id {
                    let mut m = conn_map_new();
                    std::mem::swap(&mut m, &mut self.connections);
                    conn_map_remove(&mut m, cp_id);
                    self.connections = m;
                    proof {
                        assert(self.online() =~= old(self).online().remove(cp_id@));
                    }
                } else {
                    assert(self.online() =~= after_unregister(old(self).online(), cp_id@, conn_id));
                }
            },
            None => {},
        }
    }

    /// The live connection of `cp_id`, if any.
    pub fn get(&self, cp_id: &str) -> (r: Option<Arc<Connection>>)
        ensures
            r is Some <==> self.online().contains_key(cp_id@),
            r matches Some(c) ==> c.id == self.online()[cp_id@] && c.charge_point_id@ == cp_id@,
    {
        proof {
            use_type_invariant(self);
        }
        conn_map_get(&self.connections, cp_id)
    }

    /// The charge point ids that are online, each once, in no set order.
    pub fn list_online(&self) -> (r: Vec<String>)
        ensures
            forall|i: int| 0 <= i < r@.len() ==> self.online().contains_key(#[trigger] r@[i]@),
            forall|k: Seq<char>| #[trigger] self.online().contains_key(k) ==> exists|i: int|
                0 <= i < r@.len() && #[trigger] r@[i]@ == k,
            forall|i: int, j: int| 0 <= i < j < r@.len() ==> #[trigger] r@[i]@ != #[trigger] r@[j]@,
    {
        conn_map_keys(&self.connections)
    }
}

/// How a CALL to a wallbox ended.
pub enum CallOutcome {
    /// No live connection for the charge point.
    NotConnected,
    /// The outgoing queue of the connection was closed.
    QueueClosed,
    /// The wallbox answered with a CALLRESULT carrying this JSON payload.
    Answered(String),
    /// The wallbox answered with a CALLERROR.
    Refused(OcppCallError),
    /// The answer channel closed without an answer.
    ChannelClosed,
    /// No answer within the time limit (the pending entry is dropped).
    TimedOut,
}

/// What a CALL gives its caller for each way it can end: the payload of the
/// answer, or the text of the error.
pub open spec fn call_result_spec(cp_id: Seq<char>, o: CallOutcome) -> Result<Seq<char>, Seq<char>> {
    match o {
        CallOutcome::NotConnected => Err("Wallbox "@ + cp_id + " ist nicht verbunden"@),
        CallOutcome::QueueClosed => Err("WebSocket-Queue geschlossen"@),
        CallOutcome::Answered(p) => Ok(p@),
        CallOutcome::Refused(e) => Err("Wallbox-Fehler: OCPP-CallError "@ + e.code@ + ": "@
            + e.description@),
        CallOutcome::ChannelClosed => Err("Antwort-Kanal geschlossen"@),
        CallOutcome::TimedOut => Err("Timeout beim Warten auf Antwort von "@ + cp_id),
    }
}

/// The result of a CALL to `cp_id` that ended as `outcome`.
pub fn call_result(cp_id: &str, outcome: CallOutcome) -> (r: Result<String, String>)
    ensures
        match r {
            Ok(p) => call_result_spec(cp_id@, outcome) == Ok::<Seq<char>, Seq<char>>(p@),
            Err(m) => call_result_spec(cp_id@, outcome) == Err::<Seq<char>, Seq<char>>(m@),
        },
{
    match outcome {
        CallOutcome::NotConnected => {
            let mut m = String::from_str("Wallbox ");
            m.append(cp_id);
            m.append(" ist nicht verbunden");
            Err(m)
        },
        CallOutcome::QueueClosed => Err(String::from_str("WebSocket-Queue geschlossen")),
        CallOutcome::Answered(p) => Ok(p),
        CallOutcome::Refused(e) => {
            let mut m = String::from_str("Wallbox-Fehler: ");
            let t = e.message();
            m.append(t.as_str());
            proof {
                assert(m@ =~= "Wallbox-Fehler: OCPP-CallError "@ + e.code@ + ": "@ + e.description@)
                    by {
                    reveal_strlit("Wallbox-Fehler: ");
                    reveal_strlit("OCPP-CallError ");
                    reveal_strlit("Wallbox-Fehler: OCPP-CallError ");
                }
            }
            Err(m)
        },
        CallOutcome::ChannelClosed => Err(String::from_str("Antwort-Kanal geschlossen")),
        CallOutcome::TimedOut => {
            let mut m = String::from_str("Timeout beim Warten auf Antwort von ");
            m.append(cp_id);
            Err(m)
        },
    }
}

// ---------------------------------------------------------------------------
// The steps of a CALL.

/// Where a CALL to a wallbox stands.
#[derive(PartialEq, Eq, Structural, Clone, Copy, Debug)]
pub enum CallPhase {
    /// The wallbox's connection is looked up.
    Lookup,
    /// The pending entry for the answer is being stored.
    Storing,
    /// The frame is being put on the connection's queue.
    Sending,
    /// The answer is awaited.
    Waiting,
    /// The call has ended.
    Done,
}

/// What the caller reports after doing the last action.
pub enum CallEvent {
    /// The connection was found, or not.
    Found(bool),
    /// The pending entry is stored.
    Stored,
    /// The queue took the frame, or was closed.
    Queued(bool),
    /// The wait ended (answer, call error, closed channel or time-out).
    Ended(CallOutcome),
}

/// What the caller does next.
pub enum CallAction {
    /// Store a pending entry for the answer under the unique id.
    StorePending { unique_id: String, action: String },
    /// Put this frame text on the connection's queue.
    Send(String),
    /// Wait for the answer.
    Await,
    /// Remove the pending entry under the unique id, then give the result.
    DropPendingAndReturn { unique_id: String, result: Result<String, String> },
    /// Give the result.
    Return(Result<String, String>),
}

pub enum ActionView {
    StorePending(Seq<char>, Seq<char>),
    Send(Seq<char>),
    Await,
    DropPendingAndReturn(Seq<char>, Result<Seq<char>, Seq<char>>),
    Return(Result<Seq<char>, Seq<char>>),
}

pub open spec fn result_view(r: Result<String, String>) -> Result<Seq<char>, Seq<char>> {
    match r {
        Ok(p) => Ok(p@),
        Err(m) => Err(m@),
    }
}

impl View for CallAction {
    type V = ActionView;

    open spec fn view(&self) -> ActionView {
        match self {
            CallAction::StorePending { unique_id, action } => ActionView::StorePending(unique_id@, action@),
            CallAction::Send(t) => ActionView::Send(t@),
            CallAction::Await => ActionView::Await,
            CallAction::DropPendingAndReturn { unique_id, result } => ActionView::DropPendingAndReturn(
                unique_id@,
                result_view(*result),
            ),
            CallAction::Return(result) => ActionView::Return(result_view(*result)),
        }
    }
}

/// The event can follow the phase: a lookup answer in `Lookup`, the stored
/// entry in `Storing`, the queue's answer in `Sending`, and the end of the
/// wait (an answer, a call error, a closed channel or a time-out) in
/// `Waiting`.
pub open spec fn event_fits(phase: CallPhase, event: CallEvent) -> bool {
    match event {
        CallEvent::Found(_) => phase == CallPhase::Lookup,
        CallEvent::Stored => phase == CallPhase::Storing,
        CallEvent::Queued(_) => phase == CallPhase::Sending,
        CallEvent::Ended(o) => phase == CallPhase::Waiting && !(o is NotConnected) && !(o is QueueClosed),
    }
}

/// The next phase and action of a CALL of `action` with `payload` to
/// `cp_id` under `unique_id`: the pending entry is stored before the frame
/// is sent, a time-out drops it, and every end gives `call_result_spec`.
pub open spec fn call_step_spec(
    cp_id: Seq<char>,
    unique_id: Seq<char>,
    action: Seq<char>,
    payload: Seq<char>,
    event: CallEvent,
) -> (CallPhase, ActionView) {
    match event {
        CallEvent::Found(found) => if found {
            (CallPhase::Storing, ActionView::StorePending(unique_id, action))
        } else {
            (CallPhase::Done, ActionView::Return(call_result_spec(cp_id, CallOutcome::NotConnected)))
        },
        CallEvent::Stored => (
            CallPhase::Sending,
            ActionView::Send(
                array_text(frame_items(Frame::Call { unique_id, action, payload })),
            ),
        ),
        CallEvent::Queued(ok) => if ok {
            (CallPhase::Waiting, ActionView::Await)
        } else {
            (CallPhase::Done, ActionView::Return(call_result_spec(cp_id, CallOutcome::QueueClosed)))
        },
        CallEvent::Ended(o) => match o {
            CallOutcome::TimedOut => (
                CallPhase::Done,
                ActionView::DropPendingAndReturn(unique_id, call_result_spec(cp_id, o)),
            ),
            _ => (CallPhase::Done, ActionView::Return(call_result_spec(cp_id, o))),
        },
    }
}

/// One step of a CALL (see `call_step_spec`).
pub fn call_step(
    cp_id: &str,
    unique_id: &str,
    action: &str,
    payload: &str,
    phase: CallPhase,
    event: CallEvent,
) -> (r: (CallPhase, CallAction))
    requires
        event_fits(phase, event),
    ensures
        (r.0, r.1@) == call_step_spec(cp_id@, unique_id@, action@, payload@, event),
{
    match event {
        CallEvent::Found(found) => {
            if found {
                (
                    CallPhase::Storing,
                    CallAction::StorePending {
                        unique_id: String::from_str(unique_id),
                        action: String::from_str(action),
                    },
                )
            } else {
                (CallPhase::Done, CallAction::Return(call_result(cp_id, CallOutcome::NotConnected)))
            }
        },
        CallEvent::Stored => {
            let m = OcppMessage::Call {
                unique_id: String::from_str(unique_id),
                action: String::from_str(action),
                payload: String::from_str(payload),
            };
            (CallPhase::Sending, CallAction::Send(m.serialize()))
        },
        CallEvent::Queued(ok) => {
            if ok {
                (CallPhase::Waiting, CallAction::Await)
            } else {
                (CallPhase::Done, CallAction::Return(call_result(cp_id, CallOutcome::QueueClosed)))
            }
        },
        CallEvent::Ended(o) => {
            let timed_out = match o {
                CallOutcome::TimedOut => true,
                _ => false,
            };
            let result = call_result(cp_id, o);
            if timed_out {
                (
                    CallPhase::Done,
                    CallAction::DropPendingAndReturn { unique_id: String::from_str(unique_id), result },
                )
            } else {
                (CallPhase::Done, CallAction::Return(result))
            }
        },
    }
}

/// A CALL's frame is sent only right after its pending entry was stored,
/// and a CALL that timed out removes its pending entry.
pub proof fn lemma_call_order(
    cp_id: Seq<char>,
    unique_id: Seq<char>,
    action: Seq<char>,
    payload: Seq<char>,
    event: CallEvent,
)
    ensures
        call_step_spec(cp_id, unique_id, action, payload, event).1 is Send ==> event is Stored,
        event == CallEvent::Ended(CallOutcome::TimedOut) ==> call_step_spec(
            cp_id,
            unique_id,
            action,
            payload,
            event,
        ).1 == ActionView::DropPendingAndReturn(
            unique_id,
            Err("Timeout beim Warten auf Antwort von "@ + cp_id),
        ),
{
}

/// How a CALL ends: only an answered CALL succeeds, with the answer's
/// payload; a missing connection, a closed queue, a CALLERROR of the
/// wallbox, a closed answer channel and a time-out each end in their error.
pub proof fn lemma_call_endings(
    cp_id: Seq<char>,
    unique_id: Seq<char>,
    action: Seq<char>,
    payload: Seq<char>,
    event: CallEvent,
)
    ensures
        event == CallEvent::Found(false) ==> call_step_spec(cp_id, unique_id, action, payload, event)
            == (CallPhase::Done, ActionView::Return(Err("Wallbox "@ + cp_id + " ist nicht verbunden"@))),
        event == CallEvent::Queued(false) ==> call_step_spec(cp_id, unique_id, action, payload, event)
            == (CallPhase::Done, ActionView::Return(Err("WebSocket-Queue geschlossen"@))),
        event == CallEvent::Queued(true) ==> call_step_spec(cp_id, unique_id, action, payload, event)
            == (CallPhase::Waiting, ActionView::Await),
        match event {
            CallEvent::Ended(CallOutcome::Answered(p)) => call_step_spec(
                cp_id,
                unique_id,
                action,
                payload,
                event,
            ) == (CallPhase::Done, ActionView::Return(Ok(p@))),
            CallEvent::Ended(CallOutcome::Refused(e)) => call_step_spec(
                cp_id,
                unique_id,
                action,
                payload,
                event,
            ) == (CallPhase::Done, ActionView::Return(
                Err("Wallbox-Fehler: OCPP-CallError "@ + e.code@ + ": "@ + e.description@),
            )),
            _ => true,
        },
        event == CallEvent::Ended(CallOutcome::ChannelClosed) ==> call_step_spec(
            cp_id,
            unique_id,
            action,
            payload,
            event,
        ) == (CallPhase::Done, ActionView::Return(Err("Antwort-Kanal geschlossen"@))),
        event == CallEvent::Ended(CallOutcome::TimedOut) ==> call_step_spec(
            cp_id,
            unique_id,
            action,
            payload,
            event,
        ) == (CallPhase::Done, ActionView::DropPendingAndReturn(
            unique_id,
            Err("Timeout beim Warten auf Antwort von "@ + cp_id),
        )),
        match call_step_spec(cp_id, unique_id, action, payload, event).1 {
            ActionView::Return(Ok(_)) => event matches CallEvent::Ended(CallOutcome::Answered(_)),
            _ => true,
        },
        event == CallEvent::Found(true) ==> call_step_spec(cp_id, unique_id, action, payload, event)
            == (CallPhase::Storing, ActionView::StorePending(unique_id, action)),
        event == CallEvent::Stored ==> call_step_spec(cp_id, unique_id, action, payload, event) == (
            CallPhase::Sending,
            ActionView::Send(
                "[2,"@ + json_quote(unique_id) + ","@ + json_quote(action) + ","@ + payload + "]"@,
            ),
        ),
{
    reveal_strlit("[2,");
    reveal_strlit(",");
    reveal_strlit("]");
    if event == CallEvent::Stored {
        let it = frame_items(Frame::Call { unique_id, action, payload });
        assert(dec_int(2) == seq!['2']);
        crate::ocpp::wire::lemma_join3(it[0], it[1], it[2]);
        assert(it =~= seq![it[0], it[1], it[2]].push(it[3]));
        crate::ocpp::wire::lemma_join_push(seq![it[0], it[1], it[2]], it[3]);
        assert(array_text(it) =~= "[2,"@ + json_quote(unique_id) + ","@ + json_quote(action) + ","@
            + payload + "]"@);
    }
    match event {
        CallEvent::Ended(o) => {
            match o {
                CallOutcome::Answered(p) => {
                    assert(call_result_spec(cp_id, o) == Ok::<Seq<char>, Seq<char>>(p@));
                },
                _ => {},
            }
        },
        _ => {},
    }
}

} // verus!
