//! OCPP wire frames (JSON over WebSocket), shared by 1.6J and 2.0.1.
//!
//! A frame is a JSON array:
//!   `[2, "<uniqueId>", "<Action>", <payload>]`                  CALL
//!   `[3, "<uniqueId>", <payload>]`                              CALLRESULT
//!   `[4, "<uniqueId>", "<errorCode>", "<errorDescription>", <errorDetails>]` CALLERROR
//!
//! Payloads are carried as JSON text (compact, as `serde_json` writes it).

use vstd::prelude::*;

use crate::num::{dec_int, fmt_i64};
use crate::text::{chars_of, string_of};

verus! {

/// One element of a JSON array, as far as framing reads it: its value as
/// `i64` (`Value::as_i64`), its value as a string (`Value::as_str`), and its
/// compact JSON text (`Value::to_string`).
pub struct JsonItem {
    pub int: Option<i64>,
    pub text: Option<String>,
    pub raw: String,
}

impl View for JsonItem {
    type V = (Option<int>, Option<Seq<char>>, Seq<char>);

    open spec fn view(&self) -> Self::V {
        (
            match self.int {
                Some(i) => Some(i as int),
                None => None,
            },
            match self.text {
                Some(s) => Some(s@),
                None => None,
            },
            self.raw@,
        )
    }
}

/// What `serde_json::from_str::<Vec<Value>>` makes of a text: the elements of
/// the array, or the error's message.
pub uninterp spec fn json_array_parse(raw: Seq<char>) -> Result<Seq<(Option<int>, Option<Seq<char>>, Seq<char>)>, Seq<char>>;

/// Calls `serde_json::from_str::<Vec<serde_json::Value>>` and hands out each
/// element through `as_i64`, `as_str` and `to_string`; on failure the error's
/// `Display` text. The contract names the result: equal texts give equal
/// results, nothing more is claimed.
#[verifier::external_body]
fn json_array_items(raw: &str) -> (r: Result<Vec<JsonItem>, String>)
    ensures
        match r {
            Ok(items) => json_array_parse(raw@) == Ok::<Seq<(Option<int>, Option<Seq<char>>, Seq<char>)>, Seq<char>>(items@.map_values(|x: JsonItem| x@)),
            Err(m) => json_array_parse(raw@) == Err::<Seq<(Option<int>, Option<Seq<char>>, Seq<char>)>, Seq<char>>(m@),
        },
{
    match serde_json::from_str::<Vec<serde_json::Value>>(raw) {
        Ok(arr) => Ok(
            arr.iter().map(
                |v| JsonItem { int: v.as_i64(), text: v.as_str().map(|s| s.to_string()), raw: v.to_string() },
            ).collect(),
        ),
        Err(e) => Err(e.to_string()),
    }
}

/// An OCPP `CALLERROR` as a value.
#[derive(Debug, Clone)]
pub struct OcppCallError {
    pub code: String,
    pub description: String,
}

impl OcppCallError {
    /// `OCPP-CallError <code>: <description>`, the text the error displays.
    pub fn message(&self) -> (r: String)
        ensures
            r@ == "OCPP-CallError "@ + self.code@ + ": "@ + self.description@,
    {
        let mut s = String::from_str("OCPP-CallError ");
        s.append(self.code.as_str());
        s.append(": ");
        s.append(self.description.as_str());
        s
    }
}

/// One OCPP frame.
#[derive(Debug, Clone)]
pub enum OcppMessage {
    Call { unique_id: String, action: String, payload: String },
    CallResult { unique_id: String, payload: String },
    CallError {
        unique_id: String,
        error_code: String,
        error_description: String,
        error_details: String,
    },
}

/// A frame with its texts as character sequences.
pub enum Frame {
    Call { unique_id: Seq<char>, action: Seq<char>, payload: Seq<char> },
    CallResult { unique_id: Seq<char>, payload: Seq<char> },
    CallError {
        unique_id: Seq<char>,
        error_code: Seq<char>,
        error_description: Seq<char>,
        error_details: Seq<char>,
    },
}

impl View for OcppMessage {
    type V = Frame;

    open spec fn view(&self) -> Frame {
        match self {
            OcppMessage::Call { unique_id, action, payload } => Frame::Call {
                unique_id: unique_id@,
                action: action@,
                payload: payload@,
            },
            OcppMessage::CallResult { unique_id, payload } => Frame::CallResult {
                unique_id: unique_id@,
                payload: payload@,
            },
            OcppMessage::CallError { unique_id, error_code, error_description, error_details } =>
                Frame::CallError {
                unique_id: unique_id@,
                error_code: error_code@,
                error_description: error_description@,
                error_details: error_details@,
            },
        }
    }
}

/// `as_str().unwrap_or("")` of an element.
pub open spec fn item_str(it: (Option<int>, Option<Seq<char>>, Seq<char>)) -> Seq<char> {
    match it.1 {
        Some(s) => s,
        None => Seq::empty(),
    }
}

/// The frame that the elements of a JSON array make, or why they make none.
pub open spec fn frame_of_items(items: Seq<(Option<int>, Option<Seq<char>>, Seq<char>)>) -> Result<Frame, Seq<char>> {
    if items.len() == 0 {
        Err("Leeres OCPP-Array"@)
    } else {
        match items[0].0 {
            None => Err("msgType muss Zahl sein"@),
            Some(t) => if t == 2 {
                if items.len() < 4 {
                    Err("CALL benötigt 4 Elemente"@)
                } else {
                    Ok(
                        Frame::Call {
                            unique_id: item_str(items[1]),
                            action: item_str(items[2]),
                            payload: items[3].2,
                        },
                    )
                }
            } else if t == 3 {
                Ok(
                    Frame::CallResult {
                        unique_id: item_str(items[1]),
                        payload: if items.len() > 2 {
                            items[2].2
                        } else {
                            "null"@
                        },
                    },
                )
            } else if t == 4 {
                Ok(
                    Frame::CallError {
                        unique_id: item_str(items[1]),
                        error_code: item_str(items[2]),
                        error_description: item_str(items[3]),
                        error_details: if items.len() > 4 {
                            items[4].2
                        } else {
                            "null"@
                        },
                    },
                )
            } else {
                Err("Unbekannter OCPP-msgType "@ + dec_int(t))
            },
        }
    }
}

/// The elements can be framed without indexing past the end: a CALLRESULT
/// has a unique id, a CALLERROR has code and description.
pub open spec fn items_frameable(items: Seq<(Option<int>, Option<Seq<char>>, Seq<char>)>) -> bool {
    items.len() > 0 ==> {
        &&& items[0].0 == Some(3int) ==> items.len() >= 2
        &&& items[0].0 == Some(4int) ==> items.len() >= 4
    }
}

/// The result of `OcppMessage::parse` on a text, given what `serde_json` made of it.
pub open spec fn parse_spec(raw: Seq<char>) -> Result<Frame, Seq<char>> {
    match json_array_parse(raw) {
        Err(e) => Err("JSON: "@ + e),
        Ok(items) => frame_of_items(items),
    }
}

pub open spec fn parse_would_index_past_end(raw: Seq<char>) -> bool {
    match json_array_parse(raw) {
        Err(_) => false,
        Ok(items) => !items_frameable(items),
    }
}

fn item_string(it: &JsonItem) -> (r: String)
    ensures
        r@ == item_str(it@),
{
    match &it.text {
        Some(s) => s.clone(),
        None => String::new(),
    }
}

fn copy_string(s: &String) -> (r: String)
    ensures
        r@ == s@,
{
    s.clone()
}

pub open spec fn message_result_view(r: Result<OcppMessage, String>) -> Result<Frame, Seq<char>> {
    match r {
        Ok(m) => Ok(m@),
        Err(e) => Err(e@),
    }
}

impl OcppMessage {
    /// Frames the elements of a parsed JSON array.
    pub fn from_items(items: &Vec<JsonItem>) -> (r: Result<OcppMessage, String>)
        requires
            items_frameable(items@.map_values(|x: JsonItem| x@)),
        ensures
            message_result_view(r) == frame_of_items(items@.map_values(|x: JsonItem| x@)),
    {
        let ghost v = items@.map_values(|x: JsonItem| x@);
        if items.len() == 0 {
            return Err(String::from_str("Leeres OCPP-Array"));
        }
        assert(v[0] == items@[0]@);
        let msg_type = match items[0].int {
            Some(t) => t,
            None => {
                return Err(String::from_str("msgType muss Zahl sein"));
            },
        };
        if msg_type == 2 {
            if items.len() < 4 {
                return Err(String::from_str("CALL benötigt 4 Elemente"));
            }
            assert(v[1] == items@[1]@ && v[2] == items@[2]@ && v[3] == items@[3]@);
            Ok(
                OcppMessage::Call {
                    unique_id: item_string(&items[1]),
                    action: item_string(&items[2]),
                    payload: copy_string(&items[3].raw),
                },
            )
        } else if msg_type == 3 {
            assert(v[1] == items@[1]@);
            let payload = if items.len() > 2 {
                assert(v[2] == items@[2]@);
                copy_string(&items[2].raw)
            } else {
                String::from_str("null")
            };
            Ok(OcppMessage::CallResult { unique_id: item_string(&items[1]), payload })
        } else if msg_type == 4 {
            assert(v[1] == items@[1]@ && v[2] == items@[2]@ && v[3] == items@[3]@);
            let details = if items.len() > 4 {
                assert(v[4] == items@[4]@);
                copy_string(&items[4].raw)
            } else {
                String::from_str("null")
            };
            Ok(
                OcppMessage::CallError {
                    unique_id: item_string(&items[1]),
                    error_code: item_string(&items[2]),
                    error_description: item_string(&items[3]),
                    error_details: details,
                },
            )
        } else {
            let mut m: Vec<char> = chars_of("Unbekannter OCPP-msgType ");
            let digits = fmt_i64(msg_type);
            let ghost head = m@;
            let mut k: usize = 0;
            while k < digits.len()
                invariant
                    k <= digits@.len(),
                    m@ =~= head + digits@.subrange(0, k as int),
                decreases digits@.len() - k,
            {
                m.push(digits[k]);
                k += 1;
            }
            assert(digits@.subrange(0, digits@.len() as int) =~= digits@);
            Err(string_of(m.as_slice()))
        }
    }

    /// Frames what `serde_json` made of a text (see `parse`).
    fn from_parsed(parsed: Result<Vec<JsonItem>, String>) -> (r: Result<OcppMessage, String>)
        requires
            parsed matches Ok(items) ==> items_frameable(items@.map_values(|x: JsonItem| x@)),
        ensures
            message_result_view(r) == (match parsed {
                Err(e) => Err("JSON: "@ + e@),
                Ok(items) => frame_of_items(items@.map_values(|x: JsonItem| x@)),
            }),
    {
        match parsed {
            Err(e) => {
                let mut m = String::from_str("JSON: ");
                m.append(e.as_str());
                Err(m)
            },
            Ok(items) => OcppMessage::from_items(&items),
        }
    }

    /// Reads one frame from its JSON text.
    pub fn parse(raw: &str) -> (r: Result<OcppMessage, String>)
        requires
            !parse_would_index_past_end(raw@),
        ensures
            message_result_view(r) == parse_spec(raw@),
    {
        OcppMessage::from_parsed(json_array_items(raw))
    }

    /// Reads one frame from its JSON text; `None` for the texts on which
    /// `parse` would index past the end of the array.
    pub fn try_parse(raw: &str) -> (r: Option<Result<OcppMessage, String>>)
        ensures
            match r {
                None => parse_would_index_past_end(raw@),
                Some(x) => !parse_would_index_past_end(raw@) && message_result_view(x)
                    == parse_spec(raw@),
            },
    {
        let parsed = json_array_items(raw);
        if !parsed_frameable(&parsed) {
            return None;
        }
        Some(OcppMessage::parse(raw))
    }
}

/// Whether the parsed elements (if the text parsed) can be framed without
/// indexing past the end (see `items_frameable`).
fn parsed_frameable(parsed: &Result<Vec<JsonItem>, String>) -> (b: bool)
    ensures
        b == (parsed matches Ok(items) ==> items_frameable(items@.map_values(|x: JsonItem| x@))),
{
    match parsed {
        Err(_) => true,
        Ok(items) => {
            if items.len() == 0 {
                return true;
            }
            let ghost v = items@.map_values(|x: JsonItem| x@);
            assert(v[0] == items@[0]@);
            match items[0].int {
                Some(t) => !(t == 3 && items.len() < 2) && !(t == 4 && items.len() < 4),
                None => true,
            }
        },
    }
}

// ---------------------------------------------------------------------------
// Writing frames.

/// Lower-case hexadecimal digit of `d` (`0 <= d < 16`).
pub open spec fn hex_digit(d: int) -> char {
    if d < 10 {
        ((48 + d) as u8) as char
    } else {
        ((87 + d) as u8) as char
    }
}

/// How `serde_json` writes one character inside a string literal.
pub open spec fn json_escape_char(c: char) -> Seq<char> {
    if c == '"' {
        seq!['\\', '"']
    } else if c == '\\' {
        seq!['\\', '\\']
    } else if c == '\x08' {
        seq!['\\', 'b']
    } else if c == '\x0C' {
        seq!['\\', 'f']
    } else if c == '\n' {
        seq!['\\', 'n']
    } else if c == '\r' {
        seq!['\\', 'r']
    } else if c == '\t' {
        seq!['\\', 't']
    } else if (c as u32) < 0x20 {
        seq!['\\', 'u', '0', '0', hex_digit(((c as u32) / 16) as int), hex_digit(((c as u32) % 16) as int)]
    } else {
        seq![c]
    }
}

pub open spec fn json_escape(s: Seq<char>) -> Seq<char>
    decreases s.len(),
{
    if s.len() == 0 {
        Seq::empty()
    } else {
        json_escape(s.drop_last()) + json_escape_char(s.last())
    }
}

/// A JSON string literal for `s`, as `serde_json::to_string(&s)` writes it.
pub open spec fn json_quote(s: Seq<char>) -> Seq<char> {
    seq!['"'] + json_escape(s) + seq!['"']
}

/// A string element: no integer value, the string itself, its literal.
pub open spec fn str_item(s: Seq<char>) -> (Option<int>, Option<Seq<char>>, Seq<char>) {
    (None, Some(s), json_quote(s))
}

/// An integer element.
pub open spec fn int_item(i: int) -> (Option<int>, Option<Seq<char>>, Seq<char>) {
    (Some(i), None, dec_int(i))
}

/// An element given by its JSON text alone.
pub open spec fn raw_item(t: Seq<char>) -> (Option<int>, Option<Seq<char>>, Seq<char>) {
    (None, None, t)
}

/// The array elements a frame is written as.
pub open spec fn frame_items(f: Frame) -> Seq<(Option<int>, Option<Seq<char>>, Seq<char>)> {
    match f {
        Frame::Call { unique_id, action, payload } => seq![
            int_item(2),
            str_item(unique_id),
            str_item(action),
            raw_item(payload),
        ],
        Frame::CallResult { unique_id, payload } => seq![
            int_item(3),
            str_item(unique_id),
            raw_item(payload),
        ],
        Frame::CallError { unique_id, error_code, error_description, error_details } => seq![
            int_item(4),
            str_item(unique_id),
            str_item(error_code),
            str_item(error_description),
            raw_item(error_details),
        ],
    }
}

/// Element texts separated by commas.
pub open spec fn join_items(items: Seq<(Option<int>, Option<Seq<char>>, Seq<char>)>) -> Seq<char>
    decreases items.len(),
{
    if items.len() == 0 {
        Seq::empty()
    } else if items.len() == 1 {
        items[0].2
    } else {
        join_items(items.drop_last()) + seq![','] + items.last().2
    }
}

/// A compact JSON array of the elements' texts.
pub open spec fn array_text(items: Seq<(Option<int>, Option<Seq<char>>, Seq<char>)>) -> Seq<char> {
    seq!['['] + join_items(items) + seq![']']
}

/// Appends the JSON string literal of `s`.
pub(crate) fn push_json_quoted(out: &mut Vec<char>, s: &str)
    ensures
        final(out)@ == old(out)@ + json_quote(s@),
{
    let cs = chars_of(s);
    out.push('"');
    let ghost start = out@;
    let mut k: usize = 0;
    while k < cs.len()
        invariant
            k <= cs@.len(),
            out@ == start + json_escape(cs@.subrange(0, k as int)),
        decreases cs@.len() - k,
    {
        let c = cs[k];
        let ghost before = out@;
        if c == '"' {
            out.push('\\');
            out.push('"');
        } else if c == '\\' {
            out.push('\\');
            out.push('\\');
        } else if c == '\x08' {
            out.push('\\');
            out.push('b');
        } else if c == '\x0C' {
            out.push('\\');
            out.push('f');
        } else if c == '\n' {
            out.push('\\');
            out.push('n');
        } else if c == '\r' {
            out.push('\\');
            out.push('r');
        } else if c == '\t' {
            out.push('\\');
            out.push('t');
        } else if (c as u32) < 0x20 {
            let v = c as u32;
            let hi = (v / 16) as u8;
            let lo = (v % 16) as u8;
            out.push('\\');
            out.push('u');
            out.push('0');
            out.push('0');
            out.push(if hi < 10 { (48u8 + hi) as char } else { (87u8 + hi) as char });
            out.push(if lo < 10 { (48u8 + lo) as char } else { (87u8 + lo) as char });
        } else {
            out.push(c);
        }
        proof {
            let pre = cs@.subrange(0, k as int);
            let nxt = cs@.subrange(0, k + 1);
            assert(nxt.drop_last() =~= pre);
            assert(nxt.last() == c);
            assert(out@ =~= before + json_escape_char(c));
        }
        k += 1;
    }
    out.push('"');
    proof {
        assert(cs@.subrange(0, cs@.len() as int) =~= cs@);
    }
}

pub(crate) fn push_str(out: &mut Vec<char>, s: &str)
    ensures
        final(out)@ == old(out)@ + s@,
{
    let cs = chars_of(s);
    let ghost start = out@;
    let mut k: usize = 0;
    while k < cs.len()
        invariant
            k <= cs@.len(),
            out@ =~= start + cs@.subrange(0, k as int),
        decreases cs@.len() - k,
    {
        out.push(cs[k]);
        k += 1;
    }
    assert(cs@.subrange(0, cs@.len() as int) =~= cs@);
}

pub(crate) proof fn lemma_join3(a: (Option<int>, Option<Seq<char>>, Seq<char>), b: (Option<int>, Option<Seq<char>>, Seq<char>), c: (Option<int>, Option<Seq<char>>, Seq<char>))
    ensures
        join_items(seq![a, b, c]) == a.2 + seq![','] + b.2 + seq![','] + c.2,
{
    assert(seq![a, b, c].drop_last() =~= seq![a, b]);
    assert(seq![a, b].drop_last() =~= seq![a]);
    assert(join_items(seq![a]) == a.2);
    assert(join_items(seq![a, b]) == a.2 + seq![','] + b.2);
    assert(join_items(seq![a, b, c]) == join_items(seq![a, b]) + seq![','] + c.2);
    assert(join_items(seq![a, b, c]) =~= a.2 + seq![','] + b.2 + seq![','] + c.2);
}

pub(crate) proof fn lemma_join_push(items: Seq<(Option<int>, Option<Seq<char>>, Seq<char>)>, x: (Option<int>, Option<Seq<char>>, Seq<char>))
    requires
        items.len() >= 1,
    ensures
        join_items(items.push(x)) == join_items(items) + seq![','] + x.2,
{
    assert(items.push(x).drop_last() =~= items);
}

impl OcppMessage {
    /// The frame's JSON text: a compact array of its elements.
    pub fn serialize(&self) -> (r: String)
        ensures
            r@ == array_text(frame_items(self@)),
    {
        let mut out: Vec<char> = Vec::new();
        match self {
            OcppMessage::Call { unique_id, action, payload } => {
                push_str(&mut out, "[2,");
                push_json_quoted(&mut out, unique_id.as_str());
                out.push(',');
                push_json_quoted(&mut out, action.as_str());
                out.push(',');
                push_str(&mut out, payload.as_str());
                out.push(']');
                proof {
                    let it = frame_items(self@);
                    lemma_join3(it[0], it[1], it[2]);
                    assert(it =~= seq![it[0], it[1], it[2]].push(it[3]));
                    lemma_join_push(seq![it[0], it[1], it[2]], it[3]);
                    reveal_strlit("[2,");
                    assert(dec_int(2) == seq!['2']);
                    assert(out@ =~= array_text(it));
                }
            },
            OcppMessage::CallResult { unique_id, payload } => {
                push_str(&mut out, "[3,");
                push_json_quoted(&mut out, unique_id.as_str());
                out.push(',');
                push_str(&mut out, payload.as_str());
                out.push(']');
                proof {
                    let it = frame_items(self@);
                    lemma_join3(it[0], it[1], it[2]);
                    reveal_strlit("[3,");
                    assert(dec_int(3) == seq!['3']);
                    assert(out@ =~= array_text(it));
                }
            },
            OcppMessage::CallError { unique_id, error_code, error_description, error_details } => {
                push_str(&mut out, "[4,");
                push_json_quoted(&mut out, unique_id.as_str());
                out.push(',');
                push_json_quoted(&mut out, error_code.as_str());
                out.push(',');
                push_json_quoted(&mut out, error_description.as_str());
                out.push(',');
                push_str(&mut out, error_details.as_str());
                out.push(']');
                proof {
                    let it = frame_items(self@);
                    lemma_join3(it[0], it[1], it[2]);
                    assert(seq![it[0], it[1], it[2]].push(it[3]) =~= seq![it[0], it[1], it[2], it[3]]);
                    lemma_join_push(seq![it[0], it[1], it[2]], it[3]);
                    assert(it =~= seq![it[0], it[1], it[2], it[3]].push(it[4]));
                    lemma_join_push(seq![it[0], it[1], it[2], it[3]], it[4]);
                    reveal_strlit("[4,");
                    assert(dec_int(4) == seq!['4']);
                    assert(out@ =~= array_text(it));
                }
            },
        }
        string_of(out.as_slice())
    }
}

/// Reading back the elements a frame is written as gives the frame again.
pub proof fn lemma_frame_items_roundtrip(f: Frame)
    ensures
        items_frameable(frame_items(f)),
        frame_of_items(frame_items(f)) == Ok::<Frame, Seq<char>>(f),
{
    match f {
        Frame::Call { unique_id, action, payload } => {},
        Frame::CallResult { unique_id, payload } => {},
        Frame::CallError { unique_id, error_code, error_description, error_details } => {},
    }
}

/// How a text is read as a frame: a JSON error is reported after `JSON: `;
/// an empty array, a type that is not an integer, a CALL with fewer than
/// four elements and an unknown type are refused with their messages; a
/// CALL carries elements 1 to 3, a CALLRESULT element 1 and the payload
/// (`null` when missing), a CALLERROR elements 1 to 3 and the details
/// (`null` when missing). A string element is read as its text, any other as
/// empty text.
pub proof fn lemma_reading_frames(raw: Seq<char>)
    ensures
        match json_array_parse(raw) {
            Err(e) => parse_spec(raw) == Err::<Frame, Seq<char>>("JSON: "@ + e),
            Ok(items) => {
                &&& items.len() == 0 ==> parse_spec(raw) == Err::<Frame, Seq<char>>("Leeres OCPP-Array"@)
                &&& items.len() > 0 && items[0].0 is None ==> parse_spec(raw) == Err::<Frame, Seq<char>>(
                    "msgType muss Zahl sein"@,
                )
                &&& items.len() > 0 && items[0].0 == Some(2int) && items.len() < 4 ==> parse_spec(raw)
                    == Err::<Frame, Seq<char>>("CALL benötigt 4 Elemente"@)
                &&& items.len() > 0 && items[0].0 == Some(2int) && items.len() >= 4 ==> parse_spec(raw)
                    == Ok::<Frame, Seq<char>>(
                    Frame::Call {
                        unique_id: match items[1].1 { Some(t) => t, None => Seq::empty() },
                        action: match items[2].1 { Some(t) => t, None => Seq::empty() },
                        payload: items[3].2,
                    },
                )
                &&& items.len() >= 2 && items[0].0 == Some(3int) ==> parse_spec(raw) == Ok::<Frame, Seq<char>>(
                    Frame::CallResult {
                        unique_id: match items[1].1 { Some(t) => t, None => Seq::empty() },
                        payload: if items.len() >= 3 { items[2].2 } else { "null"@ },
                    },
                )
                &&& items.len() >= 4 && items[0].0 == Some(4int) ==> parse_spec(raw) == Ok::<Frame, Seq<char>>(
                    Frame::CallError {
                        unique_id: match items[1].1 { Some(t) => t, None => Seq::empty() },
                        error_code: match items[2].1 { Some(t) => t, None => Seq::empty() },
                        error_description: match items[3].1 { Some(t) => t, None => Seq::empty() },
                        error_details: if items.len() >= 5 { items[4].2 } else { "null"@ },
                    },
                )
                &&& items.len() > 0 && items[0].0 is Some && items[0].0->0 != 2 && items[0].0->0 != 3
                    && items[0].0->0 != 4 ==> parse_spec(raw) == Err::<Frame, Seq<char>>(
                    "Unbekannter OCPP-msgType "@ + dec_int(items[0].0->0),
                )
            },
        },
{
}

/// How a character is written inside a JSON string (as serde_json writes
/// it): `"` and `\` behind a backslash, the usual short escapes for
/// backspace, form feed, newline, carriage return and tab, the other control
/// characters as `\u00` and two lower-case hex digits, everything else as
/// it is.
pub proof fn lemma_json_escape_chars(c: char)
    ensures
        c == '"' ==> json_escape_char(c) == "\\\""@,
        c == '\\' ==> json_escape_char(c) == "\\\\"@,
        c == '\x08' ==> json_escape_char(c) == "\\b"@,
        c == '\x0C' ==> json_escape_char(c) == "\\f"@,
        c == '\n' ==> json_escape_char(c) == "\\n"@,
        c == '\r' ==> json_escape_char(c) == "\\r"@,
        c == '\t' ==> json_escape_char(c) == "\\t"@,
        (c as u32) < 0x20 && c != '\x08' && c != '\x0C' && c != '\n' && c != '\r' && c != '\t'
            ==> json_escape_char(c) == "\\u00"@ + seq![
            "0123456789abcdef"@[((c as u32) / 16) as int],
            "0123456789abcdef"@[((c as u32) % 16) as int],
        ],
        (c as u32) >= 0x20 && c != '"' && c != '\\' ==> json_escape_char(c) == seq![c],
{
    reveal_strlit("\\\"");
    reveal_strlit("\\\\");
    reveal_strlit("\\b");
    reveal_strlit("\\f");
    reveal_strlit("\\n");
    reveal_strlit("\\r");
    reveal_strlit("\\t");
    reveal_strlit("\\u00");
    reveal_strlit("0123456789abcdef");
    if (c as u32) < 0x20 {
        let hi = ((c as u32) / 16) as int;
        let lo = ((c as u32) % 16) as int;
        assert(0 <= hi < 2);
        assert(hex_digit(hi) == "0123456789abcdef"@[hi]);
        assert(0 <= lo < 16);
        assert(hex_digit(lo) == "0123456789abcdef"@[lo]) by {
            if lo == 0 {} else if lo == 1 {} else if lo == 2 {} else if lo == 3 {} else if lo == 4 {}
            else if lo == 5 {} else if lo == 6 {} else if lo == 7 {} else if lo == 8 {}
            else if lo == 9 {} else if lo == 10 {} else if lo == 11 {} else if lo == 12 {}
            else if lo == 13 {} else if lo == 14 {} else {}
        }
    }
}

} // verus!
