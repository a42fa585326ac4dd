//! OCPP 1.5 over SOAP: the endpoint answers `BootNotification` and
//! `Heartbeat` with a minimal response and every other action with a SOAP
//! fault. This module reads the request and writes the answer; the HTTP
//! plumbing, the clock and the database stay with the caller.

use vstd::prelude::*;

use crate::text::{chars_of, eq_chars, find_chars, first_match, is_ws, lemma_first_match_props, lemma_trim_slice, matches_at, string_of, sub_chars, trim, trim_chars, concat_chars};

verus! {

/// Value of the first `<ns:tag>…</ns:tag>` (or `<tag>…`) element of an XML
/// text: what follows the opening tag up to the next `<`, trimmed.
pub open spec fn extract_spec(xml: Seq<char>, tag: Seq<char>) -> Option<Seq<char>> {
    let open = seq![':'] + tag + seq!['>'];
    let alt = seq!['<'] + tag + seq!['>'];
    let start = match first_match(xml, open, 0) {
        Some(i) => Some(i + open.len()),
        None => match first_match(xml, alt, 0) {
            Some(i) => Some(i + alt.len()),
            None => None,
        },
    };
    match start {
        None => None,
        Some(st) => {
            let rest = xml.subrange(st, xml.len() as int);
            match first_match(rest, seq!['<'], 0) {
                None => None,
                Some(e) => Some(trim(rest.subrange(0, e))),
            }
        },
    }
}

/// What the reader extracts is element text: it holds no `<` and has no
/// whitespace at either end.
pub proof fn lemma_extracted_value_shape(xml: Seq<char>, tag: Seq<char>)
    ensures
        extract_spec(xml, tag) matches Some(v) ==> {
            &&& forall|k: int| 0 <= k < v.len() ==> v[k] != '<'
            &&& v.len() > 0 ==> !is_ws(v[0]) && !is_ws(v.last())
        },
{
    let open = seq![':'] + tag + seq!['>'];
    let alt = seq!['<'] + tag + seq!['>'];
    let start = match first_match(xml, open, 0) {
        Some(i) => Some(i + open.len()),
        None => match first_match(xml, alt, 0) {
            Some(i) => Some(i + alt.len()),
            None => None,
        },
    };
    if let Some(st) = start {
        let rest = xml.subrange(st, xml.len() as int);
        lemma_first_match_props(rest, seq!['<'], 0);
        if let Some(e) = first_match(rest, seq!['<'], 0) {
            let x = rest.subrange(0, e);
            assert forall|k: int| 0 <= k < x.len() implies x[k] != '<' by {
                assert(!matches_at(rest, seq!['<'], k));
                if x[k] == '<' {
                    assert(rest.subrange(k, k + 1) =~= seq!['<']);
                }
            }
            let (a, b) = lemma_trim_slice(x);
            let v = trim(x);
            assert forall|k: int| 0 <= k < v.len() implies v[k] != '<' by {
                assert(v[k] == x[a + k]);
            }
        }
    }
}

/// Minimal XML reader: the trimmed text of the first element named `tag`,
/// with or without a namespace prefix; `None` when there is none or it is
/// not closed.
pub fn extract_header_value(xml: &str, tag: &str) -> (r: Option<String>)
    ensures
        match r {
            Some(v) => extract_spec(xml@, tag@) == Some(v@),
            None => extract_spec(xml@, tag@) is None,
        },
{
    let x = chars_of(xml);
    let t = chars_of(tag);
    let mut open: Vec<char> = Vec::new();
    open.push(':');
    let open = concat_chars(open.as_slice(), t.as_slice());
    let mut open = open;
    open.push('>');
    let mut alt: Vec<char> = Vec::new();
    alt.push('<');
    let mut alt = concat_chars(alt.as_slice(), t.as_slice());
    alt.push('>');
    assert(open@ =~= seq![':'] + tag@ + seq!['>']);
    assert(alt@ =~= seq!['<'] + tag@ + seq!['>']);
    proof {
        lemma_first_match_props(x@, open@, 0);
        lemma_first_match_props(x@, alt@, 0);
    }
    let start: usize = match find_chars(x.as_slice(), open.as_slice()) {
        Some(i) => {
            let xl = x.len();
            assert(i + open@.len() <= xl);
            i + open.len()
        },
        None => match find_chars(x.as_slice(), alt.as_slice()) {
            Some(i) => {
                let xl = x.len();
                assert(i + alt@.len() <= xl);
                i + alt.len()
            },
            None => {
                return None;
            },
        },
    };
    let rest = sub_chars(x.as_slice(), start, x.len());
    let mut lt: Vec<char> = Vec::new();
    lt.push('<');
    proof {
        lemma_first_match_props(rest@, lt@, 0);
    }
    match find_chars(rest.as_slice(), lt.as_slice()) {
        None => None,
        Some(e) => {
            let v = sub_chars(rest.as_slice(), 0, e);
            let tv = trim_chars(v.as_slice());
            Some(string_of(tv.as_slice()))
        },
    }
}

// ---------------------------------------------------------------------------
// Reading the request.

/// Leading `c`s removed.
pub open spec fn strip_start(s: Seq<char>, c: char) -> Seq<char>
    decreases s.len(),
{
    if s.len() > 0 && s[0] == c {
        strip_start(s.drop_first(), c)
    } else {
        s
    }
}

/// Trailing `c`s removed.
pub open spec fn strip_end(s: Seq<char>, c: char) -> Seq<char>
    decreases s.len(),
{
    if s.len() > 0 && s.last() == c {
        strip_end(s.drop_last(), c)
    } else {
        s
    }
}

/// `str::trim_matches(c)`.
pub open spec fn trim_matches(s: Seq<char>, c: char) -> Seq<char> {
    strip_end(strip_start(s, c), c)
}

/// What follows the last `c` (`str::rsplit(c).next()`); all of `s` when it
/// holds none.
pub open spec fn after_last(s: Seq<char>, c: char) -> Seq<char>
    decreases s.len(),
{
    if s.len() == 0 {
        s
    } else if s.last() == c {
        Seq::empty()
    } else {
        after_last(s.drop_last(), c).push(s.last())
    }
}

fn strip_start_exec(s: &[char], c: char) -> (r: usize)
    ensures
        r <= s@.len(),
        strip_start(s@, c) == s@.subrange(r as int, s@.len() as int),
{
    let mut i: usize = 0;
    assert(s@.subrange(0, s@.len() as int) =~= s@);
    while i < s.len() && s[i] == c
        invariant
            i <= s@.len(),
            strip_start(s@, c) == strip_start(s@.subrange(i as int, s@.len() as int), c),
        decreases s@.len() - i,
    {
        let ghost t = s@.subrange(i as int, s@.len() as int);
        assert(t.drop_first() =~= s@.subrange(i + 1, s@.len() as int));
        i += 1;
    }
    i
}

fn strip_end_exec(s: &[char], from: usize, c: char) -> (r: usize)
    requires
        from <= s@.len(),
    ensures
        from <= r <= s@.len(),
        strip_end(s@.subrange(from as int, s@.len() as int), c) == s@.subrange(from as int, r as int),
{
    let mut j: usize = s.len();
    assert(s@.subrange(from as int, s@.len() as int) =~= s@.subrange(from as int, j as int));
    while j > from && s[j - 1] == c
        invariant
            from <= j <= s@.len(),
            strip_end(s@.subrange(from as int, s@.len() as int), c) == strip_end(
                s@.subrange(from as int, j as int),
                c,
            ),
        decreases j,
    {
        let ghost t = s@.subrange(from as int, j as int);
        assert(t.drop_last() =~= s@.subrange(from as int, j - 1));
        j -= 1;
    }
    j
}

fn trim_matches_exec(s: &[char], c: char) -> (r: Vec<char>)
    ensures
        r@ == trim_matches(s@, c),
{
    let i = strip_start_exec(s, c);
    let j = strip_end_exec(s, i, c);
    sub_chars(s, i, j)
}

fn after_last_exec(s: &[char], c: char) -> (r: Vec<char>)
    ensures
        r@ == after_last(s@, c),
{
    let mut j: usize = s.len();
    assert(s@.subrange(0, s@.len() as int) =~= s@);
    assert(s@.subrange(s@.len() as int, s@.len() as int) =~= Seq::<char>::empty());
    assert(after_last(s@, c) + Seq::<char>::empty() =~= after_last(s@, c));
    while j > 0 && s[j - 1] != c
        invariant
            j <= s@.len(),
            after_last(s@, c) == after_last(s@.subrange(0, j as int), c) + s@.subrange(
                j as int,
                s@.len() as int,
            ),
        decreases j,
    {
        let ghost t = s@.subrange(0, j as int);
        assert(t.drop_last() =~= s@.subrange(0, j - 1));
        assert(s@.subrange(j - 1, s@.len() as int) =~= seq![s@[j - 1]] + s@.subrange(
            j as int,
            s@.len() as int,
        ));
        assert(after_last(t, c) == after_last(t.drop_last(), c).push(t.last()));
        assert(after_last(s@.subrange(0, j - 1), c).push(s@[j - 1]) + s@.subrange(
            j as int,
            s@.len() as int,
        ) =~= after_last(s@.subrange(0, j - 1), c) + s@.subrange(j - 1, s@.len() as int));
        j -= 1;
    }
    proof {
        assert(s@.subrange(0, s@.len() as int) =~= s@);
        let t = s@.subrange(0, j as int);
        if j > 0 {
            assert(t.last() == c);
        }
        assert(after_last(t, c) =~= Seq::<char>::empty());
        assert(Seq::<char>::empty() + s@.subrange(j as int, s@.len() as int) =~= s@.subrange(j as int, s@.len() as int));
    }
    sub_chars(s, j, s.len())
}

/// What a request asks for.
#[derive(PartialEq, Eq, Structural, Clone, Copy, Debug)]
pub enum SoapKind {
    BootNotification,
    Heartbeat,
    Other,
}

/// A request as the endpoint reads it.
pub struct SoapRequest {
    /// `SOAPAction` header with surrounding quotes removed.
    pub soap_action: String,
    /// Its last path segment, the action's name.
    pub action: String,
    pub kind: SoapKind,
    /// The `chargeBoxIdentity` of the SOAP header; empty when missing.
    pub cp_id: String,
}

pub open spec fn kind_of(action: Seq<char>) -> SoapKind {
    if action == "BootNotification"@ {
        SoapKind::BootNotification
    } else if action == "Heartbeat"@ {
        SoapKind::Heartbeat
    } else {
        SoapKind::Other
    }
}

pub open spec fn header_text(h: Option<String>) -> Seq<char> {
    match h {
        Some(s) => s@,
        None => Seq::empty(),
    }
}

fn eq_str_chars(a: &[char], b: &str) -> (r: bool)
    ensures
        r == (a@ == b@),
{
    let bc = chars_of(b);
    eq_chars(a, bc.as_slice())
}

/// Reads a request from its `SOAPAction` header (if present and readable)
/// and its body.
pub fn read_soap_request(soap_action_header: Option<String>, body: &str) -> (r: SoapRequest)
    ensures
        r.soap_action@ == trim_matches(header_text(soap_action_header), '"'),
        r.action@ == after_last(r.soap_action@, '/'),
        r.kind == kind_of(r.action@),
        r.cp_id@ == (match extract_spec(body@, "chargeBoxIdentity"@) {
            Some(v) => v,
            None => Seq::empty(),
        }),
{
    let h = match &soap_action_header {
        Some(s) => chars_of(s.as_str()),
        None => Vec::new(),
    };
    let sa = trim_matches_exec(h.as_slice(), '"');
    let act = after_last_exec(sa.as_slice(), '/');
    let kind = if eq_str_chars(act.as_slice(), "BootNotification") {
        SoapKind::BootNotification
    } else if eq_str_chars(act.as_slice(), "Heartbeat") {
        SoapKind::Heartbeat
    } else {
        SoapKind::Other
    };
    let cp_id = match extract_header_value(body, "chargeBoxIdentity") {
        Some(v) => v,
        None => String::new(),
    };
    SoapRequest {
        soap_action: string_of(sa.as_slice()),
        action: string_of(act.as_slice()),
        kind,
        cp_id,
    }
}

/// The wallbox's record is written (boot) or touched (heartbeat) only for a
/// known action with a charge point id.
pub fn touches_wallbox(req: &SoapRequest) -> (b: bool)
    ensures
        b == (req.kind != SoapKind::Other && req.cp_id@.len() > 0),
{
    req.kind != SoapKind::Other && !req.cp_id.as_str().is_empty()
}

// ---------------------------------------------------------------------------
// Writing the answer.

pub const BOOT_HEAD: &'static str = r#"<?xml version="1.0" encoding="UTF-8"?>
<soap:Envelope xmlns:soap="http://www.w3.org/2003/05/soap-envelope"
               xmlns:cs="urn://Ocpp/Cs/2012/06/">
  <soap:Body>
    <cs:bootNotificationResponse>
      <cs:status>Accepted</cs:status>
      <cs:currentTime>"#;

pub const BOOT_TAIL: &'static str = r#"</cs:currentTime>
      <cs:heartbeatInterval>60</cs:heartbeatInterval>
    </cs:bootNotificationResponse>
  </soap:Body>
</soap:Envelope>"#;

pub const HEARTBEAT_HEAD: &'static str = r#"<?xml version="1.0" encoding="UTF-8"?>
<soap:Envelope xmlns:soap="http://www.w3.org/2003/05/soap-envelope"
               xmlns:cs="urn://Ocpp/Cs/2012/06/">
  <soap:Body>
    <cs:heartbeatResponse>
      <cs:currentTime>"#;

pub const HEARTBEAT_TAIL: &'static str = r#"</cs:currentTime>
    </cs:heartbeatResponse>
  </soap:Body>
</soap:Envelope>"#;

pub const FAULT_HEAD: &'static str = r#"<?xml version="1.0" encoding="UTF-8"?>
<soap:Envelope xmlns:soap="http://www.w3.org/2003/05/soap-envelope">
  <soap:Body>
    <soap:Fault>
      <soap:Code><soap:Value>soap:Receiver</soap:Value></soap:Code>
      <soap:Reason><soap:Text xml:lang="de">Action '"#;

pub const FAULT_TAIL: &'static str = r#"' im 1.5-SOAP-Endpoint nicht implementiert.</soap:Text></soap:Reason>
    </soap:Fault>
  </soap:Body>
</soap:Envelope>"#;

/// Answer to a `BootNotification`: accepted, with the server time and a
/// heartbeat interval of 60 s.
pub fn boot_response(now: &str) -> (r: String)
    ensures
        r@ == BOOT_HEAD@ + now@ + BOOT_TAIL@,
{
    let mut s = String::from_str(BOOT_HEAD);
    s.append(now);
    s.append(BOOT_TAIL);
    s
}

/// Answer to a `Heartbeat`: the server time.
pub fn heartbeat_response(now: &str) -> (r: String)
    ensures
        r@ == HEARTBEAT_HEAD@ + now@ + HEARTBEAT_TAIL@,
{
    let mut s = String::from_str(HEARTBEAT_HEAD);
    s.append(now);
    s.append(HEARTBEAT_TAIL);
    s
}

/// SOAP fault naming the action that is not implemented.
pub fn fault_response(action: &str) -> (r: String)
    ensures
        r@ == FAULT_HEAD@ + action@ + FAULT_TAIL@,
{
    let mut s = String::from_str(FAULT_HEAD);
    s.append(action);
    s.append(FAULT_TAIL);
    s
}

/// The answer to a request, given the current time (RFC 3339).
pub fn soap_response(req: &SoapRequest, now: &str) -> (r: String)
    ensures
        r@ == (match req.kind {
            SoapKind::BootNotification => BOOT_HEAD@ + now@ + BOOT_TAIL@,
            SoapKind::Heartbeat => HEARTBEAT_HEAD@ + now@ + HEARTBEAT_TAIL@,
            SoapKind::Other => FAULT_HEAD@ + req.action@ + FAULT_TAIL@,
        }),
{
    match req.kind {
        SoapKind::BootNotification => boot_response(now),
        SoapKind::Heartbeat => heartbeat_response(now),
        SoapKind::Other => fault_response(req.action.as_str()),
    }
}

/// Only the exact action names `BootNotification` and `Heartbeat` are
/// answered; every other action is of kind `Other`, answered with the fault
/// that names it.
pub proof fn lemma_request_kinds(action: Seq<char>)
    ensures
        kind_of(action) == SoapKind::BootNotification <==> action == "BootNotification"@,
        kind_of(action) == SoapKind::Heartbeat <==> action == "Heartbeat"@,
        kind_of(action) == SoapKind::Other <==> (action != "BootNotification"@ && action
            != "Heartbeat"@),
{
    reveal_strlit("BootNotification");
    reveal_strlit("Heartbeat");
    assert("BootNotification"@.len() == 16);
    assert("Heartbeat"@.len() == 9);
}

/// The SOAP answers: a boot notification is accepted with a heartbeat
/// interval of 60 seconds, a heartbeat is answered with the time, and any
/// other action gets a receiver fault naming it as not implemented.
pub proof fn lemma_soap_answer_texts()
    ensures
        BOOT_HEAD@ == r#"<?xml version="1.0" encoding="UTF-8"?>
<soap:Envelope xmlns:soap="http://www.w3.org/2003/05/soap-envelope"
               xmlns:cs="urn://Ocpp/Cs/2012/06/">
  <soap:Body>
    <cs:bootNotificationResponse>
      <cs:status>Accepted</cs:status>
      <cs:currentTime>"#@,
        BOOT_TAIL@ == r#"</cs:currentTime>
      <cs:heartbeatInterval>60</cs:heartbeatInterval>
    </cs:bootNotificationResponse>
  </soap:Body>
</soap:Envelope>"#@,
        HEARTBEAT_HEAD@ == r#"<?xml version="1.0" encoding="UTF-8"?>
<soap:Envelope xmlns:soap="http://www.w3.org/2003/05/soap-envelope"
               xmlns:cs="urn://Ocpp/Cs/2012/06/">
  <soap:Body>
    <cs:heartbeatResponse>
      <cs:currentTime>"#@,
        HEARTBEAT_TAIL@ == r#"</cs:currentTime>
    </cs:heartbeatResponse>
  </soap:Body>
</soap:Envelope>"#@,
        FAULT_HEAD@ == r#"<?xml version="1.0" encoding="UTF-8"?>
<soap:Envelope xmlns:soap="http://www.w3.org/2003/05/soap-envelope">
  <soap:Body>
    <soap:Fault>
      <soap:Code><soap:Value>soap:Receiver</soap:Value></soap:Code>
      <soap:Reason><soap:Text xml:lang="de">Action '"#@,
        FAULT_TAIL@ == r#"' im 1.5-SOAP-Endpoint nicht implementiert.</soap:Text></soap:Reason>
    </soap:Fault>
  </soap:Body>
</soap:Envelope>"#@,
{
    reveal_strlit(r#"<?xml version="1.0" encoding="UTF-8"?>
<soap:Envelope xmlns:soap="http://www.w3.org/2003/05/soap-envelope"
               xmlns:cs="urn://Ocpp/Cs/2012/06/">
  <soap:Body>
    <cs:bootNotificationResponse>
      <cs:status>Accepted</cs:status>
      <cs:currentTime>"#);
    reveal_strlit(r#"</cs:currentTime>
      <cs:heartbeatInterval>60</cs:heartbeatInterval>
    </cs:bootNotificationResponse>
  </soap:Body>
</soap:Envelope>"#);
    reveal_strlit(r#"<?xml version="1.0" encoding="UTF-8"?>
<soap:Envelope xmlns:soap="http://www.w3.org/2003/05/soap-envelope"
               xmlns:cs="urn://Ocpp/Cs/2012/06/">
  <soap:Body>
    <cs:heartbeatResponse>
      <cs:currentTime>"#);
    reveal_strlit(r#"</cs:currentTime>
    </cs:heartbeatResponse>
  </soap:Body>
</soap:Envelope>"#);
    reveal_strlit(r#"<?xml version="1.0" encoding="UTF-8"?>
<soap:Envelope xmlns:soap="http://www.w3.org/2003/05/soap-envelope">
  <soap:Body>
    <soap:Fault>
      <soap:Code><soap:Value>soap:Receiver</soap:Value></soap:Code>
      <soap:Reason><soap:Text xml:lang="de">Action '"#);
    reveal_strlit(r#"' im 1.5-SOAP-Endpoint nicht implementiert.</soap:Text></soap:Reason>
    </soap:Fault>
  </soap:Body>
</soap:Envelope>"#);
}

} // verus!
