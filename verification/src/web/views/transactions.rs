//! Transaction list and CSV export: which transactions a user sees, the
//! energy shown for each, and the CSV document.

use vstd::prelude::*;

use crate::num::{dec_int, fmt_i64};
use crate::text::{chars_of, string_of};

verus! {

/// One row of the transaction list.
pub struct TxRow {
    pub id: i64,
    pub wallbox_name: String,
    pub connector_id: i64,
    pub id_tag: String,
    pub employee_name: Option<String>,
    pub start_time: String,
    pub stop_time: Option<String>,
    /// Charged energy, formatted; for a running transaction the latest
    /// metered value, `None` while there is none.
    pub energy_kwh: Option<String>,
    /// Current charging power, formatted; only for running transactions.
    pub power_kw: Option<String>,
}

/// Query filter of the list: part of an employee's (or guest label's) name.
pub struct Filter {
    pub employee: Option<String>,
}

/// Which transactions a list or export shows.
#[derive(PartialEq, Eq, Structural, Clone, Copy, Debug)]
pub enum TxScopeKind {
    /// Those of the employee linked to the user with this id.
    Mine,
    /// Those whose employee name or guest label is `LIKE` the pattern.
    NameLike,
    /// All of them.
    All,
}

/// Which transactions a list or export shows, with its query argument.
pub struct TxScope {
    pub kind: TxScopeKind,
    pub user_id: i64,
    pub pattern: String,
}

/// A non-admin sees only their own transactions; an admin sees those
/// matching a non-empty name filter (`%name%`), or all.
pub fn tx_scope(is_admin: bool, user_id: i64, filter: &Filter) -> (s: TxScope)
    ensures
        !is_admin ==> s.kind == TxScopeKind::Mine && s.user_id == user_id,
        is_admin ==> match filter.employee {
            Some(name) => if name@.len() > 0 {
                s.kind == TxScopeKind::NameLike && s.pattern@ == seq!['%'] + name@ + seq!['%']
            } else {
                s.kind == TxScopeKind::All
            },
            None => s.kind == TxScopeKind::All,
        },
{
    if !is_admin {
        return TxScope { kind: TxScopeKind::Mine, user_id, pattern: String::new() };
    }
    match &filter.employee {
        Some(name) => {
            if name.as_str().is_empty() {
                TxScope { kind: TxScopeKind::All, user_id, pattern: String::new() }
            } else {
                let mut p = String::from_str("%");
                p.append(name.as_str());
                p.append("%");
                proof {
                    reveal_strlit("%");
                }
                TxScope { kind: TxScopeKind::NameLike, user_id, pattern: p }
            }
        },
        None => TxScope { kind: TxScopeKind::All, user_id, pattern: String::new() },
    }
}

/// Energy of a finished transaction: stop minus start meter value, never
/// below 0; `None` while it has no stop value.
pub open spec fn finished_energy(stop_meter_wh: Option<i64>, start_meter_wh: i64) -> Option<int> {
    match stop_meter_wh {
        Some(s) => Some(if s - start_meter_wh > 0 { s - start_meter_wh } else { 0 }),
        None => None,
    }
}

/// The meter difference does not overflow `i64`.
pub open spec fn meter_diff_fits(stop_meter_wh: Option<i64>, start_meter_wh: i64) -> bool {
    match stop_meter_wh {
        Some(s) => i64::MIN <= s - start_meter_wh <= i64::MAX,
        None => true,
    }
}

pub fn tx_energy_wh(stop_meter_wh: Option<i64>, start_meter_wh: i64) -> (r: Option<i64>)
    requires
        meter_diff_fits(stop_meter_wh, start_meter_wh),
    ensures
        match r {
            Some(v) => finished_energy(stop_meter_wh, start_meter_wh) == Some(v as int),
            None => finished_energy(stop_meter_wh, start_meter_wh) is None,
        },
{
    match stop_meter_wh {
        Some(s) => {
            let d = s - start_meter_wh;
            Some(if d > 0 { d } else { 0 })
        },
        None => None,
    }
}

// ---------------------------------------------------------------------------
// CSV.

pub open spec fn csv_special(c: char) -> bool {
    c == ';' || c == '"' || c == '\n' || c == '\r'
}

pub open spec fn has_csv_special(s: Seq<char>) -> bool {
    exists|k: int| 0 <= k < s.len() && csv_special(#[trigger] s[k])
}

/// Every `"` doubled.
pub open spec fn double_quotes(s: Seq<char>) -> Seq<char>
    decreases s.len(),
{
    if s.len() == 0 {
        Seq::empty()
    } else {
        double_quotes(s.drop_last()) + if s.last() == '"' {
            seq!['"', '"']
        } else {
            seq![s.last()]
        }
    }
}

/// A CSV field: quoted, with `"` doubled, when it holds `;`, `"`, `\n` or
/// `\r`; as it is otherwise.
pub open spec fn csv_escape_spec(s: Seq<char>) -> Seq<char> {
    if has_csv_special(s) {
        seq!['"'] + double_quotes(s) + seq!['"']
    } else {
        s
    }
}

/// Pairs of `"` read back as one.
pub open spec fn undouble(s: Seq<char>) -> Seq<char>
    decreases s.len(),
{
    if s.len() == 0 {
        Seq::empty()
    } else if s.len() >= 2 && s[0] == '"' && s[1] == '"' {
        seq!['"'] + undouble(s.subrange(2, s.len() as int))
    } else {
        seq![s[0]] + undouble(s.drop_first())
    }
}

/// How a CSV reader reads one field: a quoted field loses its quotes and
/// doubled `"`s; any other field is read as it is.
pub open spec fn csv_unescape(f: Seq<char>) -> Seq<char> {
    if f.len() >= 2 && f[0] == '"' && f.last() == '"' {
        undouble(f.subrange(1, f.len() - 1))
    } else {
        f
    }
}

proof fn lemma_double_quotes_concat(a: Seq<char>, b: Seq<char>)
    ensures
        double_quotes(a + b) == double_quotes(a) + double_quotes(b),
    decreases b.len(),
{
    if b.len() == 0 {
        assert(a + b =~= a);
        assert(double_quotes(a) + double_quotes(b) =~= double_quotes(a));
    } else {
        lemma_double_quotes_concat(a, b.drop_last());
        assert((a + b).drop_last() =~= a + b.drop_last());
        assert((a + b).last() == b.last());
        assert(double_quotes(a + b) =~= double_quotes(a) + double_quotes(b));
    }
}

proof fn lemma_undouble_double(s: Seq<char>)
    ensures
        undouble(double_quotes(s)) == s,
    decreases s.len(),
{
    if s.len() > 0 {
        let c = s[0];
        let t = s.drop_first();
        assert(s =~= seq![c] + t);
        lemma_double_quotes_concat(seq![c], t);
        assert(seq![c].drop_last() =~= Seq::<char>::empty());
        assert(seq![c].last() == c);
        assert(double_quotes(Seq::<char>::empty()) =~= Seq::<char>::empty());
        let dc = double_quotes(seq![c]);
        assert(dc == double_quotes(seq![c].drop_last()) + if c == '"' {
            seq!['"', '"']
        } else {
            seq![c]
        });
        lemma_undouble_double(t);
        let d = double_quotes(s);
        if c == '"' {
            assert(dc =~= seq!['"', '"']);
            assert(d.subrange(2, d.len() as int) =~= double_quotes(t));
        } else {
            assert(dc =~= seq![c]);
            assert(d.drop_first() =~= double_quotes(t));
        }
        assert(undouble(d) =~= s);
    }
}

/// A CSV reader reads back exactly the text the export escaped.
pub proof fn lemma_csv_escape_roundtrip(s: Seq<char>)
    ensures
        csv_unescape(csv_escape_spec(s)) == s,
{
    if has_csv_special(s) {
        let e = csv_escape_spec(s);
        lemma_undouble_double(s);
        assert(e.subrange(1, e.len() - 1) =~= double_quotes(s));
    } else {
        if s.len() >= 2 && s[0] == '"' {
            assert(csv_special(s[0]));
        }
    }
}

fn escape_into(out: &mut Vec<char>, s: &[char])
    ensures
        final(out)@ == old(out)@ + csv_escape_spec(s@),
{
    let mut special = false;
    let mut k: usize = 0;
    while k < s.len()
        invariant
            k <= s@.len(),
            special <==> exists|j: int| 0 <= j < k && csv_special(#[trigger] s@[j]),
        decreases s@.len() - k,
    {
        let c = s[k];
        if c == ';' || c == '"' || c == '\n' || c == '\r' {
            special = true;
        }
        k += 1;
    }
    if !special {
        let ghost start = out@;
        let mut j: usize = 0;
        while j < s.len()
            invariant
                j <= s@.len(),
                out@ =~= start + s@.subrange(0, j as int),
            decreases s@.len() - j,
        {
            out.push(s[j]);
            j += 1;
        }
        assert(s@.subrange(0, s@.len() as int) =~= s@);
        return ;
    }
    out.push('"');
    let ghost start = out@;
    let mut j: usize = 0;
    while j < s.len()
        invariant
            j <= s@.len(),
            out@ == start + double_quotes(s@.subrange(0, j as int)),
        decreases s@.len() - j,
    {
        let ghost before = out@;
        let c = s[j];
        out.push(c);
        if c == '"' {
            out.push('"');
        }
        proof {
            let nxt = s@.subrange(0, j + 1);
            assert(nxt.drop_last() =~= s@.subrange(0, j as int));
            assert(nxt.last() == c);
            assert(out@ =~= before + if c == '"' {
                seq!['"', '"']
            } else {
                seq![c]
            });
        }
        j += 1;
    }
    out.push('"');
    assert(s@.subrange(0, s@.len() as int) =~= s@);
}

/// A text as a CSV field (see `csv_escape_spec`).
pub fn csv_escape(s: &str) -> (r: String)
    ensures
        r@ == csv_escape_spec(s@),
{
    let cs = chars_of(s);
    let mut out: Vec<char> = Vec::new();
    escape_into(&mut out, cs.as_slice());
    string_of(out.as_slice())
}

/// A transaction as the export reads it.
pub struct ExportRow {
    pub id: i64,
    pub wallbox_name: String,
    pub connector_id: i64,
    pub id_tag: String,
    pub employee_name: Option<String>,
    pub start_time: String,
    pub stop_time: Option<String>,
    pub stop_meter_wh: Option<i64>,
    pub start_meter_wh: i64,
    pub stop_reason: Option<String>,
}

pub open spec fn opt_text(o: Option<String>) -> Seq<char> {
    match o {
        Some(s) => s@,
        None => Seq::empty(),
    }
}

/// Energy the export writes for a row: the live value for a running
/// transaction, the finished energy (0 without a stop value) otherwise.
pub open spec fn export_energy(r: ExportRow, live_wh: i64) -> int {
    if r.stop_time is None {
        live_wh as int
    } else {
        match finished_energy(r.stop_meter_wh, r.start_meter_wh) {
            Some(v) => v,
            None => 0,
        }
    }
}

pub open spec fn semi() -> Seq<char> {
    seq![';']
}

/// One CSV line: `id;wallbox;connector;id_tag;employee;start;end;energy_wh;reason`.
pub open spec fn csv_line(r: ExportRow, live_wh: i64) -> Seq<char> {
    dec_int(r.id as int) + semi() + csv_escape_spec(r.wallbox_name@) + semi() + dec_int(
        r.connector_id as int,
    ) + semi() + csv_escape_spec(r.id_tag@) + semi() + csv_escape_spec(opt_text(r.employee_name))
        + semi() + r.start_time@ + semi() + opt_text(r.stop_time) + semi() + dec_int(
        export_energy(r, live_wh),
    ) + semi() + csv_escape_spec(opt_text(r.stop_reason)) + seq!['\n']
}

pub open spec fn csv_header() -> Seq<char> {
    seq!['\u{FEFF}'] + "id;wallbox;connector;id_tag;mitarbeiter;start;ende;energie_wh;grund\n"@
}

/// The lines of the first `n` rows.
pub open spec fn csv_lines(rows: Seq<ExportRow>, live: Seq<i64>, n: int) -> Seq<char>
    decreases n,
{
    if n <= 0 {
        Seq::empty()
    } else {
        csv_lines(rows, live, n - 1) + csv_line(rows[n - 1], live[n - 1])
    }
}

/// The export document: byte order mark, header line, one line per row.
pub open spec fn csv_document(rows: Seq<ExportRow>, live: Seq<i64>) -> Seq<char> {
    csv_header() + csv_lines(rows, live, rows.len() as int)
}

fn push_chars(out: &mut Vec<char>, s: &[char])
    ensures
        final(out)@ == old(out)@ + s@,
{
    let ghost start = out@;
    let mut j: usize = 0;
    while j < s.len()
        invariant
            j <= s@.len(),
            out@ =~= start + s@.subrange(0, j as int),
        decreases s@.len() - j,
    {
        out.push(s[j]);
        j += 1;
    }
    assert(s@.subrange(0, s@.len() as int) =~= s@);
}

fn push_text(out: &mut Vec<char>, s: &str)
    ensures
        final(out)@ == old(out)@ + s@,
{
    let cs = chars_of(s);
    push_chars(out, cs.as_slice());
}

fn push_opt_text(out: &mut Vec<char>, s: &Option<String>)
    ensures
        final(out)@ == old(out)@ + opt_text(*s),
{
    match s {
        Some(t) => push_text(out, t.as_str()),
        None => {},
    }
}

fn escape_opt_into(out: &mut Vec<char>, s: &Option<String>)
    ensures
        final(out)@ == old(out)@ + csv_escape_spec(opt_text(*s)),
{
    match s {
        Some(t) => {
            let cs = chars_of(t.as_str());
            escape_into(out, cs.as_slice());
        },
        None => {
            escape_into(out, &[]);
        },
    }
}

fn push_line(out: &mut Vec<char>, r: &ExportRow, live_wh: i64)
    requires
        meter_diff_fits(r.stop_meter_wh, r.start_meter_wh),
    ensures
        final(out)@ == old(out)@ + csv_line(*r, live_wh),
{
    let ghost start = out@;
    let id = fmt_i64(r.id);
    push_chars(out, id.as_slice());
    out.push(';');
    let w = chars_of(r.wallbox_name.as_str());
    escape_into(out, w.as_slice());
    out.push(';');
    let ghost p1 = dec_int(r.id as int) + semi() + csv_escape_spec(r.wallbox_name@) + semi();
    assert(out@ =~= start + p1);
    let cid = fmt_i64(r.connector_id);
    push_chars(out, cid.as_slice());
    out.push(';');
    let tag = chars_of(r.id_tag.as_str());
    escape_into(out, tag.as_slice());
    out.push(';');
    let ghost p2 = p1 + dec_int(r.connector_id as int) + semi() + csv_escape_spec(r.id_tag@) + semi();
    assert(out@ =~= start + p2);
    escape_opt_into(out, &r.employee_name);
    out.push(';');
    push_text(out, r.start_time.as_str());
    out.push(';');
    push_opt_text(out, &r.stop_time);
    out.push(';');
    let ghost p3 = p2 + csv_escape_spec(opt_text(r.employee_name)) + semi() + r.start_time@ + semi()
        + opt_text(r.stop_time) + semi();
    assert(out@ =~= start + p3);
    let energy: i64 = match r.stop_time {
        None => live_wh,
        Some(_) => match tx_energy_wh(r.stop_meter_wh, r.start_meter_wh) {
            Some(v) => v,
            None => 0,
        },
    };
    assert(energy == export_energy(*r, live_wh));
    let e = fmt_i64(energy);
    push_chars(out, e.as_slice());
    out.push(';');
    escape_opt_into(out, &r.stop_reason);
    out.push('\n');
    let ghost p4 = p3 + dec_int(energy as int) + semi() + csv_escape_spec(opt_text(r.stop_reason))
        + seq!['\n'];
    assert(out@ =~= start + p4);
    assert(p4 =~= csv_line(*r, live_wh));
}

/// The CSV export of the rows; `live[k]` is the current energy of row `k`
/// when that transaction is still running (ignored otherwise).
pub fn export_csv_document(rows: &Vec<ExportRow>, live: &Vec<i64>) -> (r: String)
    requires
        live@.len() == rows@.len(),
        forall|k: int|
            0 <= k < rows@.len() ==> meter_diff_fits(
                #[trigger] rows@[k].stop_meter_wh,
                rows@[k].start_meter_wh,
            ),
    ensures
        r@ == csv_document(rows@, live@),
{
    let mut out: Vec<char> = Vec::new();
    out.push('\u{FEFF}');
    push_text(&mut out, "id;wallbox;connector;id_tag;mitarbeiter;start;ende;energie_wh;grund\n");
    let ghost head = out@;
    assert(head =~= csv_header());
    let mut k: usize = 0;
    while k < rows.len()
        invariant
            k <= rows@.len(),
            live@.len() == rows@.len(),
            forall|j: int|
                0 <= j < rows@.len() ==> meter_diff_fits(
                    #[trigger] rows@[j].stop_meter_wh,
                    rows@[j].start_meter_wh,
                ),
            out@ =~= head + csv_lines(rows@, live@, k as int),
        decreases rows@.len() - k,
    {
        push_line(&mut out, &rows[k], live[k]);
        k += 1;
    }
    string_of(out.as_slice())
}

} // verus!
