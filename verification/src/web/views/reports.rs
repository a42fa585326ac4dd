//! Monthly report: one section per employee listing the month's finished
//! charging sessions. This module checks the requested month, derives the
//! query period, groups the rows and formats the texts; drawing the PDF is
//! left to the caller.

use vstd::prelude::*;

use crate::error::AppError;
use crate::num::{dec_int, dec_int_padded, dec_nat, fmt_i32_padded, fmt_i64, fmt_u64, fmt_u64_padded};
use crate::text::{chars_of, string_of};

verus! {

/// Query parameters of the report.
pub struct Filter {
    pub year: Option<i32>,
    pub month: Option<u32>,
}

// ---------------------------------------------------------------------------
// Dates, through chrono.

/// Earliest and latest year `chrono::NaiveDate` represents.
pub open spec fn min_year() -> int {
    -262143
}

pub open spec fn max_year() -> int {
    262142
}

/// The year as RFC 3339 writes it: four digits for 0..=9999, otherwise
/// with an explicit sign (at least five characters).
pub open spec fn rfc3339_year(year: int) -> Seq<char> {
    if 0 <= year <= 9999 {
        dec_int_padded(year, 4)
    } else if year < 0 {
        dec_int_padded(year, 5)
    } else {
        seq!['+'] + dec_nat(year as nat)
    }
}

/// A UTC date and time (whole seconds) as chrono's `to_rfc3339` writes it:
/// `YYYY-MM-DDTHH:MM:SS+00:00`.
pub open spec fn rfc3339_utc_text(year: int, month: int, day: int, hour: int, minute: int, second: int) -> Seq<char> {
    rfc3339_year(year) + seq!['-'] + dec_int_padded(month, 2) + seq!['-'] + dec_int_padded(day, 2)
        + seq!['T'] + dec_int_padded(hour, 2) + seq![':'] + dec_int_padded(minute, 2) + seq![':']
        + dec_int_padded(second, 2) + "+00:00"@
}

/// `NaiveDate::from_ymd_opt` and `and_hms_opt`, taken as UTC
/// (`Utc.from_utc_datetime`) and written by `to_rfc3339`. chrono accepts the
/// first day of a month exactly when the month is 1..=12 and the year lies
/// in its range, and a time exactly when hour, minute and second are in
/// range; its text is `rfc3339_utc_text`. Left unsaid: which other days
/// chrono accepts.
#[verifier::external_body]
fn utc_rfc3339(year: i32, month: u32, day: u32, hour: u32, minute: u32, second: u32) -> (r: Option<String>)
    ensures
        1 <= month <= 12 && day == 1 && hour < 24 && minute < 60 && second < 60 ==> (r is Some
            <==> min_year() <= year <= max_year()),
        r matches Some(t) ==> t@ == rfc3339_utc_text(
            year as int,
            month as int,
            day as int,
            hour as int,
            minute as int,
            second as int,
        ),
{
    chrono::NaiveDate::from_ymd_opt(year, month, day).and_then(|d| d.and_hms_opt(hour, minute, second)).map(
        |dt| chrono::TimeZone::from_utc_datetime(&chrono::Utc, &dt).to_rfc3339(),
    )
}

/// A format string of the kinds the display uses: every `%` starts one of
/// `%d`, `%m`, `%Y`, `%H`, `%M`, `%S`.
pub open spec fn simple_strftime(f: Seq<char>) -> bool {
    forall|k: int|
        0 <= k < f.len() && #[trigger] f[k] == '%' ==> k + 1 < f.len() && (f[k + 1] == 'd' || f[k
            + 1] == 'm' || f[k + 1] == 'Y' || f[k + 1] == 'H' || f[k + 1] == 'M' || f[k + 1] == 'S')
}

/// What chrono makes of a timestamp: `DateTime::parse_from_rfc3339`, moved
/// to UTC, written with the format `fmt`; `None` when it does not parse.
pub uninterp spec fn rfc3339_formatted(s: Seq<char>, fmt: Seq<char>) -> Option<Seq<char>>;

/// Calls `DateTime::parse_from_rfc3339`, then `with_timezone(&Utc)` and
/// `format(fmt)`; `None` when the text does not parse. The result is named,
/// not stated.
#[verifier::external_body]
fn rfc3339_format_utc(s: &str, fmt: &str) -> (r: Option<String>)
    requires
        simple_strftime(fmt@),
    ensures
        match r {
            Some(t) => rfc3339_formatted(s@, fmt@) == Some(t@),
            None => rfc3339_formatted(s@, fmt@) is None,
        },
{
    chrono::DateTime::parse_from_rfc3339(s).ok().map(|dt| dt.with_timezone(&chrono::Utc).format(fmt).to_string())
}

/// The display format of timestamps: `dd.mm.yyyy HH:MM`.
pub open spec fn display_format() -> Seq<char> {
    "%d.%m.%Y %H:%M"@
}

pub open spec fn fmt_iso_spec(s: Seq<char>) -> Seq<char> {
    match rfc3339_formatted(s, display_format()) {
        Some(t) => t,
        None => s,
    }
}

/// A timestamp for display (`dd.mm.yyyy HH:MM`, UTC); the text itself when
/// it is not RFC 3339.
pub fn fmt_iso(s: &str) -> (r: String)
    ensures
        r@ == fmt_iso_spec(s@),
{
    let fmt = "%d.%m.%Y %H:%M";
    proof {
        reveal_strlit("%d.%m.%Y %H:%M");
        let f = fmt@;
        assert forall|k: int| 0 <= k < f.len() && #[trigger] f[k] == '%' implies k + 1 < f.len()
            && (f[k + 1] == 'd' || f[k + 1] == 'm' || f[k + 1] == 'Y' || f[k + 1] == 'H' || f[k + 1]
            == 'M' || f[k + 1] == 'S') by {
            assert(k == 0 || k == 3 || k == 6 || k == 9 || k == 12);
        }
    }
    match rfc3339_format_utc(s, fmt) {
        Some(t) => t,
        None => String::from_str(s),
    }
}

/// Start (inclusive) and end (exclusive) of the report month, RFC 3339.
pub struct ReportPeriod {
    pub start_iso: String,
    pub end_iso: String,
}

pub open spec fn next_month(year: int, month: int) -> (int, int) {
    if month == 12 {
        (year + 1, 1)
    } else {
        (year, month + 1)
    }
}

/// The query period of a report month. A month outside 1..=12 and a year
/// chrono cannot represent are bad requests.
pub fn report_period(year: i32, month: u32) -> (r: Result<ReportPeriod, AppError>)
    requires
        !(month == 12 && year == max_year()),
    ensures
        !(1 <= month <= 12) ==> (r matches Err(AppError::BadRequest(m)) && m@ == "Monat muss 1..12 sein."@),
        1 <= month <= 12 && !(min_year() <= year <= max_year()) ==> (r matches Err(AppError::BadRequest(m)) && m@ == "ungültiges Datum"@),
        1 <= month <= 12 && min_year() <= year <= max_year() ==> (r matches Ok(p)
            && p.start_iso@ == rfc3339_utc_text(year as int, month as int, 1, 0, 0, 0)
            && p.end_iso@ == rfc3339_utc_text(
            next_month(year as int, month as int).0,
            next_month(year as int, month as int).1,
            1,
            0,
            0,
            0,
        )),
{
    if !(1 <= month && month <= 12) {
        return Err(AppError::BadRequest(String::from_str("Monat muss 1..12 sein.")));
    }
    let start = match utc_rfc3339(year, month, 1, 0, 0, 0) {
        Some(s) => s,
        None => {
            return Err(AppError::BadRequest(String::from_str("ungültiges Datum")));
        },
    };
    let end = if month == 12 {
        utc_rfc3339(year + 1, 1, 1, 0, 0, 0)
    } else {
        utc_rfc3339(year, month + 1, 1, 0, 0, 0)
    };
    let end = end.unwrap();
    Ok(ReportPeriod { start_iso: start, end_iso: end })
}

/// `monatsbericht_YYYY-MM.pdf`, year padded to 4 and month to 2 digits.
pub fn report_filename(year: i32, month: u32) -> (r: String)
    ensures
        r@ == "monatsbericht_"@ + dec_int_padded(year as int, 4) + seq!['-'] + dec_int_padded(
            month as int,
            2,
        ) + ".pdf"@,
{
    let mut out: Vec<char> = chars_of("monatsbericht_");
    let y = fmt_i32_padded(year, 4);
    push_all(&mut out, &y);
    out.push('-');
    let m = fmt_u64_padded(month as u64, 2);
    push_all(&mut out, &m);
    let tail = chars_of(".pdf");
    push_all(&mut out, &tail);
    string_of(out.as_slice())
}

fn push_all(out: &mut Vec<char>, s: &Vec<char>)
    ensures
        final(out)@ == old(out)@ + s@,
{
    let ghost start = out@;
    let mut j: usize = 0;
    while j < s.len()
        invariant
            j <= s@.len(),
            out@ =~= start + s@.subrange(0, j as int),
        decreases s@.len() - j,
    {
        out.push(s[j]);
        j += 1;
    }
    assert(s@.subrange(0, s@.len() as int) =~= s@);
}

// ---------------------------------------------------------------------------
// Texts.

pub open spec fn month_name_spec(m: u32) -> Seq<char> {
    if m == 1 {
        "Januar"@
    } else if m == 2 {
        "Februar"@
    } else if m == 3 {
        "März"@
    } else if m == 4 {
        "April"@
    } else if m == 5 {
        "Mai"@
    } else if m == 6 {
        "Juni"@
    } else if m == 7 {
        "Juli"@
    } else if m == 8 {
        "August"@
    } else if m == 9 {
        "September"@
    } else if m == 10 {
        "Oktober"@
    } else if m == 11 {
        "November"@
    } else if m == 12 {
        "Dezember"@
    } else {
        ""@
    }
}

/// German name of a month (1..=12); empty otherwise.
pub fn month_name(m: u32) -> (r: &'static str)
    ensures
        r@ == month_name_spec(m),
{
    match m {
        1 => "Januar",
        2 => "Februar",
        3 => "März",
        4 => "April",
        5 => "Mai",
        6 => "Juni",
        7 => "Juli",
        8 => "August",
        9 => "September",
        10 => "Oktober",
        11 => "November",
        12 => "Dezember",
        _ => "",
    }
}

pub open spec fn truncate_spec(s: Seq<char>, max: int) -> Seq<char> {
    if s.len() <= max {
        s
    } else {
        s.take(max - 1).push('…')
    }
}

/// `s` cut to at most `max` characters, the last one an ellipsis where it
/// was cut.
pub fn truncate(s: &str, max: usize) -> (r: String)
    requires
        s@.len() <= max || max >= 1,
    ensures
        r@ == truncate_spec(s@, max as int),
{
    let cs = chars_of(s);
    if cs.len() <= max {
        return String::from_str(s);
    }
    let mut out: Vec<char> = Vec::new();
    let mut k: usize = 0;
    while k < max - 1
        invariant
            max >= 1,
            max - 1 < cs@.len(),
            k <= max - 1,
            out@ =~= cs@.take(k as int),
        decreases max - 1 - k,
    {
        out.push(cs[k]);
        k += 1;
    }
    out.push('…');
    string_of(out.as_slice())
}

/// What `truncate` keeps: at most `max` characters, and `s` unchanged when
/// it fits.
pub proof fn lemma_truncate_fits(s: Seq<char>, max: int)
    requires
        s.len() <= max || max >= 1,
    ensures
        truncate_spec(s, max).len() <= max,
        s.len() <= max ==> truncate_spec(s, max) == s,
        s.len() > max ==> truncate_spec(s, max).take(max - 1) == s.take(max - 1),
{
    if s.len() > max {
        assert(truncate_spec(s, max).take(max - 1) =~= s.take(max - 1));
    }
}

// ---------------------------------------------------------------------------
// Grouping.

/// A finished transaction of the month, as the report query returns it.
pub struct ReportRow {
    pub emp_id: i64,
    pub name: String,
    pub email: Option<String>,
    pub wallbox: String,
    pub id_tag: String,
    pub start_time: String,
    pub stop_time: Option<String>,
    pub energy_wh: i64,
    pub duration_sec: i64,
}

/// One listed session.
pub struct ReportLine {
    pub start: String,
    pub stop: String,
    pub wallbox: String,
    pub id_tag: String,
    pub energy_wh: i64,
    pub duration_min: i64,
}

/// An employee's section of the report.
pub struct ReportGroup {
    pub id: i64,
    pub name: String,
    pub email: Option<String>,
    pub rows: Vec<ReportLine>,
    pub total_wh: i64,
}

pub struct LineView {
    pub start: Seq<char>,
    pub stop: Seq<char>,
    pub wallbox: Seq<char>,
    pub id_tag: Seq<char>,
    pub energy_wh: int,
    pub duration_min: int,
}

pub struct GroupView {
    pub id: int,
    pub name: Seq<char>,
    pub email: Option<Seq<char>>,
    pub rows: Seq<LineView>,
    pub total_wh: int,
}

impl View for ReportLine {
    type V = LineView;

    open spec fn view(&self) -> LineView {
        LineView {
            start: self.start@,
            stop: self.stop@,
            wallbox: self.wallbox@,
            id_tag: self.id_tag@,
            energy_wh: self.energy_wh as int,
            duration_min: self.duration_min as int,
        }
    }
}

pub open spec fn opt_view(o: Option<String>) -> Option<Seq<char>> {
    match o {
        Some(s) => Some(s@),
        None => None,
    }
}

impl View for ReportGroup {
    type V = GroupView;

    open spec fn view(&self) -> GroupView {
        GroupView {
            id: self.id as int,
            name: self.name@,
            email: opt_view(self.email),
            rows: self.rows@.map_values(|l: ReportLine| l@),
            total_wh: self.total_wh as int,
        }
    }
}

/// The listed session of a row: times for display, energy as is, duration in
/// whole minutes (negative durations as 0).
pub open spec fn line_of(r: ReportRow) -> LineView {
    LineView {
        start: fmt_iso_spec(r.start_time@),
        stop: match r.stop_time {
            Some(t) => fmt_iso_spec(t@),
            None => Seq::empty(),
        },
        wallbox: r.wallbox@,
        id_tag: r.id_tag@,
        energy_wh: r.energy_wh as int,
        duration_min: if r.duration_sec > 0 {
            r.duration_sec / 60
        } else {
            0
        },
    }
}

pub open spec fn nonneg(v: int) -> int {
    if v > 0 {
        v
    } else {
        0
    }
}

/// Index of the first section of employee `id` at or after `from`.
pub open spec fn find_from(gs: Seq<GroupView>, id: int, from: int) -> Option<int>
    decreases gs.len() - from,
{
    if from < 0 || from >= gs.len() {
        None
    } else if gs[from].id == id {
        Some(from)
    } else {
        find_from(gs, id, from + 1)
    }
}

/// Rows grouped by employee id: one section per employee, in the order in
/// which employees first occur; each section lists all of that employee's
/// rows in order and sums their energy, negative values counted as 0.
pub open spec fn group_rows(rows: Seq<ReportRow>) -> Seq<GroupView>
    decreases rows.len(),
{
    if rows.len() == 0 {
        Seq::empty()
    } else {
        let g = group_rows(rows.drop_last());
        let r = rows.last();
        match find_from(g, r.emp_id as int, 0) {
            Some(i) => g.update(
                i,
                GroupView {
                    rows: g[i].rows.push(line_of(r)),
                    total_wh: g[i].total_wh + nonneg(r.energy_wh as int),
                    ..g[i]
                },
            ),
            None => g.push(
                GroupView {
                    id: r.emp_id as int,
                    name: r.name@,
                    email: opt_view(r.email),
                    rows: seq![line_of(r)],
                    total_wh: nonneg(r.energy_wh as int),
                },
            ),
        }
    }
}

/// Every group's energy sum fits `i64` at every point of the grouping.
pub open spec fn group_totals_fit(rows: Seq<ReportRow>) -> bool {
    forall|k: int, i: int|
        0 <= k <= rows.len() && 0 <= i < group_rows(rows.take(k)).len() ==> (#[trigger] group_rows(
            rows.take(k),
        )[i]).total_wh <= i64::MAX
}

/// The listed lines of the rows of employee `id`, in order.
pub open spec fn lines_of(rows: Seq<ReportRow>, id: int) -> Seq<LineView>
    decreases rows.len(),
{
    if rows.len() == 0 {
        Seq::empty()
    } else {
        lines_of(rows.drop_last(), id) + if rows.last().emp_id == id {
            seq![line_of(rows.last())]
        } else {
            Seq::empty()
        }
    }
}

/// Sum of the lines' energy, negative values counted as 0.
pub open spec fn lines_total(ls: Seq<LineView>) -> int
    decreases ls.len(),
{
    if ls.len() == 0 {
        0
    } else {
        lines_total(ls.drop_last()) + nonneg(ls.last().energy_wh)
    }
}

proof fn lemma_find_from(gs: Seq<GroupView>, id: int, from: int)
    requires
        from >= 0,
    ensures
        match find_from(gs, id, from) {
            Some(i) => from <= i < gs.len() && gs[i].id == id && forall|j: int|
                from <= j < i ==> (#[trigger] gs[j]).id != id,
            None => forall|j: int| from <= j < gs.len() ==> (#[trigger] gs[j]).id != id,
        },
    decreases gs.len() - from,
{
    if from < gs.len() && gs[from].id != id {
        lemma_find_from(gs, id, from + 1);
    }
}

/// One section per employee id; a section lists exactly the lines of its
/// employee's rows, in order, is not empty, and its total is the sum of its
/// lines; an employee without a section has no rows.
pub proof fn lemma_report_groups(rows: Seq<ReportRow>)
    ensures
        forall|i: int, j: int|
            0 <= i < j < group_rows(rows).len() ==> (#[trigger] group_rows(rows)[i]).id
                != (#[trigger] group_rows(rows)[j]).id,
        forall|i: int|
            0 <= i < group_rows(rows).len() ==> {
                &&& (#[trigger] group_rows(rows)[i]).rows == lines_of(rows, group_rows(rows)[i].id)
                &&& group_rows(rows)[i].rows.len() >= 1
                &&& group_rows(rows)[i].total_wh == lines_total(group_rows(rows)[i].rows)
            },
        forall|id: int|
            (forall|i: int| 0 <= i < group_rows(rows).len() ==> (#[trigger] group_rows(rows)[i]).id
                != id) ==> #[trigger] lines_of(rows, id) == Seq::<LineView>::empty(),
    decreases rows.len(),
{
    if rows.len() > 0 {
        let t = rows.drop_last();
        let r = rows.last();
        let id = r.emp_id as int;
        lemma_report_groups(t);
        let g = group_rows(t);
        let gn = group_rows(rows);
        let l = line_of(r);
        lemma_find_from(g, id, 0);
        assert(lines_of(rows, id) == lines_of(t, id).push(l)) by {
            assert(lines_of(t, id) + seq![l] =~= lines_of(t, id).push(l));
        }
        assert forall|x: int| x != id implies #[trigger] lines_of(rows, x) == lines_of(t, x) by {
            assert(lines_of(t, x) + Seq::<LineView>::empty() =~= lines_of(t, x));
        }
        match find_from(g, id, 0) {
            Some(k) => {
                assert(gn.len() == g.len());
                assert forall|i: int| 0 <= i < gn.len() && i != k implies #[trigger] gn[i] == g[i] by {}
                assert(gn[k].rows == g[k].rows.push(l));
                assert(gn[k].rows.drop_last() =~= g[k].rows);
                assert(g[k].total_wh == lines_total(g[k].rows));
                assert(gn[k].total_wh == lines_total(gn[k].rows));
                assert forall|i: int, j: int| 0 <= i < j < gn.len() implies (#[trigger] gn[i]).id
                    != (#[trigger] gn[j]).id by {
                    assert(gn[i].id == g[i].id);
                    assert(gn[j].id == g[j].id);
                }
                assert forall|i: int| 0 <= i < gn.len() implies {
                    &&& (#[trigger] gn[i]).rows == lines_of(rows, gn[i].id)
                    &&& gn[i].rows.len() >= 1
                    &&& gn[i].total_wh == lines_total(gn[i].rows)
                } by {
                    if i != k {
                        assert(g[i].id != id);
                        assert(lines_of(rows, g[i].id) == lines_of(t, g[i].id));
                    }
                }
                assert forall|x: int|
                    (forall|i: int| 0 <= i < gn.len() ==> (#[trigger] gn[i]).id != x) implies #[trigger] lines_of(
                    rows,
                    x,
                ) == Seq::<LineView>::empty() by {
                    assert(gn[k].id == id);
                    assert forall|i: int| 0 <= i < g.len() implies (#[trigger] g[i]).id != x by {
                        assert(gn[i].id == g[i].id);
                    }
                    assert(lines_of(rows, x) == lines_of(t, x));
                }
            },
            None => {
                assert(gn == g.push(gn.last()));
                assert forall|i: int| 0 <= i < g.len() implies #[trigger] gn[i] == g[i] by {}
                assert forall|i: int| 0 <= i < g.len() implies (#[trigger] g[i]).id != id by {}
                assert(lines_of(t, id) == Seq::<LineView>::empty());
                assert(lines_of(rows, id) =~= seq![l]);
                let last = gn.last();
                assert(last.rows.drop_last() =~= Seq::<LineView>::empty());
                assert(lines_total(Seq::<LineView>::empty()) == 0);
                assert(last.rows.last() == l);
                assert(lines_total(last.rows) == nonneg(r.energy_wh as int));
                assert forall|i: int, j: int| 0 <= i < j < gn.len() implies (#[trigger] gn[i]).id
                    != (#[trigger] gn[j]).id by {
                    if j == gn.len() - 1 {
                        assert(g[i].id != id);
                    }
                }
                assert forall|i: int| 0 <= i < gn.len() implies {
                    &&& (#[trigger] gn[i]).rows == lines_of(rows, gn[i].id)
                    &&& gn[i].rows.len() >= 1
                    &&& gn[i].total_wh == lines_total(gn[i].rows)
                } by {
                    if i < g.len() {
                        assert(g[i].id != id);
                        assert(lines_of(rows, g[i].id) == lines_of(t, g[i].id));
                    }
                }
                assert forall|x: int|
                    (forall|i: int| 0 <= i < gn.len() ==> (#[trigger] gn[i]).id != x) implies #[trigger] lines_of(
                    rows,
                    x,
                ) == Seq::<LineView>::empty() by {
                    assert(gn[gn.len() - 1].id == id);
                    assert forall|i: int| 0 <= i < g.len() implies (#[trigger] g[i]).id != x by {
                        assert(gn[i].id == g[i].id);
                    }
                    assert(lines_of(rows, x) == lines_of(t, x));
                }
            },
        }
    } else {
        assert forall|x: int| #[trigger] lines_of(rows, x) == Seq::<LineView>::empty() by {}
    }
}

fn line_from_row(r: &ReportRow) -> (l: ReportLine)
    ensures
        l@ == line_of(*r),
{
    ReportLine {
        start: fmt_iso(r.start_time.as_str()),
        stop: match &r.stop_time {
            Some(t) => fmt_iso(t.as_str()),
            None => String::new(),
        },
        wallbox: r.wallbox.clone(),
        id_tag: r.id_tag.clone(),
        energy_wh: r.energy_wh,
        duration_min: if r.duration_sec > 0 {
            r.duration_sec / 60
        } else {
            0
        },
    }
}

fn clone_opt(o: &Option<String>) -> (r: Option<String>)
    ensures
        opt_view(r) == opt_view(*o),
{
    match o {
        Some(s) => Some(s.clone()),
        None => None,
    }
}

/// Groups the month's rows by employee (see `group_rows`).
pub fn group_report_rows(rows: &Vec<ReportRow>) -> (groups: Vec<ReportGroup>)
    requires
        group_totals_fit(rows@),
    ensures
        groups@.map_values(|g: ReportGroup| g@) == group_rows(rows@),
{
    let mut groups: Vec<ReportGroup> = Vec::new();
    let mut k: usize = 0;
    while k < rows.len()
        invariant
            k <= rows@.len(),
            group_totals_fit(rows@),
            groups@.map_values(|g: ReportGroup| g@) == group_rows(rows@.take(k as int)),
        decreases rows@.len() - k,
    {
        let r = &rows[k];
        let ghost prev = group_rows(rows@.take(k as int));
        let ghost next = group_rows(rows@.take(k + 1));
        proof {
            assert(rows@.take(k + 1).drop_last() =~= rows@.take(k as int));
            assert(rows@.take(k + 1).last() == rows@[k as int]);
        }
        let line = line_from_row(r);
        let e: i64 = if r.energy_wh > 0 {
            r.energy_wh
        } else {
            0
        };
        let n = groups.len();
        let mut p: usize = 0;
        while p < n && groups[p].id != r.emp_id
            invariant
                p <= n,
                n == groups@.len(),
                groups@.map_values(|g: ReportGroup| g@) == prev,
                find_from(prev, r.emp_id as int, 0) == find_from(prev, r.emp_id as int, p as int),
            decreases n - p,
        {
            proof {
                assert(prev[p as int] == groups@[p as int]@);
            }
            p += 1;
        }
        if p < n {
            proof {
                assert(prev[p as int] == groups@[p as int]@);
                assert(find_from(prev, r.emp_id as int, 0) == Some(p as int));
                assert(next[p as int].total_wh == prev[p as int].total_wh + nonneg(r.energy_wh as int));
                assert(next.len() == n);
                assert(next[p as int].total_wh <= i64::MAX);
            }
            let mut g = groups.remove(p);
            let ghost gv = g@;
            assert(gv == prev[p as int]);
            g.rows.push(line);
            g.total_wh = g.total_wh + e;
            proof {
                assert(g.rows@.map_values(|l: ReportLine| l@) =~= gv.rows.push(line_of(*r)));
            }
            groups.insert(p, g);
            proof {
                assert(groups@.map_values(|g: ReportGroup| g@) =~= next);
            }
        } else {
            proof {
                assert(find_from(prev, r.emp_id as int, n as int) is None);
            }
            let mut lines: Vec<ReportLine> = Vec::new();
            lines.push(line);
            let g = ReportGroup {
                id: r.emp_id,
                name: r.name.clone(),
                email: clone_opt(&r.email),
                rows: lines,
                total_wh: e,
            };
            proof {
                assert(g.rows@.map_values(|l: ReportLine| l@) =~= seq![line_of(*r)]);
            }
            groups.push(g);
            proof {
                assert(groups@.map_values(|g: ReportGroup| g@) =~= next);
            }
        }
        k += 1;
    }
    proof {
        assert(rows@.take(rows@.len() as int) =~= rows@);
    }
    groups
}

/// The month's report, or `NotFound` when no row was selected.
pub fn monthly_report_sections(rows: &Vec<ReportRow>) -> (r: Result<Vec<ReportGroup>, AppError>)
    requires
        group_totals_fit(rows@),
    ensures
        rows@.len() == 0 ==> r matches Err(AppError::NotFound),
        rows@.len() > 0 ==> (r matches Ok(gs) && gs@.map_values(|g: ReportGroup| g@) == group_rows(
            rows@,
        )),
{
    if rows.len() == 0 {
        return Err(AppError::NotFound);
    }
    Ok(group_report_rows(rows))
}

// ---------------------------------------------------------------------------
// Page layout of the PDF.

/// Energy in kWh with three decimals, as written for `wh` watt-hours.
pub open spec fn kwh3_spec(wh: int) -> Seq<char> {
    let m = if wh < 0 {
        -wh
    } else {
        wh
    };
    (if wh < 0 {
        seq!['-']
    } else {
        Seq::empty()
    }) + dec_nat((m / 1000) as nat) + seq!['.'] + dec_int_padded(m % 1000, 3)
}

/// `wh` watt-hours as kWh with three decimals (`1234` → `1.234`, `-5` → `-0.005`).
pub fn kwh3(wh: i64) -> (s: String)
    ensures
        s@ == kwh3_spec(wh as int),
{
    let m: u64 = if wh < 0 {
        if wh == i64::MIN {
            9223372036854775808u64
        } else {
            (-wh) as u64
        }
    } else {
        wh as u64
    };
    let whole = m / 1000;
    let frac = m % 1000;
    let mut out: Vec<char> = Vec::new();
    if wh < 0 {
        out.push('-');
    }
    let w = fmt_u64(whole);
    push_all(&mut out, &w);
    out.push('.');
    let f = fmt_i32_padded(frac as i32, 3);
    push_all(&mut out, &f);
    proof {
        let mi: int = if wh < 0 {
            -(wh as int)
        } else {
            wh as int
        };
        assert(m as int == mi);
        assert(whole as nat == (mi / 1000) as nat);
        assert(frac as int == mi % 1000);
        assert(out@ =~= kwh3_spec(wh as int));
    }
    string_of(out.as_slice())
}

/// One row of the report's table: start, end, wallbox, chip, duration, kWh.
pub struct TableLine {
    pub start: String,
    pub stop: String,
    pub wallbox: String,
    pub chip: String,
    pub duration: String,
    pub kwh: String,
}

pub struct TableLineView {
    pub start: Seq<char>,
    pub stop: Seq<char>,
    pub wallbox: Seq<char>,
    pub chip: Seq<char>,
    pub duration: Seq<char>,
    pub kwh: Seq<char>,
}

impl View for TableLine {
    type V = TableLineView;

    open spec fn view(&self) -> TableLineView {
        TableLineView {
            start: self.start@,
            stop: self.stop@,
            wallbox: self.wallbox@,
            chip: self.chip@,
            duration: self.duration@,
            kwh: self.kwh@,
        }
    }
}

/// The closing lines of an employee's section: number of charges, minutes,
/// energy.
pub struct ReportFooter {
    pub count: String,
    pub minutes: String,
    pub energy: String,
}

/// One page of the report: the heading lines (title, employee, e-mail; on a
/// continued page the continuation line), the table lines, and the footer on
/// the last page of a section.
pub struct ReportPage {
    pub continued: bool,
    pub heading: Vec<String>,
    pub lines: Vec<TableLine>,
    pub footer: Option<ReportFooter>,
}

pub struct PageView {
    pub continued: bool,
    pub heading: Seq<Seq<char>>,
    pub lines: Seq<TableLineView>,
    pub footer: Option<(Seq<char>, Seq<char>, Seq<char>)>,
}

impl View for ReportPage {
    type V = PageView;

    open spec fn view(&self) -> PageView {
        PageView {
            continued: self.continued,
            heading: self.heading@.map_values(|h: String| h@),
            lines: self.lines@.map_values(|l: TableLine| l@),
            footer: match self.footer {
                Some(f) => Some((f.count@, f.minutes@, f.energy@)),
                None => None,
            },
        }
    }
}

/// Rows on a section's first page, and on each continued page.
pub open spec fn first_page_rows() -> int {
    39
}

pub open spec fn next_page_rows() -> int {
    45
}

/// The table line of a listed session: wallbox and chip cut to 18
/// characters, duration in minutes, energy in kWh.
pub open spec fn table_line(l: LineView) -> TableLineView {
    TableLineView {
        start: l.start,
        stop: l.stop,
        wallbox: truncate_spec(l.wallbox, 18),
        chip: truncate_spec(l.id_tag, 18),
        duration: dec_int(l.duration_min) + " min"@,
        kwh: kwh3_spec(l.energy_wh),
    }
}

/// Sum of the sessions' minutes, negative ones counted as 0.
pub open spec fn minutes_total(ls: Seq<LineView>) -> int
    decreases ls.len(),
{
    if ls.len() == 0 {
        0
    } else {
        minutes_total(ls.drop_last()) + nonneg(ls.last().duration_min)
    }
}

/// Every section's minutes add up inside `i64`.
pub open spec fn minutes_fit(gs: Seq<GroupView>) -> bool {
    forall|i: int| 0 <= i < gs.len() ==> minutes_total(#[trigger] gs[i].rows) <= i64::MAX
}

pub open spec fn report_title(year: int, month: int) -> Seq<char> {
    "Monatsbericht "@ + month_name_spec(month as u32) + seq![' '] + dec_int(year)
}

pub open spec fn heading_of(year: int, month: int, g: GroupView) -> Seq<Seq<char>> {
    seq![report_title(year, month), "Mitarbeiter: "@ + g.name] + match g.email {
        Some(m) => seq!["E-Mail: "@ + m],
        None => Seq::empty(),
    }
}

pub open spec fn footer_of(g: GroupView) -> (Seq<char>, Seq<char>, Seq<char>) {
    (
        dec_nat(g.rows.len()) + " Ladungen"@,
        "Gesamt: "@ + dec_int(minutes_total(g.rows)) + " min"@,
        "Energie: "@ + kwh3_spec(g.total_wh) + " kWh"@,
    )
}

pub open spec fn continued_heading(name: Seq<char>) -> Seq<Seq<char>> {
    seq!["… Fortsetzung: "@ + name]
}

/// The continued pages of a section from table line `from` on.
pub open spec fn continued_pages(
    name: Seq<char>,
    tl: Seq<TableLineView>,
    from: int,
    footer: (Seq<char>, Seq<char>, Seq<char>),
) -> Seq<PageView>
    decreases tl.len() - from,
{
    if tl.len() - from <= next_page_rows() {
        seq![
            PageView {
                continued: true,
                heading: continued_heading(name),
                lines: tl.subrange(from, tl.len() as int),
                footer: Some(footer),
            },
        ]
    } else {
        seq![
            PageView {
                continued: true,
                heading: continued_heading(name),
                lines: tl.subrange(from, from + next_page_rows()),
                footer: None,
            },
        ] + continued_pages(name, tl, from + next_page_rows(), footer)
    }
}

/// The pages of one employee's section: a new page with title, employee
/// and e-mail, then continued pages while lines remain; the footer on the
/// last one.
pub open spec fn group_pages(year: int, month: int, g: GroupView) -> Seq<PageView> {
    let tl = g.rows.map_values(|l: LineView| table_line(l));
    if tl.len() <= first_page_rows() {
        seq![
            PageView {
                continued: false,
                heading: heading_of(year, month, g),
                lines: tl,
                footer: Some(footer_of(g)),
            },
        ]
    } else {
        seq![
            PageView {
                continued: false,
                heading: heading_of(year, month, g),
                lines: tl.take(first_page_rows()),
                footer: None,
            },
        ] + continued_pages(g.name, tl, first_page_rows(), footer_of(g))
    }
}

/// All pages of the report, section after section.
pub open spec fn report_pages_spec(year: int, month: int, gs: Seq<GroupView>) -> Seq<PageView>
    decreases gs.len(),
{
    if gs.len() == 0 {
        Seq::empty()
    } else {
        report_pages_spec(year, month, gs.drop_last()) + group_pages(year, month, gs.last())
    }
}

fn text_plus(a: &str, b: &str) -> (r: String)
    ensures
        r@ == a@ + b@,
{
    let mut s = String::from_str(a);
    s.append(b);
    s
}

fn clone_line(l: &TableLine) -> (r: TableLine)
    ensures
        r@ == l@,
{
    TableLine {
        start: l.start.clone(),
        stop: l.stop.clone(),
        wallbox: l.wallbox.clone(),
        chip: l.chip.clone(),
        duration: l.duration.clone(),
        kwh: l.kwh.clone(),
    }
}

fn lines_range(tl: &Vec<TableLine>, a: usize, b: usize) -> (r: Vec<TableLine>)
    requires
        a <= b <= tl@.len(),
    ensures
        r@.map_values(|l: TableLine| l@) == tl@.map_values(|l: TableLine| l@).subrange(a as int, b as int),
{
    let mut r: Vec<TableLine> = Vec::new();
    let mut k: usize = a;
    while k < b
        invariant
            a <= k <= b <= tl@.len(),
            r@.map_values(|l: TableLine| l@) =~= tl@.map_values(|l: TableLine| l@).subrange(
                a as int,
                k as int,
            ),
        decreases b - k,
    {
        let ghost before = r@.map_values(|l: TableLine| l@);
        let x = clone_line(&tl[k]);
        let ghost xv = x@;
        r.push(x);
        proof {
            assert(tl@.map_values(|l: TableLine| l@)[k as int] == tl@[k as int]@);
            assert(r@.map_values(|l: TableLine| l@) =~= before.push(xv));
            assert(tl@.map_values(|l: TableLine| l@).subrange(a as int, k + 1) =~= before.push(xv));
        }
        k += 1;
    }
    r
}

fn table_line_of(l: &ReportLine) -> (t: TableLine)
    ensures
        t@ == table_line(l@),
{
    let d = fmt_i64(l.duration_min);
    let mut duration = string_of(d.as_slice());
    duration.append(" min");
    TableLine {
        start: l.start.clone(),
        stop: l.stop.clone(),
        wallbox: truncate(l.wallbox.as_str(), 18),
        chip: truncate(l.id_tag.as_str(), 18),
        duration,
        kwh: kwh3(l.energy_wh),
    }
}

proof fn lemma_minutes_mono(ls: Seq<LineView>, k: int)
    requires
        0 <= k <= ls.len(),
    ensures
        0 <= minutes_total(ls.take(k)) <= minutes_total(ls),
    decreases ls.len(),
{
    if ls.len() > 0 {
        if k == ls.len() {
            assert(ls.take(k) =~= ls);
            lemma_minutes_mono(ls.drop_last(), k - 1);
            assert(ls.drop_last().take(k - 1) =~= ls.drop_last());
        } else {
            lemma_minutes_mono(ls.drop_last(), k);
            assert(ls.drop_last().take(k) =~= ls.take(k));
        }
    } else {
        assert(ls.take(k) =~= ls);
    }
}

fn section_minutes(g: &ReportGroup) -> (m: i64)
    requires
        minutes_total(g@.rows) <= i64::MAX,
    ensures
        m == minutes_total(g@.rows),
{
    let ghost ls = g@.rows;
    let mut sum: i64 = 0;
    let mut k: usize = 0;
    while k < g.rows.len()
        invariant
            k <= g.rows@.len(),
            ls == g.rows@.map_values(|l: ReportLine| l@),
            minutes_total(ls) <= i64::MAX,
            sum == minutes_total(ls.take(k as int)),
        decreases g.rows@.len() - k,
    {
        let d = g.rows[k].duration_min;
        proof {
            assert(ls.take(k + 1).drop_last() =~= ls.take(k as int));
            assert(ls.take(k + 1).last() == g.rows@[k as int]@);
            lemma_minutes_mono(ls, k + 1);
        }
        sum = sum + if d > 0 {
            d
        } else {
            0
        };
        k += 1;
    }
    proof {
        assert(ls.take(ls.len() as int) =~= ls);
    }
    sum
}

fn section_heading(year: i32, month: u32, g: &ReportGroup) -> (h: Vec<String>)
    ensures
        h@.map_values(|s: String| s@) == heading_of(year as int, month as int, g@),
{
    let mut title: Vec<char> = chars_of("Monatsbericht ");
    let mn = chars_of(month_name(month));
    push_all(&mut title, &mn);
    title.push(' ');
    let y = fmt_i64(year as i64);
    push_all(&mut title, &y);
    let t = string_of(title.as_slice());
    assert(t@ =~= report_title(year as int, month as int));
    let e = text_plus("Mitarbeiter: ", g.name.as_str());
    let ghost t_v = t@;
    let ghost e_v = e@;
    let mut h: Vec<String> = Vec::new();
    h.push(t);
    h.push(e);
    match &g.email {
        Some(m) => {
            let x = text_plus("E-Mail: ", m.as_str());
            let ghost x_v = x@;
            h.push(x);
            proof {
                assert(h@.map_values(|s: String| s@) =~= seq![t_v, e_v, x_v]);
                assert(g@.email == Some(m@));
            }
        },
        None => {
            proof {
                assert(h@.map_values(|s: String| s@) =~= seq![t_v, e_v]);
            }
        },
    }
    proof {
        assert(h@.map_values(|s: String| s@) =~= heading_of(year as int, month as int, g@));
    }
    h
}

fn section_footer(g: &ReportGroup) -> (f: ReportFooter)
    requires
        minutes_total(g@.rows) <= i64::MAX,
    ensures
        (f.count@, f.minutes@, f.energy@) == footer_of(g@),
{
    let n = fmt_u64(g.rows.len() as u64);
    let mut count = string_of(n.as_slice());
    count.append(" Ladungen");
    let mins = fmt_i64(section_minutes(g));
    let mut minutes = text_plus("Gesamt: ", string_of(mins.as_slice()).as_str());
    minutes.append(" min");
    let mut energy = text_plus("Energie: ", kwh3(g.total_wh).as_str());
    energy.append(" kWh");
    ReportFooter { count, minutes, energy }
}

fn section_pages(year: i32, month: u32, g: &ReportGroup) -> (pages: Vec<ReportPage>)
    requires
        minutes_total(g@.rows) <= i64::MAX,
    ensures
        pages@.map_values(|p: ReportPage| p@) == group_pages(year as int, month as int, g@),
{
    let ghost ls = g@.rows;
    let ghost tlv = ls.map_values(|l: LineView| table_line(l));
    let mut tl: Vec<TableLine> = Vec::new();
    let mut k: usize = 0;
    while k < g.rows.len()
        invariant
            k <= g.rows@.len(),
            ls == g.rows@.map_values(|l: ReportLine| l@),
            tlv == ls.map_values(|l: LineView| table_line(l)),
            tl@.map_values(|t: TableLine| t@) =~= tlv.take(k as int),
        decreases g.rows@.len() - k,
    {
        let ghost before = tl@.map_values(|t: TableLine| t@);
        let x = table_line_of(&g.rows[k]);
        let ghost xv = x@;
        tl.push(x);
        proof {
            assert(ls[k as int] == g.rows@[k as int]@);
            assert(tlv[k as int] == table_line(ls[k as int]));
            assert(tl@.map_values(|t: TableLine| t@) =~= before.push(xv));
            assert(tlv.take(k + 1) =~= tlv.take(k as int).push(tlv[k as int]));
        }
        k += 1;
    }
    assert(tlv.take(tlv.len() as int) =~= tlv);
    let footer = section_footer(g);
    let heading = section_heading(year, month, g);
    let n = tl.len();
    let mut pages: Vec<ReportPage> = Vec::new();
    if n <= 39 {
        let lines = lines_range(&tl, 0, n);
        assert(tlv.subrange(0, n as int) =~= tlv);
        pages.push(ReportPage { continued: false, heading, lines, footer: Some(footer) });
        proof {
            assert(pages@.map_values(|p: ReportPage| p@) =~= group_pages(year as int, month as int, g@));
        }
        return pages;
    }
    let first = lines_range(&tl, 0, 39);
    assert(tlv.subrange(0, 39) =~= tlv.take(39));
    pages.push(ReportPage { continued: false, heading, lines: first, footer: None });
    let ghost fv = footer_of(g@);
    let ghost head = pages@.map_values(|p: ReportPage| p@);
    let mut pos: usize = 39;
    while n - pos > 45
        invariant
            39 <= pos <= n,
            n == tl@.len(),
            n == tlv.len(),
            tl@.map_values(|t: TableLine| t@) == tlv,
            pages@.map_values(|p: ReportPage| p@) + continued_pages(g@.name, tlv, pos as int, fv)
                == head + continued_pages(g@.name, tlv, 39, fv),
        decreases n - pos,
    {
        let ghost before = pages@.map_values(|p: ReportPage| p@);
        let lines = lines_range(&tl, pos, pos + 45);
        let mut h: Vec<String> = Vec::new();
        h.push(text_plus("… Fortsetzung: ", g.name.as_str()));
        pages.push(ReportPage { continued: true, heading: h, lines, footer: None });
        proof {
            assert(h@.map_values(|s: String| s@) =~= continued_heading(g@.name));
            let pv = pages@.map_values(|p: ReportPage| p@);
            assert(pv =~= before.push(pv.last()));
            assert(continued_pages(g@.name, tlv, pos as int, fv) == seq![pv.last()]
                + continued_pages(g@.name, tlv, pos + 45, fv));
            assert(before + continued_pages(g@.name, tlv, pos as int, fv) =~= pv
                + continued_pages(g@.name, tlv, pos + 45, fv));
        }
        pos = pos + 45;
    }
    let ghost before = pages@.map_values(|p: ReportPage| p@);
    let lines = lines_range(&tl, pos, n);
    let mut h: Vec<String> = Vec::new();
    h.push(text_plus("… Fortsetzung: ", g.name.as_str()));
    pages.push(ReportPage { continued: true, heading: h, lines, footer: Some(footer) });
    proof {
        assert(h@.map_values(|s: String| s@) =~= continued_heading(g@.name));
        let pv = pages@.map_values(|p: ReportPage| p@);
        assert(continued_pages(g@.name, tlv, pos as int, fv) =~= seq![pv.last()]);
        assert(pv =~= before + continued_pages(g@.name, tlv, pos as int, fv));
        assert(pv =~= head + continued_pages(g@.name, tlv, 39, fv));
    }
    pages
}

/// The pages of the report: for each section a new page, continued after
/// 39 lines on the first page and 45 on each further one.
pub fn report_pages(year: i32, month: u32, groups: &Vec<ReportGroup>) -> (pages: Vec<ReportPage>)
    requires
        minutes_fit(groups@.map_values(|g: ReportGroup| g@)),
    ensures
        pages@.map_values(|p: ReportPage| p@) == report_pages_spec(
            year as int,
            month as int,
            groups@.map_values(|g: ReportGroup| g@),
        ),
{
    let ghost gv = groups@.map_values(|g: ReportGroup| g@);
    let mut pages: Vec<ReportPage> = Vec::new();
    let mut i: usize = 0;
    while i < groups.len()
        invariant
            i <= groups@.len(),
            gv == groups@.map_values(|g: ReportGroup| g@),
            minutes_fit(gv),
            pages@.map_values(|p: ReportPage| p@) == report_pages_spec(
                year as int,
                month as int,
                gv.take(i as int),
            ),
        decreases groups@.len() - i,
    {
        proof {
            assert(gv[i as int] == groups@[i as int]@);
            assert(minutes_total(gv[i as int].rows) <= i64::MAX);
            assert(gv.take(i + 1).drop_last() =~= gv.take(i as int));
            assert(gv.take(i + 1).last() == gv[i as int]);
        }
        let ghost before = pages@.map_values(|p: ReportPage| p@);
        let mut more = section_pages(year, month, &groups[i]);
        let ghost mv = more@.map_values(|p: ReportPage| p@);
        pages.append(&mut more);
        proof {
            assert(pages@.map_values(|p: ReportPage| p@) =~= before + mv);
        }
        i += 1;
    }
    proof {
        assert(gv.take(gv.len() as int) =~= gv);
    }
    pages
}

/// A table line shows start and end as given, wallbox and chip unchanged
/// when they have at most 18 characters and otherwise cut to their first 17
/// characters followed by `…`, the duration as `<minutes> min` and the
/// energy in kWh.
pub proof fn lemma_table_line_texts(l: LineView)
    ensures
        table_line(l).start == l.start,
        table_line(l).stop == l.stop,
        l.wallbox.len() <= 18 ==> table_line(l).wallbox == l.wallbox,
        l.wallbox.len() > 18 ==> table_line(l).wallbox == l.wallbox.subrange(0, 17) + seq!['…'],
        l.id_tag.len() <= 18 ==> table_line(l).chip == l.id_tag,
        l.id_tag.len() > 18 ==> table_line(l).chip == l.id_tag.subrange(0, 17) + seq!['…'],
        table_line(l).duration == dec_int(l.duration_min) + seq![' ', 'm', 'i', 'n'],
        table_line(l).kwh == kwh3_spec(l.energy_wh),
{
    reveal_strlit(" min");
    assert(l.wallbox.take(17).push('…') =~= l.wallbox.subrange(0, 17) + seq!['…']);
    assert(l.id_tag.take(17).push('…') =~= l.id_tag.subrange(0, 17) + seq!['…']);
    assert(" min"@ =~= seq![' ', 'm', 'i', 'n']);
}

/// The German month names, January to December; no name for any other
/// number.
pub proof fn lemma_month_names(m: u32)
    ensures
        m == 1 ==> month_name_spec(m) == "Januar"@,
        m == 2 ==> month_name_spec(m) == "Februar"@,
        m == 3 ==> month_name_spec(m) == "März"@,
        m == 4 ==> month_name_spec(m) == "April"@,
        m == 5 ==> month_name_spec(m) == "Mai"@,
        m == 6 ==> month_name_spec(m) == "Juni"@,
        m == 7 ==> month_name_spec(m) == "Juli"@,
        m == 8 ==> month_name_spec(m) == "August"@,
        m == 9 ==> month_name_spec(m) == "September"@,
        m == 10 ==> month_name_spec(m) == "Oktober"@,
        m == 11 ==> month_name_spec(m) == "November"@,
        m == 12 ==> month_name_spec(m) == "Dezember"@,
        !(1 <= m <= 12) ==> month_name_spec(m).len() == 0,
{
    reveal_strlit("");
}

/// A section's footer counts its lines, sums their non-negative minutes and
/// gives its energy in kWh; a section's first page is headed by the month,
/// the employee and (if any) the e-mail address, each continued page by the
/// continuation line.
pub proof fn lemma_section_texts(year: int, month: int, g: GroupView)
    ensures
        footer_of(g).0 == dec_nat(g.rows.len()) + " Ladungen"@,
        footer_of(g).1 == "Gesamt: "@ + dec_int(minutes_total(g.rows)) + " min"@,
        footer_of(g).2 == "Energie: "@ + kwh3_spec(g.total_wh) + " kWh"@,
        heading_of(year, month, g)[0] == "Monatsbericht "@ + month_name_spec(month as u32) + " "@
            + dec_int(year),
        heading_of(year, month, g)[1] == "Mitarbeiter: "@ + g.name,
        g.email is None ==> heading_of(year, month, g).len() == 2,
        g.email matches Some(m) ==> heading_of(year, month, g).len() == 3 && heading_of(year, month, g)[2]
            == "E-Mail: "@ + m,
        continued_heading(g.name) == seq!["… Fortsetzung: "@ + g.name],
        first_page_rows() == 39,
        next_page_rows() == 45,
{
    reveal_strlit(" ");
    assert(" "@ =~= seq![' ']);
}

} // verus!
