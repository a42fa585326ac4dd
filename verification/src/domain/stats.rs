//! Charging statistics: periods, per-name rollups and the employee/guest split.
//!
//! The database queries stay with the caller; this module says which query
//! is asked and turns the rows that come back into the statistics shown.

use vstd::prelude::*;

use crate::num::{dec_nat, fmt_u64, parse_u32, parse_u32_spec};
use crate::order::{compare_chars, lex_lt, lemma_lex_transitive, lemma_lex_irreflexive, Cmp};
use crate::text::{chars_of, string_of};

verus! {

/// Sessions and energy of one period (`bucket` such as `2026-04` or `2026-Q2`).
#[derive(Debug, Clone)]
pub struct PeriodStat {
    pub bucket: String,
    pub sessions: i64,
    pub energy_wh: i64,
}

/// Sessions and energy under one label (an employee, a guest label or a wallbox).
#[derive(Debug, Clone)]
pub struct NamedStat {
    pub label: String,
    pub sessions: i64,
    pub energy_wh: i64,
}

/// Sessions and energy of employees against those of guests.
#[derive(Debug, Clone)]
pub struct GuestSplit {
    pub employee_sessions: i64,
    pub employee_wh: i64,
    pub guest_sessions: i64,
    pub guest_wh: i64,
}

#[derive(Clone, Copy, Debug, PartialEq, Eq, Structural)]
pub enum Granularity {
    Month,
    Quarter,
    Year,
}

pub open spec fn bucket_expr_spec(g: Granularity) -> Seq<char> {
    match g {
        Granularity::Year => "strftime('%Y', start_time)"@,
        _ => "strftime('%Y-%m', start_time)"@,
    }
}

impl Granularity {
    /// SQLite `strftime` expression that buckets a transaction's start time.
    /// Quarters are bucketed by month and rolled up afterwards.
    pub fn bucket_expr(&self) -> (r: &'static str)
        ensures
            r@ == bucket_expr_spec(*self),
    {
        match self {
            Granularity::Month => "strftime('%Y-%m', start_time)",
            Granularity::Year => "strftime('%Y', start_time)",
            Granularity::Quarter => "strftime('%Y-%m', start_time)",
        }
    }
}

pub open spec fn overview_sql_spec(g: Granularity) -> Seq<char> {
    "SELECT "@ + bucket_expr_spec(g) + " AS bucket,
                COUNT(*) AS sessions,
                COALESCE(SUM(COALESCE(stop_meter_wh,0) - start_meter_wh), 0) AS energy_wh
         FROM transactions
         WHERE stop_meter_wh IS NOT NULL
         GROUP BY bucket
         ORDER BY bucket DESC
         LIMIT 60"@
}

/// The query of the period overview: sessions and energy of finished
/// transactions per bucket, newest 60 buckets first.
pub fn overview_sql(g: Granularity) -> (r: String)
    ensures
        r@ == overview_sql_spec(g),
{
    let mut s = String::from_str("SELECT ");
    s.append(g.bucket_expr());
    s.append(
        " AS bucket,
                COUNT(*) AS sessions,
                COALESCE(SUM(COALESCE(stop_meter_wh,0) - start_meter_wh), 0) AS energy_wh
         FROM transactions
         WHERE stop_meter_wh IS NOT NULL
         GROUP BY bucket
         ORDER BY bucket DESC
         LIMIT 60",
    );
    s
}

/// The overview query groups the finished transactions (those with a stop
/// value) by month (`YYYY-MM`, also for quarters) or by year (`YYYY`) of
/// their start, newest first, at most 60 buckets, counting them and summing
/// stop minus start meter value per bucket (0 for an empty sum).
pub proof fn lemma_overview_query_text(g: Granularity)
    ensures
        g != Granularity::Year ==> overview_sql_spec(g) == "SELECT strftime('%Y-%m', start_time) AS bucket,
                COUNT(*) AS sessions,
                COALESCE(SUM(COALESCE(stop_meter_wh,0) - start_meter_wh), 0) AS energy_wh
         FROM transactions
         WHERE stop_meter_wh IS NOT NULL
         GROUP BY bucket
         ORDER BY bucket DESC
         LIMIT 60"@,
        g == Granularity::Year ==> overview_sql_spec(g) == "SELECT strftime('%Y', start_time) AS bucket,
                COUNT(*) AS sessions,
                COALESCE(SUM(COALESCE(stop_meter_wh,0) - start_meter_wh), 0) AS energy_wh
         FROM transactions
         WHERE stop_meter_wh IS NOT NULL
         GROUP BY bucket
         ORDER BY bucket DESC
         LIMIT 60"@,
{
    reveal_strlit("SELECT ");
    reveal_strlit("strftime('%Y-%m', start_time)");
    reveal_strlit("strftime('%Y', start_time)");
    reveal_strlit(" AS bucket,
                COUNT(*) AS sessions,
                COALESCE(SUM(COALESCE(stop_meter_wh,0) - start_meter_wh), 0) AS energy_wh
         FROM transactions
         WHERE stop_meter_wh IS NOT NULL
         GROUP BY bucket
         ORDER BY bucket DESC
         LIMIT 60");
    reveal_strlit("SELECT strftime('%Y-%m', start_time) AS bucket,
                COUNT(*) AS sessions,
                COALESCE(SUM(COALESCE(stop_meter_wh,0) - start_meter_wh), 0) AS energy_wh
         FROM transactions
         WHERE stop_meter_wh IS NOT NULL
         GROUP BY bucket
         ORDER BY bucket DESC
         LIMIT 60");
    reveal_strlit("SELECT strftime('%Y', start_time) AS bucket,
                COUNT(*) AS sessions,
                COALESCE(SUM(COALESCE(stop_meter_wh,0) - start_meter_wh), 0) AS energy_wh
         FROM transactions
         WHERE stop_meter_wh IS NOT NULL
         GROUP BY bucket
         ORDER BY bucket DESC
         LIMIT 60");
    if g == Granularity::Year {
        assert(overview_sql_spec(g) =~= "SELECT strftime('%Y', start_time) AS bucket,
                COUNT(*) AS sessions,
                COALESCE(SUM(COALESCE(stop_meter_wh,0) - start_meter_wh), 0) AS energy_wh
         FROM transactions
         WHERE stop_meter_wh IS NOT NULL
         GROUP BY bucket
         ORDER BY bucket DESC
         LIMIT 60"@);
    } else {
        assert(overview_sql_spec(g) =~= "SELECT strftime('%Y-%m', start_time) AS bucket,
                COUNT(*) AS sessions,
                COALESCE(SUM(COALESCE(stop_meter_wh,0) - start_meter_wh), 0) AS energy_wh
         FROM transactions
         WHERE stop_meter_wh IS NOT NULL
         GROUP BY bucket
         ORDER BY bucket DESC
         LIMIT 60"@);
    }
}

// ---------------------------------------------------------------------------
// Byte offsets inside a string, as `&s[a..b]` takes them.

/// Number of bytes of `c` in UTF-8.
pub open spec fn utf8_width(c: char) -> int {
    if (c as u32) < 0x80 {
        1
    } else if (c as u32) < 0x800 {
        2
    } else if (c as u32) < 0x10000 {
        3
    } else {
        4
    }
}

/// The number of characters of `s` whose UTF-8 encoding takes exactly `n`
/// bytes; `None` when byte `n` is not a character boundary inside `s`.
pub open spec fn char_at_byte(s: Seq<char>, n: int) -> Option<int>
    decreases s.len(),
{
    if n == 0 {
        Some(0)
    } else if n < 0 || s.len() == 0 {
        None
    } else {
        match char_at_byte(s.drop_first(), n - utf8_width(s[0])) {
            Some(i) => Some(i + 1),
            None => None,
        }
    }
}

proof fn lemma_char_at_byte_bound(s: Seq<char>, n: int)
    ensures
        char_at_byte(s, n) matches Some(i) ==> 0 <= i <= s.len(),
    decreases s.len(),
{
    if n != 0 && n >= 0 && s.len() > 0 {
        lemma_char_at_byte_bound(s.drop_first(), n - utf8_width(s[0]));
    }
}

proof fn lemma_char_at_byte_step(s: Seq<char>, k: int, off: int, n: int)
    requires
        0 <= k <= s.len(),
        char_at_byte(s, n) == (match char_at_byte(s.subrange(k, s.len() as int), n - off) {
            Some(i) => Some(i + k),
            None => None::<int>,
        }),
        k < s.len(),
        n - off != 0,
    ensures
        char_at_byte(s, n) == (match char_at_byte(
            s.subrange(k + 1, s.len() as int),
            n - off - utf8_width(s[k]),
        ) {
            Some(i) => Some(i + k + 1),
            None => None::<int>,
        }),
{
    let t = s.subrange(k, s.len() as int);
    assert(t.drop_first() =~= s.subrange(k + 1, s.len() as int));
    assert(t[0] == s[k]);
    if n - off < 0 {
        // both sides are None: offsets only grow
        lemma_char_at_byte_negative(s.subrange(k + 1, s.len() as int), n - off - utf8_width(s[k]));
    }
}

proof fn lemma_char_at_byte_negative(s: Seq<char>, n: int)
    requires
        n < 0,
    ensures
        char_at_byte(s, n) is None,
{
}

/// Character index of byte offset `n` of `s` (see `char_at_byte`).
fn char_index_of_byte(s: &[char], n: usize) -> (r: Option<usize>)
    ensures
        match r {
            Some(i) => char_at_byte(s@, n as int) == Some(i as int),
            None => char_at_byte(s@, n as int) is None,
        },
{
    let mut k: usize = 0;
    let mut off: usize = 0;
    proof {
        assert(s@.subrange(0, s@.len() as int) =~= s@);
    }
    while k < s.len() && off < n
        invariant
            k <= s@.len(),
            off <= n,
            char_at_byte(s@, n as int) == (match char_at_byte(
                s@.subrange(k as int, s@.len() as int),
                n - off,
            ) {
                Some(i) => Some(i + k),
                None => None::<int>,
            }),
        decreases s@.len() - k,
    {
        let c = s[k];
        let w: usize = if (c as u32) < 0x80 {
            1
        } else if (c as u32) < 0x800 {
            2
        } else if (c as u32) < 0x10000 {
            3
        } else {
            4
        };
        proof {
            lemma_char_at_byte_step(s@, k as int, off as int, n as int);
        }
        if w > n - off {
            proof {
                lemma_char_at_byte_negative(
                    s@.subrange(k + 1, s@.len() as int),
                    n - off - utf8_width(s@[k as int]),
                );
            }
            return None;
        }
        off = off + w;
        k = k + 1;
    }
    if off == n {
        Some(k)
    } else {
        proof {
            assert(s@.subrange(k as int, s@.len() as int).len() == 0);
        }
        None
    }
}

// ---------------------------------------------------------------------------
// Quarter rollup.

/// The month of a `YYYY-MM` bucket: bytes 5..7 read as a number, 1 when they
/// do not read as one.
pub open spec fn bucket_month(b: Seq<char>) -> int {
    let i5 = char_at_byte(b, 5).unwrap();
    let i7 = char_at_byte(b, 7).unwrap();
    match parse_u32_spec(b.subrange(i5, i7)) {
        Some(m) => m,
        None => 1,
    }
}

/// A bucket can be rolled up without a panic: bytes 4, 5 and 7 are character
/// boundaries inside it, and its month is not 0.
pub open spec fn quarter_bucket_ok(b: Seq<char>) -> bool {
    &&& char_at_byte(b, 4) is Some
    &&& char_at_byte(b, 5) is Some
    &&& char_at_byte(b, 7) is Some
    &&& bucket_month(b) != 0
}

/// `YYYY-Q<n>` for a `YYYY-MM` bucket, with `n = (month - 1) / 3 + 1`.
#[verifier::opaque]
pub open spec fn quarter_key(b: Seq<char>) -> Seq<char> {
    b.subrange(0, char_at_byte(b, 4).unwrap()) + seq!['-', 'Q'] + dec_nat(
        ((bucket_month(b) - 1) / 3 + 1) as nat,
    )
}

/// Sum of the sessions of the rows whose bucket rolls up into `key`.
pub open spec fn key_sessions(rows: Seq<PeriodStat>, key: Seq<char>) -> int
    decreases rows.len(),
{
    if rows.len() == 0 {
        0
    } else {
        key_sessions(rows.drop_last(), key) + if quarter_key(rows.last().bucket@) == key {
            rows.last().sessions as int
        } else {
            0
        }
    }
}

/// Sum of the energy of the rows whose bucket rolls up into `key`.
pub open spec fn key_energy(rows: Seq<PeriodStat>, key: Seq<char>) -> int
    decreases rows.len(),
{
    if rows.len() == 0 {
        0
    } else {
        key_energy(rows.drop_last(), key) + if quarter_key(rows.last().bucket@) == key {
            rows.last().energy_wh as int
        } else {
            0
        }
    }
}

/// The running sums of the rollup stay inside `i64`.
#[verifier::opaque]
pub open spec fn quarter_sums_fit(rows: Seq<PeriodStat>) -> bool {
    forall|k: int, key: Seq<char>|
        0 <= k <= rows.len() ==> {
            &&& i64::MIN <= #[trigger] key_sessions(rows.take(k), key) <= i64::MAX
            &&& i64::MIN <= #[trigger] key_energy(rows.take(k), key) <= i64::MAX
        }
}

/// `out` is the quarter rollup of `rows`: one entry per quarter that occurs,
/// newest (greatest key) first, carrying that quarter's sums.
pub open spec fn is_quarter_rollup(rows: Seq<PeriodStat>, out: Seq<PeriodStat>) -> bool {
    &&& forall|i: int, j: int|
        0 <= i < j < out.len() ==> lex_lt(#[trigger] out[j].bucket@, #[trigger] out[i].bucket@)
    &&& forall|i: int| 0 <= i < out.len() ==> is_row_quarter(rows, (#[trigger] out[i]).bucket@)
    &&& forall|r: int|
        0 <= r < rows.len() ==> is_out_bucket(out, quarter_key((#[trigger] rows[r]).bucket@))
    &&& forall|i: int|
        0 <= i < out.len() ==> {
            &&& (#[trigger] out[i]).sessions == key_sessions(rows, out[i].bucket@)
            &&& out[i].energy_wh == key_energy(rows, out[i].bucket@)
        }
}

/// `k` is the quarter of some row.
pub open spec fn is_row_quarter(rows: Seq<PeriodStat>, k: Seq<char>) -> bool {
    exists|r: int| 0 <= r < rows.len() && quarter_key((#[trigger] rows[r]).bucket@) == k
}

/// `k` is the bucket of some entry of `out`.
pub open spec fn is_out_bucket(out: Seq<PeriodStat>, k: Seq<char>) -> bool {
    exists|i: int| 0 <= i < out.len() && (#[trigger] out[i]).bucket@ == k
}

/// The quarter key of a bucket, computed.
fn quarter_key_of(bucket: &String) -> (r: Vec<char>)
    requires
        quarter_bucket_ok(bucket@),
    ensures
        r@ == quarter_key(bucket@),
{
    let b = chars_of(bucket.as_str());
    let i4 = char_index_of_byte(b.as_slice(), 4).unwrap();
    let i5 = char_index_of_byte(b.as_slice(), 5).unwrap();
    let i7 = char_index_of_byte(b.as_slice(), 7).unwrap();
    proof {
        reveal(quarter_key);
        lemma_char_at_byte_bound(b@, 4);
        lemma_char_at_byte_bound(b@, 5);
        lemma_char_at_byte_bound(b@, 7);
        lemma_char_at_byte_order(b@, 5, 7);
    }
    let mut mtext: Vec<char> = Vec::new();
    let mut k: usize = i5;
    while k < i7
        invariant
            i5 <= k <= i7 <= b@.len(),
            mtext@ =~= b@.subrange(i5 as int, k as int),
        decreases i7 - k,
    {
        mtext.push(b[k]);
        k += 1;
    }
    let month: u32 = match parse_u32(mtext.as_slice()) {
        Some(m) => m,
        None => 1,
    };
    let q: u32 = (month - 1) / 3 + 1;
    let mut r: Vec<char> = Vec::new();
    let mut j: usize = 0;
    while j < i4
        invariant
            j <= i4 <= b@.len(),
            r@ =~= b@.subrange(0, j as int),
        decreases i4 - j,
    {
        r.push(b[j]);
        j += 1;
    }
    r.push('-');
    r.push('Q');
    let digits = fmt_u64(q as u64);
    let ghost head = r@;
    let mut d: usize = 0;
    while d < digits.len()
        invariant
            d <= digits@.len(),
            r@ =~= head + digits@.subrange(0, d as int),
        decreases digits@.len() - d,
    {
        r.push(digits[d]);
        d += 1;
    }
    proof {
        assert(digits@.subrange(0, digits@.len() as int) =~= digits@);
    }
    r
}

/// Whether a bucket can be rolled up (see `quarter_bucket_ok`).
fn quarter_bucket_ok_exec(bucket: &String) -> (ok: bool)
    ensures
        ok == quarter_bucket_ok(bucket@),
{
    let b = chars_of(bucket.as_str());
    let i4 = char_index_of_byte(b.as_slice(), 4);
    let i5 = char_index_of_byte(b.as_slice(), 5);
    let i7 = char_index_of_byte(b.as_slice(), 7);
    if i4.is_none() || i5.is_none() || i7.is_none() {
        return false;
    }
    let i5 = i5.unwrap();
    let i7 = i7.unwrap();
    proof {
        lemma_char_at_byte_bound(b@, 7);
        lemma_char_at_byte_order(b@, 5, 7);
    }
    let mtext = crate::text::sub_chars(b.as_slice(), i5, i7);
    match parse_u32(mtext.as_slice()) {
        Some(m) => m != 0,
        None => true,
    }
}

/// The running sums of the first `i` rows stay inside `i64`.
pub open spec fn sums_fit_upto(rows: Seq<PeriodStat>, i: int) -> bool {
    &&& forall|k: int, key: Seq<char>|
        0 <= k <= i ==> i64::MIN <= #[trigger] key_sessions(rows.take(k), key) <= i64::MAX
    &&& forall|k: int, key: Seq<char>|
        0 <= k <= i ==> i64::MIN <= #[trigger] key_energy(rows.take(k), key) <= i64::MAX
}

proof fn lemma_sums_fit_step(rows: Seq<PeriodStat>, i: int, key: Seq<char>, s: int, e: int)
    requires
        0 <= i < rows.len(),
        sums_fit_upto(rows, i),
        key == quarter_key(rows[i].bucket@),
        key_sessions(rows.take(i + 1), key) == s,
        key_energy(rows.take(i + 1), key) == e,
        i64::MIN <= s <= i64::MAX,
        i64::MIN <= e <= i64::MAX,
    ensures
        sums_fit_upto(rows, i + 1),
{
    assert forall|k: int, kk: Seq<char>| 0 <= k <= i + 1 implies i64::MIN <= #[trigger] key_sessions(
        rows.take(k),
        kk,
    ) <= i64::MAX by {
        if k == i + 1 && kk != key {
            lemma_key_sums_step(rows, i, kk);
            assert(i64::MIN <= key_sessions(rows.take(i), kk) <= i64::MAX);
        }
    }
    assert forall|k: int, kk: Seq<char>| 0 <= k <= i + 1 implies i64::MIN <= #[trigger] key_energy(
        rows.take(k),
        kk,
    ) <= i64::MAX by {
        if k == i + 1 && kk != key {
            lemma_key_sums_step(rows, i, kk);
            assert(i64::MIN <= key_energy(rows.take(i), kk) <= i64::MAX);
        }
    }
}

/// Running sums that fit for every row are what `quarter_sums_fit` asks.
proof fn lemma_sums_fit_all(rows: Seq<PeriodStat>)
    requires
        sums_fit_upto(rows, rows.len() as int),
    ensures
        quarter_sums_fit(rows),
{
    reveal(quarter_sums_fit);
    assert forall|k: int, key: Seq<char>| 0 <= k <= rows.len() implies {
        &&& i64::MIN <= #[trigger] key_sessions(rows.take(k), key) <= i64::MAX
        &&& i64::MIN <= #[trigger] key_energy(rows.take(k), key) <= i64::MAX
    } by {
        assert(i64::MIN <= key_sessions(rows.take(k), key) <= i64::MAX);
        assert(i64::MIN <= key_energy(rows.take(k), key) <= i64::MAX);
    }
}

proof fn lemma_char_at_byte_order(s: Seq<char>, a: int, b: int)
    requires
        char_at_byte(s, a) is Some,
        char_at_byte(s, b) is Some,
        0 <= a <= b,
    ensures
        char_at_byte(s, a).unwrap() <= char_at_byte(s, b).unwrap(),
    decreases s.len(),
{
    if a != 0 && s.len() > 0 {
        lemma_char_at_byte_order(s.drop_first(), a - utf8_width(s[0]), b - utf8_width(s[0]));
    } else if a == 0 {
        lemma_char_at_byte_bound(s, b);
    }
}

proof fn lemma_key_sums_step(rows: Seq<PeriodStat>, i: int, key: Seq<char>)
    requires
        0 <= i < rows.len(),
    ensures
        key_sessions(rows.take(i + 1), key) == key_sessions(rows.take(i), key) + if quarter_key(
            rows[i].bucket@,
        ) == key {
            rows[i].sessions as int
        } else {
            0
        },
        key_energy(rows.take(i + 1), key) == key_energy(rows.take(i), key) + if quarter_key(
            rows[i].bucket@,
        ) == key {
            rows[i].energy_wh as int
        } else {
            0
        },
{
    assert(rows.take(i + 1).drop_last() =~= rows.take(i));
    assert(rows.take(i + 1).last() == rows[i]);
}

proof fn lemma_key_sums_absent(rows: Seq<PeriodStat>, key: Seq<char>)
    requires
        forall|r: int| 0 <= r < rows.len() ==> quarter_key(#[trigger] rows[r].bucket@) != key,
    ensures
        key_sessions(rows, key) == 0,
        key_energy(rows, key) == 0,
    decreases rows.len(),
{
    if rows.len() > 0 {
        let t = rows.drop_last();
        assert forall|r: int| 0 <= r < t.len() implies quarter_key(#[trigger] t[r].bucket@)
            != key by {
            assert(t[r] == rows[r]);
        }
        lemma_key_sums_absent(t, key);
        assert(quarter_key(rows[rows.len() - 1].bucket@) != key);
    }
}

/// Keys strictly descending.
#[verifier::opaque]
pub open spec fn keys_desc(keys: Seq<Seq<char>>) -> bool {
    forall|a: int, b: int| 0 <= a < b < keys.len() ==> lex_lt(#[trigger] keys[b], #[trigger] keys[a])
}

/// `src[a]` is a row among the first `i` whose quarter is key `a`.
pub open spec fn keys_from_rows(rows: Seq<PeriodStat>, i: int, keys: Seq<Seq<char>>, src: Seq<int>) -> bool {
    &&& src.len() == keys.len()
    &&& forall|a: int|
        0 <= a < keys.len() ==> 0 <= #[trigger] src[a] < i && quarter_key(rows[src[a]].bucket@)
            == keys[a]
}

/// `pos[r]` is the key that holds the quarter of row `r`, for the first `i` rows.
pub open spec fn rows_in_keys(rows: Seq<PeriodStat>, i: int, keys: Seq<Seq<char>>, pos: Seq<int>) -> bool {
    &&& pos.len() == i
    &&& forall|r: int|
        0 <= r < i ==> 0 <= #[trigger] pos[r] < keys.len() && keys[pos[r]] == quarter_key(
            rows[r].bucket@,
        )
}

/// Each key carries the sums of the first `i` rows for its quarter.
pub open spec fn sums_ok(
    rows: Seq<PeriodStat>,
    i: int,
    keys: Seq<Seq<char>>,
    sess: Seq<i64>,
    energy: Seq<i64>,
) -> bool {
    forall|a: int|
        #![trigger sess[a]]
        #![trigger energy[a]]
        0 <= a < keys.len() ==> {
            &&& sess[a] == key_sessions(rows.take(i), keys[a])
            &&& energy[a] == key_energy(rows.take(i), keys[a])
        }
}

/// What the rollup has gathered after the first `i` rows.
pub open spec fn rollup_acc(
    rows: Seq<PeriodStat>,
    i: int,
    keys: Seq<Seq<char>>,
    sess: Seq<i64>,
    energy: Seq<i64>,
    src: Seq<int>,
    pos: Seq<int>,
) -> bool {
    &&& 0 <= i <= rows.len()
    &&& keys.len() == sess.len() == energy.len()
    &&& keys_desc(keys)
    &&& keys_from_rows(rows, i, keys, src)
    &&& rows_in_keys(rows, i, keys, pos)
    &&& sums_ok(rows, i, keys, sess, energy)
}

proof fn lemma_rollup_start(rows: Seq<PeriodStat>)
    ensures
        rollup_acc(rows, 0, Seq::empty(), Seq::empty(), Seq::empty(), Seq::empty(), Seq::empty()),
{
    reveal(keys_desc);
}

proof fn lemma_desc_distinct(keys: Seq<Seq<char>>, a: int, p: int)
    requires
        keys_desc(keys),
        0 <= a < keys.len(),
        0 <= p < keys.len(),
        a != p,
    ensures
        keys[a] != keys[p],
{
    reveal(keys_desc);
    lemma_lex_irreflexive(keys[p]);
    if a < p {
        assert(lex_lt(keys[p], keys[a]));
    } else {
        assert(lex_lt(keys[a], keys[p]));
    }
}

/// Where row `i`'s quarter already has an entry at `p`, adding the row's sums
/// there keeps the accumulator right.
proof fn lemma_rollup_add(
    rows: Seq<PeriodStat>,
    i: int,
    keys: Seq<Seq<char>>,
    sess: Seq<i64>,
    energy: Seq<i64>,
    src: Seq<int>,
    pos: Seq<int>,
    p: int,
    s: i64,
    e: i64,
)
    requires
        rollup_acc(rows, i, keys, sess, energy, src, pos),
        i < rows.len(),
        0 <= p < keys.len(),
        keys[p] == quarter_key(rows[i].bucket@),
        s == sess[p] + rows[i].sessions,
        e == energy[p] + rows[i].energy_wh,
    ensures
        rollup_acc(rows, i + 1, keys, sess.update(p, s), energy.update(p, e), src, pos.push(p)),
{
    let ns = sess.update(p, s);
    let ne = energy.update(p, e);
    let np = pos.push(p);
    assert forall|r: int| 0 <= r < i + 1 implies 0 <= #[trigger] np[r] < keys.len() && keys[np[r]]
        == quarter_key(rows[r].bucket@) by {
        if r < i {
            assert(np[r] == pos[r]);
        }
    }
    assert forall|a: int|
        #![trigger ns[a]]
        #![trigger ne[a]]
        0 <= a < keys.len() implies {
        &&& ns[a] == key_sessions(rows.take(i + 1), keys[a])
        &&& ne[a] == key_energy(rows.take(i + 1), keys[a])
    } by {
        lemma_key_sums_step(rows, i, keys[a]);
        assert(sess[a] == key_sessions(rows.take(i), keys[a]));
        if a != p {
            lemma_desc_distinct(keys, a, p);
        }
    }
}

proof fn lemma_not_a_key(keys: Seq<Seq<char>>, p: int, k: Seq<char>)
    requires
        keys_desc(keys),
        0 <= p <= keys.len(),
        forall|a: int| 0 <= a < p ==> lex_lt(k, #[trigger] keys[a]),
        p < keys.len() ==> lex_lt(keys[p], k),
    ensures
        forall|a: int| 0 <= a < keys.len() ==> #[trigger] keys[a] != k,
{
    reveal(keys_desc);
    assert forall|a: int| 0 <= a < keys.len() implies #[trigger] keys[a] != k by {
        lemma_lex_irreflexive(k);
        if a > p {
            assert(lex_lt(keys[a], keys[p]));
            lemma_lex_transitive(keys[a], keys[p], k);
        }
    }
}

proof fn lemma_desc_insert(keys: Seq<Seq<char>>, p: int, k: Seq<char>)
    requires
        keys_desc(keys),
        0 <= p <= keys.len(),
        forall|a: int| 0 <= a < p ==> lex_lt(k, #[trigger] keys[a]),
        p < keys.len() ==> lex_lt(keys[p], k),
    ensures
        keys_desc(keys.insert(p, k)),
{
    reveal(keys_desc);
    let nk = keys.insert(p, k);
    assert forall|a: int, b: int| 0 <= a < b < nk.len() implies lex_lt(
        #[trigger] nk[b],
        #[trigger] nk[a],
    ) by {
        if b < p {
            assert(nk[a] == keys[a] && nk[b] == keys[b]);
        } else if b == p {
            assert(nk[a] == keys[a]);
        } else if a == p {
            assert(nk[b] == keys[b - 1]);
            if b - 1 > p {
                assert(lex_lt(keys[b - 1], keys[p]));
                lemma_lex_transitive(keys[b - 1], keys[p], k);
            }
        } else if a < p {
            assert(nk[a] == keys[a] && nk[b] == keys[b - 1]);
        } else {
            assert(nk[a] == keys[a - 1] && nk[b] == keys[b - 1]);
        }
    }
}

/// Row positions after inserting a key at `p`, with row `i` pointing at it.
pub open spec fn shifted_pos(pos: Seq<int>, p: int, i: int) -> Seq<int> {
    Seq::new(
        (i + 1) as nat,
        |r: int|
            if r == i {
                p
            } else if pos[r] >= p {
                pos[r] + 1
            } else {
                pos[r]
            },
    )
}

/// Where row `i`'s quarter has no entry yet and `p` is where it sorts in,
/// inserting it there keeps the accumulator right.
proof fn lemma_rollup_insert(
    rows: Seq<PeriodStat>,
    i: int,
    keys: Seq<Seq<char>>,
    sess: Seq<i64>,
    energy: Seq<i64>,
    src: Seq<int>,
    pos: Seq<int>,
    p: int,
    k: Seq<char>,
)
    requires
        rollup_acc(rows, i, keys, sess, energy, src, pos),
        i < rows.len(),
        0 <= p <= keys.len(),
        k == quarter_key(rows[i].bucket@),
        forall|a: int| 0 <= a < p ==> lex_lt(k, #[trigger] keys[a]),
        p < keys.len() ==> lex_lt(keys[p], k),
    ensures
        rollup_acc(
            rows,
            i + 1,
            keys.insert(p, k),
            sess.insert(p, rows[i].sessions),
            energy.insert(p, rows[i].energy_wh),
            src.insert(p, i),
            shifted_pos(pos, p, i),
        ),
{
    let nk = keys.insert(p, k);
    let ns = sess.insert(p, rows[i].sessions);
    let ne = energy.insert(p, rows[i].energy_wh);
    let nsrc = src.insert(p, i);
    let npos = shifted_pos(pos, p, i);
    lemma_not_a_key(keys, p, k);
    lemma_desc_insert(keys, p, k);
    assert forall|a: int| 0 <= a < nk.len() implies 0 <= #[trigger] nsrc[a] < i + 1 && quarter_key(
        rows[nsrc[a]].bucket@,
    ) == nk[a] by {
        if a < p {
            assert(nsrc[a] == src[a] && nk[a] == keys[a]);
        } else if a > p {
            assert(nsrc[a] == src[a - 1] && nk[a] == keys[a - 1]);
        }
    }
    assert forall|r: int| 0 <= r < i + 1 implies 0 <= #[trigger] npos[r] < nk.len() && nk[npos[r]]
        == quarter_key(rows[r].bucket@) by {
        if r < i {
            assert(0 <= pos[r] < keys.len());
            if pos[r] >= p {
                assert(nk[pos[r] + 1] == keys[pos[r]]);
            } else {
                assert(nk[pos[r]] == keys[pos[r]]);
            }
        }
    }
    assert forall|r: int| 0 <= r < i implies quarter_key(#[trigger] rows.take(i)[r].bucket@) != k by {
        assert(rows.take(i)[r] == rows[r]);
        assert(0 <= pos[r] < keys.len());
        assert(keys[pos[r]] != k);
    }
    lemma_key_sums_absent(rows.take(i), k);
    assert forall|a: int|
        #![trigger ns[a]]
        #![trigger ne[a]]
        0 <= a < nk.len() implies {
        &&& ns[a] == key_sessions(rows.take(i + 1), nk[a])
        &&& ne[a] == key_energy(rows.take(i + 1), nk[a])
    } by {
        lemma_key_sums_step(rows, i, nk[a]);
        if a != p {
            let oa = if a < p {
                a
            } else {
                a - 1
            };
            assert(nk[a] == keys[oa]);
            assert(ns[a] == sess[oa]);
            assert(ne[a] == energy[oa]);
            assert(keys[oa] != k);
            assert(sess[oa] == key_sessions(rows.take(i), keys[oa]));
            assert(energy[oa] == key_energy(rows.take(i), keys[oa]));
        }
    }
}

/// The accumulator after the last row, written out, is the rollup.
proof fn lemma_rollup_done(
    rows: Seq<PeriodStat>,
    keys: Seq<Seq<char>>,
    sess: Seq<i64>,
    energy: Seq<i64>,
    src: Seq<int>,
    pos: Seq<int>,
    out: Seq<PeriodStat>,
)
    requires
        rollup_acc(rows, rows.len() as int, keys, sess, energy, src, pos),
        out.len() == keys.len(),
        forall|a: int|
            0 <= a < out.len() ==> {
                &&& (#[trigger] out[a]).bucket@ == keys[a]
                &&& out[a].sessions == sess[a]
                &&& out[a].energy_wh == energy[a]
            },
    ensures
        is_quarter_rollup(rows, out),
{
    assert(rows.take(rows.len() as int) =~= rows);
    assert forall|a: int, b: int| 0 <= a < b < out.len() implies lex_lt(
        #[trigger] out[b].bucket@,
        #[trigger] out[a].bucket@,
    ) by {
        reveal(keys_desc);
        assert(lex_lt(keys[b], keys[a]));
    }
    assert forall|a: int| 0 <= a < out.len() implies is_row_quarter(rows, (#[trigger] out[a]).bucket@) by {
        let r0 = src[a];
        assert(quarter_key(rows[r0].bucket@) == out[a].bucket@);
    }
    assert forall|r: int| 0 <= r < rows.len() implies is_out_bucket(out, quarter_key((#[trigger] rows[r]).bucket@)) by {
        let a0 = pos[r];
        assert(out[a0].bucket@ == keys[a0]);
    }
    assert forall|a: int| 0 <= a < out.len() implies {
        &&& (#[trigger] out[a]).sessions == key_sessions(rows, out[a].bucket@)
        &&& out[a].energy_wh == key_energy(rows, out[a].bucket@)
    } by {
        assert(out[a].bucket@ == keys[a]);
        assert(sess[a] == key_sessions(rows.take(rows.len() as int), keys[a]));
        assert(energy[a] == key_energy(rows.take(rows.len() as int), keys[a]));
        assert(key_sessions(rows.take(rows.len() as int), keys[a]) == key_sessions(rows, keys[a]));
        assert(key_energy(rows.take(rows.len() as int), keys[a]) == key_energy(rows, keys[a]));
    }
}

/// The quarter rollup of month buckets (see `quarter_rollup`); `None` when
/// a bucket cannot be read as `YYYY-MM` by byte offsets or has month 0, or
/// a quarter's running sum leaves `i64`.
pub fn try_quarter_rollup(rows: &Vec<PeriodStat>) -> (r: Option<Vec<PeriodStat>>)
    ensures
        r is None <==> !((forall|k: int| 0 <= k < rows@.len() ==> quarter_bucket_ok(
            #[trigger] rows@[k].bucket@,
        )) && quarter_sums_fit(rows@)),
        r matches Some(out) ==> is_quarter_rollup(rows@, out@),
{
    let mut keys: Vec<Vec<char>> = Vec::new();
    let mut sess: Vec<i64> = Vec::new();
    let mut energy: Vec<i64> = Vec::new();
    let ghost mut kv: Seq<Seq<char>> = Seq::empty();
    let ghost mut src: Seq<int> = Seq::empty();
    let ghost mut pos: Seq<int> = Seq::empty();
    let n = rows.len();
    let mut i: usize = 0;
    proof {
        lemma_rollup_start(rows@);
        assert(rows@.take(0) =~= Seq::<PeriodStat>::empty());
    }
    while i < n
        invariant
            n == rows@.len(),
            i <= n,
            forall|r: int| 0 <= r < i ==> quarter_bucket_ok(#[trigger] rows@[r].bucket@),
            sums_fit_upto(rows@, i as int),
            rollup_acc(rows@, i as int, kv, sess@, energy@, src, pos),
            kv.len() == keys@.len(),
            forall|a: int| 0 <= a < kv.len() ==> #[trigger] kv[a] == keys@[a]@,
        decreases n - i,
    {
        let row = &rows[i];
        if !quarter_bucket_ok_exec(&row.bucket) {
            return None;
        }
        let key = quarter_key_of(&row.bucket);
        proof {
            lemma_key_sums_step(rows@, i as int, key@);
        }
        let mut p: usize = 0;
        let mut found = false;
        let mut stop = false;
        while p < keys.len() && !stop
            invariant
                p <= keys@.len(),
                keys@.len() == sess@.len() == energy@.len(),
                kv.len() == keys@.len(),
                forall|a: int| 0 <= a < kv.len() ==> #[trigger] kv[a] == keys@[a]@,
                forall|a: int| 0 <= a < p ==> lex_lt(key@, #[trigger] kv[a]),
                stop ==> p < keys@.len(),
                found ==> stop,
                stop && found ==> kv[p as int] == key@,
                stop && !found ==> lex_lt(kv[p as int], key@),
            decreases keys@.len() - p, (if stop { 0int } else { 1int }),
        {
            match compare_chars(keys[p].as_slice(), key.as_slice()) {
                Cmp::Equal => {
                    assert(kv[p as int] == key@);
                    stop = true;
                    found = true;
                },
                Cmp::Less => {
                    stop = true;
                },
                Cmp::Greater => {
                    p += 1;
                },
            }
        }
        if found {
            proof {
                assert(sess@[p as int] == key_sessions(rows@.take(i as int), kv[p as int]));
                assert(energy@[p as int] == key_energy(rows@.take(i as int), kv[p as int]));
            }
            let s = match sess[p].checked_add(row.sessions) {
                Some(v) => v,
                None => {
                    proof {
                        reveal(quarter_sums_fit);
                        assert(!(i64::MIN <= key_sessions(rows@.take(i + 1), key@) <= i64::MAX));
                    }
                    return None;
                },
            };
            let e = match energy[p].checked_add(row.energy_wh) {
                Some(v) => v,
                None => {
                    proof {
                        reveal(quarter_sums_fit);
                        assert(!(i64::MIN <= key_energy(rows@.take(i + 1), key@) <= i64::MAX));
                    }
                    return None;
                },
            };
            proof {
                lemma_sums_fit_step(rows@, i as int, key@, s as int, e as int);
                lemma_rollup_add(rows@, i as int, kv, sess@, energy@, src, pos, p as int, s, e);
                pos = pos.push(p as int);
            }
            sess.set(p, s);
            energy.set(p, e);
        } else {
            proof {
                lemma_rollup_insert(rows@, i as int, kv, sess@, energy@, src, pos, p as int, key@);
                let ns = sess@.insert(p as int, row.sessions);
                let ne = energy@.insert(p as int, row.energy_wh);
                assert(ns[p as int] == key_sessions(rows@.take(i + 1), key@));
                assert(ne[p as int] == key_energy(rows@.take(i + 1), key@));
                lemma_sums_fit_step(rows@, i as int, key@, row.sessions as int, row.energy_wh as int);
                kv = kv.insert(p as int, key@);
                src = src.insert(p as int, i as int);
                pos = shifted_pos(pos, p as int, i as int);
            }
            keys.insert(p, key);
            sess.insert(p, row.sessions);
            energy.insert(p, row.energy_wh);
        }
        i += 1;
    }
    let mut out: Vec<PeriodStat> = Vec::new();
    let mut j: usize = 0;
    while j < keys.len()
        invariant
            j <= keys@.len(),
            keys@.len() == sess@.len() == energy@.len(),
            out@.len() == j,
            forall|a: int|
                0 <= a < j ==> {
                    &&& (#[trigger] out@[a]).bucket@ == kv[a]
                    &&& out@[a].sessions == sess@[a]
                    &&& out@[a].energy_wh == energy@[a]
                },
            kv.len() == keys@.len(),
            forall|a: int| 0 <= a < kv.len() ==> #[trigger] kv[a] == keys@[a]@,
        decreases keys@.len() - j,
    {
        out.push(
            PeriodStat {
                bucket: string_of(keys[j].as_slice()),
                sessions: sess[j],
                energy_wh: energy[j],
            },
        );
        j += 1;
    }
    proof {
        lemma_rollup_done(rows@, kv, sess@, energy@, src, pos, out@);
        lemma_sums_fit_all(rows@);
    }
    Some(out)
}

/// Month buckets rolled up into quarters (`YYYY-Q1` .. `YYYY-Q4`), summed per
/// quarter, greatest key first.
pub fn quarter_rollup(rows: &Vec<PeriodStat>) -> (out: Vec<PeriodStat>)
    requires
        forall|r: int| 0 <= r < rows@.len() ==> quarter_bucket_ok(#[trigger] rows@[r].bucket@),
        quarter_sums_fit(rows@),
    ensures
        is_quarter_rollup(rows@, out@),
{
    try_quarter_rollup(rows).unwrap()
}

// ---------------------------------------------------------------------------
// The rollup keeps every session and every watt-hour.

/// Sessions (`which`) or energy (`!which`) of a row.
pub open spec fn fld(p: PeriodStat, which: bool) -> int {
    if which {
        p.sessions as int
    } else {
        p.energy_wh as int
    }
}

/// Sum of a field over all rows.
pub open spec fn total(rows: Seq<PeriodStat>, which: bool) -> int
    decreases rows.len(),
{
    if rows.len() == 0 {
        0
    } else {
        total(rows.drop_last(), which) + fld(rows.last(), which)
    }
}

/// Sum of a field over the rows of one quarter.
pub open spec fn key_fld(rows: Seq<PeriodStat>, key: Seq<char>, which: bool) -> int
    decreases rows.len(),
{
    if rows.len() == 0 {
        0
    } else {
        key_fld(rows.drop_last(), key, which) + if quarter_key(rows.last().bucket@) == key {
            fld(rows.last(), which)
        } else {
            0
        }
    }
}

/// Sum of the quarter sums over a list of keys.
pub open spec fn keys_sum(rows: Seq<PeriodStat>, ks: Seq<Seq<char>>, which: bool) -> int
    decreases ks.len(),
{
    if ks.len() == 0 {
        0
    } else {
        keys_sum(rows, ks.drop_last(), which) + key_fld(rows, ks.last(), which)
    }
}

/// How often `x` occurs in `ks`.
pub open spec fn count_eq(ks: Seq<Seq<char>>, x: Seq<char>) -> int
    decreases ks.len(),
{
    if ks.len() == 0 {
        0
    } else {
        count_eq(ks.drop_last(), x) + if ks.last() == x {
            1int
        } else {
            0
        }
    }
}

proof fn lemma_key_fld_is(rows: Seq<PeriodStat>, key: Seq<char>)
    ensures
        key_fld(rows, key, true) == key_sessions(rows, key),
        key_fld(rows, key, false) == key_energy(rows, key),
    decreases rows.len(),
{
    if rows.len() > 0 {
        lemma_key_fld_is(rows.drop_last(), key);
    }
}

proof fn lemma_keys_sum_empty_rows(ks: Seq<Seq<char>>, which: bool)
    ensures
        keys_sum(Seq::empty(), ks, which) == 0,
    decreases ks.len(),
{
    if ks.len() > 0 {
        lemma_keys_sum_empty_rows(ks.drop_last(), which);
    }
}

proof fn lemma_keys_sum_push(rows: Seq<PeriodStat>, r: PeriodStat, ks: Seq<Seq<char>>, which: bool)
    ensures
        keys_sum(rows.push(r), ks, which) == keys_sum(rows, ks, which) + count_eq(
            ks,
            quarter_key(r.bucket@),
        ) * fld(r, which),
    decreases ks.len(),
{
    if ks.len() > 0 {
        lemma_keys_sum_push(rows, r, ks.drop_last(), which);
        assert(rows.push(r).drop_last() =~= rows);
        let c0 = count_eq(ks.drop_last(), quarter_key(r.bucket@));
        let e: int = if ks.last() == quarter_key(r.bucket@) {
            1
        } else {
            0
        };
        assert((c0 + e) * fld(r, which) == c0 * fld(r, which) + e * fld(r, which)) by (nonlinear_arith);
    }
}

proof fn lemma_count_distinct(ks: Seq<Seq<char>>, x: Seq<char>)
    requires
        forall|i: int, j: int| 0 <= i < j < ks.len() ==> ks[i] != ks[j],
        ks.contains(x),
    ensures
        count_eq(ks, x) == 1,
    decreases ks.len(),
{
    let t = ks.drop_last();
    if ks.last() == x {
        assert forall|i: int| 0 <= i < t.len() implies t[i] != x by {
            assert(ks[i] != ks[ks.len() - 1]);
        }
        lemma_count_absent(t, x);
    } else {
        let i = choose|i: int| 0 <= i < ks.len() && ks[i] == x;
        assert(t[i] == x);
        lemma_count_distinct(t, x);
    }
}

proof fn lemma_count_absent(ks: Seq<Seq<char>>, x: Seq<char>)
    requires
        forall|i: int| 0 <= i < ks.len() ==> ks[i] != x,
    ensures
        count_eq(ks, x) == 0,
    decreases ks.len(),
{
    if ks.len() > 0 {
        lemma_count_absent(ks.drop_last(), x);
    }
}

proof fn lemma_keys_sum_total(rows: Seq<PeriodStat>, ks: Seq<Seq<char>>, which: bool)
    requires
        forall|i: int, j: int| 0 <= i < j < ks.len() ==> ks[i] != ks[j],
        forall|r: int| 0 <= r < rows.len() ==> ks.contains(quarter_key(#[trigger] rows[r].bucket@)),
    ensures
        keys_sum(rows, ks, which) == total(rows, which),
    decreases rows.len(),
{
    if rows.len() == 0 {
        assert(rows =~= Seq::<PeriodStat>::empty());
        lemma_keys_sum_empty_rows(ks, which);
    } else {
        let t = rows.drop_last();
        let r = rows.last();
        assert forall|k: int| 0 <= k < t.len() implies ks.contains(quarter_key(#[trigger] t[k].bucket@)) by {
            assert(t[k] == rows[k]);
        }
        lemma_keys_sum_total(t, ks, which);
        assert(t.push(r) =~= rows);
        lemma_keys_sum_push(t, r, ks, which);
        assert(ks.contains(quarter_key(rows[rows.len() - 1].bucket@)));
        lemma_count_distinct(ks, quarter_key(r.bucket@));
    }
}

proof fn lemma_out_sum(rows: Seq<PeriodStat>, out: Seq<PeriodStat>, which: bool)
    requires
        forall|i: int|
            0 <= i < out.len() ==> {
                &&& (#[trigger] out[i]).sessions == key_sessions(rows, out[i].bucket@)
                &&& out[i].energy_wh == key_energy(rows, out[i].bucket@)
            },
    ensures
        total(out, which) == keys_sum(rows, out.map_values(|p: PeriodStat| p.bucket@), which),
    decreases out.len(),
{
    if out.len() > 0 {
        let t = out.drop_last();
        assert forall|i: int| 0 <= i < t.len() implies {
            &&& (#[trigger] t[i]).sessions == key_sessions(rows, t[i].bucket@)
            &&& t[i].energy_wh == key_energy(rows, t[i].bucket@)
        } by {
            assert(t[i] == out[i]);
        }
        lemma_out_sum(rows, t, which);
        let ks = out.map_values(|p: PeriodStat| p.bucket@);
        assert(ks.drop_last() =~= t.map_values(|p: PeriodStat| p.bucket@));
        lemma_key_fld_is(rows, out.last().bucket@);
        assert(out.last() == out[out.len() - 1]);
    }
}

/// Rolling months up into quarters keeps the total number of sessions and
/// the total energy.
pub proof fn lemma_rollup_keeps_totals(rows: Seq<PeriodStat>, out: Seq<PeriodStat>)
    requires
        is_quarter_rollup(rows, out),
    ensures
        total(out, true) == total(rows, true),
        total(out, false) == total(rows, false),
{
    let ks = out.map_values(|p: PeriodStat| p.bucket@);
    assert forall|i: int, j: int| 0 <= i < j < ks.len() implies ks[i] != ks[j] by {
        assert(lex_lt(out[j].bucket@, out[i].bucket@));
        lemma_lex_irreflexive(out[i].bucket@);
    }
    assert forall|r: int| 0 <= r < rows.len() implies ks.contains(quarter_key(#[trigger] rows[r].bucket@)) by {
        assert(is_out_bucket(out, quarter_key(rows[r].bucket@)));
        let i = choose|i: int| 0 <= i < out.len() && (#[trigger] out[i]).bucket@ == quarter_key(rows[r].bucket@);
        assert(ks[i] == quarter_key(rows[r].bucket@));
    }
    lemma_keys_sum_total(rows, ks, true);
    lemma_keys_sum_total(rows, ks, false);
    lemma_out_sum(rows, out, true);
    lemma_out_sum(rows, out, false);
}

/// The period overview from the rows of `overview_sql`: the rows as they
/// are, or rolled up into quarters for `Quarter`.
pub fn overview_from_rows(g: Granularity, rows: Vec<PeriodStat>) -> (out: Vec<PeriodStat>)
    requires
        g == Granularity::Quarter ==> {
            &&& forall|r: int| 0 <= r < rows@.len() ==> quarter_bucket_ok(#[trigger] rows@[r].bucket@)
            &&& quarter_sums_fit(rows@)
        },
    ensures
        g == Granularity::Quarter ==> is_quarter_rollup(rows@, out@),
        g != Granularity::Quarter ==> out@ == rows@,
{
    match g {
        Granularity::Quarter => quarter_rollup(&rows),
        _ => rows,
    }
}

/// Per-employee query over finished transactions, optionally since a start
/// time bound to `?1`.
pub const BY_EMPLOYEE_SINCE_SQL: &'static str = "SELECT COALESCE(e.display_name, t.guest_label, '(Gast)') AS label,
                    COUNT(*) AS sessions,
                    COALESCE(SUM(stop_meter_wh - start_meter_wh), 0) AS energy_wh
             FROM transactions t
             LEFT JOIN employees e ON e.id = t.employee_id
             WHERE stop_meter_wh IS NOT NULL AND t.start_time >= ?1
             GROUP BY label
             ORDER BY energy_wh DESC
             LIMIT 100";

pub const BY_EMPLOYEE_ALL_SQL: &'static str = "SELECT COALESCE(e.display_name, t.guest_label, '(Gast)') AS label,
                    COUNT(*) AS sessions,
                    COALESCE(SUM(stop_meter_wh - start_meter_wh), 0) AS energy_wh
             FROM transactions t
             LEFT JOIN employees e ON e.id = t.employee_id
             WHERE stop_meter_wh IS NOT NULL
             GROUP BY label
             ORDER BY energy_wh DESC
             LIMIT 100";

pub const BY_WALLBOX_SINCE_SQL: &'static str = "SELECT w.name AS label,
                    COUNT(*) AS sessions,
                    COALESCE(SUM(stop_meter_wh - start_meter_wh), 0) AS energy_wh
             FROM transactions t
             JOIN wallboxes w ON w.id = t.wallbox_id
             WHERE stop_meter_wh IS NOT NULL AND t.start_time >= ?1
             GROUP BY w.id
             ORDER BY energy_wh DESC";

pub const BY_WALLBOX_ALL_SQL: &'static str = "SELECT w.name AS label,
                    COUNT(*) AS sessions,
                    COALESCE(SUM(stop_meter_wh - start_meter_wh), 0) AS energy_wh
             FROM transactions t
             JOIN wallboxes w ON w.id = t.wallbox_id
             WHERE stop_meter_wh IS NOT NULL
             GROUP BY w.id
             ORDER BY energy_wh DESC";

pub const EMPLOYEE_VS_GUEST_SQL: &'static str = "SELECT
                 SUM(CASE WHEN t.employee_id IS NOT NULL THEN 1 ELSE 0 END) AS emp_s,
                 SUM(CASE WHEN t.employee_id IS NOT NULL THEN (stop_meter_wh - start_meter_wh) ELSE 0 END) AS emp_e,
                 SUM(CASE WHEN t.employee_id IS NULL THEN 1 ELSE 0 END) AS g_s,
                 SUM(CASE WHEN t.employee_id IS NULL THEN (stop_meter_wh - start_meter_wh) ELSE 0 END) AS g_e
               FROM transactions t
               WHERE stop_meter_wh IS NOT NULL";

/// The per-employee query: restricted by a start time (bound to `?1`) when
/// one is given.
pub fn by_employee_sql(has_since: bool) -> (r: &'static str)
    ensures
        r@ == (if has_since { BY_EMPLOYEE_SINCE_SQL@ } else { BY_EMPLOYEE_ALL_SQL@ }),
{
    if has_since {
        BY_EMPLOYEE_SINCE_SQL
    } else {
        BY_EMPLOYEE_ALL_SQL
    }
}

/// The per-wallbox query: restricted by a start time (bound to `?1`) when
/// one is given.
pub fn by_wallbox_sql(has_since: bool) -> (r: &'static str)
    ensures
        r@ == (if has_since { BY_WALLBOX_SINCE_SQL@ } else { BY_WALLBOX_ALL_SQL@ }),
{
    if has_since {
        BY_WALLBOX_SINCE_SQL
    } else {
        BY_WALLBOX_ALL_SQL
    }
}

/// The employee/guest query, with ` AND t.start_time >= ?1` appended when a
/// start time is given.
pub fn employee_vs_guest_sql(has_since: bool) -> (r: String)
    ensures
        r@ == (if has_since {
            EMPLOYEE_VS_GUEST_SQL@ + " AND t.start_time >= ?1"@
        } else {
            EMPLOYEE_VS_GUEST_SQL@
        }),
{
    let mut s = String::from_str(EMPLOYEE_VS_GUEST_SQL);
    if has_since {
        s.append(" AND t.start_time >= ?1");
    }
    s
}

/// Rows `(label, sessions, energy_wh)` as named statistics, in order.
pub fn named_stats(rows: Vec<(String, i64, i64)>) -> (out: Vec<NamedStat>)
    ensures
        out@.len() == rows@.len(),
        forall|k: int|
            0 <= k < rows@.len() ==> {
                &&& (#[trigger] out@[k]).label@ == rows@[k].0@
                &&& out@[k].sessions == rows@[k].1
                &&& out@[k].energy_wh == rows@[k].2
            },
{
    let mut out: Vec<NamedStat> = Vec::new();
    let mut rest = rows;
    let ghost all = rest@;
    // take the rows from the back into a reversed list, then pop them off in order
    let mut rev: Vec<(String, i64, i64)> = Vec::new();
    while rest.len() > 0
        invariant
            rev@.len() + rest@.len() == all.len(),
            rest@ == all.subrange(0, rest@.len() as int),
            forall|k: int| 0 <= k < rev@.len() ==> #[trigger] rev@[k] == all[all.len() - 1 - k],
        decreases rest@.len(),
    {
        let x = rest.pop().unwrap();
        rev.push(x);
    }
    while rev.len() > 0
        invariant
            out@.len() + rev@.len() == all.len(),
            forall|k: int| 0 <= k < rev@.len() ==> #[trigger] rev@[k] == all[all.len() - 1 - k],
            forall|k: int|
                0 <= k < out@.len() ==> {
                    &&& (#[trigger] out@[k]).label@ == all[k].0@
                    &&& out@[k].sessions == all[k].1
                    &&& out@[k].energy_wh == all[k].2
                },
        decreases rev@.len(),
    {
        let (label, sessions, energy_wh) = rev.pop().unwrap();
        out.push(NamedStat { label, sessions, energy_wh });
    }
    out
}

/// The employee/guest split from the sums of `EMPLOYEE_VS_GUEST_SQL`
/// (each `NULL` when no row matched): missing counts read as 0, and energy
/// sums below 0 as 0.
pub fn guest_split_from_row(row: (Option<i64>, Option<i64>, Option<i64>, Option<i64>)) -> (g: GuestSplit)
    ensures
        g.employee_sessions == (match row.0 { Some(v) => v, None => 0 }),
        g.employee_wh == (match row.1 { Some(v) => if v > 0 { v } else { 0 }, None => 0 }),
        g.guest_sessions == (match row.2 { Some(v) => v, None => 0 }),
        g.guest_wh == (match row.3 { Some(v) => if v > 0 { v } else { 0 }, None => 0 }),
{
    let ew = row.1.unwrap_or(0);
    let gw = row.3.unwrap_or(0);
    GuestSplit {
        employee_sessions: row.0.unwrap_or(0),
        employee_wh: if ew > 0 { ew } else { 0 },
        guest_sessions: row.2.unwrap_or(0),
        guest_wh: if gw > 0 { gw } else { 0 },
    }
}

/// The roll-up queries: per label (employee name, else guest label, else
/// `(Gast)`) and per wallbox, counting the finished transactions and summing
/// stop minus start meter value, biggest energy first (at most 100 labels),
/// optionally from a start time bound to `?1`; and the employee/guest split
/// over finished transactions.
pub proof fn lemma_rollup_query_texts()
    ensures
        BY_EMPLOYEE_SINCE_SQL@ == "SELECT COALESCE(e.display_name, t.guest_label, '(Gast)') AS label,
                    COUNT(*) AS sessions,
                    COALESCE(SUM(stop_meter_wh - start_meter_wh), 0) AS energy_wh
             FROM transactions t
             LEFT JOIN employees e ON e.id = t.employee_id
             WHERE stop_meter_wh IS NOT NULL AND t.start_time >= ?1
             GROUP BY label
             ORDER BY energy_wh DESC
             LIMIT 100"@,
        BY_EMPLOYEE_ALL_SQL@ == "SELECT COALESCE(e.display_name, t.guest_label, '(Gast)') AS label,
                    COUNT(*) AS sessions,
                    COALESCE(SUM(stop_meter_wh - start_meter_wh), 0) AS energy_wh
             FROM transactions t
             LEFT JOIN employees e ON e.id = t.employee_id
             WHERE stop_meter_wh IS NOT NULL
             GROUP BY label
             ORDER BY energy_wh DESC
             LIMIT 100"@,
        BY_WALLBOX_SINCE_SQL@ == "SELECT w.name AS label,
                    COUNT(*) AS sessions,
                    COALESCE(SUM(stop_meter_wh - start_meter_wh), 0) AS energy_wh
             FROM transactions t
             JOIN wallboxes w ON w.id = t.wallbox_id
             WHERE stop_meter_wh IS NOT NULL AND t.start_time >= ?1
             GROUP BY w.id
             ORDER BY energy_wh DESC"@,
        BY_WALLBOX_ALL_SQL@ == "SELECT w.name AS label,
                    COUNT(*) AS sessions,
                    COALESCE(SUM(stop_meter_wh - start_meter_wh), 0) AS energy_wh
             FROM transactions t
             JOIN wallboxes w ON w.id = t.wallbox_id
             WHERE stop_meter_wh IS NOT NULL
             GROUP BY w.id
             ORDER BY energy_wh DESC"@,
        EMPLOYEE_VS_GUEST_SQL@ == "SELECT
                 SUM(CASE WHEN t.employee_id IS NOT NULL THEN 1 ELSE 0 END) AS emp_s,
                 SUM(CASE WHEN t.employee_id IS NOT NULL THEN (stop_meter_wh - start_meter_wh) ELSE 0 END) AS emp_e,
                 SUM(CASE WHEN t.employee_id IS NULL THEN 1 ELSE 0 END) AS g_s,
                 SUM(CASE WHEN t.employee_id IS NULL THEN (stop_meter_wh - start_meter_wh) ELSE 0 END) AS g_e
               FROM transactions t
               WHERE stop_meter_wh IS NOT NULL"@,
{
    reveal_strlit("SELECT COALESCE(e.display_name, t.guest_label, '(Gast)') AS label,
                    COUNT(*) AS sessions,
                    COALESCE(SUM(stop_meter_wh - start_meter_wh), 0) AS energy_wh
             FROM transactions t
             LEFT JOIN employees e ON e.id = t.employee_id
             WHERE stop_meter_wh IS NOT NULL AND t.start_time >= ?1
             GROUP BY label
             ORDER BY energy_wh DESC
             LIMIT 100");
    reveal_strlit("SELECT COALESCE(e.display_name, t.guest_label, '(Gast)') AS label,
                    COUNT(*) AS sessions,
                    COALESCE(SUM(stop_meter_wh - start_meter_wh), 0) AS energy_wh
             FROM transactions t
             LEFT JOIN employees e ON e.id = t.employee_id
             WHERE stop_meter_wh IS NOT NULL
             GROUP BY label
             ORDER BY energy_wh DESC
             LIMIT 100");
    reveal_strlit("SELECT w.name AS label,
                    COUNT(*) AS sessions,
                    COALESCE(SUM(stop_meter_wh - start_meter_wh), 0) AS energy_wh
             FROM transactions t
             JOIN wallboxes w ON w.id = t.wallbox_id
             WHERE stop_meter_wh IS NOT NULL AND t.start_time >= ?1
             GROUP BY w.id
             ORDER BY energy_wh DESC");
    reveal_strlit("SELECT w.name AS label,
                    COUNT(*) AS sessions,
                    COALESCE(SUM(stop_meter_wh - start_meter_wh), 0) AS energy_wh
             FROM transactions t
             JOIN wallboxes w ON w.id = t.wallbox_id
             WHERE stop_meter_wh IS NOT NULL
             GROUP BY w.id
             ORDER BY energy_wh DESC");
    reveal_strlit("SELECT
                 SUM(CASE WHEN t.employee_id IS NOT NULL THEN 1 ELSE 0 END) AS emp_s,
                 SUM(CASE WHEN t.employee_id IS NOT NULL THEN (stop_meter_wh - start_meter_wh) ELSE 0 END) AS emp_e,
                 SUM(CASE WHEN t.employee_id IS NULL THEN 1 ELSE 0 END) AS g_s,
                 SUM(CASE WHEN t.employee_id IS NULL THEN (stop_meter_wh - start_meter_wh) ELSE 0 END) AS g_e
               FROM transactions t
               WHERE stop_meter_wh IS NOT NULL");
}

} // verus!
