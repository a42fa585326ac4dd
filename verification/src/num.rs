//! Decimal text of integers: formatting (as `Display` writes it) and
//! parsing (as `FromStr` reads it), with their specifications.

use vstd::prelude::*;

verus! {

/// The ASCII digit for `d` (`0 <= d < 10`).
pub open spec fn digit_char(d: int) -> char {
    ((48 + d) as u8) as char
}

pub open spec fn is_digit(c: char) -> bool {
    '0' <= c && c <= '9'
}

/// The value of an ASCII digit.
pub open spec fn digit_value(c: char) -> int {
    (c as int) - 48
}

/// Decimal digits of `n`, without leading zeros (`"0"` for zero).
pub open spec fn dec_nat(n: nat) -> Seq<char>
    decreases n,
{
    if n < 10 {
        seq![digit_char(n as int)]
    } else {
        dec_nat(n / 10).push(digit_char((n % 10) as int))
    }
}

/// Decimal text of an integer, with a leading `-` when negative (`Display`).
pub open spec fn dec_int(i: int) -> Seq<char> {
    if i < 0 {
        seq!['-'] + dec_nat((-i) as nat)
    } else {
        dec_nat(i as nat)
    }
}

/// `n` zero characters.
pub open spec fn zeros(n: int) -> Seq<char> {
    Seq::new(if n > 0 { n as nat } else { 0 }, |k: int| '0')
}

/// Decimal text of `i` zero-padded to at least `w` characters, the sign
/// counted in the width (`format!("{:0w$}", i)`).
pub open spec fn dec_int_padded(i: int, w: int) -> Seq<char> {
    if i < 0 {
        seq!['-'] + zeros(w - 1 - dec_nat((-i) as nat).len()) + dec_nat((-i) as nat)
    } else {
        zeros(w - dec_nat(i as nat).len()) + dec_nat(i as nat)
    }
}

/// Value of a run of ASCII digits.
pub open spec fn digits_value(ds: Seq<char>) -> int
    decreases ds.len(),
{
    if ds.len() == 0 {
        0
    } else {
        digits_value(ds.drop_last()) * 10 + digit_value(ds.last())
    }
}

pub open spec fn all_digits(ds: Seq<char>) -> bool {
    forall|k: int| 0 <= k < ds.len() ==> is_digit(#[trigger] ds[k])
}

/// What `i64::from_str` accepts: an optional `+` or `-`, then at least one
/// ASCII digit and nothing else, with a value that fits in `i64`.
pub open spec fn parse_i64_spec(s: Seq<char>) -> Option<int> {
    if s.len() == 0 {
        None
    } else {
        let neg = s[0] == '-';
        let ds = if s[0] == '-' || s[0] == '+' { s.drop_first() } else { s };
        if ds.len() == 0 || !all_digits(ds) {
            None
        } else {
            let v = if neg { -digits_value(ds) } else { digits_value(ds) };
            if i64::MIN <= v <= i64::MAX { Some(v) } else { None }
        }
    }
}

/// What `u32::from_str` accepts: an optional `+`, then at least one ASCII
/// digit and nothing else, with a value that fits in `u32`.
pub open spec fn parse_u32_spec(s: Seq<char>) -> Option<int> {
    if s.len() == 0 {
        None
    } else {
        let ds = if s[0] == '+' { s.drop_first() } else { s };
        if ds.len() == 0 || !all_digits(ds) {
            None
        } else {
            let v = digits_value(ds);
            if v <= u32::MAX { Some(v) } else { None }
        }
    }
}

pub proof fn lemma_digit_char(d: int)
    requires
        0 <= d < 10,
    ensures
        is_digit(digit_char(d)),
        digit_value(digit_char(d)) == d,
        digit_char(d) == '0' <==> d == 0,
{
    assert(((48 + d) as u8) as int == 48 + d);
}

pub proof fn lemma_dec_nat_digits(n: nat)
    ensures
        all_digits(dec_nat(n)),
        dec_nat(n).len() >= 1,
        digits_value(dec_nat(n)) == n,
        dec_nat(n)[0] != '0' || n == 0,
    decreases n,
{
    lemma_digit_char((n % 10) as int);
    if n < 10 {
        assert(n % 10 == n);
        let s = seq![digit_char(n as int)];
        assert(s.drop_last() =~= Seq::<char>::empty());
        assert(digits_value(s) == digits_value(s.drop_last()) * 10 + digit_value(s.last()));
    }
    if n >= 10 {
        lemma_dec_nat_digits(n / 10);
        let p = dec_nat(n / 10);
        let s = p.push(digit_char((n % 10) as int));
        assert(s.drop_last() =~= p);
        assert(s[0] == p[0]);
        assert(digits_value(s) == digits_value(p) * 10 + digit_value(s.last()));
        assert((n / 10) * 10 + n % 10 == n);
        assert(all_digits(s)) by {
            assert forall|k: int| 0 <= k < s.len() implies is_digit(#[trigger] s[k]) by {
                if k < p.len() {
                    assert(s[k] == p[k]);
                }
            }
        }
    }
}

proof fn lemma_digits_value_nonneg(ds: Seq<char>)
    requires
        all_digits(ds),
    ensures
        digits_value(ds) >= 0,
    decreases ds.len(),
{
    if ds.len() > 0 {
        assert(all_digits(ds.drop_last())) by {
            assert forall|k: int| 0 <= k < ds.drop_last().len() implies is_digit(
                #[trigger] ds.drop_last()[k],
            ) by {
                assert(ds.drop_last()[k] == ds[k]);
            }
        }
        lemma_digits_value_nonneg(ds.drop_last());
        assert(is_digit(ds.last()));
    }
}

/// Digits of `n`, as characters.
pub fn fmt_u64(n: u64) -> (r: Vec<char>)
    ensures
        r@ == dec_nat(n as nat),
{
    let mut q: u64 = n;
    let mut r: Vec<char> = Vec::new();
    while q >= 10
        invariant
            dec_nat(n as nat) == dec_nat(q as nat) + r@,
        decreases q,
    {
        let d = (q % 10) as u8;
        let c = (48u8 + d) as char;
        let ghost old_r = r@;
        r.insert(0, c);
        proof {
            assert(dec_nat(q as nat) == dec_nat((q / 10) as nat).push(digit_char((q % 10) as int)));
            assert(dec_nat((q / 10) as nat).push(c) + old_r =~= dec_nat((q / 10) as nat) + r@);
        }
        q = q / 10;
    }
    let c = (48u8 + (q as u8)) as char;
    let ghost old_r = r@;
    r.insert(0, c);
    proof {
        assert(dec_nat(q as nat) == seq![c]);
        assert(seq![c] + old_r =~= r@);
    }
    r
}

/// Decimal text of `i`, as `i64`'s `Display` writes it.
pub fn fmt_i64(i: i64) -> (r: Vec<char>)
    ensures
        r@ == dec_int(i as int),
{
    if i < 0 {
        let mag: u64 = if i == i64::MIN {
            9223372036854775808u64
        } else {
            (-i) as u64
        };
        let digits = fmt_u64(mag);
        let mut r: Vec<char> = Vec::new();
        r.push('-');
        let mut k: usize = 0;
        while k < digits.len()
            invariant
                k <= digits@.len(),
                r@ =~= seq!['-'] + digits@.subrange(0, k as int),
            decreases digits@.len() - k,
        {
            r.push(digits[k]);
            k += 1;
        }
        assert(digits@.subrange(0, digits@.len() as int) =~= digits@);
        r
    } else {
        fmt_u64(i as u64)
    }
}

/// `format!("{:0w$}", i)` for `i32` values, as characters.
pub fn fmt_i32_padded(i: i32, w: usize) -> (r: Vec<char>)
    requires
        w <= 64,
    ensures
        r@ == dec_int_padded(i as int, w as int),
{
    let neg = i < 0;
    let mag: u64 = if neg {
        (-(i as i64)) as u64
    } else {
        i as u64
    };
    let digits = fmt_u64(mag);
    let mut r: Vec<char> = Vec::new();
    if neg {
        r.push('-');
    }
    let room: usize = if neg && w > 0 {
        w - 1
    } else if neg {
        0
    } else {
        w
    };
    let pad: usize = if room > digits.len() {
        room - digits.len()
    } else {
        0
    };
    let ghost start = r@;
    let mut k: usize = 0;
    while k < pad
        invariant
            k <= pad,
            r@ =~= start + zeros(k as int),
        decreases pad - k,
    {
        r.push('0');
        k += 1;
    }
    let ghost mid = r@;
    let mut j: usize = 0;
    while j < digits.len()
        invariant
            j <= digits@.len(),
            r@ =~= mid + digits@.subrange(0, j as int),
        decreases digits@.len() - j,
    {
        r.push(digits[j]);
        j += 1;
    }
    proof {
        assert(digits@.subrange(0, digits@.len() as int) =~= digits@);
        if neg {
            assert(zeros(pad as int) =~= zeros(w - 1 - dec_nat((-i) as nat).len()));
        } else {
            assert(zeros(pad as int) =~= zeros(w - dec_nat(i as nat).len()));
        }
    }
    r
}

/// Decimal digits of `n`, zero-padded to at least `w` characters.
pub fn fmt_u64_padded(n: u64, w: usize) -> (r: Vec<char>)
    ensures
        r@ == dec_int_padded(n as int, w as int),
{
    let digits = fmt_u64(n);
    let pad: usize = if w > digits.len() {
        w - digits.len()
    } else {
        0
    };
    let mut r: Vec<char> = Vec::new();
    let mut k: usize = 0;
    while k < pad
        invariant
            k <= pad,
            r@ =~= zeros(k as int),
        decreases pad - k,
    {
        r.push('0');
        k += 1;
    }
    let ghost mid = r@;
    let mut j: usize = 0;
    while j < digits.len()
        invariant
            j <= digits@.len(),
            r@ =~= mid + digits@.subrange(0, j as int),
        decreases digits@.len() - j,
    {
        r.push(digits[j]);
        j += 1;
    }
    proof {
        assert(digits@.subrange(0, digits@.len() as int) =~= digits@);
        assert(zeros(pad as int) =~= zeros(w - dec_nat(n as nat).len()));
    }
    r
}

proof fn lemma_digits_value_prefix(ds: Seq<char>, k: int)
    requires
        all_digits(ds),
        0 <= k <= ds.len(),
    ensures
        digits_value(ds.subrange(0, k)) <= digits_value(ds),
    decreases ds.len() - k,
{
    if k < ds.len() {
        let t = ds.drop_last();
        assert(all_digits(t)) by {
            assert forall|m: int| 0 <= m < t.len() implies is_digit(#[trigger] t[m]) by {
                assert(t[m] == ds[m]);
            }
        }
        lemma_digits_value_prefix(t, k);
        assert(t.subrange(0, k) =~= ds.subrange(0, k));
        lemma_digits_value_nonneg(t);
        assert(is_digit(ds.last()));
    } else {
        assert(ds.subrange(0, k) =~= ds);
    }
}

/// Value of the digit run `s[start..]` when every character there is an ASCII
/// digit, the run is non-empty and the value is at most `limit`.
fn parse_digit_run(s: &[char], start: usize, limit: u64) -> (r: Option<u64>)
    requires
        start <= s@.len(),
        limit >= 9,
    ensures
        ({
            let ds = s@.subrange(start as int, s@.len() as int);
            match r {
                Some(v) => ds.len() > 0 && all_digits(ds) && v == digits_value(ds) && v <= limit,
                None => ds.len() == 0 || !all_digits(ds) || digits_value(ds) > limit,
            }
        }),
{
    let n = s.len();
    if start >= n {
        return None;
    }
    let ghost ds = s@.subrange(start as int, n as int);
    let mut acc: u64 = 0;
    let mut k: usize = start;
    while k < n
        invariant
            start <= k <= n,
            n == s@.len(),
            ds == s@.subrange(start as int, n as int),
            all_digits(ds.subrange(0, k - start)),
            acc == digits_value(ds.subrange(0, k - start)),
            acc <= limit,
            limit >= 9,
        decreases n - k,
    {
        let c = s[k];
        if !('0' <= c && c <= '9') {
            proof {
                assert(ds[k - start] == c);
            }
            return None;
        }
        let d: u64 = (c as u64) - 48;
        assert(d <= 9);
        let ghost pre = ds.subrange(0, k - start);
        let ghost nxt = ds.subrange(0, k + 1 - start);
        proof {
            assert(nxt.drop_last() =~= pre);
            assert(nxt.last() == c);
            assert(all_digits(nxt)) by {
                assert forall|m: int| 0 <= m < nxt.len() implies is_digit(#[trigger] nxt[m]) by {
                    if m < pre.len() {
                        assert(nxt[m] == pre[m]);
                    }
                }
            }
        }
        if acc > (limit - d) / 10 {
            proof {
                assert(digits_value(nxt) == acc * 10 + d);
                assert(acc * 10 + d > limit) by (nonlinear_arith)
                    requires
                        acc > (limit - d) / 10,
                        d <= 9,
                        limit >= 9,
                ;
                if all_digits(ds) {
                    lemma_digits_value_prefix(ds, k + 1 - start);
                }
            }
            return None;
        }
        proof {
            assert(acc * 10 + d <= limit) by (nonlinear_arith)
                requires
                    acc <= (limit - d) / 10,
                    d <= 9,
                    limit >= 9,
            ;
        }
        acc = acc * 10 + d;
        k += 1;
    }
    assert(ds.subrange(0, n - start) =~= ds);
    Some(acc)
}

/// `i64::from_str` over characters.
pub fn parse_i64(s: &[char]) -> (r: Option<i64>)
    ensures
        match r {
            Some(v) => parse_i64_spec(s@) == Some(v as int),
            None => parse_i64_spec(s@) is None,
        },
{
    if s.len() == 0 {
        return None;
    }
    let neg = s[0] == '-';
    let start: usize = if s[0] == '-' || s[0] == '+' {
        1
    } else {
        0
    };
    let limit: u64 = if neg {
        9223372036854775808u64
    } else {
        9223372036854775807u64
    };
    proof {
        if start == 1 {
            assert(s@.subrange(1, s@.len() as int) =~= s@.drop_first());
        } else {
            assert(s@.subrange(0, s@.len() as int) =~= s@);
        }
    }
    match parse_digit_run(s, start, limit) {
        None => None,
        Some(v) => {
            if neg {
                if v == 9223372036854775808u64 {
                    Some(i64::MIN)
                } else {
                    Some(-(v as i64))
                }
            } else {
                Some(v as i64)
            }
        },
    }
}

/// `u32::from_str` over characters.
pub fn parse_u32(s: &[char]) -> (r: Option<u32>)
    ensures
        match r {
            Some(v) => parse_u32_spec(s@) == Some(v as int),
            None => parse_u32_spec(s@) is None,
        },
{
    if s.len() == 0 {
        return None;
    }
    let start: usize = if s[0] == '+' {
        1
    } else {
        0
    };
    proof {
        if start == 1 {
            assert(s@.subrange(1, s@.len() as int) =~= s@.drop_first());
        } else {
            assert(s@.subrange(0, s@.len() as int) =~= s@);
        }
    }
    match parse_digit_run(s, start, 4294967295u64) {
        None => None,
        Some(v) => Some(v as u32),
    }
}

/// Reading back the decimal text of an `i64` gives the number again.
pub proof fn lemma_i64_text_roundtrip(i: i64)
    ensures
        parse_i64_spec(dec_int(i as int)) == Some(i as int),
{
    if i < 0 {
        let m = (-i) as nat;
        lemma_dec_nat_digits(m);
        let s = dec_int(i as int);
        assert(s[0] == '-');
        assert(s.drop_first() =~= dec_nat(m));
    } else {
        let m = i as nat;
        lemma_dec_nat_digits(m);
        let s = dec_int(i as int);
        assert(is_digit(s[0]));
    }
}

/// Reading back the decimal text of a `u32` gives the number again.
pub proof fn lemma_u32_text_roundtrip(v: u32)
    ensures
        parse_u32_spec(dec_nat(v as nat)) == Some(v as int),
{
    lemma_dec_nat_digits(v as nat);
    assert(is_digit(dec_nat(v as nat)[0]));
}

} // verus!
