use vstd::prelude::*;

use crate::decimal::Decimal;
use crate::text::{
    all_digits, digit_value, digits_value, is_digit, lemma_digits_value_bound,
    lemma_digits_value_concat, lemma_digits_value_zero, lemma_pow10_18, lemma_pow10_monotonic,
    pow10,
};

verus! {

/// 1 when the text starts with `+` or `-`, else 0.
pub open spec fn sign_len(s: Seq<char>) -> int {
    if s.len() > 0 && (s[0] == '+' || s[0] == '-') {
        1
    } else {
        0
    }
}

pub open spec fn starts_negative(s: Seq<char>) -> bool {
    s.len() > 0 && s[0] == '-'
}

/// An integer written as an optional sign and one or more decimal digits,
/// when it fits in an `i64`.
pub open spec fn i64_of_text(s: Seq<char>) -> Option<i64> {
    let body = s.skip(sign_len(s));
    let m = digits_value(body) as int;
    let v = if starts_negative(s) {
        -m
    } else {
        m
    };
    if body.len() > 0 && all_digits(body) && i64::MIN <= v <= i64::MAX {
        Some(v as i64)
    } else {
        None
    }
}

/// Position of the first `.`, or the length when there is none.
pub open spec fn dot_index(b: Seq<char>) -> nat
    decreases b.len(),
{
    if b.len() == 0 {
        0
    } else if b[0] == '.' {
        0
    } else {
        1 + dot_index(b.skip(1))
    }
}

pub open spec fn is_exp_mark(c: char) -> bool {
    c == 'e' || c == 'E'
}

/// Position of the first `e` or `E`, or the length when there is none.
pub open spec fn exp_index(b: Seq<char>) -> nat
    decreases b.len(),
{
    if b.len() == 0 {
        0
    } else if is_exp_mark(b[0]) {
        0
    } else {
        1 + exp_index(b.skip(1))
    }
}

/// The text after the sign and before the exponent mark.
pub open spec fn mantissa(s: Seq<char>) -> Seq<char> {
    let body = s.skip(sign_len(s));
    body.take(exp_index(body) as int)
}

/// The text after the exponent mark, when there is one.
pub open spec fn exponent_text(s: Seq<char>) -> Option<Seq<char>> {
    let body = s.skip(sign_len(s));
    let x = exp_index(body);
    if x < body.len() {
        Some(body.skip(x + 1int))
    } else {
        None
    }
}

/// Whether the exponent, if any, is an optional sign and one or more digits
/// whose value fits in a `u64`.
pub open spec fn exponent_ok(s: Seq<char>) -> bool {
    match exponent_text(s) {
        None => true,
        Some(e) => {
            let d = e.skip(sign_len(e));
            d.len() > 0 && all_digits(d) && digits_value(d) <= u64::MAX
        },
    }
}

/// The power of ten that the exponent, if any, stands for.
pub open spec fn exponent_value(s: Seq<char>) -> int {
    match exponent_text(s) {
        None => 0,
        Some(e) => {
            let v = digits_value(e.skip(sign_len(e))) as int;
            if starts_negative(e) {
                -v
            } else {
                v
            }
        },
    }
}

/// The digits before the point.
pub open spec fn int_digits(s: Seq<char>) -> Seq<char> {
    let m = mantissa(s);
    m.take(dot_index(m) as int)
}

/// The digits after the point (none when there is no point).
pub open spec fn frac_digits(s: Seq<char>) -> Seq<char> {
    let m = mantissa(s);
    let d = dot_index(m);
    if d < m.len() {
        m.skip(d + 1int)
    } else {
        Seq::empty()
    }
}

/// How many leading `0` digits there are.
pub open spec fn lead_zeros(c: Seq<char>) -> nat
    decreases c.len(),
{
    if c.len() > 0 && c[0] == '0' {
        1 + lead_zeros(c.skip(1))
    } else {
        0
    }
}

/// How many trailing digits are rounded away so that at most 19 significant
/// digits remain.
pub open spec fn dropped_digits(c: Seq<char>) -> nat {
    let sig = c.len() - lead_zeros(c);
    if sig > 19 {
        (sig - 19) as nat
    } else {
        0
    }
}

/// The number the digits denote, rounded to its first 19 significant digits,
/// ties to even; it counts in units of `10^dropped_digits(c)`.
pub open spec fn kept_value(c: Seq<char>) -> nat {
    let k = dropped_digits(c);
    let m = c.len() - k;
    let q = digits_value(c.take(m));
    let r = digits_value(c.skip(m));
    let p = pow10(k);
    if 2 * r < p {
        q
    } else if 2 * r > p {
        q + 1
    } else if q % 2 == 0 {
        q
    } else {
        q + 1
    }
}

/// A decimal written as an optional sign, digits, optionally a point and more
/// digits (at least one digit in all), and optionally an exponent: `e` or
/// `E`, an optional sign and digits. Any number of digits is accepted; beyond
/// 19 significant digits the value is rounded, ties to even. Refused are
/// `inf` and `NaN`, which a `Decimal` cannot hold, and exponents beyond
/// `u64::MAX`.
pub open spec fn decimal_of_text(s: Seq<char>) -> Option<Decimal> {
    let ip = int_digits(s);
    let fp = frac_digits(s);
    if all_digits(ip) && all_digits(fp) && ip.len() + fp.len() > 0 && exponent_ok(s) {
        Some(
            Decimal {
                negative: starts_negative(s),
                digits: kept_value(ip + fp) as u64,
                scale: (fp.len() - dropped_digits(ip + fp) - exponent_value(s)) as i128,
            },
        )
    } else {
        None
    }
}

/// With at most 19 significant digits nothing is rounded away.
pub proof fn lemma_kept_exact(c: Seq<char>)
    requires
        c.len() - lead_zeros(c) <= 19,
    ensures
        dropped_digits(c) == 0,
        kept_value(c) == digits_value(c),
{
    assert(c.take(c.len() as int) =~= c);
    assert(c.skip(c.len() as int) =~= Seq::<char>::empty());
}

proof fn lemma_lead_zeros(c: Seq<char>, z: int)
    requires
        0 <= z <= c.len(),
        forall|t: int| 0 <= t < z ==> c[t] == '0',
        z == c.len() || c[z] != '0',
    ensures
        lead_zeros(c) == z,
    decreases z,
{
    if z > 0 {
        lemma_lead_zeros(c.skip(1), z - 1);
    }
}

proof fn lemma_pow10_19()
    ensures
        pow10(19) == 10000000000000000000nat,
{
    lemma_pow10_18();
}

pub proof fn lemma_digits_value_prefix(s: Seq<char>, j: int)
    requires
        0 <= j <= s.len(),
    ensures
        digits_value(s.take(j)) <= digits_value(s),
    decreases s.len(),
{
    if j < s.len() {
        lemma_digits_value_prefix(s.drop_last(), j);
        assert(s.drop_last().take(j) =~= s.take(j));
    } else {
        assert(s.take(j) =~= s);
    }
}

pub proof fn lemma_dot_index(b: Seq<char>, j: int)
    requires
        0 <= j <= b.len(),
        all_digits(b.take(j)),
    ensures
        dot_index(b) <= b.len(),
        j == b.len() ==> dot_index(b) == j,
        j < b.len() && b[j] == '.' ==> dot_index(b) == j,
        j < b.len() && b[j] != '.' ==> dot_index(b) > j,
    decreases j,
{
    lemma_dot_index_bound(b);
    if j > 0 {
        assert(is_digit(b.take(j)[0]));
        assert(b.skip(1).take(j - 1) =~= b.take(j).skip(1));
        assert(all_digits(b.skip(1).take(j - 1))) by {
            assert forall|i: int| 0 <= i < j - 1 implies is_digit(#[trigger] b.skip(1).take(j - 1)[i]) by {
                assert(b.skip(1).take(j - 1)[i] == b.take(j)[i + 1]);
            }
        }
        lemma_dot_index(b.skip(1), j - 1);
    }
}

pub proof fn lemma_exp_index(b: Seq<char>, j: int)
    requires
        0 <= j <= b.len(),
        forall|t: int| 0 <= t < j ==> !is_exp_mark(#[trigger] b[t]),
    ensures
        exp_index(b) <= b.len(),
        j == b.len() ==> exp_index(b) == j,
        j < b.len() && is_exp_mark(b[j]) ==> exp_index(b) == j,
        j < b.len() && !is_exp_mark(b[j]) ==> exp_index(b) > j,
    decreases j,
{
    lemma_exp_index_bound(b);
    if j > 0 {
        assert(!is_exp_mark(b[0]));
        assert forall|t: int| 0 <= t < j - 1 implies !is_exp_mark(#[trigger] b.skip(1)[t]) by {
            assert(b.skip(1)[t] == b[t + 1]);
        }
        lemma_exp_index(b.skip(1), j - 1);
    }
}

pub proof fn lemma_exp_index_bound(b: Seq<char>)
    ensures
        exp_index(b) <= b.len(),
    decreases b.len(),
{
    if b.len() > 0 && !is_exp_mark(b[0]) {
        lemma_exp_index_bound(b.skip(1));
    }
}

pub proof fn lemma_dot_index_bound(b: Seq<char>)
    ensures
        dot_index(b) <= b.len(),
    decreases b.len(),
{
    if b.len() > 0 && b[0] != '.' {
        lemma_dot_index_bound(b.skip(1));
    }
}

/// Reads decimal digits of `s` from `from` on, continuing the number `acc`
/// whose digits are `pre`. Stops at the first other character, at the end, or
/// as soon as the number leaves `u64`.
fn read_digits(s: &str, from: usize, len: usize, acc: u64, Ghost(pre): Ghost<Seq<char>>) -> (r: (usize, Option<u64>))
    requires
        len == s@.len(),
        from <= len,
        acc as nat == digits_value(pre),
    ensures
        from <= r.0 <= len,
        all_digits(s@.subrange(from as int, r.0 as int)),
        r.1 is Some ==> r.1->0 as nat == digits_value(pre + s@.subrange(from as int, r.0 as int)),
        r.1 is Some ==> r.0 < len ==> !is_digit(s@[r.0 as int]),
        r.1 is None ==> digits_value(pre + s@.subrange(from as int, r.0 as int)) > u64::MAX,
{
    let mut i: usize = from;
    let mut acc: u64 = acc;
    while i < len
        invariant
            len == s@.len(),
            from <= i <= len,
            all_digits(s@.subrange(from as int, i as int)),
            acc as nat == digits_value(pre + s@.subrange(from as int, i as int)),
        decreases len - i,
    {
        let c = s.get_char(i);
        if !('0' <= c && c <= '9') {
            return (i, Some(acc));
        }
        let d: u64 = ((c as u32) - ('0' as u32)) as u64;
        let v: u128 = (acc as u128) * 10 + (d as u128);
        proof {
            let t = pre + s@.subrange(from as int, i + 1);
            assert(t.drop_last() =~= pre + s@.subrange(from as int, i as int));
            assert(t.last() == c);
            assert(digit_value(c) == d);
            assert(all_digits(s@.subrange(from as int, i + 1))) by {
                assert forall|k: int| 0 <= k < i + 1 - from implies is_digit(#[trigger] s@.subrange(from as int, i + 1)[k]) by {
                    if k < i - from {
                        assert(s@.subrange(from as int, i + 1)[k] == s@.subrange(from as int, i as int)[k]);
                    }
                }
            }
        }
        if v > u64::MAX as u128 {
            return (i + 1, None);
        }
        acc = v as u64;
        i = i + 1;
    }
    (i, Some(acc))
}

/// Reads an integer: an optional sign and one or more decimal digits, within
/// the range of `i64`.
pub fn parse_i64(s: &str) -> (r: Option<i64>)
    ensures
        r == i64_of_text(s@),
{
    let len = s.unicode_len();
    let mut k: usize = 0;
    let mut neg = false;
    if len > 0 {
        let c0 = s.get_char(0);
        if c0 == '+' || c0 == '-' {
            k = 1;
            neg = c0 == '-';
        }
    }
    let ghost body = s@.skip(sign_len(s@));
    assert(k == sign_len(s@));
    assert(neg == starts_negative(s@));
    if k == len {
        return None;
    }
    let (end, res) = read_digits(s, k, len, 0, Ghost(Seq::empty()));
    proof {
        assert(Seq::<char>::empty() + s@.subrange(k as int, end as int) =~= body.take(end - k));
    }
    if end < len {
        proof {
            assert(body[end - k] == s@[end as int]);
        }
        if res.is_some() {
            return None;
        }
    }
    match res {
        None => {
            proof {
                if all_digits(body) {
                    lemma_digits_value_prefix(body, end - k);
                }
            }
            None
        },
        Some(v) => {
            proof {
                assert(body.take(end - k) =~= body);
            }
            if neg {
                if v <= 9223372036854775808u64 {
                    Some((-(v as i128)) as i64)
                } else {
                    None
                }
            } else {
                if v <= 9223372036854775807u64 {
                    Some(v as i64)
                } else {
                    None
                }
            }
        },
    }
}

/// Finds where the run of decimal digits starting at `from` ends.
fn scan_digits(s: &str, from: usize, len: usize) -> (end: usize)
    requires
        len == s@.len(),
        from <= len,
    ensures
        from <= end <= len,
        all_digits(s@.subrange(from as int, end as int)),
        end < len ==> !is_digit(s@[end as int]),
{
    let mut i: usize = from;
    while i < len
        invariant
            len == s@.len(),
            from <= i <= len,
            all_digits(s@.subrange(from as int, i as int)),
        decreases len - i,
    {
        let c = s.get_char(i);
        if !('0' <= c && c <= '9') {
            return i;
        }
        proof {
            assert forall|k: int| 0 <= k < i + 1 - from implies is_digit(#[trigger] s@.subrange(from as int, i + 1)[k]) by {
                if k < i - from {
                    assert(s@.subrange(from as int, i + 1)[k] == s@.subrange(from as int, i as int)[k]);
                }
            }
        }
        i = i + 1;
    }
    i
}

/// Appends the characters of `s` from `from` up to `to`.
fn push_chars(s: &str, from: usize, to: usize, v: &mut Vec<char>)
    requires
        from <= to <= s@.len(),
    ensures
        final(v)@ == old(v)@ + s@.subrange(from as int, to as int),
{
    let ghost start = v@;
    let mut i: usize = from;
    while i < to
        invariant
            from <= i <= to <= s@.len(),
            v@ == start + s@.subrange(from as int, i as int),
        decreases to - i,
    {
        let c = s.get_char(i);
        v.push(c);
        proof {
            assert(v@ =~= start + s@.subrange(from as int, i + 1));
        }
        i = i + 1;
    }
}

/// Rounds a run of digits to 19 significant ones: the kept number and how
/// many digits were dropped.
fn round_digits(v: &Vec<char>) -> (r: (u64, usize))
    requires
        all_digits(v@),
    ensures
        r.0 as nat == kept_value(v@),
        r.1 as nat == dropped_digits(v@),
{
    let ghost c = v@;
    let n = v.len();
    let mut z: usize = 0;
    while z < n && v[z] == '0'
        invariant
            n == c.len(),
            v@ == c,
            z <= n,
            forall|t: int| 0 <= t < z ==> c[t] == '0',
        decreases n - z,
    {
        z = z + 1;
    }
    proof {
        lemma_lead_zeros(c, z as int);
    }
    let kdrop: usize = if n - z > 19 {
        n - z - 19
    } else {
        0
    };
    let m = n - kdrop;
    proof {
        lemma_pow10_19();
        let t = c.take(m as int);
        assert(all_digits(t)) by {
            assert forall|i: int| 0 <= i < t.len() implies is_digit(#[trigger] t[i]) by {
                assert(t[i] == c[i]);
            }
        }
        if m <= z {
            lemma_digits_value_zero(t);
        } else {
            let zs = c.take(z as int);
            let rest = c.subrange(z as int, m as int);
            assert(t =~= zs + rest);
            assert(all_digits(zs)) by {
                assert forall|i: int| 0 <= i < zs.len() implies is_digit(#[trigger] zs[i]) by {
                    assert(zs[i] == c[i]);
                }
            }
            assert(all_digits(rest)) by {
                assert forall|i: int| 0 <= i < rest.len() implies is_digit(#[trigger] rest[i]) by {
                    assert(rest[i] == c[z + i]);
                }
            }
            lemma_digits_value_zero(zs);
            lemma_digits_value_concat(zs, rest);
            lemma_digits_value_bound(rest);
            lemma_pow10_monotonic(rest.len(), 19);
        }
        assert(digits_value(t) < 10000000000000000000nat);
    }
    let mut acc: u64 = 0;
    let mut i: usize = 0;
    while i < m
        invariant
            n == c.len(),
            m <= n,
            i <= m,
            v@ == c,
            all_digits(c),
            acc as nat == digits_value(c.take(i as int)),
            digits_value(c.take(m as int)) < 10000000000000000000nat,
        decreases m - i,
    {
        let ch = v[i];
        let d: u64 = ((ch as u32) - ('0' as u32)) as u64;
        proof {
            assert(is_digit(c[i as int]));
            let t = c.take(i + 1);
            assert(t.drop_last() =~= c.take(i as int));
            assert(t.last() == ch);
            lemma_digits_value_prefix(c.take(m as int), i + 1);
            assert(c.take(m as int).take(i + 1) =~= t);
        }
        acc = acc * 10 + d;
        i = i + 1;
    }
    if kdrop == 0 {
        proof {
            assert(c.take(n as int) =~= c);
            assert(c.skip(n as int) =~= Seq::<char>::empty());
            assert(pow10(0) == 1);
        }
        return (acc, 0);
    }
    let first = v[m];
    let fd: u64 = ((first as u32) - ('0' as u32)) as u64;
    let mut sticky = false;
    let mut j: usize = m + 1;
    while j < n
        invariant
            n == c.len(),
            m < n,
            m + 1 <= j <= n,
            v@ == c,
            sticky == exists|t: int| m + 1 <= t < j && c[t] != '0',
        decreases n - j,
    {
        if v[j] != '0' {
            sticky = true;
        }
        j = j + 1;
    }
    proof {
        let tail = c.skip(m as int);
        let rest = c.skip(m + 1);
        assert(tail =~= seq![first] + rest);
        assert(all_digits(rest)) by {
            assert forall|i: int| 0 <= i < rest.len() implies is_digit(#[trigger] rest[i]) by {
                assert(rest[i] == c[m + 1 + i]);
            }
        }
        assert(is_digit(c[m as int]));
        assert(seq![first].drop_last() =~= Seq::<char>::empty());
        assert(seq![first].last() == first);
        assert(digits_value(Seq::<char>::empty()) == 0);
        assert(digit_value(first) == fd);
        assert(digits_value(seq![first]) == fd);
        lemma_digits_value_concat(seq![first], rest);
        lemma_digits_value_bound(rest);
        lemma_digits_value_zero(rest);
        if sticky {
            let t = choose|t: int| m + 1 <= t < n && c[t] != '0';
            assert(rest[t - m - 1] == c[t]);
        } else {
            assert forall|i: int| 0 <= i < rest.len() implies rest[i] == '0' by {
                assert(rest[i] == c[m + 1 + i]);
            }
        }
        let pk = pow10((kdrop - 1) as nat);
        crate::text::lemma_pow10_positive((kdrop - 1) as nat);
        assert(pow10(kdrop as nat) == 10 * pk);
        let r = digits_value(tail);
        let rr = digits_value(rest);
        assert(r == fd * pk + rr);
        assert(rr < pk);
        assert(fd < 10);
        assert(fd > 5 ==> 2 * r > 10 * pk) by (nonlinear_arith)
            requires
                r == fd * pk + rr,
                fd < 10,
                pk >= 1,
        ;
        assert(fd < 5 ==> 2 * r < 10 * pk) by (nonlinear_arith)
            requires
                r == fd * pk + rr,
                rr < pk,
                pk >= 1,
        ;
        assert(fd == 5 ==> (2 * r > 10 * pk) == (rr > 0) && (2 * r == 10 * pk) == (rr == 0)) by (nonlinear_arith)
            requires
                r == fd * pk + rr,
                pk >= 1,
        ;
    }
    if fd > 5 || (fd == 5 && (sticky || acc % 2 == 1)) {
        (acc + 1, kdrop)
    } else {
        (acc, kdrop)
    }
}

/// Reads the mantissa of a decimal after its sign: the positions where the
/// integer digits end, and where the fraction digits start and end. None when
/// the mantissa is malformed.
fn read_mantissa(s: &str, k: usize, len: usize) -> (r: Option<(usize, usize, usize)>)
    requires
        len == s@.len(),
        k == sign_len(s@),
    ensures
        r is None ==> !(all_digits(int_digits(s@)) && all_digits(frac_digits(s@))),
        r matches Some(t) ==> ({
            let (e1, fstart, mend) = t;
            &&& k <= e1 <= fstart <= mend <= len
            &&& int_digits(s@) == s@.subrange(k as int, e1 as int)
            &&& frac_digits(s@) == s@.subrange(fstart as int, mend as int)
            &&& all_digits(int_digits(s@))
            &&& all_digits(frac_digits(s@))
            &&& (mend == len ==> exponent_text(s@) is None)
            &&& (mend < len ==> exponent_text(s@) == Some(s@.subrange(mend + 1, len as int)))
        }),
{
    let ghost body = s@.skip(sign_len(s@));
    let e1 = scan_digits(s, k, len);
    let mut has_dot = false;
    let mut fstart: usize = e1;
    let mut mend: usize = e1;
    if e1 < len && s.get_char(e1) == '.' {
        has_dot = true;
        fstart = e1 + 1;
        mend = scan_digits(s, e1 + 1, len);
    }
    proof {
        assert forall|t: int| 0 <= t < mend - k implies !is_exp_mark(#[trigger] body[t]) by {
            assert(body[t] == s@[k + t]);
            if k + t < e1 {
                assert(is_digit(s@.subrange(k as int, e1 as int)[t]));
            } else if k + t > e1 {
                assert(is_digit(s@.subrange(fstart as int, mend as int)[k + t - fstart]));
            }
        }
        lemma_exp_index(body, mend - k);
        if mend < len {
            assert(body[mend - k] == s@[mend as int]);
        }
    }
    if mend < len {
        let c = s.get_char(mend);
        if !(c == 'e' || c == 'E') {
            proof {
                let m = mantissa(s@);
                assert(m[mend - k] == c);
                assert(m.take(e1 - k) =~= s@.subrange(k as int, e1 as int));
                if has_dot {
                    assert(m[e1 - k] == '.');
                    lemma_dot_index(m, e1 - k);
                    assert(frac_digits(s@)[mend - e1 - 1] == c);
                } else {
                    assert(m[e1 - k] == c);
                    lemma_dot_index(m, e1 - k);
                    assert(int_digits(s@)[e1 - k] == c);
                }
            }
            return None;
        }
    }
    proof {
        let m = mantissa(s@);
        assert(m =~= s@.subrange(k as int, mend as int));
        assert(m.take(e1 - k) =~= s@.subrange(k as int, e1 as int));
        if has_dot {
            assert(m[e1 - k] == '.');
        }
        lemma_dot_index(m, e1 - k);
        assert(int_digits(s@) =~= s@.subrange(k as int, e1 as int));
        assert(frac_digits(s@) =~= s@.subrange(fstart as int, mend as int));
        if mend < len {
            assert(body.skip(mend - k + 1) =~= s@.subrange(mend + 1, len as int));
        }
    }
    Some((e1, fstart, mend))
}

/// Reads an exponent's text: an optional sign and one or more digits whose
/// value fits in a `u64`.
fn read_exponent(s: &str, x0: usize, len: usize) -> (r: Option<(bool, u64)>)
    requires
        len == s@.len(),
        x0 <= len,
    ensures
        ({
            let e = s@.subrange(x0 as int, len as int);
            let d = e.skip(sign_len(e));
            &&& r is Some <==> (d.len() > 0 && all_digits(d) && digits_value(d) <= u64::MAX)
            &&& r matches Some(t) ==> t.0 == starts_negative(e) && t.1 as nat == digits_value(d)
        }),
{
    let ghost e = s@.subrange(x0 as int, len as int);
    let ghost d = e.skip(sign_len(e));
    let mut neg = false;
    let mut x = x0;
    if x < len {
        let c = s.get_char(x);
        if c == '+' || c == '-' {
            x = x + 1;
            neg = c == '-';
        }
    }
    proof {
        assert(sign_len(e) == x - x0);
        assert(neg == starts_negative(e));
        assert(d =~= s@.subrange(x as int, len as int));
    }
    if x == len {
        return None;
    }
    let (e3, r3) = read_digits(s, x, len, 0, Ghost(Seq::empty()));
    proof {
        assert(Seq::<char>::empty() + s@.subrange(x as int, e3 as int) =~= d.take(e3 - x));
    }
    if e3 < len {
        proof {
            assert(d[e3 - x] == s@[e3 as int]);
        }
        if r3.is_some() {
            return None;
        }
    }
    match r3 {
        None => {
            proof {
                if all_digits(d) {
                    lemma_digits_value_prefix(d, e3 - x);
                }
            }
            None
        },
        Some(v) => {
            proof {
                assert(d.take(e3 - x) =~= d);
            }
            Some((neg, v))
        },
    }
}

/// Reads a decimal: an optional sign, digits, optionally a point and more
/// digits (at least one digit in all), and optionally an exponent. Beyond 19
/// significant digits the value is rounded, ties to even.
pub fn parse_decimal(s: &str) -> (r: Option<Decimal>)
    ensures
        r == decimal_of_text(s@),
{
    let len = s.unicode_len();
    let mut k: usize = 0;
    let mut neg = false;
    if len > 0 {
        let c0 = s.get_char(0);
        if c0 == '+' || c0 == '-' {
            k = 1;
            neg = c0 == '-';
        }
    }
    assert(k == sign_len(s@));
    assert(neg == starts_negative(s@));
    let (e1, fstart, mend) = match read_mantissa(s, k, len) {
        None => return None,
        Some(t) => t,
    };
    let ghost ip = int_digits(s@);
    let ghost fp = frac_digits(s@);
    if e1 == k && mend == fstart {
        return None;
    }
    let mut ev_neg = false;
    let mut ev: u64 = 0;
    if mend < len {
        match read_exponent(s, mend + 1, len) {
            None => return None,
            Some((n, v)) => {
                ev_neg = n;
                ev = v;
            },
        }
    }
    proof {
        assert(exponent_ok(s@));
        assert(exponent_value(s@) == if ev_neg {
            -(ev as int)
        } else {
            ev as int
        });
    }
    let mut v: Vec<char> = Vec::new();
    push_chars(s, k, e1, &mut v);
    push_chars(s, fstart, mend, &mut v);
    proof {
        assert(v@ =~= ip + fp);
        assert(all_digits(ip + fp)) by {
            assert forall|i: int| 0 <= i < (ip + fp).len() implies is_digit(#[trigger] (ip + fp)[i]) by {
                if i < ip.len() {
                    assert((ip + fp)[i] == ip[i]);
                } else {
                    assert((ip + fp)[i] == fp[i - ip.len()]);
                }
            }
        }
    }
    let (digits, dropped) = round_digits(&v);
    let e128: i128 = if ev_neg {
        -(ev as i128)
    } else {
        ev as i128
    };
    let scale: i128 = ((mend - fstart) as i128) - (dropped as i128) - e128;
    Some(Decimal { negative: neg, digits, scale })
}

} // verus!
