use vstd::prelude::*;

verus! {

/// The character of a decimal digit.
pub open spec fn digit_char(d: nat) -> char {
    if d == 0 {
        '0'
    } else if d == 1 {
        '1'
    } else if d == 2 {
        '2'
    } else if d == 3 {
        '3'
    } else if d == 4 {
        '4'
    } else if d == 5 {
        '5'
    } else if d == 6 {
        '6'
    } else if d == 7 {
        '7'
    } else if d == 8 {
        '8'
    } else {
        '9'
    }
}

/// Decimal digits of `n`, most significant first, without leading zeros.
pub open spec fn nat_text(n: nat) -> Seq<char>
    decreases n,
{
    if n < 10 {
        seq![digit_char(n)]
    } else {
        nat_text(n / 10).push(digit_char(n % 10))
    }
}

/// Decimal form of an integer, with a leading `-` when negative.
pub open spec fn int_text(i: int) -> Seq<char> {
    if i < 0 {
        seq!['-'] + nat_text((-i) as nat)
    } else {
        nat_text(i as nat)
    }
}

/// The last `w` decimal digits of `n`, padded with leading zeros.
pub open spec fn padded_text(n: nat, w: nat) -> Seq<char>
    decreases w,
{
    if w == 0 {
        Seq::empty()
    } else {
        padded_text(n / 10, (w - 1) as nat).push(digit_char(n % 10))
    }
}

/// `s` without its trailing zeros.
pub open spec fn strip_zeros(s: Seq<char>) -> Seq<char>
    decreases s.len(),
{
    if s.len() > 0 && s.last() == '0' {
        strip_zeros(s.drop_last())
    } else {
        s
    }
}

pub open spec fn pow10(n: nat) -> nat
    decreases n,
{
    if n == 0 {
        1
    } else {
        10 * pow10((n - 1) as nat)
    }
}

pub open spec fn is_digit(c: char) -> bool {
    '0' <= c && c <= '9'
}

pub open spec fn all_digits(s: Seq<char>) -> bool {
    forall|i: int| 0 <= i < s.len() ==> is_digit(#[trigger] s[i])
}

pub open spec fn digit_value(c: char) -> nat {
    ((c as u32) - ('0' as u32)) as nat
}

/// The number that a run of decimal digits denotes.
pub open spec fn digits_value(s: Seq<char>) -> nat
    decreases s.len(),
{
    if s.len() == 0 {
        0
    } else {
        10 * digits_value(s.drop_last()) + digit_value(s.last())
    }
}

pub proof fn lemma_pow10_positive(n: nat)
    ensures
        pow10(n) >= 1,
    decreases n,
{
    if n > 0 {
        lemma_pow10_positive((n - 1) as nat);
    }
}

pub proof fn lemma_pow10_monotonic(a: nat, b: nat)
    requires
        a <= b,
    ensures
        pow10(a) <= pow10(b),
    decreases b,
{
    if a < b {
        lemma_pow10_monotonic(a, (b - 1) as nat);
        lemma_pow10_positive((b - 1) as nat);
    }
}

pub proof fn lemma_pow10_18()
    ensures
        pow10(18) == 1000000000000000000nat,
{
    reveal_with_fuel(pow10, 19);
}

pub proof fn lemma_pow10_add(a: nat, b: nat)
    ensures
        pow10(a + b) == pow10(a) * pow10(b),
    decreases b,
{
    if b == 0 {
        assert(pow10(0) == 1);
        assert(a + b == a);
    } else {
        lemma_pow10_add(a, (b - 1) as nat);
        assert(pow10(b) == 10 * pow10((b - 1) as nat));
        assert(pow10(a + b) == 10 * pow10((a + b - 1) as nat));
        assert(10 * (pow10(a) * pow10((b - 1) as nat)) == pow10(a) * (10 * pow10((b - 1) as nat)))
            by (nonlinear_arith);
    }
}

/// The value of two runs of digits written one after the other.
pub proof fn lemma_digits_value_concat(a: Seq<char>, b: Seq<char>)
    ensures
        digits_value(a + b) == digits_value(a) * pow10(b.len()) + digits_value(b),
    decreases b.len(),
{
    if b.len() == 0 {
        assert(a + b =~= a);
        assert(pow10(0) == 1);
        assert(digits_value(b) == 0);
    } else {
        let b1 = b.drop_last();
        lemma_digits_value_concat(a, b1);
        assert(pow10(b.len()) == 10 * pow10(b1.len()));
        assert(digits_value(a + b) == 10 * digits_value((a + b).drop_last()) + digit_value((a + b).last()));
        assert(digits_value(b) == 10 * digits_value(b1) + digit_value(b.last()));
        assert((a + b).drop_last() =~= a + b1);
        assert((a + b).last() == b.last());
        let x = digits_value(a);
        let p = pow10(b1.len());
        let y = digits_value(b1);
        let d = digit_value(b.last());
        assert(10 * (x * p + y) + d == x * (10 * p) + (10 * y + d)) by (nonlinear_arith);
    }
}

/// A run of `n` digits is worth less than `10^n`.
pub proof fn lemma_digits_value_bound(s: Seq<char>)
    requires
        all_digits(s),
    ensures
        digits_value(s) < pow10(s.len()),
    decreases s.len(),
{
    if s.len() > 0 {
        let s1 = s.drop_last();
        assert(all_digits(s1)) by {
            assert forall|i: int| 0 <= i < s1.len() implies is_digit(#[trigger] s1[i]) by {
                assert(s1[i] == s[i]);
            }
        }
        lemma_digits_value_bound(s1);
        assert(is_digit(s[s.len() - 1]));
        assert(digit_value(s.last()) < 10);
        let x = digits_value(s1);
        let p = pow10(s1.len());
        assert(10 * x + digit_value(s.last()) < 10 * p) by (nonlinear_arith)
            requires
                x < p,
                digit_value(s.last()) < 10,
        ;
    }
}

/// A run of digits is worth zero exactly when every digit is `0`.
pub proof fn lemma_digits_value_zero(s: Seq<char>)
    requires
        all_digits(s),
    ensures
        (digits_value(s) == 0) == (forall|i: int| 0 <= i < s.len() ==> s[i] == '0'),
    decreases s.len(),
{
    if s.len() > 0 {
        let s1 = s.drop_last();
        assert(all_digits(s1)) by {
            assert forall|i: int| 0 <= i < s1.len() implies is_digit(#[trigger] s1[i]) by {
                assert(s1[i] == s[i]);
            }
        }
        lemma_digits_value_zero(s1);
        assert(is_digit(s[s.len() - 1]));
        if forall|i: int| 0 <= i < s.len() ==> s[i] == '0' {
            assert forall|i: int| 0 <= i < s1.len() implies s1[i] == '0' by {
                assert(s1[i] == s[i]);
            }
        } else {
            let j = choose|j: int| 0 <= j < s.len() && s[j] != '0';
            if j < s.len() - 1 {
                assert(s1[j] != '0');
            }
        }
    }
}

/// Writing `0` after a positive number multiplies it by ten.
pub proof fn lemma_nat_text_times_ten(n: nat)
    requires
        n > 0,
    ensures
        nat_text(n * 10) == nat_text(n).push('0'),
{
    assert(n * 10 >= 10);
    assert((n * 10) / 10 == n);
    assert((n * 10) % 10 == 0);
}

/// Powers of ten up to the nineteenth fit in a `u64`.
pub fn pow10_u64(n: u32) -> (r: u64)
    requires
        n <= 19,
    ensures
        r as nat == pow10(n as nat),
{
    let mut r: u64 = 1;
    let mut i: u32 = 0;
    while i < n
        invariant
            i <= n <= 19,
            r as nat == pow10(i as nat),
        decreases n - i,
    {
        proof {
            lemma_pow10_monotonic(i as nat, 18);
            lemma_pow10_18();
        }
        r = r * 10;
        i = i + 1;
    }
    r
}

/// Appends the character of the digit `d`.
pub fn push_digit(out: &mut String, d: u64)
    requires
        d < 10,
    ensures
        final(out)@ == old(out)@.push(digit_char(d as nat)),
{
    let s: &str = if d == 0 {
        "0"
    } else if d == 1 {
        "1"
    } else if d == 2 {
        "2"
    } else if d == 3 {
        "3"
    } else if d == 4 {
        "4"
    } else if d == 5 {
        "5"
    } else if d == 6 {
        "6"
    } else if d == 7 {
        "7"
    } else if d == 8 {
        "8"
    } else {
        "9"
    };
    proof {
        reveal_strlit("0");
        reveal_strlit("1");
        reveal_strlit("2");
        reveal_strlit("3");
        reveal_strlit("4");
        reveal_strlit("5");
        reveal_strlit("6");
        reveal_strlit("7");
        reveal_strlit("8");
        reveal_strlit("9");
        assert(s@ =~= seq![digit_char(d as nat)]);
    }
    out.append(s);
    proof {
        assert(final(out)@ =~= old(out)@.push(digit_char(d as nat)));
    }
}

/// Appends the decimal digits of `n`.
pub fn push_nat(out: &mut String, n: u64)
    ensures
        final(out)@ == old(out)@ + nat_text(n as nat),
    decreases n,
{
    if n >= 10 {
        push_nat(out, n / 10);
        push_digit(out, n % 10);
        proof {
            assert(final(out)@ =~= old(out)@ + nat_text(n as nat));
        }
    } else {
        push_digit(out, n);
        proof {
            assert(final(out)@ =~= old(out)@ + nat_text(n as nat));
        }
    }
}

/// Appends the decimal form of `i`.
pub fn push_int(out: &mut String, i: i64)
    ensures
        final(out)@ == old(out)@ + int_text(i as int),
{
    if i < 0 {
        proof {
            reveal_strlit("-");
        }
        out.append("-");
        let m: u64 = (-(i as i128)) as u64;
        push_nat(out, m);
        proof {
            assert(final(out)@ =~= old(out)@ + int_text(i as int));
        }
    } else {
        push_nat(out, i as u64);
    }
}

proof fn lemma_padded_index(n: nat, w: nat, i: int)
    requires
        0 <= i < w,
    ensures
        padded_text(n, w).len() == w,
        padded_text(n, w)[i] == digit_char((n / pow10((w - 1 - i) as nat)) % 10),
    decreases w,
{
    lemma_padded_len(n, w);
    let prev = padded_text(n / 10, (w - 1) as nat);
    assert(padded_text(n, w) == prev.push(digit_char(n % 10)));
    lemma_padded_len(n / 10, (w - 1) as nat);
    if i < w - 1 {
        assert(padded_text(n, w)[i] == prev[i]);
        lemma_padded_index(n / 10, (w - 1) as nat, i);
        let k = (w - 2 - i) as nat;
        lemma_pow10_positive(k);
        vstd::arithmetic::div_mod::lemma_div_denominator(n as int, 10, pow10(k) as int);
        assert(pow10((w - 1 - i) as nat) == 10 * pow10(k));
    } else {
        assert(pow10(0) == 1);
        assert(padded_text(n, w)[i] == digit_char(n % 10));
        assert(n / pow10(0) == n);
    }
}

proof fn lemma_padded_len(n: nat, w: nat)
    ensures
        padded_text(n, w).len() == w,
    decreases w,
{
    if w > 0 {
        lemma_padded_len(n / 10, (w - 1) as nat);
    }
}

/// Appends the last `w` digits of `n`, padded with leading zeros.
pub fn push_padded(out: &mut String, n: u64, w: u128)
    ensures
        final(out)@ == old(out)@ + padded_text(n as nat, w as nat),
{
    let ghost start = out@;
    let ghost full = padded_text(n as nat, w as nat);
    proof {
        lemma_padded_len(n as nat, w as nat);
    }
    let mut i: u128 = 0;
    while i < w
        invariant
            i <= w,
            full == padded_text(n as nat, w as nat),
            full.len() == w,
            out@ == start + full.take(i as int),
        decreases w - i,
    {
        let e = w - 1 - i;
        let d: u64 = if e >= 20 {
            proof {
                lemma_pow10_monotonic(20, e as nat);
                reveal_with_fuel(pow10, 21);
                vstd::arithmetic::div_mod::lemma_basic_div(n as int, pow10(e as nat) as int);
            }
            0
        } else {
            let p = pow10_u64(e as u32);
            proof {
                lemma_pow10_positive(e as nat);
            }
            (n / p) % 10
        };
        proof {
            lemma_padded_index(n as nat, w as nat, i as int);
            assert(d as nat == (n as nat / pow10(e as nat)) % 10);
        }
        push_digit(out, d);
        proof {
            assert(full.take(i + 1) =~= full.take(i as int).push(full[i as int]));
            assert(out@ =~= start + full.take(i + 1));
        }
        i = i + 1;
    }
    proof {
        assert(full.take(w as int) =~= full);
    }
}

} // verus!
