use vstd::prelude::*;

use crate::text::{
    digit_char, lemma_nat_text_times_ten, lemma_pow10_18, lemma_pow10_monotonic, lemma_pow10_positive, nat_text,
    padded_text, pow10, pow10_u64, push_nat, push_padded, strip_zeros,
};

verus! {

/// A decimal number: `digits * 10^(-scale)`, negated when `negative`.
///
/// This is how the library holds fractional values: as decimal digits, so that
/// rendering and comparison do not depend on a binary floating-point
/// approximation. A negative `scale` stands for trailing zeros. A negative zero
/// is kept apart from zero.
#[derive(Clone, Copy, Debug, PartialEq, Eq, Structural)]
pub struct Decimal {
    pub negative: bool,
    pub digits: u64,
    pub scale: i128,
}

pub open spec fn int_part(d: Decimal) -> nat {
    if d.scale <= 0 {
        d.digits as nat * pow10((-d.scale) as nat)
    } else {
        d.digits as nat / pow10(d.scale as nat)
    }
}

pub open spec fn frac_part(d: Decimal) -> nat {
    if d.scale <= 0 {
        0
    } else {
        d.digits as nat % pow10(d.scale as nat)
    }
}

/// Shortest decimal form: a `-` for a negative value, the integer part, and the
/// fraction without trailing zeros (no `.` when the fraction is zero).
pub open spec fn decimal_text(d: Decimal) -> Seq<char> {
    (if d.negative {
        seq!['-']
    } else {
        Seq::empty()
    }) + nat_text(int_part(d)) + (if frac_part(d) == 0 {
        Seq::empty()
    } else {
        seq!['.'] + strip_zeros(padded_text(frac_part(d), d.scale as nat))
    })
}

/// The magnitude rounded to four decimal places, ties to even, counted in
/// ten-thousandths.
pub open spec fn rounded4(d: Decimal) -> nat {
    if d.scale <= 4 {
        d.digits as nat * pow10((4 - d.scale) as nat)
    } else {
        let p = pow10((d.scale - 4) as nat);
        let q = d.digits as nat / p;
        let r = d.digits as nat % p;
        if 2 * r < p {
            q
        } else if 2 * r > p {
            q + 1
        } else if q % 2 == 0 {
            q
        } else {
            q + 1
        }
    }
}

/// Two decimals agree when their four-place renderings agree: same sign and
/// same rounded magnitude.
pub open spec fn same_at_four_places(a: Decimal, b: Decimal) -> bool {
    a.negative == b.negative && rounded4(a) == rounded4(b)
}

proof fn lemma_pow10_20()
    ensures
        pow10(20) == 100000000000000000000nat,
{
    reveal_with_fuel(pow10, 21);
}

proof fn lemma_strip_step(f: nat, w: nat)
    requires
        w > 0,
        f % 10 == 0,
    ensures
        strip_zeros(padded_text(f, w)) == strip_zeros(padded_text(f / 10, (w - 1) as nat)),
{
    let s = padded_text(f, w);
    assert(s.last() == '0');
    assert(s.drop_last() =~= padded_text(f / 10, (w - 1) as nat));
}

proof fn lemma_strip_done(f: nat, w: nat)
    requires
        w > 0,
        f % 10 != 0,
    ensures
        strip_zeros(padded_text(f, w)) == padded_text(f, w),
{
    let s = padded_text(f, w);
    assert(s.last() == digit_char(f % 10));
}

/// Whether `m * 10^delta == n`, for `m` and `n` up to `2^64`.
fn shifted_equal(m: u128, delta: u128, n: u128) -> (r: bool)
    requires
        m <= 0x1_0000_0000_0000_0000u128,
        n <= 0x1_0000_0000_0000_0000u128,
    ensures
        r == (m * pow10(delta as nat) == n),
{
    proof {
        lemma_pow10_positive(delta as nat);
    }
    if m == 0 {
        return n == 0;
    }
    if delta >= 20 {
        proof {
            lemma_pow10_20();
            lemma_pow10_monotonic(20, delta as nat);
            assert(m * pow10(delta as nat) >= pow10(delta as nat)) by (nonlinear_arith)
                requires
                    m >= 1,
            ;
        }
        return false;
    }
    let p = pow10_u64(delta as u32);
    proof {
        lemma_pow10_monotonic(delta as nat, 19);
        lemma_pow10_18();
        assert(m * p <= 0x1_0000_0000_0000_0000u128 * 10000000000000000000u128) by (nonlinear_arith)
            requires
                m <= 0x1_0000_0000_0000_0000u128,
                p <= 10000000000000000000u128,
        ;
    }
    m * (p as u128) == n
}

proof fn lemma_cancel_pow10(m1: nat, e1: nat, m2: nat, e2: nat)
    requires
        e1 >= e2,
    ensures
        (m1 * pow10(e1) == m2 * pow10(e2)) == (m1 * pow10((e1 - e2) as nat) == m2),
{
    let d = (e1 - e2) as nat;
    crate::text::lemma_pow10_add(d, e2);
    assert(d + e2 == e1);
    lemma_pow10_positive(e2);
    let p = pow10(e2);
    let q = pow10(d);
    assert(m1 * (q * p) == (m1 * q) * p) by (nonlinear_arith);
    if (m1 * q) * p == m2 * p {
        vstd::arithmetic::mul::lemma_mul_equality_converse(p as int, (m1 * q) as int, m2 as int);
        assert(p * (m1 * q) == p * m2) by (nonlinear_arith)
            requires
                (m1 * q) * p == m2 * p,
        ;
    }
}

impl Decimal {
    pub fn new(negative: bool, digits: u64, scale: i128) -> (r: Decimal)
        ensures
            r == (Decimal { negative, digits, scale }),
    {
        Decimal { negative, digits, scale }
    }

    /// The magnitude rounded to four places, in ten-thousandths, as
    /// `m * 10^e`.
    pub fn rounded4(&self) -> (r: (u128, u128))
        ensures
            r.0 * pow10(r.1 as nat) == rounded4(*self),
            r.0 <= 0x1_0000_0000_0000_0000u128,
    {
        if self.scale <= 4 {
            let e: u128 = if self.scale >= 0 {
                (4 - self.scale) as u128
            } else {
                4u128 + ((-(self.scale + 1)) as u128) + 1
            };
            assert(e as nat == (4 - self.scale) as nat);
            assert((self.digits as u128) * pow10(e as nat) == rounded4(*self));
            (self.digits as u128, e)
        } else if self.scale >= 24 {
            proof {
                lemma_pow10_20();
                lemma_pow10_monotonic(20, (self.scale - 4) as nat);
                let p = pow10((self.scale - 4) as nat);
                vstd::arithmetic::div_mod::lemma_basic_div(self.digits as int, p as int);
                vstd::arithmetic::div_mod::lemma_small_mod(self.digits as nat, p);
                assert(0 * pow10(0) == 0);
                assert(self.digits as nat / p == 0);
                assert(2 * (self.digits as nat % p) < p);
                assert(rounded4(*self) == 0);
                let one = pow10(0);
                assert(0u128 * one == 0) by (nonlinear_arith);
            }
            (0, 0)
        } else {
            let p = pow10_u64((self.scale - 4) as u32);
            proof {
                lemma_pow10_positive((self.scale - 4) as nat);
                assert(pow10(0) == 1);
            }
            let q = self.digits / p;
            let r = self.digits % p;
            assert(pow10(0) == 1);
            assert(p as nat == pow10((self.scale - 4) as nat));
            assert(q as nat == self.digits as nat / pow10((self.scale - 4) as nat));
            assert(r as nat == self.digits as nat % pow10((self.scale - 4) as nat));
            let m: u128 = if 2 * (r as u128) < p as u128 {
                q as u128
            } else if 2 * (r as u128) > p as u128 {
                q as u128 + 1
            } else if q % 2 == 0 {
                q as u128
            } else {
                q as u128 + 1
            };
            proof {
                assert(m == rounded4(*self));
                let one = pow10(0);
                assert(m * one == m) by (nonlinear_arith)
                    requires
                        one == 1,
                ;
            }
            (m, 0)
        }
    }

    /// Whether the two values read the same when rounded to four decimal places.
    pub fn same_at_four_places(&self, other: &Decimal) -> (r: bool)
        ensures
            r == same_at_four_places(*self, *other),
    {
        if self.negative != other.negative {
            return false;
        }
        let (m1, e1) = self.rounded4();
        let (m2, e2) = other.rounded4();
        if e1 >= e2 {
            proof {
                lemma_cancel_pow10(m1 as nat, e1 as nat, m2 as nat, e2 as nat);
            }
            shifted_equal(m1, e1 - e2, m2)
        } else {
            proof {
                lemma_cancel_pow10(m2 as nat, e2 as nat, m1 as nat, e1 as nat);
            }
            shifted_equal(m2, e2 - e1, m1)
        }
    }

    /// Appends the shortest decimal form of the value.
    pub fn push_text(&self, out: &mut String)
        ensures
            final(out)@ == old(out)@ + decimal_text(*self),
    {
        if self.negative {
            proof {
                reveal_strlit("-");
            }
            out.append("-");
        }
        if self.scale <= 0 {
            let ghost base = out@;
            if self.digits == 0 {
                proof {
                    vstd::arithmetic::mul::lemma_mul_basics(pow10((-self.scale) as nat) as int);
                }
                push_nat(out, 0);
            } else {
                push_nat(out, self.digits);
                let zeros: u128 = if self.scale == 0 {
                    0
                } else {
                    ((-(self.scale + 1)) as u128) + 1
                };
                let mut j: u128 = 0;
                proof {
                    assert(pow10(0) == 1);
                    assert(out@ =~= base + nat_text(self.digits as nat * pow10(0)));
                }
                while j < zeros
                    invariant
                        j <= zeros,
                        zeros as nat == (-self.scale) as nat,
                        self.digits > 0,
                        out@ == base + nat_text(self.digits as nat * pow10(j as nat)),
                    decreases zeros - j,
                {
                    proof {
                        reveal_strlit("0");
                        lemma_pow10_positive(j as nat);
                        let dd = self.digits as nat;
                        let pj = pow10(j as nat);
                        let n = dd * pj;
                        assert(dd * pj >= 1) by (nonlinear_arith)
                            requires
                                dd >= 1,
                                pj >= 1,
                        ;
                        lemma_nat_text_times_ten(n);
                        assert(pow10((j + 1) as nat) == 10 * pj);
                        assert(dd * (10 * pj) == (dd * pj) * 10) by (nonlinear_arith);
                    }
                    out.append("0");
                    proof {
                        assert(out@ =~= base + nat_text(self.digits as nat * pow10((j + 1) as nat)));
                    }
                    j = j + 1;
                }
                proof {
                    assert(pow10(0) == 1);
                }
            }
            proof {
                assert(final(out)@ =~= old(out)@ + decimal_text(*self));
            }
            return;
        }
        let frac: u64;
        if self.scale >= 20 {
            proof {
                lemma_pow10_20();
                lemma_pow10_monotonic(20, self.scale as nat);
                vstd::arithmetic::div_mod::lemma_basic_div(self.digits as int, pow10(self.scale as nat) as int);
                vstd::arithmetic::div_mod::lemma_small_mod(self.digits as nat, pow10(self.scale as nat));
            }
            push_nat(out, 0);
            frac = self.digits;
        } else {
            let p = pow10_u64(self.scale as u32);
            proof {
                lemma_pow10_positive(self.scale as nat);
            }
            push_nat(out, self.digits / p);
            frac = self.digits % p;
        }
        proof {
            lemma_pow10_positive(self.scale as nat);
        }
        assert(frac as nat == frac_part(*self));
        assert((frac as nat) < pow10(self.scale as nat));
        if frac != 0 {
            proof {
                reveal_strlit(".");
            }
            out.append(".");
            let mut f: u64 = frac;
            let mut w: u128 = self.scale as u128;
            while f % 10 == 0
                invariant
                    f > 0,
                    (f as nat) < pow10(w as nat),
                    strip_zeros(padded_text(frac as nat, self.scale as nat)) == strip_zeros(
                        padded_text(f as nat, w as nat),
                    ),
                decreases w,
            {
                assert(w > 0);
                proof {
                    lemma_strip_step(f as nat, w as nat);
                }
                f = f / 10;
                w = w - 1;
            }
            assert(w > 0);
            proof {
                lemma_strip_done(f as nat, w as nat);
            }
            push_padded(out, f, w);
        }
        proof {
            assert(final(out)@ =~= old(out)@ + decimal_text(*self));
        }
    }
}

} // verus!
