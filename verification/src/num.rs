//! Exact decimal numbers.
//!
//! A JSON number — integer or not — is held as `mantissa * 10^exp` and two
//! numbers are compared exactly, by scaling both to a common exponent. This
//! gives the numeric comparison that filter expressions need without any
//! floating-point arithmetic.

use vstd::arithmetic::mul::{
    lemma_mul_is_associative, lemma_mul_left_inequality, lemma_mul_nonzero,
    lemma_mul_unary_negation,
};
use vstd::arithmetic::power::{lemma_pow0, lemma_pow1, lemma_pow_adds, lemma_pow_positive, pow};
use vstd::prelude::*;

verus! {

/// A number written in decimal: the value `mantissa * 10^exp`.
#[derive(Debug, Clone, Copy, PartialEq, Eq, Structural)]
pub struct Decimal {
    pub mantissa: i64,
    pub exp: i64,
}

impl Decimal {
    pub fn new(mantissa: i64, exp: i64) -> (d: Decimal)
        ensures
            d.mantissa == mantissa,
            d.exp == exp,
    {
        Decimal { mantissa, exp }
    }

    /// The decimal holding the integer `value`.
    pub fn from_int(value: i64) -> (d: Decimal)
        ensures
            d.mantissa == value,
            d.exp == 0,
    {
        Decimal { mantissa: value, exp: 0 }
    }
}

/// `a < b` as exact decimals: both sides scaled to the smaller exponent.
pub open spec fn dec_lt(a: Decimal, b: Decimal) -> bool {
    if a.exp >= b.exp {
        a.mantissa * pow(10, (a.exp - b.exp) as nat) < b.mantissa
    } else {
        a.mantissa < b.mantissa * pow(10, (b.exp - a.exp) as nat)
    }
}

/// `a == b` as exact decimals: both sides scaled to the smaller exponent.
pub open spec fn dec_eq(a: Decimal, b: Decimal) -> bool {
    if a.exp >= b.exp {
        a.mantissa * pow(10, (a.exp - b.exp) as nat) == b.mantissa
    } else {
        a.mantissa == b.mantissa * pow(10, (b.exp - a.exp) as nat)
    }
}

/// Decimal equality is symmetric in its operands.
pub proof fn lemma_dec_eq_sym(a: Decimal, b: Decimal)
    ensures
        dec_eq(a, b) == dec_eq(b, a),
{
    lemma_pow0(10);
    if a.exp == b.exp {
        assert((a.exp - b.exp) as nat == 0);
        assert(pow(10, (a.exp - b.exp) as nat) == 1);
        assert(pow(10, (b.exp - a.exp) as nat) == 1);
        assert(a.mantissa * 1 == a.mantissa);
        assert(b.mantissa * 1 == b.mantissa);
    }
}

/// Orders `m1 * 10^d` against `m2`, scaling `m1` step by step and stopping
/// early once the scaled value has left the range where `m2` could still
/// catch up.
fn scaled_cmp(m1: i128, d: i128, m2: i128) -> (r: i8)
    requires
        -0x8000_0000_0000_0000 <= m1 <= 0x7fff_ffff_ffff_ffff,
        -0x8000_0000_0000_0000 <= m2 <= 0x7fff_ffff_ffff_ffff,
        d >= 0,
    ensures
        (r == -1) <==> m1 * pow(10, d as nat) < m2,
        (r == 0) <==> m1 * pow(10, d as nat) == m2,
        (r == 1) <==> m1 * pow(10, d as nat) > m2,
{
    if m1 == 0 {
        proof {
            assert(0 * pow(10, d as nat) == 0) by (nonlinear_arith);
        }
        if m2 > 0 {
            return -1;
        } else if m2 == 0 {
            return 0;
        } else {
            return 1;
        }
    }
    proof {
        lemma_pow0(10);
    }
    let mut acc: i128 = m1;
    let mut i: i128 = 0;
    while i < d
        invariant
            0 <= i <= d,
            m1 != 0,
            acc != 0,
            acc == m1 * pow(10, i as nat),
            -0x8000_0000_0000_0000 <= m2 <= 0x7fff_ffff_ffff_ffff,
        decreases d - i,
    {
        proof {
            lemma_pow_positive(10, (d - i) as nat);
            lemma_pow_adds(10, i as nat, (d - i) as nat);
            lemma_mul_is_associative(m1 as int, pow(10, i as nat), pow(10, (d - i) as nat));
            assert(m1 * pow(10, d as nat) == acc * pow(10, (d - i) as nat));
        }
        if acc > 0x8000_0000_0000_0000 {
            proof {
                lemma_mul_left_inequality(acc as int, 1, pow(10, (d - i) as nat));
            }
            return 1;
        }
        if acc < -0x8000_0000_0000_0000 {
            proof {
                lemma_mul_left_inequality(-(acc as int), 1, pow(10, (d - i) as nat));
                lemma_mul_unary_negation(acc as int, pow(10, (d - i) as nat));
            }
            return -1;
        }
        proof {
            lemma_pow_adds(10, i as nat, 1);
            lemma_pow1(10);
            lemma_mul_is_associative(m1 as int, pow(10, i as nat), 10);
            lemma_mul_nonzero(acc as int, 10);
        }
        acc = acc * 10;
        i = i + 1;
    }
    if acc < m2 {
        -1
    } else if acc == m2 {
        0
    } else {
        1
    }
}

/// Orders two decimals exactly. Returns -1, 0 or 1.
pub fn dec_cmp(a: &Decimal, b: &Decimal) -> (r: i8)
    ensures
        (r == -1) <==> dec_lt(*a, *b),
        (r == 0) <==> dec_eq(*a, *b),
        (r == 1) <==> dec_lt(*b, *a),
{
    proof {
        lemma_pow0(10);
    }
    let d: i128 = a.exp as i128 - b.exp as i128;
    let res: i8;
    if d >= 0 {
        let s = scaled_cmp(a.mantissa as i128, d, b.mantissa as i128);
        proof {
            if b.exp >= a.exp {
                assert(d == 0);
                assert(pow(10, (a.exp - b.exp) as nat) == 1);
                assert(pow(10, (b.exp - a.exp) as nat) == 1);
            }
        }
        res = s;
    } else {
        let s = scaled_cmp(b.mantissa as i128, -d, a.mantissa as i128);
        proof {
            assert((b.exp - a.exp) as nat == (-d) as nat);
        }
        res = if s == -1 {
            1
        } else if s == 1 {
            -1
        } else {
            0
        };
    }
    proof {
        assert((res == -1) <==> dec_lt(*a, *b));
        assert((res == 0) <==> dec_eq(*a, *b));
        assert((res == 1) <==> dec_lt(*b, *a));
    }
    res
}

} // verus!
