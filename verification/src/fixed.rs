//! Fixed-point scalar arithmetic.
//!
//! A scalar is an `i64`/`i128` number of milli-units: the real value it
//! stands for is the integer divided by one thousand. All divisions
//! truncate toward zero, the way Rust's `/` does on signed integers.

use vstd::prelude::*;

verus! {

use vstd::arithmetic::div_mod::{
    lemma_div_is_ordered, lemma_div_is_ordered_by_denominator, lemma_div_pos_is_pos,
};

/// Division truncating toward zero (Rust `/` on signed integers), for a
/// positive divisor. Verus's own `/` is Euclidean, which differs on
/// negative dividends.
pub open spec fn div_trunc(a: int, b: int) -> int {
    if a >= 0 {
        a / b
    } else {
        -((-a) / b)
    }
}

/// The magnitude of a truncating quotient is bounded by the quotient of the
/// magnitudes.
pub proof fn lemma_div_trunc_bound(a: int, b: int, m: int)
    requires
        1 <= b,
        -m <= a <= m,
        0 <= m,
    ensures
        -(m / b) <= div_trunc(a, b) <= m / b,
{
    if a >= 0 {
        lemma_div_is_ordered(a, m, b);
        lemma_div_pos_is_pos(a, b);
    } else {
        lemma_div_is_ordered(-a, m, b);
        lemma_div_pos_is_pos(-a, b);
    }
}

/// A truncating quotient does not grow when the (positive) divisor grows.
pub proof fn lemma_div_trunc_denominator(a: int, b1: int, b2: int, m: int)
    requires
        1 <= b1 <= b2,
        -m <= a <= m,
        0 <= m,
    ensures
        -(m / b1) <= div_trunc(a, b2) <= m / b1,
{
    lemma_div_trunc_bound(a, b2, m);
    lemma_div_is_ordered_by_denominator(m, b1, b2);
}

/// Truncating division is monotone in the dividend.
pub proof fn lemma_div_trunc_ordered(a1: int, a2: int, b: int)
    requires
        1 <= b,
        a1 <= a2,
    ensures
        div_trunc(a1, b) <= div_trunc(a2, b),
{
    if a1 >= 0 {
        lemma_div_is_ordered(a1, a2, b);
    } else if a2 >= 0 {
        lemma_div_pos_is_pos(-a1, b);
        lemma_div_pos_is_pos(a2, b);
    } else {
        lemma_div_is_ordered(-a2, -a1, b);
    }
}

/// Truncating `i128` division by a positive divisor.
pub fn div_i128(a: i128, b: i128) -> (r: i128)
    requires
        1 <= b,
    ensures
        r == div_trunc(a as int, b as int),
{
    proof {
        if a >= 0 {
            vstd::arithmetic::div_mod::lemma_div_basics(a as int);
            lemma_div_is_ordered_by_denominator(a as int, 1, b as int);
            lemma_div_pos_is_pos(a as int, b as int);
        } else {
            vstd::arithmetic::div_mod::lemma_div_basics(-(a as int));
            lemma_div_is_ordered_by_denominator(-(a as int), 1, b as int);
            lemma_div_pos_is_pos(-(a as int), b as int);
        }
    }
    match a.checked_div(b) {
        Some(q) => q,
        None => 0,
    }
}

/// `i128` product of factors small enough that it cannot overflow.
pub fn mul_i128(a: i128, b: i128) -> (r: i128)
    requires
        -0x4000_0000_0000_0000 <= a <= 0x4000_0000_0000_0000,
        -0x4000_0000_0000_0000 <= b <= 0x4000_0000_0000_0000,
    ensures
        r == a * b,
{
    proof {
        assert((-0x4000_0000_0000_0000 <= a <= 0x4000_0000_0000_0000
            && -0x4000_0000_0000_0000 <= b <= 0x4000_0000_0000_0000)
            ==> (a * b <= 0x1000_0000_0000_0000_0000_0000_0000_0000
                && a * b >= -0x1000_0000_0000_0000_0000_0000_0000_0000)) by (nonlinear_arith);
    }
    a * b
}

/// The sequence of mathematical integers behind a sequence of fixed-point
/// scalars.
pub open spec fn seq_int(s: Seq<i64>) -> Seq<int> {
    s.map_values(|v: i64| v as int)
}

/// Every scalar of `s` has magnitude at most `m`.
pub open spec fn all_bounded(s: Seq<int>, m: int) -> bool {
    forall|k: int| 0 <= k < s.len() ==> -m <= #[trigger] s[k] <= m
}

/// The larger of two `i64` values.
pub fn max_i64(a: i64, b: i64) -> (r: i64)
    ensures
        r == vstd::math::max(a as int, b as int),
{
    if a > b {
        a
    } else {
        b
    }
}

} // verus!
