//! Q32.32 fixed-point scalars on `i64`, with saturation.
//!
//! A raw value `r` stands for the real number `r / 2^32`. Addition and
//! subtraction saturate at the `i64` range; multiplication and division
//! rescale by `2^32` and round toward zero, then saturate. Every operation
//! has an exact contract over the raw integer values, stated with the spec
//! functions below.

use vstd::prelude::*;

verus! {

/// Raw value of the fixed-point one (the scale factor, `2^32`).
pub const ONE_RAW: i64 = 0x1_0000_0000;

/// Raw value of the fixed-point one half.
pub const HALF_RAW: i64 = 0x8000_0000;

/// A fixed-point number: the raw `i64` stands for `raw / 2^32`.
#[derive(Clone, Copy, PartialEq, Eq, Structural, Debug)]
pub struct Fx(pub i64);

impl Fx {
    /// The raw integer value, as a mathematical integer.
    pub open spec fn v(self) -> int {
        self.0 as int
    }

    /// Wrap a raw `i64` as a fixed-point number.
    pub fn from_raw(r: i64) -> (f: Fx)
        ensures
            f.v() == r as int,
    {
        Fx(r)
    }

    /// The raw `i64` value.
    pub fn raw(self) -> (r: i64)
        ensures
            r as int == self.v(),
    {
        self.0
    }

    /// The fixed-point zero.
    pub fn zero() -> (f: Fx)
        ensures
            f.v() == 0,
    {
        Fx(0)
    }

    /// The fixed-point one.
    pub fn one() -> (f: Fx)
        ensures
            f.v() == ONE_RAW as int,
    {
        Fx(ONE_RAW)
    }
}

/// Saturate an integer at the `i64` range.
pub open spec fn sat64(x: int) -> int {
    if x > i64::MAX as int {
        i64::MAX as int
    } else if x < i64::MIN as int {
        i64::MIN as int
    } else {
        x
    }
}

/// The magnitude of an integer.
pub open spec fn absi(x: int) -> int {
    if x >= 0 {
        x
    } else {
        -x
    }
}

/// Division rounding toward zero (for a nonzero divisor): the magnitudes are
/// divided, and the quotient carries the sign of the exact quotient.
pub open spec fn tdiv(a: int, b: int) -> int {
    if (a < 0) == (b < 0) {
        absi(a) / absi(b)
    } else {
        -(absi(a) / absi(b))
    }
}

/// Saturating fixed-point addition.
pub open spec fn qadd(a: int, b: int) -> int {
    sat64(a + b)
}

/// Saturating fixed-point subtraction.
pub open spec fn qsub(a: int, b: int) -> int {
    sat64(a - b)
}

/// Saturating fixed-point negation.
pub open spec fn qneg(a: int) -> int {
    sat64(-a)
}

/// Saturating fixed-point multiplication: rescale the product by `2^32`,
/// rounding toward zero.
pub open spec fn qmul(a: int, b: int) -> int {
    sat64(tdiv(a * b, ONE_RAW as int))
}

/// Saturating fixed-point division (for a nonzero divisor): scale the
/// dividend by `2^32`, divide, rounding toward zero.
pub open spec fn qdiv(a: int, b: int) -> int {
    sat64(tdiv(a * (ONE_RAW as int), b))
}

/// Clamp `x` into `[lo, hi]`.
pub open spec fn clampv(x: int, lo: int, hi: int) -> int {
    if x < lo {
        lo
    } else if x > hi {
        hi
    } else {
        x
    }
}

/// Saturating addition.
pub fn fx_add(a: Fx, b: Fx) -> (r: Fx)
    ensures
        r.v() == qadd(a.v(), b.v()),
{
    let s: i128 = a.0 as i128 + b.0 as i128;
    if s > i64::MAX as i128 {
        Fx(i64::MAX)
    } else if s < i64::MIN as i128 {
        Fx(i64::MIN)
    } else {
        Fx(s as i64)
    }
}

/// Saturating subtraction.
pub fn fx_sub(a: Fx, b: Fx) -> (r: Fx)
    ensures
        r.v() == qsub(a.v(), b.v()),
{
    let s: i128 = a.0 as i128 - b.0 as i128;
    if s > i64::MAX as i128 {
        Fx(i64::MAX)
    } else if s < i64::MIN as i128 {
        Fx(i64::MIN)
    } else {
        Fx(s as i64)
    }
}

/// Saturating negation.
pub fn fx_neg(a: Fx) -> (r: Fx)
    ensures
        r.v() == qneg(a.v()),
{
    if a.0 == i64::MIN {
        Fx(i64::MAX)
    } else {
        Fx(-a.0)
    }
}

/// The magnitude of a raw value, as a `u128`.
fn magnitude(a: i64) -> (m: u128)
    ensures
        a >= 0 ==> m == a as int,
        a < 0 ==> m == -(a as int),
{
    if a >= 0 {
        a as u128
    } else {
        (-(a as i128)) as u128
    }
}

/// Apply a sign to a nonnegative magnitude, saturating at the `i64` range.
fn signed_sat(neg: bool, q: u128) -> (r: i64)
    ensures
        neg ==> r as int == sat64(-(q as int)),
        !neg ==> r as int == sat64(q as int),
{
    if neg {
        if q >= 0x8000_0000_0000_0000u128 {
            i64::MIN
        } else {
            -(q as i64)
        }
    } else {
        if q > i64::MAX as u128 {
            i64::MAX
        } else {
            q as i64
        }
    }
}

/// Saturating fixed-point multiplication, rounding toward zero.
pub fn fx_mul(a: Fx, b: Fx) -> (r: Fx)
    ensures
        r.v() == qmul(a.v(), b.v()),
{
    let neg = (a.0 < 0) != (b.0 < 0);
    let ma = magnitude(a.0);
    let mb = magnitude(b.0);
    proof {
        assert(ma <= 0x8000_0000_0000_0000u128);
        assert(mb <= 0x8000_0000_0000_0000u128);
        assert(ma * mb <= 0x8000_0000_0000_0000 * 0x8000_0000_0000_0000) by (nonlinear_arith)
            requires
                ma <= 0x8000_0000_0000_0000u128,
                mb <= 0x8000_0000_0000_0000u128,
        ;
    }
    let p: u128 = ma * mb;
    let q: u128 = p / 0x1_0000_0000u128;
    proof {
        lemma_magnitude_product(a.v(), b.v(), ma as int, mb as int);
        lemma_tdiv_magnitude(a.v() * b.v(), p as int, ONE_RAW as int, ONE_RAW as int);
    }
    Fx(signed_sat(neg, q))
}

/// Saturating fixed-point division, rounding toward zero. The divisor must
/// not be zero.
pub fn fx_div(a: Fx, b: Fx) -> (r: Fx)
    requires
        b.v() != 0,
    ensures
        r.v() == qdiv(a.v(), b.v()),
{
    let neg = (a.0 < 0) != (b.0 < 0);
    let ma = magnitude(a.0);
    let mb = magnitude(b.0);
    let num: u128 = ma * 0x1_0000_0000u128;
    let q: u128 = num / mb;
    proof {
        assert(num as int == absi(a.v() * (ONE_RAW as int)));
        assert((a.v() * (ONE_RAW as int) < 0) == (a.v() < 0));
        lemma_tdiv_magnitude(a.v() * (ONE_RAW as int), num as int, b.v(), mb as int);
    }
    Fx(signed_sat(neg, q))
}

/// Fixed-point division by a positive integer count (no rescaling), rounding
/// toward zero. The result never saturates, because the magnitude shrinks.
pub fn fx_div_int(a: Fx, n: usize) -> (r: Fx)
    requires
        n > 0,
    ensures
        r.v() == tdiv(a.v(), n as int),
{
    let neg = a.0 < 0;
    let ma = magnitude(a.0);
    let q: u128 = ma / (n as u128);
    proof {
        vstd::arithmetic::div_mod::lemma_div_is_ordered_by_denominator(ma as int, 1, n as int);
        vstd::arithmetic::div_mod::lemma_div_basics(ma as int);
        assert(q <= ma);
    }
    Fx(signed_sat(neg, q))
}

/// Clamp into `[lo, hi]` (callers pass `lo <= hi`).
pub fn fx_clamp(a: Fx, lo: i64, hi: i64) -> (r: Fx)
    requires
        lo <= hi,
    ensures
        r.v() == clampv(a.v(), lo as int, hi as int),
{
    if a.0 < lo {
        Fx(lo)
    } else if a.0 > hi {
        Fx(hi)
    } else {
        a
    }
}

/// The raw integer values of a sequence of fixed-point numbers.
pub open spec fn fxs(s: Seq<Fx>) -> Seq<int> {
    s.map_values(|f: Fx| f.v())
}

/// A vector of `n` fixed-point zeros.
pub fn fx_zeros(n: usize) -> (r: Vec<Fx>)
    ensures
        r@.len() == n,
        forall|i: int| 0 <= i < n ==> r@[i].v() == 0,
{
    let mut r: Vec<Fx> = Vec::new();
    let mut k: usize = 0;
    while k < n
        invariant
            k <= n,
            r@.len() == k,
            forall|i: int| 0 <= i < k ==> r@[i].v() == 0,
        decreases n - k,
    {
        r.push(Fx::zero());
        k = k + 1;
    }
    r
}

/// An element-for-element copy of a vector of fixed-point numbers.
pub fn fx_copy(v: &Vec<Fx>) -> (r: Vec<Fx>)
    ensures
        r@ == v@,
{
    let mut r: Vec<Fx> = Vec::new();
    let mut k: usize = 0;
    while k < v.len()
        invariant
            k <= v@.len(),
            r@ == v@.take(k as int),
        decreases v@.len() - k,
    {
        r.push(v[k]);
        proof {
            assert(r@ =~= v@.take(k + 1));
        }
        k = k + 1;
    }
    proof {
        assert(r@ =~= v@);
    }
    r
}

/// `|a * b|` is the product of the magnitudes.
proof fn lemma_magnitude_product(av: int, bv: int, ma: int, mb: int)
    requires
        ma == if av >= 0 { av } else { -av },
        mb == if bv >= 0 { bv } else { -bv },
    ensures
        av * bv >= 0 ==> ma * mb == av * bv,
        av * bv < 0 ==> ma * mb == -(av * bv),
        (av * bv < 0) <==> ((av < 0) != (bv < 0)) && av * bv != 0,
        av * bv == 0 ==> ma * mb == 0,
{
    assert(ma * mb == if av * bv >= 0 { av * bv } else { -(av * bv) }) by (nonlinear_arith)
        requires
            ma == if av >= 0 { av } else { -av },
            mb == if bv >= 0 { bv } else { -bv },
    ;
    assert(((av * bv < 0) <==> ((av < 0) != (bv < 0)) && av * bv != 0)) by (nonlinear_arith);
}

/// Truncating division computed from magnitudes: with `p == |x|` and
/// `m == |d|`, `tdiv(x, d)` is `p / m` carrying the sign of the quotient.
proof fn lemma_tdiv_magnitude(x: int, p: int, d: int, m: int)
    requires
        d != 0,
        p == absi(x),
        m == absi(d),
    ensures
        (x < 0) == (d < 0) ==> tdiv(x, d) == p / m,
        (x < 0) != (d < 0) ==> tdiv(x, d) == -(p / m),
        p / m >= 0,
{
    vstd::arithmetic::div_mod::lemma_div_pos_is_pos(p, m);
}

} // verus!
