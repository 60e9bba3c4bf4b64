//! Activation functions: a stateless scalar pair (value, derivative).
//!
//! Each variant's `activate` and `derivative` return exactly the value of a
//! spec function over raw fixed-point integers, so a layer's forward and
//! backward passes are deterministic functions of weights and input.
//!
//! The transcendental variants (`Sigmoid`, `SoftPlus`) evaluate `e^-x` by
//! range reduction (`x = n*ln 2 + f`) and a truncated alternating series for
//! `e^-f`, and `ln(1+u)` by the inverse-hyperbolic-tangent series; the spec
//! functions state the same computation over the integers, step by step.

use vstd::prelude::*;
use crate::fx::{
    Fx, ONE_RAW, HALF_RAW, clampv, fx_add, fx_clamp, fx_div, fx_div_int, fx_mul, fx_neg, fx_sub,
    qadd, qdiv, qmul, qneg, qsub, tdiv,
};

verus! {

/// Raw value of `ln 2` in Q32.32.
pub const LN2_RAW: i64 = 2977044471;

/// Raw value of two.
pub const TWO_RAW: i64 = 0x1_0000_0000 * 2;

/// Cutoff beyond which `e^-x` is below one ulp: `sigmoid` is clamped there.
pub const SIG_CUT: i64 = 0x1_0000_0000 * 23;

/// Raw value of `0.01` (truncated), the LeakyReLU slope.
pub const CENT_RAW: i64 = 42949672;

/// Series coefficients `1/3 .. 1/13` in Q32.32 (truncated).
pub const INV3: i64 = 1431655765;
pub const INV5: i64 = 858993459;
pub const INV7: i64 = 613566756;
pub const INV9: i64 = 477218588;
pub const INV11: i64 = 390451572;
pub const INV13: i64 = 330382099;

/// Quotient of the range reduction `x = n * ln 2 + f` (for `x >= 0`).
pub open spec fn exp_n_of(x: int) -> int {
    x / (LN2_RAW as int)
}

/// Remainder of the range reduction, in `[0, ln 2)` for `x >= 0`.
pub open spec fn exp_f_of(x: int) -> int {
    x - exp_n_of(x) * (LN2_RAW as int)
}

/// Truncated alternating series for `e^-f`, `f` in `[0, ln 2)`: the Horner
/// recurrence `t_k = 1 - (f * t_{k+1}) / k` from `k = 13` down to `1`.
pub open spec fn exp_core_spec(f: int) -> int {
    let o = ONE_RAW as int;
    let t = o;
    let t = qsub(o, tdiv(qmul(f, t), 13));
    let t = qsub(o, tdiv(qmul(f, t), 12));
    let t = qsub(o, tdiv(qmul(f, t), 11));
    let t = qsub(o, tdiv(qmul(f, t), 10));
    let t = qsub(o, tdiv(qmul(f, t), 9));
    let t = qsub(o, tdiv(qmul(f, t), 8));
    let t = qsub(o, tdiv(qmul(f, t), 7));
    let t = qsub(o, tdiv(qmul(f, t), 6));
    let t = qsub(o, tdiv(qmul(f, t), 5));
    let t = qsub(o, tdiv(qmul(f, t), 4));
    let t = qsub(o, tdiv(qmul(f, t), 3));
    let t = qsub(o, tdiv(qmul(f, t), 2));
    qsub(o, tdiv(qmul(f, t), 1))
}

/// `v` halved (toward zero) `k` times.
pub open spec fn halve_n(v: int, k: nat) -> int
    decreases k,
{
    if k == 0 {
        v
    } else {
        tdiv(halve_n(v, (k - 1) as nat), 2)
    }
}

/// `e^-x` in Q32.32, for `x >= 0`: the reduced series scaled down by `2^n`.
pub open spec fn exp_neg_spec(x: int) -> int {
    halve_n(exp_core_spec(exp_f_of(x)), exp_n_of(x) as nat)
}

/// Sigmoid for `x >= 0`: `1 / (1 + e^-x)`, clamped into `(0, 1)`.
pub open spec fn sig_pos_spec(x: int) -> int {
    let o = ONE_RAW as int;
    if x >= SIG_CUT as int {
        o - 1
    } else {
        let t = clampv(exp_neg_spec(x), 0, o);
        clampv(qdiv(o, qadd(o, t)), 1, o - 1)
    }
}

/// Sigmoid: `1 / (1 + e^-x)`, via `sigmoid(x) = 1 - sigmoid(-x)` for `x < 0`.
pub open spec fn sig_spec(x: int) -> int {
    if x >= 0 {
        sig_pos_spec(x)
    } else {
        qsub(ONE_RAW as int, sig_pos_spec(qneg(x)))
    }
}

/// `ln(1 + u)` for `u` in `[0, 1]`: with `z = u / (u + 2)`, the series
/// `2 * (z + z^3/3 + ... + z^13/13)` evaluated by Horner on `z^2`.
pub open spec fn ln1p_spec(u: int) -> int {
    let o = ONE_RAW as int;
    let z = qdiv(u, qadd(u, TWO_RAW as int));
    let z2 = qmul(z, z);
    let t = INV13 as int;
    let t = qadd(INV11 as int, qmul(z2, t));
    let t = qadd(INV9 as int, qmul(z2, t));
    let t = qadd(INV7 as int, qmul(z2, t));
    let t = qadd(INV5 as int, qmul(z2, t));
    let t = qadd(INV3 as int, qmul(z2, t));
    let t = qadd(o, qmul(z2, t));
    let p = qmul(z, t);
    qadd(p, p)
}

/// SoftPlus for `x >= 0`: `ln(1 + e^-x)` (zero past the cutoff).
pub open spec fn softplus_pos_spec(x: int) -> int {
    if x >= SIG_CUT as int {
        0
    } else {
        ln1p_spec(clampv(exp_neg_spec(x), 0, ONE_RAW as int))
    }
}

/// SoftPlus `ln(1 + e^-x)`, via `ln(1 + e^-x) = -x + ln(1 + e^x)` for `x < 0`.
pub open spec fn softplus_spec(x: int) -> int {
    if x >= 0 {
        softplus_pos_spec(x)
    } else {
        qadd(qneg(x), softplus_pos_spec(qneg(x)))
    }
}

/// Truncated series for `e^-f` on the reduced argument.
fn exp_core(f: Fx) -> (r: Fx)
    ensures
        r.v() == exp_core_spec(f.v()),
{
    let o = Fx::one();
    let mut t = o;
    t = fx_sub(o, fx_div_int(fx_mul(f, t), 13));
    t = fx_sub(o, fx_div_int(fx_mul(f, t), 12));
    t = fx_sub(o, fx_div_int(fx_mul(f, t), 11));
    t = fx_sub(o, fx_div_int(fx_mul(f, t), 10));
    t = fx_sub(o, fx_div_int(fx_mul(f, t), 9));
    t = fx_sub(o, fx_div_int(fx_mul(f, t), 8));
    t = fx_sub(o, fx_div_int(fx_mul(f, t), 7));
    t = fx_sub(o, fx_div_int(fx_mul(f, t), 6));
    t = fx_sub(o, fx_div_int(fx_mul(f, t), 5));
    t = fx_sub(o, fx_div_int(fx_mul(f, t), 4));
    t = fx_sub(o, fx_div_int(fx_mul(f, t), 3));
    t = fx_sub(o, fx_div_int(fx_mul(f, t), 2));
    fx_sub(o, fx_div_int(fx_mul(f, t), 1))
}

/// `e^-x` for `0 <= x < SIG_CUT`.
fn exp_neg(x: Fx) -> (r: Fx)
    requires
        0 <= x.v() < SIG_CUT as int,
    ensures
        r.v() == exp_neg_spec(x.v()),
{
    let xr = x.raw() as u64;
    let n = xr / (LN2_RAW as u64);
    proof {
        vstd::arithmetic::div_mod::lemma_fundamental_div_mod(xr as int, LN2_RAW as int);
        assert(n as int == exp_n_of(x.v()));
    }
    let f = xr - n * (LN2_RAW as u64);
    proof {
        assert(f as int == exp_f_of(x.v()));
        assert(f < LN2_RAW as u64);
    }
    let core = exp_core(Fx::from_raw(f as i64));
    let mut r = core;
    let mut i: u64 = 0;
    while i < n
        invariant
            i <= n,
            r.v() == halve_n(core.v(), i as nat),
        decreases n - i,
    {
        r = fx_div_int(r, 2);
        i = i + 1;
    }
    r
}

/// Sigmoid on nonnegative arguments.
fn sigmoid_pos(x: Fx) -> (r: Fx)
    requires
        x.v() >= 0,
    ensures
        r.v() == sig_pos_spec(x.v()),
{
    if x.raw() >= SIG_CUT {
        Fx::from_raw(ONE_RAW - 1)
    } else {
        let t = exp_neg(x);
        let t = fx_clamp(t, 0, ONE_RAW);
        let denom = fx_add(Fx::one(), t);
        let r = fx_div(Fx::one(), denom);
        fx_clamp(r, 1, ONE_RAW - 1)
    }
}

/// The sigmoid `1 / (1 + e^-x)` in Q32.32.
pub fn sigmoid(x: Fx) -> (r: Fx)
    ensures
        r.v() == sig_spec(x.v()),
{
    if x.raw() >= 0 {
        sigmoid_pos(x)
    } else {
        fx_sub(Fx::one(), sigmoid_pos(fx_neg(x)))
    }
}

/// `ln(1 + u)` for `u` in `[0, 1]`.
fn ln1p(u: Fx) -> (r: Fx)
    requires
        0 <= u.v() <= ONE_RAW as int,
    ensures
        r.v() == ln1p_spec(u.v()),
{
    let o = Fx::one();
    let denom = fx_add(u, Fx::from_raw(TWO_RAW));
    let z = fx_div(u, denom);
    let z2 = fx_mul(z, z);
    let mut t = Fx::from_raw(INV13);
    t = fx_add(Fx::from_raw(INV11), fx_mul(z2, t));
    t = fx_add(Fx::from_raw(INV9), fx_mul(z2, t));
    t = fx_add(Fx::from_raw(INV7), fx_mul(z2, t));
    t = fx_add(Fx::from_raw(INV5), fx_mul(z2, t));
    t = fx_add(Fx::from_raw(INV3), fx_mul(z2, t));
    t = fx_add(o, fx_mul(z2, t));
    let p = fx_mul(z, t);
    fx_add(p, p)
}

/// SoftPlus on nonnegative arguments.
fn softplus_pos(x: Fx) -> (r: Fx)
    requires
        x.v() >= 0,
    ensures
        r.v() == softplus_pos_spec(x.v()),
{
    if x.raw() >= SIG_CUT {
        Fx::zero()
    } else {
        let t = fx_clamp(exp_neg(x), 0, ONE_RAW);
        ln1p(t)
    }
}

/// SoftPlus `ln(1 + e^-x)` in Q32.32.
pub fn softplus(x: Fx) -> (r: Fx)
    ensures
        r.v() == softplus_spec(x.v()),
{
    if x.raw() >= 0 {
        softplus_pos(x)
    } else {
        let nx = fx_neg(x);
        fx_add(nx, softplus_pos(nx))
    }
}

/// A stateless scalar activation: a value function and its derivative.
///
/// A `Dense` layer always hands `derivative` the cached *post-activation*
/// output, never the pre-activation sum. That convention is exact for
/// `Sigmoid` (whose derivative is written in terms of its own output) and
/// harmless for the piecewise-linear variants (they preserve sign), but for
/// `SoftPlus` it is a deliberate, documented quirk of the layer protocol.
pub trait Activation: Sized {
    /// The value of `activate` over raw fixed-point integers.
    spec fn act_spec(&self, x: int) -> int;

    /// The value of `derivative` over raw fixed-point integers.
    spec fn deriv_spec(&self, x: int) -> int;

    /// Apply the activation.
    fn activate(&self, x: Fx) -> (r: Fx)
        ensures
            r.v() == self.act_spec(x.v()),
    ;

    /// The activation's derivative.
    fn derivative(&self, x: Fx) -> (r: Fx)
        ensures
            r.v() == self.deriv_spec(x.v()),
    ;
}

/// `1 / (1 + e^-x)`; its derivative takes the activated output `y` and is
/// `y * (1 - y)`.
#[derive(Clone, Copy, Debug)]
pub struct Sigmoid;

impl Activation for Sigmoid {
    open spec fn act_spec(&self, x: int) -> int {
        sig_spec(x)
    }

    open spec fn deriv_spec(&self, x: int) -> int {
        qmul(x, qsub(ONE_RAW as int, x))
    }

    fn activate(&self, x: Fx) -> (r: Fx) {
        sigmoid(x)
    }

    fn derivative(&self, x: Fx) -> (r: Fx) {
        fx_mul(x, fx_sub(Fx::one(), x))
    }
}

/// `x` for positive `x`, else zero; derivative one or zero.
#[derive(Clone, Copy, Debug)]
pub struct ReLU;

impl Activation for ReLU {
    open spec fn act_spec(&self, x: int) -> int {
        if x > 0 {
            x
        } else {
            0
        }
    }

    open spec fn deriv_spec(&self, x: int) -> int {
        if x > 0 {
            ONE_RAW as int
        } else {
            0
        }
    }

    fn activate(&self, x: Fx) -> (r: Fx) {
        if x.raw() > 0 {
            x
        } else {
            Fx::zero()
        }
    }

    fn derivative(&self, x: Fx) -> (r: Fx) {
        if x.raw() > 0 {
            Fx::one()
        } else {
            Fx::zero()
        }
    }
}

/// `x` for positive `x`, else `0.01 * x`; derivative one or `0.01`.
#[derive(Clone, Copy, Debug)]
pub struct LeakyReLU;

impl Activation for LeakyReLU {
    open spec fn act_spec(&self, x: int) -> int {
        if x > 0 {
            x
        } else {
            qmul(CENT_RAW as int, x)
        }
    }

    open spec fn deriv_spec(&self, x: int) -> int {
        if x > 0 {
            ONE_RAW as int
        } else {
            CENT_RAW as int
        }
    }

    fn activate(&self, x: Fx) -> (r: Fx) {
        if x.raw() > 0 {
            x
        } else {
            fx_mul(Fx::from_raw(CENT_RAW), x)
        }
    }

    fn derivative(&self, x: Fx) -> (r: Fx) {
        if x.raw() > 0 {
            Fx::one()
        } else {
            Fx::from_raw(CENT_RAW)
        }
    }
}

/// `ln(1 + e^-x)`; the derivative formula is `1 / (1 + e^-x)`, which expects
/// the raw pre-activation argument (see the trait-level note on the quirk).
#[derive(Clone, Copy, Debug)]
pub struct SoftPlus;

impl Activation for SoftPlus {
    open spec fn act_spec(&self, x: int) -> int {
        softplus_spec(x)
    }

    open spec fn deriv_spec(&self, x: int) -> int {
        sig_spec(x)
    }

    fn activate(&self, x: Fx) -> (r: Fx) {
        softplus(x)
    }

    fn derivative(&self, x: Fx) -> (r: Fx) {
        sigmoid(x)
    }
}

/// The identity; derivative one.
#[derive(Clone, Copy, Debug)]
pub struct Linear;

impl Activation for Linear {
    open spec fn act_spec(&self, x: int) -> int {
        x
    }

    open spec fn deriv_spec(&self, x: int) -> int {
        ONE_RAW as int
    }

    fn activate(&self, x: Fx) -> (r: Fx) {
        x
    }

    fn derivative(&self, x: Fx) -> (r: Fx) {
        Fx::one()
    }
}

/// The sigmoid stays strictly between zero and one, and is exactly one half
/// at zero.
pub proof fn lemma_sigmoid_bounds(x: int)
    ensures
        0 < sig_spec(x) < ONE_RAW as int,
        sig_spec(0) == HALF_RAW as int,
{
    lemma_sig_pos_range(x);
    if x < 0 {
        lemma_sig_pos_range(qneg(x));
    }
    assert(exp_n_of(0) == 0) by {
        vstd::arithmetic::div_mod::lemma_div_basics(LN2_RAW as int);
        assert(0int / (LN2_RAW as int) == 0);
    }
    assert(exp_core_spec(0) == ONE_RAW as int);
    assert(exp_neg_spec(0) == ONE_RAW as int);
    assert(qadd(ONE_RAW as int, ONE_RAW as int) == TWO_RAW as int);
    assert(qdiv(ONE_RAW as int, TWO_RAW as int) == HALF_RAW as int) by {
        vstd::arithmetic::div_mod::lemma_fundamental_div_mod_converse(
            0x1_0000_0000_0000_0000,
            0x2_0000_0000,
            0x8000_0000,
            0,
        );
    }
    assert(sig_pos_spec(0) == HALF_RAW as int);
}

/// The nonnegative-side sigmoid is already clamped into `[1, 2^32 - 1]`.
proof fn lemma_sig_pos_range(x: int)
    ensures
        1 <= sig_pos_spec(x) <= ONE_RAW - 1,
{
}

} // verus!
