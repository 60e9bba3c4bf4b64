//! The fully connected layer: one weighted sum plus bias per output unit,
//! followed by the layer's activation.
//!
//! Parameters are a flattened row-major matrix with `output_count` rows of
//! length `input_count + 1`; the last element of each row is that unit's
//! bias. The forward and backward passes are specified elementwise over raw
//! fixed-point integers by the spec functions below, in the exact order the
//! code folds the sums.

use vstd::prelude::*;
use crate::fx::{Fx, ONE_RAW, fxs, fx_add, fx_copy, fx_mul, fx_zeros, qadd, qmul};
use crate::activation::Activation;
use crate::layer::{Layer, NetError};
use rand::Rng;

verus! {

/// Left fold of the first `j` products `x[jj] * w[base + jj]`.
pub open spec fn dot_prefix(w: Seq<int>, x: Seq<int>, base: int, j: nat) -> int
    decreases j,
{
    if j == 0 {
        0
    } else {
        qadd(dot_prefix(w, x, base, (j - 1) as nat), qmul(x[j - 1], w[base + j - 1]))
    }
}

/// Pre-activation of unit `i`: its weighted input sum plus its bias.
pub open spec fn unit_pre(w: Seq<int>, x: Seq<int>, i: int, n: int) -> int {
    qadd(dot_prefix(w, x, i * (n + 1), n as nat), w[i * (n + 1) + n])
}

/// The forward output: each unit's activated pre-activation.
pub open spec fn dense_fwd<A: Activation>(act: &A, w: Seq<int>, x: Seq<int>, m: nat, n: nat) -> Seq<int> {
    Seq::new(m, |i: int| act.act_spec(unit_pre(w, x, i, n as int)))
}

/// One summand of the backpropagated error at input `j`: the upstream error
/// of unit `i`, scaled by the derivative at the unit's cached output and by
/// the connecting weight.
pub open spec fn bwd_term<A: Activation>(
    act: &A,
    w: Seq<int>,
    c: Seq<int>,
    e: Seq<int>,
    i: int,
    j: int,
    n: int,
) -> int {
    qmul(qmul(e[i], act.deriv_spec(c[i])), w[i * (n + 1) + j])
}

/// Left fold of the first `i` summands of the backpropagated error at `j`.
pub open spec fn bwd_sum<A: Activation>(
    act: &A,
    w: Seq<int>,
    c: Seq<int>,
    e: Seq<int>,
    j: int,
    i: nat,
    n: int,
) -> int
    decreases i,
{
    if i == 0 {
        0
    } else {
        qadd(bwd_sum(act, w, c, e, j, (i - 1) as nat, n), bwd_term(act, w, c, e, i - 1, j, n))
    }
}

/// The full backpropagated error vector.
pub open spec fn dense_bwd_err<A: Activation>(
    act: &A,
    w: Seq<int>,
    c: Seq<int>,
    e: Seq<int>,
    n: nat,
    m: nat,
) -> Seq<int> {
    Seq::new(n, |j: int| bwd_sum(act, w, c, e, j, m, n as int))
}

/// Weight `k` after one gradient step: row `i = k / (n+1)` is unit `i`, and
/// column `j = k % (n+1)` is an input weight for `j < n`, the bias for
/// `j == n`.
pub open spec fn upd_weight<A: Activation>(
    act: &A,
    w: Seq<int>,
    c: Seq<int>,
    x: Seq<int>,
    e: Seq<int>,
    rate: int,
    n: int,
    k: int,
) -> int {
    let i = k / (n + 1);
    let j = k % (n + 1);
    let g = qmul(qmul(rate, e[i]), act.deriv_spec(c[i]));
    if j < n {
        qadd(w[k], qmul(g, x[j]))
    } else {
        qadd(w[k], g)
    }
}

/// The whole parameter vector after one in-place gradient step.
pub open spec fn dense_bwd_w<A: Activation>(
    act: &A,
    w: Seq<int>,
    c: Seq<int>,
    x: Seq<int>,
    e: Seq<int>,
    rate: int,
    n: nat,
) -> Seq<int> {
    Seq::new(w.len(), |k: int| upd_weight(act, w, c, x, e, rate, n as int, k))
}

/// A flat index `i * (n+1) + j` with `j <= n` stays below `m * (n+1)`.
proof fn lemma_flat_bound(i: int, j: int, m: int, n: int)
    requires
        0 <= i < m,
        0 <= j <= n,
    ensures
        0 <= i * (n + 1),
        i * (n + 1) + j < m * (n + 1),
        n + 1 <= m * (n + 1),
{
    assert(0 <= i * (n + 1) && i * (n + 1) + j < m * (n + 1) && n + 1 <= m * (n + 1))
        by (nonlinear_arith)
        requires
            0 <= i < m,
            0 <= j <= n,
    ;
}

/// A flat index decomposes uniquely into its row and column.
proof fn lemma_flat_decomp(i: int, j: int, n: int)
    requires
        0 <= i,
        0 <= j <= n,
    ensures
        (i * (n + 1) + j) / (n + 1) == i,
        (i * (n + 1) + j) % (n + 1) == j,
{
    vstd::arithmetic::div_mod::lemma_fundamental_div_mod_converse(
        i * (n + 1) + j,
        n + 1,
        i,
        j,
    );
}

/// Relies on rand's `Rng::gen_range` on `thread_rng`: a sample from a
/// nonempty half-open integer range lies in that range. Used only for the
/// default weight initialization, uniform over `[-1, 1)`.
#[verifier::external_body]
fn random_weight() -> (r: Fx)
    ensures
        -(ONE_RAW as int) <= r.v() < ONE_RAW as int,
{
    Fx(rand::thread_rng().gen_range(-ONE_RAW..ONE_RAW))
}

/// A fully connected layer: flattened weight-plus-bias matrix, one bound
/// activation shared by all units, and the per-call caches.
pub struct Dense<A: Activation> {
    input_count: usize,
    output_count: usize,
    weights: Vec<Fx>,
    activation: A,
    outputs: Vec<Fx>,
    errors: Vec<Fx>,
}

impl<A: Activation> Dense<A> {
    /// The bound activation.
    pub closed spec fn act_of(&self) -> &A {
        &self.activation
    }

    /// Build a dense layer. Explicit weights must have exactly
    /// `units * (inputs + 1)` entries — anything else is rejected; omitted
    /// weights are drawn independently and uniformly from `[-1, 1)`.
    pub fn new(inputs: usize, units: usize, activation: A, o_weights: Option<Vec<Fx>>) -> (r: Result<
        Dense<A>,
        NetError,
    >)
        requires
            inputs < usize::MAX,
            units * (inputs as int + 1) <= usize::MAX as int,
        ensures
            r is Ok <==> (o_weights matches Some(w) ==> w@.len() == units * (inputs as int + 1)),
            r matches Err(err) ==> err == NetError::InvalidWeights,
            r matches Ok(d) ==> d.wf() && d.in_n() == inputs && d.out_n() == units
                && d.act_of() == &activation,
            r matches Ok(d) ==> (o_weights matches Some(w) ==> d.weights_model() == fxs(w@)),
            r matches Ok(d) ==> (o_weights is None ==> forall|k: int|
                0 <= k < d.weights_model().len()
                    ==> -(ONE_RAW as int) <= #[trigger] d.weights_model()[k] < ONE_RAW as int),
    {
        let expected = units * (inputs + 1);
        let weights = match o_weights {
            Some(w) => {
                if w.len() != expected {
                    return Err(NetError::InvalidWeights);
                }
                w
            },
            None => {
                let mut w: Vec<Fx> = Vec::new();
                let mut k: usize = 0;
                while k < expected
                    invariant
                        k <= expected,
                        w@.len() == k,
                        forall|kk: int| 0 <= kk < k
                            ==> -(ONE_RAW as int) <= #[trigger] w@[kk].v() < ONE_RAW as int,
                    decreases expected - k,
                {
                    w.push(random_weight());
                    k = k + 1;
                }
                w
            },
        };
        Ok(Dense {
            input_count: inputs,
            output_count: units,
            weights,
            activation,
            outputs: fx_zeros(units),
            errors: fx_zeros(inputs),
        })
    }
}

impl<A: Activation> Layer for Dense<A> {
    closed spec fn wf(&self) -> bool {
        &&& self.weights@.len() == self.output_count * (self.input_count as int + 1)
        &&& self.outputs@.len() == self.output_count
        &&& self.errors@.len() == self.input_count
    }

    closed spec fn in_n(&self) -> nat {
        self.input_count as nat
    }

    closed spec fn out_n(&self) -> nat {
        self.output_count as nat
    }

    closed spec fn weights_model(&self) -> Seq<int> {
        fxs(self.weights@)
    }

    closed spec fn cache_model(&self) -> Seq<int> {
        fxs(self.outputs@)
    }

    closed spec fn fwd_model(&self, x: Seq<int>) -> Seq<int> {
        dense_fwd(&self.activation, fxs(self.weights@), x, self.out_n(), self.in_n())
    }

    closed spec fn bwd_err_model(&self, cache: Seq<int>, e: Seq<int>) -> Seq<int> {
        dense_bwd_err(&self.activation, fxs(self.weights@), cache, e, self.in_n(), self.out_n())
    }

    closed spec fn bwd_weights_model(&self, cache: Seq<int>, x: Seq<int>, e: Seq<int>, rate: int) -> Seq<int> {
        dense_bwd_w(&self.activation, fxs(self.weights@), cache, x, e, rate, self.in_n())
    }

    proof fn lemma_fwd_len(&self, x: Seq<int>) {
    }

    proof fn lemma_bwd_err_len(&self, cache: Seq<int>, e: Seq<int>) {
    }

    fn input_count(&self) -> (r: usize) {
        self.input_count
    }

    fn output_count(&self) -> (r: usize) {
        self.output_count
    }

    fn get_weights(&self) -> (r: Vec<Fx>) {
        fx_copy(&self.weights)
    }

    fn forward(&mut self, input: &Vec<Fx>) -> (r: Vec<Fx>) {
        let n = self.input_count;
        let m = self.output_count;
        let ghost w0 = fxs(self.weights@);
        let ghost x0 = fxs(input@);
        let wlen = self.weights.len();
        let mut outputs: Vec<Fx> = Vec::new();
        let mut i: usize = 0;
        while i < m
            invariant
                *self == *old(self),
                old(self).wf(),
                n == self.input_count,
                m == self.output_count,
                w0 == fxs(self.weights@),
                x0 == fxs(input@),
                input@.len() == n,
                i <= m,
                wlen == self.weights@.len(),
                outputs@.len() == i,
                forall|ii: int| 0 <= ii < i
                    ==> outputs@[ii].v() == self.activation.act_spec(unit_pre(w0, x0, ii, n as int)),
            decreases m - i,
        {
            proof {
                lemma_flat_bound(i as int, n as int, m as int, n as int);
            }
            let base = i * (n + 1);
            let mut sum = Fx::zero();
            let mut j: usize = 0;
            while j < n
                invariant
                    *self == *old(self),
                    old(self).wf(),
                    n == self.input_count,
                    m == self.output_count,
                    w0 == fxs(self.weights@),
                    x0 == fxs(input@),
                    input@.len() == n,
                    i < m,
                    base == i * (n as int + 1),
                    j <= n,
                    wlen == self.weights@.len(),
                    sum.v() == dot_prefix(w0, x0, base as int, j as nat),
                decreases n - j,
            {
                proof {
                    lemma_flat_bound(i as int, j as int, m as int, n as int);
                }
                sum = fx_add(sum, fx_mul(input[j], self.weights[base + j]));
                j = j + 1;
            }
            let pre = fx_add(sum, self.weights[base + n]);
            let y = self.activation.activate(pre);
            outputs.push(y);
            i = i + 1;
        }
        self.outputs = fx_copy(&outputs);
        proof {
            assert(fxs(outputs@) =~= dense_fwd(&self.activation, w0, x0, m as nat, n as nat));
        }
        outputs
    }

    fn backward(&mut self, input: &Vec<Fx>, e: &Vec<Fx>, rate: Fx) -> (r: Vec<Fx>) {
        let n = self.input_count;
        let m = self.output_count;
        let ghost w0 = fxs(self.weights@);
        let ghost c0 = fxs(self.outputs@);
        let ghost x0 = fxs(input@);
        let ghost e0 = fxs(e@);
        let wlen = self.weights.len();

        // First pass: the error to hand to the previous layer, from the
        // still-unchanged weights.
        let mut errors_out: Vec<Fx> = Vec::new();
        let mut j: usize = 0;
        while j < n
            invariant
                *self == *old(self),
                old(self).wf(),
                n == self.input_count,
                m == self.output_count,
                w0 == fxs(self.weights@),
                c0 == fxs(self.outputs@),
                x0 == fxs(input@),
                e0 == fxs(e@),
                input@.len() == n,
                e@.len() == m,
                j <= n,
                wlen == self.weights@.len(),
                errors_out@.len() == j,
                forall|jj: int| 0 <= jj < j
                    ==> errors_out@[jj].v() == bwd_sum(&self.activation, w0, c0, e0, jj, m as nat, n as int),
            decreases n - j,
        {
            let mut sum = Fx::zero();
            let mut i: usize = 0;
            while i < m
                invariant
                    *self == *old(self),
                    old(self).wf(),
                    n == self.input_count,
                    m == self.output_count,
                    w0 == fxs(self.weights@),
                    c0 == fxs(self.outputs@),
                    x0 == fxs(input@),
                    e0 == fxs(e@),
                    input@.len() == n,
                    e@.len() == m,
                    j < n,
                    i <= m,
                    wlen == self.weights@.len(),
                    sum.v() == bwd_sum(&self.activation, w0, c0, e0, j as int, i as nat, n as int),
                decreases m - i,
            {
                proof {
                    lemma_flat_bound(i as int, j as int, m as int, n as int);
                }
                let d = self.activation.derivative(self.outputs[i]);
                let t = fx_mul(e[i], d);
                let t2 = fx_mul(t, self.weights[i * (n + 1) + j]);
                sum = fx_add(sum, t2);
                i = i + 1;
            }
            errors_out.push(sum);
            j = j + 1;
        }

        // Second pass: update every weight and bias in place by one
        // gradient step.
        let mut i: usize = 0;
        while i < m
            invariant
                old(self).wf(),
                n == self.input_count,
                m == self.output_count,
                self.input_count == old(self).input_count,
                self.output_count == old(self).output_count,
                self.activation == old(self).activation,
                self.outputs == old(self).outputs,
                self.errors == old(self).errors,
                w0 == fxs(old(self).weights@),
                c0 == fxs(self.outputs@),
                x0 == fxs(input@),
                e0 == fxs(e@),
                input@.len() == n,
                e@.len() == m,
                i <= m,
                wlen == self.weights@.len(),
                self.weights@.len() == w0.len(),
                w0.len() == m * (n as int + 1),
                forall|k: int| 0 <= k < i * (n as int + 1)
                    ==> self.weights@[k].v() == upd_weight(
                        &self.activation, w0, c0, x0, e0, rate.v(), n as int, k),
                forall|k: int| i * (n as int + 1) <= k < w0.len()
                    ==> self.weights@[k].v() == w0[k],
            decreases m - i,
        {
            let ghost row = i * (n as int + 1);
            let mut j: usize = 0;
            while j < n
                invariant
                    old(self).wf(),
                    n == self.input_count,
                    m == self.output_count,
                    self.input_count == old(self).input_count,
                    self.output_count == old(self).output_count,
                    self.activation == old(self).activation,
                    self.outputs == old(self).outputs,
                    self.errors == old(self).errors,
                    w0 == fxs(old(self).weights@),
                    c0 == fxs(self.outputs@),
                    x0 == fxs(input@),
                    e0 == fxs(e@),
                    input@.len() == n,
                    e@.len() == m,
                    i < m,
                    j <= n,
                    row == i * (n as int + 1),
                    wlen == self.weights@.len(),
                    self.weights@.len() == w0.len(),
                    w0.len() == m * (n as int + 1),
                    forall|k: int| 0 <= k < row + j
                        ==> self.weights@[k].v() == upd_weight(
                            &self.activation, w0, c0, x0, e0, rate.v(), n as int, k),
                    forall|k: int| row + j <= k < w0.len()
                        ==> self.weights@[k].v() == w0[k],
                decreases n - j,
            {
                proof {
                    lemma_flat_bound(i as int, j as int, m as int, n as int);
                    lemma_flat_decomp(i as int, j as int, n as int);
                }
                let d = self.activation.derivative(self.outputs[i]);
                let g = fx_mul(fx_mul(rate, e[i]), d);
                let idx = i * (n + 1) + j;
                let nw = fx_add(self.weights[idx], fx_mul(g, input[j]));
                self.weights[idx] = nw;
                proof {
                    assert(self.weights@[idx as int].v() == upd_weight(
                        &self.activation, w0, c0, x0, e0, rate.v(), n as int, idx as int));
                }
                j = j + 1;
            }
            proof {
                lemma_flat_bound(i as int, n as int, m as int, n as int);
                lemma_flat_decomp(i as int, n as int, n as int);
            }
            let d = self.activation.derivative(self.outputs[i]);
            let g = fx_mul(fx_mul(rate, e[i]), d);
            let idx = i * (n + 1) + n;
            let nb = fx_add(self.weights[idx], g);
            self.weights[idx] = nb;
            proof {
                assert(self.weights@[idx as int].v() == upd_weight(
                    &self.activation, w0, c0, x0, e0, rate.v(), n as int, idx as int));
                assert((i as int + 1) * (n as int + 1) == row + n + 1) by (nonlinear_arith)
                    requires
                        row == i * (n as int + 1),
                ;
            }
            i = i + 1;
        }

        self.errors = fx_copy(&errors_out);
        proof {
            assert(fxs(errors_out@) =~= dense_bwd_err(&self.activation, w0, c0, e0, n as nat, m as nat));
            assert(fxs(self.weights@) =~= dense_bwd_w(
                &self.activation, w0, c0, x0, e0, rate.v(), n as nat));
        }
        errors_out
    }
}

/// Forward determinism: the forward output is a function of the layer's
/// parameters, activation and input alone — repeated passes with untouched
/// weights return the same output, whatever the caches hold.
pub proof fn lemma_forward_deterministic<A: Activation>(d1: &Dense<A>, d2: &Dense<A>, x: Seq<int>)
    requires
        d1.act_of() == d2.act_of(),
        d1.weights_model() == d2.weights_model(),
        d1.in_n() == d2.in_n(),
        d1.out_n() == d2.out_n(),
    ensures
        d1.fwd_model(x) == d2.fwd_model(x),
{
}

/// Shape invariant: a well-formed dense layer holds exactly
/// `output_count * (input_count + 1)` parameters, bias included.
pub proof fn lemma_dense_weights_len<A: Activation>(d: &Dense<A>)
    requires
        d.wf(),
    ensures
        d.weights_model().len() == d.out_n() * (d.in_n() + 1),
{
}

} // verus!
