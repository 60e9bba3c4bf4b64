//! The network: an ordered composition of layers, with inference
//! (`predict`) and single-sample training (`train`).
//!
//! The spec functions chain the layers' own models: `chain_fwd` threads an
//! input through every layer in order, `chain_err` threads the output error
//! back through the layers in reverse, and `trained_weights` gives each
//! layer's parameters after one in-place gradient step. `train` promises
//! exactly these, over the network state at entry.

use vstd::prelude::*;
use crate::fx::{
    Fx, fxs, fx_add, fx_copy, fx_div_int, fx_mul, fx_sub, fx_zeros, qadd, qmul, qsub, tdiv,
};
use crate::layer::{Layer, NetError};

verus! {

/// The output of the layer chain `ls` on input `x`.
pub open spec fn chain_fwd<L: Layer>(ls: Seq<L>, x: Seq<int>) -> Seq<int>
    decreases ls.len(),
{
    if ls.len() == 0 {
        x
    } else {
        ls.last().fwd_model(chain_fwd(ls.drop_last(), x))
    }
}

/// The vector fed into layer `i` during a pass on input `x`.
pub open spec fn chain_in<L: Layer>(ls: Seq<L>, x: Seq<int>, i: int) -> Seq<int> {
    chain_fwd(ls.take(i), x)
}

/// The error entering the backward pass of layer `i`: the output-level error
/// `etop` for the last layer, else the error propagated by layer `i + 1`
/// (computed from its forward cache for this pass).
pub open spec fn chain_err<L: Layer>(ls: Seq<L>, x: Seq<int>, etop: Seq<int>, i: int) -> Seq<int>
    decreases ls.len() - i,
{
    if i >= ls.len() - 1 {
        etop
    } else {
        chain_err_step(ls, x, chain_err(ls, x, etop, i + 1), i + 1)
    }
}

/// One backward step: what layer `j` hands down, given the error entering it.
pub open spec fn chain_err_step<L: Layer>(ls: Seq<L>, x: Seq<int>, e: Seq<int>, j: int) -> Seq<int> {
    ls[j].bwd_err_model(ls[j].fwd_model(chain_in(ls, x, j)), e)
}

/// Elementwise output error `y - prediction`.
pub open spec fn net_etop<L: Layer>(ls: Seq<L>, x: Seq<int>, y: Seq<int>) -> Seq<int> {
    let out = chain_fwd(ls, x);
    Seq::new(y.len(), |k: int| qsub(y[k], out[k]))
}

/// Left fold of the first `k` squared errors.
pub open spec fn mse_fold(e: Seq<int>, k: nat) -> int
    decreases k,
{
    if k == 0 {
        0
    } else {
        qadd(mse_fold(e, (k - 1) as nat), qmul(e[k - 1], e[k - 1]))
    }
}

/// The mean squared error of one training sample (zero for an empty output).
pub open spec fn net_loss<L: Layer>(ls: Seq<L>, x: Seq<int>, y: Seq<int>) -> int {
    if y.len() == 0 {
        0
    } else {
        tdiv(mse_fold(net_etop(ls, x, y), y.len()), y.len() as int)
    }
}

/// Layer `i`'s parameters after one training pass on `(x, y)`.
pub open spec fn trained_weights<L: Layer>(
    ls: Seq<L>,
    x: Seq<int>,
    y: Seq<int>,
    rate: int,
    i: int,
) -> Seq<int> {
    let xin = chain_in(ls, x, i);
    ls[i].bwd_weights_model(
        ls[i].fwd_model(xin),
        xin,
        chain_err(ls, x, net_etop(ls, x, y), i),
        rate,
    )
}

/// Adjacent layers agree: each layer's output width is the next one's input
/// width.
pub open spec fn chain_ok<L: Layer>(ls: Seq<L>) -> bool {
    forall|i: int| 0 <= i < ls.len() - 1 ==> #[trigger] ls[i].out_n() == ls[i + 1].in_n()
}

/// Every layer of the chain is well formed.
pub open spec fn all_wf<L: Layer>(ls: Seq<L>) -> bool {
    forall|i: int| 0 <= i < ls.len() ==> (#[trigger] ls[i]).wf()
}

/// The width of the vector entering layer `i` (the input itself for `i == 0`,
/// else the previous layer's output width).
pub proof fn lemma_chain_in_len<L: Layer>(ls: Seq<L>, x: Seq<int>, i: int)
    requires
        0 <= i <= ls.len(),
        all_wf(ls),
    ensures
        chain_in(ls, x, i).len() == if i == 0 {
            x.len() as int
        } else {
            ls[i - 1].out_n() as int
        },
{
    if i == 0 {
        assert(ls.take(0) =~= Seq::<L>::empty());
    } else {
        assert(ls.take(i).drop_last() =~= ls.take(i - 1));
        assert(ls.take(i).last() == ls[i - 1]);
        ls[i - 1].lemma_fwd_len(chain_in(ls, x, i - 1));
    }
}

/// The width of the error entering layer `i`'s backward pass.
pub proof fn lemma_chain_err_len<L: Layer>(ls: Seq<L>, x: Seq<int>, etop: Seq<int>, i: int)
    requires
        0 <= i < ls.len(),
        all_wf(ls),
    ensures
        chain_err(ls, x, etop, i).len() == if i == ls.len() - 1 {
            etop.len() as int
        } else {
            ls[i + 1].in_n() as int
        },
{
    if i < ls.len() - 1 {
        ls[i + 1].lemma_bwd_err_len(
            ls[i + 1].fwd_model(chain_in(ls, x, i + 1)),
            chain_err(ls, x, etop, i + 1),
        );
    }
}

/// Two chains whose layers agree pointwise on their forward models produce
/// the same output. With `predict`'s promise that every layer's forward
/// model is untouched, repeated predictions on the same input are equal.
pub proof fn lemma_chain_fwd_stable<L: Layer>(ls1: Seq<L>, ls2: Seq<L>, x: Seq<int>)
    requires
        ls1.len() == ls2.len(),
        forall|k: int, s: Seq<int>| 0 <= k < ls1.len()
            ==> (#[trigger] ls1[k].fwd_model(s)) == ls2[k].fwd_model(s),
    ensures
        chain_fwd(ls1, x) == chain_fwd(ls2, x),
    decreases ls1.len(),
{
    if ls1.len() > 0 {
        lemma_chain_fwd_stable(ls1.drop_last(), ls2.drop_last(), x);
        assert(ls1.last().fwd_model(chain_fwd(ls1.drop_last(), x)) == ls2.last().fwd_model(
            chain_fwd(ls2.drop_last(), x),
        ));
    }
}

/// An ordered composition of layers. Owns the per-layer input caches that a
/// backward pass replays, and a scratch buffer for the output-level error.
pub struct Network<L: Layer> {
    layers: Vec<L>,
    errors: Vec<Fx>,
    inputs: Vec<Vec<Fx>>,
    input_count: usize,
    output_count: usize,
}

impl<L: Layer> Network<L> {
    /// The layer sequence.
    pub closed spec fn layers_model(&self) -> Seq<L> {
        self.layers@
    }

    /// The network's input width (the first layer's).
    pub closed spec fn net_in(&self) -> nat {
        self.input_count as nat
    }

    /// The network's output width (the last layer's).
    pub closed spec fn net_out(&self) -> nat {
        self.output_count as nat
    }

    /// Internal well-formedness: at least one layer, all layers well formed,
    /// adjacent widths agree, the derived widths and buffer sizes match.
    pub closed spec fn wf(&self) -> bool {
        &&& self.layers@.len() >= 1
        &&& all_wf(self.layers@)
        &&& chain_ok(self.layers@)
        &&& self.input_count == self.layers@[0].in_n()
        &&& self.output_count == self.layers@[self.layers@.len() - 1].out_n()
        &&& self.errors@.len() == self.output_count
        &&& self.inputs@.len() == self.layers@.len()
    }

    /// Build a network from a non-empty sequence of pairwise compatible
    /// layers; anything else is rejected.
    pub fn new(layers: Vec<L>) -> (r: Result<Network<L>, NetError>)
        requires
            all_wf(layers@),
        ensures
            r is Ok <==> layers@.len() >= 1 && chain_ok(layers@),
            r matches Err(err) ==> (if layers@.len() == 0 {
                err == NetError::EmptyNetwork
            } else {
                err == NetError::ShapeMismatch
            }),
            r matches Ok(net) ==> net.wf() && net.layers_model() == layers@
                && net.net_in() == layers@[0].in_n()
                && net.net_out() == layers@[layers@.len() - 1].out_n(),
    {
        if layers.len() == 0 {
            return Err(NetError::EmptyNetwork);
        }
        let input_count = layers[0].input_count();
        let output_count = layers[layers.len() - 1].output_count();
        let mut i: usize = 0;
        while i < layers.len() - 1
            invariant
                i < layers@.len(),
                forall|k: int| 0 <= k < i ==> #[trigger] layers@[k].out_n() == layers@[k + 1].in_n(),
            decreases layers@.len() - i,
        {
            if layers[i].output_count() != layers[i + 1].input_count() {
                return Err(NetError::ShapeMismatch);
            }
            i = i + 1;
        }
        let mut inputs: Vec<Vec<Fx>> = Vec::new();
        let mut k: usize = 0;
        while k < layers.len()
            invariant
                k <= layers@.len(),
                inputs@.len() == k,
            decreases layers@.len() - k,
        {
            let width = layers[k].input_count();
            inputs.push(fx_zeros(width));
            k = k + 1;
        }
        let errors = fx_zeros(output_count);
        Ok(Network { layers, errors, inputs, input_count, output_count })
    }

    /// The number of layers.
    pub fn layer_count(&self) -> (r: usize)
        ensures
            r == self.layers_model().len(),
    {
        self.layers.len()
    }

    /// A snapshot of layer `i`'s parameters.
    pub fn layer_weights(&self, i: usize) -> (r: Vec<Fx>)
        requires
            i < self.layers_model().len(),
        ensures
            fxs(r@) == self.layers_model()[i as int].weights_model(),
    {
        self.layers[i].get_weights()
    }

    /// The network's input width.
    pub fn input_count(&self) -> (r: usize)
        ensures
            r as nat == self.net_in(),
    {
        self.input_count
    }

    /// The network's output width.
    pub fn output_count(&self) -> (r: usize)
        ensures
            r as nat == self.net_out(),
    {
        self.output_count
    }

    /// Run `x` through every layer in order and return the final layer's
    /// output. Rejects an input of the wrong width; parameters are untouched
    /// (only the layers' forward caches are overwritten).
    pub fn predict(&mut self, x: &Vec<Fx>) -> (r: Result<Vec<Fx>, NetError>)
        requires
            old(self).wf(),
        ensures
            final(self).wf(),
            final(self).net_in() == old(self).net_in(),
            final(self).net_out() == old(self).net_out(),
            final(self).layers_model().len() == old(self).layers_model().len(),
            forall|k: int| 0 <= k < old(self).layers_model().len()
                ==> (#[trigger] final(self).layers_model()[k]).weights_model()
                    == old(self).layers_model()[k].weights_model(),
            forall|k: int, s: Seq<int>| 0 <= k < old(self).layers_model().len()
                ==> (#[trigger] final(self).layers_model()[k].fwd_model(s))
                    == old(self).layers_model()[k].fwd_model(s),
            x@.len() != old(self).net_in() ==> r == Err::<Vec<Fx>, NetError>(NetError::InvalidInput)
                && *final(self) == *old(self),
            x@.len() == old(self).net_in() ==> (r matches Ok(out)
                && fxs(out@) == chain_fwd(old(self).layers_model(), fxs(x@))),
    {
        if x.len() != self.input_count {
            return Err(NetError::InvalidInput);
        }
        let ghost ls0 = self.layers@;
        let ghost x0 = fxs(x@);
        let n_layers = self.layers.len();
        let mut cur = fx_copy(x);
        let mut i: usize = 0;
        proof {
            assert(ls0.take(0) =~= Seq::<L>::empty());
        }
        while i < n_layers
            invariant
                i <= n_layers,
                n_layers == self.layers@.len(),
                self.layers@.len() == ls0.len(),
                all_wf(ls0),
                chain_ok(ls0),
                x0.len() == ls0[0].in_n(),
                self.input_count == old(self).input_count,
                self.output_count == old(self).output_count,
                self.errors == old(self).errors,
                self.inputs == old(self).inputs,
                old(self).wf(),
                ls0 == old(self).layers@,
                forall|k: int| i <= k < n_layers ==> self.layers@[k] == ls0[k],
                forall|k: int| 0 <= k < n_layers ==> (#[trigger] self.layers@[k]).wf()
                    && self.layers@[k].in_n() == ls0[k].in_n()
                    && self.layers@[k].out_n() == ls0[k].out_n()
                    && self.layers@[k].weights_model() == ls0[k].weights_model(),
                forall|k: int, s: Seq<int>| 0 <= k < n_layers
                    ==> (#[trigger] self.layers@[k].fwd_model(s)) == ls0[k].fwd_model(s),
                fxs(cur@) == chain_in(ls0, x0, i as int),
                cur@.len() == if i == 0 { x0.len() as int } else { ls0[i - 1].out_n() as int },
            decreases n_layers - i,
        {
            proof {
                lemma_chain_in_len(ls0, x0, i as int);
            }
            let l = &mut self.layers[i];
            let out = l.forward(&cur);
            proof {
                assert(ls0.take(i + 1).drop_last() =~= ls0.take(i as int));
                assert(ls0.take(i + 1).last() == ls0[i as int]);
                assert(fxs(out@) == chain_in(ls0, x0, i + 1));
                ls0[i as int].lemma_fwd_len(chain_in(ls0, x0, i as int));
            }
            cur = out;
            i = i + 1;
        }
        proof {
            assert(ls0.take(n_layers as int) =~= ls0);
        }
        Ok(cur)
    }

    /// One online training step: forward pass caching each layer's input,
    /// output-level error `y - prediction` and its mean squared error, then
    /// a backward pass updating every layer's parameters in place. Returns
    /// the loss; rejects vectors of the wrong width.
    pub fn train(&mut self, x: &Vec<Fx>, y: &Vec<Fx>, rate: Fx) -> (r: Result<Fx, NetError>)
        requires
            old(self).wf(),
        ensures
            final(self).wf(),
            final(self).net_in() == old(self).net_in(),
            final(self).net_out() == old(self).net_out(),
            final(self).layers_model().len() == old(self).layers_model().len(),
            x@.len() != old(self).net_in() ==> r == Err::<Fx, NetError>(NetError::InvalidInput)
                && *final(self) == *old(self),
            x@.len() == old(self).net_in() && y@.len() != old(self).net_out()
                ==> r == Err::<Fx, NetError>(NetError::InvalidExpected) && *final(self) == *old(self),
            x@.len() == old(self).net_in() && y@.len() == old(self).net_out() ==> {
                &&& r matches Ok(loss)
                &&& (r matches Ok(loss) ==> loss.v() == net_loss(
                    old(self).layers_model(),
                    fxs(x@),
                    fxs(y@),
                ))
                &&& forall|k: int| 0 <= k < old(self).layers_model().len()
                    ==> (#[trigger] final(self).layers_model()[k]).weights_model()
                        == trained_weights(
                        old(self).layers_model(),
                        fxs(x@),
                        fxs(y@),
                        rate.v(),
                        k,
                    )
            },
    {
        if x.len() != self.input_count {
            return Err(NetError::InvalidInput);
        }
        if y.len() != self.output_count {
            return Err(NetError::InvalidExpected);
        }
        let ghost ls0 = self.layers@;
        let ghost x0 = fxs(x@);
        let ghost y0 = fxs(y@);
        let n_layers = self.layers.len();
        let mut cur = fx_copy(x);
        let mut i: usize = 0;
        proof {
            assert(ls0.take(0) =~= Seq::<L>::empty());
        }
        while i < n_layers
            invariant
                i <= n_layers,
                n_layers == self.layers@.len(),
                self.layers@.len() == ls0.len(),
                all_wf(ls0),
                chain_ok(ls0),
                x0.len() == ls0[0].in_n(),
                self.input_count == old(self).input_count,
                self.output_count == old(self).output_count,
                self.errors == old(self).errors,
                self.inputs@.len() == ls0.len(),
                old(self).wf(),
                ls0 == old(self).layers@,
                forall|k: int| i <= k < n_layers ==> self.layers@[k] == ls0[k],
                forall|k: int| 0 <= k < n_layers ==> (#[trigger] self.layers@[k]).wf()
                    && self.layers@[k].in_n() == ls0[k].in_n()
                    && self.layers@[k].out_n() == ls0[k].out_n()
                    && self.layers@[k].weights_model() == ls0[k].weights_model(),
                forall|k: int, s: Seq<int>| 0 <= k < n_layers
                    ==> (#[trigger] self.layers@[k].fwd_model(s)) == ls0[k].fwd_model(s),
                forall|k: int, c: Seq<int>, e: Seq<int>| 0 <= k < n_layers
                    ==> (#[trigger] self.layers@[k].bwd_err_model(c, e))
                        == ls0[k].bwd_err_model(c, e),
                forall|k: int, c: Seq<int>, s: Seq<int>, e: Seq<int>, rt: int| 0 <= k < n_layers
                    ==> (#[trigger] self.layers@[k].bwd_weights_model(c, s, e, rt))
                        == ls0[k].bwd_weights_model(c, s, e, rt),
                forall|k: int| 0 <= k < i
                    ==> fxs((#[trigger] self.inputs@[k])@) == chain_in(ls0, x0, k),
                forall|k: int| 0 <= k < i
                    ==> (#[trigger] self.layers@[k]).cache_model()
                        == ls0[k].fwd_model(chain_in(ls0, x0, k)),
                fxs(cur@) == chain_in(ls0, x0, i as int),
                cur@.len() == if i == 0 { x0.len() as int } else { ls0[i - 1].out_n() as int },
            decreases n_layers - i,
        {
            proof {
                lemma_chain_in_len(ls0, x0, i as int);
            }
            self.inputs[i] = fx_copy(&cur);
            let l = &mut self.layers[i];
            let out = l.forward(&cur);
            proof {
                assert(ls0.take(i + 1).drop_last() =~= ls0.take(i as int));
                assert(ls0.take(i + 1).last() == ls0[i as int]);
                assert(fxs(out@) == chain_in(ls0, x0, i + 1));
                ls0[i as int].lemma_fwd_len(chain_in(ls0, x0, i as int));
            }
            cur = out;
            i = i + 1;
        }
        proof {
            assert(ls0.take(n_layers as int) =~= ls0);
            lemma_chain_in_len(ls0, x0, n_layers as int);
            assert(fxs(cur@) == chain_fwd(ls0, x0));
        }

        // Output-level error and its mean squared value.
        let ghost etop = net_etop(ls0, x0, y0);
        let m_out = self.output_count;
        let mut errors: Vec<Fx> = Vec::new();
        let mut acc = Fx::zero();
        let mut k: usize = 0;
        while k < m_out
            invariant
                k <= m_out,
                y@.len() == m_out,
                cur@.len() == m_out,
                y0 == fxs(y@),
                etop == net_etop(ls0, x0, y0),
                fxs(cur@) == chain_fwd(ls0, x0),
                y0.len() == m_out,
                errors@.len() == k,
                forall|kk: int| 0 <= kk < k ==> errors@[kk].v() == etop[kk],
                acc.v() == mse_fold(etop, k as nat),
            decreases m_out - k,
        {
            let d = fx_sub(y[k], cur[k]);
            errors.push(d);
            acc = fx_add(acc, fx_mul(d, d));
            k = k + 1;
        }
        self.errors = fx_copy(&errors);
        let loss = if m_out == 0 {
            Fx::zero()
        } else {
            fx_div_int(acc, m_out)
        };

        // Backward pass, last layer first.
        let mut err_vec = errors;
        proof {
            assert(fxs(err_vec@) =~= etop);
        }
        let mut i: usize = n_layers;
        while i > 0
            invariant
                i <= n_layers,
                n_layers == self.layers@.len(),
                n_layers == ls0.len(),
                all_wf(ls0),
                chain_ok(ls0),
                x0.len() == ls0[0].in_n(),
                y0.len() == ls0[ls0.len() - 1].out_n(),
                etop == net_etop(ls0, x0, y0),
                self.input_count == old(self).input_count,
                self.output_count == old(self).output_count,
                self.errors@.len() == self.output_count,
                self.inputs@.len() == ls0.len(),
                old(self).wf(),
                ls0 == old(self).layers@,
                forall|k2: int| 0 <= k2 < n_layers
                    ==> fxs((#[trigger] self.inputs@[k2])@) == chain_in(ls0, x0, k2),
                forall|k2: int| 0 <= k2 < n_layers ==> (#[trigger] self.layers@[k2]).wf()
                    && self.layers@[k2].in_n() == ls0[k2].in_n()
                    && self.layers@[k2].out_n() == ls0[k2].out_n(),
                // layers not yet walked back: weights and caches as the
                // forward pass left them, backward models still the originals
                forall|k2: int| 0 <= k2 < i
                    ==> (#[trigger] self.layers@[k2]).weights_model() == ls0[k2].weights_model(),
                forall|k2: int| 0 <= k2 < i
                    ==> (#[trigger] self.layers@[k2]).cache_model()
                        == ls0[k2].fwd_model(chain_in(ls0, x0, k2)),
                forall|k2: int, c: Seq<int>, e: Seq<int>| 0 <= k2 < i
                    ==> (#[trigger] self.layers@[k2].bwd_err_model(c, e))
                        == ls0[k2].bwd_err_model(c, e),
                forall|k2: int, c: Seq<int>, s: Seq<int>, e: Seq<int>, rt: int| 0 <= k2 < i
                    ==> (#[trigger] self.layers@[k2].bwd_weights_model(c, s, e, rt))
                        == ls0[k2].bwd_weights_model(c, s, e, rt),
                // layers already walked back: parameters updated
                forall|k2: int| i <= k2 < n_layers
                    ==> (#[trigger] self.layers@[k2]).weights_model()
                        == trained_weights(ls0, x0, y0, rate.v(), k2),
                i > 0 ==> fxs(err_vec@) == chain_err(ls0, x0, etop, i - 1),
            decreases i,
        {
            proof {
                lemma_chain_in_len(ls0, x0, i - 1);
                lemma_chain_err_len(ls0, x0, etop, i - 1);
            }
            let idx = i - 1;
            let l = &mut self.layers[idx];
            let r = l.backward(&self.inputs[idx], &err_vec, rate);
            err_vec = r;
            i = idx;
        }
        Ok(loss)
    }
}

} // verus!
