//! The layer capability contract: a unit that maps an input vector to an
//! output vector and, given an upstream error vector, yields a downstream
//! error vector while updating its own parameters in place.
//!
//! The spec methods give every implementation an integer-level model:
//! `fwd_model` is the forward output as a function of the layer's weights and
//! the input, `bwd_err_model` and `bwd_weights_model` are the propagated
//! error and the updated weights as functions of the cached forward output,
//! the input, the upstream error and the learning rate. The exec methods
//! promise exactly those models, so network-level reasoning never looks
//! inside a layer.

use vstd::prelude::*;
use crate::fx::{Fx, fxs};

verus! {

/// A validation failure: every contract violation the library checks is
/// reported as one of these rather than by aborting.
#[derive(Clone, Copy, PartialEq, Eq, Structural, Debug)]
pub enum NetError {
    /// An explicit weight vector whose length is not `units * (inputs + 1)`.
    InvalidWeights,
    /// A network built from no layers at all.
    EmptyNetwork,
    /// Adjacent layers whose output and input widths differ.
    ShapeMismatch,
    /// An input vector whose length is not the expected input width.
    InvalidInput,
    /// An expected-output vector whose length is not the output width.
    InvalidExpected,
}

/// The layer contract (see the module doc). `Dense` is the one provided
/// implementation; a conforming layer must report its widths, snapshot its
/// parameters, and realise exactly its own forward and backward models.
pub trait Layer: Sized {
    /// Internal well-formedness (buffer lengths agree with the widths).
    spec fn wf(&self) -> bool;

    /// The input width.
    spec fn in_n(&self) -> nat;

    /// The output width.
    spec fn out_n(&self) -> nat;

    /// The current parameters, as raw fixed-point integers.
    spec fn weights_model(&self) -> Seq<int>;

    /// The cached output of the most recent forward pass.
    spec fn cache_model(&self) -> Seq<int>;

    /// The forward output on input `x`, as a function of the current
    /// parameters.
    spec fn fwd_model(&self, x: Seq<int>) -> Seq<int>;

    /// The error propagated downstream, given the cached forward output
    /// `cache` and the upstream error `e`.
    spec fn bwd_err_model(&self, cache: Seq<int>, e: Seq<int>) -> Seq<int>;

    /// The parameters after one in-place update, given the cached forward
    /// output `cache`, the layer input `x`, the upstream error `e` and the
    /// learning rate.
    spec fn bwd_weights_model(&self, cache: Seq<int>, x: Seq<int>, e: Seq<int>, rate: int) -> Seq<int>;

    /// The forward model always produces the output width.
    proof fn lemma_fwd_len(&self, x: Seq<int>)
        requires
            self.wf(),
        ensures
            self.fwd_model(x).len() == self.out_n(),
    ;

    /// The backward error model always produces the input width.
    proof fn lemma_bwd_err_len(&self, cache: Seq<int>, e: Seq<int>)
        requires
            self.wf(),
        ensures
            self.bwd_err_model(cache, e).len() == self.in_n(),
    ;

    /// The input width.
    fn input_count(&self) -> (r: usize)
        ensures
            r as nat == self.in_n(),
    ;

    /// The output width.
    fn output_count(&self) -> (r: usize)
        ensures
            r as nat == self.out_n(),
    ;

    /// A snapshot (a copy, not a live view) of the parameters.
    fn get_weights(&self) -> (r: Vec<Fx>)
        ensures
            fxs(r@) == self.weights_model(),
    ;

    /// The forward pass: returns the output vector and caches it for the
    /// next backward pass. Parameters, widths and both backward models are
    /// untouched.
    fn forward(&mut self, input: &Vec<Fx>) -> (r: Vec<Fx>)
        requires
            old(self).wf(),
            input@.len() == old(self).in_n(),
        ensures
            final(self).wf(),
            fxs(r@) == old(self).fwd_model(fxs(input@)),
            final(self).cache_model() == old(self).fwd_model(fxs(input@)),
            final(self).in_n() == old(self).in_n(),
            final(self).out_n() == old(self).out_n(),
            final(self).weights_model() == old(self).weights_model(),
            forall|s: Seq<int>| final(self).fwd_model(s) == old(self).fwd_model(s),
            forall|c: Seq<int>, e: Seq<int>|
                final(self).bwd_err_model(c, e) == old(self).bwd_err_model(c, e),
            forall|c: Seq<int>, x: Seq<int>, e: Seq<int>, rt: int|
                final(self).bwd_weights_model(c, x, e, rt) == old(self).bwd_weights_model(c, x, e, rt),
    ;

    /// The backward pass: returns the error to hand to the previous layer
    /// and updates the parameters in place, both computed from the cached
    /// output of the matching forward call.
    fn backward(&mut self, input: &Vec<Fx>, e: &Vec<Fx>, rate: Fx) -> (r: Vec<Fx>)
        requires
            old(self).wf(),
            input@.len() == old(self).in_n(),
            e@.len() == old(self).out_n(),
        ensures
            final(self).wf(),
            fxs(r@) == old(self).bwd_err_model(old(self).cache_model(), fxs(e@)),
            final(self).weights_model() == old(self).bwd_weights_model(
                old(self).cache_model(),
                fxs(input@),
                fxs(e@),
                rate.v(),
            ),
            final(self).cache_model() == old(self).cache_model(),
            final(self).in_n() == old(self).in_n(),
            final(self).out_n() == old(self).out_n(),
    ;
}

} // verus!
