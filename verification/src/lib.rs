//! A minimal feedforward neural network library: fully connected layers with
//! pluggable activation functions, trained sample-by-sample by backpropagation
//! and gradient descent. All arithmetic is fixed-point (Q32.32 on `i64`) with
//! saturation, so every numeric step has an exact integer-level contract.

pub mod fx;
pub mod activation;
pub mod layer;
pub mod dense;
pub mod network;
