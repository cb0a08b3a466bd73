//! A fully-connected feed-forward network engine, generic over the scalar it
//! computes with: dense matrices and their shape rules; networks whose
//! weights and biases always fit their layers, with the forward pass, online
//! back-propagation, training and total error; the persisted activation
//! names; checkpoints and their format's version rule; and the per-epoch
//! schedule of a training session. The caller hands in the arithmetic on
//! scalars as one function over `ScalarOp`; given a deterministic one, every
//! pass's result is fixed by a spec function of its inputs.

pub mod activations;
pub mod checkpoint;
pub mod examples;
pub mod layers;
pub mod matrix;
pub mod network;
pub mod scalar;
mod text;
pub mod training;
