//! A small feed-forward neural-network engine: dense matrices, elementwise activations,
//! scalar costs, and online training by backpropagation.
//!
//! The engine is generic over its scalar type (`scalar::Scalar`). What is proved here
//! is the engine's bookkeeping: every matrix operation, forward pass and training step
//! works on shapes that fit, never indexes outside a matrix, and reports misuse as an
//! error instead of failing part-way.

use vstd::prelude::*;

pub mod activation;
pub mod cost;
pub mod error;
pub mod layer;
pub mod matrix;
pub mod model;
pub mod network;
mod random;
pub mod sample;
pub mod scalar;

verus! {

} // verus!
