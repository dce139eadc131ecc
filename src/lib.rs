//! A small feed-forward neural-network engine.
//!
//! The library owns the structure of a network: the shapes of its weight and
//! bias matrices, the activation attached to each layer, the checks that keep
//! adjacent layers chained, the order in which the forward and backward passes
//! visit the layers, and the layout of the per-sample Jacobian tensors. The
//! numeric kernels (matrix products and the activation formulas) are supplied
//! by the caller as closures over its own matrix type.

pub mod shape;
pub mod error;
pub mod activation;
pub mod jacobian;
pub mod neural_network;
pub mod loss;
