//! Reverse-mode automatic differentiation over dense two-dimensional tensors.
//!
//! Operations on tensors record a computation graph as they run. A backward
//! pass from any node of the graph then gives every node on which it depends
//! the gradient that the chain rule assigns to it. Layers and an optimizer
//! for small neural networks are built on top.

pub mod backward;
pub mod data;
pub mod dense;
pub mod matrix;
pub mod nn;
pub mod operations;
pub mod optimizer;
pub mod scalar;
pub mod tensor;
