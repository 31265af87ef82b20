//! The computations that the engine measures.

pub mod call_vs_branch;
pub mod dispatch;
pub mod dot_product;
pub mod xoroshiro;
