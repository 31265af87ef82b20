//! Dot-product benchmark descriptor. Its kernels accumulate single-precision
//! floats and run outside the verified library.

use vstd::prelude::*;

verus! {

/// Descriptor of the dot-product benchmark.
pub struct DotProductRunner;

impl DotProductRunner {
    pub fn name(&self) -> (r: &'static str)
        ensures
            r@ == "dot_product"@,
    {
        "dot_product"
    }

    pub fn description(&self) -> (r: &'static str)
        ensures
            r@ == "Computes the sum of products of corresponding vector elements"@,
    {
        "Computes the sum of products of corresponding vector elements"
    }

    pub fn category(&self) -> (r: &'static str)
        ensures
            r@ == "math"@,
    {
        "math"
    }
}

} // verus!
