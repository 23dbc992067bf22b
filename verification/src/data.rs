//! Training samples.

use vstd::prelude::*;
use crate::tensor::Tensor;

verus! {

/// One training sample: an input and the output expected for it.
pub struct TestData {
    /// What goes into the model.
    pub input: Tensor,
    /// What should come out.
    pub output: Tensor,
}

impl Clone for TestData {
    /// Both tensors are copied: the copies name the same nodes.
    fn clone(&self) -> (r: Self)
        ensures
            r == *self,
    {
        TestData { input: self.input.clone(), output: self.output.clone() }
    }
}

} // verus!
