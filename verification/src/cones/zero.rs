//! Zero cone {0}^dim.

use vstd::prelude::*;

verus! {

/// The zero cone of dimension `dim`: the single point 0 in R^dim.
#[derive(Clone, Debug)]
pub struct ZeroCone {
    pub dim: usize,
}

impl ZeroCone {
    pub fn new(dim: usize) -> (c: Self)
        ensures
            c.dim == dim,
    {
        ZeroCone { dim }
    }
}

} // verus!
