//! Second-order (Lorentz) cone { (t, x) | ||x||_2 <= t }.

use vstd::prelude::*;

verus! {

/// The second-order cone of dimension `dim` (one scalar `t` and `dim - 1` entries).
#[derive(Clone, Debug)]
pub struct SecondOrderCone {
    pub dim: usize,
}

impl SecondOrderCone {
    /// The dimension must be at least 1.
    pub fn new(dim: usize) -> (c: Self)
        requires
            dim >= 1,
        ensures
            c.dim == dim,
    {
        SecondOrderCone { dim }
    }
}

} // verus!
