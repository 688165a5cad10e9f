//! Nonnegative orthant.

use vstd::prelude::*;

verus! {

/// The nonnegative orthant of dimension `dim`.
#[derive(Clone, Debug)]
pub struct NonnegativeCone {
    pub dim: usize,
    /// `constr_type[i]` is true when the i-th bound is loose (numerically infinite).
    pub constr_type: Vec<bool>,
}

impl NonnegativeCone {
    /// Well formed: one classification flag per row.
    pub open spec fn wf(&self) -> bool {
        self.constr_type@.len() == self.dim
    }

    /// A fresh orthant in which no bound is classified as loose.
    pub fn new(dim: usize) -> (c: Self)
        ensures
            c.dim == dim,
            c.constr_type@ == Seq::new(dim as nat, |_i: int| false),
            c.wf(),
    {
        let mut constr_type: Vec<bool> = Vec::new();
        let mut i: usize = 0;
        while i < dim
            invariant
                i <= dim,
                constr_type@ == Seq::new(i as nat, |_i: int| false),
            decreases dim - i,
        {
            constr_type.push(false);
            i = i + 1;
        }
        NonnegativeCone { dim, constr_type }
    }
}

} // verus!
