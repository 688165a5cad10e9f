//! Sparsity structure of compressed-sparse-column (CSC) matrices.
//!
//! The numerical values of a matrix are floating point and stay with the
//! numerical kernels; the structural decisions (KKT assembly order, pattern
//! comparison) are made on the pattern alone.

use vstd::prelude::*;

verus! {

/// The sparsity pattern of an `m`-by-`n` CSC matrix: the entries of column
/// `c` sit at positions `colptr[c] .. colptr[c + 1]`, and `rowval[p]` is the
/// row of the entry at position `p`.
#[derive(Clone, Debug)]
pub struct CscPattern {
    pub m: usize,
    pub n: usize,
    pub colptr: Vec<usize>,
    pub rowval: Vec<usize>,
}

impl CscPattern {
    /// A valid CSC pattern: `n + 1` nondecreasing column pointers from 0 to
    /// the number of stored entries, and every row index below `m`.
    pub open spec fn wf(&self) -> bool {
        &&& self.colptr@.len() == self.n + 1
        &&& self.colptr@[0] == 0
        &&& forall|i: int, j: int| 0 <= i <= j <= self.n ==> self.colptr@[i] <= self.colptr@[j]
        &&& self.colptr@[self.n as int] == self.rowval@.len()
        &&& forall|p: int| 0 <= p < self.rowval@.len() ==> self.rowval@[p] < self.m
    }

    /// Number of stored entries.
    pub open spec fn nnz(&self) -> nat {
        self.rowval@.len()
    }

    /// Whether the pattern is a valid CSC pattern (see [`CscPattern::wf`]).
    pub fn is_wf(&self) -> (r: bool)
        ensures
            r <==> self.wf(),
    {
        let len = self.colptr.len();
        if len == 0 || len - 1 != self.n {
            return false;
        }
        if self.colptr[0] != 0 || self.colptr[self.n] != self.rowval.len() {
            return false;
        }
        let mut c: usize = 0;
        while c < self.n
            invariant
                self.colptr@.len() == self.n + 1,
                c <= self.n,
                forall|i: int, j: int| 0 <= i <= j <= c ==> self.colptr@[i] <= self.colptr@[j],
            decreases self.n - c,
        {
            if self.colptr[c] > self.colptr[c + 1] {
                assert(!(self.colptr@[c as int] <= self.colptr@[c + 1]));
                return false;
            }
            c = c + 1;
        }
        let mut p: usize = 0;
        while p < self.rowval.len()
            invariant
                p <= self.rowval@.len(),
                forall|q: int| 0 <= q < p ==> self.rowval@[q] < self.m,
            decreases self.rowval@.len() - p,
        {
            if self.rowval[p] >= self.m {
                return false;
            }
            p = p + 1;
        }
        true
    }

    /// Whether two patterns have identical column pointers and row indices.
    pub fn same_pattern(&self, other: &CscPattern) -> (r: bool)
        ensures
            r <==> (self.colptr@ == other.colptr@ && self.rowval@ == other.rowval@),
    {
        vec_eq(&self.colptr, &other.colptr) && vec_eq(&self.rowval, &other.rowval)
    }
}

/// Element-wise equality of two index vectors.
fn vec_eq(a: &Vec<usize>, b: &Vec<usize>) -> (r: bool)
    ensures
        r <==> a@ == b@,
{
    if a.len() != b.len() {
        return false;
    }
    let mut i: usize = 0;
    while i < a.len()
        invariant
            a@.len() == b@.len(),
            i <= a@.len(),
            forall|j: int| 0 <= j < i ==> a@[j] == b@[j],
        decreases a@.len() - i,
    {
        if a[i] != b[i] {
            return false;
        }
        i = i + 1;
    }
    assert(a@ =~= b@);
    true
}

} // verus!
