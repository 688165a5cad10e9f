//! Cartesian product of convex cones.

use vstd::prelude::*;
use super::{BoxBound, BoxCone, Cone, NonnegativeCone, SecondOrderCone, ZeroCone};

verus! {

/// Total number of rows of the first `i` cones of `cones`.
pub open spec fn dims_prefix(cones: Seq<Cone>, i: int) -> int
    decreases i,
{
    if i <= 0 {
        0
    } else {
        dims_prefix(cones, i - 1) + cones[i - 1].spec_dim()
    }
}

/// How the ADMM step size of one constraint row is derived from the scalar rho.
#[derive(Clone, Copy, Debug, PartialEq, Eq, Structural)]
pub enum RhoRule {
    /// Use rho itself.
    Keep,
    /// Equality row: rho times `rho_eq_over_ineq`.
    Equality,
    /// Loose (numerically infinite) bound: `rho_min`.
    Loose,
}

/// The rule for row `j` of cone `c`.
pub open spec fn rho_rule(c: Cone, j: int) -> RhoRule {
    match c {
        Cone::Zero(_) => RhoRule::Equality,
        Cone::Nonnegative(nn) => if nn.constr_type@[j] {
            RhoRule::Loose
        } else {
            RhoRule::Keep
        },
        Cone::Box(b) => match b.constr_type@[j] {
            BoxBound::Free => RhoRule::Loose,
            BoxBound::Equality => RhoRule::Equality,
            BoxBound::Ordinary => RhoRule::Keep,
        },
        _ => RhoRule::Keep,
    }
}

/// `new` is cone `old` with its per-row classifications taken from rows
/// `off..off+dim` of `loose` (orthants) and `boxes` (boxes); any other cone is
/// unchanged.
pub open spec fn is_classified(new: Cone, old: Cone, off: int, loose: Seq<bool>, boxes: Seq<BoxBound>) -> bool {
    match old {
        Cone::Nonnegative(nn) => new matches Cone::Nonnegative(c) && c.dim == nn.dim
            && c.constr_type@ == loose.subrange(off, off + nn.dim),
        Cone::Box(b) => new matches Cone::Box(c) && c.dim == b.dim
            && c.constr_type@ == boxes.subrange(off, off + b.dim),
        _ => new == old,
    }
}

/// Cartesian product of cones; cone `i` occupies rows
/// `offsets[i] .. offsets[i] + dim(cones[i])` of a vector of length `dim`.
#[derive(Clone, Debug)]
pub struct CompositeCone {
    pub cones: Vec<Cone>,
    pub offsets: Vec<usize>,
    pub dim: usize,
}

impl CompositeCone {
    /// The offsets are the running sums of the cone dimensions and `dim` is their total.
    pub open spec fn layout_ok(&self) -> bool {
        &&& self.offsets@.len() == self.cones@.len()
        &&& forall|i: int| 0 <= i < self.cones@.len() ==> self.offsets@[i] == dims_prefix(self.cones@, i)
        &&& self.dim == dims_prefix(self.cones@, self.cones@.len() as int)
    }

    /// Layout is consistent and every member cone is well formed.
    pub open spec fn wf(&self) -> bool {
        &&& self.layout_ok()
        &&& forall|i: int| 0 <= i < self.cones@.len() ==> #[trigger] self.cones@[i].wf()
    }

    /// Row `k` belongs to cone `i`.
    pub open spec fn in_block(&self, i: int, k: int) -> bool {
        &&& 0 <= i < self.cones@.len()
        &&& dims_prefix(self.cones@, i) <= k < dims_prefix(self.cones@, i + 1)
    }

    /// Whether the layout is consistent and every member cone well formed
    /// (see [`CompositeCone::wf`]).
    pub fn is_wf(&self) -> (r: bool)
        ensures
            r <==> self.wf(),
    {
        let n = self.cones.len();
        if self.offsets.len() != n {
            return false;
        }
        let mut total: usize = 0;
        let mut i: usize = 0;
        while i < n
            invariant
                n == self.cones@.len(),
                self.offsets@.len() == n,
                i <= n,
                total == dims_prefix(self.cones@, i as int),
                forall|j: int| 0 <= j < i ==> self.offsets@[j] == dims_prefix(self.cones@, j),
                forall|j: int| 0 <= j < i ==> #[trigger] self.cones@[j].wf(),
            decreases n - i,
        {
            if self.offsets[i] != total || !self.cones[i].is_wf() {
                return false;
            }
            match total.checked_add(self.cones[i].dim()) {
                Some(t) => total = t,
                None => {
                    proof {
                        lemma_dims_prefix_monotone(self.cones@, i + 1, n as int);
                    }
                    return false;
                },
            }
            i = i + 1;
        }
        total == self.dim
    }

    /// Total number of rows of `cones`, or `None` when it does not fit in a `usize`.
    pub fn checked_total_dim(cones: &Vec<Cone>) -> (r: Option<usize>)
        ensures
            match r {
                Some(d) => d == dims_prefix(cones@, cones@.len() as int),
                None => dims_prefix(cones@, cones@.len() as int) > usize::MAX,
            },
    {
        let mut total: usize = 0;
        let mut i: usize = 0;
        while i < cones.len()
            invariant
                i <= cones@.len(),
                total == dims_prefix(cones@, i as int),
            decreases cones@.len() - i,
        {
            match total.checked_add(cones[i].dim()) {
                Some(t) => total = t,
                None => {
                    proof {
                        lemma_dims_prefix_monotone(cones@, i + 1, cones@.len() as int);
                    }
                    return None;
                },
            }
            i = i + 1;
        }
        Some(total)
    }

    /// Lays the cones out one after the other.
    pub fn new(cones: Vec<Cone>) -> (c: Self)
        requires
            dims_prefix(cones@, cones@.len() as int) <= usize::MAX,
        ensures
            c.cones@ == cones@,
            c.layout_ok(),
            (forall|i: int| 0 <= i < cones@.len() ==> #[trigger] cones@[i].wf()) ==> c.wf(),
    {
        let mut offsets: Vec<usize> = Vec::new();
        let mut dim: usize = 0;
        let mut i: usize = 0;
        while i < cones.len()
            invariant
                i <= cones@.len(),
                offsets@.len() == i,
                dim == dims_prefix(cones@, i as int),
                forall|j: int| 0 <= j < i ==> offsets@[j] == dims_prefix(cones@, j),
                dims_prefix(cones@, cones@.len() as int) <= usize::MAX,
            decreases cones@.len() - i,
        {
            proof {
                lemma_dims_prefix_monotone(cones@, i + 1, cones@.len() as int);
            }
            offsets.push(dim);
            dim = dim + cones[i].dim();
            i = i + 1;
        }
        CompositeCone { cones, offsets, dim }
    }
}

/// Running sums of cone dimensions never decrease.
pub proof fn lemma_dims_prefix_monotone(cones: Seq<Cone>, i: int, j: int)
    requires
        0 <= i <= j,
    ensures
        dims_prefix(cones, i) <= dims_prefix(cones, j),
    decreases j - i,
{
    if i < j {
        lemma_dims_prefix_monotone(cones, i, j - 1);
    }
}


/// Which rows get which step size: exactly the rows of a zero cone and the
/// box rows whose bounds coincide are equality rows (rho scaled by
/// `rho_eq_over_ineq`); exactly the orthant rows with a loose bound and the
/// box rows with both bounds infinite get `rho_min`; every row of a
/// second-order, exponential or power cone (or a dual) keeps rho.
pub proof fn lemma_rho_rule_meaning(c: Cone, j: int)
    requires
        c.wf(),
        0 <= j < c.spec_dim(),
    ensures
        ({
            let r = rho_rule(c, j);
            &&& (r == RhoRule::Equality <==> (c is Zero || (c matches Cone::Box(b) && b.constr_type@[j] == BoxBound::Equality)))
            &&& (r == RhoRule::Loose <==> ((c matches Cone::Nonnegative(nn) && nn.constr_type@[j]) || (c matches Cone::Box(b)
                    && b.constr_type@[j] == BoxBound::Free)))
            &&& (!(c is Zero || c is Nonnegative || c is Box) ==> r == RhoRule::Keep)
        }),
{
}

impl Cone {
    /// The rho rule of row `j` of this cone.
    pub fn rho_rule_at(&self, j: usize) -> (r: RhoRule)
        requires
            self.wf(),
            j < self.spec_dim(),
        ensures
            r == rho_rule(*self, j as int),
            (r == RhoRule::Equality <==> (self is Zero || (*self matches Cone::Box(b) && b.constr_type@[j as int]
                == BoxBound::Equality))),
            !(self is Zero || self is Nonnegative || self is Box) ==> r == RhoRule::Keep,
    {
        proof {
            lemma_rho_rule_meaning(*self, j as int);
        }
        match self {
            Cone::Zero(_) => RhoRule::Equality,
            Cone::Nonnegative(nn) => if nn.constr_type[j] {
                RhoRule::Loose
            } else {
                RhoRule::Keep
            },
            Cone::Box(b) => match b.constr_type[j] {
                BoxBound::Free => RhoRule::Loose,
                BoxBound::Equality => RhoRule::Equality,
                BoxBound::Ordinary => RhoRule::Keep,
            },
            _ => RhoRule::Keep,
        }
    }

    /// This cone with its row classifications taken from rows `off..off+dim`
    /// of `loose` (orthant) or `boxes` (box).
    pub fn classify_constraints(&self, off: usize, loose: &Vec<bool>, boxes: &Vec<BoxBound>) -> (c: Cone)
        requires
            self.wf(),
            off + self.spec_dim() <= loose@.len(),
            off + self.spec_dim() <= boxes@.len(),
        ensures
            is_classified(c, *self, off as int, loose@, boxes@),
            c.wf(),
            c.spec_dim() == self.spec_dim(),
    {
        match self {
            Cone::Zero(z) => Cone::Zero(ZeroCone { dim: z.dim }),
            Cone::Nonnegative(nn) => {
                let mut constr_type: Vec<bool> = Vec::new();
                let mut j: usize = 0;
                while j < nn.dim
                    invariant
                        j <= nn.dim,
                        off + nn.dim <= loose.len(),
                        constr_type@ == loose@.subrange(off as int, off + j),
                    decreases nn.dim - j,
                {
                    constr_type.push(loose[off + j]);
                    j = j + 1;
                }
                Cone::Nonnegative(NonnegativeCone { dim: nn.dim, constr_type })
            },
            Cone::SecondOrder(c) => Cone::SecondOrder(SecondOrderCone { dim: c.dim }),
            Cone::Exponential => Cone::Exponential,
            Cone::DualExponential => Cone::DualExponential,
            Cone::Power => Cone::Power,
            Cone::DualPower => Cone::DualPower,
            Cone::Box(b) => {
                let mut constr_type: Vec<BoxBound> = Vec::new();
                let mut j: usize = 0;
                while j < b.dim
                    invariant
                        j <= b.dim,
                        off + b.dim <= boxes.len(),
                        constr_type@ == boxes@.subrange(off as int, off + j),
                    decreases b.dim - j,
                {
                    constr_type.push(boxes[off + j]);
                    j = j + 1;
                }
                Cone::Box(BoxCone { dim: b.dim, constr_type })
            },
        }
    }
}

impl CompositeCone {
    /// For every row, the rule that turns the scalar rho into that row's step size.
    pub fn rho_scaling_rules(&self) -> (rules: Vec<RhoRule>)
        requires
            self.wf(),
        ensures
            rules@.len() == self.dim,
            forall|i: int, j: int|
                #![trigger rho_rule(self.cones@[i], j)]
                0 <= i < self.cones@.len() && 0 <= j < self.cones@[i].spec_dim()
                    ==> rules@[dims_prefix(self.cones@, i) + j] == rho_rule(self.cones@[i], j),
            forall|i: int, k: int|
                #![trigger rules@[k], self.in_block(i, k)]
                self.in_block(i, k) ==> {
                    let r = rules@[k];
                    let c = self.cones@[i];
                    let j = k - dims_prefix(self.cones@, i);
                    &&& (r == RhoRule::Equality <==> (c is Zero || (c matches Cone::Box(b) && b.constr_type@[j] == BoxBound::Equality)))
                &&& (r == RhoRule::Loose <==> ((c matches Cone::Nonnegative(nn) && nn.constr_type@[j]) || (c matches Cone::Box(b)
                    && b.constr_type@[j] == BoxBound::Free)))
                &&& (!(c is Zero || c is Nonnegative || c is Box) ==> r == RhoRule::Keep)
                },
    {
        let mut rules: Vec<RhoRule> = Vec::new();
        let n = self.cones.len();
        let mut i: usize = 0;
        while i < n
            invariant
                self.wf(),
                n == self.cones@.len(),
                i <= n,
                rules@.len() == dims_prefix(self.cones@, i as int),
                forall|i2: int, j: int|
                    #![trigger rho_rule(self.cones@[i2], j)]
                    0 <= i2 < i && 0 <= j < self.cones@[i2].spec_dim()
                        ==> rules@[dims_prefix(self.cones@, i2) + j] == rho_rule(self.cones@[i2], j),
            decreases n - i,
        {
            let cone = &self.cones[i];
            assert(cone.wf());
            let d = cone.dim();
            let ghost base = rules@.len() as int;
            let mut j: usize = 0;
            while j < d
                invariant
                    self.wf(),
                    n == self.cones@.len(),
                    i < n,
                    *cone == self.cones@[i as int],
                    cone.wf(),
                    d == cone.spec_dim(),
                    j <= d,
                    base == dims_prefix(self.cones@, i as int),
                    rules@.len() == base + j,
                    forall|j2: int| 0 <= j2 < j ==> rules@[base + j2] == rho_rule(*cone, j2),
                    forall|i2: int, j2: int|
                        #![trigger rho_rule(self.cones@[i2], j2)]
                        0 <= i2 < i && 0 <= j2 < self.cones@[i2].spec_dim()
                            ==> rules@[dims_prefix(self.cones@, i2) + j2] == rho_rule(self.cones@[i2], j2),
                decreases d - j,
            {
                proof {
                    assert forall|i2: int, j2: int|
                        #![trigger rho_rule(self.cones@[i2], j2)]
                        0 <= i2 < i && 0 <= j2 < self.cones@[i2].spec_dim() implies
                        dims_prefix(self.cones@, i2) + j2 < base by {
                        lemma_dims_prefix_monotone(self.cones@, i2 + 1, i as int);
                    }
                }
                rules.push(cone.rho_rule_at(j));
                j = j + 1;
            }
            i = i + 1;
        }
        proof {
            assert forall|i: int, k: int|
                #![trigger rules@[k], self.in_block(i, k)]
                self.in_block(i, k) implies {
                    let r = rules@[k];
                    let c = self.cones@[i];
                    let j = k - dims_prefix(self.cones@, i);
                    &&& (r == RhoRule::Equality <==> (c is Zero || (c matches Cone::Box(b) && b.constr_type@[j] == BoxBound::Equality)))
                &&& (r == RhoRule::Loose <==> ((c matches Cone::Nonnegative(nn) && nn.constr_type@[j]) || (c matches Cone::Box(b)
                    && b.constr_type@[j] == BoxBound::Free)))
                &&& (!(c is Zero || c is Nonnegative || c is Box) ==> r == RhoRule::Keep)
                } by {
                let j = k - dims_prefix(self.cones@, i);
                assert(self.cones@[i].wf());
                lemma_rho_rule_meaning(self.cones@[i], j);
            }
        }
        rules
    }
}

impl CompositeCone {
    /// Records, for every orthant row, whether its bound is loose
    /// (`loose[k]`) and, for every box row, its bound class (`boxes[k]`);
    /// `k` ranges over the rows of the product and the entries of other rows
    /// are not read.
    pub fn classify_constraints(&mut self, loose: &Vec<bool>, boxes: &Vec<BoxBound>)
        requires
            old(self).wf(),
            loose@.len() == old(self).dim,
            boxes@.len() == old(self).dim,
        ensures
            final(self).wf(),
            final(self).offsets@ == old(self).offsets@,
            final(self).dim == old(self).dim,
            final(self).cones@.len() == old(self).cones@.len(),
            forall|i: int|
                0 <= i < old(self).cones@.len() ==> #[trigger] is_classified(
                    final(self).cones@[i],
                    old(self).cones@[i],
                    dims_prefix(old(self).cones@, i),
                    loose@,
                    boxes@,
                ),
    {
        let n = self.cones.len();
        let mut cones: Vec<Cone> = Vec::new();
        let mut i: usize = 0;
        while i < n
            invariant
                self.wf(),
                n == self.cones@.len(),
                loose@.len() == self.dim,
                boxes@.len() == self.dim,
                i <= n,
                cones@.len() == i,
                forall|i2: int| 0 <= i2 < i ==> (#[trigger] cones@[i2]).wf(),
                forall|i2: int| 0 <= i2 < i ==> (#[trigger] cones@[i2]).spec_dim() == self.cones@[i2].spec_dim(),
                forall|i2: int|
                    0 <= i2 < i ==> #[trigger] is_classified(
                        cones@[i2],
                        self.cones@[i2],
                        dims_prefix(self.cones@, i2),
                        loose@,
                        boxes@,
                    ),
            decreases n - i,
        {
            proof {
                lemma_dims_prefix_monotone(self.cones@, i + 1, n as int);
                assert(self.cones@[i as int].wf());
            }
            let c = self.cones[i].classify_constraints(self.offsets[i], loose, boxes);
            cones.push(c);
            i = i + 1;
        }
        proof {
            lemma_dims_prefix_same(cones@, self.cones@, n as int);
            assert forall|i2: int| 0 <= i2 < n implies dims_prefix(cones@, i2) == dims_prefix(self.cones@, i2) by {
                lemma_dims_prefix_same(cones@, self.cones@, i2);
            }
        }
        self.cones = cones;
    }
}

/// Running sums agree on sequences whose cones have the same dimensions.
pub proof fn lemma_dims_prefix_same(a: Seq<Cone>, b: Seq<Cone>, i: int)
    requires
        0 <= i <= a.len(),
        i <= b.len(),
        forall|j: int| 0 <= j < i ==> (#[trigger] a[j]).spec_dim() == b[j].spec_dim(),
    ensures
        dims_prefix(a, i) == dims_prefix(b, i),
    decreases i,
{
    if i > 0 {
        lemma_dims_prefix_same(a, b, i - 1);
    }
}

/// Every row of a product of cones belongs to exactly one member cone, and
/// cone `i` occupies exactly the rows `offsets[i] .. offsets[i] + dim(cones[i])`.
pub proof fn lemma_rows_partitioned(c: CompositeCone, k: int)
    requires
        c.layout_ok(),
        0 <= k < c.dim,
    ensures
        exists|i: int| c.in_block(i, k),
        forall|i: int, j: int| c.in_block(i, k) && c.in_block(j, k) ==> i == j,
        forall|i: int|
            0 <= i < c.cones@.len() ==> (c.in_block(i, k) <==> c.offsets@[i] <= k < c.offsets@[i]
                + c.cones@[i].spec_dim()),
{
    lemma_find_block(c.cones@, c.cones@.len() as int, k);
    let w = choose|i: int|
        0 <= i < c.cones@.len() && #[trigger] dims_prefix(c.cones@, i) <= k < dims_prefix(c.cones@, i + 1);
    assert(c.in_block(w, k));
    assert forall|i: int, j: int| c.in_block(i, k) && c.in_block(j, k) implies i == j by {
        if i < j {
            lemma_dims_prefix_monotone(c.cones@, i + 1, j);
        } else if j < i {
            lemma_dims_prefix_monotone(c.cones@, j + 1, i);
        }
    }
}

proof fn lemma_find_block(cones: Seq<Cone>, n: int, k: int)
    requires
        0 <= n <= cones.len(),
        0 <= k < dims_prefix(cones, n),
    ensures
        exists|i: int| 0 <= i < n && #[trigger] dims_prefix(cones, i) <= k < dims_prefix(cones, i + 1),
    decreases n,
{
    if n > 0 {
        if k < dims_prefix(cones, n - 1) {
            lemma_find_block(cones, n - 1, k);
            let i = choose|i: int| 0 <= i < n - 1 && #[trigger] dims_prefix(cones, i) <= k < dims_prefix(cones, i + 1);
            assert(0 <= i < n && dims_prefix(cones, i) <= k < dims_prefix(cones, i + 1));
        } else {
            assert(dims_prefix(cones, n - 1) <= k < dims_prefix(cones, n));
        }
    }
}
} // verus!
