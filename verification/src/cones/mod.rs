//! Convex cones used by COSMO, described by their kind and dimension.
//!
//! The Euclidean projections onto these cones are numerical (floating point)
//! and live with the numerical solver; this module holds what the solver
//! decides from the cone structure alone.

pub mod composite;
pub mod nonnegative;
pub mod soc;
pub mod zero;

pub use composite::{CompositeCone, RhoRule};
pub use nonnegative::NonnegativeCone;
pub use soc::SecondOrderCone;
pub use zero::ZeroCone;

use vstd::prelude::*;

verus! {

/// Classification of one row of an axis-aligned box {x | l <= x <= u}.
#[derive(Clone, Copy, Debug, PartialEq, Eq, Structural)]
pub enum BoxBound {
    /// Both bounds are numerically infinite.
    Free,
    /// Lower and upper bound (nearly) coincide.
    Equality,
    /// Any other row.
    Ordinary,
}

/// Axis-aligned box {x | l <= x <= u} of dimension `dim`; the bounds
/// themselves are numerical data held by the solver.
#[derive(Clone, Debug)]
pub struct BoxCone {
    pub dim: usize,
    pub constr_type: Vec<BoxBound>,
}

impl BoxCone {
    /// Well formed: one classification per row.
    pub open spec fn wf(&self) -> bool {
        self.constr_type@.len() == self.dim
    }

    /// A box of dimension `dim` whose rows are all classified as ordinary.
    pub fn new(dim: usize) -> (c: Self)
        ensures
            c.dim == dim,
            c.constr_type@ == Seq::new(dim as nat, |_i: int| BoxBound::Ordinary),
            c.wf(),
    {
        let mut constr_type: Vec<BoxBound> = Vec::new();
        let mut i: usize = 0;
        while i < dim
            invariant
                i <= dim,
                constr_type@ == Seq::new(i as nat, |_i: int| BoxBound::Ordinary),
            decreases dim - i,
        {
            constr_type.push(BoxBound::Ordinary);
            i = i + 1;
        }
        BoxCone { dim, constr_type }
    }
}

/// A primitive convex set that COSMO can project onto.
#[derive(Clone, Debug)]
pub enum Cone {
    Zero(ZeroCone),
    Nonnegative(NonnegativeCone),
    SecondOrder(SecondOrderCone),
    Exponential,
    DualExponential,
    Power,
    DualPower,
    Box(BoxCone),
}

impl Cone {
    /// Number of rows the cone occupies.
    pub open spec fn spec_dim(&self) -> nat {
        match self {
            Cone::Zero(c) => c.dim as nat,
            Cone::Nonnegative(c) => c.dim as nat,
            Cone::SecondOrder(c) => c.dim as nat,
            Cone::Exponential | Cone::DualExponential => 3,
            Cone::Power | Cone::DualPower => 3,
            Cone::Box(c) => c.dim as nat,
        }
    }

    /// Well formed: per-row classifications match the dimension and a
    /// second-order cone has at least one row.
    pub open spec fn wf(&self) -> bool {
        match self {
            Cone::Nonnegative(c) => c.wf(),
            Cone::SecondOrder(c) => c.dim >= 1,
            Cone::Box(c) => c.wf(),
            _ => true,
        }
    }

    /// Whether the cone is well formed (see [`Cone::wf`]).
    pub fn is_wf(&self) -> (r: bool)
        ensures
            r <==> self.wf(),
    {
        match self {
            Cone::Nonnegative(c) => c.constr_type.len() == c.dim,
            Cone::SecondOrder(c) => c.dim >= 1,
            Cone::Box(c) => c.constr_type.len() == c.dim,
            _ => true,
        }
    }

    pub fn zero(dim: usize) -> (c: Self)
        ensures
            c == Cone::Zero(ZeroCone { dim }),
            c.wf(),
    {
        Cone::Zero(ZeroCone::new(dim))
    }

    pub fn nonnegative(dim: usize) -> (c: Self)
        ensures
            c matches Cone::Nonnegative(nn) && nn.dim == dim
                && nn.constr_type@ == Seq::new(dim as nat, |_i: int| false),
            c.wf(),
    {
        Cone::Nonnegative(NonnegativeCone::new(dim))
    }

    pub fn second_order(dim: usize) -> (c: Self)
        requires
            dim >= 1,
        ensures
            c == Cone::SecondOrder(SecondOrderCone { dim }),
            c.wf(),
    {
        Cone::SecondOrder(SecondOrderCone::new(dim))
    }

    pub fn exponential() -> (c: Self)
        ensures
            c == Cone::Exponential,
    {
        Cone::Exponential
    }

    pub fn dual_exponential() -> (c: Self)
        ensures
            c == Cone::DualExponential,
    {
        Cone::DualExponential
    }

    /// The 3D power cone; its exponent is numerical data held by the solver.
    pub fn power() -> (c: Self)
        ensures
            c == Cone::Power,
    {
        Cone::Power
    }

    /// The dual 3D power cone; its exponent is numerical data held by the solver.
    pub fn dual_power() -> (c: Self)
        ensures
            c == Cone::DualPower,
    {
        Cone::DualPower
    }

    /// A box of `dim` rows; its bounds are numerical data held by the solver.
    pub fn boxed(dim: usize) -> (c: Self)
        ensures
            c matches Cone::Box(b) && b.dim == dim
                && b.constr_type@ == Seq::new(dim as nat, |_i: int| BoxBound::Ordinary),
            c.wf(),
    {
        Cone::Box(BoxCone::new(dim))
    }

    pub fn dim(&self) -> (d: usize)
        ensures
            d == self.spec_dim(),
    {
        match self {
            Cone::Zero(c) => c.dim,
            Cone::Nonnegative(c) => c.dim,
            Cone::SecondOrder(c) => c.dim,
            Cone::Exponential | Cone::DualExponential => 3,
            Cone::Power | Cone::DualPower => 3,
            Cone::Box(c) => c.dim,
        }
    }

    /// Only the zero cone encodes equality constraints.
    pub fn is_equality(&self) -> (r: bool)
        ensures
            r <==> self is Zero,
    {
        matches!(self, Cone::Zero(_))
    }

    /// Whether equilibration must give all rows of this cone one common
    /// scaling (true for every cone that is not separable per row: the
    /// second-order, exponential and power cones and their duals).
    pub fn needs_scalar_scaling(&self) -> (r: bool)
        ensures
            r <==> !(self is Zero || self is Nonnegative || self is Box),
    {
        match self {
            Cone::Zero(_) | Cone::Nonnegative(_) | Cone::Box(_) => false,
            _ => true,
        }
    }
}

} // verus!
