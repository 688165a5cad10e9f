//! Structural core of a COSMO (ADMM operator splitting) solver for convex
//! quadratic-conic programs
//!
//! ```text
//! minimize    (1/2) x' P x + q' x
//! subject to  A x + s = b,  s in K
//! ```
//!
//! This crate holds what the solver decides from structure alone: the layout
//! of a product of cones and the per-row step-size rules, the sparsity
//! pattern of the KKT system, the restarted-memory bookkeeping of the
//! Anderson accelerator, dimension checks, reset and setup plans, the ADMM
//! iteration schedule, status names, and the cone and setting names accepted
//! by the Python layer.

pub mod accelerator;
pub mod algebra;
pub mod cones;
pub mod linsys;
pub mod names;
pub mod settings;
pub mod solution;
pub mod solver;

pub use algebra::CscPattern;
pub use cones::{BoxBound, BoxCone, CompositeCone, Cone, NonnegativeCone, RhoRule, SecondOrderCone, ZeroCone};
pub use settings::WarmStartMode;
pub use solution::SolverStatus;
