//! How a subsequent solve reuses solver state.

use vstd::prelude::*;

verus! {

/// How a subsequent solve should reuse solver state.
#[derive(Clone, Copy, Debug, PartialEq, Eq, Structural)]
pub enum WarmStartMode {
    /// Zero x, s, duals; keep factorisation if the KKT pattern is valid.
    ColdStart,
    /// Keep x / s / y from the previous solve.
    WarmStartSolution,
    /// Keep the full ADMM operator state (w, rho, accelerator history).
    WarmStartFullState,
    /// Keep the numerical KKT factorisation (valid when P, A, rho, sigma unchanged).
    PersistentFactorization,
}

impl Default for WarmStartMode {
    fn default() -> (r: Self)
        ensures
            r == WarmStartMode::WarmStartSolution,
    {
        WarmStartMode::WarmStartSolution
    }
}

} // verus!
