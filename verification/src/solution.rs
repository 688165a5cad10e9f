//! Solver status codes reported at the end of a solve.

use vstd::prelude::*;

verus! {

/// Final status of a COSMO solve.
#[derive(Clone, Copy, Debug, PartialEq, Eq, Structural)]
pub enum SolverStatus {
    Undetermined,
    Solved,
    PrimalInfeasible,
    DualInfeasible,
    MaxIterReached,
    TimeLimitReached,
    Unsolved,
    NumericalError,
}

/// The name under which a status is reported (and handed to the Python layer).
pub open spec fn status_name(s: SolverStatus) -> Seq<char> {
    match s {
        SolverStatus::Undetermined => "Undetermined"@,
        SolverStatus::Solved => "Solved"@,
        SolverStatus::PrimalInfeasible => "Primal_infeasible"@,
        SolverStatus::DualInfeasible => "Dual_infeasible"@,
        SolverStatus::MaxIterReached => "Max_iter_reached"@,
        SolverStatus::TimeLimitReached => "Time_limit_reached"@,
        SolverStatus::Unsolved => "Unsolved"@,
        SolverStatus::NumericalError => "Numerical_error"@,
    }
}

impl SolverStatus {
    /// The status name, e.g. `"Primal_infeasible"`.
    pub fn as_str(self) -> (r: &'static str)
        ensures
            r@ == status_name(self),
    {
        match self {
            SolverStatus::Undetermined => "Undetermined",
            SolverStatus::Solved => "Solved",
            SolverStatus::PrimalInfeasible => "Primal_infeasible",
            SolverStatus::DualInfeasible => "Dual_infeasible",
            SolverStatus::MaxIterReached => "Max_iter_reached",
            SolverStatus::TimeLimitReached => "Time_limit_reached",
            SolverStatus::Unsolved => "Unsolved",
            SolverStatus::NumericalError => "Numerical_error",
        }
    }

    /// Whether the status reports an optimal solution.
    pub fn is_solved(self) -> (r: bool)
        ensures
            r <==> self == SolverStatus::Solved,
    {
        self == SolverStatus::Solved
    }
}

/// Distinct statuses are reported under distinct names, so a status can be
/// recovered from its name.
pub proof fn lemma_status_names_distinct(a: SolverStatus, b: SolverStatus)
    requires
        a != b,
    ensures
        status_name(a) != status_name(b),
{
    reveal_strlit("Undetermined");
    reveal_strlit("Solved");
    reveal_strlit("Primal_infeasible");
    reveal_strlit("Dual_infeasible");
    reveal_strlit("Max_iter_reached");
    reveal_strlit("Time_limit_reached");
    reveal_strlit("Unsolved");
    reveal_strlit("Numerical_error");
    if status_name(a) == status_name(b) {
        assert(status_name(a).len() == status_name(b).len());
        assert(status_name(a)[0] == status_name(b)[0]);
    }
}

} // verus!
