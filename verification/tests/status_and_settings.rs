use cosmo::solution::SolverStatus;
use cosmo::settings::WarmStartMode;

#[test]
fn status_names() {
    assert_eq!(SolverStatus::Undetermined.as_str(), "Undetermined");
    assert_eq!(SolverStatus::Solved.as_str(), "Solved");
    assert_eq!(SolverStatus::PrimalInfeasible.as_str(), "Primal_infeasible");
    assert_eq!(SolverStatus::DualInfeasible.as_str(), "Dual_infeasible");
    assert_eq!(SolverStatus::MaxIterReached.as_str(), "Max_iter_reached");
    assert_eq!(SolverStatus::TimeLimitReached.as_str(), "Time_limit_reached");
    assert_eq!(SolverStatus::Unsolved.as_str(), "Unsolved");
    assert_eq!(SolverStatus::NumericalError.as_str(), "Numerical_error");
}

#[test]
fn status_names_are_distinct() {
    let all = [
        SolverStatus::Undetermined,
        SolverStatus::Solved,
        SolverStatus::PrimalInfeasible,
        SolverStatus::DualInfeasible,
        SolverStatus::MaxIterReached,
        SolverStatus::TimeLimitReached,
        SolverStatus::Unsolved,
        SolverStatus::NumericalError,
    ];
    for (i, a) in all.iter().enumerate() {
        for (j, b) in all.iter().enumerate() {
            assert_eq!(i == j, a.as_str() == b.as_str());
        }
    }
}

#[test]
fn only_solved_is_solved() {
    assert!(SolverStatus::Solved.is_solved());
    assert!(!SolverStatus::MaxIterReached.is_solved());
    assert!(!SolverStatus::PrimalInfeasible.is_solved());
    assert!(!SolverStatus::Undetermined.is_solved());
}

#[test]
fn warm_start_default() {
    assert_eq!(WarmStartMode::default(), WarmStartMode::WarmStartSolution);
}
