use cosmo::settings::WarmStartMode;
use cosmo::solution::SolverStatus;
use cosmo::solver::{
    after_rho_adaptation, check_cone_dim, check_dims, check_update_dims, continue_iterating, factorisation_after_update,
    infeasibility_step, infeasibility_verdict, reset_plan, rho_step, setup_plan, status_after_loop, termination_check_due,
    termination_verdict, time_limit_verdict, AcceleratorAction, AdaptationFollowUp, DataUpdate, DimensionError,
    FactorAction, InfeasibilityStep, RhoStep, SetupPlan,
};

#[test]
fn problem_dimension_checks() {
    assert_eq!(check_dims(2, 2, 2, 3, 2, 3), Ok(()));
    assert_eq!(check_dims(2, 3, 2, 3, 2, 3), Err(DimensionError::PNotSquare));
    assert_eq!(check_dims(2, 2, 3, 3, 2, 3), Err(DimensionError::PAndQ));
    assert_eq!(check_dims(2, 2, 2, 3, 1, 3), Err(DimensionError::AAndQ));
    assert_eq!(check_dims(2, 2, 2, 3, 2, 4), Err(DimensionError::AAndB));
    assert_eq!(check_cone_dim(6, 6), Ok(()));
    assert_eq!(check_cone_dim(5, 6), Err(DimensionError::ConeDim { cone_dim: 5, m: 6 }));
}

#[test]
fn update_dimension_checks() {
    assert_eq!(check_update_dims(DataUpdate::Q, 2, 1, 2, 3), Ok(()));
    assert_eq!(check_update_dims(DataUpdate::Q, 3, 1, 2, 3), Err(DimensionError::Update(DataUpdate::Q)));
    assert_eq!(check_update_dims(DataUpdate::B, 3, 1, 2, 3), Ok(()));
    assert_eq!(check_update_dims(DataUpdate::P, 2, 2, 2, 3), Ok(()));
    assert_eq!(check_update_dims(DataUpdate::P, 2, 3, 2, 3), Err(DimensionError::Update(DataUpdate::P)));
    assert_eq!(check_update_dims(DataUpdate::A, 3, 2, 2, 3), Ok(()));
    assert_eq!(check_update_dims(DataUpdate::A, 2, 3, 2, 3), Err(DimensionError::Update(DataUpdate::A)));
    assert_eq!(check_update_dims(DataUpdate::WarmStartY, 2, 1, 2, 3), Err(DimensionError::Update(DataUpdate::WarmStartY)));
}

#[test]
fn factorisation_reuse_rules() {
    assert_eq!(factorisation_after_update(DataUpdate::Q, false, true), FactorAction::Keep);
    assert_eq!(factorisation_after_update(DataUpdate::B, false, true), FactorAction::Keep);
    assert_eq!(factorisation_after_update(DataUpdate::P, true, true), FactorAction::Refactor);
    assert_eq!(factorisation_after_update(DataUpdate::P, true, false), FactorAction::Drop);
    assert_eq!(factorisation_after_update(DataUpdate::P, false, true), FactorAction::Drop);
    assert_eq!(factorisation_after_update(DataUpdate::A, true, true), FactorAction::Drop);
}

#[test]
fn reset_plans() {
    let cold = reset_plan(WarmStartMode::ColdStart);
    assert!(cold.zero_iterates && cold.forget_solved && cold.restart_accelerator && !cold.keep_accelerator_history);
    let factor = reset_plan(WarmStartMode::PersistentFactorization);
    assert!(factor.zero_iterates && !factor.forget_solved && !factor.restart_accelerator);
    assert!(!factor.keep_accelerator_history);
    for m in [WarmStartMode::WarmStartSolution, WarmStartMode::WarmStartFullState] {
        let p = reset_plan(m);
        assert!(!p.zero_iterates && !p.forget_solved && !p.restart_accelerator);
    }
    assert!(!reset_plan(WarmStartMode::WarmStartSolution).keep_accelerator_history);
    assert!(reset_plan(WarmStartMode::WarmStartFullState).keep_accelerator_history);
}

#[test]
fn setup_plans() {
    let first = setup_plan(10, false, false, true, false, false, false);
    assert_eq!(
        first,
        SetupPlan { scale: true, seed_rho: true, accelerator: AcceleratorAction::Create, factor: true, refresh_rho: false }
    );
    let again = setup_plan(10, true, true, true, true, false, true);
    assert_eq!(
        again,
        SetupPlan { scale: false, seed_rho: false, accelerator: AcceleratorAction::Restart, factor: false, refresh_rho: false }
    );
    let plain = setup_plan(0, false, true, false, true, false, false);
    assert_eq!(
        plain,
        SetupPlan { scale: false, seed_rho: false, accelerator: AcceleratorAction::Remove, factor: true, refresh_rho: false }
    );
    let full_state = setup_plan(10, true, true, true, true, true, true);
    assert_eq!(full_state.accelerator, AcceleratorAction::Keep);
    let keep_without_accelerator = setup_plan(10, true, true, true, false, true, true);
    assert_eq!(keep_without_accelerator.accelerator, AcceleratorAction::Create);
}

#[test]
fn cold_reset_refreshes_rho_in_existing_factorisation() {
    let r = reset_plan(WarmStartMode::ColdStart);
    // a solver that has solved and factored, then reset cold
    let p = setup_plan(10, true, !r.forget_solved, true, true, r.keep_accelerator_history, true);
    assert_eq!(
        p,
        SetupPlan { scale: false, seed_rho: true, accelerator: AcceleratorAction::Restart, factor: false, refresh_rho: true }
    );
    let r = reset_plan(WarmStartMode::PersistentFactorization);
    let p = setup_plan(10, true, !r.forget_solved, true, true, r.keep_accelerator_history, true);
    assert!(!p.seed_rho && !p.refresh_rho && !p.factor);
}

#[test]
fn verdicts() {
    assert_eq!(termination_verdict(true, true), Some(SolverStatus::Unsolved));
    assert_eq!(termination_verdict(false, true), Some(SolverStatus::Solved));
    assert_eq!(termination_verdict(false, false), None);
    assert_eq!(infeasibility_verdict(true, true, true, true), Some(SolverStatus::Solved));
    assert_eq!(infeasibility_verdict(false, true, true, true), Some(SolverStatus::PrimalInfeasible));
    assert_eq!(infeasibility_verdict(false, true, false, true), Some(SolverStatus::DualInfeasible));
    assert_eq!(infeasibility_verdict(false, false, true, true), None);
    assert_eq!(infeasibility_verdict(false, true, false, false), None);
    assert_eq!(time_limit_verdict(true, true), Some(SolverStatus::TimeLimitReached));
    assert_eq!(time_limit_verdict(false, true), None);
    assert_eq!(time_limit_verdict(true, false), None);
    assert_eq!(after_rho_adaptation(true), AdaptationFollowUp { restart_accelerator: true, recompute_iterate: true });
    assert_eq!(after_rho_adaptation(false), AdaptationFollowUp { restart_accelerator: false, recompute_iterate: false });
}

#[test]
fn iteration_schedule() {
    assert!(continue_iterating(0, 0, 5));
    assert!(continue_iterating(3, 1, 5));
    assert!(!continue_iterating(4, 1, 5));
    assert!(!continue_iterating(usize::MAX, usize::MAX, 5));
    assert!(termination_check_due(1, 25));
    assert!(!termination_check_due(2, 25));
    assert!(termination_check_due(50, 25));
    assert!(termination_check_due(1, 0));
    assert_eq!(infeasibility_step(false, 40, 40, true), InfeasibilityStep { due: true, check_now: false });
    assert_eq!(infeasibility_step(true, 41, 40, false), InfeasibilityStep { due: true, check_now: false });
    assert_eq!(infeasibility_step(true, 42, 40, true), InfeasibilityStep { due: false, check_now: true });
    assert_eq!(infeasibility_step(false, 43, 40, true), InfeasibilityStep { due: false, check_now: false });
    assert_eq!(status_after_loop(SolverStatus::Undetermined), SolverStatus::MaxIterReached);
    assert_eq!(status_after_loop(SolverStatus::Solved), SolverStatus::Solved);
}

#[test]
fn rho_adaptation_schedule() {
    // adaptation off
    assert_eq!(rho_step(true, false, 40, 40, false, 25, 1, 10, true), RhoStep { due: true, adapt_now: false });
    // every 40 iterations
    assert_eq!(rho_step(false, true, 40, 40, false, 25, 1, 10, true), RhoStep { due: false, adapt_now: true });
    assert_eq!(rho_step(false, true, 40, 40, false, 25, 1, 10, false), RhoStep { due: true, adapt_now: false });
    assert_eq!(rho_step(true, true, 41, 40, false, 25, 1, 10, true), RhoStep { due: false, adapt_now: true });
    assert_eq!(rho_step(false, true, 41, 40, false, 25, 1, 10, true), RhoStep { due: false, adapt_now: false });
    // limit on the number of adaptations
    assert_eq!(rho_step(false, true, 80, 40, false, 25, 3, 2, true), RhoStep { due: false, adapt_now: false });
    // time-based interval
    assert_eq!(rho_step(false, true, 30, 0, false, 25, 1, 10, true), RhoStep { due: false, adapt_now: false });
    assert_eq!(rho_step(false, true, 30, 0, true, 25, 1, 10, true), RhoStep { due: false, adapt_now: true });
    assert_eq!(rho_step(false, true, 10, 0, true, 25, 1, 10, true), RhoStep { due: false, adapt_now: false });
}
