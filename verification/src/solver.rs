//! Decisions of the persistent COSMO solver that do not depend on numerical
//! values: dimension checks, what a data update does to the factorisation,
//! what a reset or a setup does, and the iteration schedule (termination
//! checks, infeasibility checks, rho adaptation).

use vstd::prelude::*;
use crate::settings::WarmStartMode;
use crate::solution::SolverStatus;

verus! {

/// A dimension mismatch in the problem data or in an update.
#[derive(Clone, Copy, Debug, PartialEq, Eq, Structural)]
pub enum DimensionError {
    /// P is not square.
    PNotSquare,
    /// P and q disagree on n.
    PAndQ,
    /// A and q disagree on n.
    AAndQ,
    /// A and b disagree on m.
    AAndB,
    /// The cones cover a different number of rows than b has.
    ConeDim { cone_dim: usize, m: usize },
    /// An update or warm start has the wrong size.
    Update(DataUpdate),
}

/// The data that an update or warm start replaces.
#[derive(Clone, Copy, Debug, PartialEq, Eq, Structural)]
pub enum DataUpdate {
    Q,
    B,
    P,
    A,
    WarmStartX,
    WarmStartY,
}

/// Checks that P is `n`-by-`n`, q has length `n`, A is `m`-by-`n` and b has
/// length `m`, reporting the first mismatch in that order.
pub fn check_dims(p_m: usize, p_n: usize, q_len: usize, a_m: usize, a_n: usize, b_len: usize) -> (r: Result<(), DimensionError>)
    ensures
        r == (if p_m != p_n {
            Err(DimensionError::PNotSquare)
        } else if p_n != q_len {
            Err(DimensionError::PAndQ)
        } else if a_n != q_len {
            Err(DimensionError::AAndQ)
        } else if a_m != b_len {
            Err(DimensionError::AAndB)
        } else {
            Ok(())
        }),
{
    if p_m != p_n {
        return Err(DimensionError::PNotSquare);
    }
    if p_n != q_len {
        return Err(DimensionError::PAndQ);
    }
    if a_n != q_len {
        return Err(DimensionError::AAndQ);
    }
    if a_m != b_len {
        return Err(DimensionError::AAndB);
    }
    Ok(())
}

/// Checks that the cones cover exactly the `m` constraint rows.
pub fn check_cone_dim(cone_dim: usize, m: usize) -> (r: Result<(), DimensionError>)
    ensures
        r == (if cone_dim == m { Ok(()) } else { Err(DimensionError::ConeDim { cone_dim, m }) }),
{
    if cone_dim != m {
        return Err(DimensionError::ConeDim { cone_dim, m });
    }
    Ok(())
}

/// Size required of new data for a problem with `n` variables and `m`
/// constraints: `(rows, cols)`, with `cols == 1` for vectors.
pub open spec fn required_shape(target: DataUpdate, n: usize, m: usize) -> (usize, usize) {
    match target {
        DataUpdate::Q => (n, 1),
        DataUpdate::B => (m, 1),
        DataUpdate::P => (n, n),
        DataUpdate::A => (m, n),
        DataUpdate::WarmStartX => (n, 1),
        DataUpdate::WarmStartY => (m, 1),
    }
}

/// Checks the size of new data (`cols == 1` for vectors).
pub fn check_update_dims(target: DataUpdate, rows: usize, cols: usize, n: usize, m: usize) -> (r: Result<(), DimensionError>)
    ensures
        r == (if (rows, cols) == required_shape(target, n, m) {
            Ok(())
        } else {
            Err(DimensionError::Update(target))
        }),
{
    let (er, ec) = match target {
        DataUpdate::Q => (n, 1),
        DataUpdate::B => (m, 1),
        DataUpdate::P => (n, n),
        DataUpdate::A => (m, n),
        DataUpdate::WarmStartX => (n, 1),
        DataUpdate::WarmStartY => (m, 1),
    };
    if rows == er && cols == ec {
        Ok(())
    } else {
        Err(DimensionError::Update(target))
    }
}

/// What happens to the KKT factorisation after a data update.
#[derive(Clone, Copy, Debug, PartialEq, Eq, Structural)]
pub enum FactorAction {
    /// The factorisation stays valid.
    Keep,
    /// Refactor now with the new values (symbolic analysis reused).
    Refactor,
    /// Discard it; the next solve factors from scratch.
    Drop,
}

/// q, b and warm starts never refactor; P with an unchanged pattern is
/// refactored at once when a factorisation exists; any other change of P,
/// and every change of A, discards the factorisation.
pub fn factorisation_after_update(target: DataUpdate, same_pattern: bool, has_factorisation: bool) -> (a: FactorAction)
    ensures
        a == (match target {
            DataUpdate::P => if same_pattern && has_factorisation {
                FactorAction::Refactor
            } else {
                FactorAction::Drop
            },
            DataUpdate::A => FactorAction::Drop,
            _ => FactorAction::Keep,
        }),
{
    match target {
        DataUpdate::P => if same_pattern && has_factorisation {
            FactorAction::Refactor
        } else {
            FactorAction::Drop
        },
        DataUpdate::A => FactorAction::Drop,
        _ => FactorAction::Keep,
    }
}

/// What a reset does to the solver state.
#[derive(Clone, Copy, Debug, PartialEq, Eq, Structural)]
pub struct ResetPlan {
    /// Zero the ADMM iterates (w, x, s, mu).
    pub zero_iterates: bool,
    /// Forget that a solve happened, so the next solve reseeds rho.
    pub forget_solved: bool,
    /// Restart the accelerator history.
    pub restart_accelerator: bool,
    /// Let the next setup keep the accelerator history instead of restarting it.
    pub keep_accelerator_history: bool,
}

/// A cold start zeros the iterates, reseeds rho on the next solve and
/// restarts the accelerator; a persistent-factorisation reset only zeros the
/// iterates (rho and the factorisation are kept); warm-start modes keep
/// everything, and the full-state mode also keeps the accelerator history
/// through the next setup.
pub open spec fn reset_plan_of(mode: WarmStartMode) -> ResetPlan {
    ResetPlan {
        zero_iterates: mode == WarmStartMode::ColdStart || mode == WarmStartMode::PersistentFactorization,
        forget_solved: mode == WarmStartMode::ColdStart,
        restart_accelerator: mode == WarmStartMode::ColdStart,
        keep_accelerator_history: mode == WarmStartMode::WarmStartFullState,
    }
}

/// The plan of a reset (see [`reset_plan_of`]).
pub fn reset_plan(mode: WarmStartMode) -> (p: ResetPlan)
    ensures
        p == reset_plan_of(mode),
{
    match mode {
        WarmStartMode::ColdStart => ResetPlan {
            zero_iterates: true,
            forget_solved: true,
            restart_accelerator: true,
            keep_accelerator_history: false,
        },
        WarmStartMode::WarmStartSolution => ResetPlan {
            zero_iterates: false,
            forget_solved: false,
            restart_accelerator: false,
            keep_accelerator_history: false,
        },
        WarmStartMode::WarmStartFullState => ResetPlan {
            zero_iterates: false,
            forget_solved: false,
            restart_accelerator: false,
            keep_accelerator_history: true,
        },
        WarmStartMode::PersistentFactorization => ResetPlan {
            zero_iterates: true,
            forget_solved: false,
            restart_accelerator: false,
            keep_accelerator_history: false,
        },
    }
}

/// What to do with the accelerator when a solve is set up.
#[derive(Clone, Copy, Debug, PartialEq, Eq, Structural)]
pub enum AcceleratorAction {
    Create,
    Restart,
    /// Keep the stored history (after a full-state reset).
    Keep,
    Remove,
}

/// The work a solve does before iterating.
#[derive(Clone, Copy, Debug, PartialEq, Eq, Structural)]
pub struct SetupPlan {
    /// Run Ruiz equilibration (once per problem).
    pub scale: bool,
    /// Seed rho from the settings (before the first solve).
    pub seed_rho: bool,
    pub accelerator: AcceleratorAction,
    /// Factor the KKT system.
    pub factor: bool,
    /// Write the freshly seeded rho into the existing factorisation and
    /// refactor numerically.
    pub refresh_rho: bool,
}

/// Scaling runs once, when enabled and not yet done; rho is seeded until a
/// solve has happened; when acceleration is on an existing accelerator keeps
/// its history after a full-state reset and is restarted otherwise, a missing
/// one is created, and when acceleration is off it is removed; the KKT system
/// is factored when no valid factorisation exists, and a factorisation that
/// does exist receives a freshly seeded rho.
pub open spec fn setup_plan_of(
    scaling_iters: usize,
    is_scaled: bool,
    has_solved: bool,
    accelerate: bool,
    has_accelerator: bool,
    keep_accelerator_history: bool,
    kkt_factored: bool,
) -> SetupPlan {
    SetupPlan {
        scale: scaling_iters != 0 && !is_scaled,
        seed_rho: !has_solved,
        accelerator: if !accelerate {
            AcceleratorAction::Remove
        } else if has_accelerator {
            if keep_accelerator_history {
                AcceleratorAction::Keep
            } else {
                AcceleratorAction::Restart
            }
        } else {
            AcceleratorAction::Create
        },
        factor: !kkt_factored,
        refresh_rho: !has_solved && kkt_factored,
    }
}

/// What a setup does, condition by condition: no accelerator survives when
/// acceleration is off; one is created only when acceleration is on and
/// none exists, kept only after a full-state reset and restarted otherwise;
/// Ruiz scaling runs only when enabled and not yet done; rho is seeded only
/// before the first solve (or after a cold reset); the KKT system is
/// factored only when no valid factorisation exists, and an existing one is
/// refreshed exactly when rho is seeded.
pub proof fn lemma_setup_plan_meaning(
    scaling_iters: usize,
    is_scaled: bool,
    has_solved: bool,
    accelerate: bool,
    has_accelerator: bool,
    keep_accelerator_history: bool,
    kkt_factored: bool,
)
    ensures
        ({
            let p = setup_plan_of(
                scaling_iters,
                is_scaled,
                has_solved,
                accelerate,
                has_accelerator,
                keep_accelerator_history,
                kkt_factored,
            );
            &&& !accelerate ==> p.accelerator == AcceleratorAction::Remove
            &&& (p.accelerator == AcceleratorAction::Create <==> accelerate && !has_accelerator)
            &&& (p.accelerator == AcceleratorAction::Keep <==> accelerate && has_accelerator && keep_accelerator_history)
            &&& (p.accelerator == AcceleratorAction::Restart <==> accelerate && has_accelerator
                && !keep_accelerator_history)
            &&& (p.scale <==> scaling_iters != 0 && !is_scaled)
            &&& (p.seed_rho <==> !has_solved)
            &&& (p.factor <==> !kkt_factored)
            &&& (p.refresh_rho <==> p.seed_rho && !p.factor)
        }),
{
}

/// The plan of a setup (see [`setup_plan_of`]).
pub fn setup_plan(
    scaling_iters: usize,
    is_scaled: bool,
    has_solved: bool,
    accelerate: bool,
    has_accelerator: bool,
    keep_accelerator_history: bool,
    kkt_factored: bool,
) -> (p: SetupPlan)
    ensures
        p == setup_plan_of(
            scaling_iters,
            is_scaled,
            has_solved,
            accelerate,
            has_accelerator,
            keep_accelerator_history,
            kkt_factored,
        ),
        ({
            &&& !accelerate ==> p.accelerator == AcceleratorAction::Remove
            &&& (p.accelerator == AcceleratorAction::Create <==> accelerate && !has_accelerator)
            &&& (p.accelerator == AcceleratorAction::Keep <==> accelerate && has_accelerator && keep_accelerator_history)
            &&& (p.accelerator == AcceleratorAction::Restart <==> accelerate && has_accelerator
                && !keep_accelerator_history)
            &&& (p.scale <==> scaling_iters != 0 && !is_scaled)
            &&& (p.seed_rho <==> !has_solved)
            &&& (p.factor <==> !kkt_factored)
            &&& (p.refresh_rho <==> p.seed_rho && !p.factor)
        }),
{
    proof {
        lemma_setup_plan_meaning(
            scaling_iters,
            is_scaled,
            has_solved,
            accelerate,
            has_accelerator,
            keep_accelerator_history,
            kkt_factored,
        );
    }
    let accelerator = if !accelerate {
        AcceleratorAction::Remove
    } else if has_accelerator {
        if keep_accelerator_history {
            AcceleratorAction::Keep
        } else {
            AcceleratorAction::Restart
        }
    } else {
        AcceleratorAction::Create
    };
    SetupPlan {
        scale: scaling_iters != 0 && !is_scaled,
        seed_rho: !has_solved,
        accelerator,
        factor: !kkt_factored,
        refresh_rho: !has_solved && kkt_factored,
    }
}

/// The ADMM loop runs while the plain and the safeguarding iterations
/// together stay below `max_iter`.
pub fn continue_iterating(iter: usize, safeguarding_iter: usize, max_iter: usize) -> (r: bool)
    ensures
        r <==> iter + safeguarding_iter < max_iter,
{
    iter < max_iter && safeguarding_iter < max_iter - iter
}

/// Residuals are checked at the first iteration and every `check_termination` iterations.
pub fn termination_check_due(iter: usize, check_termination: usize) -> (r: bool)
    requires
        iter == 1 || check_termination > 0,
    ensures
        r <==> (iter == 1 || iter % check_termination == 0),
{
    iter == 1 || iter % check_termination == 0
}

/// The infeasibility state carried between iterations and the step it asks for.
#[derive(Clone, Copy, Debug, PartialEq, Eq, Structural)]
pub struct InfeasibilityStep {
    /// An infeasibility check is pending.
    pub due: bool,
    /// Run the check in this iteration.
    pub check_now: bool,
}

/// A check becomes pending every `check_infeasibility` iterations and runs
/// in the first later iteration in which the accelerator allows it.
pub fn infeasibility_step(due: bool, iter: usize, check_infeasibility: usize, accel_allows: bool) -> (s: InfeasibilityStep)
    requires
        check_infeasibility > 0,
    ensures
        s == (if iter % check_infeasibility == 0 {
            InfeasibilityStep { due: true, check_now: false }
        } else if due && accel_allows {
            InfeasibilityStep { due: false, check_now: true }
        } else {
            InfeasibilityStep { due, check_now: false }
        }),
{
    if iter % check_infeasibility == 0 {
        InfeasibilityStep { due: true, check_now: false }
    } else if due && accel_allows {
        InfeasibilityStep { due: false, check_now: true }
    } else {
        InfeasibilityStep { due, check_now: false }
    }
}

/// The rho-adaptation state carried between iterations and the step it asks for.
#[derive(Clone, Copy, Debug, PartialEq, Eq, Structural)]
pub struct RhoStep {
    /// An adaptation is pending.
    pub due: bool,
    /// Adapt rho in this iteration.
    pub adapt_now: bool,
}

/// The interval actually used: the configured one, or, when it is 0 and the
/// time trigger fired, `max(iter, check_termination, 25)`.
pub open spec fn effective_rho_interval(iter: usize, interval: usize, check_termination: usize) -> int {
    if interval > 0 {
        interval as int
    } else {
        let ct: int = if check_termination >= 25 { check_termination as int } else { 25 };
        if iter >= ct { iter as int } else { ct }
    }
}

/// The rho-adaptation step (see [`rho_step`]).
pub open spec fn rho_schedule(
    due: bool,
    adaptive_rho: bool,
    iter: usize,
    interval: usize,
    time_trigger: bool,
    check_termination: usize,
    n_updates: usize,
    max_adaptions: usize,
    accel_allows: bool,
) -> RhoStep {
    if !adaptive_rho || (interval == 0 && !time_trigger) {
        RhoStep { due, adapt_now: false }
    } else {
        let d = due || ((iter as int) % effective_rho_interval(iter, interval, check_termination) == 0
            && n_updates - 1 < max_adaptions);
        if d && accel_allows {
            RhoStep { due: false, adapt_now: true }
        } else {
            RhoStep { due: d, adapt_now: false }
        }
    }
}

/// The rho-adaptation schedule of one iteration.
///
/// With adaptation off nothing happens. With `interval == 0` the schedule is
/// time based: unless `time_trigger` (iteration time exceeded the configured
/// fraction of setup time) holds, nothing happens. Otherwise an adaptation
/// becomes pending every `interval` iterations while fewer than
/// `max_adaptions` adaptations were recorded (`n_updates` counts the
/// initial rho too), and a pending adaptation runs as soon as the
/// accelerator allows it.
pub fn rho_step(
    due: bool,
    adaptive_rho: bool,
    iter: usize,
    interval: usize,
    time_trigger: bool,
    check_termination: usize,
    n_updates: usize,
    max_adaptions: usize,
    accel_allows: bool,
) -> (s: RhoStep)
    requires
        n_updates >= 1,
    ensures
        s == rho_schedule(due, adaptive_rho, iter, interval, time_trigger, check_termination, n_updates, max_adaptions, accel_allows),
{
    if !adaptive_rho {
        return RhoStep { due, adapt_now: false };
    }
    let mut eff = interval;
    if interval == 0 {
        if time_trigger {
            let ct = if check_termination >= 25 { check_termination } else { 25 };
            eff = if iter >= ct { iter } else { ct };
        } else {
            return RhoStep { due, adapt_now: false };
        }
    }
    let d = due || (iter % eff == 0 && n_updates - 1 < max_adaptions);
    if d && accel_allows {
        RhoStep { due: false, adapt_now: true }
    } else {
        RhoStep { due: d, adapt_now: false }
    }
}

/// A solve that ends its iterations without a verdict hit the iteration limit.
pub fn status_after_loop(s: SolverStatus) -> (r: SolverStatus)
    ensures
        r == (if s == SolverStatus::Undetermined { SolverStatus::MaxIterReached } else { s }),
{
    if s == SolverStatus::Undetermined {
        SolverStatus::MaxIterReached
    } else {
        s
    }
}

/// Verdict of a termination check: an objective beyond the divergence
/// threshold stops the solve as unsolved, otherwise converged residuals stop
/// it as solved; `None` lets the iteration go on.
pub fn termination_verdict(cost_diverged: bool, converged: bool) -> (r: Option<SolverStatus>)
    ensures
        r == (if cost_diverged {
            Some(SolverStatus::Unsolved)
        } else if converged {
            Some(SolverStatus::Solved)
        } else {
            None
        }),
{
    if cost_diverged {
        Some(SolverStatus::Unsolved)
    } else if converged {
        Some(SolverStatus::Solved)
    } else {
        None
    }
}

/// Verdict of an infeasibility check: converged residuals win; the
/// certificates count only when the point is far from primal feasibility,
/// the primal one before the dual one; `None` lets the iteration go on.
pub fn infeasibility_verdict(
    converged: bool,
    far_from_feasible: bool,
    primal_certificate: bool,
    dual_certificate: bool,
) -> (r: Option<SolverStatus>)
    ensures
        r == (if converged {
            Some(SolverStatus::Solved)
        } else if far_from_feasible && primal_certificate {
            Some(SolverStatus::PrimalInfeasible)
        } else if far_from_feasible && dual_certificate {
            Some(SolverStatus::DualInfeasible)
        } else {
            None
        }),
{
    if converged {
        Some(SolverStatus::Solved)
    } else if far_from_feasible && primal_certificate {
        Some(SolverStatus::PrimalInfeasible)
    } else if far_from_feasible && dual_certificate {
        Some(SolverStatus::DualInfeasible)
    } else {
        None
    }
}

/// Verdict at the end of an iteration: a time limit that is set and
/// exceeded stops the solve.
pub fn time_limit_verdict(limit_set: bool, exceeded: bool) -> (r: Option<SolverStatus>)
    ensures
        r == (if limit_set && exceeded { Some(SolverStatus::TimeLimitReached) } else { None }),
{
    if limit_set && exceeded {
        Some(SolverStatus::TimeLimitReached)
    } else {
        None
    }
}

/// What follows an attempted rho adaptation.
#[derive(Clone, Copy, Debug, PartialEq, Eq, Structural)]
pub struct AdaptationFollowUp {
    /// Restart the accelerator history (its columns were built with the old rho).
    pub restart_accelerator: bool,
    /// Recompute the constraint part of the ADMM iterate from s and mu.
    pub recompute_iterate: bool,
}

/// When rho changed, the accelerator is restarted and the iterate is
/// recomputed for the new rho; when the candidate was rejected nothing
/// happens.
pub fn after_rho_adaptation(changed: bool) -> (f: AdaptationFollowUp)
    ensures
        f == (AdaptationFollowUp { restart_accelerator: changed, recompute_iterate: changed }),
{
    AdaptationFollowUp { restart_accelerator: changed, recompute_iterate: changed }
}

/// The adaptation limit holds across iterations: if a pending adaptation
/// implies that fewer than `max_adaptions` adaptations were recorded, then
/// after the step an adaptation runs, or stays pending, only in that case.
/// Since the count changes only when an adaptation runs, at most
/// `max_adaptions` adaptations ever run.
pub proof fn lemma_rho_adaptations_bounded(
    due: bool,
    adaptive_rho: bool,
    iter: usize,
    interval: usize,
    time_trigger: bool,
    check_termination: usize,
    n_updates: usize,
    max_adaptions: usize,
    accel_allows: bool,
)
    requires
        n_updates >= 1,
        due ==> n_updates - 1 < max_adaptions,
    ensures
        ({
            let s = rho_schedule(due, adaptive_rho, iter, interval, time_trigger, check_termination, n_updates, max_adaptions, accel_allows);
            &&& s.adapt_now ==> n_updates - 1 < max_adaptions
            &&& s.due ==> n_updates - 1 < max_adaptions
            &&& !(s.adapt_now && s.due)
        }),
{
}

/// A reset followed by the setup of the next solve: after a cold start the
/// next solve seeds rho from the settings again and the KKT system is built
/// with, or updated to, that rho; after a persistent-factorisation reset, a
/// solver that has solved before keeps its adapted rho and (if factored) its
/// factorisation untouched; warm-start resets change nothing, and after a
/// full-state reset an existing accelerator keeps its history; and Ruiz
/// scaling is never repeated once done. Whenever a setup seeds rho, the KKT
/// system receives it.
pub proof fn lemma_reset_then_setup(
    mode: WarmStartMode,
    has_solved: bool,
    scaling_iters: usize,
    is_scaled: bool,
    accelerate: bool,
    has_accelerator: bool,
    kkt_factored: bool,
)
    ensures
        ({
            let r = reset_plan_of(mode);
            let p = setup_plan_of(
                scaling_iters,
                is_scaled,
                has_solved && !r.forget_solved,
                accelerate,
                has_accelerator,
                r.keep_accelerator_history,
                kkt_factored,
            );
            &&& mode == WarmStartMode::ColdStart ==> r.zero_iterates && r.restart_accelerator && p.seed_rho
                && (p.factor || p.refresh_rho)
            &&& mode == WarmStartMode::PersistentFactorization ==> r.zero_iterates && (has_solved ==> !p.seed_rho
                && !p.refresh_rho) && (kkt_factored ==> !p.factor)
            &&& (mode == WarmStartMode::WarmStartSolution || mode == WarmStartMode::WarmStartFullState)
                ==> !r.zero_iterates && !r.forget_solved && !r.restart_accelerator
            &&& mode == WarmStartMode::WarmStartFullState && accelerate && has_accelerator
                ==> p.accelerator == AcceleratorAction::Keep
            &&& mode != WarmStartMode::WarmStartFullState && accelerate && has_accelerator
                ==> p.accelerator == AcceleratorAction::Restart
            &&& p.seed_rho ==> p.factor || p.refresh_rho
            &&& p.refresh_rho ==> p.seed_rho && !p.factor
            &&& is_scaled ==> !p.scale
        }),
{
}

} // verus!
