//! Memory bookkeeping of the Type-II Anderson accelerator (restarted memory).
//!
//! The accelerator keeps up to `mem` difference columns of the ADMM operator
//! history. Which column is written next, when the history is restarted and
//! whether enough history exists to attempt an acceleration are decided here;
//! the QR update and the least-squares solve are numerical.

use vstd::prelude::*;

verus! {

/// Integer state of the Anderson accelerator.
#[derive(Clone, Debug)]
pub struct AndersonAccelerator {
    /// True until the first operator output has been recorded.
    pub init_phase: bool,
    /// Maximum number of stored difference columns.
    pub mem: usize,
    /// Minimum number of stored columns before an acceleration is attempted.
    pub min_mem: usize,
    /// Length of the accelerated vector.
    pub dim: usize,
    /// Number of columns stored since the last restart of the history.
    pub iter: usize,
    /// Whether the last acceleration attempt produced an accepted candidate.
    pub success: bool,
}

pub open spec fn max_usize(a: usize, b: usize) -> usize {
    if a >= b { a } else { b }
}

pub open spec fn min_usize(a: usize, b: usize) -> usize {
    if a <= b { a } else { b }
}

impl AndersonAccelerator {
    /// `2 <= min_mem <= mem <= max(dim, 2)` and at most `mem` columns stored.
    pub open spec fn wf(&self) -> bool {
        &&& 2 <= self.min_mem <= self.mem
        &&& self.mem <= max_usize(self.dim, 2)
        &&& self.iter <= self.mem
    }

    /// Number of stored columns an acceleration would use.
    pub open spec fn spec_in_use(&self) -> usize {
        min_usize(self.iter, self.mem)
    }

    /// The state after recording one operator output, and the column written
    /// (none for the first output after a restart).
    pub open spec fn spec_update(&self) -> (AndersonAccelerator, Option<usize>) {
        if self.init_phase {
            (AndersonAccelerator { init_phase: false, ..*self }, None)
        } else {
            let j: usize = if self.iter == self.mem { 0 } else { self.iter };
            (AndersonAccelerator { iter: (j + 1) as usize, ..*self }, Some(j))
        }
    }

    /// A fresh accelerator; `mem` is clamped to `[2, max(dim, 2)]` and
    /// `min_mem` to `[2, mem]`.
    pub fn new(dim: usize, mem: usize, min_mem: usize) -> (a: Self)
        ensures
            a.wf(),
            a.dim == dim,
            a.mem == min_usize(max_usize(mem, 2), max_usize(dim, 2)),
            a.min_mem == min_usize(max_usize(min_mem, 2), a.mem),
            a.init_phase,
            a.iter == 0,
            !a.success,
    {
        let dim2 = if dim >= 2 { dim } else { 2 };
        let mem2 = if mem >= 2 { mem } else { 2 };
        let mem = if mem2 <= dim2 { mem2 } else { dim2 };
        let min2 = if min_mem >= 2 { min_mem } else { 2 };
        let min_mem = if min2 <= mem { min2 } else { mem };
        AndersonAccelerator { init_phase: true, mem, min_mem, dim, iter: 0, success: false }
    }

    /// Forget the stored history.
    pub fn restart(&mut self)
        requires
            old(self).wf(),
        ensures
            final(self).wf(),
            *final(self) == (AndersonAccelerator {
                init_phase: true,
                iter: 0,
                success: false,
                ..*old(self)
            }),
    {
        self.iter = 0;
        self.init_phase = true;
        self.success = false;
    }

    pub fn was_successful(&self) -> (r: bool)
        ensures
            r == self.success,
    {
        self.success
    }

    /// Record one operator output; returns the history column that receives
    /// the new difference, or `None` for the first output after a restart.
    /// When all `mem` columns are in use the history restarts at column 0.
    pub fn update(&mut self) -> (col: Option<usize>)
        requires
            old(self).wf(),
        ensures
            final(self).wf(),
            (*final(self), col) == old(self).spec_update(),
            col matches Some(j) ==> j < final(self).mem,
    {
        if self.init_phase {
            self.init_phase = false;
            return None;
        }
        proof {
            if self.iter < self.mem {
                vstd::arithmetic::div_mod::lemma_small_mod(self.iter as nat, self.mem as nat);
            } else {
                vstd::arithmetic::div_mod::lemma_mod_self_0(self.mem as int);
            }
            vstd::arithmetic::div_mod::lemma_small_mod(0, self.mem as nat);
        }
        let mut j = self.iter % self.mem;
        if j == 0 && self.iter != 0 {
            self.iter = 0;
        }
        j = self.iter % self.mem;
        self.iter = self.iter + 1;
        Some(j)
    }

    /// Start an acceleration attempt: clears the success flag and returns the
    /// number of stored columns to use, or `None` when fewer than `min_mem`
    /// are stored (no attempt is made).
    pub fn begin_accelerate(&mut self) -> (l: Option<usize>)
        requires
            old(self).wf(),
        ensures
            *final(self) == (AndersonAccelerator { success: false, ..*old(self) }),
            l == (if old(self).spec_in_use() < old(self).min_mem {
                None
            } else {
                Some(old(self).spec_in_use())
            }),
    {
        self.success = false;
        let l = if self.iter <= self.mem { self.iter } else { self.mem };
        if l < self.min_mem {
            None
        } else {
            Some(l)
        }
    }

    /// Record whether the candidate of the current attempt was accepted.
    pub fn finish_accelerate(&mut self, accepted: bool)
        ensures
            *final(self) == (AndersonAccelerator { success: accepted, ..*old(self) }),
    {
        self.success = accepted;
    }
}

/// Rho adaptation and a pending infeasibility check wait while the last
/// acceleration attempt was accepted; without an accelerator they never wait.
pub fn allows_update(acc: Option<&AndersonAccelerator>) -> (r: bool)
    ensures
        r <==> match acc {
            Some(a) => !a.success,
            None => true,
        },
{
    match acc {
        Some(a) => !a.was_successful(),
        None => true,
    }
}

/// The state after `k` recorded operator outputs.
pub open spec fn updates(a: AndersonAccelerator, k: nat) -> AndersonAccelerator
    decreases k,
{
    if k == 0 {
        a
    } else {
        updates(a, (k - 1) as nat).spec_update().0
    }
}

/// Restarted memory, first part: after a restart, the `k`-th recorded output
/// (for `1 <= k <= mem + 1`) leaves `k - 1` columns in use, so an acceleration
/// is attempted only once `min_mem + 1` outputs have been recorded.
pub proof fn lemma_history_after_restart(a: AndersonAccelerator, k: nat)
    requires
        a.wf(),
        a.init_phase,
        a.iter == 0,
        1 <= k <= a.mem + 1,
    ensures
        updates(a, k).wf(),
        !updates(a, k).init_phase,
        updates(a, k).iter == k - 1,
        updates(a, k).spec_in_use() == k - 1,
        updates(a, k).mem == a.mem && updates(a, k).min_mem == a.min_mem,
    decreases k,
{
    assert(updates(a, 0) == a);
    if k > 1 {
        lemma_history_after_restart(a, (k - 1) as nat);
    }
    assert(updates(a, k) == updates(a, (k - 1) as nat).spec_update().0);
}

/// Restarted memory, second part: when all `mem` columns are in use, the next
/// recorded output goes to column 0 and leaves a single column in use, so no
/// acceleration is attempted right after the wrap.
pub proof fn lemma_history_wraps(a: AndersonAccelerator)
    requires
        a.wf(),
        !a.init_phase,
        a.iter == a.mem,
    ensures
        a.spec_update().1 == Some(0usize),
        a.spec_update().0.iter == 1,
        a.spec_update().0.spec_in_use() < a.spec_update().0.min_mem,
{
}

} // verus!
