//! Command execution policies.
//!
//! The surrounding binary spawns one shell per target directory and reports
//! each outcome back as an [`ExecutionResult`]. The library fixes the two
//! policies. [`SequentialRun`] is the fail-fast plan: targets are offered
//! strictly in resolved order and a failing target closes the plan, so no
//! later target is ever attempted. [`ParallelRun`] is the fail-safe report:
//! results are accepted in any completion order, a failure never prevents
//! further results from being recorded, and the overall verdict is computed
//! only from the complete result set.

use vstd::prelude::*;

use crate::matching::views;

verus! {

/// The outcome of running the command in one target directory.
pub struct ExecutionResult {
    pub directory: String,
    pub exit_status: i32,
    pub stdout: String,
    pub stderr: String,
    pub succeeded: bool,
}

impl ExecutionResult {
    /// The success flag agrees with the exit status.
    pub open spec fn wf(self) -> bool {
        self.succeeded == (self.exit_status == 0)
    }

    /// Record one target's outcome; the target succeeded exactly when the
    /// command exited with status zero.
    pub fn new(directory: String, exit_status: i32, stdout: String, stderr: String) -> (r: Self)
        ensures
            r.directory == directory,
            r.exit_status == exit_status,
            r.stdout == stdout,
            r.stderr == stderr,
            r.succeeded == (exit_status == 0),
            r.wf(),
    {
        let succeeded = exit_status == 0;
        ExecutionResult { directory, exit_status, stdout, stderr, succeeded }
    }
}

/// Every recorded result succeeded.
pub open spec fn all_succeeded(results: Seq<ExecutionResult>) -> bool {
    forall|i: int| 0 <= i < results.len() ==> results[i].succeeded
}

/// Some result in `results` names the directory `dir`.
pub open spec fn has_result_for(results: Seq<ExecutionResult>, dir: Seq<char>) -> bool {
    exists|j: int| 0 <= j < results.len() && (#[trigger] results[j]).directory@ == dir
}

/// Every target has a result that names it.
pub open spec fn covers(targets: Seq<Seq<char>>, results: Seq<ExecutionResult>) -> bool {
    forall|i: int| 0 <= i < targets.len() ==> has_result_for(results, #[trigger] targets[i])
}

/// The overall verdict over a full report: success exactly when every
/// recorded result succeeded.
pub fn aggregate_success(results: &Vec<ExecutionResult>) -> (ok: bool)
    ensures
        ok == all_succeeded(results@),
{
    let n: usize = results.len();
    let mut i: usize = 0;
    while i < n
        invariant
            n == results@.len(),
            i <= n,
            forall|k: int| 0 <= k < i ==> results@[k].succeeded,
        decreases n - i,
    {
        if !results[i].succeeded {
            return false;
        }
        i = i + 1;
    }
    true
}

/// Whether every target in `targets` has a result in `results` that names
/// it, so a caller can tell a complete report from a truncated one.
pub fn report_covers(targets: &Vec<String>, results: &Vec<ExecutionResult>) -> (r: bool)
    ensures
        r == covers(views(targets@), results@),
{
    let n: usize = targets.len();
    let m: usize = results.len();
    let mut i: usize = 0;
    while i < n
        invariant
            n == targets@.len(),
            m == results@.len(),
            i <= n,
            forall|k: int| 0 <= k < i ==> has_result_for(results@, #[trigger] views(targets@)[k]),
        decreases n - i,
    {
        let t = &targets[i];
        assert(views(targets@)[i as int] == t@);
        let mut j: usize = 0;
        let mut found: bool = false;
        while j < m
            invariant
                m == results@.len(),
                j <= m,
                found ==> has_result_for(results@, t@),
                !found ==> forall|q: int|
                    0 <= q < j ==> (#[trigger] results@[q]).directory@ != t@,
            decreases m - j,
        {
            if !found && results[j].directory.eq(t) {
                assert(has_result_for(results@, t@));
                found = true;
            }
            j = j + 1;
        }
        if !found {
            assert(!has_result_for(results@, views(targets@)[i as int]));
            return false;
        }
        i = i + 1;
    }
    assert(views(targets@).len() == n);
    true
}

/// The sequential, fail-fast execution plan.
///
/// Targets are offered strictly in order; recording a failed result closes
/// the plan. Well-formedness pins the fail-fast shape: at most the last
/// recorded result may be a failure.
pub struct SequentialRun {
    pub targets: Vec<String>,
    pub results: Vec<ExecutionResult>,
    pub failed: bool,
}

impl SequentialRun {
    pub open spec fn wf(self) -> bool {
        &&& self.results@.len() <= self.targets@.len()
        &&& forall|i: int|
            0 <= i < self.results@.len() ==> (#[trigger] self.results@[i]).wf()
                && self.results@[i].directory@ == self.targets@[i]@
        &&& forall|i: int| 0 <= i < self.results@.len() - 1 ==> self.results@[i].succeeded
        &&& self.failed == !all_succeeded(self.results@)
    }

    /// The index of the target the plan offers next, if any: the plan is
    /// closed once it has failed or every target is done.
    pub open spec fn spec_next(self) -> Option<int> {
        if self.failed || self.results@.len() == self.targets@.len() {
            None
        } else {
            Some(self.results@.len() as int)
        }
    }

    /// Success of the whole run: the plan reached the end of the target
    /// list and every recorded result succeeded.
    pub open spec fn spec_overall(self) -> bool {
        !self.failed && self.results@.len() == self.targets@.len()
    }

    /// A fresh plan over the resolved targets, in their resolved order.
    pub fn new(targets: Vec<String>) -> (s: Self)
        ensures
            s.wf(),
            s.targets == targets,
            s.results@.len() == 0,
            !s.failed,
    {
        SequentialRun { targets, results: Vec::new(), failed: false }
    }

    /// The next target to run the command in, or `None` when the plan is
    /// finished or a previous target failed (fail-fast: nothing further is
    /// attempted).
    pub fn next_target(&self) -> (t: Option<String>)
        requires
            self.wf(),
        ensures
            match t {
                Some(s) => self.spec_next() == Some(self.results@.len() as int) && s@
                    == self.targets@[self.results@.len() as int]@,
                None => self.spec_next() is None,
            },
    {
        if self.failed || self.results.len() == self.targets.len() {
            None
        } else {
            Some(self.targets[self.results.len()].clone())
        }
    }

    /// Record the outcome of the target the plan offered; a failure closes
    /// the plan.
    pub fn record(&mut self, res: ExecutionResult)
        requires
            old(self).wf(),
            !old(self).failed,
            old(self).results@.len() < old(self).targets@.len(),
            res.wf(),
            res.directory@ == old(self).targets@[old(self).results@.len() as int]@,
        ensures
            final(self).wf(),
            final(self).targets == old(self).targets,
            final(self).results@ == old(self).results@.push(res),
            final(self).failed == !res.succeeded,
    {
        let succeeded = res.succeeded;
        self.results.push(res);
        if !succeeded {
            self.failed = true;
        }
        proof {
            assert(all_succeeded(old(self).results@));
            if succeeded {
                assert(all_succeeded(self.results@)) by {
                    assert(forall|i: int|
                        0 <= i < self.results@.len() - 1 ==> self.results@[i]
                            == old(self).results@[i]);
                }
            } else {
                assert(!self.results@[self.results@.len() - 1].succeeded);
            }
        }
    }

    /// Whether the plan has finished: either every target was attempted or
    /// a failure closed it.
    pub fn is_finished(&self) -> (r: bool)
        requires
            self.wf(),
        ensures
            r == (self.spec_next() is None),
    {
        self.failed || self.results.len() == self.targets.len()
    }

    /// The overall verdict of a sequential run: success exactly when every
    /// target was attempted and every one succeeded.
    pub fn overall_success(&self) -> (r: bool)
        requires
            self.wf(),
        ensures
            r == self.spec_overall(),
    {
        !self.failed && self.results.len() == self.targets.len()
    }
}

/// The parallel, fail-safe report.
///
/// Results arrive in completion order, not target order. Recording a failed
/// result never closes the report: every dispatched target can still report
/// back, and the verdict is computed only from the complete result set.
pub struct ParallelRun {
    pub expected: usize,
    pub results: Vec<ExecutionResult>,
}

impl ParallelRun {
    pub open spec fn wf(self) -> bool {
        &&& self.results@.len() <= self.expected
        &&& forall|i: int| 0 <= i < self.results@.len() ==> (#[trigger] self.results@[i]).wf()
    }

    /// The report still awaits results; this depends only on the count of
    /// recorded results, never on their status.
    pub open spec fn spec_open(self) -> bool {
        self.results@.len() < self.expected
    }

    /// The overall verdict over the complete report.
    pub open spec fn spec_overall(self) -> bool {
        !self.spec_open() && all_succeeded(self.results@)
    }

    /// A fresh report awaiting one result per dispatched target.
    pub fn new(expected: usize) -> (r: Self)
        ensures
            r.wf(),
            r.expected == expected,
            r.results@.len() == 0,
    {
        ParallelRun { expected, results: Vec::new() }
    }

    /// Record one target's outcome. Unlike the sequential plan, a failed
    /// result is accepted like any other and no prior record is discarded:
    /// the report stays open for the targets still running.
    pub fn record(&mut self, res: ExecutionResult)
        requires
            old(self).wf(),
            old(self).spec_open(),
            res.wf(),
        ensures
            final(self).wf(),
            final(self).expected == old(self).expected,
            final(self).results@ == old(self).results@.push(res),
            final(self).spec_open() == (final(self).results@.len() < final(self).expected),
    {
        self.results.push(res);
    }

    /// Whether every dispatched target has reported back.
    pub fn is_complete(&self) -> (r: bool)
        requires
            self.wf(),
        ensures
            r == !self.spec_open(),
    {
        self.results.len() == self.expected
    }

    /// The overall verdict of a parallel run, decided only once the report
    /// is complete: success exactly when every target succeeded.
    pub fn overall_success(&self) -> (r: bool)
        requires
            self.wf(),
            !self.spec_open(),
        ensures
            r == self.spec_overall(),
    {
        aggregate_success(&self.results)
    }
}

/// Sequential fail-fast: in a well-formed sequential plan that has seen a
/// failure, the failing target is the last one attempted, no further target
/// is offered, and the overall verdict is failure.
pub proof fn lemma_sequential_fail_fast(s: SequentialRun)
    requires
        s.wf(),
        !all_succeeded(s.results@),
    ensures
        s.spec_next() is None,
        !s.spec_overall(),
        forall|i: int| 0 <= i < s.results@.len() - 1 ==> s.results@[i].succeeded,
{
}

/// Parallel fail-safe: a failed record makes the overall verdict a failure,
/// but leaves the report open for every target still running — whether more
/// results are awaited depends only on how many have been recorded, never on
/// a failure among them.
pub proof fn lemma_parallel_fail_safe(r: ParallelRun, k: int)
    requires
        r.wf(),
        0 <= k < r.results@.len(),
        !r.results@[k].succeeded,
    ensures
        !r.spec_overall(),
        r.spec_open() == (r.results@.len() < r.expected),
{
}

/// Zero exit everywhere means overall success: a sequential plan whose every
/// target was attempted and exited with status zero has a success verdict.
pub proof fn lemma_sequential_all_zero_succeeds(s: SequentialRun)
    requires
        s.wf(),
        s.results@.len() == s.targets@.len(),
        forall|i: int| 0 <= i < s.results@.len() ==> (#[trigger] s.results@[i]).exit_status == 0,
    ensures
        s.spec_overall(),
{
}

/// Zero exit everywhere means overall success in parallel mode as well: a
/// complete report of well-formed results that all exited with status zero
/// has a success verdict.
pub proof fn lemma_parallel_all_zero_succeeds(r: ParallelRun)
    requires
        r.wf(),
        !r.spec_open(),
        forall|i: int| 0 <= i < r.results@.len() ==> (#[trigger] r.results@[i]).exit_status == 0,
    ensures
        r.spec_overall(),
{
}

} // verus!
