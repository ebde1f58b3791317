//! Going through the exercises in order, stopping at the first one that
//! is not finished. The caller runs `nargo` and reads the sources; this
//! module decides what to check next and when to stop.

use vstd::prelude::*;

verus! {

/// Where a run over a list of exercises stands.
#[derive(Clone, Copy, Debug, PartialEq, Eq, Structural)]
pub struct VerifyRun {
    /// Index in the list of the next exercise to check.
    pub position: usize,
    /// Length of the list.
    pub count: usize,
    /// Exercises finished so far, over the whole course.
    pub num_done: usize,
    /// Exercises in the whole course.
    pub total: usize,
}

/// What the caller is to do next.
#[derive(Clone, Copy, Debug, PartialEq, Eq, Structural)]
pub enum VerifyAction {
    /// Check the exercise at this index of the list.
    Check(usize),
    /// Every exercise of the list passed.
    Finished,
    /// The exercise at this index did not pass; the run stops there.
    Failed(usize),
}

/// The action that follows from where a run stands.
pub open spec fn next_action(run: VerifyRun) -> VerifyAction {
    if run.position < run.count {
        VerifyAction::Check(run.position)
    } else {
        VerifyAction::Finished
    }
}

/// The run after the current exercise passed.
pub open spec fn advanced(run: VerifyRun) -> VerifyRun {
    VerifyRun {
        position: (run.position + 1) as usize,
        num_done: (run.num_done + 1) as usize,
        ..run
    }
}

/// The action after the current exercise was checked.
pub open spec fn action_after(run: VerifyRun, passed: bool) -> VerifyAction {
    if passed {
        next_action(advanced(run))
    } else {
        VerifyAction::Failed(run.position)
    }
}

/// The run and action reached by checking the exercises of the list in
/// order, `passes[k]` telling whether exercise `k` passes.
pub open spec fn drive(run: VerifyRun, passes: Seq<bool>) -> (VerifyRun, VerifyAction)
    decreases run.count - run.position,
{
    if run.position < run.count && run.position < passes.len() {
        if passes[run.position as int] {
            drive(advanced(run), passes)
        } else {
            (run, VerifyAction::Failed(run.position))
        }
    } else {
        (run, next_action(run))
    }
}

/// The first exercise that does not pass, if any.
pub open spec fn first_failure(passes: Seq<bool>, i: int) -> bool {
    &&& 0 <= i < passes.len()
    &&& !passes[i]
    &&& forall|j: int| 0 <= j < i ==> #[trigger] passes[j]
}

impl VerifyRun {
    /// Starts a run over a list of `count` exercises, `progress` being
    /// (exercises done so far, exercises in the course).
    pub fn new(count: usize, progress: (usize, usize)) -> (run: VerifyRun)
        ensures
            run == (VerifyRun { position: 0, count, num_done: progress.0, total: progress.1 }),
    {
        VerifyRun { position: 0, count, num_done: progress.0, total: progress.1 }
    }

    /// What to do next.
    pub fn next_action(&self) -> (action: VerifyAction)
        ensures
            action == next_action(*self),
            self.position < self.count ==> action == VerifyAction::Check(self.position),
            self.position >= self.count ==> action == VerifyAction::Finished,
    {
        if self.position < self.count {
            VerifyAction::Check(self.position)
        } else {
            VerifyAction::Finished
        }
    }

    /// Records whether the exercise just checked passed: on a pass the run
    /// moves to the next exercise and counts one more done; otherwise it
    /// stops at this exercise.
    pub fn record(&mut self, passed: bool) -> (action: VerifyAction)
        requires
            old(self).position < old(self).count,
            passed ==> old(self).num_done < usize::MAX,
        ensures
            *final(self) == (if passed { advanced(*old(self)) } else { *old(self) }),
            action == action_after(*old(self), passed),
            !passed ==> action == VerifyAction::Failed(old(self).position),
            passed ==> final(self).position == old(self).position + 1,
            passed ==> final(self).num_done == old(self).num_done + 1,
            final(self).count == old(self).count && final(self).total == old(self).total,
            passed && old(self).position + 1 < old(self).count ==> action == VerifyAction::Check(
                (old(self).position + 1) as usize,
            ),
            passed && old(self).position + 1 >= old(self).count ==> action == VerifyAction::Finished,
    {
        if passed {
            self.position = self.position + 1;
            self.num_done = self.num_done + 1;
            self.next_action()
        } else {
            VerifyAction::Failed(self.position)
        }
    }
}

/// Whatever the counts of done exercises say, a run checks the next
/// exercise of its list as long as one is left, and finishes only when
/// none is; a pass moves it one exercise further and a failure stops it
/// at the exercise that failed.
pub proof fn lemma_next_action_follows_list(run: VerifyRun)
    ensures
        run.position < run.count ==> next_action(run) == VerifyAction::Check(run.position),
        run.position >= run.count ==> next_action(run) == VerifyAction::Finished,
        action_after(run, false) == VerifyAction::Failed(run.position),
        run.position + 1 < run.count && run.num_done < usize::MAX
            ==> action_after(run, true) == VerifyAction::Check((run.position + 1) as usize),
        run.position + 1 >= run.count && run.position < run.count && run.num_done < usize::MAX
            ==> action_after(run, true) == VerifyAction::Finished,
{
}

/// A run over a list stops at the first exercise that does not pass, and
/// finishes only if all of them pass; each exercise passed counts once.
pub proof fn lemma_verify_stops_at_first_failure(run: VerifyRun, passes: Seq<bool>)
    requires
        run.position <= run.count,
        passes.len() == run.count,
        run.num_done + run.count - run.position <= usize::MAX,
        forall|j: int| 0 <= j < run.position ==> #[trigger] passes[j],
    ensures
        ({
            let (end, action) = drive(run, passes);
            &&& (forall|i: int| !first_failure(passes, i)) ==> {
                &&& action == VerifyAction::Finished
                &&& end.num_done == run.num_done + run.count - run.position
            }
            &&& forall|i: int| first_failure(passes, i) ==> {
                &&& action == VerifyAction::Failed(i as usize)
                &&& end.position == i
                &&& end.num_done == run.num_done + i - run.position
            }
        }),
    decreases run.count - run.position,
{
    if run.position < run.count {
        let p = run.position as int;
        if passes[p] {
            lemma_verify_stops_at_first_failure(advanced(run), passes);
            assert forall|i: int| first_failure(passes, i) implies i > p by {
                if i <= p {
                    if i < p {
                    }
                }
            }
        } else {
            assert(first_failure(passes, p));
            assert forall|i: int| first_failure(passes, i) implies i == p by {
                if i < p {
                } else if i > p {
                    assert(passes[p]);
                }
            }
        }
    } else {
        assert forall|i: int| !first_failure(passes, i) by {
            if first_failure(passes, i) {
                assert(passes[i]);
            }
        }
    }
}

/// Checking one exercise at a time with `record` follows `drive`.
pub proof fn lemma_record_follows_drive(run: VerifyRun, passed: bool, passes: Seq<bool>)
    requires
        run.position < run.count,
        run.position < passes.len(),
        passes[run.position as int] == passed,
    ensures
        passed ==> drive(run, passes) == drive(advanced(run), passes),
        !passed ==> drive(run, passes) == (run, action_after(run, passed)),
{
}

} // verus!
