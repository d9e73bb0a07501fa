//! The join combinator.
//!
//! A join composite holds an ordered sequence of child tasks together
//! with their wake deadlines (the pending set) and their recorded
//! outcomes (the result slots).  One resume call advances every child
//! whose deadline has passed, in child-index order, and either reports
//! the least wake deadline still outstanding or, once every child is
//! terminal, the composite outcome: all values in construction order, or
//! the first failure in child-index order.  Children are never cancelled
//! when a sibling fails.

use vstd::prelude::*;
use crate::outcome::{GError, GOutcome, GValue, Outcome, Resume, TaskError, TaskValue, values_view};
use crate::task::Task;

verus! {

/// One child slot of a join composite.
#[derive(Debug, Clone, PartialEq, Eq)]
pub enum ChildState {
    /// still running; must not be resumed before `deadline`
    Active { task: Task, deadline: u64 },
    /// terminal, with its recorded outcome
    Settled(Outcome),
}

pub open spec fn child_wf(c: ChildState) -> bool {
    match c {
        ChildState::Active { task, .. } => task.wf() && !task.is_terminal(),
        ChildState::Settled(_) => true,
    }
}

/// The outcome this child has reached or is going to reach.
pub open spec fn child_outcome(c: ChildState) -> GOutcome {
    match c {
        ChildState::Active { task, .. } => task.outcome(),
        ChildState::Settled(o) => o@,
    }
}

/// The virtual time at which this child reaches its terminal outcome,
/// when it is resumed exactly at each wake time.
pub open spec fn child_finish(c: ChildState) -> int {
    match c {
        ChildState::Active { task, deadline } => deadline + task.delay(),
        ChildState::Settled(_) => 0,
    }
}

pub open spec fn child_measure(c: ChildState) -> nat {
    match c {
        ChildState::Active { task, .. } => task.pending() + 1,
        ChildState::Settled(_) => 0nat,
    }
}

pub open spec fn child_deadline(c: ChildState) -> int {
    match c {
        ChildState::Active { deadline, .. } => deadline as int,
        ChildState::Settled(_) => 0,
    }
}

/// The child's wake deadline has not been missed.
pub open spec fn child_timely(c: ChildState, now: int) -> bool {
    match c {
        ChildState::Active { deadline, .. } => now <= deadline,
        ChildState::Settled(_) => true,
    }
}

/// The child's wake condition is satisfied.
pub open spec fn child_ready(c: ChildState, now: int) -> bool {
    match c {
        ChildState::Active { deadline, .. } => deadline <= now,
        ChildState::Settled(_) => false,
    }
}

pub open spec fn outcome_error(o: GOutcome) -> GError {
    match o {
        GOutcome::Failed(e) => e,
        GOutcome::Completed(_) => GError::Validation(Seq::empty()),
    }
}

pub open spec fn outcome_value(o: GOutcome) -> GValue {
    match o {
        GOutcome::Completed(v) => v,
        GOutcome::Failed(_) => GValue::Unit,
    }
}

pub open spec fn max2(a: int, b: int) -> int {
    if a > b {
        a
    } else {
        b
    }
}

/// The largest child finish time of `s`.
pub open spec fn max_finish(s: Seq<ChildState>) -> int
    decreases s.len(),
{
    if s.len() == 0 {
        0
    } else {
        max2(max_finish(s.drop_last()), child_finish(s.last()))
    }
}

pub open spec fn sum_measure(s: Seq<ChildState>) -> nat
    decreases s.len(),
{
    if s.len() == 0 {
        0nat
    } else {
        sum_measure(s.drop_last()) + child_measure(s.last())
    }
}

pub open spec fn has_failure_in(s: Seq<ChildState>) -> bool {
    exists|k: int| 0 <= k < s.len() && (#[trigger] child_outcome(s[k])) is Failed
}

/// The error of the first child, in index order from `i` on, whose
/// outcome is a failure.
pub open spec fn first_error_from(s: Seq<ChildState>, i: int) -> GError
    decreases s.len() - i,
{
    if i < 0 || i >= s.len() {
        GError::Validation(Seq::empty())
    } else if child_outcome(s[i]) is Failed {
        outcome_error(child_outcome(s[i]))
    } else {
        first_error_from(s, i + 1)
    }
}

/// Every child's value, in construction order (Unit standing in a slot
/// whose child failed).
pub open spec fn child_values(s: Seq<ChildState>) -> Seq<GValue> {
    s.map_values(|c: ChildState| outcome_value(child_outcome(c)))
}

/// How one resume round at time `now` relates a child slot after (`c2`)
/// to the same slot before (`c1`).
pub open spec fn advanced_from(c2: ChildState, c1: ChildState, now: int) -> bool {
    &&& child_wf(c2)
    &&& child_outcome(c2) == child_outcome(c1)
    &&& child_measure(c2) <= child_measure(c1)
    &&& (child_ready(c1, now) ==> child_measure(c2) < child_measure(c1))
    &&& !child_ready(c2, now)
    &&& (c2 is Active ==> c1 is Active && child_finish(c2) == child_finish(c1))
    &&& (c2 is Settled ==> child_finish(c1) <= now)
    &&& (c1 is Settled ==> c2 == c1)
}

proof fn lemma_child_finish_nonneg(c: ChildState)
    ensures
        child_finish(c) >= 0,
{
}

proof fn lemma_max_finish_nonneg(s: Seq<ChildState>)
    ensures
        max_finish(s) >= 0,
    decreases s.len(),
{
    if s.len() > 0 {
        lemma_max_finish_nonneg(s.drop_last());
        lemma_child_finish_nonneg(s.last());
    }
}

proof fn lemma_max_finish_ge(s: Seq<ChildState>, i: int)
    requires
        0 <= i < s.len(),
    ensures
        child_finish(s[i]) <= max_finish(s),
    decreases s.len(),
{
    if i + 1 < s.len() {
        lemma_max_finish_ge(s.drop_last(), i);
    }
}

/// A resume round keeps the composite finish time, measured against any
/// instant not before `now`.
proof fn lemma_max_finish_advanced(s1: Seq<ChildState>, s2: Seq<ChildState>, now: int)
    requires
        now >= 0,
        s1.len() == s2.len(),
        forall|i: int| 0 <= i < s1.len() ==> advanced_from(#[trigger] s2[i], s1[i], now),
    ensures
        max2(now, max_finish(s2)) == max2(now, max_finish(s1)),
    decreases s1.len(),
{
    if s1.len() > 0 {
        assert forall|i: int| 0 <= i < s1.drop_last().len() implies advanced_from(
            #[trigger] s2.drop_last()[i],
            s1.drop_last()[i],
            now,
        ) by {
            assert(s2.drop_last()[i] == s2[i]);
            assert(s1.drop_last()[i] == s1[i]);
        }
        lemma_max_finish_advanced(s1.drop_last(), s2.drop_last(), now);
        lemma_max_finish_nonneg(s1.drop_last());
        lemma_max_finish_nonneg(s2.drop_last());
        lemma_child_finish_nonneg(s1.last());
        lemma_child_finish_nonneg(s2.last());
        assert(advanced_from(s2.last(), s1.last(), now));
    }
}

proof fn lemma_sum_measure_advanced(s1: Seq<ChildState>, s2: Seq<ChildState>, now: int)
    requires
        s1.len() == s2.len(),
        forall|i: int| 0 <= i < s1.len() ==> advanced_from(#[trigger] s2[i], s1[i], now),
    ensures
        sum_measure(s2) <= sum_measure(s1),
        (exists|i: int| 0 <= i < s1.len() && child_ready(#[trigger] s1[i], now)) ==> sum_measure(
            s2,
        ) < sum_measure(s1),
    decreases s1.len(),
{
    if s1.len() > 0 {
        assert forall|i: int| 0 <= i < s1.drop_last().len() implies advanced_from(
            #[trigger] s2.drop_last()[i],
            s1.drop_last()[i],
            now,
        ) by {
            assert(s2.drop_last()[i] == s2[i]);
            assert(s1.drop_last()[i] == s1[i]);
        }
        lemma_sum_measure_advanced(s1.drop_last(), s2.drop_last(), now);
        assert(advanced_from(s2.last(), s1.last(), now));
        if exists|i: int| 0 <= i < s1.len() && child_ready(#[trigger] s1[i], now) {
            let i = choose|i: int| 0 <= i < s1.len() && child_ready(#[trigger] s1[i], now);
            if i < s1.len() - 1 {
                assert(s1.drop_last()[i] == s1[i]);
                assert(exists|k: int|
                    0 <= k < s1.drop_last().len() && child_ready(
                        #[trigger] s1.drop_last()[k],
                        now,
                    ));
            }
        }
    }
}

proof fn lemma_first_error_pointwise(s1: Seq<ChildState>, s2: Seq<ChildState>, i: int)
    requires
        s1.len() == s2.len(),
        forall|k: int| 0 <= k < s1.len() ==> child_outcome(#[trigger] s2[k]) == child_outcome(
            s1[k],
        ),
        0 <= i <= s1.len(),
    ensures
        first_error_from(s2, i) == first_error_from(s1, i),
    decreases s1.len() - i,
{
    if i < s1.len() {
        lemma_first_error_pointwise(s1, s2, i + 1);
    }
}

/// Locates the first failure: if `fi` is the least failing index, the
/// composite error is child `fi`'s error.
pub(crate) proof fn lemma_first_error_locate(s: Seq<ChildState>, i: int, fi: int)
    requires
        0 <= i <= fi < s.len(),
        child_outcome(s[fi]) is Failed,
        forall|j: int| i <= j < fi ==> !((#[trigger] child_outcome(s[j])) is Failed),
    ensures
        first_error_from(s, i) == outcome_error(child_outcome(s[fi])),
    decreases fi - i,
{
    if i < fi {
        lemma_first_error_locate(s, i + 1, fi);
    }
}

/// The composite result of a join: every child's success value in
/// construction order, or the first failure in child-index order.
#[derive(Debug, Clone, PartialEq, Eq)]
pub enum JoinResult {
    Completed(Vec<TaskValue>),
    Failed(TaskError),
}

/// What one resume round of a join composite reports.
#[derive(Debug, Clone, PartialEq, Eq)]
pub enum JoinStep {
    Suspended(u64),
    Finished(JoinResult),
}

/// A composite task over an ordered sequence of children, each advancing
/// independently between its suspension points.
#[derive(Debug, Clone, PartialEq, Eq)]
pub struct JoinTask {
    pub children: Vec<ChildState>,
    pub finished: bool,
}

impl JoinTask {
    pub open spec fn wf(self) -> bool {
        forall|i: int| 0 <= i < self.children@.len() ==> child_wf(#[trigger] self.children@[i])
    }

    /// No child's wake deadline has been missed.
    pub open spec fn timely(self, now: int) -> bool {
        forall|i: int|
            0 <= i < self.children@.len() ==> child_timely(#[trigger] self.children@[i], now)
    }

    pub open spec fn all_settled(self) -> bool {
        forall|i: int| 0 <= i < self.children@.len() ==> (#[trigger] self.children@[i]) is Settled
    }

    /// Some child may be resumed at `now`, or nothing is left to resume.
    pub open spec fn ready(self, now: int) -> bool {
        self.all_settled() || exists|i: int|
            0 <= i < self.children@.len() && child_ready(#[trigger] self.children@[i], now)
    }

    /// Every child finish time fits under `bound`.
    pub open spec fn fits(self, bound: int) -> bool {
        forall|i: int| 0 <= i < self.children@.len() ==> child_finish(#[trigger] self.children@[i]) <= bound
    }

    /// The virtual time at which the whole composite is terminal, seen
    /// from instant `now`.
    pub open spec fn finish(self, now: int) -> int {
        max2(now, max_finish(self.children@))
    }

    pub open spec fn measure(self) -> nat {
        sum_measure(self.children@)
    }

    pub open spec fn has_failure(self) -> bool {
        has_failure_in(self.children@)
    }

    pub open spec fn first_error(self) -> GError {
        first_error_from(self.children@, 0)
    }

    pub open spec fn values(self) -> Seq<GValue> {
        child_values(self.children@)
    }
}

/// Advances one child slot past `now`: resumes it, in order, as long as
/// its wake condition is satisfied, recording its outcome if it ends.
fn advance_child(c: ChildState, now: u64) -> (r: ChildState)
    requires
        child_wf(c),
        child_timely(c, now as int),
        child_finish(c) <= u64::MAX as int,
    ensures
        advanced_from(r, c, now as int),
        child_timely(r, now as int),
        child_finish(r) <= u64::MAX as int,
{
    let mut cur = c;
    let ghost mut resumed: bool = false;
    loop
        invariant
            child_wf(cur),
            child_timely(cur, now as int),
            child_finish(cur) <= u64::MAX as int,
            child_outcome(cur) == child_outcome(c),
            child_measure(cur) <= child_measure(c),
            resumed ==> child_measure(cur) < child_measure(c),
            !resumed ==> cur == c,
            cur is Active ==> c is Active && child_finish(cur) == child_finish(c),
            cur is Settled && c is Active ==> child_finish(c) <= now as int,
        decreases child_measure(cur),
    {
        match cur {
            ChildState::Active { mut task, deadline } => {
                if deadline <= now {
                    match task.resume() {
                        Resume::Suspended(d) => {
                            cur = ChildState::Active { task, deadline: now + d };
                        },
                        Resume::Completed(v) => {
                            cur = ChildState::Settled(Outcome::Completed(v));
                        },
                        Resume::Failed(e) => {
                            cur = ChildState::Settled(Outcome::Failed(e));
                        },
                    }
                    proof {
                        resumed = true;
                    }
                } else {
                    return ChildState::Active { task, deadline };
                }
            },
            ChildState::Settled(o) => {
                return ChildState::Settled(o);
            },
        }
    }
}

impl JoinTask {
    /// One resume round at virtual time `now`.
    ///
    /// Advances every child whose wake condition is satisfied, in
    /// child-index order, then reports either the delay until the least
    /// outstanding wake deadline or, once all children are terminal, the
    /// composite result.  The round never touches the composite finish
    /// time, the composite outcome, or a sibling's captured state.
    pub fn resume(&mut self, now: u64) -> (r: JoinStep)
        requires
            old(self).wf(),
            !old(self).finished,
            old(self).timely(now as int),
            old(self).ready(now as int),
            old(self).fits(u64::MAX as int),
        ensures
            match r {
                JoinStep::Suspended(d) => {
                    &&& final(self).wf()
                    &&& !final(self).finished
                    &&& 0 < d
                    &&& now + d <= u64::MAX
                    &&& final(self).timely(now + d)
                    &&& final(self).ready(now + d)
                    &&& final(self).fits(u64::MAX as int)
                    &&& final(self).finish(now + d) == old(self).finish(now as int)
                    &&& final(self).has_failure() == old(self).has_failure()
                    &&& final(self).first_error() == old(self).first_error()
                    &&& final(self).values() == old(self).values()
                    &&& final(self).measure() < old(self).measure()
                },
                JoinStep::Finished(res) => {
                    &&& final(self).finished
                    &&& now == old(self).finish(now as int)
                    &&& match res {
                        JoinResult::Completed(vs) => !old(self).has_failure() && values_view(vs@)
                            == old(self).values(),
                        JoinResult::Failed(e) => old(self).has_failure() && e@ == old(
                            self,
                        ).first_error(),
                    }
                },
            },
    {
        let ghost orig: Seq<ChildState> = self.children@;

        // advance every ready child past `now`, in index order
        let mut advanced: Vec<ChildState> = Vec::new();
        while self.children.len() > 0
            invariant
                !self.finished,
                advanced@.len() + self.children@.len() == orig.len(),
                forall|i: int|
                    0 <= i < advanced@.len() ==> advanced_from(
                        #[trigger] advanced@[i],
                        orig[i],
                        now as int,
                    ) && child_timely(advanced@[i], now as int) && child_finish(advanced@[i])
                        <= u64::MAX as int,
                forall|i: int|
                    0 <= i < self.children@.len() ==> #[trigger] self.children@[i] == orig[advanced@.len() + i],
                forall|i: int|
                    0 <= i < orig.len() ==> child_wf(#[trigger] orig[i]) && child_timely(
                        orig[i],
                        now as int,
                    ) && child_finish(orig[i]) <= u64::MAX as int,
            decreases self.children@.len(),
        {
            let c = self.children.remove(0);
            assert(c == orig[advanced@.len() as int]);
            let c2 = advance_child(c, now);
            advanced.push(c2);
        }
        self.children = advanced;

        let ghost cur: Seq<ChildState> = self.children@;
        proof {
            assert(cur.len() == orig.len());
            assert forall|k: int| 0 <= k < orig.len() implies child_outcome(
                #[trigger] cur[k],
            ) == child_outcome(orig[k]) by {
                assert(advanced_from(cur[k], orig[k], now as int));
            }
            lemma_first_error_pointwise(orig, cur, 0);
            assert(child_values(cur) =~= child_values(orig));
            if has_failure_in(orig) {
                let k = choose|k: int|
                    0 <= k < orig.len() && (#[trigger] child_outcome(orig[k])) is Failed;
                assert(child_outcome(cur[k]) is Failed);
                assert(has_failure_in(cur));
            }
            if has_failure_in(cur) {
                let k = choose|k: int|
                    0 <= k < cur.len() && (#[trigger] child_outcome(cur[k])) is Failed;
                assert(child_outcome(orig[k]) is Failed);
                assert(has_failure_in(orig));
            }
            lemma_max_finish_advanced(orig, cur, now as int);
        }

        // find whether any child is still active, and the least deadline
        let mut any_active = false;
        let mut min_dl: u64 = 0;
        let ghost mut min_idx: int = 0;
        let mut k: usize = 0;
        while k < self.children.len()
            invariant
                self.children@ == cur,
                k <= cur.len(),
                any_active ==> 0 <= min_idx < k && cur[min_idx] is Active && child_deadline(
                    cur[min_idx],
                ) == min_dl,
                any_active ==> forall|i: int|
                    0 <= i < k && (#[trigger] cur[i]) is Active ==> min_dl <= child_deadline(
                        cur[i],
                    ),
                !any_active ==> forall|i: int| 0 <= i < k ==> (#[trigger] cur[i]) is Settled,
            decreases cur.len() - k,
        {
            match &self.children[k] {
                ChildState::Active { deadline, .. } => {
                    if !any_active || *deadline < min_dl {
                        min_dl = *deadline;
                        proof {
                            min_idx = k as int;
                        }
                    }
                    any_active = true;
                },
                ChildState::Settled(_) => {},
            }
            k = k + 1;
        }

        if any_active {
            proof {
                assert(advanced_from(cur[min_idx], orig[min_idx], now as int));
                assert(!child_ready(cur[min_idx], now as int));
                assert(min_dl > now);
                lemma_max_finish_ge(cur, min_idx);
                lemma_child_finish_nonneg(cur[min_idx]);
                // the composite's own wake condition is the least deadline
                assert(child_finish(cur[min_idx]) <= u64::MAX as int);
                assert(child_finish(cur[min_idx]) >= min_dl);
                // measure strictly decreases: some child was ready at `now`
                if old(self).all_settled() {
                    assert(orig[min_idx] is Settled);
                    assert(cur[min_idx] == orig[min_idx]);
                    assert(false);
                }
                assert(exists|i: int|
                    0 <= i < orig.len() && child_ready(#[trigger] orig[i], now as int));
                lemma_sum_measure_advanced(orig, cur, now as int);
                assert(sum_measure(cur) < sum_measure(orig));
            }
            let d = min_dl - now;
            proof {
                // the new instant does not pass any wake deadline
                assert forall|i: int| 0 <= i < cur.len() implies child_timely(
                    #[trigger] cur[i],
                    min_dl as int,
                ) by {
                    if cur[i] is Active {
                        assert(min_dl <= child_deadline(cur[i]));
                    }
                }
                // the child holding the least deadline is ready again then
                assert(child_ready(cur[min_idx], min_dl as int));
                // the composite finish time is kept
                assert(max_finish(cur) >= child_finish(cur[min_idx]));
                assert(max2(now + d, max_finish(cur)) == max2(now as int, max_finish(cur)));
            }
            return JoinStep::Suspended(d);
        }

        // every child is terminal: assemble the composite result
        proof {
            assert forall|i: int| 0 <= i < cur.len() implies (#[trigger] cur[i]) is Settled by {}
            lemma_max_finish_nonneg(cur);
            assert forall|i: int| 0 <= i < cur.len() implies child_finish(#[trigger] cur[i])
                <= now as int by {
                assert(advanced_from(cur[i], orig[i], now as int));
            }
            assert forall|i: int| 0 <= i < cur.len() implies child_finish(#[trigger] cur[i])
                == 0 by {}
            lemma_max_finish_all_settled(cur);
            assert forall|i: int| 0 <= i < orig.len() implies child_finish(#[trigger] orig[i])
                <= now as int by {
                assert(advanced_from(cur[i], orig[i], now as int));
                if orig[i] is Settled {
                    lemma_child_finish_nonneg(orig[i]);
                }
            }
            lemma_max_finish_le(orig, now as int);
        }
        let ghost settled: Seq<ChildState> = self.children@;
        let mut values: Vec<TaskValue> = Vec::new();
        let mut first_err: Option<TaskError> = None;
        let ghost mut err_idx: int = 0;
        while self.children.len() > 0
            invariant
                values@.len() + self.children@.len() == settled.len(),
                !self.finished,
                forall|i: int|
                    0 <= i < self.children@.len() ==> #[trigger] self.children@[i] == settled[values@.len() + i],
                forall|i: int| 0 <= i < settled.len() ==> (#[trigger] settled[i]) is Settled,
                values_view(values@) == child_values(settled.take(values@.len() as int)),
                match first_err {
                    Option::None => forall|i: int|
                        0 <= i < values@.len() ==> !((#[trigger] child_outcome(
                            settled[i],
                        )) is Failed),
                    Option::Some(e) => 0 <= err_idx < values@.len() && child_outcome(
                        settled[err_idx],
                    ) is Failed && e@ == outcome_error(child_outcome(settled[err_idx]))
                        && forall|i: int|
                        0 <= i < err_idx ==> !((#[trigger] child_outcome(settled[i])) is Failed),
                },
            decreases self.children@.len(),
        {
            let ghost pos: int = values@.len() as int;
            let ghost prev: Seq<TaskValue> = values@;
            let c = self.children.remove(0);
            assert(c == settled[pos]);
            match c {
                ChildState::Settled(o) => {
                    match o {
                        Outcome::Completed(v) => {
                            values.push(v);
                        },
                        Outcome::Failed(e) => {
                            if first_err.is_none() {
                                proof {
                                    err_idx = pos;
                                }
                                first_err = Some(e);
                            }
                            values.push(TaskValue::Unit);
                        },
                    }
                },
                ChildState::Active { .. } => {
                    proof {
                        assert(false);
                    }
                },
            }
            proof {
                assert(values@.len() == pos + 1);
                assert forall|i: int| 0 <= i < pos + 1 implies values_view(values@)[i]
                    == child_values(settled.take(pos + 1))[i] by {
                    assert(settled.take(pos + 1)[i] == settled[i]);
                    if i < pos {
                        assert(values@[i] == prev[i]);
                        assert(values_view(prev)[i] == child_values(settled.take(pos))[i]);
                        assert(settled.take(pos)[i] == settled[i]);
                    }
                }
                assert(values_view(values@) =~= child_values(settled.take(pos + 1)));
            }
        }
        self.finished = true;
        proof {
            assert(settled.take(settled.len() as int) =~= settled);
        }
        match first_err {
            Option::None => {
                proof {
                    if has_failure_in(settled) {
                        let k = choose|k: int|
                            0 <= k < settled.len() && (#[trigger] child_outcome(
                                settled[k],
                            )) is Failed;
                        assert(false);
                    }
                }
                JoinStep::Finished(JoinResult::Completed(values))
            },
            Option::Some(e) => {
                proof {
                    lemma_first_error_locate(settled, 0, err_idx);
                }
                JoinStep::Finished(JoinResult::Failed(e))
            },
        }
    }
}

proof fn lemma_max_finish_all_settled(s: Seq<ChildState>)
    requires
        forall|i: int| 0 <= i < s.len() ==> child_finish(#[trigger] s[i]) == 0,
    ensures
        max_finish(s) == 0,
    decreases s.len(),
{
    if s.len() > 0 {
        assert forall|i: int| 0 <= i < s.drop_last().len() implies child_finish(
            #[trigger] s.drop_last()[i],
        ) == 0 by {
            assert(s.drop_last()[i] == s[i]);
        }
        lemma_max_finish_all_settled(s.drop_last());
    }
}

proof fn lemma_max_finish_le(s: Seq<ChildState>, b: int)
    requires
        b >= 0,
        forall|i: int| 0 <= i < s.len() ==> child_finish(#[trigger] s[i]) <= b,
    ensures
        max_finish(s) <= b,
    decreases s.len(),
{
    if s.len() > 0 {
        assert forall|i: int| 0 <= i < s.drop_last().len() implies child_finish(
            #[trigger] s.drop_last()[i],
        ) <= b by {
            assert(s.drop_last()[i] == s[i]);
        }
        lemma_max_finish_le(s.drop_last(), b);
    }
}

/// The value each task will complete with, in order (Unit standing in a
/// slot whose task fails).
pub open spec fn tasks_values(ts: Seq<Task>) -> Seq<GValue> {
    ts.map_values(|t: Task| outcome_value(t.outcome()))
}

pub open spec fn tasks_has_failure(ts: Seq<Task>) -> bool {
    exists|i: int| 0 <= i < ts.len() && (#[trigger] ts[i].outcome()) is Failed
}

/// The error of the first task, in index order from `i` on, that fails.
pub open spec fn tasks_first_error_from(ts: Seq<Task>, i: int) -> GError
    decreases ts.len() - i,
{
    if i < 0 || i >= ts.len() {
        GError::Validation(Seq::empty())
    } else if ts[i].outcome() is Failed {
        outcome_error(ts[i].outcome())
    } else {
        tasks_first_error_from(ts, i + 1)
    }
}

/// The virtual time until the last of the tasks is terminal, when all
/// start together.
pub open spec fn tasks_max_delay(ts: Seq<Task>) -> int
    decreases ts.len(),
{
    if ts.len() == 0 {
        0
    } else {
        max2(tasks_max_delay(ts.drop_last()), ts.last().delay() as int)
    }
}

/// The slots a fresh join gives to `ts` describe exactly the tasks
/// themselves.
pub(crate) proof fn lemma_fresh_join_slots(ts: Seq<Task>, cs: Seq<ChildState>)
    requires
        cs.len() == ts.len(),
        forall|i: int|
            0 <= i < ts.len() ==> #[trigger] cs[i] == (ChildState::Active {
                task: ts[i],
                deadline: 0u64,
            }),
    ensures
        max_finish(cs) == tasks_max_delay(ts),
        child_values(cs) == tasks_values(ts),
        has_failure_in(cs) == tasks_has_failure(ts),
        first_error_from(cs, 0) == tasks_first_error_from(ts, 0),
    decreases ts.len(),
{
    if ts.len() > 0 {
        assert forall|i: int| 0 <= i < ts.drop_last().len() implies #[trigger] cs.drop_last()[i]
            == (ChildState::Active { task: ts.drop_last()[i], deadline: 0u64 }) by {
            assert(cs.drop_last()[i] == cs[i]);
            assert(ts.drop_last()[i] == ts[i]);
        }
        lemma_fresh_join_slots(ts.drop_last(), cs.drop_last());
        assert(cs.last() == (ChildState::Active { task: ts.last(), deadline: 0u64 }));
    }
    assert(child_values(cs) =~= tasks_values(ts));
    if has_failure_in(cs) {
        let k = choose|k: int| 0 <= k < cs.len() && (#[trigger] child_outcome(cs[k])) is Failed;
        assert(ts[k].outcome() is Failed);
    }
    if tasks_has_failure(ts) {
        let k = choose|k: int| 0 <= k < ts.len() && (#[trigger] ts[k].outcome()) is Failed;
        assert(child_outcome(cs[k]) is Failed);
    }
    lemma_fresh_join_first_error(ts, cs, 0);
}

proof fn lemma_fresh_join_first_error(ts: Seq<Task>, cs: Seq<ChildState>, i: int)
    requires
        cs.len() == ts.len(),
        forall|k: int|
            0 <= k < ts.len() ==> #[trigger] cs[k] == (ChildState::Active {
                task: ts[k],
                deadline: 0u64,
            }),
        0 <= i <= ts.len(),
    ensures
        first_error_from(cs, i) == tasks_first_error_from(ts, i),
    decreases ts.len() - i,
{
    if i < ts.len() {
        lemma_fresh_join_first_error(ts, cs, i + 1);
    }
}

pub(crate) proof fn lemma_tasks_max_delay_nonneg(ts: Seq<Task>)
    ensures
        tasks_max_delay(ts) >= 0,
    decreases ts.len(),
{
    if ts.len() > 0 {
        lemma_tasks_max_delay_nonneg(ts.drop_last());
    }
}

/// Builds a join composite from an ordered sequence of tasks, each in
/// its slot in construction order, all immediately eligible to run.
pub fn join(tasks: Vec<Task>) -> (j: JoinTask)
    requires
        forall|i: int| 0 <= i < tasks@.len() ==> (#[trigger] tasks@[i]).wf() && !tasks@[i].is_terminal(),
    ensures
        j.children@.len() == tasks@.len(),
        forall|i: int|
            0 <= i < tasks@.len() ==> #[trigger] j.children@[i] == (ChildState::Active {
                task: tasks@[i],
                deadline: 0u64,
            }),
        !j.finished,
        j.wf(),
        j.timely(0),
        j.ready(0),
{
    let ghost all: Seq<Task> = tasks@;
    let mut ts = tasks;
    let mut children: Vec<ChildState> = Vec::new();
    while ts.len() > 0
        invariant
            children@.len() + ts@.len() == all.len(),
            forall|i: int| 0 <= i < ts@.len() ==> #[trigger] ts@[i] == all[children@.len() + i],
            forall|i: int|
                0 <= i < children@.len() ==> #[trigger] children@[i] == (ChildState::Active {
                    task: all[i],
                    deadline: 0u64,
                }),
            forall|i: int| 0 <= i < all.len() ==> (#[trigger] all[i]).wf() && !all[i].is_terminal(),
        decreases ts@.len(),
    {
        let t = ts.remove(0);
        children.push(ChildState::Active { task: t, deadline: 0 });
    }
    JoinTask { children, finished: false }
}

} // verus!
