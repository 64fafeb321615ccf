use vstd::prelude::*;
use crate::schedule::cron_time::{
    cron_accepts, cron_parses, cron_runs, lemma_cron_runs, next_occurrence, MAX_TIME_MS,
};

verus! {

/// A recurring schedule, as a cron expression, for launching a workflow.
pub struct Trigger {
    pub id: String,
    pub cron_expr: String,
    pub workflow_id: String,
}

/// The instants in `[start, end)` at which the cron expression `expr` fires, earliest
/// first; none when it does not parse.
pub open spec fn window_runs(expr: Seq<char>, start: i64, end: i64) -> Seq<i64> {
    if cron_accepts(expr) && start > -MAX_TIME_MS && start < end {
        cron_runs(expr, (start - 1) as i64, end)
    } else {
        seq![]
    }
}

/// Whether `runs` may be the run times of a trigger with expression `expr` inside
/// the window `[start, end)`: each in the window, strictly increasing, and none at
/// all when the expression does not parse.
pub open spec fn run_times_within(expr: Seq<char>, start: int, end: int, runs: Seq<i64>) -> bool {
    &&& forall|i: int| 0 <= i < runs.len() ==> start <= #[trigger] runs[i] < end
    &&& forall|i: int, j: int| 0 <= i < j < runs.len() ==> runs[i] < runs[j]
    &&& !cron_accepts(expr) ==> runs.len() == 0
}

/// The run times of a window lie in it, in increasing order, and a malformed
/// expression has none.
pub proof fn lemma_window_runs(expr: Seq<char>, start: i64, end: i64)
    ensures
        run_times_within(expr, start as int, end as int, window_runs(expr, start, end)),
{
    if cron_accepts(expr) && start > -MAX_TIME_MS && start < end {
        lemma_cron_runs(expr, (start - 1) as i64, end);
    }
}

impl Trigger {
    /// A trigger with the given id, cron expression and workflow.
    pub fn new(id: &str, cron_expr: &str, workflow_id: &str) -> (r: Self)
        ensures
            r.id@ == id@,
            r.cron_expr@ == cron_expr@,
            r.workflow_id@ == workflow_id@,
    {
        Trigger {
            id: id.to_string(),
            cron_expr: cron_expr.to_string(),
            workflow_id: workflow_id.to_string(),
        }
    }

    /// The instants in `[start, end)` at which the schedule fires, earliest first,
    /// found one occurrence after the other from `start`. A malformed expression
    /// yields none.
    pub fn next_run_times(&self, start: i64, end: i64) -> (r: Vec<i64>)
        ensures
            r@ == window_runs(self.cron_expr@, start, end),
    {
        let mut times: Vec<i64> = Vec::new();
        if !cron_parses(self.cron_expr.as_str()) || start <= -MAX_TIME_MS || start >= end {
            return times;
        }
        let ghost expr = self.cron_expr@;
        let mut cur: i64 = start - 1;
        assert(times@ + cron_runs(expr, cur, end) =~= window_runs(expr, start, end));
        loop
            invariant
                expr == self.cron_expr@,
                start - 1 <= cur < end,
                start > -MAX_TIME_MS,
                times@ + cron_runs(expr, cur, end) == window_runs(expr, start, end),
            ensures
                times@ == window_runs(expr, start, end),
            decreases end - cur,
        {
            if cur > MAX_TIME_MS {
                assert(times@ =~= times@ + cron_runs(expr, cur, end));
                break;
            }
            match next_occurrence(self.cron_expr.as_str(), cur) {
                Some(t) => {
                    if t < end {
                        assert(cur < t);
                        let ghost before = times@;
                        times.push(t);
                        assert(cron_runs(expr, cur, end) == seq![t] + cron_runs(expr, t, end));
                        assert(times@ + cron_runs(expr, t, end) =~= before + cron_runs(expr, cur, end));
                        cur = t;
                    } else {
                        assert(times@ =~= times@ + cron_runs(expr, cur, end));
                        break;
                    }
                },
                None => {
                    assert(times@ =~= times@ + cron_runs(expr, cur, end));
                    break;
                },
            }
        }
        times
    }
}

} // verus!
