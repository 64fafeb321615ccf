use vstd::prelude::*;
use crate::clock::now_millis;
use crate::schedule::task::{Task, TaskView};
use crate::schedule::cron_time::{cron_accepts, cron_parses};
use crate::schedule::trigger::{lemma_window_runs, run_times_within, window_runs, Trigger};
use crate::text::{int_text, with_number};

verus! {

/// The id of the task that trigger `trigger_id` yields for instant `run_at`: the
/// trigger id, a dash, and the instant in whole seconds (rounded down).
pub open spec fn task_id(trigger_id: Seq<char>, run_at: int) -> Seq<char> {
    trigger_id + seq!['-'] + int_text(run_at / 1000)
}

/// The task that `trigger` yields for instant `run_at`.
pub open spec fn scheduled(trigger: Trigger, run_at: int) -> TaskView {
    TaskView {
        id: task_id(trigger.id@, run_at),
        run_at,
        workflow_id: trigger.workflow_id@,
        trigger_id: trigger.id@,
    }
}

/// The views of a sequence of tasks.
pub open spec fn tasks_view(ts: Seq<Task>) -> Seq<TaskView> {
    ts.map_values(|t: Task| t@)
}

/// The tasks that `trigger` yields for the instants `runs`, in order.
pub open spec fn trigger_tasks(trigger: Trigger, runs: Seq<i64>) -> Seq<TaskView> {
    runs.map_values(|t: i64| scheduled(trigger, t as int))
}

/// The tasks of the first `n` triggers, trigger after trigger, where trigger `i`
/// fires at the instants `runs[i]`.
pub open spec fn batch(triggers: Seq<Trigger>, runs: Seq<Seq<i64>>, n: nat) -> Seq<TaskView>
    decreases n,
{
    if n == 0 {
        seq![]
    } else {
        batch(triggers, runs, (n - 1) as nat) + trigger_tasks(triggers[n - 1], runs[n - 1])
    }
}

/// Whether `runs` may hold, trigger by trigger, the run times of `triggers` in `[start, end)`.
pub open spec fn runs_of(triggers: Seq<Trigger>, runs: Seq<Seq<i64>>, start: int, end: int) -> bool {
    &&& runs.len() == triggers.len()
    &&& forall|i: int|
        0 <= i < triggers.len() ==> run_times_within(
            #[trigger] triggers[i].cron_expr@,
            start,
            end,
            runs[i],
        )
}

/// The run times of each trigger inside `[start, end)`.
pub open spec fn all_window_runs(triggers: Seq<Trigger>, start: i64, end: i64) -> Seq<Seq<i64>> {
    Seq::new(triggers.len(), |i: int| window_runs(triggers[i].cron_expr@, start, end))
}

/// The run times of a window, trigger by trigger, are run times of that window.
pub proof fn lemma_all_window_runs(triggers: Seq<Trigger>, start: i64, end: i64)
    ensures
        runs_of(triggers, all_window_runs(triggers, start, end), start as int, end as int),
{
    assert forall|i: int| 0 <= i < triggers.len() implies run_times_within(
        #[trigger] triggers[i].cron_expr@,
        start as int,
        end as int,
        all_window_runs(triggers, start, end)[i],
    ) by {
        lemma_window_runs(triggers[i].cron_expr@, start, end);
    }
}

/// The ids of the triggers among `triggers` whose cron expression does not parse, in order.
pub open spec fn malformed_ids(triggers: Seq<Trigger>) -> Seq<Seq<char>>
    decreases triggers.len(),
{
    if triggers.len() == 0 {
        seq![]
    } else if cron_accepts(triggers.last().cron_expr@) {
        malformed_ids(triggers.drop_last())
    } else {
        malformed_ids(triggers.drop_last()).push(triggers.last().id@)
    }
}

/// `ms / 1000`, rounded down.
fn floor_seconds(ms: i64) -> (r: i64)
    ensures
        r as int == ms as int / 1000,
{
    if ms >= 0 {
        ms / 1000
    } else {
        let m: i64 = -(ms + 1);
        let q: i64 = m / 1000;
        proof {
            let rem = m as int % 1000;
            assert(m as int == 1000 * q + rem && 0 <= rem < 1000) by (nonlinear_arith)
                requires
                    m >= 0,
                    q == m as int / 1000,
                    rem == m as int % 1000,
            ;
            assert(ms as int == 1000 * (-q - 1) + (999 - rem));
            assert((ms as int) / 1000 == -q - 1) by (nonlinear_arith)
                requires
                    ms as int == 1000 * (-q - 1) + (999 - rem),
                    0 <= 999 - rem < 1000,
            ;
        }
        -q - 1
    }
}

/// Generates the tasks of a set of triggers inside a time window.
pub struct Planner {
    triggers: Vec<Trigger>,
}

impl Planner {
    /// A planner over `triggers`.
    pub fn new(triggers: Vec<Trigger>) -> (r: Self)
        ensures
            r.triggers() == triggers@,
    {
        Planner { triggers }
    }

    /// The triggers planned over.
    pub closed spec fn triggers(&self) -> Seq<Trigger> {
        self.triggers@
    }

    /// The ids of the triggers whose cron expression does not parse, in order; they
    /// yield no task, and a caller may report them.
    pub fn malformed_triggers(&self) -> (r: Vec<String>)
        ensures
            r@.map_values(|s: String| s@) == malformed_ids(self.triggers()),
    {
        let mut r: Vec<String> = Vec::new();
        let mut i: usize = 0;
        while i < self.triggers.len()
            invariant
                i <= self.triggers@.len(),
                r@.map_values(|s: String| s@) == malformed_ids(self.triggers@.take(i as int)),
            decreases self.triggers@.len() - i,
        {
            let ghost before = r@;
            proof {
                assert(self.triggers@.take(i + 1).drop_last() =~= self.triggers@.take(i as int));
            }
            if !cron_parses(self.triggers[i].cron_expr.as_str()) {
                r.push(self.triggers[i].id.clone());
                assert(r@.map_values(|s: String| s@) =~= before.map_values(|s: String| s@).push(
                    self.triggers@[i as int].id@,
                ));
            }
            i = i + 1;
        }
        assert(self.triggers@.take(self.triggers@.len() as int) =~= self.triggers@);
        r
    }

    /// The task of `trigger` for each instant of `runs`, in order.
    pub fn tasks_for_runs(trigger: &Trigger, runs: &Vec<i64>) -> (r: Vec<Task>)
        ensures
            tasks_view(r@) == trigger_tasks(*trigger, runs@),
    {
        let mut prefix = trigger.id.clone();
        proof {
            reveal_strlit("-");
        }
        prefix.append("-");
        let mut r: Vec<Task> = Vec::new();
        let mut i: usize = 0;
        while i < runs.len()
            invariant
                i <= runs@.len(),
                prefix@ == trigger.id@ + seq!['-'],
                tasks_view(r@) == trigger_tasks(*trigger, runs@.take(i as int)),
            decreases runs@.len() - i,
        {
            let run_at = runs[i];
            let task = Task {
                id: with_number(prefix.as_str(), floor_seconds(run_at)),
                run_at,
                workflow_id: trigger.workflow_id.clone(),
                trigger_id: trigger.id.clone(),
            };
            let ghost before = tasks_view(r@);
            r.push(task);
            proof {
                assert(runs@.take(i + 1) =~= runs@.take(i as int).push(run_at));
                assert(tasks_view(r@) =~= before.push(scheduled(*trigger, run_at as int)));
                assert(trigger_tasks(*trigger, runs@.take(i + 1)) =~= trigger_tasks(
                    *trigger,
                    runs@.take(i as int),
                ).push(scheduled(*trigger, run_at as int)));
            }
            i = i + 1;
        }
        proof {
            assert(runs@.take(runs@.len() as int) =~= runs@);
        }
        r
    }

    /// The tasks of every trigger due inside `[start, end)`, trigger after trigger,
    /// each trigger's in the order of its run times. A trigger whose expression
    /// does not parse yields no task and does not stop the others.
    pub fn generate_tasks_between(&self, start: i64, end: i64) -> (r: Vec<Task>)
        ensures
            tasks_view(r@) == batch(
                self.triggers(),
                all_window_runs(self.triggers(), start, end),
                self.triggers().len(),
            ),
            runs_of(self.triggers(), all_window_runs(self.triggers(), start, end), start as int, end as int),
            forall|k: int| 0 <= k < r@.len() ==> start <= #[trigger] r@[k].run_at < end,
    {
        let ghost runs = all_window_runs(self.triggers@, start, end);
        proof {
            lemma_all_window_runs(self.triggers@, start, end);
        }
        let mut tasks: Vec<Task> = Vec::new();
        let mut i: usize = 0;
        while i < self.triggers.len()
            invariant
                i <= self.triggers@.len(),
                runs == all_window_runs(self.triggers@, start, end),
                runs_of(self.triggers@, runs, start as int, end as int),
                tasks_view(tasks@) == batch(self.triggers@, runs, i as nat),
                forall|k: int| 0 <= k < tasks@.len() ==> start <= #[trigger] tasks@[k].run_at < end,
            decreases self.triggers@.len() - i,
        {
            let trigger = &self.triggers[i];
            let times = trigger.next_run_times(start, end);
            assert(times@ == runs[i as int]);
            assert(run_times_within(self.triggers@[i as int].cron_expr@, start as int, end as int, runs[i as int]));
            let mut more = Self::tasks_for_runs(trigger, &times);
            let ghost before = tasks@;
            proof {
                assert(tasks_view(more@).len() == more@.len());
                assert(trigger_tasks(*trigger, times@).len() == times@.len());
                assert forall|k: int| 0 <= k < more@.len() implies start <= #[trigger] more@[k].run_at
                    < end by {
                    assert(tasks_view(more@)[k] == more@[k]@);
                    assert(trigger_tasks(*trigger, times@)[k] == scheduled(*trigger, times@[k] as int));
                }
            }
            let ghost added = more@;
            tasks.append(&mut more);
            proof {
                assert(tasks_view(tasks@) =~= tasks_view(before) + tasks_view(added));
                assert forall|k: int| 0 <= k < tasks@.len() implies start <= #[trigger] tasks@[k].run_at
                    < end by {
                    if k >= before.len() {
                        assert(tasks@[k] == added[k - before.len()]);
                    } else {
                        assert(tasks@[k] == before[k]);
                    }
                }
            }
            i = i + 1;
        }
        tasks
    }

    /// The tasks of every trigger due from now until `end`.
    pub fn generate_tasks(&self, end: i64) -> (r: Vec<Task>)
        ensures
            exists|start: i64|
                tasks_view(r@) == batch(
                    self.triggers(),
                    all_window_runs(self.triggers(), start, end),
                    self.triggers().len(),
                ) && forall|k: int| 0 <= k < r@.len() ==> start <= #[trigger] r@[k].run_at < end,
    {
        let now = now_millis();
        self.generate_tasks_between(now, end)
    }
}

/// Whether `x` is the task of one of the first `n` triggers at one of its run times.
pub open spec fn yielded_by(triggers: Seq<Trigger>, runs: Seq<Seq<i64>>, n: int, x: TaskView) -> bool {
    exists|i: int, j: int|
        0 <= i < n && 0 <= j < runs[i].len() && x == scheduled(
            triggers[i],
            #[trigger] runs[i][j] as int,
        )
}

/// The batch of the first `n` triggers holds exactly their tasks: each task of
/// trigger `i < n` at each of its run times, and nothing that is not one of those.
proof fn lemma_batch_members(triggers: Seq<Trigger>, runs: Seq<Seq<i64>>, n: nat)
    requires
        n <= runs.len(),
        n <= triggers.len(),
    ensures
        forall|i: int, j: int|
            0 <= i < n && 0 <= j < runs[i].len() ==> batch(triggers, runs, n).contains(
                scheduled(triggers[i], #[trigger] runs[i][j] as int),
            ),
        forall|k: int|
            0 <= k < batch(triggers, runs, n).len() ==> yielded_by(
                triggers,
                runs,
                n as int,
                #[trigger] batch(triggers, runs, n)[k],
            ),
    decreases n,
{
    if n > 0 {
        lemma_batch_members(triggers, runs, (n - 1) as nat);
        let prev = batch(triggers, runs, (n - 1) as nat);
        let last = trigger_tasks(triggers[n - 1], runs[n - 1]);
        let cur = batch(triggers, runs, n);
        assert(cur == prev + last);
        assert(last.len() == runs[n - 1].len());
        assert forall|i: int, j: int|
            0 <= i < n && 0 <= j < runs[i].len() implies cur.contains(
            scheduled(triggers[i], #[trigger] runs[i][j] as int),
        ) by {
            let x = scheduled(triggers[i], runs[i][j] as int);
            if i < n - 1 {
                let w = choose|w: int| 0 <= w < prev.len() && prev[w] == x;
                assert(cur[w] == x);
            } else {
                assert(last[j] == x);
                assert(cur[prev.len() + j] == x);
            }
        }
        assert forall|k: int| 0 <= k < cur.len() implies yielded_by(
            triggers,
            runs,
            n as int,
            #[trigger] cur[k],
        ) by {
            if k < prev.len() {
                assert(cur[k] == prev[k]);
                assert(yielded_by(triggers, runs, n - 1, prev[k]));
                let (i, j) = choose|i: int, j: int|
                    0 <= i < n - 1 && 0 <= j < runs[i].len() && prev[k] == scheduled(
                        triggers[i],
                        #[trigger] runs[i][j] as int,
                    );
                assert(cur[k] == scheduled(triggers[i], runs[i][j] as int));
            } else {
                let j = k - prev.len();
                assert(0 <= j < runs[n - 1].len());
                assert(cur[k] == last[j]);
                assert(cur[k] == scheduled(triggers[n - 1], runs[n - 1][j] as int));
            }
        }
    }
}

/// A trigger whose cron expression does not parse adds no task to a batch and
/// keeps no other trigger's task out: the batch holds every task of every trigger
/// at each of its run times, and each of its tasks comes from a trigger whose
/// expression parses.
pub proof fn law_malformed_trigger_skipped(
    triggers: Seq<Trigger>,
    runs: Seq<Seq<i64>>,
    start: int,
    end: int,
)
    requires
        runs_of(triggers, runs, start, end),
    ensures
        forall|i: int, j: int|
            0 <= i < triggers.len() && 0 <= j < runs[i].len() ==> batch(
                triggers,
                runs,
                triggers.len(),
            ).contains(scheduled(triggers[i], #[trigger] runs[i][j] as int)),
        forall|k: int|
            0 <= k < batch(triggers, runs, triggers.len()).len() ==> yielded_by(
                triggers,
                runs,
                triggers.len() as int,
                #[trigger] batch(triggers, runs, triggers.len())[k],
            ),
        forall|i: int|
            0 <= i < triggers.len() && !cron_accepts(#[trigger] triggers[i].cron_expr@)
                ==> runs[i].len() == 0,
{
    lemma_batch_members(triggers, runs, triggers.len());
    assert forall|i: int|
        0 <= i < triggers.len() && !cron_accepts(#[trigger] triggers[i].cron_expr@) implies runs[i].len()
        == 0 by {
        assert(run_times_within(triggers[i].cron_expr@, start, end, runs[i]));
    }
}

} // verus!
