use vstd::prelude::*;

verus! {

/// One concrete obligation to start a workflow at instant `run_at`.
///
/// As a priority key a task is ordered and compared by `run_at` alone, the
/// earliest first: two tasks due at the same instant compare equal.
#[derive(Debug)]
pub struct Task {
    pub id: String,
    pub run_at: i64,
    pub workflow_id: String,
    pub trigger_id: String,
}

/// What a scheduled task holds, as plain values.
pub struct TaskView {
    pub id: Seq<char>,
    pub run_at: int,
    pub workflow_id: Seq<char>,
    pub trigger_id: Seq<char>,
}

impl View for Task {
    type V = TaskView;

    open spec fn view(&self) -> TaskView {
        TaskView {
            id: self.id@,
            run_at: self.run_at as int,
            workflow_id: self.workflow_id@,
            trigger_id: self.trigger_id@,
        }
    }
}

/// The priority order of two due instants: the earlier one is the greater.
pub open spec fn due_order(a: int, b: int) -> std::cmp::Ordering {
    if a < b {
        std::cmp::Ordering::Greater
    } else if a > b {
        std::cmp::Ordering::Less
    } else {
        std::cmp::Ordering::Equal
    }
}

impl Task {
    /// A task with the given fields.
    pub fn new(id: &str, run_at: i64, workflow_id: &str, trigger_id: &str) -> (r: Self)
        ensures
            r@ == (TaskView {
                id: id@,
                run_at: run_at as int,
                workflow_id: workflow_id@,
                trigger_id: trigger_id@,
            }),
    {
        Task {
            id: id.to_string(),
            run_at,
            workflow_id: workflow_id.to_string(),
            trigger_id: trigger_id.to_string(),
        }
    }

    /// Compares two tasks by due time, reversed, so that the earliest is the greatest.
    pub fn cmp(&self, other: &Self) -> (r: std::cmp::Ordering)
        ensures
            r == due_order(self.run_at as int, other.run_at as int),
    {
        if self.run_at < other.run_at {
            std::cmp::Ordering::Greater
        } else if self.run_at > other.run_at {
            std::cmp::Ordering::Less
        } else {
            std::cmp::Ordering::Equal
        }
    }
}

impl Clone for Task {
    fn clone(&self) -> (r: Self)
        ensures
            r@ == self@,
    {
        Task {
            id: self.id.clone(),
            run_at: self.run_at,
            workflow_id: self.workflow_id.clone(),
            trigger_id: self.trigger_id.clone(),
        }
    }
}

impl PartialEq for Task {
    fn eq(&self, other: &Task) -> (r: bool) {
        self.run_at == other.run_at
    }
}

impl vstd::std_specs::cmp::PartialEqSpecImpl for Task {
    open spec fn obeys_eq_spec() -> bool {
        true
    }

    open spec fn eq_spec(&self, other: &Task) -> bool {
        self.run_at == other.run_at
    }
}

impl PartialOrd for Task {
    fn partial_cmp(&self, other: &Task) -> (r: Option<std::cmp::Ordering>) {
        Some(self.cmp(other))
    }
}

impl vstd::std_specs::cmp::PartialOrdSpecImpl for Task {
    open spec fn obeys_partial_cmp_spec() -> bool {
        true
    }

    open spec fn partial_cmp_spec(&self, other: &Task) -> Option<std::cmp::Ordering> {
        Some(due_order(self.run_at as int, other.run_at as int))
    }
}

/// Whether the due times of `s` never decrease.
pub open spec fn sorted_by_due(s: Seq<TaskView>) -> bool {
    forall|i: int, j: int| 0 <= i < j < s.len() ==> s[i].run_at <= s[j].run_at
}

/// Tasks waiting to start, handed out earliest due first; tasks due at the same
/// instant leave in the order they came.
pub struct TaskQueue {
    tasks: Vec<Task>,
}

impl View for TaskQueue {
    type V = Seq<TaskView>;

    closed spec fn view(&self) -> Seq<TaskView> {
        self.tasks@.map_values(|t: Task| t@)
    }
}

impl TaskQueue {
    /// The queue's invariant: its tasks are in due order.
    pub closed spec fn well_formed(&self) -> bool {
        sorted_by_due(self@)
    }

    /// An empty queue.
    pub fn new() -> (r: Self)
        ensures
            r.well_formed(),
            r@.len() == 0,
    {
        TaskQueue { tasks: Vec::new() }
    }

    /// The number of waiting tasks.
    pub fn len(&self) -> (r: usize)
        ensures
            r == self@.len(),
    {
        self.tasks.len()
    }

    /// Adds `task` after every waiting task due no later than it and before every
    /// one due later.
    pub fn push(&mut self, task: Task)
        requires
            old(self).well_formed(),
        ensures
            final(self).well_formed(),
            exists|p: int|
                0 <= p <= old(self)@.len() && final(self)@ == old(self)@.insert(p, task@) && (
                forall|i: int| 0 <= i < p ==> old(self)@[i].run_at <= task.run_at) && (forall|
                    i: int,
                | p <= i < old(self)@.len() ==> old(self)@[i].run_at > task.run_at),
    {
        let mut p: usize = 0;
        while p < self.tasks.len() && self.tasks[p].run_at <= task.run_at
            invariant
                p <= self.tasks@.len(),
                self.tasks == old(self).tasks,
                forall|i: int| 0 <= i < p ==> self@[i].run_at <= task.run_at,
            decreases self.tasks@.len() - p,
        {
            p = p + 1;
        }
        let ghost tv = task@;
        let ghost before = self@;
        proof {
            assert forall|i: int| p <= i < before.len() implies before[i].run_at > tv.run_at by {
                if i > p {
                    assert(before[p as int].run_at <= before[i].run_at);
                }
            }
        }
        self.tasks.insert(p, task);
        assert(self@ =~= before.insert(p as int, tv));
    }

    /// Removes and returns the earliest due task, if any.
    pub fn pop(&mut self) -> (r: Option<Task>)
        requires
            old(self).well_formed(),
        ensures
            final(self).well_formed(),
            old(self)@.len() == 0 ==> r.is_none() && final(self)@ == old(self)@,
            old(self)@.len() > 0 ==> (r matches Some(t) && t@ == old(self)@[0] && final(self)@
                == old(self)@.drop_first()),
    {
        if self.tasks.len() == 0 {
            None
        } else {
            let ghost before = self@;
            let t = self.tasks.remove(0);
            assert(self@ =~= before.drop_first());
            Some(t)
        }
    }
}

} // verus!
