use vstd::prelude::*;

verus! {

/// Whether a worker has a task execution in flight.
#[derive(Debug, Clone, Copy, PartialEq, Eq, Structural)]
pub enum WorkerStatus {
    Idle,
    Busy,
}

/// What to do with a task that the worker has taken in.
#[derive(Debug, Clone, Copy, PartialEq, Eq, Structural)]
pub enum Dispatch {
    /// Run the task with the handler at this position of the registry.
    Run(usize),
    /// No handler is registered for the task's type: report it and go on.
    Unknown,
    /// Every execution slot is taken: wait for one execution to finish, then offer
    /// the task again.
    Wait,
}

/// Asks a worker loop to begin taking tasks.
pub struct Start;

/// Asks a worker loop to stop at the top of its next cycle; executions in flight
/// are let finish.
pub struct Stop;

/// The position of the handler that answers for `task_type`: the latest one
/// registered under it, or -1 when there is none.
pub open spec fn handler_index(types: Seq<Seq<char>>, task_type: Seq<char>) -> int
    decreases types.len(),
{
    if types.len() == 0 {
        -1
    } else if types.last() == task_type {
        types.len() - 1
    } else {
        handler_index(types.drop_last(), task_type)
    }
}

proof fn lemma_handler_index(types: Seq<Seq<char>>, task_type: Seq<char>)
    ensures
        -1 <= handler_index(types, task_type) < types.len(),
        handler_index(types, task_type) >= 0 ==> types[handler_index(types, task_type)]
            == task_type,
    decreases types.len(),
{
    if types.len() > 0 {
        lemma_handler_index(types.drop_last(), task_type);
    }
}

/// The dispatch decisions of a worker: a registry from task type to handler,
/// a bound on simultaneous executions, and an optional bound on tasks taken in.
///
/// The worker's loop (fetching, running handlers, waiting) lives with the caller,
/// which reports each decision's outcome back through `accept_task` and `finish`.
pub struct Worker<H> {
    pub task_types: Vec<String>,
    pub handlers: Vec<H>,
    /// The most executions in flight at once.
    pub concurrency: usize,
    /// The number of tasks to take in before stopping; zero means no bound.
    pub task_limit: usize,
    /// The tasks taken in so far, run or reported unknown.
    pub processed: usize,
    /// The executions started and not yet finished.
    pub in_flight: usize,
}

/// The relation between a worker before and after `accept_task(task_type)`
/// decided `r`.
pub open spec fn accept_step<H>(pre: Worker<H>, task_type: Seq<char>, r: Dispatch, post: Worker<H>) -> bool {
    let i = handler_index(types_view(pre.task_types@), task_type);
    &&& post.task_types == pre.task_types
    &&& post.handlers == pre.handlers
    &&& post.concurrency == pre.concurrency
    &&& post.task_limit == pre.task_limit
    &&& i < 0 ==> r == Dispatch::Unknown && post.processed == pre.processed + 1 && post.in_flight
        == pre.in_flight
    &&& i >= 0 && pre.in_flight < pre.concurrency ==> r == Dispatch::Run(i as usize)
        && post.processed == pre.processed + 1 && post.in_flight == pre.in_flight + 1
    &&& i >= 0 && pre.in_flight >= pre.concurrency ==> r == Dispatch::Wait && post == pre
}

/// The registered task types, as plain values.
pub open spec fn types_view(v: Seq<String>) -> Seq<Seq<char>> {
    v.map_values(|s: String| s@)
}

impl<H> Worker<H> {
    /// The worker's invariant: one handler per registered type, at least one
    /// execution slot, and no more executions in flight than slots.
    pub open spec fn well_formed(&self) -> bool {
        &&& self.task_types@.len() == self.handlers@.len()
        &&& self.concurrency >= 1
        &&& self.in_flight <= self.concurrency
    }

    /// The handler that answers for `task_type`, if any.
    pub open spec fn handler_spec(&self, task_type: Seq<char>) -> Option<H> {
        let i = handler_index(types_view(self.task_types@), task_type);
        if i >= 0 {
            Some(self.handlers@[i])
        } else {
            None
        }
    }

    /// A worker with no handler, one execution slot and no bound on tasks.
    pub fn new() -> (r: Self)
        ensures
            r.well_formed(),
            r.task_types@.len() == 0,
            r.concurrency == 1,
            r.task_limit == 0,
            r.processed == 0,
            r.in_flight == 0,
    {
        Worker {
            task_types: Vec::new(),
            handlers: Vec::new(),
            concurrency: 1,
            task_limit: 0,
            processed: 0,
            in_flight: 0,
        }
    }

    /// Stops the worker after `task_limit` tasks (zero: never).
    pub fn with_limit(&mut self, task_limit: usize)
        ensures
            *final(self) == (Worker { task_limit, ..*old(self) }),
    {
        self.task_limit = task_limit;
    }

    /// Allows `concurrency` executions at once; zero is taken as one.
    pub fn with_concurrency(&mut self, concurrency: usize)
        requires
            old(self).well_formed(),
            old(self).in_flight == 0,
        ensures
            final(self).well_formed(),
            *final(self) == (Worker {
                concurrency: if concurrency == 0 { 1 } else { concurrency },
                ..*old(self)
            }),
    {
        self.concurrency = if concurrency == 0 { 1 } else { concurrency };
    }

    /// Registers `handler` for `task_type`, replacing any earlier one for that type.
    pub fn add_handler(&mut self, task_type: String, handler: H)
        requires
            old(self).well_formed(),
        ensures
            final(self).well_formed(),
            final(self).task_types@ == old(self).task_types@.push(task_type),
            final(self).handlers@ == old(self).handlers@.push(handler),
            final(self).handler_spec(task_type@) == Some(handler),
            forall|t: Seq<char>|
                t != task_type@ ==> #[trigger] final(self).handler_spec(t) == old(
                    self,
                ).handler_spec(t),
            final(self).concurrency == old(self).concurrency,
            final(self).task_limit == old(self).task_limit,
            final(self).processed == old(self).processed,
            final(self).in_flight == old(self).in_flight,
    {
        let ghost t = task_type@;
        self.task_types.push(task_type);
        self.handlers.push(handler);
        proof {
            let types = types_view(self.task_types@);
            assert(types.drop_last() =~= types_view(old(self).task_types@));
            assert(types.last() == t);
            assert forall|t2: Seq<char>| t2 != t implies #[trigger] self.handler_spec(t2)
                == old(self).handler_spec(t2) by {
                lemma_handler_index(types_view(old(self).task_types@), t2);
            }
        }
    }

    /// Registers each pair of `handlers` in order, as `add_handler` does.
    pub fn learn(&mut self, handlers: Vec<(String, H)>)
        requires
            old(self).well_formed(),
        ensures
            final(self).well_formed(),
            final(self).concurrency == old(self).concurrency,
            final(self).task_limit == old(self).task_limit,
            final(self).processed == old(self).processed,
            final(self).in_flight == old(self).in_flight,
            forall|t: Seq<char>|
                (forall|i: int| 0 <= i < handlers@.len() ==> (#[trigger] handlers@[i]).0@ != t)
                    ==> #[trigger] final(self).handler_spec(t) == old(self).handler_spec(t),
            forall|i: int|
                0 <= i < handlers@.len() && (forall|j: int|
                    i < j < handlers@.len() ==> handlers@[j].0@ != handlers@[i].0@)
                    ==> #[trigger] final(self).handler_spec(handlers@[i].0@) == Some(
                    handlers@[i].1,
                ),
    {
        let ghost pairs = handlers@;
        let mut rest = handlers;
        let ghost mut k: int = 0;
        let ghost n = pairs.len();
        assert(pairs.skip(0) =~= pairs);
        while rest.len() > 0
            invariant
                self.well_formed(),
                self.concurrency == old(self).concurrency,
                self.task_limit == old(self).task_limit,
                self.processed == old(self).processed,
                self.in_flight == old(self).in_flight,
                n == pairs.len(),
                0 <= k,
                k + rest@.len() == n,
                rest@ == pairs.skip(k),
                forall|t: Seq<char>|
                    (forall|i: int| 0 <= i < k ==> (#[trigger] pairs[i]).0@ != t) ==> #[trigger] self.handler_spec(t)
                        == old(self).handler_spec(t),
                forall|i: int|
                    0 <= i < k && (forall|j: int| i < j < k ==> pairs[j].0@ != pairs[i].0@)
                        ==> #[trigger] self.handler_spec(pairs[i].0@) == Some(pairs[i].1),
            decreases rest@.len(),
        {
            let ghost before = *self;
            let ghost r0 = rest@;
            let (task_type, handler) = rest.remove(0);
            assert(r0 == pairs.skip(k));
            assert(k < pairs.len());
            assert(pairs.skip(k)[0] == pairs[k]);
            assert(r0[0] == pairs[k]);
            assert(rest@ =~= pairs.skip(k + 1));
            self.add_handler(task_type, handler);
            proof {
                assert forall|t: Seq<char>|
                    (forall|i: int| 0 <= i < k + 1 ==> (#[trigger] pairs[i]).0@ != t) implies #[trigger] self.handler_spec(t)
                    == old(self).handler_spec(t) by {
                    assert(pairs[k].0@ != t);
                }
                assert forall|i: int|
                    0 <= i < k + 1 && (forall|j: int| i < j < k + 1 ==> pairs[j].0@ != pairs[i].0@)
                    implies #[trigger] self.handler_spec(pairs[i].0@) == Some(pairs[i].1) by {
                    if i < k {
                        assert(pairs[k].0@ != pairs[i].0@);
                        assert(before.handler_spec(pairs[i].0@) == Some(pairs[i].1));
                    }
                }
            }
            proof {
                k = k + 1;
            }
        }
    }

    /// Whether the worker has taken in as many tasks as it may.
    pub open spec fn limit_reached_spec(&self) -> bool {
        self.task_limit > 0 && self.processed >= self.task_limit
    }

    /// Whether the worker has taken in as many tasks as it may.
    pub fn limit_reached(&self) -> (r: bool)
        ensures
            r == self.limit_reached_spec(),
    {
        self.task_limit > 0 && self.processed >= self.task_limit
    }

    /// Busy while an execution is in flight, idle otherwise.
    pub fn status(&self) -> (r: WorkerStatus)
        ensures
            r == (if self.in_flight > 0 { WorkerStatus::Busy } else { WorkerStatus::Idle }),
    {
        if self.in_flight > 0 {
            WorkerStatus::Busy
        } else {
            WorkerStatus::Idle
        }
    }

    /// The position of the handler that answers for `task_type`, if any.
    pub fn find_handler(&self, task_type: &String) -> (r: Option<usize>)
        ensures
            handler_index(types_view(self.task_types@), task_type@) < 0 ==> r.is_none(),
            handler_index(types_view(self.task_types@), task_type@) >= 0 ==> r == Some(
                handler_index(types_view(self.task_types@), task_type@) as usize,
            ),
    {
        let ghost types = types_view(self.task_types@);
        proof {
            lemma_handler_index(types, task_type@);
            assert(types.take(self.task_types@.len() as int) =~= types);
        }
        let mut i: usize = self.task_types.len();
        while i > 0
            invariant
                i <= types.len(),
                types == types_view(self.task_types@),
                handler_index(types, task_type@) == handler_index(types.take(i as int), task_type@),
            decreases i,
        {
            proof {
                assert(types.take(i as int).drop_last() =~= types.take(i - 1));
                assert(types.take(i as int).last() == self.task_types@[i - 1]@);
            }
            if self.task_types[i - 1] == *task_type {
                return Some(i - 1);
            }
            i = i - 1;
        }
        None
    }

    /// Decides what to do with a task of type `task_type`. A task with no handler
    /// is counted and reported as unknown; one with a handler runs when a slot is
    /// free (it is counted and holds the slot until `finish`) and waits otherwise.
    pub fn accept_task(&mut self, task_type: &String) -> (r: Dispatch)
        requires
            old(self).well_formed(),
            old(self).processed < usize::MAX,
        ensures
            final(self).well_formed(),
            accept_step(*old(self), task_type@, r, *final(self)),
    {
        let found = self.find_handler(task_type);
        match found {
            None => {
                self.processed = self.processed + 1;
                Dispatch::Unknown
            },
            Some(i) => {
                if self.in_flight < self.concurrency {
                    self.processed = self.processed + 1;
                    self.in_flight = self.in_flight + 1;
                    Dispatch::Run(i)
                } else {
                    Dispatch::Wait
                }
            },
        }
    }

    /// Records that one execution in flight has finished.
    pub fn finish(&mut self)
        requires
            old(self).well_formed(),
            old(self).in_flight > 0,
        ensures
            final(self).well_formed(),
            *final(self) == (Worker { in_flight: (old(self).in_flight - 1) as usize, ..*old(self) }),
    {
        self.in_flight = self.in_flight - 1;
    }
}

/// With a single execution slot, executions never overlap: a task starts only
/// when no other execution is in flight, and then it is the only one.
pub proof fn law_single_slot_serializes<H>(
    pre: Worker<H>,
    task_type: Seq<char>,
    r: Dispatch,
    post: Worker<H>,
)
    requires
        pre.well_formed(),
        pre.concurrency == 1,
        accept_step(pre, task_type, r, post),
        r is Run,
    ensures
        pre.in_flight == 0,
        post.in_flight == 1,
{
}

/// With two or more slots, executions may overlap: while one runs, a task of a
/// registered type starts at once.
pub proof fn law_slots_allow_overlap<H>(
    pre: Worker<H>,
    task_type: Seq<char>,
    r: Dispatch,
    post: Worker<H>,
)
    requires
        pre.well_formed(),
        pre.concurrency >= 2,
        pre.in_flight == 1,
        handler_index(types_view(pre.task_types@), task_type) >= 0,
        accept_step(pre, task_type, r, post),
    ensures
        r is Run,
        post.in_flight == 2,
{
}

/// A task of an unregistered type is reported and dropped without stopping the
/// worker: the registry and the executions in flight are left as they were, and a
/// following task of a registered type runs when a slot is free.
pub proof fn law_unknown_type_skipped<H>(
    pre: Worker<H>,
    unknown: Seq<char>,
    r1: Dispatch,
    mid: Worker<H>,
    known: Seq<char>,
    r2: Dispatch,
    post: Worker<H>,
)
    requires
        pre.well_formed(),
        handler_index(types_view(pre.task_types@), unknown) < 0,
        handler_index(types_view(pre.task_types@), known) >= 0,
        pre.in_flight < pre.concurrency,
        accept_step(pre, unknown, r1, mid),
        accept_step(mid, known, r2, post),
    ensures
        r1 == Dispatch::Unknown,
        mid.task_types == pre.task_types && mid.handlers == pre.handlers,
        mid.in_flight == pre.in_flight,
        r2 == Dispatch::Run(handler_index(types_view(pre.task_types@), known) as usize),
        post.in_flight == pre.in_flight + 1,
{
}

} // verus!
