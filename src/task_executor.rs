use vstd::prelude::*;
use crate::clock::instant_now;

verus! {

/// The lifecycle of an executed task: `Pending`, then `Running`, then `Success`
/// or `Failed`.
#[derive(Debug, Clone, Copy, PartialEq, Eq, Structural)]
pub enum TaskStatus {
    Pending,
    Running,
    Success,
    Failed,
}

/// What one cycle's three steps returned: whether each succeeded.
#[derive(Debug, Clone, Copy, PartialEq, Eq, Structural)]
pub struct CycleOutcome {
    pub before_ok: bool,
    pub handle_ok: bool,
    pub after_ok: bool,
}

/// Whether every step of a cycle succeeded.
pub open spec fn cycle_ok(c: CycleOutcome) -> bool {
    c.before_ok && c.handle_ok && c.after_ok
}

/// The decision after one cycle of a retrying task.
#[derive(Debug, Clone, Copy, PartialEq, Eq, Structural)]
pub enum CycleStep {
    /// Every step succeeded: the task succeeds.
    Succeed,
    /// Some step failed: this many failed attempts are counted, and the task
    /// tries again while they stay below the maximum.
    Retry(i32),
}

/// Decides the outcome of a cycle made with `attempts` failed attempts counted
/// before it, from whether its before, handle and after steps succeeded.
pub fn cycle_step(
    attempts: i32,
    max_attempts: i32,
    before_ok: bool,
    handle_ok: bool,
    after_ok: bool,
) -> (r: CycleStep)
    requires
        attempts < max_attempts,
    ensures
        before_ok && handle_ok && after_ok ==> r == CycleStep::Succeed,
        !(before_ok && handle_ok && after_ok) ==> r == CycleStep::Retry((attempts + 1) as i32),
{
    if before_ok && handle_ok && after_ok {
        CycleStep::Succeed
    } else {
        CycleStep::Retry(attempts + 1)
    }
}

/// The work bound to a task: three fallible steps run in order on the task's data.
pub trait TaskHandler<T> {
    fn before(&mut self, data: &T) -> Result<(), String>;

    fn handle(&mut self, data: &T) -> Result<(), String>;

    fn after(&mut self, data: &T) -> Result<(), String>;
}

impl<T, H: TaskHandler<T>> TaskHandler<T> for Box<H> {
    fn before(&mut self, data: &T) -> Result<(), String> {
        (**self).before(data)
    }

    fn handle(&mut self, data: &T) -> Result<(), String> {
        (**self).handle(data)
    }

    fn after(&mut self, data: &T) -> Result<(), String> {
        (**self).after(data)
    }
}

/// A task that runs its handler's before/handle/after cycle until one cycle
/// succeeds or `max_attempts` cycles have failed.
///
/// `attempts` counts the failed cycles; `cycles` records what each cycle run
/// returned, in order.
pub struct Task<T, H: TaskHandler<T>> {
    pub data: T,
    pub handler: H,
    pub status: TaskStatus,
    pub max_attempts: i32,
    pub attempts: i32,
    pub start_time: Option<std::time::Instant>,
    pub end_time: Option<std::time::Instant>,
    pub cycles: Ghost<Seq<CycleOutcome>>,
}

impl<T, H: TaskHandler<T>> Task<T, H> {
    /// A pending task over `data` that allows `max_attempts` failed cycles.
    pub fn new(data: T, handler: H, max_attempts: i32) -> (r: Self)
        ensures
            r.data == data,
            r.handler == handler,
            r.status == TaskStatus::Pending,
            r.max_attempts == max_attempts,
            r.attempts == 0,
            r.start_time.is_none(),
            r.end_time.is_none(),
            r.cycles@.len() == 0,
    {
        Task {
            data,
            handler,
            max_attempts,
            status: TaskStatus::Pending,
            attempts: 0,
            start_time: None,
            end_time: None,
            cycles: Ghost(Seq::empty()),
        }
    }

    fn update_status(&mut self, status: TaskStatus)
        ensures
            *final(self) == (Task { status, ..*old(self) }),
    {
        self.status = status;
    }
}

/// Running a task and reading its handler.
pub trait TaskExecutorTrait<T, H> {
    /// Runs the task to its end, success or failure.
    fn execute(&mut self) -> Result<(), String>;

    /// The handler bound to the task.
    fn get_handler(&self) -> &H;
}

/// The number of failed cycles after which a run that started with `attempts`
/// failed cycles gives up, when `max_attempts` are allowed.
pub open spec fn exhausted_attempts(attempts: int, max_attempts: int) -> int {
    if attempts >= max_attempts {
        attempts
    } else {
        max_attempts
    }
}

impl<T, H: TaskHandler<T>> TaskExecutorTrait<T, H> for Task<T, H> {
    /// Marks the task running and runs cycles of before, handle and after on the
    /// task's data, without delay between them, until all three steps of one cycle
    /// succeed (the task succeeds) or `attempts` reaches `max_attempts` (the task
    /// fails). Each cycle is recorded in `cycles`. A task whose `attempts` already
    /// reach `max_attempts`, such as one allowing none, fails without running its
    /// handler.
    fn execute(&mut self) -> (r: Result<(), String>)
        ensures
            final(self).data == old(self).data,
            final(self).max_attempts == old(self).max_attempts,
            final(self).start_time.is_some(),
            r.is_ok() <==> final(self).status == TaskStatus::Success,
            r.is_err() <==> final(self).status == TaskStatus::Failed,
            final(self).cycles@.len() >= old(self).cycles@.len(),
            final(self).cycles@.subrange(0, old(self).cycles@.len() as int) == old(self).cycles@,
            forall|i: int|
                old(self).cycles@.len() <= i < final(self).cycles@.len() - 1 ==> !cycle_ok(
                    #[trigger] final(self).cycles@[i],
                ),
            r.is_ok() <==> final(self).cycles@.len() > old(self).cycles@.len() && cycle_ok(
                final(self).cycles@.last(),
            ),
            r.is_ok() ==> {
                &&& old(self).attempts <= final(self).attempts < final(self).max_attempts
                &&& final(self).cycles@.len() == old(self).cycles@.len() + (final(self).attempts
                    - old(self).attempts) + 1
                &&& final(self).end_time.is_some()
            },
            r.is_err() ==> {
                &&& final(self).attempts == exhausted_attempts(
                    old(self).attempts as int,
                    old(self).max_attempts as int,
                )
                &&& final(self).cycles@.len() == old(self).cycles@.len() + (final(self).attempts
                    - old(self).attempts)
                &&& final(self).end_time == old(self).end_time
            },
            old(self).attempts >= old(self).max_attempts ==> r.is_err() && final(self).cycles@
                == old(self).cycles@ && final(self).attempts == old(self).attempts,
    {
        self.start_time = Some(instant_now());
        self.update_status(TaskStatus::Running);
        let ghost start_attempts = self.attempts as int;
        let ghost start_cycles = self.cycles@;
        loop
            invariant
                self.data == old(self).data,
                self.max_attempts == old(self).max_attempts,
                self.start_time.is_some(),
                self.status == TaskStatus::Running,
                self.end_time == old(self).end_time,
                start_attempts == old(self).attempts,
                start_cycles == old(self).cycles@,
                self.attempts >= start_attempts,
                self.attempts > start_attempts ==> self.attempts <= self.max_attempts,
                self.cycles@.len() == start_cycles.len() + (self.attempts - start_attempts),
                self.cycles@.subrange(0, start_cycles.len() as int) == start_cycles,
                forall|i: int|
                    start_cycles.len() <= i < self.cycles@.len() ==> !cycle_ok(
                        #[trigger] self.cycles@[i],
                    ),
            decreases self.max_attempts - self.attempts,
        {
            if self.attempts >= self.max_attempts {
                self.update_status(TaskStatus::Failed);
                return Err("Maximum retry attempts reached".to_string());
            }
            let before_result = self.handler.before(&self.data);
            let handle_result = self.handler.handle(&self.data);
            let after_result = self.handler.after(&self.data);
            let outcome = CycleOutcome {
                before_ok: before_result.is_ok(),
                handle_ok: handle_result.is_ok(),
                after_ok: after_result.is_ok(),
            };
            let ghost before_cycles = self.cycles@;
            proof {
                self.cycles@ = self.cycles@.push(outcome);
                assert(self.cycles@.subrange(0, start_cycles.len() as int) =~= before_cycles.subrange(
                    0,
                    start_cycles.len() as int,
                ));
            }
            match cycle_step(
                self.attempts,
                self.max_attempts,
                outcome.before_ok,
                outcome.handle_ok,
                outcome.after_ok,
            ) {
                CycleStep::Succeed => {
                    self.end_time = Some(instant_now());
                    self.update_status(TaskStatus::Success);
                    return Ok(());
                },
                CycleStep::Retry(n) => {
                    self.attempts = n;
                },
            }
        }
    }

    fn get_handler(&self) -> (r: &H)
        ensures
            *r == self.handler,
    {
        &self.handler
    }
}

} // verus!
