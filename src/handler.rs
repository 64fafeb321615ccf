use vstd::prelude::*;
use crate::clock::instant_now;
use crate::task_executor::{cycle_step, exhausted_attempts, CycleStep};

verus! {

/// A retrying executor built from closures: an optional `before` step, the `handle`
/// step that produces the result, and an optional `after` step that sees it.
///
/// `attempts` counts every attempt made, the successful one included.
pub struct TaskHandler<B, F, A> {
    pub data: serde_json::Value,
    pub max_attempts: i32,
    pub attempts: i32,
    pub start_time: Option<std::time::Instant>,
    pub end_time: Option<std::time::Instant>,
    pub before: Option<B>,
    pub handle: F,
    pub after: Option<A>,
}

/// One attempt of a closure executor and what its steps returned. An attempt
/// stops at its first failing step.
pub enum Attempt<R> {
    /// `before` returned this error.
    BeforeFailed(String),
    /// `before` (if any) succeeded and `handle` returned this error.
    HandleFailed(String),
    /// `before` (if any) succeeded, `handle` returned this value and `after`
    /// returned this error.
    AfterFailed(R, String),
    /// Every step succeeded and `handle` returned this value.
    Succeeded(R),
}

/// Whether every step of `h` may be called on `input`.
pub open spec fn steps_callable<I, R, B, F, A>(h: &TaskHandler<B, F, A>, input: &I) -> bool where
    B: Fn(&I) -> Result<(), String>,
    F: Fn(&I) -> Result<R, String>,
    A: Fn(&I, &R) -> Result<(), String>,
 {
    &&& h.handle.requires((input,))
    &&& h.before matches Some(b) ==> b.requires((input,))
    &&& h.after matches Some(a) ==> forall|r: &R| #[trigger] a.requires((input, r))
}

/// Whether `before` is absent, or may succeed on `input`.
pub open spec fn before_passes<I, B, F, A>(h: &TaskHandler<B, F, A>, input: &I) -> bool where
    B: Fn(&I) -> Result<(), String>,
 {
    h.before matches Some(b) ==> call_ensures(b, (input,), Ok::<(), String>(()))
}

/// Whether attempt `a` is a possible run of the steps of `h` on `input`: each step
/// that it records ran on `input` (and `after` on the value of `handle`) and may
/// have returned what is recorded.
pub open spec fn attempt_possible<I, R, B, F, A>(
    h: &TaskHandler<B, F, A>,
    input: &I,
    a: Attempt<R>,
) -> bool where
    B: Fn(&I) -> Result<(), String>,
    F: Fn(&I) -> Result<R, String>,
    A: Fn(&I, &R) -> Result<(), String>,
 {
    match a {
        Attempt::BeforeFailed(e) => h.before matches Some(b) && call_ensures(
            b,
            (input,),
            Err::<(), String>(e),
        ),
        Attempt::HandleFailed(e) => before_passes(h, input) && call_ensures(
            h.handle,
            (input,),
            Err::<R, String>(e),
        ),
        Attempt::AfterFailed(v, e) => before_passes(h, input) && call_ensures(
            h.handle,
            (input,),
            Ok::<R, String>(v),
        ) && (h.after matches Some(af) && call_ensures(af, (input, &v), Err::<(), String>(e))),
        Attempt::Succeeded(v) => before_passes(h, input) && call_ensures(
            h.handle,
            (input,),
            Ok::<R, String>(v),
        ) && (h.after matches Some(af) ==> call_ensures(af, (input, &v), Ok::<(), String>(()))),
    }
}

/// Whether the attempts `t` may be the run of `h` on `input`: each possible, and
/// none but the last successful.
pub open spec fn attempts_run<I, R, B, F, A>(
    h: &TaskHandler<B, F, A>,
    input: &I,
    t: Seq<Attempt<R>>,
) -> bool where
    B: Fn(&I) -> Result<(), String>,
    F: Fn(&I) -> Result<R, String>,
    A: Fn(&I, &R) -> Result<(), String>,
 {
    &&& forall|i: int| 0 <= i < t.len() ==> attempt_possible(h, input, #[trigger] t[i])
    &&& forall|i: int| 0 <= i < t.len() - 1 ==> !(#[trigger] t[i] is Succeeded)
}

/// Whether no step of `h` can fail on `input`.
pub open spec fn steps_only_succeed<I, R, B, F, A>(h: &TaskHandler<B, F, A>, input: &I) -> bool where
    B: Fn(&I) -> Result<(), String>,
    F: Fn(&I) -> Result<R, String>,
    A: Fn(&I, &R) -> Result<(), String>,
 {
    &&& h.before matches Some(b) ==> forall|res: Result<(), String>|
        #[trigger] call_ensures(b, (input,), res) ==> res is Ok
    &&& forall|res: Result<R, String>| #[trigger] call_ensures(h.handle, (input,), res) ==> res is Ok
    &&& h.after matches Some(af) ==> forall|v: &R, res: Result<(), String>|
        #[trigger] call_ensures(af, (input, v), res) ==> res is Ok
}

/// Running a retrying executor on an input.
pub trait TaskHandlerExecutorTrait<I, R> {
    /// Whether the steps may be called on `input`.
    spec fn callable_on(&self, input: &I) -> bool;

    /// Runs the steps on `input` until one attempt succeeds or the attempts run out.
    fn execute(&mut self, input: &I) -> Result<R, String>
        requires
            old(self).callable_on(input),
    ;
}

impl<I, R, B, F, A> TaskHandlerExecutorTrait<I, R> for TaskHandler<B, F, A> where
    B: Fn(&I) -> Result<(), String>,
    F: Fn(&I) -> Result<R, String>,
    A: Fn(&I, &R) -> Result<(), String>,
 {
    open spec fn callable_on(&self, input: &I) -> bool {
        steps_callable::<I, R, B, F, A>(self, input)
    }

    /// Makes attempts while `attempts < max_attempts`. Each attempt counts, then
    /// runs `before` (if any) on `input`, then `handle` on `input`, then `after`
    /// (if any) on `input` and the result, stopping at the first failing step; the
    /// first attempt in which all succeed returns the result of `handle`. When the
    /// attempts run out, the error says so.
    fn execute(&mut self, input: &I) -> (r: Result<R, String>)
        ensures
            final(self).data == old(self).data,
            final(self).max_attempts == old(self).max_attempts,
            final(self).before == old(self).before,
            final(self).handle == old(self).handle,
            final(self).after == old(self).after,
            final(self).start_time.is_some(),
            exists|t: Seq<Attempt<R>>|
                {
                    &&& #[trigger] attempts_run(old(self), input, t)
                    &&& final(self).attempts == old(self).attempts + t.len()
                    &&& t.len() == 0 || final(self).attempts <= old(self).max_attempts
                    &&& r matches Ok(v) ==> t.len() > 0 && t.last() == Attempt::Succeeded(v)
                    &&& r is Err ==> t.len() == 0 || !(t.last() is Succeeded)
                },
            r is Ok ==> {
                &&& old(self).attempts < final(self).attempts <= final(self).max_attempts
                &&& final(self).end_time.is_some()
            },
            r is Err ==> {
                &&& final(self).attempts == exhausted_attempts(
                    old(self).attempts as int,
                    old(self).max_attempts as int,
                )
                &&& final(self).end_time == old(self).end_time
            },
            old(self).attempts >= old(self).max_attempts ==> r is Err && final(self).attempts
                == old(self).attempts,
            old(self).attempts < old(self).max_attempts && steps_only_succeed::<I, R, B, F, A>(
                old(self),
                input,
            ) ==> r is Ok && final(self).attempts == old(self).attempts + 1,
    {
        self.start_time = Some(instant_now());
        let ghost mut t: Seq<Attempt<R>> = Seq::empty();
        loop
            invariant
                self.data == old(self).data,
                self.max_attempts == old(self).max_attempts,
                self.handle == old(self).handle,
                self.before == old(self).before,
                self.after == old(self).after,
                steps_callable::<I, R, B, F, A>(self, input),
                self.start_time.is_some(),
                self.end_time == old(self).end_time,
                attempts_run(old(self), input, t),
                forall|i: int| 0 <= i < t.len() ==> !(#[trigger] t[i] is Succeeded),
                self.attempts == old(self).attempts + t.len(),
                t.len() == 0 || self.attempts <= self.max_attempts,
                steps_only_succeed::<I, R, B, F, A>(old(self), input) ==> t.len() == 0,
            decreases self.max_attempts - self.attempts,
        {
            if self.attempts >= self.max_attempts {
                return Err("Maximum retry attempts reached".to_string());
            }
            let prev = self.attempts;
            self.attempts = prev + 1;
            let before_result: Result<(), String> = match &self.before {
                Some(before_fn) => before_fn(input),
                None => Ok(()),
            };
            match before_result {
                Err(e) => {
                    proof {
                        let a = Attempt::<R>::BeforeFailed(e);
                        assert(attempt_possible(old(self), input, a));
                        t = t.push(a);
                    }
                },
                Ok(u) => {
                    proof {
                        assert(u == ());
                        assert(before_passes::<I, B, F, A>(old(self), input));
                    }
                    match (self.handle)(input) {
                        Err(e) => {
                            proof {
                                let a = Attempt::<R>::HandleFailed(e);
                                assert(attempt_possible(old(self), input, a));
                                t = t.push(a);
                            }
                        },
                        Ok(v) => {
                            let after_result: Result<(), String> = match &self.after {
                                Some(after_fn) => after_fn(input, &v),
                                None => Ok(()),
                            };
                            match cycle_step(
                                prev,
                                self.max_attempts,
                                true,
                                true,
                                after_result.is_ok(),
                            ) {
                                CycleStep::Succeed => {
                                    self.end_time = Some(instant_now());
                                    proof {
                                        let a = Attempt::Succeeded(v);
                                        assert(after_result is Ok);
                                        let u = after_result->Ok_0;
                                        assert(u == ());
                                        assert(after_result == Ok::<(), String>(u));
                                        if old(self).after is Some {
                                            assert(call_ensures(
                                                old(self).after->Some_0,
                                                (input, &v),
                                                after_result,
                                            ));
                                        }
                                        assert(attempt_possible(old(self), input, a));
                                        let t2 = t.push(a);
                                        assert(attempts_run(old(self), input, t2));
                                        assert(t2.last() == a);
                                    }
                                    return Ok(v);
                                },
                                CycleStep::Retry(_) => {
                                    proof {
                                        assert(after_result is Err);
                                        assert(old(self).after is Some);
                                        let af = old(self).after->Some_0;
                                        assert(call_ensures(af, (input, &v), after_result));
                                        let a = Attempt::AfterFailed(v, after_result->Err_0);
                                        assert(attempt_possible(old(self), input, a));
                                        t = t.push(a);
                                    }
                                },
                            }
                        },
                    }
                },
            }
        }
    }
}

} // verus!
