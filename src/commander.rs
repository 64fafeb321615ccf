use vstd::prelude::*;

verus! {

/// What a command sees of the request that triggered it.
pub struct Context {
    pub user_id: Option<String>,
    pub request_id: Option<String>,
}

/// A value that can be drawn from a command context.
pub trait FromContext: Sized {
    fn from_context(ctx: &Context) -> Result<Self, &'static str>;
}

/// The user on whose behalf a command runs.
pub struct UserInfo {
    pub user_id: String,
}

impl FromContext for UserInfo {
    /// The context's user id; an error when it has none.
    fn from_context(ctx: &Context) -> (r: Result<Self, &'static str>)
        ensures
            ctx.user_id is None <==> r is Err,
            ctx.user_id matches Some(u) ==> (r matches Ok(info) && info.user_id@ == u@),
    {
        match &ctx.user_id {
            Some(u) => Ok(UserInfo { user_id: u.clone() }),
            None => Err("user_id not found"),
        }
    }
}

/// The request that triggered a command.
pub struct RequestInfo {
    pub request_id: String,
}

impl FromContext for RequestInfo {
    /// The context's request id; an error when it has none.
    fn from_context(ctx: &Context) -> (r: Result<Self, &'static str>)
        ensures
            ctx.request_id is None <==> r is Err,
            ctx.request_id matches Some(q) ==> (r matches Ok(info) && info.request_id@ == q@),
    {
        match &ctx.request_id {
            Some(q) => Ok(RequestInfo { request_id: q.clone() }),
            None => Err("request_id not found"),
        }
    }
}

/// A command that the embedding application registers and the commander calls.
pub trait CommandHandler {
    fn call(&self, ctx: &Context) -> Result<(), &'static str>;
}

/// Holds registered commands and runs the first one.
pub struct Commander<C: CommandHandler> {
    pub commands: Vec<C>,
}

impl<C: CommandHandler> Commander<C> {
    /// A commander with no command.
    pub fn new() -> (r: Self)
        ensures
            r.commands@.len() == 0,
    {
        Commander { commands: Vec::new() }
    }

    /// Registers `func` after the commands already there.
    pub fn add_command(&mut self, func: C)
        ensures
            final(self).commands@ == old(self).commands@.push(func),
    {
        self.commands.push(func);
    }

    /// Runs the first registered command on `ctx` and returns what it returns; an
    /// error when no command is registered.
    pub fn execute(&self, ctx: &Context) -> (r: Result<(), &'static str>)
        ensures
            self.commands@.len() == 0 ==> r is Err,
            self.commands@.len() > 0 ==> call_ensures(C::call, (&self.commands@[0], ctx), r),
    {
        if self.commands.len() > 0 {
            self.commands[0].call(ctx)
        } else {
            Err("Command not found")
        }
    }
}

} // verus!
