use vstd::prelude::*;

use crate::event_handling_outcome::EventHandlingOutcome;
use crate::rate_limit::RateLimit;

verus! {

/// One unit of handler logic, run once per call.
pub trait EventHandlerLogic<E>: Sized {
    /// Whether one run of the logic in state `self` can leave it in state
    /// `after` and return `r`.
    spec fn ran(&self, after: &Self, r: Result<EventHandlingOutcome, E>) -> bool;

    /// Runs the logic once, end to end, and tells the event loop what to do next.
    fn run_logic(&mut self) -> (r: Result<EventHandlingOutcome, E>)
        ensures
            old(self).ran(&*final(self), r),
    ;
}

/// Handler logic that works on a context value handed to it on each run.
pub trait ContextHandlerLogic<C, E>: Sized {
    /// Whether one run of the logic in state `self` on `context` can leave
    /// the logic in state `after`, the context as `context_after`, and return `r`.
    spec fn ran_with(
        &self,
        context: &C,
        after: &Self,
        context_after: &C,
        r: Result<EventHandlingOutcome, E>,
    ) -> bool;

    /// Runs the logic once on `context`, which it may change for the next run.
    fn run_with_context(&mut self, context: &mut C) -> (r: Result<EventHandlingOutcome, E>)
        ensures
            old(self).ran_with(&*old(context), &*final(self), &*final(context), r),
    ;
}

/// Logic paired with the context that is lent to it for the length of each run.
#[derive(Debug)]
pub struct WithContext<C, L> {
    context: C,
    logic: L,
}

impl<C, L> WithContext<C, L> {
    /// The context held between two runs.
    pub closed spec fn context_spec(&self) -> C {
        self.context
    }

    /// The logic that is lent the context.
    pub closed spec fn logic_spec(&self) -> L {
        self.logic
    }

    /// Returns the context held between two runs.
    pub fn context(&self) -> (r: &C)
        ensures
            *r == self.context_spec(),
    {
        &self.context
    }
}

impl<C, E, L: ContextHandlerLogic<C, E>> EventHandlerLogic<E> for WithContext<C, L> {
    closed spec fn ran(&self, after: &Self, r: Result<EventHandlingOutcome, E>) -> bool {
        self.logic.ran_with(&self.context, &after.logic, &after.context, r)
    }

    fn run_logic(&mut self) -> (r: Result<EventHandlingOutcome, E>) {
        self.logic.run_with_context(&mut self.context)
    }
}

/// Handler logic together with the rate limit that the event loop applies to it.
#[derive(Debug)]
pub struct EventHandler<L> {
    logic: L,
    rate_limit: Option<RateLimit>,
}

impl<L> EventHandler<L> {
    /// The logic that this handler runs.
    pub closed spec fn logic_spec(&self) -> L {
        self.logic
    }

    /// Rate to limit this event handler's execution; `None` runs it whenever the loop turns.
    pub closed spec fn rate_limit_spec(&self) -> Option<RateLimit> {
        self.rate_limit
    }

    /// Returns the logic that this handler runs.
    pub fn logic(&self) -> (r: &L)
        ensures
            *r == self.logic_spec(),
    {
        &self.logic
    }

    /// Returns the rate limit of this event handler, if any.
    pub fn rate_limit(&self) -> (r: Option<RateLimit>)
        ensures
            r == self.rate_limit_spec(),
    {
        self.rate_limit
    }

    /// Returns a new event handler without a rate limit.
    pub fn new(logic: L) -> (r: EventHandler<L>)
        ensures
            r.logic_spec() == logic,
            r.rate_limit_spec() is None,
    {
        EventHandler { logic, rate_limit: None }
    }

    /// Returns a new event handler whose logic is lent `context` on each run.
    pub fn new_with_context<C>(context: C, logic: L) -> (r: EventHandler<WithContext<C, L>>)
        ensures
            r.logic_spec().context_spec() == context,
            r.logic_spec().logic_spec() == logic,
            r.rate_limit_spec() is None,
    {
        EventHandler { logic: WithContext { context, logic }, rate_limit: None }
    }

    /// Sets the rate limit for this event handler.
    pub fn with_rate_limit(self, rate_limit: RateLimit) -> (r: EventHandler<L>)
        ensures
            r.logic_spec() == self.logic_spec(),
            r.rate_limit_spec() == Some(rate_limit),
    {
        EventHandler { logic: self.logic, rate_limit: Some(rate_limit) }
    }

    /// Runs the event handler logic once.
    pub fn run<E>(&mut self) -> (r: Result<EventHandlingOutcome, E>)
        where
            L: EventHandlerLogic<E>,
        ensures
            old(self).logic_spec().ran(&final(self).logic_spec(), r),
            final(self).rate_limit_spec() == old(self).rate_limit_spec(),
    {
        self.logic.run_logic()
    }
}

} // verus!
