use vstd::prelude::*;

pub mod error;
pub mod event_handler;
pub mod event_handling_outcome;
pub mod event_loop;
pub mod rate_limit;
pub mod rate_limiter;

pub use crate::error::Error;
pub use crate::event_handler::{ContextHandlerLogic, EventHandler, EventHandlerLogic, WithContext};
pub use crate::event_handling_outcome::EventHandlingOutcome;
pub use crate::event_loop::{
    loop_control, select_next, termination, EventLoop, LoopControl, Slot, Step, Tick,
};
pub use crate::rate_limit::{Quota, RateLimit};
pub use crate::rate_limiter::{RateLimitCheck, RateLimiter};

verus! {

} // verus!
