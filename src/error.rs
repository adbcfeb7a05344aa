use vstd::prelude::*;

verus! {

/// Errors raised while configuring the event loop.
#[derive(Clone, Copy, Debug, PartialEq, Eq, Structural)]
pub enum Error {
    /// The requested frames per second were zero.
    RateLimitFpsZero,
}

/// The human readable text of an error.
pub open spec fn error_message(e: Error) -> Seq<char> {
    match e {
        Error::RateLimitFpsZero => "FPS must be greater than zero."@,
    }
}

impl Error {
    /// Returns a human readable message describing the error.
    pub fn message(&self) -> (r: String)
        ensures
            r@ == error_message(*self),
    {
        match self {
            Error::RateLimitFpsZero => String::from_str("FPS must be greater than zero."),
        }
    }
}

} // verus!
