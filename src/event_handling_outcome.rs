use vstd::prelude::*;

verus! {

/// Indicates what to do after running an event handler.
#[derive(Clone, Copy, Debug, PartialEq, Eq, Structural, Ord)]
pub enum EventHandlingOutcome {
    /// Continue running the event loop.
    Continue,
    /// End the event loop execution.
    Exit,
}

/// Position of an outcome in the order `Continue < Exit`.
pub open spec fn outcome_rank(o: EventHandlingOutcome) -> int {
    match o {
        EventHandlingOutcome::Continue => 0,
        EventHandlingOutcome::Exit => 1,
    }
}

/// The greater of two outcomes.
pub open spec fn max_outcome(a: EventHandlingOutcome, b: EventHandlingOutcome) -> EventHandlingOutcome {
    if outcome_rank(a) >= outcome_rank(b) {
        a
    } else {
        b
    }
}

/// Combines two handler results: the first error wins, otherwise the greater outcome.
pub open spec fn merge_spec<E>(
    base: Result<EventHandlingOutcome, E>,
    patch: Result<EventHandlingOutcome, E>,
) -> Result<EventHandlingOutcome, E> {
    match base {
        Err(e) => Err(e),
        Ok(a) => match patch {
            Err(e) => Err(e),
            Ok(b) => Ok(max_outcome(a, b)),
        },
    }
}

impl PartialOrd for EventHandlingOutcome {
    fn partial_cmp(&self, other: &EventHandlingOutcome) -> (r: Option<core::cmp::Ordering>) {
        match (self, other) {
            (EventHandlingOutcome::Continue, EventHandlingOutcome::Exit) => Some(core::cmp::Ordering::Less),
            (EventHandlingOutcome::Exit, EventHandlingOutcome::Continue) => Some(core::cmp::Ordering::Greater),
            _ => Some(core::cmp::Ordering::Equal),
        }
    }
}

impl vstd::std_specs::cmp::PartialOrdSpecImpl for EventHandlingOutcome {
    open spec fn obeys_partial_cmp_spec() -> bool {
        true
    }

    open spec fn partial_cmp_spec(&self, other: &EventHandlingOutcome) -> Option<core::cmp::Ordering> {
        if outcome_rank(*self) < outcome_rank(*other) {
            Some(core::cmp::Ordering::Less)
        } else if outcome_rank(*self) > outcome_rank(*other) {
            Some(core::cmp::Ordering::Greater)
        } else {
            Some(core::cmp::Ordering::Equal)
        }
    }
}

impl EventHandlingOutcome {
    /// Merges two results of running event handlers.
    ///
    /// An error on either side is returned, the one of `base` first; otherwise
    /// the greater of the two outcomes is returned, so `Exit` beats `Continue`.
    pub fn merge<E>(
        base: Result<EventHandlingOutcome, E>,
        patch: Result<EventHandlingOutcome, E>,
    ) -> (r: Result<EventHandlingOutcome, E>)
        ensures
            r == merge_spec(base, patch),
    {
        match base {
            Err(e) => Err(e),
            Ok(outcome_base) => match patch {
                Err(e) => Err(e),
                Ok(outcome_patch) => {
                    if outcome_base == EventHandlingOutcome::Exit {
                        Ok(outcome_base)
                    } else {
                        Ok(outcome_patch)
                    }
                },
            },
        }
    }
}

/// Merging two outcomes yields their maximum: `Exit` as soon as either side is `Exit`.
pub proof fn lemma_merge_ok_is_max<E>(a: EventHandlingOutcome, b: EventHandlingOutcome)
    ensures
        merge_spec::<E>(Ok(a), Ok(b)) == Ok::<EventHandlingOutcome, E>(max_outcome(a, b)),
        outcome_rank(max_outcome(a, b)) == if outcome_rank(a) >= outcome_rank(b) {
            outcome_rank(a)
        } else {
            outcome_rank(b)
        },
        merge_spec::<E>(Ok(EventHandlingOutcome::Continue), Ok(EventHandlingOutcome::Exit))
            == Ok::<EventHandlingOutcome, E>(EventHandlingOutcome::Exit),
        merge_spec::<E>(Ok(EventHandlingOutcome::Exit), Ok(EventHandlingOutcome::Exit))
            == Ok::<EventHandlingOutcome, E>(EventHandlingOutcome::Exit),
{
}

/// On results without errors, merging is commutative and associative, so the
/// order in which handlers are folded does not change the outcome.
pub proof fn lemma_merge_ok_commutative_associative<E>(
    a: EventHandlingOutcome,
    b: EventHandlingOutcome,
    c: EventHandlingOutcome,
)
    ensures
        merge_spec::<E>(Ok(a), Ok(b)) == merge_spec::<E>(Ok(b), Ok(a)),
        merge_spec::<E>(merge_spec::<E>(Ok(a), Ok(b)), Ok(c))
            == merge_spec::<E>(Ok(a), merge_spec::<E>(Ok(b), Ok(c))),
{
}

/// An error on the left wins over anything on the right, and an error on the
/// right wins over any outcome on the left.
pub proof fn lemma_merge_error_wins<E>(e: E, r: Result<EventHandlingOutcome, E>, o: EventHandlingOutcome)
    ensures
        merge_spec(Err(e), r) == Err::<EventHandlingOutcome, E>(e),
        merge_spec(Ok(o), Err(e)) == Err::<EventHandlingOutcome, E>(e),
{
}

} // verus!
