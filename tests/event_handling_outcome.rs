use nginee_event_loop::EventHandlingOutcome;
use nginee_event_loop::EventHandlingOutcome::{Continue, Exit};

#[test]
fn event_handling_outcome_continue_is_less_than_exit() {
    assert!(EventHandlingOutcome::Continue < EventHandlingOutcome::Exit);
}

#[test]
fn event_handling_outcome_exit_is_greater_than_continue() {
    assert!(EventHandlingOutcome::Exit > EventHandlingOutcome::Continue);
}

#[test]
fn event_handling_outcome_continue_is_equal_to_continue() {
    assert!(EventHandlingOutcome::Continue == EventHandlingOutcome::Continue);
}

#[test]
fn event_handling_outcome_exit_is_equal_to_exit() {
    assert!(EventHandlingOutcome::Exit == EventHandlingOutcome::Exit);
}

#[test]
fn merge_of_outcomes_is_their_maximum() {
    let cases = [
        (Continue, Continue, Continue),
        (Continue, Exit, Exit),
        (Exit, Continue, Exit),
        (Exit, Exit, Exit),
    ];
    for (a, b, expected) in cases {
        assert_eq!(
            Ok::<_, u8>(expected),
            EventHandlingOutcome::merge(Ok::<_, u8>(a), Ok(b))
        );
    }
}

#[test]
fn merge_returns_the_left_error_first() {
    assert_eq!(Err(1u8), EventHandlingOutcome::merge(Err(1u8), Err(2u8)));
    assert_eq!(Err(1u8), EventHandlingOutcome::merge(Err(1u8), Ok(Exit)));
    assert_eq!(Err(1u8), EventHandlingOutcome::merge(Err(1u8), Ok(Continue)));
    assert_eq!(Err(2u8), EventHandlingOutcome::merge(Ok(Continue), Err(2u8)));
    assert_eq!(Err(2u8), EventHandlingOutcome::merge(Ok(Exit), Err(2u8)));
}

#[test]
fn merge_is_commutative_and_associative_without_errors() {
    let all = [Continue, Exit];
    for a in all {
        for b in all {
            assert_eq!(
                EventHandlingOutcome::merge(Ok::<_, u8>(a), Ok(b)),
                EventHandlingOutcome::merge(Ok::<_, u8>(b), Ok(a))
            );
            for c in all {
                let left = EventHandlingOutcome::merge(
                    EventHandlingOutcome::merge(Ok::<_, u8>(a), Ok(b)),
                    Ok(c),
                );
                let right = EventHandlingOutcome::merge(
                    Ok::<_, u8>(a),
                    EventHandlingOutcome::merge(Ok(b), Ok(c)),
                );
                assert_eq!(left, right);
            }
        }
    }
}
