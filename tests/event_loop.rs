use crossbeam_channel::{SendError, Sender};
use nginee_event_loop::{
    loop_control, select_next, termination, ContextHandlerLogic, EventHandler, EventHandlerLogic,
    EventHandlingOutcome, EventLoop, LoopControl, RateLimit, Slot, Step,
};

/// Simulated time that each handler run takes, in nanoseconds.
const RUN_NANOS: u64 = 100_000;

#[derive(Clone)]
enum Logic {
    Send(Sender<()>),
    Countdown(u32),
    Fail,
}

impl EventHandlerLogic<SendError<()>> for Logic {
    fn ran(&self, after: &Self, r: Result<EventHandlingOutcome, SendError<()>>) -> bool {
        match (self, after) {
            (Logic::Send(_), Logic::Send(_)) => r != Ok(EventHandlingOutcome::Exit),
            (Logic::Countdown(before), Logic::Countdown(count)) => {
                *before >= 1
                    && *count == *before - 1
                    && r == Ok(if *count > 0 {
                        EventHandlingOutcome::Continue
                    } else {
                        EventHandlingOutcome::Exit
                    })
            }
            (Logic::Fail, Logic::Fail) => r == Err(SendError(())),
            _ => false,
        }
    }

    fn run_logic(&mut self) -> Result<EventHandlingOutcome, SendError<()>> {
        match self {
            Logic::Send(tx) => {
                tx.send(())?;
                Ok(EventHandlingOutcome::Continue)
            }
            Logic::Countdown(count) => {
                *count -= 1;
                if *count > 0 {
                    Ok(EventHandlingOutcome::Continue)
                } else {
                    Ok(EventHandlingOutcome::Exit)
                }
            }
            Logic::Fail => Err(SendError(())),
        }
    }
}

fn sender(tx: Sender<()>) -> EventHandler<Logic> {
    EventHandler::new(Logic::Send(tx))
}

fn countdown(count: u32) -> EventHandler<Logic> {
    EventHandler::new(Logic::Countdown(count))
}

fn errorer() -> EventHandler<Logic> {
    EventHandler::new(Logic::Fail)
}

/// Drives the loop on a simulated clock until it stops or `budget` nanoseconds pass.
fn drive<L, E>(event_loop: &mut EventLoop<L>, budget: u64) -> Option<Result<(), E>>
where
    L: EventHandlerLogic<E>,
{
    let mut now: u64 = 0;
    if event_loop.is_rate_limited() {
        while now < budget {
            match event_loop.run_next(now) {
                Step::Ran(_, result) => {
                    if let Some(end) = termination(result) {
                        return Some(end);
                    }
                    now += RUN_NANOS;
                }
                Step::WaitUntil(instant) => now = instant,
                Step::Idle => return None,
            }
        }
    } else {
        while now < budget {
            let tick = event_loop.run_once(now);
            if let Some(end) = termination(tick.outcome) {
                return Some(end);
            }
            now += RUN_NANOS;
        }
    }
    None
}

fn run<L, E>(event_loop: EventLoop<L>) -> Result<(), E>
where
    L: EventHandlerLogic<E>,
{
    let mut event_loop = event_loop;
    drive(&mut event_loop, u64::MAX).unwrap()
}

#[test]
fn headless_run_runs_event_handlers_until_exit_is_signalled() -> Result<(), SendError<()>> {
    let (tx, rx) = crossbeam_channel::bounded(10);
    let event_handler_send = sender(tx);
    let event_handler_countdown = countdown(3);

    let event_loop = EventLoop::new(vec![event_handler_send, event_handler_countdown]);

    run(event_loop)?;

    let count = rx.try_iter().collect::<Vec<()>>().len();
    assert_eq!(3, count);

    Ok(())
}

#[test]
fn headless_run_returns_on_first_error() -> Result<(), SendError<()>> {
    let (tx, _rx) = crossbeam_channel::bounded(10);
    let event_handler_send = sender(tx);
    let event_handler_countdown = countdown(3);

    let event_loop = EventLoop::new(vec![event_handler_send, errorer(), event_handler_countdown]);

    assert_eq!(SendError(()), run(event_loop).unwrap_err());

    Ok(())
}

#[test]
fn headless_event_handlers_are_rate_limited_independently() -> Result<(), SendError<()>> {
    let (tx0, rx0) = crossbeam_channel::unbounded();
    let event_handler_send_0 = sender(tx0);

    let (tx1, rx1) = crossbeam_channel::bounded(10);
    let event_handler_send_1 = sender(tx1).with_rate_limit(RateLimit::interval(2_000_000));
    let event_handler_countdown = countdown(3).with_rate_limit(RateLimit::interval(3_000_000));

    let event_loop = EventLoop::new(vec![
        event_handler_countdown,
        event_handler_send_1,
        event_handler_send_0,
    ]);

    run(event_loop)?;

    let count_0 = rx0.try_iter().collect::<Vec<()>>().len();
    let count_1 = rx1.try_iter().collect::<Vec<()>>().len();

    assert!(count_0 >= 8, "count_0: {}", count_0);
    assert!(count_1 >= 2, "count_1: {}", count_1);
    assert!(count_1 <= 6, "count_1: {}", count_1);

    Ok(())
}

#[test]
fn event_loop_run_runs_event_handlers_until_exit_is_signalled() -> Result<(), SendError<()>> {
    let (tx, rx) = crossbeam_channel::bounded(10);
    let event_loop = EventLoop::new(vec![sender(tx), countdown(3)]);

    run(event_loop)?;

    let count = rx.try_iter().collect::<Vec<()>>().len();
    assert_eq!(3, count);

    Ok(())
}

#[test]
fn event_loop_run_returns_on_first_error() -> Result<(), SendError<()>> {
    let (tx, _rx) = crossbeam_channel::bounded(10);
    let event_loop = EventLoop::new(vec![sender(tx), errorer(), countdown(3)]);

    assert_eq!(SendError(()), run(event_loop).unwrap_err());

    Ok(())
}

#[test]
fn error_stops_the_loop_before_the_other_handlers_finish() {
    let (tx, rx) = crossbeam_channel::bounded(10);
    let event_loop = EventLoop::new(vec![sender(tx), countdown(3), errorer()]);

    assert_eq!(Err(SendError(())), run(event_loop));

    let count = rx.try_iter().count();
    assert!(count < 3, "count: {}", count);
    assert_eq!(1, count);
}

#[test]
fn unlimited_handler_runs_more_often_than_rate_limited_ones() {
    let (tx_a, rx_a) = crossbeam_channel::unbounded();
    let (tx_b, rx_b) = crossbeam_channel::unbounded();
    let (tx_c, rx_c) = crossbeam_channel::unbounded();
    let mut event_loop = EventLoop::new(vec![
        sender(tx_a),
        sender(tx_b).with_rate_limit(RateLimit::interval(3_000_000)),
        sender(tx_c).with_rate_limit(RateLimit::interval(2_000_000)),
    ]);

    let budget: u64 = 30_000_000;
    assert!(drive::<Logic, SendError<()>>(&mut event_loop, budget).is_none());

    let count_a = rx_a.try_iter().count();
    let count_b = rx_b.try_iter().count();
    let count_c = rx_c.try_iter().count();
    let expected_b = (budget / 3_000_000) as usize;
    let expected_c = (budget / 2_000_000) as usize;
    assert!(count_b + 2 >= expected_b && count_b <= expected_b + 1, "count_b: {}", count_b);
    assert!(count_c + 2 >= expected_c && count_c <= expected_c + 1, "count_c: {}", count_c);
    assert!(count_a > count_b && count_a > count_c, "count_a: {}", count_a);
}

#[test]
fn run_once_skips_handlers_that_are_not_due() {
    let (tx_a, rx_a) = crossbeam_channel::unbounded();
    let (tx_b, rx_b) = crossbeam_channel::unbounded();
    let mut event_loop = EventLoop::new(vec![
        sender(tx_a),
        sender(tx_b).with_rate_limit(RateLimit::interval(5_000)),
    ]);

    let tick = event_loop.run_once::<SendError<()>>(1_000);
    assert_eq!(Ok(EventHandlingOutcome::Continue), tick.outcome);
    assert_eq!(2, tick.visited);
    assert_eq!(Some(1_000), tick.next_due);

    let tick = event_loop.run_once::<SendError<()>>(2_000);
    assert_eq!(Ok(EventHandlingOutcome::Continue), tick.outcome);
    assert_eq!(Some(2_000), tick.next_due);

    assert_eq!(2, rx_a.try_iter().count());
    assert_eq!(1, rx_b.try_iter().count());
}

#[test]
fn run_once_reports_when_a_limited_handler_is_next_due() {
    let (tx, rx) = crossbeam_channel::unbounded();
    let mut event_loop = EventLoop::new(vec![
        sender(tx).with_rate_limit(RateLimit::interval(5_000)),
        countdown(10).with_rate_limit(RateLimit::interval(7_000)),
    ]);

    let tick = event_loop.run_once::<SendError<()>>(1_000);
    assert_eq!(Ok(EventHandlingOutcome::Continue), tick.outcome);
    assert_eq!(Some(6_000), tick.next_due);

    let tick = event_loop.run_once::<SendError<()>>(6_000);
    assert_eq!(Some(8_000), tick.next_due);
    assert_eq!(2, rx.try_iter().count());
}

#[test]
fn run_once_merges_exit_from_any_handler() {
    let (tx, rx) = crossbeam_channel::unbounded();
    let mut event_loop = EventLoop::new(vec![countdown(1), sender(tx)]);

    let tick = event_loop.run_once::<SendError<()>>(0);
    assert_eq!(Ok(EventHandlingOutcome::Exit), tick.outcome);
    assert_eq!(2, tick.visited);
    assert_eq!(1, rx.try_iter().count());
}

#[test]
fn run_once_stops_at_the_first_error() {
    let (tx, rx) = crossbeam_channel::unbounded();
    let mut event_loop = EventLoop::new(vec![errorer(), sender(tx)]);

    let tick = event_loop.run_once::<SendError<()>>(0);
    assert_eq!(Err(SendError(())), tick.outcome);
    assert_eq!(1, tick.visited);
    assert_eq!(None, tick.next_due);
    assert_eq!(0, rx.try_iter().count());
}

#[test]
fn run_next_takes_unlimited_handlers_in_turn() {
    let (tx_a, rx_a) = crossbeam_channel::unbounded();
    let (tx_b, rx_b) = crossbeam_channel::unbounded();
    let mut event_loop = EventLoop::new(vec![sender(tx_a), sender(tx_b)]);

    let mut order = Vec::new();
    for _ in 0..4 {
        match event_loop.run_next::<SendError<()>>(0) {
            Step::Ran(index, result) => {
                assert_eq!(Ok(EventHandlingOutcome::Continue), result);
                order.push(index);
            }
            _ => panic!("a handler should have run"),
        }
    }
    assert_eq!(vec![0, 1, 0, 1], order);
    assert_eq!(2, rx_a.try_iter().count());
    assert_eq!(2, rx_b.try_iter().count());
}

#[test]
fn run_next_waits_for_the_earliest_limiter() {
    let (tx_a, _rx_a) = crossbeam_channel::unbounded();
    let (tx_b, _rx_b) = crossbeam_channel::unbounded();
    let mut event_loop = EventLoop::new(vec![
        sender(tx_a).with_rate_limit(RateLimit::interval(5_000)),
        sender(tx_b).with_rate_limit(RateLimit::interval(3_000)),
    ]);

    assert!(matches!(event_loop.run_next::<SendError<()>>(0), Step::Ran(0, Ok(_))));
    assert!(matches!(event_loop.run_next::<SendError<()>>(0), Step::Ran(1, Ok(_))));
    assert!(matches!(event_loop.run_next::<SendError<()>>(1_000), Step::WaitUntil(3_000)));
    assert!(matches!(event_loop.run_next::<SendError<()>>(3_000), Step::Ran(1, Ok(_))));
    assert!(matches!(event_loop.run_next::<SendError<()>>(3_000), Step::WaitUntil(5_000)));
}

#[test]
fn run_next_on_no_handlers_is_idle() {
    let mut event_loop: EventLoop<Logic> = EventLoop::new(Vec::new());
    assert!(matches!(event_loop.run_next::<SendError<()>>(0), Step::Idle));
    assert_eq!(0, event_loop.len());
}

#[test]
fn select_next_orders_by_instant_then_round_robin_then_index() {
    let slot = |last_run_nanos: u64, seq: u64| Slot { limiter: None, last_run_nanos, seq };
    assert_eq!(None, select_next(&Vec::new()));
    assert_eq!(Some(1), select_next(&vec![slot(5, 0), slot(4, 1)]));
    assert_eq!(Some(1), select_next(&vec![slot(4, 3), slot(4, 2)]));
    assert_eq!(Some(0), select_next(&vec![slot(4, 2), slot(4, 2)]));
}

#[test]
fn termination_follows_the_outcome() {
    assert_eq!(None, termination::<u8>(Ok(EventHandlingOutcome::Continue)));
    assert_eq!(Some(Ok(())), termination::<u8>(Ok(EventHandlingOutcome::Exit)));
    assert_eq!(Some(Err(7u8)), termination(Err(7u8)));
}

struct CountTo(u32);

impl ContextHandlerLogic<u32, SendError<()>> for CountTo {
    fn ran_with(
        &self,
        context: &u32,
        after: &Self,
        context_after: &u32,
        r: Result<EventHandlingOutcome, SendError<()>>,
    ) -> bool {
        let expected = if *context_after >= self.0 {
            EventHandlingOutcome::Exit
        } else {
            EventHandlingOutcome::Continue
        };
        after.0 == self.0 && *context_after == *context + 1 && r == Ok(expected)
    }

    fn run_with_context(&mut self, context: &mut u32) -> Result<EventHandlingOutcome, SendError<()>> {
        *context += 1;
        if *context >= self.0 {
            Ok(EventHandlingOutcome::Exit)
        } else {
            Ok(EventHandlingOutcome::Continue)
        }
    }
}

#[test]
fn context_is_threaded_through_successive_runs() {
    let mut handler = EventHandler::<CountTo>::new_with_context(10u32, CountTo(12));
    assert_eq!(Ok(EventHandlingOutcome::Continue), handler.run::<SendError<()>>());
    assert_eq!(Ok(EventHandlingOutcome::Exit), handler.run::<SendError<()>>());
    assert_eq!(12, *handler.logic().context());
    assert!(handler.rate_limit().is_none());

    let fps = RateLimit::fps(30).unwrap();
    let handler = handler.with_rate_limit(fps);
    assert_eq!(Some(fps), handler.rate_limit());
}

#[test]
fn loop_control_waits_for_the_next_due_handler() {
    let (tx, _rx) = crossbeam_channel::unbounded();
    let mut event_loop = EventLoop::new(vec![sender(tx).with_rate_limit(RateLimit::interval(5_000))]);

    let tick = event_loop.run_once::<SendError<()>>(1_000);
    assert!(matches!(loop_control(tick, 1_000), LoopControl::WaitUntil(6_000)));

    let tick = event_loop.run_once::<SendError<()>>(6_000);
    assert!(matches!(loop_control(tick, 11_000), LoopControl::Poll));
}

#[test]
fn loop_control_stops_on_exit_or_error_only() {
    let (tx, _rx) = crossbeam_channel::unbounded();
    let mut exiting = EventLoop::new(vec![sender(tx), countdown(1)]);
    let tick = exiting.run_once::<SendError<()>>(0);
    assert!(matches!(loop_control(tick, 0), LoopControl::Exit(Ok(()))));

    let mut failing = EventLoop::new(vec![errorer()]);
    let tick = failing.run_once::<SendError<()>>(0);
    assert!(matches!(loop_control(tick, 0), LoopControl::Exit(Err(SendError(())))));

    let mut empty: EventLoop<Logic> = EventLoop::new(Vec::new());
    let tick = empty.run_once::<SendError<()>>(0);
    assert_eq!(Ok(EventHandlingOutcome::Continue), tick.outcome);
    assert!(matches!(loop_control(tick, 0), LoopControl::Poll));
}

#[test]
fn loop_control_polls_while_an_unlimited_handler_is_due() {
    let (tx, _rx) = crossbeam_channel::unbounded();
    let mut event_loop = EventLoop::new(vec![sender(tx)]);
    let tick = event_loop.run_once::<SendError<()>>(42);
    assert!(matches!(loop_control(tick, 42), LoopControl::Poll));
}

#[test]
fn context_handler_runs_in_a_loop_until_exit() {
    let event_loop = EventLoop::new(vec![EventHandler::new_with_context(0u32, CountTo(3))]);
    assert_eq!(Ok(()), run::<_, SendError<()>>(event_loop));
}

#[test]
fn handler_runs_match_their_logic() {
    let (tx, rx) = crossbeam_channel::unbounded();
    for logic in [Logic::Send(tx), Logic::Countdown(2), Logic::Countdown(1), Logic::Fail] {
        let before = logic.clone();
        let mut handler = EventHandler::new(logic);
        let result = handler.run::<SendError<()>>();
        assert!(before.ran(handler.logic(), result));
    }
    assert_eq!(1, rx.try_iter().count());

    let mut handler = EventHandler::<CountTo>::new_with_context(4u32, CountTo(6));
    let before = *handler.logic().context();
    let result = handler.run::<SendError<()>>();
    assert_eq!(Ok(EventHandlingOutcome::Continue), result);
    assert!(CountTo(6).ran_with(&before, &CountTo(6), handler.logic().context(), result));
}
