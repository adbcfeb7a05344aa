use vstd::prelude::*;

use crate::event_handler::{EventHandler, EventHandlerLogic};
use crate::event_handling_outcome::{merge_spec, EventHandlingOutcome};
use crate::rate_limit::RateLimit;
use crate::rate_limiter::{check_spec, RateLimitCheck, RateLimiter};

verus! {

/// Scheduling state of one event handler.
#[derive(Clone, Copy, Debug, PartialEq, Eq, Structural)]
pub struct Slot {
    /// The handler's rate limiter; `None` for a handler that is always due.
    pub limiter: Option<RateLimiter>,
    /// The instant at which the handler last ran, in nanoseconds.
    pub last_run_nanos: u64,
    /// Place of the handler in the round-robin order: lower runs first.
    pub seq: u64,
}

/// The limiter that a handler with `rate_limit` starts with.
pub open spec fn limiter_for(rate_limit: Option<RateLimit>) -> Option<RateLimiter> {
    match rate_limit {
        None => None,
        Some(rl) => match rl.quota_spec() {
            None => None,
            Some(q) => Some(
                RateLimiter { replenish_interval_nanos: q.replenish_interval_nanos, next_allowed_nanos: 0 },
            ),
        },
    }
}

/// The slot that the handler at `index` starts with.
pub open spec fn initial_slot(rate_limit: Option<RateLimit>, index: int) -> Slot {
    Slot { limiter: limiter_for(rate_limit), last_run_nanos: 0, seq: index as u64 }
}

/// Whether the handler of `slot` may run at `now`.
pub open spec fn is_due(slot: Slot, now: u64) -> bool {
    match slot.limiter {
        None => true,
        Some(l) => now >= l.next_allowed_nanos,
    }
}

/// The slot after its handler was checked for being due at `now`; a due
/// handler's limiter has given up a token.
pub open spec fn check_slot(slot: Slot, now: u64) -> Slot {
    match slot.limiter {
        None => slot,
        Some(l) => Slot { limiter: Some(check_spec(l, now).0), ..slot },
    }
}

/// The earliest instant, not before `now`, at which the handler of `slot` may run.
pub open spec fn next_due_of(slot: Slot, now: u64) -> u64 {
    match slot.limiter {
        None => now,
        Some(l) => if l.next_allowed_nanos > now {
            l.next_allowed_nanos
        } else {
            now
        },
    }
}

/// The earliest instant at which any handler of `slots` may run.
pub open spec fn min_next_due(slots: Seq<Slot>, now: u64) -> Option<u64>
    decreases slots.len(),
{
    if slots.len() == 0 {
        None
    } else {
        let d = next_due_of(slots.last(), now);
        match min_next_due(slots.drop_last(), now) {
            None => Some(d),
            Some(m) => Some(
                if d < m {
                    d
                } else {
                    m
                },
            ),
        }
    }
}

/// How many of `slots` are due at `now`.
pub open spec fn due_count(slots: Seq<Slot>, now: u64) -> nat
    decreases slots.len(),
{
    if slots.len() == 0 {
        0
    } else {
        due_count(slots.drop_last(), now) + if is_due(slots.last(), now) {
            1nat
        } else {
            0nat
        }
    }
}

/// Handler results folded from the left with `merge`, starting from `Continue`.
pub open spec fn fold_results<E>(results: Seq<Result<EventHandlingOutcome, E>>) -> Result<
    EventHandlingOutcome,
    E,
>
    decreases results.len(),
{
    if results.len() == 0 {
        Ok(EventHandlingOutcome::Continue)
    } else {
        merge_spec(fold_results(results.drop_last()), results.last())
    }
}

/// The instant from which the handler of `slot` is ready to run again: for a
/// handler without a limiter, the instant at which it last ran.
pub open spec fn ready_instant(slot: Slot) -> u64 {
    match slot.limiter {
        None => slot.last_run_nanos,
        Some(l) => l.next_allowed_nanos,
    }
}

/// Whether slot `a` at index `ia` comes before slot `b` at index `ib` in the
/// multiplexed order: the earlier ready instant first, then the lower place in
/// the round-robin order, then the lower index.
pub open spec fn precedes(a: Slot, ia: int, b: Slot, ib: int) -> bool {
    ||| ready_instant(a) < ready_instant(b)
    ||| ready_instant(a) == ready_instant(b) && a.seq < b.seq
    ||| ready_instant(a) == ready_instant(b) && a.seq == b.seq && ia < ib
}

/// The slot of a handler that ran at `now` and took place `seq` in the round-robin order.
pub open spec fn ran_slot(slot: Slot, now: u64, seq: u64) -> Slot {
    Slot { limiter: check_slot(slot, now).limiter, last_run_nanos: now, seq }
}

/// The place in the round-robin order after `seq`, held at the end of the range.
pub open spec fn seq_after(seq: u64) -> u64 {
    if seq == u64::MAX {
        seq
    } else {
        (seq + 1) as u64
    }
}

impl Slot {
    /// Returns the instant from which this handler is ready to run again.
    pub fn ready_at(&self) -> (r: u64)
        ensures
            r == ready_instant(*self),
    {
        match self.limiter {
            None => self.last_run_nanos,
            Some(l) => l.next_allowed(),
        }
    }
}

/// Returns the index of the slot that comes first in the multiplexed order,
/// or `None` if there is none.
pub fn select_next(slots: &Vec<Slot>) -> (r: Option<usize>)
    ensures
        r is None <==> slots@.len() == 0,
        r matches Some(i) ==> i < slots@.len() && forall|j: int|
            0 <= j < slots@.len() && j != i ==> precedes(slots@[i as int], i as int, #[trigger] slots@[j], j),
{
    if slots.len() == 0 {
        return None;
    }
    let mut best: usize = 0;
    let mut best_ready: u64 = slots[0].ready_at();
    let mut i: usize = 1;
    while i < slots.len()
        invariant
            1 <= i <= slots@.len(),
            best < i,
            best_ready == ready_instant(slots@[best as int]),
            forall|j: int|
                0 <= j < i && j != best ==> precedes(slots@[best as int], best as int, #[trigger] slots@[j], j),
        decreases slots@.len() - i,
    {
        let ready = slots[i].ready_at();
        if ready < best_ready || (ready == best_ready && slots[i].seq < slots[best].seq) {
            best = i;
            best_ready = ready;
        }
        i = i + 1;
    }
    Some(best)
}

/// What the loop does after a pass or a step with this result: `None` to go
/// on, `Some(Ok(()))` to stop on `Exit`, `Some(Err(e))` to stop on an error.
pub open spec fn termination_spec<E>(outcome: Result<EventHandlingOutcome, E>) -> Option<Result<(), E>> {
    match outcome {
        Ok(EventHandlingOutcome::Continue) => None,
        Ok(EventHandlingOutcome::Exit) => Some(Ok(())),
        Err(e) => Some(Err(e)),
    }
}

/// Decides whether the loop stops after a handler result: it goes on after
/// `Continue`, ends with success on `Exit` and with the error on an error.
pub fn termination<E>(outcome: Result<EventHandlingOutcome, E>) -> (r: Option<Result<(), E>>)
    ensures
        r == termination_spec(outcome),
{
    match outcome {
        Ok(EventHandlingOutcome::Continue) => None,
        Ok(EventHandlingOutcome::Exit) => Some(Ok(())),
        Err(e) => Some(Err(e)),
    }
}

/// Folding results without error gives `Exit` exactly when one of them is
/// `Exit`, whatever their order; the first error in a fold is its result.
pub proof fn lemma_fold_results<E>(results: Seq<Result<EventHandlingOutcome, E>>)
    ensures
        (forall|k: int| 0 <= k < results.len() ==> (#[trigger] results[k]) is Ok) ==> {
            &&& fold_results(results) is Ok
            &&& (fold_results(results) == Ok::<EventHandlingOutcome, E>(EventHandlingOutcome::Exit)
                <==> exists|k: int|
                0 <= k < results.len() && #[trigger] results[k] == Ok::<EventHandlingOutcome, E>(
                    EventHandlingOutcome::Exit,
                ))
        },
        forall|k: int|
            0 <= k < results.len() && (#[trigger] results[k]) is Err && (forall|m: int|
                0 <= m < k ==> (#[trigger] results[m]) is Ok) ==> fold_results(results) == results[k],
    decreases results.len(),
{
    if results.len() > 0 {
        let prefix = results.drop_last();
        lemma_fold_results(prefix);
        assert forall|k: int| 0 <= k < prefix.len() implies prefix[k] == results[k] by {}
        let last = results.len() - 1;
        if forall|k: int| 0 <= k < results.len() ==> (#[trigger] results[k]) is Ok {
            assert forall|k: int| 0 <= k < prefix.len() implies (#[trigger] prefix[k]) is Ok by {
                assert(results[k] is Ok);
            }
            if fold_results(results) == Ok::<EventHandlingOutcome, E>(EventHandlingOutcome::Exit) {
                if fold_results(prefix) == Ok::<EventHandlingOutcome, E>(EventHandlingOutcome::Exit) {
                    let k = choose|k: int|
                        0 <= k < prefix.len() && #[trigger] prefix[k] == Ok::<EventHandlingOutcome, E>(
                            EventHandlingOutcome::Exit,
                        );
                    assert(results[k] == Ok::<EventHandlingOutcome, E>(EventHandlingOutcome::Exit));
                } else {
                    assert(results[last] == Ok::<EventHandlingOutcome, E>(EventHandlingOutcome::Exit));
                }
            }
            if exists|k: int|
                0 <= k < results.len() && #[trigger] results[k] == Ok::<EventHandlingOutcome, E>(
                    EventHandlingOutcome::Exit,
                ) {
                let k = choose|k: int|
                    0 <= k < results.len() && #[trigger] results[k] == Ok::<EventHandlingOutcome, E>(
                        EventHandlingOutcome::Exit,
                    );
                if k < last {
                    assert(prefix[k] == Ok::<EventHandlingOutcome, E>(EventHandlingOutcome::Exit));
                }
            }
        }
        assert forall|k: int|
            0 <= k < results.len() && (#[trigger] results[k]) is Err && (forall|m: int|
                0 <= m < k ==> (#[trigger] results[m]) is Ok) implies fold_results(results) == results[k] by {
            if k < last {
                assert forall|m: int| 0 <= m < k implies (#[trigger] prefix[m]) is Ok by {
                    assert(results[m] is Ok);
                }
                assert(prefix[k] is Err);
            } else {
                assert forall|m: int| 0 <= m < prefix.len() implies (#[trigger] prefix[m]) is Ok by {
                    assert(results[m] is Ok);
                }
            }
        }
    }
}

/// Whether `limiter` stands for `rate_limit`: present exactly when the rate
/// limit has a quota, and with the quota's interval.
pub open spec fn limiter_matches(limiter: Option<RateLimiter>, rate_limit: Option<RateLimit>) -> bool {
    match (limiter, limiter_for(rate_limit)) {
        (None, None) => true,
        (Some(l), Some(m)) => l.replenish_interval_nanos == m.replenish_interval_nanos,
        _ => false,
    }
}

/// A handler that has just run goes behind every other handler that is ready
/// at the same instant, so handlers that are ready together take turns.
pub proof fn lemma_ran_handler_goes_last(slots: Seq<Slot>, i: int, now: u64, next_seq: u64)
    requires
        0 <= i < slots.len(),
        forall|j: int| 0 <= j < slots.len() ==> (#[trigger] slots[j]).seq < next_seq,
    ensures
        forall|j: int|
            0 <= j < slots.len() && j != i && ready_instant(
                #[trigger] slots.update(i, ran_slot(slots[i], now, next_seq))[j],
            ) == ready_instant(ran_slot(slots[i], now, next_seq)) ==> precedes(
                slots[j],
                j,
                ran_slot(slots[i], now, next_seq),
                i,
            ),
{
    assert forall|j: int|
        0 <= j < slots.len() && j != i && ready_instant(
            #[trigger] slots.update(i, ran_slot(slots[i], now, next_seq))[j],
        ) == ready_instant(ran_slot(slots[i], now, next_seq)) implies precedes(
        slots[j],
        j,
        ran_slot(slots[i], now, next_seq),
        i,
    ) by {
        assert(slots.update(i, ran_slot(slots[i], now, next_seq))[j] == slots[j]);
        assert(slots[j].seq < next_seq);
    }
}

/// What a pass at `now` did to the handler at index `j`, for a handler that
/// the pass visited: a due handler ran once from `before` to `after` and gave
/// the result that stands at its place among the due handlers; a handler that
/// was not due did not change.
pub open spec fn pass_effect<L: EventHandlerLogic<E>, E>(
    before: L,
    after: L,
    slots: Seq<Slot>,
    results: Seq<Result<EventHandlingOutcome, E>>,
    j: int,
    now: u64,
) -> bool {
    if is_due(slots[j], now) {
        before.ran(&after, results[due_count(slots.take(j), now) as int])
    } else {
        after == before
    }
}

/// Among the first `i` slots, a due slot `j` has fewer due slots before it
/// than there are in all.
pub proof fn lemma_due_count_grows(slots: Seq<Slot>, j: int, i: int, now: u64)
    requires
        0 <= j < i <= slots.len(),
    ensures
        due_count(slots.take(j), now) + (if is_due(slots[j], now) {
            1int
        } else {
            0int
        }) <= due_count(slots.take(i), now),
    decreases i - j,
{
    assert(slots.take(i).drop_last() =~= slots.take(i - 1));
    assert(slots.take(i).last() == slots[i - 1]);
    if i > j + 1 {
        lemma_due_count_grows(slots, j, i - 1, now);
    }
}

/// What one pass over the handlers produced.
pub struct Tick<E> {
    /// The merged outcome of the handlers that ran, or the first error.
    pub outcome: Result<EventHandlingOutcome, E>,
    /// How many handlers were visited, in registration order.
    pub visited: usize,
    /// After a pass without error, the earliest instant at which a handler may run again.
    pub next_due: Option<u64>,
    /// The results of the handlers that ran, in order.
    pub results: Ghost<Seq<Result<EventHandlingOutcome, E>>>,
}

/// What one step of the multiplexed discipline did.
#[derive(Debug)]
pub enum Step<E> {
    /// The handler at this index ran and gave this result.
    Ran(usize, Result<EventHandlingOutcome, E>),
    /// No handler may run before this instant.
    WaitUntil(u64),
    /// There is no handler.
    Idle,
}

/// What the loop does after a pass over the handlers.
#[derive(Debug)]
pub enum LoopControl<E> {
    /// Run the next pass at once.
    Poll,
    /// Run the next pass at this instant.
    WaitUntil(u64),
    /// Stop with this result.
    Exit(Result<(), E>),
}

/// What the loop does after a pass that ended at `now` with `outcome` and `next_due`.
pub open spec fn loop_control_spec<E>(
    outcome: Result<EventHandlingOutcome, E>,
    next_due: Option<u64>,
    now: u64,
) -> LoopControl<E> {
    match outcome {
        Err(e) => LoopControl::Exit(Err(e)),
        Ok(EventHandlingOutcome::Exit) => LoopControl::Exit(Ok(())),
        Ok(EventHandlingOutcome::Continue) => match next_due {
            None => LoopControl::Poll,
            Some(t) => if t > now {
                LoopControl::WaitUntil(t)
            } else {
                LoopControl::Poll
            },
        },
    }
}

/// Decides what the loop does after a pass that ended at `now`: stop on an
/// error or on `Exit`; otherwise wait until the next handler is due, or go on
/// at once if one is due already or no handler names an instant.
pub fn loop_control<E>(tick: Tick<E>, now: u64) -> (r: LoopControl<E>)
    ensures
        r == loop_control_spec(tick.outcome, tick.next_due, now),
{
    match tick.outcome {
        Err(e) => LoopControl::Exit(Err(e)),
        Ok(EventHandlingOutcome::Exit) => LoopControl::Exit(Ok(())),
        Ok(EventHandlingOutcome::Continue) => match tick.next_due {
            None => LoopControl::Poll,
            Some(t) => if t > now {
                LoopControl::WaitUntil(t)
            } else {
                LoopControl::Poll
            },
        },
    }
}

/// Runs event handlers, each at the pace that its rate limit allows.
#[derive(Debug)]
pub struct EventLoop<L> {
    handlers: Vec<EventHandler<L>>,
    slots: Vec<Slot>,
    next_seq: u64,
}

impl<L> EventLoop<L> {
    /// The scheduling state of each handler, in registration order.
    pub closed spec fn slots_spec(&self) -> Seq<Slot> {
        self.slots@
    }

    /// The rate limit of each handler, in registration order.
    pub closed spec fn rate_limits(&self) -> Seq<Option<RateLimit>> {
        self.handlers@.map_values(|h: EventHandler<L>| h.rate_limit_spec())
    }

    /// The logic of each handler, in registration order.
    pub closed spec fn logics(&self) -> Seq<L> {
        self.handlers@.map_values(|h: EventHandler<L>| h.logic_spec())
    }

    /// The place in the round-robin order that the next handler to run takes.
    pub closed spec fn next_seq_spec(&self) -> u64 {
        self.next_seq
    }

    /// One slot for each handler, whose limiter keeps the handler's interval,
    /// and whose place in the round-robin order comes before the next one given.
    pub closed spec fn wf(&self) -> bool {
        &&& self.handlers@.len() == self.slots@.len()
        &&& forall|j: int|
            0 <= j < self.slots@.len() ==> limiter_matches(
                #[trigger] self.slots@[j].limiter,
                self.handlers@[j].rate_limit_spec(),
            )
        &&& forall|j: int|
            0 <= j < self.slots@.len() ==> (#[trigger] self.slots@[j]).seq < self.next_seq
                || self.next_seq == u64::MAX
    }

    /// Returns a new event loop over `event_handlers`; handlers without a
    /// rate limit are always due, the others may run at once.
    pub fn new(event_handlers: Vec<EventHandler<L>>) -> (r: EventLoop<L>)
        ensures
            r.wf(),
            r.rate_limits() == event_handlers@.map_values(|h: EventHandler<L>| h.rate_limit_spec()),
            r.logics() == event_handlers@.map_values(|h: EventHandler<L>| h.logic_spec()),
            r.slots_spec().len() == event_handlers@.len(),
            forall|i: int|
                0 <= i < event_handlers@.len() ==> r.slots_spec()[i] == initial_slot(
                    #[trigger] event_handlers@[i].rate_limit_spec(),
                    i,
                ),
            r.next_seq_spec() == event_handlers@.len(),
    {
        let n = event_handlers.len();
        proof {
            assert(usize::MAX <= u64::MAX);
        }
        let mut slots: Vec<Slot> = Vec::new();
        let mut i: usize = 0;
        while i < n
            invariant
                n == event_handlers@.len(),
                i <= event_handlers@.len(),
                event_handlers@.len() <= u64::MAX,
                slots@.len() == i,
                forall|j: int|
                    0 <= j < i ==> slots@[j] == initial_slot(
                        #[trigger] event_handlers@[j].rate_limit_spec(),
                        j,
                    ),
            decreases event_handlers@.len() - i,
        {
            let limiter = match event_handlers[i].rate_limit() {
                None => None,
                Some(rate_limit) => match rate_limit.quota() {
                    None => None,
                    Some(quota) => Some(RateLimiter::new(quota)),
                },
            };
            slots.push(Slot { limiter, last_run_nanos: 0, seq: i as u64 });
            i = i + 1;
        }
        let next_seq = n as u64;
        proof {
            assert forall|j: int| 0 <= j < slots@.len() implies (#[trigger] slots@[j]).seq < next_seq
                && limiter_matches(slots@[j].limiter, event_handlers@[j].rate_limit_spec()) by {
                assert(slots@[j] == initial_slot(event_handlers@[j].rate_limit_spec(), j));
            }
        }
        EventLoop { handlers: event_handlers, slots, next_seq }
    }

    /// Runs one pass over the handlers, in registration order, at instant `now`.
    ///
    /// A handler without a rate limiter always runs; one with a limiter runs
    /// if the limiter gives it a token at `now`. The results of the handlers
    /// that ran are merged; the first error ends the pass at once, and the
    /// handlers after it are neither checked nor run. After a pass without
    /// error, `next_due` is the earliest instant at which a handler may run.
    pub fn run_once<E>(&mut self, now: u64) -> (r: Tick<E>)
        where
            L: EventHandlerLogic<E>,
        requires
            old(self).wf(),
        ensures
            final(self).wf(),
            final(self).rate_limits() == old(self).rate_limits(),
            final(self).next_seq_spec() == old(self).next_seq_spec(),
            final(self).slots_spec().len() == old(self).slots_spec().len(),
            r.visited <= old(self).slots_spec().len(),
            forall|j: int|
                0 <= j < r.visited ==> #[trigger] final(self).slots_spec()[j] == check_slot(
                    old(self).slots_spec()[j],
                    now,
                ),
            forall|j: int|
                r.visited <= j < old(self).slots_spec().len() ==> #[trigger] final(self).slots_spec()[j]
                    == old(self).slots_spec()[j],
            r.results@.len() == due_count(old(self).slots_spec().take(r.visited as int), now),
            r.outcome == fold_results(r.results@),
            forall|k: int| 0 <= k < r.results@.len() - 1 ==> (#[trigger] r.results@[k]) is Ok,
            r.outcome is Ok ==> r.visited == old(self).slots_spec().len() && r.next_due
                == min_next_due(final(self).slots_spec(), now),
            r.outcome is Err ==> r.visited > 0 && is_due(old(self).slots_spec()[r.visited - 1], now)
                && r.next_due is None,
            final(self).logics().len() == old(self).logics().len(),
            forall|j: int|
                0 <= j < r.visited ==> pass_effect(
                    old(self).logics()[j],
                    #[trigger] final(self).logics()[j],
                    old(self).slots_spec(),
                    r.results@,
                    j,
                    now,
                ),
            forall|j: int|
                r.visited <= j < old(self).logics().len() ==> #[trigger] final(self).logics()[j]
                    == old(self).logics()[j],
    {
        let n = self.slots.len();
        let ghost old_logics = self.logics();
        let mut outcome: Result<EventHandlingOutcome, E> = Ok(EventHandlingOutcome::Continue);
        let mut next_due: Option<u64> = None;
        let ghost mut results: Seq<Result<EventHandlingOutcome, E>> = Seq::empty();
        let ghost old_slots = self.slots@;
        let ghost old_limits = self.rate_limits();
        let mut i: usize = 0;
        while i < n
            invariant
                n == old_slots.len(),
                self.wf(),
                self.slots@.len() == n,
                self.rate_limits() == old_limits,
                self.next_seq == old(self).next_seq,
                old_slots == old(self).slots@,
                old_limits == old(self).rate_limits(),
                i <= n,
                forall|j: int| 0 <= j < i ==> #[trigger] self.slots@[j] == check_slot(old_slots[j], now),
                forall|j: int| i <= j < n ==> #[trigger] self.slots@[j] == old_slots[j],
                results.len() == due_count(old_slots.take(i as int), now),
                outcome is Ok,
                outcome == fold_results(results),
                forall|k: int| 0 <= k < results.len() ==> (#[trigger] results[k]) is Ok,
                next_due == min_next_due(self.slots@.take(i as int), now),
                old_logics == old(self).logics(),
                old_logics.len() == n,
                self.logics().len() == n,
                forall|j: int|
                    0 <= j < i ==> pass_effect(
                        old_logics[j],
                        #[trigger] self.logics()[j],
                        old_slots,
                        results,
                        j,
                        now,
                    ),
                forall|j: int| i <= j < n ==> #[trigger] self.logics()[j] == old_logics[j],
            decreases n - i,
        {
            let slot = self.slots[i];
            let mut due = true;
            let mut checked = slot;
            match slot.limiter {
                None => {},
                Some(limiter) => {
                    let mut limiter = limiter;
                    let check = limiter.check_now(now);
                    due = check == RateLimitCheck::Allowed;
                    checked = Slot { limiter: Some(limiter), ..slot };
                },
            }
            let ghost slots_before = self.slots@;
            self.slots[i] = checked;
            proof {
                assert(self.slots@.take(i as int) =~= slots_before.take(i as int));
                assert(old_slots.take(i + 1).drop_last() =~= old_slots.take(i as int));
                assert(old_slots.take(i + 1).last() == old_slots[i as int]);
                assert(due == is_due(old_slots[i as int], now));
            }
            if due {
                let ghost handlers_before = self.handlers@;
                let ghost logics_before = self.logics();
                let result = self.handlers[i].run();
                proof {
                    assert(self.handlers@ == handlers_before.update(
                        i as int,
                        self.handlers@[i as int],
                    ));
                    assert(self.rate_limits() =~= old_limits);
                    assert(self.logics() =~= logics_before.update(
                        i as int,
                        self.handlers@[i as int].logic_spec(),
                    ));
                    let prev = results;
                    results = results.push(result);
                    assert(results.drop_last() =~= prev);
                    assert(fold_results(results) == merge_spec(fold_results(prev), result));
                    assert forall|j: int| 0 <= j < i implies pass_effect(
                        old_logics[j],
                        #[trigger] self.logics()[j],
                        old_slots,
                        results,
                        j,
                        now,
                    ) by {
                        assert(pass_effect(old_logics[j], logics_before[j], old_slots, prev, j, now));
                        lemma_due_count_grows(old_slots, j, i as int, now);
                        if is_due(old_slots[j], now) {
                            assert(results[due_count(old_slots.take(j), now) as int]
                                == prev[due_count(old_slots.take(j), now) as int]);
                        }
                    }
                    assert(results[prev.len() as int] == result);
                    assert(logics_before[i as int] == handlers_before[i as int].logic_spec());
                    assert(handlers_before[i as int].logic_spec().ran(
                        &self.handlers@[i as int].logic_spec(),
                        result,
                    ));
                    assert(pass_effect(
                        old_logics[i as int],
                        self.logics()[i as int],
                        old_slots,
                        results,
                        i as int,
                        now,
                    ));
                }
                match result {
                    Err(e) => {
                        return Tick { outcome: Err(e), visited: i + 1, next_due: None, results: Ghost(results) };
                    },
                    Ok(o) => {
                        outcome = EventHandlingOutcome::merge(outcome, Ok(o));
                    },
                }
            }
            proof {
                if !due {
                    assert(pass_effect(
                        old_logics[i as int],
                        self.logics()[i as int],
                        old_slots,
                        results,
                        i as int,
                        now,
                    ));
                }
            }
            let d = match checked.limiter {
                None => now,
                Some(limiter) => if limiter.next_allowed_nanos > now {
                    limiter.next_allowed_nanos
                } else {
                    now
                },
            };
            proof {
                assert(self.slots@.take(i + 1).drop_last() =~= self.slots@.take(i as int));
                assert(self.slots@.take(i + 1).last() == checked);
            }
            next_due = match next_due {
                None => Some(d),
                Some(m) => Some(
                    if d < m {
                        d
                    } else {
                        m
                    },
                ),
            };
            i = i + 1;
        }
        proof {
            assert(old_slots.take(n as int) =~= old_slots);
            assert(self.slots@.take(n as int) =~= self.slots@);
        }
        Tick { outcome, visited: n, next_due, results: Ghost(results) }
    }

    /// Runs the handler that comes first in the multiplexed order, if it is
    /// ready at `now`; otherwise reports the instant at which it will be.
    ///
    /// A handler without a limiter is ready again as soon as it has run, but
    /// queues behind every handler that became ready before; a handler with a
    /// limiter is ready when its limiter has a token. Ties go to the handler
    /// that ran least recently, then to the lower index. The handler that ran
    /// takes the last place in the round-robin order.
    pub fn run_next<E>(&mut self, now: u64) -> (r: Step<E>)
        where
            L: EventHandlerLogic<E>,
        requires
            old(self).wf(),
        ensures
            final(self).wf(),
            final(self).rate_limits() == old(self).rate_limits(),
            final(self).slots_spec().len() == old(self).slots_spec().len(),
            r is Idle <==> old(self).slots_spec().len() == 0,
            r matches Step::WaitUntil(t) ==> {
                &&& final(self).slots_spec() == old(self).slots_spec()
                &&& final(self).next_seq_spec() == old(self).next_seq_spec()
                &&& t > now
                &&& forall|j: int|
                    0 <= j < old(self).slots_spec().len() ==> ready_instant(
                        #[trigger] old(self).slots_spec()[j],
                    ) >= t
                &&& exists|j: int|
                    0 <= j < old(self).slots_spec().len() && ready_instant(
                        #[trigger] old(self).slots_spec()[j],
                    ) == t
            },
            r matches Step::Ran(i, _) ==> {
                &&& i < old(self).slots_spec().len()
                &&& ready_instant(old(self).slots_spec()[i as int]) <= now
                &&& forall|j: int|
                    0 <= j < old(self).slots_spec().len() && j != i ==> precedes(
                        old(self).slots_spec()[i as int],
                        i as int,
                        #[trigger] old(self).slots_spec()[j],
                        j,
                    )
                &&& final(self).slots_spec() == old(self).slots_spec().update(
                    i as int,
                    ran_slot(old(self).slots_spec()[i as int], now, old(self).next_seq_spec()),
                )
                &&& final(self).next_seq_spec() == seq_after(old(self).next_seq_spec())
            },
            final(self).logics().len() == old(self).logics().len(),
            r matches Step::Ran(i, result) ==> {
                &&& old(self).logics()[i as int].ran(&final(self).logics()[i as int], result)
                &&& forall|j: int|
                    0 <= j < old(self).logics().len() && j != i ==> #[trigger] final(self).logics()[j]
                        == old(self).logics()[j]
            },
            !(r is Ran) ==> final(self).logics() == old(self).logics(),
    {
        match select_next(&self.slots) {
            None => Step::Idle,
            Some(i) => {
                let slot = self.slots[i];
                let ready = slot.ready_at();
                if ready > now {
                    return Step::WaitUntil(ready);
                }
                let mut limiter = slot.limiter;
                match slot.limiter {
                    None => {},
                    Some(l) => {
                        let mut l = l;
                        let _ = l.check_now(now);
                        limiter = Some(l);
                    },
                }
                self.slots[i] = Slot { limiter, last_run_nanos: now, seq: self.next_seq };
                self.next_seq = self.next_seq.saturating_add(1);
                let ghost handlers_before = self.handlers@;
                let ghost old_limits = old(self).rate_limits();
                let result = self.handlers[i].run();
                proof {
                    assert(self.handlers@ == handlers_before.update(i as int, self.handlers@[i as int]));
                    assert(self.rate_limits() =~= old_limits);
                    assert(self.logics() =~= old(self).logics().update(
                        i as int,
                        self.handlers@[i as int].logic_spec(),
                    ));
                    assert(old(self).logics()[i as int] == handlers_before[i as int].logic_spec());
                }
                Step::Ran(i, result)
            },
        }
    }

    /// Returns whether any handler has a rate limiter, which calls for the
    /// multiplexed discipline.
    pub fn is_rate_limited(&self) -> (r: bool)
        requires
            self.wf(),
        ensures
            r == exists|j: int| 0 <= j < self.slots_spec().len() && (#[trigger] self.slots_spec()[j]).limiter is Some,
    {
        let mut i: usize = 0;
        while i < self.slots.len()
            invariant
                i <= self.slots@.len(),
                forall|j: int| 0 <= j < i ==> (#[trigger] self.slots@[j]).limiter is None,
            decreases self.slots@.len() - i,
        {
            if self.slots[i].limiter.is_some() {
                return true;
            }
            i = i + 1;
        }
        false
    }

    /// Returns the number of handlers.
    pub fn len(&self) -> (r: usize)
        requires
            self.wf(),
        ensures
            r == self.slots_spec().len(),
    {
        self.slots.len()
    }
}

} // verus!
