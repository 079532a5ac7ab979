//! The polling loop as a state machine.
//!
//! One iteration runs `Checking` -> `Listing` -> (`Idle` | `Dispatching`) ->
//! `Sleeping` -> back to `Checking`.  Cancellation is observed cooperatively
//! at `Checking` only, which makes `Stopped` the sole normal exit; a listing
//! failure is the sole abnormal one and ends the machine in `Failed`.  The
//! embedding application owns the waiting, the listing I/O and the handler
//! call; it feeds each outcome back as a [`MonitorEvent`] and obeys the
//! transition that [`monitor_step`] decides.

use vstd::prelude::*;

verus! {

/// How long one iteration sleeps when no interval was configured, in
/// milliseconds.
pub const DEFAULT_SLEEP_INTERVAL: u64 = 5000;

/// Where the loop stands inside one iteration.
#[derive(Clone, Copy, Debug, PartialEq, Eq, Structural)]
pub enum MonitorState {
    /// About to poll the cancellation signal.
    Checking,
    /// About to enumerate the target directory.
    Listing,
    /// The listing was empty; no handler call this iteration.
    Idle,
    /// The handler runs, exactly once, with the whole batch.
    Dispatching,
    /// Waiting out the configured interval.
    Sleeping,
    /// Terminal: cancellation was observed; the loop returns success.
    Stopped,
    /// Terminal: the target directory could not be listed; the loop
    /// returns the failure.
    Failed,
}

/// What the embedding application observed while performing the current
/// state's work.
#[derive(Clone, Copy, Debug, PartialEq, Eq, Structural)]
pub enum MonitorEvent {
    /// Whether the cancellation signal was raised, polled at `Checking`.
    Cancelled(bool),
    /// The target listing succeeded with this many matching files.
    Listed(usize),
    /// The target listing failed.
    ListFailed,
    /// The handler finished; its failure is non-fatal, so the flag does not
    /// steer the machine.
    HandlerDone(bool),
    /// Nothing to wait for; the idle iteration moves on to its sleep.
    Proceed,
    /// The sleep interval elapsed.
    SleepElapsed,
}

/// The transition relation.  An event that does not belong to the state
/// leaves it unchanged, and the two terminal states never move.
pub open spec fn spec_step(s: MonitorState, e: MonitorEvent) -> MonitorState {
    match (s, e) {
        (MonitorState::Checking, MonitorEvent::Cancelled(true)) => MonitorState::Stopped,
        (MonitorState::Checking, MonitorEvent::Cancelled(false)) => MonitorState::Listing,
        (MonitorState::Listing, MonitorEvent::Listed(n)) => if n == 0 {
            MonitorState::Idle
        } else {
            MonitorState::Dispatching
        },
        (MonitorState::Listing, MonitorEvent::ListFailed) => MonitorState::Failed,
        (MonitorState::Idle, MonitorEvent::Proceed) => MonitorState::Sleeping,
        (MonitorState::Dispatching, MonitorEvent::HandlerDone(_)) => MonitorState::Sleeping,
        (MonitorState::Sleeping, MonitorEvent::SleepElapsed) => MonitorState::Checking,
        _ => s,
    }
}

/// Decides the next state from the current one and the observed event.
pub fn monitor_step(s: &MonitorState, e: &MonitorEvent) -> (next: MonitorState)
    ensures
        next == spec_step(*s, *e),
{
    match (s, e) {
        (MonitorState::Checking, MonitorEvent::Cancelled(true)) => MonitorState::Stopped,
        (MonitorState::Checking, MonitorEvent::Cancelled(false)) => MonitorState::Listing,
        (MonitorState::Listing, MonitorEvent::Listed(n)) => if *n == 0 {
            MonitorState::Idle
        } else {
            MonitorState::Dispatching
        },
        (MonitorState::Listing, MonitorEvent::ListFailed) => MonitorState::Failed,
        (MonitorState::Idle, MonitorEvent::Proceed) => MonitorState::Sleeping,
        (MonitorState::Dispatching, MonitorEvent::HandlerDone(_)) => MonitorState::Sleeping,
        (MonitorState::Sleeping, MonitorEvent::SleepElapsed) => MonitorState::Checking,
        _ => *s,
    }
}

/// Whether the loop is done, one way or the other.
pub open spec fn spec_terminal(s: MonitorState) -> bool {
    s is Stopped || s is Failed
}

/// Whether the loop is done, one way or the other.
pub fn is_terminal(s: &MonitorState) -> (b: bool)
    ensures
        b == spec_terminal(*s),
{
    match s {
        MonitorState::Stopped => true,
        MonitorState::Failed => true,
        _ => false,
    }
}

/// The state after feeding `events` in order.
pub open spec fn run(s: MonitorState, events: Seq<MonitorEvent>) -> MonitorState
    decreases events.len(),
{
    if events.len() == 0 {
        s
    } else {
        run(spec_step(s, events.first()), events.drop_first())
    }
}

/// How many handler invocations feeding `events` causes: the number of
/// entries into `Dispatching`.
pub open spec fn dispatch_count(s: MonitorState, events: Seq<MonitorEvent>) -> nat
    decreases events.len(),
{
    if events.len() == 0 {
        0
    } else {
        let s2 = spec_step(s, events.first());
        (if s2 is Dispatching {
            1nat
        } else {
            0nat
        }) + dispatch_count(s2, events.drop_first())
    }
}

/// A finished loop stays finished: no event sequence moves a terminal
/// state, and none dispatches the handler again.
pub proof fn lemma_terminal_stays(s: MonitorState, events: Seq<MonitorEvent>)
    requires
        spec_terminal(s),
    ensures
        run(s, events) == s,
        dispatch_count(s, events) == 0,
    decreases events.len(),
{
    if events.len() > 0 {
        assert(spec_step(s, events.first()) == s);
        lemma_terminal_stays(s, events.drop_first());
    }
}

/// Liveness of one iteration: from `Checking` without cancellation, a
/// listing that finds files dispatches the handler exactly once before the
/// sleep, a listing that finds none dispatches nothing, and either way the
/// iteration comes back to `Checking` — so a file placed in the target
/// between polls is offered to the handler on the very next iteration.  The
/// handler's own outcome `ok` steers nothing: its failure is non-fatal.
pub proof fn lemma_iteration_dispatch(n: usize, ok: bool)
    ensures
        n > 0 ==> ({
            let evs = seq![
                MonitorEvent::Cancelled(false),
                MonitorEvent::Listed(n),
                MonitorEvent::HandlerDone(ok),
                MonitorEvent::SleepElapsed,
            ];
            run(MonitorState::Checking, evs) == MonitorState::Checking && dispatch_count(
                MonitorState::Checking,
                evs,
            ) == 1
        }),
        ({
            let evs = seq![
                MonitorEvent::Cancelled(false),
                MonitorEvent::Listed(0),
                MonitorEvent::Proceed,
                MonitorEvent::SleepElapsed,
            ];
            run(MonitorState::Checking, evs) == MonitorState::Checking && dispatch_count(
                MonitorState::Checking,
                evs,
            ) == 0
        }),
{
    reveal_with_fuel(run, 6);
    reveal_with_fuel(dispatch_count, 6);
    if n > 0 {
        let evs = seq![
            MonitorEvent::Cancelled(false),
            MonitorEvent::Listed(n),
            MonitorEvent::HandlerDone(ok),
            MonitorEvent::SleepElapsed,
        ];
        assert(evs.drop_first() =~= seq![
            MonitorEvent::Listed(n),
            MonitorEvent::HandlerDone(ok),
            MonitorEvent::SleepElapsed,
        ]);
        assert(evs.drop_first().drop_first() =~= seq![
            MonitorEvent::HandlerDone(ok),
            MonitorEvent::SleepElapsed,
        ]);
        assert(evs.drop_first().drop_first().drop_first() =~= seq![MonitorEvent::SleepElapsed]);
        assert(evs.drop_first().drop_first().drop_first().drop_first()
            =~= Seq::<MonitorEvent>::empty());
    }
    let evs0 = seq![
        MonitorEvent::Cancelled(false),
        MonitorEvent::Listed(0),
        MonitorEvent::Proceed,
        MonitorEvent::SleepElapsed,
    ];
    assert(evs0.drop_first() =~= seq![
        MonitorEvent::Listed(0),
        MonitorEvent::Proceed,
        MonitorEvent::SleepElapsed,
    ]);
    assert(evs0.drop_first().drop_first() =~= seq![
        MonitorEvent::Proceed,
        MonitorEvent::SleepElapsed,
    ]);
    assert(evs0.drop_first().drop_first().drop_first() =~= seq![MonitorEvent::SleepElapsed]);
    assert(evs0.drop_first().drop_first().drop_first().drop_first()
        =~= Seq::<MonitorEvent>::empty());
}

/// A failed listing is fatal: it ends the machine in `Failed`, with no
/// handler call.
pub proof fn lemma_listing_failure_fatal()
    ensures
        ({
            let evs = seq![MonitorEvent::Cancelled(false), MonitorEvent::ListFailed];
            run(MonitorState::Checking, evs) == MonitorState::Failed && dispatch_count(
                MonitorState::Checking,
                evs,
            ) == 0
        }),
{
    reveal_with_fuel(run, 4);
    reveal_with_fuel(dispatch_count, 4);
    let evs = seq![MonitorEvent::Cancelled(false), MonitorEvent::ListFailed];
    assert(evs.drop_first() =~= seq![MonitorEvent::ListFailed]);
    assert(evs.drop_first().drop_first() =~= Seq::<MonitorEvent>::empty());
}

/// Cancellation latency, the prompt case: shutdown signaled while the loop
/// sleeps is observed by the very next check, and the loop stops without
/// listing or dispatching again.
pub proof fn lemma_cancellation_from_sleep()
    ensures
        ({
            let evs = seq![MonitorEvent::SleepElapsed, MonitorEvent::Cancelled(true)];
            run(MonitorState::Sleeping, evs) == MonitorState::Stopped && dispatch_count(
                MonitorState::Sleeping,
                evs,
            ) == 0
        }),
{
    reveal_with_fuel(run, 4);
    reveal_with_fuel(dispatch_count, 4);
    let evs = seq![MonitorEvent::SleepElapsed, MonitorEvent::Cancelled(true)];
    assert(evs.drop_first() =~= seq![MonitorEvent::Cancelled(true)]);
    assert(evs.drop_first().drop_first() =~= Seq::<MonitorEvent>::empty());
}

/// Cancellation latency, the race case: when the check at the top of the
/// loop has already passed as the signal arrives, at most one more full
/// iteration runs — one listing, at most one dispatch — and the following
/// check stops the loop.
pub proof fn lemma_cancellation_one_iteration(n: usize, ok: bool)
    ensures
        n > 0 ==> ({
            let evs = seq![
                MonitorEvent::Cancelled(false),
                MonitorEvent::Listed(n),
                MonitorEvent::HandlerDone(ok),
                MonitorEvent::SleepElapsed,
                MonitorEvent::Cancelled(true),
            ];
            run(MonitorState::Checking, evs) == MonitorState::Stopped && dispatch_count(
                MonitorState::Checking,
                evs,
            ) == 1
        }),
        ({
            let evs = seq![
                MonitorEvent::Cancelled(false),
                MonitorEvent::Listed(0),
                MonitorEvent::Proceed,
                MonitorEvent::SleepElapsed,
                MonitorEvent::Cancelled(true),
            ];
            run(MonitorState::Checking, evs) == MonitorState::Stopped && dispatch_count(
                MonitorState::Checking,
                evs,
            ) == 0
        }),
{
    lemma_iteration_dispatch(n, ok);
    reveal_with_fuel(run, 7);
    reveal_with_fuel(dispatch_count, 7);
    if n > 0 {
        let evs = seq![
            MonitorEvent::Cancelled(false),
            MonitorEvent::Listed(n),
            MonitorEvent::HandlerDone(ok),
            MonitorEvent::SleepElapsed,
            MonitorEvent::Cancelled(true),
        ];
        assert(evs.drop_first() =~= seq![
            MonitorEvent::Listed(n),
            MonitorEvent::HandlerDone(ok),
            MonitorEvent::SleepElapsed,
            MonitorEvent::Cancelled(true),
        ]);
        assert(evs.drop_first().drop_first() =~= seq![
            MonitorEvent::HandlerDone(ok),
            MonitorEvent::SleepElapsed,
            MonitorEvent::Cancelled(true),
        ]);
        assert(evs.drop_first().drop_first().drop_first() =~= seq![
            MonitorEvent::SleepElapsed,
            MonitorEvent::Cancelled(true),
        ]);
        assert(evs.drop_first().drop_first().drop_first().drop_first() =~= seq![
            MonitorEvent::Cancelled(true),
        ]);
        assert(evs.drop_first().drop_first().drop_first().drop_first().drop_first()
            =~= Seq::<MonitorEvent>::empty());
    }
    let evs0 = seq![
        MonitorEvent::Cancelled(false),
        MonitorEvent::Listed(0),
        MonitorEvent::Proceed,
        MonitorEvent::SleepElapsed,
        MonitorEvent::Cancelled(true),
    ];
    assert(evs0.drop_first() =~= seq![
        MonitorEvent::Listed(0),
        MonitorEvent::Proceed,
        MonitorEvent::SleepElapsed,
        MonitorEvent::Cancelled(true),
    ]);
    assert(evs0.drop_first().drop_first() =~= seq![
        MonitorEvent::Proceed,
        MonitorEvent::SleepElapsed,
        MonitorEvent::Cancelled(true),
    ]);
    assert(evs0.drop_first().drop_first().drop_first() =~= seq![
        MonitorEvent::SleepElapsed,
        MonitorEvent::Cancelled(true),
    ]);
    assert(evs0.drop_first().drop_first().drop_first().drop_first() =~= seq![
        MonitorEvent::Cancelled(true),
    ]);
    assert(evs0.drop_first().drop_first().drop_first().drop_first().drop_first()
        =~= Seq::<MonitorEvent>::empty());
}

} // verus!
