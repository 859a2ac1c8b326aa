//! The timer that drives sampling: the interval between two ticks, the
//! cancellation of the timer by its owner, and the decisions of the loop that
//! a background worker runs for it.

use vstd::prelude::*;

verus! {

/// The number of microseconds in a second.
pub const MICROS_PER_SECOND: i64 = 1_000_000;

/// The time between two ticks, in microseconds, at `frequency` ticks per
/// second. Meant for a positive `frequency`.
pub open spec fn interval_micros(frequency: int) -> int {
    MICROS_PER_SECOND as int / frequency
}

/// What a timer is, as a value.
pub struct TimerView {
    /// The ticks per second that were asked for.
    pub frequency: int,
    /// The time between two ticks, in microseconds.
    pub interval: int,
    /// Whether the owner has cancelled the timer.
    pub cancelled: bool,
    /// Whether the timer's tick loop has been handed out.
    pub loop_started: bool,
}

impl TimerView {
    /// The timer as it is made for `frequency`.
    pub open spec fn fresh(frequency: int) -> TimerView {
        TimerView {
            frequency,
            interval: interval_micros(frequency),
            cancelled: false,
            loop_started: false,
        }
    }

    /// Whether cancelling this timer sends the signal to its loop.
    pub open spec fn cancel_signals(self) -> bool {
        !self.cancelled
    }

    /// The timer after its owner has cancelled it.
    pub open spec fn cancel(self) -> TimerView {
        TimerView { cancelled: true, ..self }
    }

    /// The timer after its tick loop was asked for.
    pub open spec fn start_loop(self) -> TimerView {
        TimerView { loop_started: true, ..self }
    }
}

/// The owner's side of a sampling timer: its frequency, its interval, and
/// whether it has been cancelled.
#[derive(Debug)]
pub struct Timer {
    frequency: i32,
    interval: u64,
    cancelled: bool,
    loop_started: bool,
}

/// What the worker of a timer does next.
#[derive(Clone, Copy, Debug, PartialEq, Eq, Structural)]
pub enum TickAction {
    /// Leave the loop: the timer was cancelled.
    Stop,
    /// Sleep for so many microseconds, sample once, and ask again.
    Sample { sleep_micros: u64 },
}

/// The state of the loop that a timer's worker runs.
#[derive(Debug)]
pub struct TickLoop {
    interval: u64,
    stopped: bool,
}

/// What a tick loop is, as a value.
pub struct TickLoopView {
    /// The time to sleep before each sample, in microseconds.
    pub interval: int,
    /// Whether the loop has ended.
    pub stopped: bool,
}

impl TickLoopView {
    /// What the loop does when the poll of the cancellation signal gave
    /// `cancel_received`.
    pub open spec fn action(self, cancel_received: bool) -> TickAction {
        if self.stopped || cancel_received {
            TickAction::Stop
        } else {
            TickAction::Sample { sleep_micros: self.interval as u64 }
        }
    }

    /// The loop after that poll.
    pub open spec fn step(self, cancel_received: bool) -> TickLoopView {
        TickLoopView { stopped: self.stopped || cancel_received, ..self }
    }

    /// The loop after one poll for each element of `polls`, first to last.
    pub open spec fn run(self, polls: Seq<bool>) -> TickLoopView
        decreases polls.len(),
    {
        if polls.len() == 0 {
            self
        } else {
            self.run(polls.drop_last()).step(polls.last())
        }
    }
}

impl View for Timer {
    type V = TimerView;

    closed spec fn view(&self) -> TimerView {
        TimerView {
            frequency: self.frequency as int,
            interval: self.interval as int,
            cancelled: self.cancelled,
            loop_started: self.loop_started,
        }
    }
}

impl View for TickLoop {
    type V = TickLoopView;

    closed spec fn view(&self) -> TickLoopView {
        TickLoopView { interval: self.interval as int, stopped: self.stopped }
    }
}

impl Timer {
    #[verifier::type_invariant]
    spec fn well_formed(self) -> bool {
        &&& self.frequency > 0
        &&& self.interval == interval_micros(self.frequency as int)
    }

    /// A timer that ticks `frequency` times per second.
    pub fn new(frequency: i32) -> (timer: Timer)
        requires
            frequency > 0,
        ensures
            timer@ == TimerView::fresh(frequency as int),
    {
        let interval: i64 = MICROS_PER_SECOND / (frequency as i64);
        Timer { frequency, interval: interval as u64, cancelled: false, loop_started: false }
    }

    /// A timer that ticks `frequency` times per second, where `frequency`
    /// is positive. Any other frequency is refused, before anything is
    /// computed from it.
    pub fn checked_new(frequency: i32) -> (timer: Option<Timer>)
        ensures
            frequency <= 0 <==> timer is None,
            timer matches Some(t) ==> t@ == TimerView::fresh(frequency as int),
    {
        if frequency <= 0 {
            None
        } else {
            Some(Timer::new(frequency))
        }
    }

    /// The ticks per second that this timer was made for.
    pub fn frequency(&self) -> (frequency: i32)
        ensures
            frequency == self@.frequency,
            frequency > 0,
    {
        proof {
            use_type_invariant(self);
        }
        self.frequency
    }

    /// The time between two ticks, in microseconds.
    pub fn interval(&self) -> (interval: u64)
        ensures
            interval == self@.interval,
            interval == interval_micros(self@.frequency),
    {
        proof {
            use_type_invariant(self);
        }
        self.interval
    }

    /// Whether this timer has been cancelled.
    pub fn is_cancelled(&self) -> (cancelled: bool)
        ensures
            cancelled == self@.cancelled,
    {
        self.cancelled
    }

    /// Cancels the timer. The result says whether the signal is to be sent
    /// to the timer's loop now: it is on the first call and on no later one.
    pub fn cancel(&mut self) -> (send: bool)
        ensures
            send == old(self)@.cancel_signals(),
            final(self)@ == old(self)@.cancel(),
    {
        proof {
            use_type_invariant(&*self);
        }
        let send = !self.cancelled;
        self.cancelled = true;
        send
    }

    /// Hands out the loop that this timer's worker runs. A timer has one
    /// loop: every call after the first gives none.
    pub fn start_loop(&mut self) -> (tick_loop: Option<TickLoop>)
        ensures
            final(self)@ == old(self)@.start_loop(),
            old(self)@.loop_started <==> tick_loop is None,
            tick_loop matches Some(l) ==> l@ == (TickLoopView {
                interval: old(self)@.interval,
                stopped: false,
            }),
    {
        proof {
            use_type_invariant(&*self);
        }
        if self.loop_started {
            None
        } else {
            self.loop_started = true;
            Some(TickLoop { interval: self.interval, stopped: false })
        }
    }
}

impl TickLoop {
    /// Whether the loop has ended.
    pub fn is_stopped(&self) -> (stopped: bool)
        ensures
            stopped == self@.stopped,
    {
        self.stopped
    }

    /// Decides what the worker does next. `cancel_received` says whether
    /// the poll of the cancellation signal found it. Once the signal was
    /// found, every answer is `Stop`.
    pub fn next(&mut self, cancel_received: bool) -> (action: TickAction)
        ensures
            action == old(self)@.action(cancel_received),
            final(self)@ == old(self)@.step(cancel_received),
    {
        if self.stopped || cancel_received {
            self.stopped = true;
            TickAction::Stop
        } else {
            TickAction::Sample { sleep_micros: self.interval }
        }
    }
}

/// Cancelling a timer again changes nothing and sends nothing: after the
/// first cancellation the timer is cancelled, and a further one leaves it as
/// it is and does not signal.
pub proof fn lemma_cancel_is_idempotent(timer: TimerView)
    ensures
        timer.cancel().cancelled,
        !timer.cancel().cancel_signals(),
        timer.cancel().cancel() == timer.cancel(),
{
}

/// The interval of a timer is between nothing and a second, and at a
/// frequency of up to a million ticks per second it is at least one
/// microsecond.
pub proof fn lemma_interval_bounds(frequency: int)
    requires
        frequency > 0,
    ensures
        0 <= interval_micros(frequency) <= MICROS_PER_SECOND,
        frequency <= MICROS_PER_SECOND ==> interval_micros(frequency) >= 1,
        interval_micros(frequency) * frequency <= MICROS_PER_SECOND,
{
    let q = MICROS_PER_SECOND as int / frequency;
    assert(0 <= q <= MICROS_PER_SECOND && q * frequency <= MICROS_PER_SECOND && (frequency
        <= MICROS_PER_SECOND ==> q >= 1)) by (nonlinear_arith)
        requires
            frequency > 0,
            q == 1_000_000int / frequency,
    ;
}

/// A tick loop that has found the cancellation signal stays stopped: if
/// any poll in `polls` found the signal, the loop is stopped after them and
/// answers `Stop` to whatever the next poll gives.
pub proof fn lemma_stopped_loop_stays_stopped(
    tick_loop: TickLoopView,
    polls: Seq<bool>,
    next_poll: bool,
)
    requires
        tick_loop.stopped || polls.contains(true),
    ensures
        tick_loop.run(polls).stopped,
        tick_loop.run(polls).action(next_poll) == TickAction::Stop,
    decreases polls.len(),
{
    if polls.len() > 0 {
        if tick_loop.stopped || polls.drop_last().contains(true) {
            lemma_stopped_loop_stays_stopped(tick_loop, polls.drop_last(), next_poll);
        } else {
            let i = choose|i: int| 0 <= i < polls.len() && polls[i] == true;
            assert(i == polls.len() - 1) by {
                if i < polls.len() - 1 {
                    assert(polls.drop_last()[i] == true);
                }
            }
        }
    }
}

} // verus!
