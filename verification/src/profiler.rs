//! The profiler: the state machine of a session, the routine that samples
//! the threads of one tick, and the guard that holds a session open.

use vstd::prelude::*;

use crate::collector::{lemma_record, Aggregation, Collector};
use crate::error::Error;
use crate::frames::{SampleView, StackKey, UnresolvedFrames};
use crate::report::ReportBuilder;
use crate::thread_name::{label_of, thread_label};
use crate::timer::{TickLoop, TickLoopView, Timer, TimerView};

verus! {

/// What one thread gave at a tick, as a value.
pub struct CapturedThreadView {
    /// The numeric identifier of the thread.
    pub thread_id: u64,
    /// The return addresses of the walk of its stack, innermost frame
    /// first; none where the walk failed.
    pub stack: Option<Seq<u64>>,
}

/// What a profiler is, as a value.
#[verifier::ext_equal]
pub struct ProfilerState {
    /// What the session has collected.
    pub data: Aggregation,
    /// The number of samples that the session has taken.
    pub sample_counter: int,
    /// Whether a session is active.
    pub running: bool,
}

impl ProfilerState {
    /// The profiler at rest: no session, nothing collected.
    pub open spec fn idle() -> ProfilerState {
        ProfilerState { data: Aggregation::empty(), sample_counter: 0, running: false }
    }

    /// What holds of every profiler: no identity is collected twice, the
    /// counts are within their types, and a profiler at rest holds nothing.
    pub open spec fn well_formed(self) -> bool {
        &&& self.data.distinct()
        &&& self.data.total() <= u64::MAX
        &&& 0 <= self.sample_counter <= i32::MAX
        &&& !self.running ==> self == ProfilerState::idle()
    }

    /// The answer to a request to start a session.
    pub open spec fn start_result(self) -> Result<(), Error> {
        if self.running {
            Err(Error::AlreadyRunning)
        } else {
            Ok(())
        }
    }

    /// The profiler after a request to start a session.
    pub open spec fn start(self) -> ProfilerState {
        if self.running {
            self
        } else {
            ProfilerState { running: true, ..self }
        }
    }

    /// The answer to a request to stop the session.
    pub open spec fn stop_result(self) -> Result<(), Error> {
        if self.running {
            Ok(())
        } else {
            Err(Error::NotRunning)
        }
    }

    /// The profiler after a request to stop the session.
    pub open spec fn stop(self) -> ProfilerState {
        if self.running {
            ProfilerState::idle()
        } else {
            self
        }
    }

    /// The profiler after `sample` was submitted. A profiler at rest
    /// ignores it. An active one counts it: the counter goes up by one until
    /// it stands at `i32::MAX`, and the sample is collected with weight one
    /// unless the total weight stands at `u64::MAX`.
    pub open spec fn sample(self, sample: SampleView) -> ProfilerState {
        if !self.running {
            self
        } else {
            ProfilerState {
                data: if self.data.total() < u64::MAX {
                    self.data.record(sample, 1)
                } else {
                    self.data
                },
                sample_counter: if self.sample_counter < i32::MAX {
                    self.sample_counter + 1
                } else {
                    self.sample_counter
                },
                running: true,
            }
        }
    }

    /// The profiler after each of `samples` was submitted, first to last.
    pub open spec fn sample_all(self, samples: Seq<SampleView>) -> ProfilerState
        decreases samples.len(),
    {
        if samples.len() == 0 {
            self
        } else {
            self.sample_all(samples.drop_last()).sample(samples.last())
        }
    }

    /// The profiler after what one thread gave at a tick was handled: a
    /// captured stack is submitted under the label of its thread, a failed
    /// walk is passed over.
    pub open spec fn sample_thread(self, thread: CapturedThreadView) -> ProfilerState {
        match thread.stack {
            Some(stack) => self.sample(
                SampleView::capture(stack, label_of(thread.thread_id), thread.thread_id),
            ),
            None => self,
        }
    }

    /// The profiler after one tick that found `threads`, handled first to
    /// last.
    pub open spec fn tick(self, threads: Seq<CapturedThreadView>) -> ProfilerState
        decreases threads.len(),
    {
        if threads.len() == 0 {
            self
        } else {
            self.tick(threads.drop_last()).sample_thread(threads.last())
        }
    }

    /// The profiler after the ticks of `rounds`, first to last; each round
    /// holds what one tick found.
    pub open spec fn ticks(self, rounds: Seq<Seq<CapturedThreadView>>) -> ProfilerState
        decreases rounds.len(),
    {
        if rounds.len() == 0 {
            self
        } else {
            self.ticks(rounds.drop_last()).tick(rounds.last())
        }
    }
}

/// What one thread gave at a tick: its identifier and the walk of its
/// stack.
#[derive(Debug)]
pub struct CapturedThread {
    /// The numeric identifier of the thread.
    pub thread_id: u64,
    /// The return addresses of the walk of its stack, innermost frame
    /// first; none where the walk failed.
    pub stack: Option<Vec<u64>>,
}

impl View for CapturedThread {
    type V = CapturedThreadView;

    open spec fn view(&self) -> CapturedThreadView {
        CapturedThreadView {
            thread_id: self.thread_id,
            stack: match self.stack {
                Some(stack) => Some(stack@),
                None => None,
            },
        }
    }
}

/// The number of `threads` whose walk succeeded.
pub open spec fn walked(threads: Seq<CapturedThreadView>) -> nat
    decreases threads.len(),
{
    if threads.len() == 0 {
        0
    } else if threads.last().stack is Some {
        walked(threads.drop_last()) + 1
    } else {
        walked(threads.drop_last())
    }
}

/// The number of walks that succeeded in all the ticks of `rounds`.
pub open spec fn walked_in(rounds: Seq<Seq<CapturedThreadView>>) -> nat
    decreases rounds.len(),
{
    if rounds.len() == 0 {
        0
    } else {
        walked_in(rounds.drop_last()) + walked(rounds.last())
    }
}

/// What each of `threads` gave, as values.
pub open spec fn thread_views(threads: Seq<CapturedThread>) -> Seq<CapturedThreadView> {
    Seq::new(threads.len(), |i: int| threads[i]@)
}

/// The profiler of a process: at rest, or collecting the samples of one
/// session.
#[derive(Debug)]
pub struct Profiler {
    data: Collector,
    sample_counter: i32,
    running: bool,
}

impl View for Profiler {
    type V = ProfilerState;

    closed spec fn view(&self) -> ProfilerState {
        ProfilerState {
            data: self.data@,
            sample_counter: self.sample_counter as int,
            running: self.running,
        }
    }
}

impl Profiler {
    /// The invariant of every profiler: its collector's invariant, a
    /// counter that is not negative, and nothing collected while at rest.
    #[verifier::type_invariant]
    pub closed spec fn well_formed(self) -> bool {
        &&& self.data.well_formed()
        &&& 0 <= self.sample_counter
        &&& !self.running ==> self@ == ProfilerState::idle()
    }

    /// What the invariant gives of the profiler as a value: it is well
    /// formed.
    pub proof fn lemma_well_formed(self)
        requires
            self.well_formed(),
        ensures
            self@.well_formed(),
    {
        self.data.lemma_well_formed();
    }

    /// A profiler at rest.
    fn idle() -> (profiler: Profiler)
        ensures
            profiler@ == ProfilerState::idle(),
    {
        let data = Collector::empty();
        proof {
            use_type_invariant(&data);
        }
        Profiler { data, sample_counter: 0, running: false }
    }

    /// A profiler at rest. Its collector needs nothing that could fail to
    /// be had: the result is never an error.
    pub fn new() -> (profiler: Result<Profiler, Error>)
        ensures
            profiler matches Ok(p) && p@ == ProfilerState::idle(),
    {
        match Collector::new() {
            Ok(data) => {
                proof {
                    use_type_invariant(&data);
                }
                Ok(Profiler { data, sample_counter: 0, running: false })
            },
            Err(_) => Err(Error::CreatingError),
        }
    }

    /// Starts a session. Where one is active the request is refused with
    /// `AlreadyRunning` and nothing changes.
    pub fn start(&mut self) -> (started: Result<(), Error>)
        ensures
            started == old(self)@.start_result(),
            final(self)@ == old(self)@.start(),
            final(self)@.well_formed(),
    {
        proof {
            use_type_invariant(&*self);
            self.lemma_well_formed();
        }
        if self.running {
            Err(Error::AlreadyRunning)
        } else {
            self.running = true;
            Ok(())
        }
    }

    /// Brings the profiler to rest: the counter at zero, the collector
    /// replaced by an empty one, no session active.
    pub fn init(&mut self) -> (done: Result<(), Error>)
        ensures
            done == Ok::<(), Error>(()),
            final(self)@ == ProfilerState::idle(),
    {
        match Collector::new() {
            Ok(data) => {
                proof {
                    use_type_invariant(&data);
                }
                *self = Profiler { data, sample_counter: 0, running: false };
                Ok(())
            },
            Err(_) => Err(Error::CreatingError),
        }
    }

    /// Stops the session and brings the profiler to rest. Where none is
    /// active the request is refused with `NotRunning` and nothing changes.
    pub fn stop(&mut self) -> (stopped: Result<(), Error>)
        ensures
            stopped == old(self)@.stop_result(),
            final(self)@ == old(self)@.stop(),
            final(self)@.well_formed(),
    {
        proof {
            use_type_invariant(&*self);
            self.lemma_well_formed();
        }
        if self.running {
            self.init()
        } else {
            Err(Error::NotRunning)
        }
    }

    /// Submits one sample: the walk `backtrace` of the stack of the thread
    /// `thread_id`, which goes by `thread_name`. A profiler at rest ignores
    /// it. Where the collector refuses the sample, it is dropped.
    pub fn sample(&mut self, backtrace: &[u64], thread_name: &[u8], thread_id: u64)
        ensures
            final(self)@ == old(self)@.sample(
                SampleView::capture(backtrace@, thread_name@, thread_id),
            ),
            final(self)@.well_formed(),
    {
        proof {
            use_type_invariant(&*self);
            self.lemma_well_formed();
            lemma_steps_keep_well_formed(
                self@,
                SampleView::capture(backtrace@, thread_name@, thread_id),
            );
        }
        if !self.running {
            return;
        }
        let frames = UnresolvedFrames::new(backtrace, thread_name, thread_id);
        let mut taken = Profiler::idle();
        std::mem::swap(self, &mut taken);
        let Profiler { mut data, sample_counter, running } = taken;
        let counted: i32 = if sample_counter < i32::MAX {
            sample_counter + 1
        } else {
            sample_counter
        };
        match data.add(frames, 1) {
            Ok(()) => {},
            Err(_) => {},
        }
        proof {
            use_type_invariant(&data);
        }
        *self = Profiler { data, sample_counter: counted, running };
    }

    /// Whether a session is active.
    pub fn is_running(&self) -> (running: bool)
        ensures
            running == self@.running,
    {
        self.running
    }

    /// The number of samples that the session has taken.
    pub fn sample_count(&self) -> (count: i32)
        ensures
            count == self@.sample_counter,
            count >= 0,
    {
        proof {
            use_type_invariant(self);
        }
        self.sample_counter
    }

    /// What the session has collected.
    pub fn data(&self) -> (data: &Collector)
        ensures
            data@ == self@.data,
    {
        &self.data
    }

    /// Samples the threads of one tick, first to last.
    fn sample_threads(&mut self, threads: &[CapturedThread])
        ensures
            final(self)@ == old(self)@.tick(thread_views(threads@)),
    {
        let ghost before = self@;
        let ghost views = thread_views(threads@);
        let mut index: usize = 0;
        while index < threads.len()
            invariant
                index <= threads@.len(),
                views == thread_views(threads@),
                self@ == before.tick(views.take(index as int)),
            decreases threads@.len() - index,
        {
            let thread = &threads[index];
            proof {
                assert(views.take(index + 1).drop_last() =~= views.take(index as int));
                assert(views.take(index + 1).last() == thread@);
            }
            match &thread.stack {
                Some(stack) => {
                    let label = thread_label(thread.thread_id);
                    self.sample(stack.as_slice(), label.as_slice(), thread.thread_id);
                },
                None => {},
            }
            index += 1;
        }
        proof {
            assert(views.take(index as int) =~= views);
        }
    }
}

/// The sampling routine, run once at every tick of the timer on what the
/// tick found: `threads` holds, for each thread of the process, its
/// identifier and the walk of its stack. Each captured stack is submitted to
/// the profiler under the label of its thread; a thread whose walk failed is
/// passed over. Where the profiler could not be set up, nothing is done.
pub fn perf_signal_handler(profiler: &mut Result<Profiler, Error>, threads: &[CapturedThread])
    ensures
        match *old(profiler) {
            Ok(before) => *final(profiler) matches Ok(after) && after@ == before@.tick(
                thread_views(threads@),
            ),
            Err(_) => *final(profiler) == *old(profiler),
        },
{
    match profiler {
        Ok(active) => {
            active.sample_threads(threads);
        },
        Err(_) => {},
    }
}

/// What a guard is, as a value.
pub struct ProfilerGuardView {
    /// The timer that the guard owns; none once it was cancelled.
    pub timer: Option<TimerView>,
}

/// What the release of a guard leaves for its caller to do.
#[derive(Clone, Copy, Debug)]
pub struct Released {
    /// Whether the cancellation signal is to be sent to the timer's loop.
    pub signal_timer: bool,
    /// The error with which the profiler refused to stop, to be logged.
    pub stop_error: Option<Error>,
}

/// The handle of one session: it is made by starting the session, owns the
/// session's timer, and its release ends the session.
#[derive(Debug)]
pub struct ProfilerGuard {
    timer: Option<Timer>,
}

impl View for ProfilerGuard {
    type V = ProfilerGuardView;

    closed spec fn view(&self) -> ProfilerGuardView {
        ProfilerGuardView {
            timer: match self.timer {
                Some(timer) => Some(timer@),
                None => None,
            },
        }
    }
}

impl ProfilerGuard {
    /// Starts a session on `profiler`, sampled `frequency` times per second.
    /// A profiler that could not be set up gives `CreatingError`, an active
    /// one `AlreadyRunning`; neither is changed. Otherwise the session is
    /// started and the guard owns a fresh timer.
    pub fn new(profiler: &mut Result<Profiler, Error>, frequency: i32) -> (guard: Result<
        ProfilerGuard,
        Error,
    >)
        requires
            frequency > 0,
        ensures
            match *old(profiler) {
                Err(_) => {
                    &&& guard == Err::<ProfilerGuard, Error>(Error::CreatingError)
                    &&& *final(profiler) == *old(profiler)
                },
                Ok(before) => {
                    &&& *final(profiler) matches Ok(after)
                    &&& after@ == before@.start()
                    &&& match guard {
                        Ok(g) => !before@.running && g@.timer == Some(
                            TimerView::fresh(frequency as int),
                        ),
                        Err(err) => before@.running && err == Error::AlreadyRunning,
                    }
                },
            },
    {
        match profiler {
            Err(_) => Err(Error::CreatingError),
            Ok(active) => match active.start() {
                Ok(()) => Ok(ProfilerGuard { timer: Some(Timer::new(frequency)) }),
                Err(err) => Err(err),
            },
        }
    }

    /// Starts a session as `new` does, where `frequency` is positive. Any
    /// other frequency is refused before the profiler is touched: no session
    /// is started and no timer is made.
    pub fn checked_new(profiler: &mut Result<Profiler, Error>, frequency: i32) -> (guard: Option<
        Result<ProfilerGuard, Error>,
    >)
        ensures
            frequency <= 0 <==> guard is None,
            match guard {
                None => *final(profiler) == *old(profiler),
                Some(started) => match *old(profiler) {
                    Err(_) => {
                        &&& started == Err::<ProfilerGuard, Error>(Error::CreatingError)
                        &&& *final(profiler) == *old(profiler)
                    },
                    Ok(before) => {
                        &&& *final(profiler) matches Ok(after)
                        &&& after@ == before@.start()
                        &&& match started {
                            Ok(g) => !before@.running && g@.timer == Some(
                                TimerView::fresh(frequency as int),
                            ),
                            Err(err) => before@.running && err == Error::AlreadyRunning,
                        }
                    },
                },
            },
    {
        if frequency <= 0 {
            None
        } else {
            Some(ProfilerGuard::new(profiler, frequency))
        }
    }

    /// Does what is left to undo of the registration with the platform:
    /// with a timer that runs in a worker, nothing.
    fn unregister_signal_handler(&self) -> (done: Result<(), Error>)
        ensures
            done == Ok::<(), Error>(()),
    {
        Ok(())
    }

    /// A builder of a report on `profiler`, the profiler of this guard's
    /// session.
    pub fn report<'a>(&self, profiler: &'a Result<Profiler, Error>) -> (builder: ReportBuilder<'a>)
        ensures
            builder.profiler() == *profiler,
    {
        ReportBuilder::new(profiler)
    }

    /// The timer that the guard owns; none once it was cancelled.
    pub fn timer(&self) -> (timer: Option<&Timer>)
        ensures
            match timer {
                Some(t) => self@.timer == Some(t@),
                None => self@.timer is None,
            },
    {
        self.timer.as_ref()
    }

    /// Hands out the loop for the worker of the guard's timer: once, and
    /// not after the timer was cancelled and dropped.
    pub fn start_timer_loop(&mut self) -> (tick_loop: Option<TickLoop>)
        ensures
            match old(self)@.timer {
                Some(timer) => {
                    &&& final(self)@.timer == Some(timer.start_loop())
                    &&& timer.loop_started <==> tick_loop is None
                    &&& tick_loop matches Some(l) ==> l@ == (TickLoopView {
                        interval: timer.interval,
                        stopped: false,
                    })
                },
                None => tick_loop is None && final(self)@ == old(self)@,
            },
    {
        match self.timer.take() {
            Some(mut timer) => {
                let tick_loop = timer.start_loop();
                self.timer = Some(timer);
                tick_loop
            },
            None => None,
        }
    }

    /// Cancels the guard's timer and drops it. The result says whether the
    /// cancellation signal is to be sent to the timer's loop: it is where the
    /// guard still had a timer that was not cancelled.
    pub fn cancel_timer(&mut self) -> (signal: bool)
        ensures
            final(self)@.timer is None,
            signal == (old(self)@.timer matches Some(timer) && timer.cancel_signals()),
    {
        match self.timer.take() {
            Some(mut timer) => timer.cancel(),
            None => false,
        }
    }

    /// Releases the guard: the timer is cancelled and dropped, then the
    /// session on `profiler` is stopped. Afterwards no session is active,
    /// whatever state the profiler was in. A refusal of the profiler to stop
    /// is handed back to be logged; it does not keep the release from
    /// completing.
    pub fn release(&mut self, profiler: &mut Result<Profiler, Error>) -> (released: Released)
        ensures
            final(self)@.timer is None,
            released.signal_timer == (old(self)@.timer matches Some(timer)
                && timer.cancel_signals()),
            match *old(profiler) {
                Err(_) => {
                    &&& *final(profiler) == *old(profiler)
                    &&& released.stop_error is None
                },
                Ok(before) => {
                    &&& *final(profiler) matches Ok(after)
                    &&& after@ == before@.stop()
                    &&& !after@.running
                    &&& released.stop_error == (match before@.stop_result() {
                        Ok(_) => None,
                        Err(err) => Some(err),
                    })
                },
            },
    {
        let signal_timer = self.cancel_timer();
        let stop_error = match profiler {
            Err(_) => None,
            Ok(active) => match active.stop() {
                Ok(()) => None,
                Err(err) => Some(err),
            },
        };
        match self.unregister_signal_handler() {
            Ok(()) => {},
            Err(_) => {},
        }
        Released { signal_timer, stop_error }
    }
}

/// Every step of a profiler keeps it well formed: starting and stopping a
/// session, and submitting a sample.
pub proof fn lemma_steps_keep_well_formed(profiler: ProfilerState, sample: SampleView)
    requires
        profiler.well_formed(),
    ensures
        ProfilerState::idle().well_formed(),
        profiler.start().well_formed(),
        profiler.stop().well_formed(),
        profiler.sample(sample).well_formed(),
{
    lemma_record(profiler.data, sample, 1, sample.key());
}

/// Submitting samples keeps a profiler well formed, and keeps a session
/// active or at rest as it was.
pub proof fn lemma_samples_keep_session(profiler: ProfilerState, samples: Seq<SampleView>)
    requires
        profiler.well_formed(),
    ensures
        profiler.sample_all(samples).well_formed(),
        profiler.sample_all(samples).running == profiler.running,
    decreases samples.len(),
{
    if samples.len() > 0 {
        lemma_samples_keep_session(profiler, samples.drop_last());
        lemma_steps_keep_well_formed(profiler.sample_all(samples.drop_last()), samples.last());
    }
}

/// Starting a session twice without stopping it between: the first start
/// of a profiler at rest succeeds, and whatever samples the session then
/// takes, a second start is refused with `AlreadyRunning` and leaves the
/// profiler, and with it what the session has collected, as it was.
pub proof fn lemma_second_start_is_refused(profiler: ProfilerState, samples: Seq<SampleView>)
    requires
        profiler.well_formed(),
        !profiler.running,
    ensures
        profiler.start_result() == Ok::<(), Error>(()),
        profiler.start().sample_all(samples).start_result() == Err::<(), Error>(
            Error::AlreadyRunning,
        ),
        profiler.start().sample_all(samples).start() == profiler.start().sample_all(samples),
{
    lemma_samples_keep_session(profiler.start(), samples);
}

/// Stopping a profiler at rest is refused with `NotRunning` and leaves it
/// as it was.
pub proof fn lemma_stop_at_rest_is_refused(profiler: ProfilerState)
    requires
        !profiler.running,
    ensures
        profiler.stop_result() == Err::<(), Error>(Error::NotRunning),
        profiler.stop() == profiler,
{
}

/// A stop empties the profiler: whatever samples a session has taken,
/// stopping it succeeds and leaves the profiler at rest, and the session
/// started next begins with nothing collected, under every identity a weight
/// of zero, and its counter at zero.
pub proof fn lemma_stop_empties(profiler: ProfilerState, samples: Seq<SampleView>)
    requires
        profiler.well_formed(),
        !profiler.running,
    ensures
        profiler.start().sample_all(samples).stop_result() == Ok::<(), Error>(()),
        profiler.start().sample_all(samples).stop() == ProfilerState::idle(),
        ProfilerState::idle().start_result() == Ok::<(), Error>(()),
        ProfilerState::idle().start().running,
        ProfilerState::idle().start().data == Aggregation::empty(),
        ProfilerState::idle().start().data.total() == 0,
        ProfilerState::idle().start().sample_counter == 0,
        forall|key: StackKey| ProfilerState::idle().start().data.weight_of(key) == 0,
{
    lemma_samples_keep_session(profiler.start(), samples);
}

/// Samples of one identity accumulate: after an active session has taken
/// `samples`, all of the identity `key`, the weight under `key` has grown by
/// their number, and so has the total weight; the weight under every other
/// identity is as it was. This holds as long as the total weight stays
/// within `u64::MAX`: beyond it samples are dropped.
pub proof fn lemma_identical_samples_accumulate(
    profiler: ProfilerState,
    samples: Seq<SampleView>,
    key: StackKey,
    other: StackKey,
)
    requires
        profiler.well_formed(),
        profiler.running,
        forall|i: int| 0 <= i < samples.len() ==> (#[trigger] samples[i]).key() == key,
        profiler.data.total() + samples.len() <= u64::MAX,
        other != key,
    ensures
        profiler.sample_all(samples).data.weight_of(key) == profiler.data.weight_of(key)
            + samples.len(),
        profiler.sample_all(samples).data.total() == profiler.data.total() + samples.len(),
        profiler.sample_all(samples).data.weight_of(other) == profiler.data.weight_of(other),
        profiler.sample_all(samples).data.contains(other) == profiler.data.contains(other),
        samples.len() > 0 ==> profiler.sample_all(samples).data.contains(key),
    decreases samples.len(),
{
    if samples.len() > 0 {
        let earlier = samples.drop_last();
        lemma_identical_samples_accumulate(profiler, earlier, key, other);
        lemma_samples_keep_session(profiler, earlier);
        let before = profiler.sample_all(earlier);
        lemma_record(before.data, samples.last(), 1, key);
        lemma_record(before.data, samples.last(), 1, other);
    }
}

/// The counter of an active session goes up by one with every sample, up
/// to `i32::MAX`, where it stays.
pub proof fn lemma_samples_are_counted(profiler: ProfilerState, samples: Seq<SampleView>)
    requires
        profiler.well_formed(),
        profiler.running,
    ensures
        profiler.sample_all(samples).sample_counter == (if profiler.sample_counter + samples.len()
            <= i32::MAX {
            profiler.sample_counter + samples.len()
        } else {
            i32::MAX as int
        }),
    decreases samples.len(),
{
    if samples.len() > 0 {
        lemma_samples_are_counted(profiler, samples.drop_last());
        lemma_samples_keep_session(profiler, samples.drop_last());
    }
}

/// Within a session nothing that was collected is lost: a sample takes no
/// weight from any identity, nor from the total, nor from the counter.
pub proof fn lemma_sample_accumulates(profiler: ProfilerState, sample: SampleView, key: StackKey)
    requires
        profiler.well_formed(),
    ensures
        profiler.sample(sample).data.weight_of(key) >= profiler.data.weight_of(key),
        profiler.sample(sample).data.total() >= profiler.data.total(),
        profiler.sample(sample).sample_counter >= profiler.sample_counter,
        profiler.data.contains(key) ==> profiler.sample(sample).data.contains(key),
{
    lemma_record(profiler.data, sample, 1, key);
}

/// A tick of an active session takes no weight from any identity, and adds
/// one to the total weight for each thread whose walk succeeded, as long as
/// the total weight stays within `u64::MAX`.
pub proof fn lemma_tick_accumulates(
    profiler: ProfilerState,
    threads: Seq<CapturedThreadView>,
    key: StackKey,
)
    requires
        profiler.well_formed(),
        profiler.running,
        profiler.data.total() + walked(threads) <= u64::MAX,
    ensures
        profiler.tick(threads).data.total() == profiler.data.total() + walked(threads),
        profiler.tick(threads).data.weight_of(key) >= profiler.data.weight_of(key),
    decreases threads.len(),
{
    if threads.len() > 0 {
        let earlier = threads.drop_last();
        lemma_tick_accumulates(profiler, earlier, key);
        lemma_tick_keeps_session(profiler, earlier);
        match threads.last().stack {
            Some(stack) => {
                let sample = SampleView::capture(
                    stack,
                    label_of(threads.last().thread_id),
                    threads.last().thread_id,
                );
                lemma_record(profiler.tick(earlier).data, sample, 1, key);
            },
            None => {},
        }
    }
}

/// Over the ticks of an active session the weights add up: after the ticks
/// of `rounds`, in each of which at least `threads` walks succeeded, the
/// total weight has grown by the number of all walks that succeeded, which
/// is at least `threads` for every tick; no identity has lost weight; and
/// where any walk succeeded, something is collected. This holds as long as
/// the total weight stays within `u64::MAX`. The session can then be
/// stopped, which leaves the profiler at rest, where a session can be
/// started again.
pub proof fn lemma_ticks_accumulate(
    profiler: ProfilerState,
    rounds: Seq<Seq<CapturedThreadView>>,
    threads: nat,
    key: StackKey,
)
    requires
        profiler.well_formed(),
        profiler.running,
        forall|i: int| 0 <= i < rounds.len() ==> walked(#[trigger] rounds[i]) >= threads,
        profiler.data.total() + walked_in(rounds) <= u64::MAX,
    ensures
        profiler.ticks(rounds).well_formed(),
        profiler.ticks(rounds).running,
        profiler.ticks(rounds).data.total() == profiler.data.total() + walked_in(rounds),
        walked_in(rounds) >= threads * rounds.len(),
        profiler.ticks(rounds).data.total() >= threads * rounds.len(),
        profiler.ticks(rounds).data.weight_of(key) >= profiler.data.weight_of(key),
        walked_in(rounds) > 0 ==> profiler.ticks(rounds).data.tallies.len() > 0,
        profiler.ticks(rounds).stop_result() == Ok::<(), Error>(()),
        profiler.ticks(rounds).stop() == ProfilerState::idle(),
        ProfilerState::idle().start_result() == Ok::<(), Error>(()),
    decreases rounds.len(),
{
    if rounds.len() > 0 {
        let earlier = rounds.drop_last();
        assert forall|i: int| 0 <= i < earlier.len() implies walked(#[trigger] earlier[i])
            >= threads by {
            assert(earlier[i] == rounds[i]);
        }
        lemma_ticks_accumulate(profiler, earlier, threads, key);
        lemma_tick_accumulates(profiler.ticks(earlier), rounds.last(), key);
        lemma_tick_keeps_session(profiler.ticks(earlier), rounds.last());
        assert(walked(rounds.last()) >= threads) by {
            assert(rounds.last() == rounds[rounds.len() - 1]);
        }
        assert(threads * rounds.len() == threads * earlier.len() + threads) by (nonlinear_arith)
            requires
                rounds.len() == earlier.len() + 1,
        ;
    } else {
        assert(threads * rounds.len() == 0) by (nonlinear_arith)
            requires
                rounds.len() == 0,
        ;
    }
}

/// A tick keeps a profiler well formed, and keeps a session active or at
/// rest as it was; a profiler at rest is left as it was.
pub proof fn lemma_tick_keeps_session(profiler: ProfilerState, threads: Seq<CapturedThreadView>)
    requires
        profiler.well_formed(),
    ensures
        profiler.tick(threads).well_formed(),
        profiler.tick(threads).running == profiler.running,
        !profiler.running ==> profiler.tick(threads) == profiler,
    decreases threads.len(),
{
    if threads.len() > 0 {
        lemma_tick_keeps_session(profiler, threads.drop_last());
        match threads.last().stack {
            Some(stack) => {
                lemma_steps_keep_well_formed(
                    profiler.tick(threads.drop_last()),
                    SampleView::capture(
                        stack,
                        label_of(threads.last().thread_id),
                        threads.last().thread_id,
                    ),
                );
            },
            None => {},
        }
    }
}

} // verus!
