use std::cell::RefCell;

use sampling_profiler::error::Error;
use sampling_profiler::frames::UnresolvedFrames;
use sampling_profiler::profiler::{perf_signal_handler, CapturedThread, Profiler, ProfilerGuard};
use sampling_profiler::report::ReportBuilder;
use sampling_profiler::timer::TickAction;

fn is_at_rest(slot: &Result<Profiler, Error>) -> bool {
    let profiler = slot.as_ref().unwrap();
    !profiler.is_running() && profiler.sample_count() == 0 && profiler.data().is_empty()
}

struct Scoped<'a> {
    slot: &'a RefCell<Result<Profiler, Error>>,
    guard: ProfilerGuard,
}

impl Drop for Scoped<'_> {
    fn drop(&mut self) {
        self.guard.release(&mut self.slot.borrow_mut());
    }
}

fn scope_that_fails(slot: &RefCell<Result<Profiler, Error>>) -> Result<u64, Error> {
    let guard = ProfilerGuard::new(&mut slot.borrow_mut(), 100)?;
    let scoped = Scoped { slot, guard };
    perf_signal_handler(
        &mut slot.borrow_mut(),
        &[CapturedThread { thread_id: 1, stack: Some(vec![1, 2, 3]) }],
    );
    let missing: Result<Profiler, Error> = Err(Error::CreatingError);
    let total = scoped.guard.report(&missing).snapshot()?.total_weight();
    Ok(total)
}

#[test]
fn guard_starts_a_session() {
    let mut slot = Profiler::new();
    let guard = ProfilerGuard::new(&mut slot, 100).unwrap();
    assert!(slot.as_ref().unwrap().is_running());
    let timer = guard.timer().unwrap();
    assert_eq!(timer.frequency(), 100);
    assert_eq!(timer.interval(), 10_000);
    assert!(!timer.is_cancelled());
}

#[test]
fn guard_on_a_failed_profiler_is_creating_error() {
    let mut slot: Result<Profiler, Error> = Err(Error::CreatingError);
    assert_eq!(ProfilerGuard::new(&mut slot, 100).unwrap_err(), Error::CreatingError);
    assert_eq!(slot.unwrap_err(), Error::CreatingError);
    let mut other: Result<Profiler, Error> = Err(Error::NotRunning);
    assert_eq!(ProfilerGuard::new(&mut other, 100).unwrap_err(), Error::CreatingError);
    assert_eq!(other.unwrap_err(), Error::NotRunning);
}

#[test]
fn checked_guard_refuses_a_frequency_that_is_not_positive() {
    for frequency in [0, -1, -100, i32::MIN] {
        let mut slot = Profiler::new();
        assert!(ProfilerGuard::checked_new(&mut slot, frequency).is_none());
        assert!(is_at_rest(&slot));
    }
}

#[test]
fn checked_guard_leaves_a_session_alone_when_it_refuses() {
    let mut slot = Profiler::new();
    let _guard = ProfilerGuard::new(&mut slot, 100).unwrap();
    perf_signal_handler(&mut slot, &[CapturedThread { thread_id: 1, stack: Some(vec![5, 6]) }]);
    assert!(ProfilerGuard::checked_new(&mut slot, 0).is_none());
    assert!(ProfilerGuard::checked_new(&mut slot, -7).is_none());
    let profiler = slot.as_ref().unwrap();
    assert!(profiler.is_running());
    assert_eq!(profiler.sample_count(), 1);
    assert_eq!(profiler.data().total_weight(), 1);
    let mut failed: Result<Profiler, Error> = Err(Error::CreatingError);
    assert!(ProfilerGuard::checked_new(&mut failed, 0).is_none());
    assert_eq!(failed.unwrap_err(), Error::CreatingError);
}

#[test]
fn checked_guard_starts_a_session_at_a_positive_frequency() {
    let mut slot = Profiler::new();
    let guard = ProfilerGuard::checked_new(&mut slot, 100).unwrap().unwrap();
    assert!(slot.as_ref().unwrap().is_running());
    assert_eq!(guard.timer().unwrap().interval(), 10_000);
    let second = ProfilerGuard::checked_new(&mut slot, 1).unwrap();
    assert_eq!(second.unwrap_err(), Error::AlreadyRunning);
    let mut failed: Result<Profiler, Error> = Err(Error::CreatingError);
    let third = ProfilerGuard::checked_new(&mut failed, 100).unwrap();
    assert_eq!(third.unwrap_err(), Error::CreatingError);
}

#[test]
fn second_guard_is_already_running() {
    let mut slot = Profiler::new();
    let _first = ProfilerGuard::new(&mut slot, 100).unwrap();
    perf_signal_handler(&mut slot, &[CapturedThread { thread_id: 1, stack: Some(vec![5, 6]) }]);
    assert_eq!(ProfilerGuard::new(&mut slot, 100).unwrap_err(), Error::AlreadyRunning);
    assert_eq!(ProfilerGuard::new(&mut slot, 50).unwrap_err(), Error::AlreadyRunning);
    let profiler = slot.as_ref().unwrap();
    assert!(profiler.is_running());
    assert_eq!(profiler.sample_count(), 1);
    assert_eq!(profiler.data().weight_of(&UnresolvedFrames::new(&[5, 6], b"Thread:1", 1)), 1);
}

#[test]
fn release_returns_the_profiler_to_rest() {
    let mut slot = Profiler::new();
    let mut guard = ProfilerGuard::new(&mut slot, 100).unwrap();
    perf_signal_handler(&mut slot, &[CapturedThread { thread_id: 1, stack: Some(vec![5, 6]) }]);
    let released = guard.release(&mut slot);
    assert!(released.signal_timer);
    assert_eq!(released.stop_error, None);
    assert!(guard.timer().is_none());
    assert!(is_at_rest(&slot));
}

#[test]
fn release_can_be_repeated() {
    let mut slot = Profiler::new();
    let mut guard = ProfilerGuard::new(&mut slot, 100).unwrap();
    guard.release(&mut slot);
    let again = guard.release(&mut slot);
    assert!(!again.signal_timer);
    assert_eq!(again.stop_error, Some(Error::NotRunning));
    assert!(is_at_rest(&slot));
}

#[test]
fn release_on_a_failed_profiler_completes() {
    let mut slot = Profiler::new();
    let mut guard = ProfilerGuard::new(&mut slot, 100).unwrap();
    let mut failed: Result<Profiler, Error> = Err(Error::CreatingError);
    let released = guard.release(&mut failed);
    assert!(released.signal_timer);
    assert_eq!(released.stop_error, None);
    assert_eq!(failed.unwrap_err(), Error::CreatingError);
    assert!(guard.timer().is_none());
}

#[test]
fn release_after_an_error_in_the_scope_returns_the_profiler_to_rest() {
    let slot = RefCell::new(Profiler::new());
    assert_eq!(scope_that_fails(&slot), Err(Error::CreatingError));
    assert!(is_at_rest(&slot.borrow()));
    let again = ProfilerGuard::new(&mut slot.borrow_mut(), 100);
    assert!(again.is_ok());
}

#[test]
fn cancel_timer_signals_once() {
    let mut slot = Profiler::new();
    let mut guard = ProfilerGuard::new(&mut slot, 100).unwrap();
    assert!(guard.cancel_timer());
    assert!(guard.timer().is_none());
    assert!(!guard.cancel_timer());
    assert!(!guard.cancel_timer());
    assert!(slot.as_ref().unwrap().is_running());
    let released = guard.release(&mut slot);
    assert!(!released.signal_timer);
    assert_eq!(released.stop_error, None);
    assert!(is_at_rest(&slot));
}

#[test]
fn guard_hands_out_one_loop() {
    let mut slot = Profiler::new();
    let mut guard = ProfilerGuard::new(&mut slot, 200).unwrap();
    let mut tick_loop = guard.start_timer_loop().unwrap();
    assert_eq!(tick_loop.next(false), TickAction::Sample { sleep_micros: 5_000 });
    assert!(guard.start_timer_loop().is_none());
    assert!(guard.timer().is_some());
    guard.cancel_timer();
    assert!(guard.start_timer_loop().is_none());
}

#[test]
fn report_shows_what_was_collected() {
    let mut slot = Profiler::new();
    let guard = ProfilerGuard::new(&mut slot, 100).unwrap();
    perf_signal_handler(
        &mut slot,
        &[
            CapturedThread { thread_id: 1, stack: Some(vec![5, 6]) },
            CapturedThread { thread_id: 2, stack: Some(vec![7]) },
        ],
    );
    let builder = guard.report(&slot);
    let data = builder.snapshot().unwrap();
    assert_eq!(data.len(), 2);
    assert_eq!(data.total_weight(), 2);
    assert_eq!(data.weight_of(&UnresolvedFrames::new(&[7], b"Thread:2", 2)), 1);
}

#[test]
fn report_on_a_failed_profiler_is_creating_error() {
    let slot: Result<Profiler, Error> = Err(Error::NotRunning);
    let builder = ReportBuilder::new(&slot);
    assert_eq!(builder.snapshot().unwrap_err(), Error::CreatingError);
}

#[test]
fn report_of_a_profiler_at_rest_is_empty() {
    let slot = Profiler::new();
    let builder = ReportBuilder::new(&slot);
    let data = builder.snapshot().unwrap();
    assert!(data.is_empty());
    assert_eq!(data.total_weight(), 0);
}

#[test]
fn session_end_to_end() {
    let mut slot = Profiler::new();
    let mut guard = ProfilerGuard::new(&mut slot, 100).unwrap();
    let mut tick_loop = guard.start_timer_loop().unwrap();
    let threads = vec![
        CapturedThread { thread_id: 11, stack: Some(vec![0x10, 0x20, 0x30]) },
        CapturedThread { thread_id: 12, stack: Some(vec![0x10, 0x40]) },
        CapturedThread { thread_id: 13, stack: Some(vec![0x50]) },
    ];
    let mut ticks = 0;
    let mut slept = 0;
    while ticks < 6 {
        match tick_loop.next(false) {
            TickAction::Sample { sleep_micros } => {
                slept += sleep_micros;
                perf_signal_handler(&mut slot, &threads);
                ticks += 1;
            }
            TickAction::Stop => unreachable!(),
        }
    }
    assert_eq!(slept, 60_000);
    {
        let builder = guard.report(&slot);
        let data = builder.snapshot().unwrap();
        assert!(!data.is_empty());
        assert!(data.total_weight() >= 3 * 5);
        assert_eq!(data.total_weight(), 18);
        assert_eq!(data.len(), 3);
        assert_eq!(data.weight_of(&UnresolvedFrames::new(&[0x10, 0x40], b"Thread:12", 12)), 6);
    }
    let signal = guard.cancel_timer();
    assert!(signal);
    assert_eq!(tick_loop.next(signal), TickAction::Stop);
    let released = guard.release(&mut slot);
    assert!(!released.signal_timer);
    assert_eq!(released.stop_error, None);
    assert!(is_at_rest(&slot));
    let second = ProfilerGuard::new(&mut slot, 100);
    assert!(second.is_ok());
    assert!(slot.as_ref().unwrap().is_running());
    assert!(slot.as_ref().unwrap().data().is_empty());
}
