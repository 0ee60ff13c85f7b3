//! Admission policy of a pinned engine's bounded request queue, and the
//! lifecycle of one cancelable request.

use std::time::Duration;
use vstd::prelude::*;

verus! {

/// How long an asynchronous submission may wait for bounded-queue capacity.
#[derive(Clone, Copy, Debug, Eq, PartialEq)]
pub enum QueueWait {
    /// Return a queue-full error immediately when the queue is full.
    NoWait,
    /// Wait up to this duration for queue capacity. A zero duration is
    /// equivalent to `NoWait`.
    Timeout(Duration),
    /// Wait until capacity becomes available, the request is canceled, or the
    /// engine closes.
    Indefinite,
}

/// The lifecycle of one cancelable request, as stored in an atomic cell
/// shared by the submitter and the worker.
#[derive(Clone, Copy, Debug, PartialEq, Eq, Structural)]
pub enum RequestState {
    /// Submitted; the worker has not started it.
    Pending,
    /// The worker is running it.
    Started,
    /// Canceled before the worker started it.
    Canceled,
    /// The worker completed it.
    Finished,
    /// Started, and cooperative cancellation was asked for.
    CancelRequested,
}

/// The byte that stores a state in an atomic cell.
pub open spec fn state_code(state: RequestState) -> u8 {
    match state {
        RequestState::Pending => 0,
        RequestState::Started => 1,
        RequestState::Canceled => 2,
        RequestState::Finished => 3,
        RequestState::CancelRequested => 4,
    }
}

impl RequestState {
    /// The byte that stores this state in an atomic cell.
    pub fn code(self) -> (code: u8)
        ensures
            code == state_code(self),
    {
        match self {
            RequestState::Pending => 0,
            RequestState::Started => 1,
            RequestState::Canceled => 2,
            RequestState::Finished => 3,
            RequestState::CancelRequested => 4,
        }
    }

    /// The state a stored byte denotes, if any.
    pub fn from_code(code: u8) -> (state: Option<Self>)
        ensures
            match state {
                Some(s) => state_code(s) == code,
                None => code > 4,
            },
    {
        if code == 0 {
            Some(RequestState::Pending)
        } else if code == 1 {
            Some(RequestState::Started)
        } else if code == 2 {
            Some(RequestState::Canceled)
        } else if code == 3 {
            Some(RequestState::Finished)
        } else if code == 4 {
            Some(RequestState::CancelRequested)
        } else {
            None
        }
    }
}

/// One attempt of a cancellation loop over the shared state: answer now, or
/// compare-and-swap to `to`, then (on success) set the run's cancellation
/// flag if asked, signal the admission waiter, and answer `true`. A failed
/// swap retries with the state it observed.
#[derive(Clone, Copy, Debug, PartialEq, Eq)]
pub enum CancelAttempt {
    Answer(bool),
    Transition { to: RequestState, set_run_flag: bool },
}

pub open spec fn spec_cancel_before_start(state: RequestState) -> CancelAttempt {
    match state {
        RequestState::Pending => CancelAttempt::Transition {
            to: RequestState::Canceled,
            set_run_flag: false,
        },
        RequestState::Canceled => CancelAttempt::Answer(true),
        _ => CancelAttempt::Answer(false),
    }
}

pub open spec fn spec_cancel_run(state: RequestState) -> CancelAttempt {
    match state {
        RequestState::Pending => CancelAttempt::Transition {
            to: RequestState::Canceled,
            set_run_flag: false,
        },
        RequestState::Started => CancelAttempt::Transition {
            to: RequestState::CancelRequested,
            set_run_flag: true,
        },
        RequestState::Canceled | RequestState::CancelRequested => CancelAttempt::Answer(true),
        RequestState::Finished => CancelAttempt::Answer(false),
    }
}

/// Cancel before the worker starts the request: `true` once it is canceled
/// while still pending, `false` once the worker has started it.
pub fn cancel_before_start_attempt(state: RequestState) -> (attempt: CancelAttempt)
    ensures
        attempt == spec_cancel_before_start(state),
{
    match state {
        RequestState::Pending => CancelAttempt::Transition {
            to: RequestState::Canceled,
            set_run_flag: false,
        },
        RequestState::Canceled => CancelAttempt::Answer(true),
        _ => CancelAttempt::Answer(false),
    }
}

/// Cancel a run before dispatch, or ask a started run to stop: `false` once
/// the run has finished.
pub fn cancel_run_attempt(state: RequestState) -> (attempt: CancelAttempt)
    ensures
        attempt == spec_cancel_run(state),
{
    match state {
        RequestState::Pending => CancelAttempt::Transition {
            to: RequestState::Canceled,
            set_run_flag: false,
        },
        RequestState::Started => CancelAttempt::Transition {
            to: RequestState::CancelRequested,
            set_run_flag: true,
        },
        RequestState::Canceled | RequestState::CancelRequested => CancelAttempt::Answer(true),
        RequestState::Finished => CancelAttempt::Answer(false),
    }
}

/// Whether the worker has started the request.
pub fn is_started(state: RequestState) -> (started: bool)
    ensures
        started == (state == RequestState::Started || state == RequestState::CancelRequested),
{
    match state {
        RequestState::Started | RequestState::CancelRequested => true,
        _ => false,
    }
}

/// Why the worker may not start a request.
#[derive(Clone, Copy, Debug, PartialEq, Eq)]
pub enum BeginRefusal {
    /// It was canceled while pending.
    Canceled,
    /// It is not pending: dispatching it again is an internal failure.
    DispatchFailed,
}

pub open spec fn spec_begin(state: RequestState) -> Result<RequestState, BeginRefusal> {
    match state {
        RequestState::Pending => Ok(RequestState::Started),
        RequestState::Canceled => Err(BeginRefusal::Canceled),
        _ => Err(BeginRefusal::DispatchFailed),
    }
}

/// The worker's start of a request: a compare-and-swap from pending to
/// started, or why it is refused given the state it observed.
pub fn begin_transition(state: RequestState) -> (result: Result<RequestState, BeginRefusal>)
    ensures
        result == spec_begin(state),
{
    match state {
        RequestState::Pending => Ok(RequestState::Started),
        RequestState::Canceled => Err(BeginRefusal::Canceled),
        _ => Err(BeginRefusal::DispatchFailed),
    }
}

/// The worker marks the request finished by swapping in `Finished`; whether
/// an in-flight cancellation won the race with completion, given the state
/// the swap replaced.
pub fn finish_report(previous: RequestState) -> (canceled: bool)
    ensures
        canceled == (previous == RequestState::CancelRequested),
{
    match previous {
        RequestState::CancelRequested => true,
        _ => false,
    }
}

/// Every state has its own code, and the code denotes it.
pub proof fn lemma_codes_round_trip(state: RequestState, other: RequestState)
    ensures
        state_code(state) <= 4,
        state_code(state) == state_code(other) ==> state == other,
{
}

/// A finished request stays finished: both cancellations answer `false` and
/// change nothing, and the worker may not start it again.
pub proof fn lemma_finished_is_final()
    ensures
        spec_cancel_before_start(RequestState::Finished) == CancelAttempt::Answer(false),
        spec_cancel_run(RequestState::Finished) == CancelAttempt::Answer(false),
        spec_begin(RequestState::Finished) == Err::<RequestState, BeginRefusal>(
            BeginRefusal::DispatchFailed,
        ),
{
}

/// Cancellation is idempotent: once an attempt moved the state, a repeated
/// cancellation answers `true` without another transition.
pub proof fn lemma_cancel_idempotent(state: RequestState)
    ensures
        spec_cancel_run(state) matches CancelAttempt::Transition { to, .. } ==> spec_cancel_run(to)
            == CancelAttempt::Answer(true),
        spec_cancel_before_start(state) matches CancelAttempt::Transition { to, .. }
            ==> spec_cancel_before_start(to) == CancelAttempt::Answer(true) && spec_cancel_run(to)
            == CancelAttempt::Answer(true),
{
}

/// Only a pending request can be canceled before start, and a request
/// canceled before start is never started: the worker is told it was
/// canceled.
pub proof fn lemma_canceled_never_starts(state: RequestState)
    ensures
        spec_cancel_before_start(state) is Transition <==> state == RequestState::Pending,
        spec_cancel_before_start(state) matches CancelAttempt::Transition { to, .. } ==> spec_begin(
            to,
        ) == Err::<RequestState, BeginRefusal>(BeginRefusal::Canceled),
{
}

/// Cooperative cancellation reaches a started run only: the run's flag is set
/// exactly when a started request moves to cancel-requested, the state whose
/// finish reports the cancellation.
pub proof fn lemma_run_flag_only_for_started_runs(state: RequestState)
    ensures
        (spec_cancel_run(state) matches CancelAttempt::Transition { set_run_flag: true, .. })
            <==> state == RequestState::Started,
        spec_cancel_run(state) matches CancelAttempt::Transition { to, set_run_flag: true } ==> to
            == RequestState::CancelRequested,
{
}

} // verus!
