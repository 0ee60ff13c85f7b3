use ferric_rules_runtime::pinned::{
    begin_transition, cancel_before_start_attempt, cancel_run_attempt, finish_report, is_started,
    BeginRefusal, CancelAttempt, QueueWait, RequestState,
};
use std::time::Duration;

const STATES: [RequestState; 5] = [
    RequestState::Pending,
    RequestState::Started,
    RequestState::Canceled,
    RequestState::Finished,
    RequestState::CancelRequested,
];

// A single-threaded stand-in for the atomic cell: apply one cancellation loop.
fn cancel(state: &mut RequestState, attempt: fn(RequestState) -> CancelAttempt) -> (bool, bool) {
    match attempt(*state) {
        CancelAttempt::Answer(answer) => (answer, false),
        CancelAttempt::Transition { to, set_run_flag } => {
            *state = to;
            (true, set_run_flag)
        }
    }
}

#[test]
fn state_codes_are_distinct_bytes_that_round_trip() {
    for (index, state) in STATES.iter().enumerate() {
        assert_eq!(state.code(), index as u8);
        assert_eq!(RequestState::from_code(state.code()), Some(*state));
    }
    for code in 5..=u8::MAX {
        assert_eq!(RequestState::from_code(code), None);
    }
}

#[test]
fn pre_dispatch_cancel_wins_only_while_pending() {
    let mut state = RequestState::Pending;
    assert_eq!(cancel(&mut state, cancel_before_start_attempt), (true, false));
    assert_eq!(state, RequestState::Canceled);
    assert_eq!(cancel(&mut state, cancel_before_start_attempt), (true, false));
    assert_eq!(begin_transition(state), Err(BeginRefusal::Canceled));
    for state in [RequestState::Started, RequestState::Finished, RequestState::CancelRequested] {
        assert_eq!(cancel_before_start_attempt(state), CancelAttempt::Answer(false));
    }
}

#[test]
fn run_cancellation_sets_the_flag_only_after_start() {
    let mut state = RequestState::Pending;
    assert_eq!(begin_transition(state), Ok(RequestState::Started));
    state = RequestState::Started;
    assert!(is_started(state));
    assert_eq!(cancel(&mut state, cancel_run_attempt), (true, true));
    assert_eq!(state, RequestState::CancelRequested);
    assert!(is_started(state));
    assert_eq!(cancel(&mut state, cancel_run_attempt), (true, false));
    assert!(finish_report(state));
    let mut pending = RequestState::Pending;
    assert_eq!(cancel(&mut pending, cancel_run_attempt), (true, false));
    assert_eq!(pending, RequestState::Canceled);
    assert!(!is_started(pending));
}

#[test]
fn finished_requests_are_final() {
    for attempt in [cancel_before_start_attempt, cancel_run_attempt] {
        assert_eq!(attempt(RequestState::Finished), CancelAttempt::Answer(false));
    }
    assert_eq!(
        begin_transition(RequestState::Finished),
        Err(BeginRefusal::DispatchFailed)
    );
    assert_eq!(
        begin_transition(RequestState::Started),
        Err(BeginRefusal::DispatchFailed)
    );
    for state in STATES {
        assert_eq!(finish_report(state), state == RequestState::CancelRequested);
    }
}

#[test]
fn repeated_cancellation_is_idempotent_from_every_state() {
    for start in STATES {
        for attempt in [cancel_before_start_attempt, cancel_run_attempt] {
            let mut state = start;
            let (first, _) = cancel(&mut state, attempt);
            let after = state;
            let (second, flag) = cancel(&mut state, attempt);
            assert_eq!(second, first, "{start:?}");
            assert!(!flag);
            assert_eq!(state, after);
        }
    }
}

#[test]
fn queue_wait_values_compare_by_duration() {
    assert_eq!(QueueWait::Timeout(Duration::ZERO), QueueWait::Timeout(Duration::from_secs(0)));
    assert_ne!(QueueWait::NoWait, QueueWait::Indefinite);
}
