use ferric_rules_runtime::engine::{
    pushes_main_focus, step_follow_up, HaltReason, RunAction, RunEvent, RunLimit, RunLoop, RunResult, StepFollowUp,
};

fn fired() -> RunEvent {
    RunEvent::Fired {
        logically_fired: true,
        halt_requested: false,
        reset_requested: false,
        clear_requested: false,
        action_error: false,
    }
}

fn finish(rules_fired: usize, halt_reason: HaltReason) -> RunAction {
    RunAction::Finish(RunResult { rules_fired, halt_reason })
}

/// Drive a run over a script of events, as an engine would.
fn drive(limit: RunLimit, events: &[RunEvent]) -> RunAction {
    let mut run = RunLoop::begin(limit);
    let mut action = run.next_action();
    let mut next = 0;
    while action == RunAction::NextActivation {
        action = run.observe(events[next]);
        next += 1;
    }
    action
}

#[test]
fn a_count_of_two_stops_with_the_limit_reached() {
    let events = [fired(), fired(), fired()];
    assert_eq!(drive(RunLimit::Count(2), &events), finish(2, HaltReason::LimitReached));
}

#[test]
fn a_count_of_zero_fires_nothing() {
    assert_eq!(drive(RunLimit::Count(0), &[]), finish(0, HaltReason::LimitReached));
}

#[test]
fn an_unlimited_run_stops_when_the_agenda_empties() {
    let events = [fired(), fired(), RunEvent::AgendaEmpty];
    assert_eq!(drive(RunLimit::Unlimited, &events), finish(2, HaltReason::AgendaEmpty));
}

#[test]
fn a_halt_pending_before_run_is_cleared_at_start() {
    let mut earlier = RunLoop::begin(RunLimit::Unlimited);
    earlier.request_halt();
    assert_eq!(earlier.next_action(), finish(0, HaltReason::HaltRequested));
    let fresh = RunLoop::begin(RunLimit::Unlimited);
    assert_eq!(fresh.next_action(), RunAction::NextActivation);
    let resumed = RunLoop::resume(RunLimit::Count(3), true);
    assert_eq!(resumed.next_action(), finish(0, HaltReason::HaltRequested));
}

#[test]
fn a_halt_action_stops_the_run_after_its_activation() {
    let halting = RunEvent::Fired {
        logically_fired: true,
        halt_requested: true,
        reset_requested: false,
        clear_requested: false,
        action_error: false,
    };
    let events = [fired(), halting, fired()];
    assert_eq!(drive(RunLimit::Unlimited, &events), finish(2, HaltReason::HaltRequested));
}

#[test]
fn the_limit_is_checked_before_a_pending_halt() {
    let halting = RunEvent::Fired {
        logically_fired: true,
        halt_requested: true,
        reset_requested: false,
        clear_requested: false,
        action_error: false,
    };
    assert_eq!(drive(RunLimit::Count(1), &[halting]), finish(1, HaltReason::LimitReached));
}

#[test]
fn an_action_error_wins_over_clear_and_reset() {
    let failing = RunEvent::Fired {
        logically_fired: true,
        halt_requested: false,
        reset_requested: true,
        clear_requested: true,
        action_error: true,
    };
    assert_eq!(drive(RunLimit::Unlimited, &[failing]), finish(1, HaltReason::ActionError));
}

#[test]
fn a_clear_wins_over_a_reset_and_both_report_a_halt() {
    let both = RunEvent::Fired {
        logically_fired: true,
        halt_requested: false,
        reset_requested: true,
        clear_requested: true,
        action_error: false,
    };
    assert_eq!(
        drive(RunLimit::Unlimited, &[both]),
        RunAction::ClearThenFinish(RunResult { rules_fired: 1, halt_reason: HaltReason::HaltRequested })
    );
    let reset = RunEvent::Fired {
        logically_fired: false,
        halt_requested: false,
        reset_requested: true,
        clear_requested: false,
        action_error: false,
    };
    assert_eq!(
        drive(RunLimit::Unlimited, &[fired(), reset]),
        RunAction::ResetThenFinish(RunResult { rules_fired: 1, halt_reason: HaltReason::HaltRequested })
    );
}

#[test]
fn an_activation_that_did_not_fire_is_not_counted() {
    let quiet = RunEvent::Fired {
        logically_fired: false,
        halt_requested: false,
        reset_requested: false,
        clear_requested: false,
        action_error: false,
    };
    let events = [quiet, quiet, fired(), RunEvent::AgendaEmpty];
    assert_eq!(drive(RunLimit::Count(2), &events), finish(1, HaltReason::AgendaEmpty));
}

#[test]
fn a_run_never_fires_more_than_its_limit() {
    for limit in 0..6 {
        let events = vec![fired(); 10];
        match drive(RunLimit::Count(limit), &events) {
            RunAction::Finish(result) => {
                assert_eq!(result.rules_fired, limit);
                assert_eq!(result.halt_reason, HaltReason::LimitReached);
            }
            other => panic!("unexpected {other:?}"),
        }
    }
}

#[test]
fn step_clears_before_it_resets() {
    assert_eq!(step_follow_up(true, true), StepFollowUp::Clear);
    assert_eq!(step_follow_up(true, false), StepFollowUp::Reset);
    assert_eq!(step_follow_up(false, true), StepFollowUp::Clear);
    assert_eq!(step_follow_up(false, false), StepFollowUp::Nothing);
}

#[test]
fn main_is_pushed_only_on_an_empty_stack_of_a_fresh_run() {
    assert!(pushes_main_focus(true, true));
    assert!(!pushes_main_focus(true, false));
    assert!(!pushes_main_focus(false, true));
}
