//! Engine-level results reported to embedding applications, and the
//! decisions of the engine's run loop.

use crate::host::FactHandle;
use vstd::prelude::*;

verus! {

/// Result of attempting to assert a fact.
#[derive(Clone, Copy, Debug, PartialEq, Eq)]
pub enum FactAssertionResult<Id = FactHandle> {
    /// A new fact was inserted and propagated through the RETE network.
    Asserted(Id),
    /// Duplication was disabled and an equivalent active fact already existed.
    Duplicate(Id),
}

/// The fact identity carried by an assertion result.
pub open spec fn assertion_fact_id<Id>(result: FactAssertionResult<Id>) -> Id {
    match result {
        FactAssertionResult::Asserted(id) => id,
        FactAssertionResult::Duplicate(id) => id,
    }
}

impl<Id: Copy> FactAssertionResult<Id> {
    /// Return the newly asserted or existing equivalent fact ID.
    pub fn fact_id(self) -> (id: Id)
        ensures
            id == assertion_fact_id(self),
    {
        match self {
            FactAssertionResult::Asserted(fact_id) => fact_id,
            FactAssertionResult::Duplicate(fact_id) => fact_id,
        }
    }

    /// Return whether this assertion created a new fact.
    pub fn was_asserted(self) -> (asserted: bool)
        ensures
            asserted == (self is Asserted),
    {
        matches!(self, FactAssertionResult::Asserted(_))
    }
}

/// How many rules one `run` may fire.
#[derive(Clone, Copy, Debug, PartialEq, Eq)]
pub enum RunLimit {
    /// Fire until the agenda empties or something stops the run.
    Unlimited,
    /// Fire at most this many rules.
    Count(usize),
}

/// Why a run stopped.
#[derive(Clone, Copy, Debug, PartialEq, Eq)]
pub enum HaltReason {
    /// No eligible activation was left.
    AgendaEmpty,
    /// The run fired as many rules as its limit allows.
    LimitReached,
    /// A halt, reset or clear was requested.
    HaltRequested,
    /// An activation reported an action error.
    ActionError,
}

/// What a run reports when it stops.
#[derive(Clone, Copy, Debug, PartialEq, Eq)]
pub struct RunResult {
    /// The activations that logically fired during the run.
    pub rules_fired: usize,
    /// Why the run stopped.
    pub halt_reason: HaltReason,
}

/// What the embedding observed after the run loop asked for the next
/// activation.
#[derive(Clone, Copy, Debug, PartialEq, Eq)]
pub enum RunEvent {
    /// No eligible activation remained under the focus stack.
    AgendaEmpty,
    /// An activation was popped and its actions executed.
    Fired {
        /// The activation reached its actions.
        logically_fired: bool,
        /// A `(halt)` action ran.
        halt_requested: bool,
        /// A `(reset)` action ran.
        reset_requested: bool,
        /// A `(clear)` action ran.
        clear_requested: bool,
        /// An action reported an error.
        action_error: bool,
    },
}

/// What the run loop asks the embedding to do next.
#[derive(Clone, Copy, Debug, PartialEq, Eq)]
pub enum RunAction {
    /// Pop the next eligible activation and execute its actions.
    NextActivation,
    /// Stop with this result.
    Finish(RunResult),
    /// Clear the engine, then stop with this result.
    ClearThenFinish(RunResult),
    /// Reset the engine, then stop with this result.
    ResetThenFinish(RunResult),
}

/// The most rules a run under `limit` may fire.
pub open spec fn spec_max_fires(limit: RunLimit) -> nat {
    match limit {
        RunLimit::Unlimited => usize::MAX as nat,
        RunLimit::Count(n) => n as nat,
    }
}

/// A stopped run's result.
pub open spec fn run_result(fired: nat, reason: HaltReason) -> RunResult {
    RunResult { rules_fired: fired as usize, halt_reason: reason }
}

/// What the run loop does before each activation: the limit is checked
/// first, then a pending halt request.
pub open spec fn run_decision(fired: nat, max: nat, halted: bool) -> RunAction {
    if fired < max {
        if halted {
            RunAction::Finish(run_result(fired, HaltReason::HaltRequested))
        } else {
            RunAction::NextActivation
        }
    } else {
        RunAction::Finish(run_result(fired, HaltReason::LimitReached))
    }
}

/// The fired count after `event`.
pub open spec fn fired_after(fired: nat, event: RunEvent) -> nat {
    match event {
        RunEvent::Fired { logically_fired, .. } => if logically_fired {
            fired + 1
        } else {
            fired
        },
        RunEvent::AgendaEmpty => fired,
    }
}

/// The pending halt request after `event`.
pub open spec fn halted_after(halted: bool, event: RunEvent) -> bool {
    match event {
        RunEvent::Fired { halt_requested, .. } => halted || halt_requested,
        RunEvent::AgendaEmpty => halted,
    }
}

/// What the run loop does after `event`: an empty agenda ends the run; an
/// action error ends it before a clear, and a clear before a reset; both
/// of those end it as a halt. Otherwise the loop decides as before each
/// activation.
pub open spec fn run_reaction(fired: nat, max: nat, halted: bool, event: RunEvent) -> RunAction {
    let now = fired_after(fired, event);
    match event {
        RunEvent::AgendaEmpty => RunAction::Finish(run_result(fired, HaltReason::AgendaEmpty)),
        RunEvent::Fired { reset_requested, clear_requested, action_error, .. } => {
            if action_error {
                RunAction::Finish(run_result(now, HaltReason::ActionError))
            } else if clear_requested {
                RunAction::ClearThenFinish(run_result(now, HaltReason::HaltRequested))
            } else if reset_requested {
                RunAction::ResetThenFinish(run_result(now, HaltReason::HaltRequested))
            } else {
                run_decision(now, max, halted_after(halted, event))
            }
        },
    }
}

/// Where a run loop in state `(fired, halted)` stands once it has been
/// handed `events` in order, each after it asked for an activation; the
/// events left after it stopped are not read.
pub open spec fn run_outcome(fired: nat, max: nat, halted: bool, events: Seq<RunEvent>) -> RunAction
    decreases events.len(),
{
    let before = run_decision(fired, max, halted);
    if events.len() == 0 || !(before is NextActivation) {
        before
    } else {
        let event = events[0];
        let after = run_reaction(fired, max, halted, event);
        if after is NextActivation {
            run_outcome(fired_after(fired, event), max, halted_after(halted, event), events.drop_first())
        } else {
            after
        }
    }
}

/// The result a stopping action carries.
pub open spec fn finished_result(action: RunAction) -> Option<RunResult> {
    match action {
        RunAction::NextActivation => None,
        RunAction::Finish(result) => Some(result),
        RunAction::ClearThenFinish(result) => Some(result),
        RunAction::ResetThenFinish(result) => Some(result),
    }
}

/// The decisions of `run`: how many rules have fired, the limit, and
/// whether a halt is pending.
#[derive(Debug)]
pub struct RunLoop {
    fired: usize,
    max: usize,
    halted: bool,
}

impl RunLoop {
    /// The rules fired so far.
    pub closed spec fn fired_view(&self) -> nat {
        self.fired as nat
    }

    /// The most rules this run may fire.
    pub closed spec fn max_view(&self) -> nat {
        self.max as nat
    }

    /// Whether a halt is pending.
    pub closed spec fn halted_view(&self) -> bool {
        self.halted
    }

    /// Start a run: nothing fired, and any earlier halt request cleared.
    pub fn begin(limit: RunLimit) -> (run: Self)
        ensures
            run.fired_view() == 0,
            run.max_view() == spec_max_fires(limit),
            !run.halted_view(),
    {
        Self::resume(limit, false)
    }

    /// Continue a run that stopped at its limit, keeping its halt request.
    pub fn resume(limit: RunLimit, halted: bool) -> (run: Self)
        ensures
            run.fired_view() == 0,
            run.max_view() == spec_max_fires(limit),
            run.halted_view() == halted,
    {
        let max = match limit {
            RunLimit::Unlimited => usize::MAX,
            RunLimit::Count(n) => n,
        };
        RunLoop { fired: 0, max, halted }
    }

    /// Record a halt request made outside an activation.
    pub fn request_halt(&mut self)
        ensures
            final(self).fired_view() == old(self).fired_view(),
            final(self).max_view() == old(self).max_view(),
            final(self).halted_view(),
    {
        self.halted = true;
    }

    /// What to do before the next activation.
    pub fn next_action(&self) -> (action: RunAction)
        ensures
            action == run_decision(self.fired_view(), self.max_view(), self.halted_view()),
    {
        if self.fired < self.max {
            if self.halted {
                RunAction::Finish(RunResult { rules_fired: self.fired, halt_reason: HaltReason::HaltRequested })
            } else {
                RunAction::NextActivation
            }
        } else {
            RunAction::Finish(RunResult { rules_fired: self.fired, halt_reason: HaltReason::LimitReached })
        }
    }

    /// Take what happened after an activation was asked for, and say what
    /// to do next.
    pub fn observe(&mut self, event: RunEvent) -> (action: RunAction)
        requires
            run_decision(old(self).fired_view(), old(self).max_view(), old(self).halted_view()) is NextActivation,
        ensures
            action == run_reaction(old(self).fired_view(), old(self).max_view(), old(self).halted_view(), event),
            final(self).fired_view() == fired_after(old(self).fired_view(), event),
            final(self).max_view() == old(self).max_view(),
            final(self).halted_view() == halted_after(old(self).halted_view(), event),
    {
        match event {
            RunEvent::AgendaEmpty => {
                RunAction::Finish(RunResult { rules_fired: self.fired, halt_reason: HaltReason::AgendaEmpty })
            },
            RunEvent::Fired { logically_fired, halt_requested, reset_requested, clear_requested, action_error } => {
                if logically_fired {
                    self.fired = self.fired + 1;
                }
                if halt_requested {
                    self.halted = true;
                }
                if action_error {
                    RunAction::Finish(RunResult { rules_fired: self.fired, halt_reason: HaltReason::ActionError })
                } else if clear_requested {
                    RunAction::ClearThenFinish(RunResult { rules_fired: self.fired, halt_reason: HaltReason::HaltRequested })
                } else if reset_requested {
                    RunAction::ResetThenFinish(RunResult { rules_fired: self.fired, halt_reason: HaltReason::HaltRequested })
                } else {
                    self.next_action()
                }
            },
        }
    }
}

/// Whether `run` or `step` pushes the MAIN module onto the focus stack
/// before it looks for an activation: a fresh run and every step do when
/// the stack is empty; a run that continues one stopped at its limit never
/// does.
pub fn pushes_main_focus(fresh: bool, focus_stack_empty: bool) -> (push: bool)
    ensures
        push == (fresh && focus_stack_empty),
{
    fresh && focus_stack_empty
}

/// What `step` does after the one activation it fired: a clear wins over
/// a reset.
#[derive(Clone, Copy, Debug, PartialEq, Eq)]
pub enum StepFollowUp {
    /// Clear the engine.
    Clear,
    /// Reset the engine.
    Reset,
    /// Leave the engine as the actions left it.
    Nothing,
}

/// What `step` does after an activation that requested a reset and/or a
/// clear.
pub fn step_follow_up(reset_requested: bool, clear_requested: bool) -> (follow_up: StepFollowUp)
    ensures
        follow_up == if clear_requested {
            StepFollowUp::Clear
        } else if reset_requested {
            StepFollowUp::Reset
        } else {
            StepFollowUp::Nothing
        },
{
    if clear_requested {
        StepFollowUp::Clear
    } else if reset_requested {
        StepFollowUp::Reset
    } else {
        StepFollowUp::Nothing
    }
}

/// A run never fires more rules than its limit allows, nor more than the
/// activations it was handed: whatever the events, a stopped run reports at
/// most that many fired rules.
pub proof fn lemma_run_fires_at_most(limit: RunLimit, events: Seq<RunEvent>)
    ensures
        finished_result(run_outcome(0, spec_max_fires(limit), false, events)) matches Some(result)
            ==> result.rules_fired <= spec_max_fires(limit) && result.rules_fired <= events.len(),
{
    lemma_outcome_bounded(0, spec_max_fires(limit), false, events);
}

proof fn lemma_outcome_bounded(fired: nat, max: nat, halted: bool, events: Seq<RunEvent>)
    requires
        fired <= max,
        max <= usize::MAX,
    ensures
        finished_result(run_outcome(fired, max, halted, events)) matches Some(result)
            ==> result.rules_fired <= max && result.rules_fired <= fired + events.len(),
    decreases events.len(),
{
    if events.len() > 0 && run_decision(fired, max, halted) is NextActivation {
        let event = events[0];
        if run_reaction(fired, max, halted, event) is NextActivation {
            lemma_outcome_bounded(fired_after(fired, event), max, halted_after(halted, event), events.drop_first());
        }
    }
}

/// A run under `Count(n)` whose every activation fires with nothing else
/// requested stops at its limit after exactly `n` rules, once it has been
/// handed at least `n` of them.
pub proof fn lemma_run_reaches_limit(n: usize, events: Seq<RunEvent>)
    requires
        n <= events.len(),
        forall|i: int| 0 <= i < events.len() ==> #[trigger] events[i] == (RunEvent::Fired {
            logically_fired: true,
            halt_requested: false,
            reset_requested: false,
            clear_requested: false,
            action_error: false,
        }),
    ensures
        run_outcome(0, spec_max_fires(RunLimit::Count(n)), false, events)
            == RunAction::Finish(run_result(n as nat, HaltReason::LimitReached)),
{
    lemma_quiet_run(0, n as nat, events);
}

proof fn lemma_quiet_run(fired: nat, max: nat, events: Seq<RunEvent>)
    requires
        fired <= max,
        max <= usize::MAX,
        max - fired <= events.len(),
        forall|i: int| 0 <= i < events.len() ==> #[trigger] events[i] == (RunEvent::Fired {
            logically_fired: true,
            halt_requested: false,
            reset_requested: false,
            clear_requested: false,
            action_error: false,
        }),
    ensures
        run_outcome(fired, max, false, events) == RunAction::Finish(run_result(max, HaltReason::LimitReached)),
    decreases events.len(),
{
    if fired < max {
        assert(events[0] == events[0]);
        let rest = events.drop_first();
        assert forall|i: int| 0 <= i < rest.len() implies #[trigger] rest[i] == (RunEvent::Fired {
            logically_fired: true,
            halt_requested: false,
            reset_requested: false,
            clear_requested: false,
            action_error: false,
        }) by {
            assert(rest[i] == events[i + 1]);
        }
        lemma_quiet_run(fired + 1, max, rest);
    }
}

} // verus!
