//! An engine's execution limits and fact-duplication policy, and the
//! action-loop iteration budget.

use vstd::prelude::*;

verus! {

/// The default bound on loop iterations across one top-level action
/// execution.
pub const DEFAULT_MAX_ACTION_LOOP_ITERATIONS: usize = 1000000;

/// The default bound on loop iterations across one top-level action
/// execution.
pub fn default_max_action_loop_iterations() -> (max: usize)
    ensures
        max == DEFAULT_MAX_ACTION_LOOP_ITERATIONS,
{
    DEFAULT_MAX_ACTION_LOOP_ITERATIONS
}

/// The call depth a new configuration requests.
pub const DEFAULT_MAX_CALL_DEPTH: usize = 64;

/// The callable-depth ceiling that evaluation never exceeds.
pub const CALL_DEPTH_CEILING: usize = 32;

/// The plain-valued part of an engine's configuration: execution limits and
/// whether structurally equivalent facts may coexist.
#[derive(Clone, Copy, Debug, PartialEq, Eq)]
pub struct EngineConfig {
    /// Requested maximum call depth for user-defined functions and
    /// methods; evaluation applies `effective_max_call_depth`.
    pub max_call_depth: usize,
    /// Maximum combined loop iterations and fact-query work per rule
    /// activation.
    pub max_action_loop_iterations: usize,
    /// Whether structurally equivalent facts may coexist; CLIPS disables
    /// this by default.
    pub fact_duplication: bool,
}

impl EngineConfig {
    /// The default limits, with fact duplication disabled as in CLIPS.
    pub fn new() -> (config: Self)
        ensures
            config.max_call_depth == DEFAULT_MAX_CALL_DEPTH,
            config.max_action_loop_iterations == DEFAULT_MAX_ACTION_LOOP_ITERATIONS,
            !config.fact_duplication,
    {
        EngineConfig {
            max_call_depth: DEFAULT_MAX_CALL_DEPTH,
            max_action_loop_iterations: DEFAULT_MAX_ACTION_LOOP_ITERATIONS,
            fact_duplication: false,
        }
    }

    /// The callable-depth ceiling used by evaluation: the requested depth,
    /// but never more than the ceiling. Zero disallows calls.
    pub fn effective_max_call_depth(&self) -> (depth: usize)
        ensures
            depth == if self.max_call_depth <= CALL_DEPTH_CEILING {
                self.max_call_depth
            } else {
                CALL_DEPTH_CEILING
            },
    {
        if self.max_call_depth <= CALL_DEPTH_CEILING {
            self.max_call_depth
        } else {
            CALL_DEPTH_CEILING
        }
    }

    /// This configuration with the initial fact-duplication policy set.
    pub fn with_fact_duplication(self, enabled: bool) -> (config: Self)
        ensures
            config.fact_duplication == enabled,
            config.max_call_depth == self.max_call_depth,
            config.max_action_loop_iterations == self.max_action_loop_iterations,
    {
        EngineConfig { fact_duplication: enabled, ..self }
    }

    /// Whether structurally equivalent facts may coexist.
    pub fn fact_duplication(&self) -> (enabled: bool)
        ensures
            enabled == self.fact_duplication,
    {
        self.fact_duplication
    }

    /// Change the fact-duplication policy and return the previous one.
    pub fn set_fact_duplication(&mut self, enabled: bool) -> (previous: bool)
        ensures
            previous == old(self).fact_duplication,
            final(self).fact_duplication == enabled,
            final(self).max_call_depth == old(self).max_call_depth,
            final(self).max_action_loop_iterations == old(self).max_action_loop_iterations,
    {
        let previous = self.fact_duplication;
        self.fact_duplication = enabled;
        previous
    }

    /// An inactive loop budget of this configuration's bound.
    pub fn action_loop_budget(&self) -> (budget: ActionLoopBudget)
        ensures
            budget.max_view() == self.max_action_loop_iterations,
            !budget.active_view(),
            budget.remaining_view() == 0,
    {
        ActionLoopBudget::new(self.max_action_loop_iterations)
    }
}

/// The iterations that `while`, `loop-for-count` and the other action loops
/// may still take, shared by every loop of one top-level action execution.
/// A budget begins full and is spent one iteration at a time; nested
/// executions join the budget that is already active.
#[derive(Clone, Copy, Debug, PartialEq, Eq)]
pub struct ActionLoopBudget {
    max: usize,
    remaining: usize,
    active: bool,
}

impl ActionLoopBudget {
    #[verifier::type_invariant]
    spec fn inv(self) -> bool {
        self.remaining <= self.max
    }

    /// The configured bound.
    pub closed spec fn max_view(self) -> nat {
        self.max as nat
    }

    /// The iterations left in the active budget.
    pub closed spec fn remaining_view(self) -> nat {
        self.remaining as nat
    }

    /// Whether a top-level execution holds the budget.
    pub closed spec fn active_view(self) -> bool {
        self.active
    }

    /// An inactive budget of `max` iterations.
    pub fn new(max: usize) -> (budget: Self)
        ensures
            budget.max_view() == max,
            !budget.active_view(),
            budget.remaining_view() == 0,
    {
        ActionLoopBudget { max, remaining: 0, active: false }
    }

    /// The iterations left, never more than the bound.
    pub fn remaining(&self) -> (remaining: usize)
        ensures
            remaining == self.remaining_view(),
            remaining <= self.max_view(),
    {
        proof {
            use_type_invariant(self);
        }
        self.remaining
    }

    /// The configured bound.
    pub fn max_iterations(&self) -> (max: usize)
        ensures
            max == self.max_view(),
    {
        self.max
    }

    /// Whether a top-level execution holds the budget.
    pub fn is_active(&self) -> (active: bool)
        ensures
            active == self.active_view(),
    {
        self.active
    }

    /// Start a full budget.
    pub fn begin(&mut self)
        ensures
            final(self).max_view() == old(self).max_view(),
            final(self).remaining_view() == old(self).max_view(),
            final(self).active_view(),
    {
        self.remaining = self.max;
        self.active = true;
    }

    /// Start a full budget unless one is active; whether this call started
    /// it, and so must end it.
    pub fn begin_if_inactive(&mut self) -> (started: bool)
        ensures
            started == !old(self).active_view(),
            final(self).max_view() == old(self).max_view(),
            final(self).active_view(),
            started ==> final(self).remaining_view() == old(self).max_view(),
            !started ==> final(self).remaining_view() == old(self).remaining_view(),
    {
        proof {
            use_type_invariant(&*self);
        }
        if self.active {
            false
        } else {
            self.begin();
            true
        }
    }

    /// Release the budget at the end of a top-level execution.
    pub fn end(&mut self)
        ensures
            final(self).max_view() == old(self).max_view(),
            final(self).remaining_view() == old(self).remaining_view(),
            !final(self).active_view(),
    {
        proof {
            use_type_invariant(&*self);
        }
        self.active = false;
    }

    /// Spend one iteration: `false` once the budget is exhausted. Only a
    /// loop inside an active budget may ask.
    pub fn take_iteration(&mut self) -> (taken: bool)
        requires
            old(self).active_view(),
        ensures
            taken == (old(self).remaining_view() > 0),
            final(self).remaining_view() == if taken {
                old(self).remaining_view() - 1
            } else {
                0
            },
            final(self).max_view() == old(self).max_view(),
            final(self).active_view(),
            final(self).remaining_view() <= final(self).max_view(),
    {
        proof {
            use_type_invariant(&*self);
        }
        if self.remaining == 0 {
            false
        } else {
            self.remaining = self.remaining - 1;
            true
        }
    }
}

/// How many of `asked` consecutive iteration requests a budget with
/// `remaining` iterations grants.
pub open spec fn granted(remaining: nat, asked: nat) -> nat
    decreases asked,
{
    if asked == 0 || remaining == 0 {
        0
    } else {
        1 + granted((remaining - 1) as nat, (asked - 1) as nat)
    }
}

/// A budget bounds every top-level execution: however many iterations its
/// loops ask for, a budget begun with `max` grants at most `max` of them,
/// and grants every request until it is spent.
pub proof fn lemma_budget_bounds_iterations(max: nat, asked: nat)
    ensures
        granted(max, asked) <= max,
        granted(max, asked) == if asked <= max {
            asked
        } else {
            max
        },
    decreases asked,
{
    if asked > 0 && max > 0 {
        lemma_budget_bounds_iterations((max - 1) as nat, (asked - 1) as nat);
    }
}

} // verus!
