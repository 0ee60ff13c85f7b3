//! The decisions of right-hand-side action execution: which form an action
//! name selects, when a rule's action sequence stops, and how `while`,
//! `loop-for-count`, `progn$`, `switch` and the fact-query actions step
//! under the shared loop budget. Evaluating expressions and touching the
//! fact base is the embedding's work; it reports what happened and these
//! functions say what comes next.

use crate::config::ActionLoopBudget;
use vstd::string::{is_ascii, StringSliceAdditionalSpecFns};
use vstd::prelude::*;

verus! {

/// The fact-query action forms.
#[derive(Clone, Copy, Debug, PartialEq, Eq)]
pub enum QueryForm {
    /// `do-for-fact`
    DoForFact,
    /// `do-for-all-facts`
    DoForAllFacts,
    /// `delayed-do-for-all-facts`
    DelayedDoForAllFacts,
    /// `any-factp`
    AnyFactp,
    /// `find-fact`
    FindFact,
    /// `find-all-facts`
    FindAllFacts,
}

/// The form an action call takes, chosen by its name.
#[derive(Clone, Copy, Debug, PartialEq, Eq)]
pub enum ActionForm {
    Assert,
    Retract,
    Modify,
    Duplicate,
    Halt,
    Reset,
    Clear,
    Printout,
    Println,
    Focus,
    ListFocusStack,
    Agenda,
    Rules,
    Undefrule,
    Undeffacts,
    Ppdefrule,
    Load,
    LoadFacts,
    SaveFacts,
    Run,
    Return,
    Bind,
    If,
    While,
    LoopForCount,
    Switch,
    /// `progn$` and `foreach`.
    Foreach,
    Query(QueryForm),
    /// Any other call: evaluated as an expression.
    Expression,
}

/// The form that the action name with these UTF-8 bytes selects.
pub open spec fn spec_action_form(name: Seq<u8>) -> ActionForm {
    if name == "assert".spec_bytes() {
        ActionForm::Assert
    } else if name == "retract".spec_bytes() {
        ActionForm::Retract
    } else if name == "modify".spec_bytes() {
        ActionForm::Modify
    } else if name == "duplicate".spec_bytes() {
        ActionForm::Duplicate
    } else if name == "halt".spec_bytes() {
        ActionForm::Halt
    } else if name == "reset".spec_bytes() {
        ActionForm::Reset
    } else if name == "clear".spec_bytes() {
        ActionForm::Clear
    } else if name == "printout".spec_bytes() {
        ActionForm::Printout
    } else if name == "println".spec_bytes() {
        ActionForm::Println
    } else if name == "focus".spec_bytes() {
        ActionForm::Focus
    } else if name == "list-focus-stack".spec_bytes() {
        ActionForm::ListFocusStack
    } else if name == "agenda".spec_bytes() {
        ActionForm::Agenda
    } else if name == "rules".spec_bytes() {
        ActionForm::Rules
    } else if name == "undefrule".spec_bytes() {
        ActionForm::Undefrule
    } else if name == "undeffacts".spec_bytes() {
        ActionForm::Undeffacts
    } else if name == "ppdefrule".spec_bytes() {
        ActionForm::Ppdefrule
    } else if name == "load".spec_bytes() {
        ActionForm::Load
    } else if name == "load-facts".spec_bytes() {
        ActionForm::LoadFacts
    } else if name == "save-facts".spec_bytes() {
        ActionForm::SaveFacts
    } else if name == "run".spec_bytes() {
        ActionForm::Run
    } else if name == "return".spec_bytes() {
        ActionForm::Return
    } else if name == "bind".spec_bytes() {
        ActionForm::Bind
    } else if name == "if".spec_bytes() {
        ActionForm::If
    } else if name == "while".spec_bytes() {
        ActionForm::While
    } else if name == "loop-for-count".spec_bytes() {
        ActionForm::LoopForCount
    } else if name == "switch".spec_bytes() {
        ActionForm::Switch
    } else if name == "progn$".spec_bytes() || name == "foreach".spec_bytes() {
        ActionForm::Foreach
    } else if name == "do-for-fact".spec_bytes() {
        ActionForm::Query(QueryForm::DoForFact)
    } else if name == "do-for-all-facts".spec_bytes() {
        ActionForm::Query(QueryForm::DoForAllFacts)
    } else if name == "delayed-do-for-all-facts".spec_bytes() {
        ActionForm::Query(QueryForm::DelayedDoForAllFacts)
    } else if name == "any-factp".spec_bytes() {
        ActionForm::Query(QueryForm::AnyFactp)
    } else if name == "find-fact".spec_bytes() {
        ActionForm::Query(QueryForm::FindFact)
    } else if name == "find-all-facts".spec_bytes() {
        ActionForm::Query(QueryForm::FindAllFacts)
    } else {
        ActionForm::Expression
    }
}

/// Whether two byte strings are equal.
fn same_bytes(a: &[u8], b: &[u8]) -> (same: bool)
    ensures
        same == (a@ == b@),
{
    if a.len() != b.len() {
        return false;
    }
    let mut i: usize = 0;
    while i < a.len()
        invariant
            a.len() == b.len(),
            i <= a.len(),
            forall|j: int| 0 <= j < i ==> a@[j] == b@[j],
        decreases a.len() - i,
    {
        if a[i] != b[i] {
            return false;
        }
        i = i + 1;
    }
    assert(a@ =~= b@);
    true
}

/// Whether `name` is spelled `word`.
fn is_named(name: &str, word: &str) -> (named: bool)
    ensures
        named == (name.spec_bytes() == word.spec_bytes()),
{
    same_bytes(name.as_bytes(), word.as_bytes())
}

/// The form an action call with this name takes.
pub fn action_form(name: &str) -> (form: ActionForm)
    ensures
        form == spec_action_form(name.spec_bytes()),
{
    if is_named(name, "assert") {
        ActionForm::Assert
    } else if is_named(name, "retract") {
        ActionForm::Retract
    } else if is_named(name, "modify") {
        ActionForm::Modify
    } else if is_named(name, "duplicate") {
        ActionForm::Duplicate
    } else if is_named(name, "halt") {
        ActionForm::Halt
    } else if is_named(name, "reset") {
        ActionForm::Reset
    } else if is_named(name, "clear") {
        ActionForm::Clear
    } else if is_named(name, "printout") {
        ActionForm::Printout
    } else if is_named(name, "println") {
        ActionForm::Println
    } else if is_named(name, "focus") {
        ActionForm::Focus
    } else if is_named(name, "list-focus-stack") {
        ActionForm::ListFocusStack
    } else if is_named(name, "agenda") {
        ActionForm::Agenda
    } else if is_named(name, "rules") {
        ActionForm::Rules
    } else if is_named(name, "undefrule") {
        ActionForm::Undefrule
    } else if is_named(name, "undeffacts") {
        ActionForm::Undeffacts
    } else if is_named(name, "ppdefrule") {
        ActionForm::Ppdefrule
    } else if is_named(name, "load") {
        ActionForm::Load
    } else if is_named(name, "load-facts") {
        ActionForm::LoadFacts
    } else if is_named(name, "save-facts") {
        ActionForm::SaveFacts
    } else if is_named(name, "run") {
        ActionForm::Run
    } else if is_named(name, "return") {
        ActionForm::Return
    } else if is_named(name, "bind") {
        ActionForm::Bind
    } else if is_named(name, "if") {
        ActionForm::If
    } else if is_named(name, "while") {
        ActionForm::While
    } else if is_named(name, "loop-for-count") {
        ActionForm::LoopForCount
    } else if is_named(name, "switch") {
        ActionForm::Switch
    } else if is_named(name, "progn$") || is_named(name, "foreach") {
        ActionForm::Foreach
    } else if is_named(name, "do-for-fact") {
        ActionForm::Query(QueryForm::DoForFact)
    } else if is_named(name, "do-for-all-facts") {
        ActionForm::Query(QueryForm::DoForAllFacts)
    } else if is_named(name, "delayed-do-for-all-facts") {
        ActionForm::Query(QueryForm::DelayedDoForAllFacts)
    } else if is_named(name, "any-factp") {
        ActionForm::Query(QueryForm::AnyFactp)
    } else if is_named(name, "find-fact") {
        ActionForm::Query(QueryForm::FindFact)
    } else if is_named(name, "find-all-facts") {
        ActionForm::Query(QueryForm::FindAllFacts)
    } else {
        ActionForm::Expression
    }
}

/// The kind of an expression in a loop or branch body, as parsed.
#[derive(Clone, Copy, Debug, PartialEq, Eq)]
pub enum BodyItemKind {
    /// A function call, with the form its name selects.
    Call(ActionForm),
    If,
    While,
    LoopForCount,
    /// `progn$` or `foreach`.
    Progn,
    /// A fact-query action, with the form its name selects.
    QueryAction(ActionForm),
    Switch,
    /// A literal or a variable.
    Value,
}

/// How a body item is carried out.
#[derive(Clone, Copy, Debug, PartialEq, Eq)]
pub enum BodyItem {
    /// Execute it as an action of this form.
    Execute(ActionForm),
    /// Evaluate it and discard the value.
    Evaluate,
}

/// How a body item of `kind` is carried out: calls and the special forms
/// execute as actions, literals and variables are only evaluated.
pub fn body_item(kind: BodyItemKind) -> (item: BodyItem)
    ensures
        item == match kind {
            BodyItemKind::Call(form) => BodyItem::Execute(form),
            BodyItemKind::If => BodyItem::Execute(ActionForm::If),
            BodyItemKind::While => BodyItem::Execute(ActionForm::While),
            BodyItemKind::LoopForCount => BodyItem::Execute(ActionForm::LoopForCount),
            BodyItemKind::Progn => BodyItem::Execute(ActionForm::Foreach),
            BodyItemKind::QueryAction(form) => BodyItem::Execute(form),
            BodyItemKind::Switch => BodyItem::Execute(ActionForm::Switch),
            BodyItemKind::Value => BodyItem::Evaluate,
        },
{
    match kind {
        BodyItemKind::Call(form) => BodyItem::Execute(form),
        BodyItemKind::If => BodyItem::Execute(ActionForm::If),
        BodyItemKind::While => BodyItem::Execute(ActionForm::While),
        BodyItemKind::LoopForCount => BodyItem::Execute(ActionForm::LoopForCount),
        BodyItemKind::Progn => BodyItem::Execute(ActionForm::Foreach),
        BodyItemKind::QueryAction(form) => BodyItem::Execute(form),
        BodyItemKind::Switch => BodyItem::Execute(ActionForm::Switch),
        BodyItemKind::Value => BodyItem::Evaluate,
    }
}

/// What an action of the simple forms does, given how many arguments it
/// was written with; the other forms are the embedding's to perform.
#[derive(Clone, Copy, Debug, PartialEq, Eq)]
pub enum ActionPlan {
    /// Set the engine's halt request.
    Halt,
    /// Ask for a reset once the sequence stops.
    RequestReset,
    /// Ask for a clear once the sequence stops.
    RequestClear,
    /// Nothing: `(run)` inside a rule is ignored, the engine already runs.
    Nothing,
    /// Leave the rule's actions.
    ReturnFromRule,
    /// Evaluate the one argument, then leave the rule's actions.
    EvaluateThenReturn,
    /// `return` takes 0 or 1 arguments; this many were given.
    ReturnArityError(usize),
    /// Perform the form.
    Perform(ActionForm),
}

/// What an action of `form` with `argument_count` arguments does.
pub fn plan_action(form: ActionForm, argument_count: usize) -> (plan: ActionPlan)
    ensures
        plan == match form {
            ActionForm::Halt => ActionPlan::Halt,
            ActionForm::Reset => ActionPlan::RequestReset,
            ActionForm::Clear => ActionPlan::RequestClear,
            ActionForm::Run => ActionPlan::Nothing,
            ActionForm::Return => if argument_count == 0 {
                ActionPlan::ReturnFromRule
            } else if argument_count == 1 {
                ActionPlan::EvaluateThenReturn
            } else {
                ActionPlan::ReturnArityError(argument_count)
            },
            _ => ActionPlan::Perform(form),
        },
{
    match form {
        ActionForm::Halt => ActionPlan::Halt,
        ActionForm::Reset => ActionPlan::RequestReset,
        ActionForm::Clear => ActionPlan::RequestClear,
        ActionForm::Run => ActionPlan::Nothing,
        ActionForm::Return => {
            if argument_count == 0 {
                ActionPlan::ReturnFromRule
            } else if argument_count == 1 {
                ActionPlan::EvaluateThenReturn
            } else {
                ActionPlan::ReturnArityError(argument_count)
            }
        },
        _ => ActionPlan::Perform(form),
    }
}

/// How one action, or one item of a loop body, ended.
#[derive(Clone, Copy, Debug, PartialEq, Eq)]
pub enum ActionOutcome {
    /// It completed.
    Done,
    /// It asked to leave the rule's actions.
    RuleReturn,
    /// It failed with an error.
    Failed,
}

/// What one top-level action reported.
#[derive(Clone, Copy, Debug, PartialEq, Eq)]
pub struct ActionReport {
    /// How the action ended.
    pub outcome: ActionOutcome,
    /// It requested a reset.
    pub reset_requested: bool,
    /// It requested a clear.
    pub clear_requested: bool,
}

/// What a rule's action sequence reports when it stops; the activation
/// has fired once it reaches its actions.
#[derive(Clone, Copy, Debug, PartialEq, Eq)]
pub struct SequenceResult {
    /// Some action requested a reset.
    pub reset_requested: bool,
    /// Some action requested a clear.
    pub clear_requested: bool,
    /// The sequence stopped on an action error, or its bindings could not
    /// be seeded.
    pub failed: bool,
}

/// What the action sequence asks for next.
#[derive(Clone, Copy, Debug, PartialEq, Eq)]
pub enum SequenceAction {
    /// Execute the action at this index.
    Execute(usize),
    /// Stop with this result.
    Finish(SequenceResult),
}

/// Whether the sequence stops after an action that ended with `outcome`,
/// given the reset and clear requests made so far.
pub open spec fn sequence_stops(outcome: ActionOutcome, reset_requested: bool, clear_requested: bool) -> bool {
    !(outcome is Done) || reset_requested || clear_requested
}

/// A rule's action sequence, run in order: it stops after the first
/// action that returns from the rule, fails, or requests a reset or clear.
#[derive(Debug)]
pub struct ActionSequence {
    count: usize,
    current: usize,
    reset_requested: bool,
    clear_requested: bool,
}

impl ActionSequence {
    /// The number of actions.
    pub closed spec fn count_view(&self) -> nat {
        self.count as nat
    }

    /// The index of the action executing or last executed.
    pub closed spec fn current_view(&self) -> nat {
        self.current as nat
    }

    /// Whether an action so far requested a reset.
    pub closed spec fn reset_view(&self) -> bool {
        self.reset_requested
    }

    /// Whether an action so far requested a clear.
    pub closed spec fn clear_view(&self) -> bool {
        self.clear_requested
    }

    /// Start the sequence of `count` actions. When the rule's fact-address
    /// bindings could not be seeded it fails before any action.
    pub fn begin(count: usize, seeded: bool) -> (started: (Self, SequenceAction))
        ensures
            started.0.count_view() == count,
            started.0.current_view() == 0,
            !started.0.reset_view(),
            !started.0.clear_view(),
            started.1 == if !seeded {
                SequenceAction::Finish(SequenceResult { reset_requested: false, clear_requested: false, failed: true })
            } else if count == 0 {
                SequenceAction::Finish(SequenceResult { reset_requested: false, clear_requested: false, failed: false })
            } else {
                SequenceAction::Execute(0)
            },
    {
        let sequence = ActionSequence { count, current: 0, reset_requested: false, clear_requested: false };
        let action = if !seeded {
            SequenceAction::Finish(SequenceResult { reset_requested: false, clear_requested: false, failed: true })
        } else if count == 0 {
            SequenceAction::Finish(SequenceResult { reset_requested: false, clear_requested: false, failed: false })
        } else {
            SequenceAction::Execute(0)
        };
        (sequence, action)
    }

    /// Take the report of the action just executed, and say what comes
    /// next.
    pub fn observe(&mut self, report: ActionReport) -> (action: SequenceAction)
        requires
            old(self).current_view() < old(self).count_view(),
        ensures
            final(self).count_view() == old(self).count_view(),
            final(self).reset_view() == (old(self).reset_view() || report.reset_requested),
            final(self).clear_view() == (old(self).clear_view() || report.clear_requested),
            action == if sequence_stops(report.outcome, final(self).reset_view(), final(self).clear_view()) || old(self).current_view() + 1 == old(self).count_view() {
                SequenceAction::Finish(SequenceResult {
                    reset_requested: final(self).reset_view(),
                    clear_requested: final(self).clear_view(),
                    failed: report.outcome is Failed,
                })
            } else {
                SequenceAction::Execute((old(self).current_view() + 1) as usize)
            },
            action is Execute ==> final(self).current_view() == old(self).current_view() + 1,
    {
        self.reset_requested = self.reset_requested || report.reset_requested;
        self.clear_requested = self.clear_requested || report.clear_requested;
        let stops = match report.outcome {
            ActionOutcome::Done => self.reset_requested || self.clear_requested,
            _ => true,
        };
        if stops || self.current + 1 == self.count {
            let failed = match report.outcome {
                ActionOutcome::Failed => true,
                _ => false,
            };
            SequenceAction::Finish(SequenceResult {
                reset_requested: self.reset_requested,
                clear_requested: self.clear_requested,
                failed,
            })
        } else {
            self.current = self.current + 1;
            SequenceAction::Execute(self.current)
        }
    }
}

/// Where a sequence of `count` actions stands once action `index` is due,
/// with the reset and clear requests made before it, when action `i`
/// reports `reports[i]`.
pub open spec fn sequence_from(
    count: nat,
    index: nat,
    reset_requested: bool,
    clear_requested: bool,
    reports: Seq<ActionReport>,
) -> SequenceAction
    decreases count - index,
{
    if index >= count {
        SequenceAction::Finish(SequenceResult { reset_requested, clear_requested, failed: false })
    } else if index >= reports.len() {
        SequenceAction::Execute(index as usize)
    } else {
        let report = reports[index as int];
        let reset = reset_requested || report.reset_requested;
        let clear = clear_requested || report.clear_requested;
        if sequence_stops(report.outcome, reset, clear) || index + 1 == count {
            SequenceAction::Finish(SequenceResult { reset_requested: reset, clear_requested: clear, failed: report.outcome is Failed })
        } else {
            sequence_from(count, index + 1, reset, clear, reports)
        }
    }
}

/// A rule's actions run in order until the first one that returns from
/// the rule, fails, or requests a reset or clear: when action `k` is the
/// first such action, or the last action, the sequence stops right after
/// it, reports its requests, and reports an error exactly when it failed.
pub proof fn lemma_sequence_stops_at_first_stop(count: nat, reports: Seq<ActionReport>, k: nat)
    requires
        k < count,
        k < reports.len(),
        forall|j: int| 0 <= j < k ==> {
            &&& (#[trigger] reports[j]).outcome is Done
            &&& !reports[j].reset_requested
            &&& !reports[j].clear_requested
        },
        sequence_stops(reports[k as int].outcome, reports[k as int].reset_requested, reports[k as int].clear_requested)
            || k + 1 == count,
    ensures
        sequence_from(count, 0, false, false, reports) == SequenceAction::Finish(SequenceResult {
            reset_requested: reports[k as int].reset_requested,
            clear_requested: reports[k as int].clear_requested,
            failed: reports[k as int].outcome is Failed,
        }),
{
    lemma_sequence_quiet_prefix(count, 0, reports, k);
}

proof fn lemma_sequence_quiet_prefix(count: nat, index: nat, reports: Seq<ActionReport>, k: nat)
    requires
        index <= k,
        k < count,
        k < reports.len(),
        forall|j: int| 0 <= j < k ==> {
            &&& (#[trigger] reports[j]).outcome is Done
            &&& !reports[j].reset_requested
            &&& !reports[j].clear_requested
        },
        sequence_stops(reports[k as int].outcome, reports[k as int].reset_requested, reports[k as int].clear_requested)
            || k + 1 == count,
    ensures
        sequence_from(count, index, false, false, reports) == SequenceAction::Finish(SequenceResult {
            reset_requested: reports[k as int].reset_requested,
            clear_requested: reports[k as int].clear_requested,
            failed: reports[k as int].outcome is Failed,
        }),
    decreases k - index,
{
    if index < k {
        let report = reports[index as int];
        assert(report.outcome is Done && !report.reset_requested && !report.clear_requested);
        lemma_sequence_quiet_prefix(count, index + 1, reports, k);
    }
}

/// What follows an item of a loop or branch body.
#[derive(Clone, Copy, Debug, PartialEq, Eq)]
pub enum BodyStep {
    /// Go on with the next item, or the next iteration.
    Next,
    /// Leave the body, and the loop around it, normally.
    Leave,
    /// Hand this outcome to the enclosing action.
    Propagate(ActionOutcome),
}

/// What follows a body item that ended with `outcome`, given the engine's
/// halt request and the sequence's reset and clear requests. The same
/// test ends a loop after each completed iteration.
pub fn body_step(outcome: ActionOutcome, halted: bool, reset_requested: bool, clear_requested: bool) -> (step: BodyStep)
    ensures
        step == match outcome {
            ActionOutcome::Done => if halted || reset_requested || clear_requested {
                BodyStep::Leave
            } else {
                BodyStep::Next
            },
            _ => BodyStep::Propagate(outcome),
        },
{
    match outcome {
        ActionOutcome::Done => {
            if halted || reset_requested || clear_requested {
                BodyStep::Leave
            } else {
                BodyStep::Next
            }
        },
        _ => BodyStep::Propagate(outcome),
    }
}

/// Whether a loop runs its body once more.
#[derive(Clone, Copy, Debug, PartialEq, Eq)]
pub enum LoopEntry {
    /// Run the body.
    Enter,
    /// The loop is done.
    Leave,
    /// The action-loop budget is spent: the action fails.
    LimitExceeded,
}

/// A `while` loop after its condition was evaluated: a true condition
/// spends one iteration of the budget before the body runs.
pub fn while_step(condition_holds: bool, budget: &mut ActionLoopBudget) -> (entry: LoopEntry)
    requires
        old(budget).active_view(),
    ensures
        entry == if !condition_holds {
            LoopEntry::Leave
        } else if old(budget).remaining_view() > 0 {
            LoopEntry::Enter
        } else {
            LoopEntry::LimitExceeded
        },
        final(budget).max_view() == old(budget).max_view(),
        final(budget).active_view(),
        final(budget).remaining_view() == if entry is Enter {
            old(budget).remaining_view() - 1
        } else {
            old(budget).remaining_view() as int
        },
{
    if !condition_holds {
        return LoopEntry::Leave;
    }
    if budget.take_iteration() {
        LoopEntry::Enter
    } else {
        LoopEntry::LimitExceeded
    }
}

/// What a `loop-for-count` loop does next.
#[derive(Clone, Copy, Debug, PartialEq, Eq)]
pub enum CountEntry {
    /// Run the body with the loop variable bound to this counter.
    Enter(i64),
    /// Every counter was visited.
    Leave,
    /// The action-loop budget is spent: the action fails.
    LimitExceeded,
}

/// The counters of a `loop-for-count` from `start` to `end`, both
/// included, visited in increasing order; each visit spends one iteration
/// of the budget.
#[derive(Debug)]
pub struct CountLoop {
    next: i64,
    end: i64,
    exhausted: bool,
}

impl CountLoop {
    /// The counters still to visit.
    pub closed spec fn pending(&self) -> Seq<int> {
        if self.exhausted || self.next > self.end {
            Seq::empty()
        } else {
            Seq::new((self.end - self.next + 1) as nat, |i: int| self.next + i)
        }
    }

    /// The loop over `start..=end`.
    pub fn new(start: i64, end: i64) -> (counts: Self)
        ensures
            counts.pending() == if start <= end {
                Seq::new((end - start + 1) as nat, |i: int| start + i)
            } else {
                Seq::<int>::empty()
            },
    {
        CountLoop { next: start, end, exhausted: false }
    }

    /// Visit the next counter, spending one iteration of the budget.
    pub fn enter(&mut self, budget: &mut ActionLoopBudget) -> (entry: CountEntry)
        requires
            old(budget).active_view(),
        ensures
            entry == if old(self).pending().len() == 0 {
                CountEntry::Leave
            } else if old(budget).remaining_view() > 0 {
                CountEntry::Enter(old(self).pending()[0] as i64)
            } else {
                CountEntry::LimitExceeded
            },
            final(self).pending() == if entry is Enter {
                old(self).pending().drop_first()
            } else {
                old(self).pending()
            },
            final(budget).max_view() == old(budget).max_view(),
            final(budget).active_view(),
            final(budget).remaining_view() == if entry is Enter {
                old(budget).remaining_view() - 1
            } else {
                old(budget).remaining_view() as int
            },
    {
        if self.exhausted || self.next > self.end {
            return CountEntry::Leave;
        }
        if !budget.take_iteration() {
            return CountEntry::LimitExceeded;
        }
        let counter = self.next;
        proof {
            let old_pending = old(self).pending();
            assert(old_pending[0] == counter);
        }
        if self.next == self.end {
            self.exhausted = true;
            assert(self.pending() =~= old(self).pending().drop_first());
        } else {
            self.next = self.next + 1;
            assert(self.pending() =~= old(self).pending().drop_first());
        }
        CountEntry::Enter(counter)
    }
}

/// The one-based position that `progn$` binds to `<var>-index` for the
/// element at `index`.
pub fn foreach_position(index: usize) -> (position: i64)
    requires
        index < i64::MAX,
    ensures
        position == index + 1,
{
    (index as i64) + 1
}

/// What a `switch` does next while it looks for a matching case.
#[derive(Clone, Copy, Debug, PartialEq, Eq)]
pub enum SwitchStep {
    /// Evaluate the value of the case at this index and compare it.
    Test(usize),
    /// No case matched: run the default body.
    RunDefault,
    /// No case matched and there is no default: nothing runs.
    Skip,
}

/// The step of a `switch` with `case_count` cases once the cases before
/// `next_case` did not match. The first matching case's body runs.
pub fn switch_next(next_case: usize, case_count: usize, has_default: bool) -> (step: SwitchStep)
    ensures
        step == if next_case < case_count {
            SwitchStep::Test(next_case)
        } else if has_default {
            SwitchStep::RunDefault
        } else {
            SwitchStep::Skip
        },
{
    if next_case < case_count {
        SwitchStep::Test(next_case)
    } else if has_default {
        SwitchStep::RunDefault
    } else {
        SwitchStep::Skip
    }
}

/// How a fact-query action walks its candidates.
#[derive(Clone, Copy, Debug, PartialEq, Eq)]
pub enum QueryMode {
    /// `do-for-fact`: run the body for the first match, then stop.
    FirstMatch,
    /// `do-for-all-facts`: run the body for each match as it is found.
    EachMatch,
    /// `delayed-do-for-all-facts`: select every match first, then run the
    /// body for each, spending one budget iteration per body.
    Delayed,
}

/// How a fact-query action is carried out.
#[derive(Clone, Copy, Debug, PartialEq, Eq)]
pub enum QueryHandling {
    /// A result form: evaluated as an expression, its value discarded.
    Evaluate,
    /// An iterating form.
    Iterate(QueryMode),
}

/// How the fact-query action `form` is carried out.
pub fn query_handling(form: QueryForm) -> (handling: QueryHandling)
    ensures
        handling == match form {
            QueryForm::DoForFact => QueryHandling::Iterate(QueryMode::FirstMatch),
            QueryForm::DoForAllFacts => QueryHandling::Iterate(QueryMode::EachMatch),
            QueryForm::DelayedDoForAllFacts => QueryHandling::Iterate(QueryMode::Delayed),
            _ => QueryHandling::Evaluate,
        },
{
    match form {
        QueryForm::DoForFact => QueryHandling::Iterate(QueryMode::FirstMatch),
        QueryForm::DoForAllFacts => QueryHandling::Iterate(QueryMode::EachMatch),
        QueryForm::DelayedDoForAllFacts => QueryHandling::Iterate(QueryMode::Delayed),
        _ => QueryHandling::Evaluate,
    }
}

/// What a query does with a candidate whose predicate was evaluated.
#[derive(Clone, Copy, Debug, PartialEq, Eq)]
pub enum CandidateAction {
    /// Run the body with the candidate bound.
    RunBody,
    /// Keep the candidate for the delayed bodies.
    Select,
    /// Pass over it.
    Skip,
}

/// What a query in `mode` does with a candidate that `matched` or not.
pub fn candidate_action(mode: QueryMode, matched: bool) -> (action: CandidateAction)
    ensures
        action == if !matched {
            CandidateAction::Skip
        } else if mode is Delayed {
            CandidateAction::Select
        } else {
            CandidateAction::RunBody
        },
{
    if !matched {
        CandidateAction::Skip
    } else {
        match mode {
            QueryMode::Delayed => CandidateAction::Select,
            _ => CandidateAction::RunBody,
        }
    }
}

/// Whether a query in `mode` leaves its candidate walk after a candidate
/// that `matched` or not: a halt, reset or clear ends it, and so does the
/// first match of `do-for-fact`. Leaving the walk ends the action; the
/// delayed bodies do not run.
pub fn query_walk_ends(mode: QueryMode, matched: bool, halted: bool, reset_requested: bool, clear_requested: bool) -> (ends: bool)
    ensures
        ends == (halted || reset_requested || clear_requested || (matched && mode is FirstMatch)),
{
    let first = match mode {
        QueryMode::FirstMatch => true,
        _ => false,
    };
    halted || reset_requested || clear_requested || (matched && first)
}

/// What a fact-query cursor asks for, or found.
#[derive(Clone, Debug, PartialEq, Eq)]
pub enum CursorStep {
    /// A complete tuple: one fact per member, in member order.
    Candidate(Vec<u64>),
    /// Look up the next fact of the member at `level`, the first of its
    /// template after the timestamp `after` (from the start when `None`).
    Lookup { level: usize, after: Option<u64> },
    /// Every tuple was visited.
    Finished,
    /// The action-loop budget is spent: the action fails.
    LimitExceeded,
}

/// The nested-loop walk of a fact-query action over its members' facts, in
/// the order they were asserted: the last member varies fastest, and each
/// level remembers the timestamp it reached rather than a position, so a
/// fact removed or added while a body runs is seen as the fact base then
/// stands. Every visited member spends one iteration of the budget. Facts
/// are named by the raw 64-bit form of their identifiers.
#[derive(Debug)]
pub struct QueryCursor {
    after: Vec<Option<u64>>,
    current: Vec<Option<u64>>,
    level: usize,
    finished: bool,
}

impl QueryCursor {
    /// The cursor's shape: one timestamp and one fact slot per member, the
    /// level inside, and every member before it holding a fact.
    pub closed spec fn wf(&self) -> bool {
        &&& self.after@.len() == self.current@.len()
        &&& self.level < self.after@.len()
        &&& forall|i: int| 0 <= i < self.level ==> (#[trigger] self.current@[i]) is Some
    }

    /// The number of members.
    pub closed spec fn members_view(&self) -> nat {
        self.after@.len()
    }

    /// The member whose fact is looked up next.
    pub closed spec fn level_view(&self) -> nat {
        self.level as nat
    }

    /// The timestamp each member reached.
    pub closed spec fn after_view(&self) -> Seq<Option<u64>> {
        self.after@
    }

    /// The fact each member holds.
    pub closed spec fn current_view(&self) -> Seq<Option<u64>> {
        self.current@
    }

    /// Whether the walk is over.
    pub closed spec fn finished_view(&self) -> bool {
        self.finished
    }

    /// A walk over `members` members, over before it starts when one of
    /// them has no fact; `None` for a query without members, which is an
    /// error.
    pub fn new(members: usize, some_member_empty: bool) -> (cursor: Option<Self>)
        ensures
            members == 0 <==> cursor is None,
            cursor matches Some(c) ==> {
                &&& c.members_view() == members
                &&& c.level_view() == 0
                &&& c.after_view() == Seq::new(members as nat, |i: int| None::<u64>)
                &&& c.current_view() == Seq::new(members as nat, |i: int| None::<u64>)
                &&& c.finished_view() == some_member_empty
                &&& c.wf()
            },
    {
        if members == 0 {
            return None;
        }
        let mut after: Vec<Option<u64>> = Vec::new();
        let mut current: Vec<Option<u64>> = Vec::new();
        let mut i: usize = 0;
        while i < members
            invariant
                i <= members,
                after@ == Seq::new(i as nat, |k: int| None::<u64>),
                current@ == Seq::new(i as nat, |k: int| None::<u64>),
            decreases members - i,
        {
            after.push(None);
            current.push(None);
            i = i + 1;
        }
        Some(QueryCursor { after, current, level: 0, finished: some_member_empty })
    }

    /// What to look up next, or `Finished`.
    pub fn next_step(&self) -> (step: CursorStep)
        requires
            self.wf(),
        ensures
            step == if self.finished_view() {
                CursorStep::Finished
            } else {
                CursorStep::Lookup {
                    level: self.level_view() as usize,
                    after: self.after_view()[self.level_view() as int],
                }
            },
    {
        if self.finished {
            CursorStep::Finished
        } else {
            CursorStep::Lookup { level: self.level, after: self.after[self.level] }
        }
    }

    /// Take the lookup's answer: the next fact of the current member and
    /// its timestamp, or none left after the reached timestamp.
    pub fn observe(&mut self, found: Option<(u64, u64)>, budget: &mut ActionLoopBudget) -> (step: CursorStep)
        requires
            old(self).wf(),
            !old(self).finished_view(),
            old(budget).active_view(),
        ensures
            final(self).wf(),
            final(self).members_view() == old(self).members_view(),
            final(budget).max_view() == old(budget).max_view(),
            final(budget).active_view(),
            ({
                let n = old(self).members_view();
                let l = old(self).level_view();
                match found {
                    Some((fact, timestamp)) => if old(budget).remaining_view() == 0 {
                        &&& step == CursorStep::LimitExceeded
                        &&& final(budget).remaining_view() == 0
                        &&& final(self).level_view() == l
                        &&& final(self).after_view() == old(self).after_view()
                        &&& final(self).current_view() == old(self).current_view()
                        &&& !final(self).finished_view()
                    } else {
                        let current = old(self).current_view().update(l as int, Some(fact));
                        let after = old(self).after_view().update(l as int, Some(timestamp));
                        &&& final(budget).remaining_view() == old(budget).remaining_view() - 1
                        &&& final(self).current_view() == current
                        &&& !final(self).finished_view()
                        &&& if l + 1 == n {
                            &&& step matches CursorStep::Candidate(facts)
                            &&& facts@ == Seq::new(n, |i: int| current[i]->0)
                            &&& final(self).level_view() == l
                            &&& final(self).after_view() == after
                        } else {
                            &&& step == CursorStep::Lookup { level: (l + 1) as usize, after: None }
                            &&& final(self).level_view() == l + 1
                            &&& final(self).after_view() == after.update((l + 1) as int, None)
                        }
                    },
                    None => {
                        &&& final(budget).remaining_view() == old(budget).remaining_view()
                        &&& if l == 0 {
                            &&& step == CursorStep::Finished
                            &&& final(self).finished_view()
                            &&& final(self).level_view() == 0
                            &&& final(self).after_view() == old(self).after_view()
                            &&& final(self).current_view() == old(self).current_view()
                        } else {
                            &&& step == CursorStep::Lookup {
                                level: (l - 1) as usize,
                                after: old(self).after_view()[l - 1],
                            }
                            &&& !final(self).finished_view()
                            &&& final(self).level_view() == l - 1
                            &&& final(self).after_view() == old(self).after_view().update(l as int, None)
                            &&& final(self).current_view() == old(self).current_view().update(l as int, None)
                        }
                    },
                }
            }),
    {
        let n = self.after.len();
        let l = self.level;
        match found {
            Some((fact, timestamp)) => {
                if !budget.take_iteration() {
                    return CursorStep::LimitExceeded;
                }
                self.after.set(l, Some(timestamp));
                self.current.set(l, Some(fact));
                if l + 1 == n {
                    let mut facts: Vec<u64> = Vec::new();
                    let mut i: usize = 0;
                    while i < n
                        invariant
                            i <= n,
                            n == self.current@.len(),
                            forall|k: int| 0 <= k < n ==> (#[trigger] self.current@[k]) is Some,
                            facts@ == Seq::new(i as nat, |k: int| self.current@[k]->0),
                        decreases n - i,
                    {
                        let member = match self.current[i] {
                            Some(member) => member,
                            None => 0,
                        };
                        facts.push(member);
                        i = i + 1;
                        assert(facts@ =~= Seq::new(i as nat, |k: int| self.current@[k]->0));
                    }
                    CursorStep::Candidate(facts)
                } else {
                    self.level = l + 1;
                    self.after.set(l + 1, None);
                    CursorStep::Lookup { level: l + 1, after: None }
                }
            },
            None => {
                if l == 0 {
                    self.finished = true;
                    CursorStep::Finished
                } else {
                    self.after.set(l, None);
                    self.current.set(l, None);
                    self.level = l - 1;
                    CursorStep::Lookup { level: l - 1, after: self.after[l - 1] }
                }
            },
        }
    }
}

/// The UTF-8 bytes of an ASCII string are its characters, one byte each.
proof fn lemma_ascii_spelling(s: &str)
    requires
        is_ascii(s),
    ensures
        s.spec_bytes() == Seq::new(s@.len(), |i: int| s@[i] as u8),
{
    vstd::string::is_ascii_spec_bytes(s);
}

/// The action names select their forms: each name of the dispatch table
/// selects the form of that name, so that for instance `(retract ?f)`
/// retracts and `(halt)` halts, and no builtin action is merely evaluated.
pub proof fn lemma_action_names()
    ensures
        spec_action_form("assert".spec_bytes()) == ActionForm::Assert,
        spec_action_form("retract".spec_bytes()) == ActionForm::Retract,
        spec_action_form("modify".spec_bytes()) == ActionForm::Modify,
        spec_action_form("duplicate".spec_bytes()) == ActionForm::Duplicate,
        spec_action_form("halt".spec_bytes()) == ActionForm::Halt,
        spec_action_form("reset".spec_bytes()) == ActionForm::Reset,
        spec_action_form("clear".spec_bytes()) == ActionForm::Clear,
        spec_action_form("printout".spec_bytes()) == ActionForm::Printout,
        spec_action_form("println".spec_bytes()) == ActionForm::Println,
        spec_action_form("focus".spec_bytes()) == ActionForm::Focus,
        spec_action_form("list-focus-stack".spec_bytes()) == ActionForm::ListFocusStack,
        spec_action_form("agenda".spec_bytes()) == ActionForm::Agenda,
        spec_action_form("rules".spec_bytes()) == ActionForm::Rules,
        spec_action_form("undefrule".spec_bytes()) == ActionForm::Undefrule,
        spec_action_form("undeffacts".spec_bytes()) == ActionForm::Undeffacts,
        spec_action_form("ppdefrule".spec_bytes()) == ActionForm::Ppdefrule,
        spec_action_form("load".spec_bytes()) == ActionForm::Load,
        spec_action_form("load-facts".spec_bytes()) == ActionForm::LoadFacts,
        spec_action_form("save-facts".spec_bytes()) == ActionForm::SaveFacts,
        spec_action_form("run".spec_bytes()) == ActionForm::Run,
        spec_action_form("return".spec_bytes()) == ActionForm::Return,
        spec_action_form("bind".spec_bytes()) == ActionForm::Bind,
        spec_action_form("if".spec_bytes()) == ActionForm::If,
        spec_action_form("while".spec_bytes()) == ActionForm::While,
        spec_action_form("loop-for-count".spec_bytes()) == ActionForm::LoopForCount,
        spec_action_form("switch".spec_bytes()) == ActionForm::Switch,
        spec_action_form("progn$".spec_bytes()) == ActionForm::Foreach,
        spec_action_form("foreach".spec_bytes()) == ActionForm::Foreach,
        spec_action_form("do-for-fact".spec_bytes()) == ActionForm::Query(QueryForm::DoForFact),
        spec_action_form("do-for-all-facts".spec_bytes()) == ActionForm::Query(QueryForm::DoForAllFacts),
        spec_action_form("delayed-do-for-all-facts".spec_bytes()) == ActionForm::Query(QueryForm::DelayedDoForAllFacts),
        spec_action_form("any-factp".spec_bytes()) == ActionForm::Query(QueryForm::AnyFactp),
        spec_action_form("find-fact".spec_bytes()) == ActionForm::Query(QueryForm::FindFact),
        spec_action_form("find-all-facts".spec_bytes()) == ActionForm::Query(QueryForm::FindAllFacts),
{
    lemma_action_names_0();
    lemma_action_names_1();
    lemma_action_names_2();
    lemma_action_names_3();
    lemma_action_names_4();
    lemma_action_names_5();
    lemma_action_names_6();
    lemma_action_names_7();
    lemma_action_names_8();
}

proof fn lemma_action_names_0()
    ensures
        spec_action_form("assert".spec_bytes()) == ActionForm::Assert,
        spec_action_form("retract".spec_bytes()) == ActionForm::Retract,
        spec_action_form("modify".spec_bytes()) == ActionForm::Modify,
        spec_action_form("duplicate".spec_bytes()) == ActionForm::Duplicate,
{
    reveal_strlit("assert");
    reveal_strlit("retract");
    reveal_strlit("modify");
    reveal_strlit("duplicate");
    lemma_ascii_spelling("assert");
    lemma_ascii_spelling("retract");
    lemma_ascii_spelling("modify");
    lemma_ascii_spelling("duplicate");
    assert("modify".spec_bytes()[0] != "assert".spec_bytes()[0]);
    assert("assert".spec_bytes().len() == 6);
    assert("retract".spec_bytes().len() == 7);
    assert("retract".spec_bytes() != "assert".spec_bytes());
    assert("modify".spec_bytes().len() == 6);
    assert("modify".spec_bytes() != "retract".spec_bytes());
    assert("duplicate".spec_bytes().len() == 9);
    assert("duplicate".spec_bytes() != "assert".spec_bytes());
    assert("duplicate".spec_bytes() != "retract".spec_bytes());
    assert("duplicate".spec_bytes() != "modify".spec_bytes());
}

proof fn lemma_action_names_1()
    ensures
        spec_action_form("halt".spec_bytes()) == ActionForm::Halt,
        spec_action_form("reset".spec_bytes()) == ActionForm::Reset,
        spec_action_form("clear".spec_bytes()) == ActionForm::Clear,
        spec_action_form("printout".spec_bytes()) == ActionForm::Printout,
{
    reveal_strlit("assert");
    reveal_strlit("retract");
    reveal_strlit("modify");
    reveal_strlit("duplicate");
    reveal_strlit("halt");
    reveal_strlit("reset");
    reveal_strlit("clear");
    reveal_strlit("printout");
    lemma_ascii_spelling("assert");
    lemma_ascii_spelling("retract");
    lemma_ascii_spelling("modify");
    lemma_ascii_spelling("duplicate");
    lemma_ascii_spelling("halt");
    lemma_ascii_spelling("reset");
    lemma_ascii_spelling("clear");
    lemma_ascii_spelling("printout");
    assert("clear".spec_bytes()[0] != "reset".spec_bytes()[0]);
    assert("halt".spec_bytes().len() == 4);
    assert("halt".spec_bytes() != "assert".spec_bytes());
    assert("halt".spec_bytes() != "retract".spec_bytes());
    assert("halt".spec_bytes() != "modify".spec_bytes());
    assert("halt".spec_bytes() != "duplicate".spec_bytes());
    assert("reset".spec_bytes().len() == 5);
    assert("reset".spec_bytes() != "assert".spec_bytes());
    assert("reset".spec_bytes() != "retract".spec_bytes());
    assert("reset".spec_bytes() != "modify".spec_bytes());
    assert("reset".spec_bytes() != "duplicate".spec_bytes());
    assert("reset".spec_bytes() != "halt".spec_bytes());
    assert("clear".spec_bytes().len() == 5);
    assert("clear".spec_bytes() != "assert".spec_bytes());
    assert("clear".spec_bytes() != "retract".spec_bytes());
    assert("clear".spec_bytes() != "modify".spec_bytes());
    assert("clear".spec_bytes() != "duplicate".spec_bytes());
    assert("clear".spec_bytes() != "halt".spec_bytes());
    assert("printout".spec_bytes().len() == 8);
    assert("printout".spec_bytes() != "assert".spec_bytes());
    assert("printout".spec_bytes() != "retract".spec_bytes());
    assert("printout".spec_bytes() != "modify".spec_bytes());
    assert("printout".spec_bytes() != "duplicate".spec_bytes());
    assert("printout".spec_bytes() != "halt".spec_bytes());
    assert("printout".spec_bytes() != "reset".spec_bytes());
    assert("printout".spec_bytes() != "clear".spec_bytes());
}

proof fn lemma_action_names_2()
    ensures
        spec_action_form("println".spec_bytes()) == ActionForm::Println,
        spec_action_form("focus".spec_bytes()) == ActionForm::Focus,
        spec_action_form("list-focus-stack".spec_bytes()) == ActionForm::ListFocusStack,
        spec_action_form("agenda".spec_bytes()) == ActionForm::Agenda,
{
    reveal_strlit("assert");
    reveal_strlit("retract");
    reveal_strlit("modify");
    reveal_strlit("duplicate");
    reveal_strlit("halt");
    reveal_strlit("reset");
    reveal_strlit("clear");
    reveal_strlit("printout");
    reveal_strlit("println");
    reveal_strlit("focus");
    reveal_strlit("list-focus-stack");
    reveal_strlit("agenda");
    lemma_ascii_spelling("assert");
    lemma_ascii_spelling("retract");
    lemma_ascii_spelling("modify");
    lemma_ascii_spelling("duplicate");
    lemma_ascii_spelling("halt");
    lemma_ascii_spelling("reset");
    lemma_ascii_spelling("clear");
    lemma_ascii_spelling("printout");
    lemma_ascii_spelling("println");
    lemma_ascii_spelling("focus");
    lemma_ascii_spelling("list-focus-stack");
    lemma_ascii_spelling("agenda");
    assert("println".spec_bytes()[0] != "retract".spec_bytes()[0]);
    assert("focus".spec_bytes()[0] != "reset".spec_bytes()[0]);
    assert("focus".spec_bytes()[0] != "clear".spec_bytes()[0]);
    assert("agenda".spec_bytes()[1] != "assert".spec_bytes()[1]);
    assert("agenda".spec_bytes()[0] != "modify".spec_bytes()[0]);
    assert("println".spec_bytes().len() == 7);
    assert("println".spec_bytes() != "assert".spec_bytes());
    assert("println".spec_bytes() != "modify".spec_bytes());
    assert("println".spec_bytes() != "duplicate".spec_bytes());
    assert("println".spec_bytes() != "halt".spec_bytes());
    assert("println".spec_bytes() != "reset".spec_bytes());
    assert("println".spec_bytes() != "clear".spec_bytes());
    assert("println".spec_bytes() != "printout".spec_bytes());
    assert("focus".spec_bytes().len() == 5);
    assert("focus".spec_bytes() != "assert".spec_bytes());
    assert("focus".spec_bytes() != "retract".spec_bytes());
    assert("focus".spec_bytes() != "modify".spec_bytes());
    assert("focus".spec_bytes() != "duplicate".spec_bytes());
    assert("focus".spec_bytes() != "halt".spec_bytes());
    assert("focus".spec_bytes() != "printout".spec_bytes());
    assert("focus".spec_bytes() != "println".spec_bytes());
    assert("list-focus-stack".spec_bytes().len() == 16);
    assert("list-focus-stack".spec_bytes() != "assert".spec_bytes());
    assert("list-focus-stack".spec_bytes() != "retract".spec_bytes());
    assert("list-focus-stack".spec_bytes() != "modify".spec_bytes());
    assert("list-focus-stack".spec_bytes() != "duplicate".spec_bytes());
    assert("list-focus-stack".spec_bytes() != "halt".spec_bytes());
    assert("list-focus-stack".spec_bytes() != "reset".spec_bytes());
    assert("list-focus-stack".spec_bytes() != "clear".spec_bytes());
    assert("list-focus-stack".spec_bytes() != "printout".spec_bytes());
    assert("list-focus-stack".spec_bytes() != "println".spec_bytes());
    assert("list-focus-stack".spec_bytes() != "focus".spec_bytes());
    assert("agenda".spec_bytes().len() == 6);
    assert("agenda".spec_bytes() != "retract".spec_bytes());
    assert("agenda".spec_bytes() != "duplicate".spec_bytes());
    assert("agenda".spec_bytes() != "halt".spec_bytes());
    assert("agenda".spec_bytes() != "reset".spec_bytes());
    assert("agenda".spec_bytes() != "clear".spec_bytes());
    assert("agenda".spec_bytes() != "printout".spec_bytes());
    assert("agenda".spec_bytes() != "println".spec_bytes());
    assert("agenda".spec_bytes() != "focus".spec_bytes());
    assert("agenda".spec_bytes() != "list-focus-stack".spec_bytes());
}

proof fn lemma_action_names_3()
    ensures
        spec_action_form("rules".spec_bytes()) == ActionForm::Rules,
        spec_action_form("undefrule".spec_bytes()) == ActionForm::Undefrule,
        spec_action_form("undeffacts".spec_bytes()) == ActionForm::Undeffacts,
        spec_action_form("ppdefrule".spec_bytes()) == ActionForm::Ppdefrule,
{
    reveal_strlit("assert");
    reveal_strlit("retract");
    reveal_strlit("modify");
    reveal_strlit("duplicate");
    reveal_strlit("halt");
    reveal_strlit("reset");
    reveal_strlit("clear");
    reveal_strlit("printout");
    reveal_strlit("println");
    reveal_strlit("focus");
    reveal_strlit("list-focus-stack");
    reveal_strlit("agenda");
    reveal_strlit("rules");
    reveal_strlit("undefrule");
    reveal_strlit("undeffacts");
    reveal_strlit("ppdefrule");
    lemma_ascii_spelling("assert");
    lemma_ascii_spelling("retract");
    lemma_ascii_spelling("modify");
    lemma_ascii_spelling("duplicate");
    lemma_ascii_spelling("halt");
    lemma_ascii_spelling("reset");
    lemma_ascii_spelling("clear");
    lemma_ascii_spelling("printout");
    lemma_ascii_spelling("println");
    lemma_ascii_spelling("focus");
    lemma_ascii_spelling("list-focus-stack");
    lemma_ascii_spelling("agenda");
    lemma_ascii_spelling("rules");
    lemma_ascii_spelling("undefrule");
    lemma_ascii_spelling("undeffacts");
    lemma_ascii_spelling("ppdefrule");
    assert("rules".spec_bytes()[1] != "reset".spec_bytes()[1]);
    assert("rules".spec_bytes()[0] != "clear".spec_bytes()[0]);
    assert("rules".spec_bytes()[0] != "focus".spec_bytes()[0]);
    assert("undefrule".spec_bytes()[0] != "duplicate".spec_bytes()[0]);
    assert("ppdefrule".spec_bytes()[0] != "duplicate".spec_bytes()[0]);
    assert("ppdefrule".spec_bytes()[0] != "undefrule".spec_bytes()[0]);
    assert("rules".spec_bytes().len() == 5);
    assert("rules".spec_bytes() != "assert".spec_bytes());
    assert("rules".spec_bytes() != "retract".spec_bytes());
    assert("rules".spec_bytes() != "modify".spec_bytes());
    assert("rules".spec_bytes() != "duplicate".spec_bytes());
    assert("rules".spec_bytes() != "halt".spec_bytes());
    assert("rules".spec_bytes() != "printout".spec_bytes());
    assert("rules".spec_bytes() != "println".spec_bytes());
    assert("rules".spec_bytes() != "list-focus-stack".spec_bytes());
    assert("rules".spec_bytes() != "agenda".spec_bytes());
    assert("undefrule".spec_bytes().len() == 9);
    assert("undefrule".spec_bytes() != "assert".spec_bytes());
    assert("undefrule".spec_bytes() != "retract".spec_bytes());
    assert("undefrule".spec_bytes() != "modify".spec_bytes());
    assert("undefrule".spec_bytes() != "halt".spec_bytes());
    assert("undefrule".spec_bytes() != "reset".spec_bytes());
    assert("undefrule".spec_bytes() != "clear".spec_bytes());
    assert("undefrule".spec_bytes() != "printout".spec_bytes());
    assert("undefrule".spec_bytes() != "println".spec_bytes());
    assert("undefrule".spec_bytes() != "focus".spec_bytes());
    assert("undefrule".spec_bytes() != "list-focus-stack".spec_bytes());
    assert("undefrule".spec_bytes() != "agenda".spec_bytes());
    assert("undefrule".spec_bytes() != "rules".spec_bytes());
    assert("undeffacts".spec_bytes().len() == 10);
    assert("undeffacts".spec_bytes() != "assert".spec_bytes());
    assert("undeffacts".spec_bytes() != "retract".spec_bytes());
    assert("undeffacts".spec_bytes() != "modify".spec_bytes());
    assert("undeffacts".spec_bytes() != "duplicate".spec_bytes());
    assert("undeffacts".spec_bytes() != "halt".spec_bytes());
    assert("undeffacts".spec_bytes() != "reset".spec_bytes());
    assert("undeffacts".spec_bytes() != "clear".spec_bytes());
    assert("undeffacts".spec_bytes() != "printout".spec_bytes());
    assert("undeffacts".spec_bytes() != "println".spec_bytes());
    assert("undeffacts".spec_bytes() != "focus".spec_bytes());
    assert("undeffacts".spec_bytes() != "list-focus-stack".spec_bytes());
    assert("undeffacts".spec_bytes() != "agenda".spec_bytes());
    assert("undeffacts".spec_bytes() != "rules".spec_bytes());
    assert("undeffacts".spec_bytes() != "undefrule".spec_bytes());
    assert("ppdefrule".spec_bytes().len() == 9);
    assert("ppdefrule".spec_bytes() != "assert".spec_bytes());
    assert("ppdefrule".spec_bytes() != "retract".spec_bytes());
    assert("ppdefrule".spec_bytes() != "modify".spec_bytes());
    assert("ppdefrule".spec_bytes() != "halt".spec_bytes());
    assert("ppdefrule".spec_bytes() != "reset".spec_bytes());
    assert("ppdefrule".spec_bytes() != "clear".spec_bytes());
    assert("ppdefrule".spec_bytes() != "printout".spec_bytes());
    assert("ppdefrule".spec_bytes() != "println".spec_bytes());
    assert("ppdefrule".spec_bytes() != "focus".spec_bytes());
    assert("ppdefrule".spec_bytes() != "list-focus-stack".spec_bytes());
    assert("ppdefrule".spec_bytes() != "agenda".spec_bytes());
    assert("ppdefrule".spec_bytes() != "rules".spec_bytes());
    assert("ppdefrule".spec_bytes() != "undeffacts".spec_bytes());
}

proof fn lemma_action_names_4()
    ensures
        spec_action_form("load".spec_bytes()) == ActionForm::Load,
        spec_action_form("load-facts".spec_bytes()) == ActionForm::LoadFacts,
        spec_action_form("save-facts".spec_bytes()) == ActionForm::SaveFacts,
        spec_action_form("run".spec_bytes()) == ActionForm::Run,
{
    reveal_strlit("assert");
    reveal_strlit("retract");
    reveal_strlit("modify");
    reveal_strlit("duplicate");
    reveal_strlit("halt");
    reveal_strlit("reset");
    reveal_strlit("clear");
    reveal_strlit("printout");
    reveal_strlit("println");
    reveal_strlit("focus");
    reveal_strlit("list-focus-stack");
    reveal_strlit("agenda");
    reveal_strlit("rules");
    reveal_strlit("undefrule");
    reveal_strlit("undeffacts");
    reveal_strlit("ppdefrule");
    reveal_strlit("load");
    reveal_strlit("load-facts");
    reveal_strlit("save-facts");
    reveal_strlit("run");
    lemma_ascii_spelling("assert");
    lemma_ascii_spelling("retract");
    lemma_ascii_spelling("modify");
    lemma_ascii_spelling("duplicate");
    lemma_ascii_spelling("halt");
    lemma_ascii_spelling("reset");
    lemma_ascii_spelling("clear");
    lemma_ascii_spelling("printout");
    lemma_ascii_spelling("println");
    lemma_ascii_spelling("focus");
    lemma_ascii_spelling("list-focus-stack");
    lemma_ascii_spelling("agenda");
    lemma_ascii_spelling("rules");
    lemma_ascii_spelling("undefrule");
    lemma_ascii_spelling("undeffacts");
    lemma_ascii_spelling("ppdefrule");
    lemma_ascii_spelling("load");
    lemma_ascii_spelling("load-facts");
    lemma_ascii_spelling("save-facts");
    lemma_ascii_spelling("run");
    assert("load".spec_bytes()[0] != "halt".spec_bytes()[0]);
    assert("load-facts".spec_bytes()[0] != "undeffacts".spec_bytes()[0]);
    assert("save-facts".spec_bytes()[0] != "undeffacts".spec_bytes()[0]);
    assert("save-facts".spec_bytes()[0] != "load-facts".spec_bytes()[0]);
    assert("load".spec_bytes().len() == 4);
    assert("load".spec_bytes() != "assert".spec_bytes());
    assert("load".spec_bytes() != "retract".spec_bytes());
    assert("load".spec_bytes() != "modify".spec_bytes());
    assert("load".spec_bytes() != "duplicate".spec_bytes());
    assert("load".spec_bytes() != "reset".spec_bytes());
    assert("load".spec_bytes() != "clear".spec_bytes());
    assert("load".spec_bytes() != "printout".spec_bytes());
    assert("load".spec_bytes() != "println".spec_bytes());
    assert("load".spec_bytes() != "focus".spec_bytes());
    assert("load".spec_bytes() != "list-focus-stack".spec_bytes());
    assert("load".spec_bytes() != "agenda".spec_bytes());
    assert("load".spec_bytes() != "rules".spec_bytes());
    assert("load".spec_bytes() != "undefrule".spec_bytes());
    assert("load".spec_bytes() != "undeffacts".spec_bytes());
    assert("load".spec_bytes() != "ppdefrule".spec_bytes());
    assert("load-facts".spec_bytes().len() == 10);
    assert("load-facts".spec_bytes() != "assert".spec_bytes());
    assert("load-facts".spec_bytes() != "retract".spec_bytes());
    assert("load-facts".spec_bytes() != "modify".spec_bytes());
    assert("load-facts".spec_bytes() != "duplicate".spec_bytes());
    assert("load-facts".spec_bytes() != "halt".spec_bytes());
    assert("load-facts".spec_bytes() != "reset".spec_bytes());
    assert("load-facts".spec_bytes() != "clear".spec_bytes());
    assert("load-facts".spec_bytes() != "printout".spec_bytes());
    assert("load-facts".spec_bytes() != "println".spec_bytes());
    assert("load-facts".spec_bytes() != "focus".spec_bytes());
    assert("load-facts".spec_bytes() != "list-focus-stack".spec_bytes());
    assert("load-facts".spec_bytes() != "agenda".spec_bytes());
    assert("load-facts".spec_bytes() != "rules".spec_bytes());
    assert("load-facts".spec_bytes() != "undefrule".spec_bytes());
    assert("load-facts".spec_bytes() != "ppdefrule".spec_bytes());
    assert("load-facts".spec_bytes() != "load".spec_bytes());
    assert("save-facts".spec_bytes().len() == 10);
    assert("save-facts".spec_bytes() != "assert".spec_bytes());
    assert("save-facts".spec_bytes() != "retract".spec_bytes());
    assert("save-facts".spec_bytes() != "modify".spec_bytes());
    assert("save-facts".spec_bytes() != "duplicate".spec_bytes());
    assert("save-facts".spec_bytes() != "halt".spec_bytes());
    assert("save-facts".spec_bytes() != "reset".spec_bytes());
    assert("save-facts".spec_bytes() != "clear".spec_bytes());
    assert("save-facts".spec_bytes() != "printout".spec_bytes());
    assert("save-facts".spec_bytes() != "println".spec_bytes());
    assert("save-facts".spec_bytes() != "focus".spec_bytes());
    assert("save-facts".spec_bytes() != "list-focus-stack".spec_bytes());
    assert("save-facts".spec_bytes() != "agenda".spec_bytes());
    assert("save-facts".spec_bytes() != "rules".spec_bytes());
    assert("save-facts".spec_bytes() != "undefrule".spec_bytes());
    assert("save-facts".spec_bytes() != "ppdefrule".spec_bytes());
    assert("save-facts".spec_bytes() != "load".spec_bytes());
    assert("run".spec_bytes().len() == 3);
    assert("run".spec_bytes() != "assert".spec_bytes());
    assert("run".spec_bytes() != "retract".spec_bytes());
    assert("run".spec_bytes() != "modify".spec_bytes());
    assert("run".spec_bytes() != "duplicate".spec_bytes());
    assert("run".spec_bytes() != "halt".spec_bytes());
    assert("run".spec_bytes() != "reset".spec_bytes());
    assert("run".spec_bytes() != "clear".spec_bytes());
    assert("run".spec_bytes() != "printout".spec_bytes());
    assert("run".spec_bytes() != "println".spec_bytes());
    assert("run".spec_bytes() != "focus".spec_bytes());
    assert("run".spec_bytes() != "list-focus-stack".spec_bytes());
    assert("run".spec_bytes() != "agenda".spec_bytes());
    assert("run".spec_bytes() != "rules".spec_bytes());
    assert("run".spec_bytes() != "undefrule".spec_bytes());
    assert("run".spec_bytes() != "undeffacts".spec_bytes());
    assert("run".spec_bytes() != "ppdefrule".spec_bytes());
    assert("run".spec_bytes() != "load".spec_bytes());
    assert("run".spec_bytes() != "load-facts".spec_bytes());
    assert("run".spec_bytes() != "save-facts".spec_bytes());
}

proof fn lemma_action_names_5()
    ensures
        spec_action_form("return".spec_bytes()) == ActionForm::Return,
        spec_action_form("bind".spec_bytes()) == ActionForm::Bind,
        spec_action_form("if".spec_bytes()) == ActionForm::If,
        spec_action_form("while".spec_bytes()) == ActionForm::While,
{
    reveal_strlit("assert");
    reveal_strlit("retract");
    reveal_strlit("modify");
    reveal_strlit("duplicate");
    reveal_strlit("halt");
    reveal_strlit("reset");
    reveal_strlit("clear");
    reveal_strlit("printout");
    reveal_strlit("println");
    reveal_strlit("focus");
    reveal_strlit("list-focus-stack");
    reveal_strlit("agenda");
    reveal_strlit("rules");
    reveal_strlit("undefrule");
    reveal_strlit("undeffacts");
    reveal_strlit("ppdefrule");
    reveal_strlit("load");
    reveal_strlit("load-facts");
    reveal_strlit("save-facts");
    reveal_strlit("run");
    reveal_strlit("return");
    reveal_strlit("bind");
    reveal_strlit("if");
    reveal_strlit("while");
    lemma_ascii_spelling("assert");
    lemma_ascii_spelling("retract");
    lemma_ascii_spelling("modify");
    lemma_ascii_spelling("duplicate");
    lemma_ascii_spelling("halt");
    lemma_ascii_spelling("reset");
    lemma_ascii_spelling("clear");
    lemma_ascii_spelling("printout");
    lemma_ascii_spelling("println");
    lemma_ascii_spelling("focus");
    lemma_ascii_spelling("list-focus-stack");
    lemma_ascii_spelling("agenda");
    lemma_ascii_spelling("rules");
    lemma_ascii_spelling("undefrule");
    lemma_ascii_spelling("undeffacts");
    lemma_ascii_spelling("ppdefrule");
    lemma_ascii_spelling("load");
    lemma_ascii_spelling("load-facts");
    lemma_ascii_spelling("save-facts");
    lemma_ascii_spelling("run");
    lemma_ascii_spelling("return");
    lemma_ascii_spelling("bind");
    lemma_ascii_spelling("if");
    lemma_ascii_spelling("while");
    assert("return".spec_bytes()[0] != "assert".spec_bytes()[0]);
    assert("return".spec_bytes()[0] != "modify".spec_bytes()[0]);
    assert("return".spec_bytes()[0] != "agenda".spec_bytes()[0]);
    assert("bind".spec_bytes()[0] != "halt".spec_bytes()[0]);
    assert("bind".spec_bytes()[0] != "load".spec_bytes()[0]);
    assert("while".spec_bytes()[0] != "reset".spec_bytes()[0]);
    assert("while".spec_bytes()[0] != "clear".spec_bytes()[0]);
    assert("while".spec_bytes()[0] != "focus".spec_bytes()[0]);
    assert("while".spec_bytes()[0] != "rules".spec_bytes()[0]);
    assert("return".spec_bytes().len() == 6);
    assert("return".spec_bytes() != "retract".spec_bytes());
    assert("return".spec_bytes() != "duplicate".spec_bytes());
    assert("return".spec_bytes() != "halt".spec_bytes());
    assert("return".spec_bytes() != "reset".spec_bytes());
    assert("return".spec_bytes() != "clear".spec_bytes());
    assert("return".spec_bytes() != "printout".spec_bytes());
    assert("return".spec_bytes() != "println".spec_bytes());
    assert("return".spec_bytes() != "focus".spec_bytes());
    assert("return".spec_bytes() != "list-focus-stack".spec_bytes());
    assert("return".spec_bytes() != "rules".spec_bytes());
    assert("return".spec_bytes() != "undefrule".spec_bytes());
    assert("return".spec_bytes() != "undeffacts".spec_bytes());
    assert("return".spec_bytes() != "ppdefrule".spec_bytes());
    assert("return".spec_bytes() != "load".spec_bytes());
    assert("return".spec_bytes() != "load-facts".spec_bytes());
    assert("return".spec_bytes() != "save-facts".spec_bytes());
    assert("return".spec_bytes() != "run".spec_bytes());
    assert("bind".spec_bytes().len() == 4);
    assert("bind".spec_bytes() != "assert".spec_bytes());
    assert("bind".spec_bytes() != "retract".spec_bytes());
    assert("bind".spec_bytes() != "modify".spec_bytes());
    assert("bind".spec_bytes() != "duplicate".spec_bytes());
    assert("bind".spec_bytes() != "reset".spec_bytes());
    assert("bind".spec_bytes() != "clear".spec_bytes());
    assert("bind".spec_bytes() != "printout".spec_bytes());
    assert("bind".spec_bytes() != "println".spec_bytes());
    assert("bind".spec_bytes() != "focus".spec_bytes());
    assert("bind".spec_bytes() != "list-focus-stack".spec_bytes());
    assert("bind".spec_bytes() != "agenda".spec_bytes());
    assert("bind".spec_bytes() != "rules".spec_bytes());
    assert("bind".spec_bytes() != "undefrule".spec_bytes());
    assert("bind".spec_bytes() != "undeffacts".spec_bytes());
    assert("bind".spec_bytes() != "ppdefrule".spec_bytes());
    assert("bind".spec_bytes() != "load-facts".spec_bytes());
    assert("bind".spec_bytes() != "save-facts".spec_bytes());
    assert("bind".spec_bytes() != "run".spec_bytes());
    assert("bind".spec_bytes() != "return".spec_bytes());
    assert("if".spec_bytes().len() == 2);
    assert("if".spec_bytes() != "assert".spec_bytes());
    assert("if".spec_bytes() != "retract".spec_bytes());
    assert("if".spec_bytes() != "modify".spec_bytes());
    assert("if".spec_bytes() != "duplicate".spec_bytes());
    assert("if".spec_bytes() != "halt".spec_bytes());
    assert("if".spec_bytes() != "reset".spec_bytes());
    assert("if".spec_bytes() != "clear".spec_bytes());
    assert("if".spec_bytes() != "printout".spec_bytes());
    assert("if".spec_bytes() != "println".spec_bytes());
    assert("if".spec_bytes() != "focus".spec_bytes());
    assert("if".spec_bytes() != "list-focus-stack".spec_bytes());
    assert("if".spec_bytes() != "agenda".spec_bytes());
    assert("if".spec_bytes() != "rules".spec_bytes());
    assert("if".spec_bytes() != "undefrule".spec_bytes());
    assert("if".spec_bytes() != "undeffacts".spec_bytes());
    assert("if".spec_bytes() != "ppdefrule".spec_bytes());
    assert("if".spec_bytes() != "load".spec_bytes());
    assert("if".spec_bytes() != "load-facts".spec_bytes());
    assert("if".spec_bytes() != "save-facts".spec_bytes());
    assert("if".spec_bytes() != "run".spec_bytes());
    assert("if".spec_bytes() != "return".spec_bytes());
    assert("if".spec_bytes() != "bind".spec_bytes());
    assert("while".spec_bytes().len() == 5);
    assert("while".spec_bytes() != "assert".spec_bytes());
    assert("while".spec_bytes() != "retract".spec_bytes());
    assert("while".spec_bytes() != "modify".spec_bytes());
    assert("while".spec_bytes() != "duplicate".spec_bytes());
    assert("while".spec_bytes() != "halt".spec_bytes());
    assert("while".spec_bytes() != "printout".spec_bytes());
    assert("while".spec_bytes() != "println".spec_bytes());
    assert("while".spec_bytes() != "list-focus-stack".spec_bytes());
    assert("while".spec_bytes() != "agenda".spec_bytes());
    assert("while".spec_bytes() != "undefrule".spec_bytes());
    assert("while".spec_bytes() != "undeffacts".spec_bytes());
    assert("while".spec_bytes() != "ppdefrule".spec_bytes());
    assert("while".spec_bytes() != "load".spec_bytes());
    assert("while".spec_bytes() != "load-facts".spec_bytes());
    assert("while".spec_bytes() != "save-facts".spec_bytes());
    assert("while".spec_bytes() != "run".spec_bytes());
    assert("while".spec_bytes() != "return".spec_bytes());
    assert("while".spec_bytes() != "bind".spec_bytes());
    assert("while".spec_bytes() != "if".spec_bytes());
}

proof fn lemma_action_names_6()
    ensures
        spec_action_form("loop-for-count".spec_bytes()) == ActionForm::LoopForCount,
        spec_action_form("switch".spec_bytes()) == ActionForm::Switch,
        spec_action_form("progn$".spec_bytes()) == ActionForm::Foreach,
        spec_action_form("foreach".spec_bytes()) == ActionForm::Foreach,
{
    reveal_strlit("assert");
    reveal_strlit("retract");
    reveal_strlit("modify");
    reveal_strlit("duplicate");
    reveal_strlit("halt");
    reveal_strlit("reset");
    reveal_strlit("clear");
    reveal_strlit("printout");
    reveal_strlit("println");
    reveal_strlit("focus");
    reveal_strlit("list-focus-stack");
    reveal_strlit("agenda");
    reveal_strlit("rules");
    reveal_strlit("undefrule");
    reveal_strlit("undeffacts");
    reveal_strlit("ppdefrule");
    reveal_strlit("load");
    reveal_strlit("load-facts");
    reveal_strlit("save-facts");
    reveal_strlit("run");
    reveal_strlit("return");
    reveal_strlit("bind");
    reveal_strlit("if");
    reveal_strlit("while");
    reveal_strlit("loop-for-count");
    reveal_strlit("switch");
    reveal_strlit("progn$");
    reveal_strlit("foreach");
    lemma_ascii_spelling("assert");
    lemma_ascii_spelling("retract");
    lemma_ascii_spelling("modify");
    lemma_ascii_spelling("duplicate");
    lemma_ascii_spelling("halt");
    lemma_ascii_spelling("reset");
    lemma_ascii_spelling("clear");
    lemma_ascii_spelling("printout");
    lemma_ascii_spelling("println");
    lemma_ascii_spelling("focus");
    lemma_ascii_spelling("list-focus-stack");
    lemma_ascii_spelling("agenda");
    lemma_ascii_spelling("rules");
    lemma_ascii_spelling("undefrule");
    lemma_ascii_spelling("undeffacts");
    lemma_ascii_spelling("ppdefrule");
    lemma_ascii_spelling("load");
    lemma_ascii_spelling("load-facts");
    lemma_ascii_spelling("save-facts");
    lemma_ascii_spelling("run");
    lemma_ascii_spelling("return");
    lemma_ascii_spelling("bind");
    lemma_ascii_spelling("if");
    lemma_ascii_spelling("while");
    lemma_ascii_spelling("loop-for-count");
    lemma_ascii_spelling("switch");
    lemma_ascii_spelling("progn$");
    lemma_ascii_spelling("foreach");
    assert("switch".spec_bytes()[0] != "assert".spec_bytes()[0]);
    assert("switch".spec_bytes()[0] != "modify".spec_bytes()[0]);
    assert("switch".spec_bytes()[0] != "agenda".spec_bytes()[0]);
    assert("switch".spec_bytes()[0] != "return".spec_bytes()[0]);
    assert("progn$".spec_bytes()[0] != "assert".spec_bytes()[0]);
    assert("progn$".spec_bytes()[0] != "modify".spec_bytes()[0]);
    assert("progn$".spec_bytes()[0] != "agenda".spec_bytes()[0]);
    assert("progn$".spec_bytes()[0] != "return".spec_bytes()[0]);
    assert("progn$".spec_bytes()[0] != "switch".spec_bytes()[0]);
    assert("foreach".spec_bytes()[0] != "retract".spec_bytes()[0]);
    assert("foreach".spec_bytes()[0] != "println".spec_bytes()[0]);
    assert("loop-for-count".spec_bytes().len() == 14);
    assert("loop-for-count".spec_bytes() != "assert".spec_bytes());
    assert("loop-for-count".spec_bytes() != "retract".spec_bytes());
    assert("loop-for-count".spec_bytes() != "modify".spec_bytes());
    assert("loop-for-count".spec_bytes() != "duplicate".spec_bytes());
    assert("loop-for-count".spec_bytes() != "halt".spec_bytes());
    assert("loop-for-count".spec_bytes() != "reset".spec_bytes());
    assert("loop-for-count".spec_bytes() != "clear".spec_bytes());
    assert("loop-for-count".spec_bytes() != "printout".spec_bytes());
    assert("loop-for-count".spec_bytes() != "println".spec_bytes());
    assert("loop-for-count".spec_bytes() != "focus".spec_bytes());
    assert("loop-for-count".spec_bytes() != "list-focus-stack".spec_bytes());
    assert("loop-for-count".spec_bytes() != "agenda".spec_bytes());
    assert("loop-for-count".spec_bytes() != "rules".spec_bytes());
    assert("loop-for-count".spec_bytes() != "undefrule".spec_bytes());
    assert("loop-for-count".spec_bytes() != "undeffacts".spec_bytes());
    assert("loop-for-count".spec_bytes() != "ppdefrule".spec_bytes());
    assert("loop-for-count".spec_bytes() != "load".spec_bytes());
    assert("loop-for-count".spec_bytes() != "load-facts".spec_bytes());
    assert("loop-for-count".spec_bytes() != "save-facts".spec_bytes());
    assert("loop-for-count".spec_bytes() != "run".spec_bytes());
    assert("loop-for-count".spec_bytes() != "return".spec_bytes());
    assert("loop-for-count".spec_bytes() != "bind".spec_bytes());
    assert("loop-for-count".spec_bytes() != "if".spec_bytes());
    assert("loop-for-count".spec_bytes() != "while".spec_bytes());
    assert("switch".spec_bytes().len() == 6);
    assert("switch".spec_bytes() != "retract".spec_bytes());
    assert("switch".spec_bytes() != "duplicate".spec_bytes());
    assert("switch".spec_bytes() != "halt".spec_bytes());
    assert("switch".spec_bytes() != "reset".spec_bytes());
    assert("switch".spec_bytes() != "clear".spec_bytes());
    assert("switch".spec_bytes() != "printout".spec_bytes());
    assert("switch".spec_bytes() != "println".spec_bytes());
    assert("switch".spec_bytes() != "focus".spec_bytes());
    assert("switch".spec_bytes() != "list-focus-stack".spec_bytes());
    assert("switch".spec_bytes() != "rules".spec_bytes());
    assert("switch".spec_bytes() != "undefrule".spec_bytes());
    assert("switch".spec_bytes() != "undeffacts".spec_bytes());
    assert("switch".spec_bytes() != "ppdefrule".spec_bytes());
    assert("switch".spec_bytes() != "load".spec_bytes());
    assert("switch".spec_bytes() != "load-facts".spec_bytes());
    assert("switch".spec_bytes() != "save-facts".spec_bytes());
    assert("switch".spec_bytes() != "run".spec_bytes());
    assert("switch".spec_bytes() != "bind".spec_bytes());
    assert("switch".spec_bytes() != "if".spec_bytes());
    assert("switch".spec_bytes() != "while".spec_bytes());
    assert("switch".spec_bytes() != "loop-for-count".spec_bytes());
    assert("progn$".spec_bytes().len() == 6);
    assert("progn$".spec_bytes() != "retract".spec_bytes());
    assert("progn$".spec_bytes() != "duplicate".spec_bytes());
    assert("progn$".spec_bytes() != "halt".spec_bytes());
    assert("progn$".spec_bytes() != "reset".spec_bytes());
    assert("progn$".spec_bytes() != "clear".spec_bytes());
    assert("progn$".spec_bytes() != "printout".spec_bytes());
    assert("progn$".spec_bytes() != "println".spec_bytes());
    assert("progn$".spec_bytes() != "focus".spec_bytes());
    assert("progn$".spec_bytes() != "list-focus-stack".spec_bytes());
    assert("progn$".spec_bytes() != "rules".spec_bytes());
    assert("progn$".spec_bytes() != "undefrule".spec_bytes());
    assert("progn$".spec_bytes() != "undeffacts".spec_bytes());
    assert("progn$".spec_bytes() != "ppdefrule".spec_bytes());
    assert("progn$".spec_bytes() != "load".spec_bytes());
    assert("progn$".spec_bytes() != "load-facts".spec_bytes());
    assert("progn$".spec_bytes() != "save-facts".spec_bytes());
    assert("progn$".spec_bytes() != "run".spec_bytes());
    assert("progn$".spec_bytes() != "bind".spec_bytes());
    assert("progn$".spec_bytes() != "if".spec_bytes());
    assert("progn$".spec_bytes() != "while".spec_bytes());
    assert("progn$".spec_bytes() != "loop-for-count".spec_bytes());
    assert("foreach".spec_bytes().len() == 7);
    assert("foreach".spec_bytes() != "assert".spec_bytes());
    assert("foreach".spec_bytes() != "modify".spec_bytes());
    assert("foreach".spec_bytes() != "duplicate".spec_bytes());
    assert("foreach".spec_bytes() != "halt".spec_bytes());
    assert("foreach".spec_bytes() != "reset".spec_bytes());
    assert("foreach".spec_bytes() != "clear".spec_bytes());
    assert("foreach".spec_bytes() != "printout".spec_bytes());
    assert("foreach".spec_bytes() != "focus".spec_bytes());
    assert("foreach".spec_bytes() != "list-focus-stack".spec_bytes());
    assert("foreach".spec_bytes() != "agenda".spec_bytes());
    assert("foreach".spec_bytes() != "rules".spec_bytes());
    assert("foreach".spec_bytes() != "undefrule".spec_bytes());
    assert("foreach".spec_bytes() != "undeffacts".spec_bytes());
    assert("foreach".spec_bytes() != "ppdefrule".spec_bytes());
    assert("foreach".spec_bytes() != "load".spec_bytes());
    assert("foreach".spec_bytes() != "load-facts".spec_bytes());
    assert("foreach".spec_bytes() != "save-facts".spec_bytes());
    assert("foreach".spec_bytes() != "run".spec_bytes());
    assert("foreach".spec_bytes() != "return".spec_bytes());
    assert("foreach".spec_bytes() != "bind".spec_bytes());
    assert("foreach".spec_bytes() != "if".spec_bytes());
    assert("foreach".spec_bytes() != "while".spec_bytes());
    assert("foreach".spec_bytes() != "loop-for-count".spec_bytes());
    assert("foreach".spec_bytes() != "switch".spec_bytes());
    assert("foreach".spec_bytes() != "progn$".spec_bytes());
}

proof fn lemma_action_names_7()
    ensures
        spec_action_form("do-for-fact".spec_bytes()) == ActionForm::Query(QueryForm::DoForFact),
        spec_action_form("do-for-all-facts".spec_bytes()) == ActionForm::Query(QueryForm::DoForAllFacts),
        spec_action_form("delayed-do-for-all-facts".spec_bytes()) == ActionForm::Query(QueryForm::DelayedDoForAllFacts),
        spec_action_form("any-factp".spec_bytes()) == ActionForm::Query(QueryForm::AnyFactp),
{
    reveal_strlit("assert");
    reveal_strlit("retract");
    reveal_strlit("modify");
    reveal_strlit("duplicate");
    reveal_strlit("halt");
    reveal_strlit("reset");
    reveal_strlit("clear");
    reveal_strlit("printout");
    reveal_strlit("println");
    reveal_strlit("focus");
    reveal_strlit("list-focus-stack");
    reveal_strlit("agenda");
    reveal_strlit("rules");
    reveal_strlit("undefrule");
    reveal_strlit("undeffacts");
    reveal_strlit("ppdefrule");
    reveal_strlit("load");
    reveal_strlit("load-facts");
    reveal_strlit("save-facts");
    reveal_strlit("run");
    reveal_strlit("return");
    reveal_strlit("bind");
    reveal_strlit("if");
    reveal_strlit("while");
    reveal_strlit("loop-for-count");
    reveal_strlit("switch");
    reveal_strlit("progn$");
    reveal_strlit("foreach");
    reveal_strlit("do-for-fact");
    reveal_strlit("do-for-all-facts");
    reveal_strlit("delayed-do-for-all-facts");
    reveal_strlit("any-factp");
    lemma_ascii_spelling("assert");
    lemma_ascii_spelling("retract");
    lemma_ascii_spelling("modify");
    lemma_ascii_spelling("duplicate");
    lemma_ascii_spelling("halt");
    lemma_ascii_spelling("reset");
    lemma_ascii_spelling("clear");
    lemma_ascii_spelling("printout");
    lemma_ascii_spelling("println");
    lemma_ascii_spelling("focus");
    lemma_ascii_spelling("list-focus-stack");
    lemma_ascii_spelling("agenda");
    lemma_ascii_spelling("rules");
    lemma_ascii_spelling("undefrule");
    lemma_ascii_spelling("undeffacts");
    lemma_ascii_spelling("ppdefrule");
    lemma_ascii_spelling("load");
    lemma_ascii_spelling("load-facts");
    lemma_ascii_spelling("save-facts");
    lemma_ascii_spelling("run");
    lemma_ascii_spelling("return");
    lemma_ascii_spelling("bind");
    lemma_ascii_spelling("if");
    lemma_ascii_spelling("while");
    lemma_ascii_spelling("loop-for-count");
    lemma_ascii_spelling("switch");
    lemma_ascii_spelling("progn$");
    lemma_ascii_spelling("foreach");
    lemma_ascii_spelling("do-for-fact");
    lemma_ascii_spelling("do-for-all-facts");
    lemma_ascii_spelling("delayed-do-for-all-facts");
    lemma_ascii_spelling("any-factp");
    assert("do-for-all-facts".spec_bytes()[0] != "list-focus-stack".spec_bytes()[0]);
    assert("any-factp".spec_bytes()[0] != "duplicate".spec_bytes()[0]);
    assert("any-factp".spec_bytes()[0] != "undefrule".spec_bytes()[0]);
    assert("any-factp".spec_bytes()[0] != "ppdefrule".spec_bytes()[0]);
    assert("do-for-fact".spec_bytes().len() == 11);
    assert("do-for-fact".spec_bytes() != "assert".spec_bytes());
    assert("do-for-fact".spec_bytes() != "retract".spec_bytes());
    assert("do-for-fact".spec_bytes() != "modify".spec_bytes());
    assert("do-for-fact".spec_bytes() != "duplicate".spec_bytes());
    assert("do-for-fact".spec_bytes() != "halt".spec_bytes());
    assert("do-for-fact".spec_bytes() != "reset".spec_bytes());
    assert("do-for-fact".spec_bytes() != "clear".spec_bytes());
    assert("do-for-fact".spec_bytes() != "printout".spec_bytes());
    assert("do-for-fact".spec_bytes() != "println".spec_bytes());
    assert("do-for-fact".spec_bytes() != "focus".spec_bytes());
    assert("do-for-fact".spec_bytes() != "list-focus-stack".spec_bytes());
    assert("do-for-fact".spec_bytes() != "agenda".spec_bytes());
    assert("do-for-fact".spec_bytes() != "rules".spec_bytes());
    assert("do-for-fact".spec_bytes() != "undefrule".spec_bytes());
    assert("do-for-fact".spec_bytes() != "undeffacts".spec_bytes());
    assert("do-for-fact".spec_bytes() != "ppdefrule".spec_bytes());
    assert("do-for-fact".spec_bytes() != "load".spec_bytes());
    assert("do-for-fact".spec_bytes() != "load-facts".spec_bytes());
    assert("do-for-fact".spec_bytes() != "save-facts".spec_bytes());
    assert("do-for-fact".spec_bytes() != "run".spec_bytes());
    assert("do-for-fact".spec_bytes() != "return".spec_bytes());
    assert("do-for-fact".spec_bytes() != "bind".spec_bytes());
    assert("do-for-fact".spec_bytes() != "if".spec_bytes());
    assert("do-for-fact".spec_bytes() != "while".spec_bytes());
    assert("do-for-fact".spec_bytes() != "loop-for-count".spec_bytes());
    assert("do-for-fact".spec_bytes() != "switch".spec_bytes());
    assert("do-for-fact".spec_bytes() != "progn$".spec_bytes());
    assert("do-for-fact".spec_bytes() != "foreach".spec_bytes());
    assert("do-for-all-facts".spec_bytes().len() == 16);
    assert("do-for-all-facts".spec_bytes() != "assert".spec_bytes());
    assert("do-for-all-facts".spec_bytes() != "retract".spec_bytes());
    assert("do-for-all-facts".spec_bytes() != "modify".spec_bytes());
    assert("do-for-all-facts".spec_bytes() != "duplicate".spec_bytes());
    assert("do-for-all-facts".spec_bytes() != "halt".spec_bytes());
    assert("do-for-all-facts".spec_bytes() != "reset".spec_bytes());
    assert("do-for-all-facts".spec_bytes() != "clear".spec_bytes());
    assert("do-for-all-facts".spec_bytes() != "printout".spec_bytes());
    assert("do-for-all-facts".spec_bytes() != "println".spec_bytes());
    assert("do-for-all-facts".spec_bytes() != "focus".spec_bytes());
    assert("do-for-all-facts".spec_bytes() != "agenda".spec_bytes());
    assert("do-for-all-facts".spec_bytes() != "rules".spec_bytes());
    assert("do-for-all-facts".spec_bytes() != "undefrule".spec_bytes());
    assert("do-for-all-facts".spec_bytes() != "undeffacts".spec_bytes());
    assert("do-for-all-facts".spec_bytes() != "ppdefrule".spec_bytes());
    assert("do-for-all-facts".spec_bytes() != "load".spec_bytes());
    assert("do-for-all-facts".spec_bytes() != "load-facts".spec_bytes());
    assert("do-for-all-facts".spec_bytes() != "save-facts".spec_bytes());
    assert("do-for-all-facts".spec_bytes() != "run".spec_bytes());
    assert("do-for-all-facts".spec_bytes() != "return".spec_bytes());
    assert("do-for-all-facts".spec_bytes() != "bind".spec_bytes());
    assert("do-for-all-facts".spec_bytes() != "if".spec_bytes());
    assert("do-for-all-facts".spec_bytes() != "while".spec_bytes());
    assert("do-for-all-facts".spec_bytes() != "loop-for-count".spec_bytes());
    assert("do-for-all-facts".spec_bytes() != "switch".spec_bytes());
    assert("do-for-all-facts".spec_bytes() != "progn$".spec_bytes());
    assert("do-for-all-facts".spec_bytes() != "foreach".spec_bytes());
    assert("do-for-all-facts".spec_bytes() != "do-for-fact".spec_bytes());
    assert("delayed-do-for-all-facts".spec_bytes().len() == 24);
    assert("delayed-do-for-all-facts".spec_bytes() != "assert".spec_bytes());
    assert("delayed-do-for-all-facts".spec_bytes() != "retract".spec_bytes());
    assert("delayed-do-for-all-facts".spec_bytes() != "modify".spec_bytes());
    assert("delayed-do-for-all-facts".spec_bytes() != "duplicate".spec_bytes());
    assert("delayed-do-for-all-facts".spec_bytes() != "halt".spec_bytes());
    assert("delayed-do-for-all-facts".spec_bytes() != "reset".spec_bytes());
    assert("delayed-do-for-all-facts".spec_bytes() != "clear".spec_bytes());
    assert("delayed-do-for-all-facts".spec_bytes() != "printout".spec_bytes());
    assert("delayed-do-for-all-facts".spec_bytes() != "println".spec_bytes());
    assert("delayed-do-for-all-facts".spec_bytes() != "focus".spec_bytes());
    assert("delayed-do-for-all-facts".spec_bytes() != "list-focus-stack".spec_bytes());
    assert("delayed-do-for-all-facts".spec_bytes() != "agenda".spec_bytes());
    assert("delayed-do-for-all-facts".spec_bytes() != "rules".spec_bytes());
    assert("delayed-do-for-all-facts".spec_bytes() != "undefrule".spec_bytes());
    assert("delayed-do-for-all-facts".spec_bytes() != "undeffacts".spec_bytes());
    assert("delayed-do-for-all-facts".spec_bytes() != "ppdefrule".spec_bytes());
    assert("delayed-do-for-all-facts".spec_bytes() != "load".spec_bytes());
    assert("delayed-do-for-all-facts".spec_bytes() != "load-facts".spec_bytes());
    assert("delayed-do-for-all-facts".spec_bytes() != "save-facts".spec_bytes());
    assert("delayed-do-for-all-facts".spec_bytes() != "run".spec_bytes());
    assert("delayed-do-for-all-facts".spec_bytes() != "return".spec_bytes());
    assert("delayed-do-for-all-facts".spec_bytes() != "bind".spec_bytes());
    assert("delayed-do-for-all-facts".spec_bytes() != "if".spec_bytes());
    assert("delayed-do-for-all-facts".spec_bytes() != "while".spec_bytes());
    assert("delayed-do-for-all-facts".spec_bytes() != "loop-for-count".spec_bytes());
    assert("delayed-do-for-all-facts".spec_bytes() != "switch".spec_bytes());
    assert("delayed-do-for-all-facts".spec_bytes() != "progn$".spec_bytes());
    assert("delayed-do-for-all-facts".spec_bytes() != "foreach".spec_bytes());
    assert("delayed-do-for-all-facts".spec_bytes() != "do-for-fact".spec_bytes());
    assert("delayed-do-for-all-facts".spec_bytes() != "do-for-all-facts".spec_bytes());
    assert("any-factp".spec_bytes().len() == 9);
    assert("any-factp".spec_bytes() != "assert".spec_bytes());
    assert("any-factp".spec_bytes() != "retract".spec_bytes());
    assert("any-factp".spec_bytes() != "modify".spec_bytes());
    assert("any-factp".spec_bytes() != "halt".spec_bytes());
    assert("any-factp".spec_bytes() != "reset".spec_bytes());
    assert("any-factp".spec_bytes() != "clear".spec_bytes());
    assert("any-factp".spec_bytes() != "printout".spec_bytes());
    assert("any-factp".spec_bytes() != "println".spec_bytes());
    assert("any-factp".spec_bytes() != "focus".spec_bytes());
    assert("any-factp".spec_bytes() != "list-focus-stack".spec_bytes());
    assert("any-factp".spec_bytes() != "agenda".spec_bytes());
    assert("any-factp".spec_bytes() != "rules".spec_bytes());
    assert("any-factp".spec_bytes() != "undeffacts".spec_bytes());
    assert("any-factp".spec_bytes() != "load".spec_bytes());
    assert("any-factp".spec_bytes() != "load-facts".spec_bytes());
    assert("any-factp".spec_bytes() != "save-facts".spec_bytes());
    assert("any-factp".spec_bytes() != "run".spec_bytes());
    assert("any-factp".spec_bytes() != "return".spec_bytes());
    assert("any-factp".spec_bytes() != "bind".spec_bytes());
    assert("any-factp".spec_bytes() != "if".spec_bytes());
    assert("any-factp".spec_bytes() != "while".spec_bytes());
    assert("any-factp".spec_bytes() != "loop-for-count".spec_bytes());
    assert("any-factp".spec_bytes() != "switch".spec_bytes());
    assert("any-factp".spec_bytes() != "progn$".spec_bytes());
    assert("any-factp".spec_bytes() != "foreach".spec_bytes());
    assert("any-factp".spec_bytes() != "do-for-fact".spec_bytes());
    assert("any-factp".spec_bytes() != "do-for-all-facts".spec_bytes());
    assert("any-factp".spec_bytes() != "delayed-do-for-all-facts".spec_bytes());
}

proof fn lemma_action_names_8()
    ensures
        spec_action_form("find-fact".spec_bytes()) == ActionForm::Query(QueryForm::FindFact),
        spec_action_form("find-all-facts".spec_bytes()) == ActionForm::Query(QueryForm::FindAllFacts),
{
    reveal_strlit("assert");
    reveal_strlit("retract");
    reveal_strlit("modify");
    reveal_strlit("duplicate");
    reveal_strlit("halt");
    reveal_strlit("reset");
    reveal_strlit("clear");
    reveal_strlit("printout");
    reveal_strlit("println");
    reveal_strlit("focus");
    reveal_strlit("list-focus-stack");
    reveal_strlit("agenda");
    reveal_strlit("rules");
    reveal_strlit("undefrule");
    reveal_strlit("undeffacts");
    reveal_strlit("ppdefrule");
    reveal_strlit("load");
    reveal_strlit("load-facts");
    reveal_strlit("save-facts");
    reveal_strlit("run");
    reveal_strlit("return");
    reveal_strlit("bind");
    reveal_strlit("if");
    reveal_strlit("while");
    reveal_strlit("loop-for-count");
    reveal_strlit("switch");
    reveal_strlit("progn$");
    reveal_strlit("foreach");
    reveal_strlit("do-for-fact");
    reveal_strlit("do-for-all-facts");
    reveal_strlit("delayed-do-for-all-facts");
    reveal_strlit("any-factp");
    reveal_strlit("find-fact");
    reveal_strlit("find-all-facts");
    lemma_ascii_spelling("assert");
    lemma_ascii_spelling("retract");
    lemma_ascii_spelling("modify");
    lemma_ascii_spelling("duplicate");
    lemma_ascii_spelling("halt");
    lemma_ascii_spelling("reset");
    lemma_ascii_spelling("clear");
    lemma_ascii_spelling("printout");
    lemma_ascii_spelling("println");
    lemma_ascii_spelling("focus");
    lemma_ascii_spelling("list-focus-stack");
    lemma_ascii_spelling("agenda");
    lemma_ascii_spelling("rules");
    lemma_ascii_spelling("undefrule");
    lemma_ascii_spelling("undeffacts");
    lemma_ascii_spelling("ppdefrule");
    lemma_ascii_spelling("load");
    lemma_ascii_spelling("load-facts");
    lemma_ascii_spelling("save-facts");
    lemma_ascii_spelling("run");
    lemma_ascii_spelling("return");
    lemma_ascii_spelling("bind");
    lemma_ascii_spelling("if");
    lemma_ascii_spelling("while");
    lemma_ascii_spelling("loop-for-count");
    lemma_ascii_spelling("switch");
    lemma_ascii_spelling("progn$");
    lemma_ascii_spelling("foreach");
    lemma_ascii_spelling("do-for-fact");
    lemma_ascii_spelling("do-for-all-facts");
    lemma_ascii_spelling("delayed-do-for-all-facts");
    lemma_ascii_spelling("any-factp");
    lemma_ascii_spelling("find-fact");
    lemma_ascii_spelling("find-all-facts");
    assert("find-fact".spec_bytes()[0] != "duplicate".spec_bytes()[0]);
    assert("find-fact".spec_bytes()[0] != "undefrule".spec_bytes()[0]);
    assert("find-fact".spec_bytes()[0] != "ppdefrule".spec_bytes()[0]);
    assert("find-fact".spec_bytes()[0] != "any-factp".spec_bytes()[0]);
    assert("find-all-facts".spec_bytes()[0] != "loop-for-count".spec_bytes()[0]);
    assert("find-fact".spec_bytes().len() == 9);
    assert("find-fact".spec_bytes() != "assert".spec_bytes());
    assert("find-fact".spec_bytes() != "retract".spec_bytes());
    assert("find-fact".spec_bytes() != "modify".spec_bytes());
    assert("find-fact".spec_bytes() != "halt".spec_bytes());
    assert("find-fact".spec_bytes() != "reset".spec_bytes());
    assert("find-fact".spec_bytes() != "clear".spec_bytes());
    assert("find-fact".spec_bytes() != "printout".spec_bytes());
    assert("find-fact".spec_bytes() != "println".spec_bytes());
    assert("find-fact".spec_bytes() != "focus".spec_bytes());
    assert("find-fact".spec_bytes() != "list-focus-stack".spec_bytes());
    assert("find-fact".spec_bytes() != "agenda".spec_bytes());
    assert("find-fact".spec_bytes() != "rules".spec_bytes());
    assert("find-fact".spec_bytes() != "undeffacts".spec_bytes());
    assert("find-fact".spec_bytes() != "load".spec_bytes());
    assert("find-fact".spec_bytes() != "load-facts".spec_bytes());
    assert("find-fact".spec_bytes() != "save-facts".spec_bytes());
    assert("find-fact".spec_bytes() != "run".spec_bytes());
    assert("find-fact".spec_bytes() != "return".spec_bytes());
    assert("find-fact".spec_bytes() != "bind".spec_bytes());
    assert("find-fact".spec_bytes() != "if".spec_bytes());
    assert("find-fact".spec_bytes() != "while".spec_bytes());
    assert("find-fact".spec_bytes() != "loop-for-count".spec_bytes());
    assert("find-fact".spec_bytes() != "switch".spec_bytes());
    assert("find-fact".spec_bytes() != "progn$".spec_bytes());
    assert("find-fact".spec_bytes() != "foreach".spec_bytes());
    assert("find-fact".spec_bytes() != "do-for-fact".spec_bytes());
    assert("find-fact".spec_bytes() != "do-for-all-facts".spec_bytes());
    assert("find-fact".spec_bytes() != "delayed-do-for-all-facts".spec_bytes());
    assert("find-all-facts".spec_bytes().len() == 14);
    assert("find-all-facts".spec_bytes() != "assert".spec_bytes());
    assert("find-all-facts".spec_bytes() != "retract".spec_bytes());
    assert("find-all-facts".spec_bytes() != "modify".spec_bytes());
    assert("find-all-facts".spec_bytes() != "duplicate".spec_bytes());
    assert("find-all-facts".spec_bytes() != "halt".spec_bytes());
    assert("find-all-facts".spec_bytes() != "reset".spec_bytes());
    assert("find-all-facts".spec_bytes() != "clear".spec_bytes());
    assert("find-all-facts".spec_bytes() != "printout".spec_bytes());
    assert("find-all-facts".spec_bytes() != "println".spec_bytes());
    assert("find-all-facts".spec_bytes() != "focus".spec_bytes());
    assert("find-all-facts".spec_bytes() != "list-focus-stack".spec_bytes());
    assert("find-all-facts".spec_bytes() != "agenda".spec_bytes());
    assert("find-all-facts".spec_bytes() != "rules".spec_bytes());
    assert("find-all-facts".spec_bytes() != "undefrule".spec_bytes());
    assert("find-all-facts".spec_bytes() != "undeffacts".spec_bytes());
    assert("find-all-facts".spec_bytes() != "ppdefrule".spec_bytes());
    assert("find-all-facts".spec_bytes() != "load".spec_bytes());
    assert("find-all-facts".spec_bytes() != "load-facts".spec_bytes());
    assert("find-all-facts".spec_bytes() != "save-facts".spec_bytes());
    assert("find-all-facts".spec_bytes() != "run".spec_bytes());
    assert("find-all-facts".spec_bytes() != "return".spec_bytes());
    assert("find-all-facts".spec_bytes() != "bind".spec_bytes());
    assert("find-all-facts".spec_bytes() != "if".spec_bytes());
    assert("find-all-facts".spec_bytes() != "while".spec_bytes());
    assert("find-all-facts".spec_bytes() != "switch".spec_bytes());
    assert("find-all-facts".spec_bytes() != "progn$".spec_bytes());
    assert("find-all-facts".spec_bytes() != "foreach".spec_bytes());
    assert("find-all-facts".spec_bytes() != "do-for-fact".spec_bytes());
    assert("find-all-facts".spec_bytes() != "do-for-all-facts".spec_bytes());
    assert("find-all-facts".spec_bytes() != "delayed-do-for-all-facts".spec_bytes());
    assert("find-all-facts".spec_bytes() != "any-factp".spec_bytes());
    assert("find-all-facts".spec_bytes() != "find-fact".spec_bytes());
}

/// Only the names of the dispatch table select an action form; every
/// other call is evaluated as an expression.
pub proof fn lemma_other_names_are_expressions(name: Seq<u8>)
    ensures
        !(name == "assert".spec_bytes()
            || name == "retract".spec_bytes()
            || name == "modify".spec_bytes()
            || name == "duplicate".spec_bytes()
            || name == "halt".spec_bytes()
            || name == "reset".spec_bytes()
            || name == "clear".spec_bytes()
            || name == "printout".spec_bytes()
            || name == "println".spec_bytes()
            || name == "focus".spec_bytes()
            || name == "list-focus-stack".spec_bytes()
            || name == "agenda".spec_bytes()
            || name == "rules".spec_bytes()
            || name == "undefrule".spec_bytes()
            || name == "undeffacts".spec_bytes()
            || name == "ppdefrule".spec_bytes()
            || name == "load".spec_bytes()
            || name == "load-facts".spec_bytes()
            || name == "save-facts".spec_bytes()
            || name == "run".spec_bytes()
            || name == "return".spec_bytes()
            || name == "bind".spec_bytes()
            || name == "if".spec_bytes()
            || name == "while".spec_bytes()
            || name == "loop-for-count".spec_bytes()
            || name == "switch".spec_bytes()
            || name == "progn$".spec_bytes()
            || name == "foreach".spec_bytes()
            || name == "do-for-fact".spec_bytes()
            || name == "do-for-all-facts".spec_bytes()
            || name == "delayed-do-for-all-facts".spec_bytes()
            || name == "any-factp".spec_bytes()
            || name == "find-fact".spec_bytes()
            || name == "find-all-facts".spec_bytes()) ==> spec_action_form(name) == ActionForm::Expression,
{
}

} // verus!
