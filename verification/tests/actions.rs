use ferric_rules_runtime::actions::{
    CursorStep, QueryCursor, action_form, body_item, BodyItem, BodyItemKind, body_step, candidate_action, foreach_position, plan_action, query_handling,
    query_walk_ends, switch_next, while_step, ActionForm, ActionOutcome, ActionPlan,
    ActionReport, ActionSequence, BodyStep, CandidateAction, CountEntry, CountLoop, LoopEntry,
    QueryForm, QueryHandling, QueryMode, SequenceAction, SequenceResult, SwitchStep,
};
use ferric_rules_runtime::config::ActionLoopBudget;

fn done() -> ActionReport {
    ActionReport { outcome: ActionOutcome::Done, reset_requested: false, clear_requested: false }
}

fn result(reset_requested: bool, clear_requested: bool, failed: bool) -> SequenceAction {
    SequenceAction::Finish(SequenceResult { reset_requested, clear_requested, failed })
}

/// Run a sequence of `count` actions whose reports are scripted, returning
/// the indices executed and the final result.
fn run_sequence(count: usize, reports: &[ActionReport]) -> (Vec<usize>, SequenceAction) {
    let (mut sequence, mut action) = ActionSequence::begin(count, true);
    let mut executed = Vec::new();
    while let SequenceAction::Execute(index) = action {
        executed.push(index);
        action = sequence.observe(reports[index]);
    }
    (executed, action)
}

#[test]
fn action_names_select_their_forms() {
    assert_eq!(action_form("assert"), ActionForm::Assert);
    assert_eq!(action_form("halt"), ActionForm::Halt);
    assert_eq!(action_form("loop-for-count"), ActionForm::LoopForCount);
    assert_eq!(action_form("progn$"), ActionForm::Foreach);
    assert_eq!(action_form("foreach"), ActionForm::Foreach);
    assert_eq!(action_form("delayed-do-for-all-facts"), ActionForm::Query(QueryForm::DelayedDoForAllFacts));
    assert_eq!(action_form("find-all-facts"), ActionForm::Query(QueryForm::FindAllFacts));
    assert_eq!(action_form("list-focus-stack"), ActionForm::ListFocusStack);
    assert_eq!(action_form("save-facts"), ActionForm::SaveFacts);
    assert_eq!(action_form("str-cat"), ActionForm::Expression);
    assert_eq!(action_form("Assert"), ActionForm::Expression);
    assert_eq!(action_form(""), ActionForm::Expression);
}

#[test]
fn simple_forms_plan_their_effects() {
    assert_eq!(plan_action(ActionForm::Halt, 0), ActionPlan::Halt);
    assert_eq!(plan_action(ActionForm::Reset, 0), ActionPlan::RequestReset);
    assert_eq!(plan_action(ActionForm::Clear, 0), ActionPlan::RequestClear);
    assert_eq!(plan_action(ActionForm::Run, 2), ActionPlan::Nothing);
    assert_eq!(plan_action(ActionForm::Return, 0), ActionPlan::ReturnFromRule);
    assert_eq!(plan_action(ActionForm::Return, 1), ActionPlan::EvaluateThenReturn);
    assert_eq!(plan_action(ActionForm::Return, 2), ActionPlan::ReturnArityError(2));
    assert_eq!(plan_action(ActionForm::While, 3), ActionPlan::Perform(ActionForm::While));
}

#[test]
fn every_action_runs_in_order_when_none_stops() {
    let (executed, action) = run_sequence(3, &[done(), done(), done()]);
    assert_eq!(executed, vec![0, 1, 2]);
    assert_eq!(action, result(false, false, false));
}

#[test]
fn the_first_error_stops_the_sequence_and_is_reported() {
    let failed = ActionReport { outcome: ActionOutcome::Failed, reset_requested: false, clear_requested: false };
    let (executed, action) = run_sequence(4, &[done(), failed, done(), failed]);
    assert_eq!(executed, vec![0, 1]);
    assert_eq!(action, result(false, false, true));
}

#[test]
fn a_rule_return_stops_the_sequence_without_an_error() {
    let returned = ActionReport { outcome: ActionOutcome::RuleReturn, reset_requested: false, clear_requested: false };
    let (executed, action) = run_sequence(3, &[returned, done(), done()]);
    assert_eq!(executed, vec![0]);
    assert_eq!(action, result(false, false, false));
}

#[test]
fn a_reset_or_clear_request_stops_after_its_action() {
    let reset = ActionReport { outcome: ActionOutcome::Done, reset_requested: true, clear_requested: false };
    let (executed, action) = run_sequence(3, &[done(), reset, done()]);
    assert_eq!(executed, vec![0, 1]);
    assert_eq!(action, result(true, false, false));
    let clear = ActionReport { outcome: ActionOutcome::Done, reset_requested: false, clear_requested: true };
    let (executed, action) = run_sequence(3, &[clear, done(), done()]);
    assert_eq!(executed, vec![0]);
    assert_eq!(action, result(false, true, false));
}

#[test]
fn an_unseeded_or_empty_sequence_runs_nothing() {
    let (_, action) = ActionSequence::begin(3, false);
    assert_eq!(action, result(false, false, true));
    let (_, action) = ActionSequence::begin(0, true);
    assert_eq!(action, result(false, false, false));
}

#[test]
fn loop_bodies_leave_on_halt_reset_or_clear_and_pass_errors_up() {
    assert_eq!(body_step(ActionOutcome::Done, false, false, false), BodyStep::Next);
    assert_eq!(body_step(ActionOutcome::Done, true, false, false), BodyStep::Leave);
    assert_eq!(body_step(ActionOutcome::Done, false, true, false), BodyStep::Leave);
    assert_eq!(body_step(ActionOutcome::Done, false, false, true), BodyStep::Leave);
    assert_eq!(body_step(ActionOutcome::Failed, false, false, false), BodyStep::Propagate(ActionOutcome::Failed));
    assert_eq!(body_step(ActionOutcome::RuleReturn, true, false, false), BodyStep::Propagate(ActionOutcome::RuleReturn));
}

#[test]
fn while_spends_one_iteration_per_entered_body() {
    let mut budget = ActionLoopBudget::new(2);
    budget.begin();
    assert_eq!(while_step(true, &mut budget), LoopEntry::Enter);
    assert_eq!(budget.remaining(), 1);
    assert_eq!(while_step(false, &mut budget), LoopEntry::Leave);
    assert_eq!(budget.remaining(), 1);
    assert_eq!(while_step(true, &mut budget), LoopEntry::Enter);
    assert_eq!(while_step(true, &mut budget), LoopEntry::LimitExceeded);
    assert_eq!(budget.remaining(), 0);
}

#[test]
fn loop_for_count_visits_each_counter_in_order() {
    let mut budget = ActionLoopBudget::new(100);
    budget.begin();
    let mut counts = CountLoop::new(-2, 1);
    let mut seen = Vec::new();
    loop {
        match counts.enter(&mut budget) {
            CountEntry::Enter(counter) => seen.push(counter),
            CountEntry::Leave => break,
            CountEntry::LimitExceeded => panic!("budget spent"),
        }
    }
    assert_eq!(seen, vec![-2, -1, 0, 1]);
    assert_eq!(budget.remaining(), 96);
    assert_eq!(CountLoop::new(3, 2).enter(&mut budget), CountEntry::Leave);
    assert_eq!(budget.remaining(), 96);
}

#[test]
fn loop_for_count_ends_at_the_largest_counter_without_overflow() {
    let mut budget = ActionLoopBudget::new(10);
    budget.begin();
    let mut counts = CountLoop::new(i64::MAX - 1, i64::MAX);
    assert_eq!(counts.enter(&mut budget), CountEntry::Enter(i64::MAX - 1));
    assert_eq!(counts.enter(&mut budget), CountEntry::Enter(i64::MAX));
    assert_eq!(counts.enter(&mut budget), CountEntry::Leave);
}

#[test]
fn loop_for_count_fails_once_the_budget_is_spent() {
    let mut budget = ActionLoopBudget::new(2);
    budget.begin();
    let mut counts = CountLoop::new(1, 5);
    assert_eq!(counts.enter(&mut budget), CountEntry::Enter(1));
    assert_eq!(counts.enter(&mut budget), CountEntry::Enter(2));
    assert_eq!(counts.enter(&mut budget), CountEntry::LimitExceeded);
}

#[test]
fn foreach_positions_are_one_based() {
    assert_eq!(foreach_position(0), 1);
    assert_eq!(foreach_position(41), 42);
}

#[test]
fn switch_tests_cases_in_order_then_falls_to_default() {
    assert_eq!(switch_next(0, 2, true), SwitchStep::Test(0));
    assert_eq!(switch_next(1, 2, false), SwitchStep::Test(1));
    assert_eq!(switch_next(2, 2, true), SwitchStep::RunDefault);
    assert_eq!(switch_next(2, 2, false), SwitchStep::Skip);
}

#[test]
fn query_forms_choose_their_walk() {
    assert_eq!(query_handling(QueryForm::DoForFact), QueryHandling::Iterate(QueryMode::FirstMatch));
    assert_eq!(query_handling(QueryForm::DoForAllFacts), QueryHandling::Iterate(QueryMode::EachMatch));
    assert_eq!(query_handling(QueryForm::DelayedDoForAllFacts), QueryHandling::Iterate(QueryMode::Delayed));
    assert_eq!(query_handling(QueryForm::AnyFactp), QueryHandling::Evaluate);
    assert_eq!(query_handling(QueryForm::FindFact), QueryHandling::Evaluate);
    assert_eq!(query_handling(QueryForm::FindAllFacts), QueryHandling::Evaluate);
}

#[test]
fn queries_run_select_or_skip_candidates() {
    assert_eq!(candidate_action(QueryMode::FirstMatch, true), CandidateAction::RunBody);
    assert_eq!(candidate_action(QueryMode::EachMatch, true), CandidateAction::RunBody);
    assert_eq!(candidate_action(QueryMode::Delayed, true), CandidateAction::Select);
    assert_eq!(candidate_action(QueryMode::Delayed, false), CandidateAction::Skip);
    assert!(query_walk_ends(QueryMode::FirstMatch, true, false, false, false));
    assert!(!query_walk_ends(QueryMode::FirstMatch, false, false, false, false));
    assert!(!query_walk_ends(QueryMode::EachMatch, true, false, false, false));
    assert!(query_walk_ends(QueryMode::Delayed, false, true, false, false));
    assert!(query_walk_ends(QueryMode::EachMatch, false, false, false, true));
}

#[test]
fn body_items_execute_as_actions_or_evaluate() {
    assert_eq!(body_item(BodyItemKind::Call(action_form("printout"))), BodyItem::Execute(ActionForm::Printout));
    assert_eq!(body_item(BodyItemKind::If), BodyItem::Execute(ActionForm::If));
    assert_eq!(body_item(BodyItemKind::Progn), BodyItem::Execute(ActionForm::Foreach));
    assert_eq!(
        body_item(BodyItemKind::QueryAction(action_form("do-for-fact"))),
        BodyItem::Execute(ActionForm::Query(QueryForm::DoForFact))
    );
    assert_eq!(body_item(BodyItemKind::Value), BodyItem::Evaluate);
}

/// The facts of each member's template as (fact, timestamp), in assertion
/// order; a lookup answers the first one after the reached timestamp.
fn lookup(facts: &[Vec<(u64, u64)>], level: usize, after: Option<u64>) -> Option<(u64, u64)> {
    facts[level].iter().copied().find(|&(_, timestamp)| after.map_or(true, |reached| timestamp > reached))
}

fn walk(facts: &[Vec<(u64, u64)>], budget: &mut ActionLoopBudget) -> (Vec<Vec<u64>>, CursorStep) {
    let empty = facts.iter().any(|member| member.is_empty());
    let mut cursor = QueryCursor::new(facts.len(), empty).unwrap();
    let mut candidates = Vec::new();
    let mut step = cursor.next_step();
    loop {
        match step {
            CursorStep::Lookup { level, after } => {
                step = cursor.observe(lookup(facts, level, after), budget);
            }
            CursorStep::Candidate(tuple) => {
                candidates.push(tuple);
                step = cursor.next_step();
            }
            other => return (candidates, other),
        }
    }
}

#[test]
fn a_query_cursor_walks_the_product_with_the_last_member_fastest() {
    let facts = vec![vec![(1, 10), (2, 20)], vec![(5, 11), (6, 12), (7, 30)]];
    let mut budget = ActionLoopBudget::new(100);
    budget.begin();
    let (candidates, end) = walk(&facts, &mut budget);
    assert_eq!(end, CursorStep::Finished);
    assert_eq!(
        candidates,
        vec![vec![1, 5], vec![1, 6], vec![1, 7], vec![2, 5], vec![2, 6], vec![2, 7]]
    );
    // Two outer visits and three inner visits for each.
    assert_eq!(budget.remaining(), 100 - 8);
}

#[test]
fn a_query_cursor_over_an_empty_member_visits_nothing() {
    let facts = vec![vec![(1, 10)], vec![]];
    let mut budget = ActionLoopBudget::new(5);
    budget.begin();
    let (candidates, end) = walk(&facts, &mut budget);
    assert!(candidates.is_empty());
    assert_eq!(end, CursorStep::Finished);
    assert_eq!(budget.remaining(), 5);
    assert!(QueryCursor::new(0, false).is_none());
}

#[test]
fn a_query_cursor_fails_once_the_budget_is_spent() {
    let facts = vec![vec![(1, 10), (2, 20)], vec![(5, 11)]];
    let mut budget = ActionLoopBudget::new(3);
    budget.begin();
    let (candidates, end) = walk(&facts, &mut budget);
    assert_eq!(candidates, vec![vec![1, 5]]);
    assert_eq!(end, CursorStep::LimitExceeded);
}
