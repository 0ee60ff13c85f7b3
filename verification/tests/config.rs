use ferric_rules_runtime::config::{
    default_max_action_loop_iterations, ActionLoopBudget, DEFAULT_MAX_ACTION_LOOP_ITERATIONS,
};

#[test]
fn default_action_loop_budget_is_one_million() {
    assert_eq!(DEFAULT_MAX_ACTION_LOOP_ITERATIONS, 1_000_000);
    assert_eq!(
        default_max_action_loop_iterations(),
        DEFAULT_MAX_ACTION_LOOP_ITERATIONS
    );
}

#[test]
fn budget_grants_at_most_its_bound_between_begins() {
    let mut budget = ActionLoopBudget::new(3);
    assert!(!budget.is_active());
    budget.begin();
    let granted = (0..10).filter(|_| budget.take_iteration()).count();
    assert_eq!(granted, 3);
    assert_eq!(budget.remaining(), 0);
    budget.end();
    assert!(!budget.is_active());
    budget.begin();
    assert_eq!(budget.remaining(), 3);
    assert!(budget.take_iteration());
    assert_eq!(budget.remaining(), 2);
}

#[test]
fn nested_executions_join_the_active_budget() {
    let mut budget = ActionLoopBudget::new(5);
    assert!(budget.begin_if_inactive());
    assert!(budget.take_iteration());
    assert!(budget.take_iteration());
    assert!(!budget.begin_if_inactive());
    assert_eq!(budget.remaining(), 3);
    budget.end();
    assert!(budget.begin_if_inactive());
    assert_eq!(budget.remaining(), 5);
    assert_eq!(budget.max_iterations(), 5);
}

#[test]
fn an_empty_budget_grants_nothing() {
    let mut budget = ActionLoopBudget::new(0);
    budget.begin();
    assert!(!budget.take_iteration());
    assert!(budget.is_active());
}
