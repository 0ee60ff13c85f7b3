use ferric_rules_runtime::callable_validation::{validate_iterator_binds, ActionNode, RebindError};

type Node = ActionNode<u32>;

fn var(name: &str, span: u32) -> Node {
    ActionNode::Variable {
        name: name.as_bytes().to_vec(),
        span,
    }
}

fn call(name: &str, args: Vec<Node>) -> Node {
    ActionNode::Call {
        name: name.as_bytes().to_vec(),
        args,
    }
}

fn bind(name: &str, span: u32) -> Node {
    call("bind", vec![var(name, span), ActionNode::Leaf])
}

fn progn(name: &str, body: Vec<Node>) -> Node {
    ActionNode::Progn {
        var_name: name.as_bytes().to_vec(),
        list_expr: Box::new(ActionNode::Leaf),
        body,
    }
}

fn loop_for_count(name: Option<&str>, body: Vec<Node>) -> Node {
    ActionNode::LoopForCount {
        var_name: name.map(|name| name.as_bytes().to_vec()),
        start: Box::new(ActionNode::Leaf),
        end: Box::new(ActionNode::Leaf),
        body,
    }
}

#[test]
fn binding_an_iteration_variable_reports_its_loop_form() {
    let body = vec![progn("x", vec![bind("x", 7)])];
    assert_eq!(
        validate_iterator_binds(&body),
        Err(RebindError {
            span: 7,
            diagnostic: "MULTIFUN2",
            name: b"x".as_slice()
        })
    );
    let body = vec![loop_for_count(Some("i"), vec![call("printout", vec![]), bind("i", 3)])];
    assert_eq!(
        validate_iterator_binds(&body),
        Err(RebindError {
            span: 3,
            diagnostic: "PRCDRPSR1",
            name: b"i".as_slice()
        })
    );
}

#[test]
fn protection_is_lexical_and_innermost_wins() {
    let body = vec![
        loop_for_count(Some("i"), vec![]),
        bind("i", 1),
        loop_for_count(None, vec![bind("i", 2)]),
        progn("x", vec![bind("y", 3), call("bind", vec![ActionNode::Leaf])]),
    ];
    assert_eq!(validate_iterator_binds(&body), Ok(()));
    let body = vec![loop_for_count(
        Some("i"),
        vec![progn("i", vec![bind("i", 4)])],
    )];
    assert_eq!(
        validate_iterator_binds(&body).unwrap_err().diagnostic,
        "MULTIFUN2"
    );
    let body = vec![progn("$?items", vec![bind("items", 5)])];
    assert_eq!(validate_iterator_binds(&body).unwrap_err().span, 5);
    let body = vec![progn("items", vec![bind("$?items", 6)])];
    assert_eq!(
        validate_iterator_binds(&body),
        Err(RebindError {
            span: 6,
            diagnostic: "MULTIFUN2",
            name: b"$?items".as_slice()
        })
    );
}

#[test]
fn every_control_form_is_searched_in_source_order() {
    let inner = |span| {
        ActionNode::If {
            condition: Box::new(ActionNode::Leaf),
            then_actions: vec![],
            else_actions: vec![ActionNode::While {
                condition: Box::new(ActionNode::Leaf),
                body: vec![ActionNode::QueryAction {
                    query: Box::new(ActionNode::Leaf),
                    body: vec![ActionNode::Switch {
                        expr: Box::new(ActionNode::Leaf),
                        cases: vec![(ActionNode::Leaf, vec![]), (ActionNode::Leaf, vec![bind("x", span)])],
                        default: Some(vec![bind("x", span + 1)]),
                    }],
                }],
            }],
        }
    };
    let body = vec![progn("x", vec![inner(10), inner(20)])];
    assert_eq!(validate_iterator_binds(&body).unwrap_err().span, 10);
    let body = vec![progn("x", vec![call("if", vec![]), ActionNode::Switch {
        expr: Box::new(bind("x", 30)),
        cases: vec![],
        default: None,
    }])];
    assert_eq!(validate_iterator_binds(&body).unwrap_err().span, 30);
    let body: Vec<Node> = vec![];
    assert_eq!(validate_iterator_binds(&body), Ok(()));
}
