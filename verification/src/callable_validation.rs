//! Source checks for local binds that would overwrite lexical iterators.
//!
//! The checks read a small view of an action body: calls, control forms,
//! iteration forms and variables, with their names as bytes and their source
//! spans of the caller's span type.

use vstd::prelude::*;
use vstd::slice::slice_subrange;

verus! {

/// The part of an action expression the iterator-bind checks read.
#[derive(Debug)]
pub enum ActionNode<S> {
    Call { name: Vec<u8>, args: Vec<ActionNode<S>> },
    If { condition: Box<ActionNode<S>>, then_actions: Vec<ActionNode<S>>, else_actions: Vec<ActionNode<S>> },
    While { condition: Box<ActionNode<S>>, body: Vec<ActionNode<S>> },
    /// `loop-for-count`, whose loop variable is optional.
    LoopForCount {
        var_name: Option<Vec<u8>>,
        start: Box<ActionNode<S>>,
        end: Box<ActionNode<S>>,
        body: Vec<ActionNode<S>>,
    },
    /// `progn$` and `foreach`, with their element variable.
    Progn { var_name: Vec<u8>, list_expr: Box<ActionNode<S>>, body: Vec<ActionNode<S>> },
    QueryAction { query: Box<ActionNode<S>>, body: Vec<ActionNode<S>> },
    Switch {
        expr: Box<ActionNode<S>>,
        cases: Vec<(ActionNode<S>, Vec<ActionNode<S>>)>,
        default: Option<Vec<ActionNode<S>>>,
    },
    /// A local variable, as written.
    Variable { name: Vec<u8>, span: S },
    /// A literal or a global variable.
    Leaf,
}

/// A bind of a protected iteration variable: where, the diagnostic code of
/// the loop form that protects it, and the variable as written.
#[derive(Clone, Copy, Debug, PartialEq, Eq)]
pub struct RebindError<'a, S> {
    pub span: S,
    pub diagnostic: &'static str,
    pub name: &'a [u8],
}

/// A rebind, by value.
pub struct Rebind<S> {
    pub span: S,
    pub diagnostic: &'static str,
    pub name: Seq<u8>,
}

/// The diagnostic code of `loop-for-count`.
pub open spec fn loop_for_count_code() -> &'static str {
    "PRCDRPSR1"
}

/// The diagnostic code of `progn$` and `foreach`.
pub open spec fn progn_code() -> &'static str {
    "MULTIFUN2"
}

/// `bind`.
pub open spec fn bind_name() -> Seq<u8> {
    seq![98u8, 105u8, 110u8, 100u8]
}

/// A variable name without its multifield `$?` prefix.
pub open spec fn spec_binding_name(name: Seq<u8>) -> Seq<u8> {
    if name.len() >= 2 && name[0] == 36 && name[1] == 63 {
        name.skip(2)
    } else {
        name
    }
}

/// The diagnostic of the innermost protection of `name`, if any.
pub open spec fn innermost(protected: Seq<(Seq<u8>, &'static str)>, name: Seq<u8>) -> Option<&'static str>
    decreases protected.len(),
{
    if protected.len() == 0 {
        None
    } else if protected.last().0 == name {
        Some(protected.last().1)
    } else {
        innermost(protected.drop_last(), name)
    }
}

/// The first of two results of consecutive checks.
pub open spec fn first_of<S>(a: Option<Rebind<S>>, b: Option<Rebind<S>>) -> Option<Rebind<S>> {
    if a is Some {
        a
    } else {
        b
    }
}

/// The protection an iteration form adds for its body.
pub open spec fn protect(protected: Seq<(Seq<u8>, &'static str)>, name: Option<Seq<u8>>, diagnostic: &'static str) -> Seq<
    (Seq<u8>, &'static str),
> {
    match name {
        Some(n) => protected.push((spec_binding_name(n), diagnostic)),
        None => protected,
    }
}

/// The rebind a call itself makes: a `bind` whose first argument is a
/// protected local variable.
pub open spec fn call_rebind<S>(name: Seq<u8>, args: Seq<ActionNode<S>>, protected: Seq<(Seq<u8>, &'static str)>) -> Option<
    Rebind<S>,
> {
    if name == bind_name() && args.len() > 0 {
        match args[0] {
            ActionNode::Variable { name: var, span } => match innermost(protected, spec_binding_name(var@)) {
                Some(diagnostic) => Some(Rebind { span, diagnostic, name: var@ }),
                None => None,
            },
            _ => None,
        }
    } else {
        None
    }
}

/// The first rebind in an expression, in source order.
pub open spec fn check_node<S>(node: ActionNode<S>, protected: Seq<(Seq<u8>, &'static str)>) -> Option<Rebind<S>>
    decreases node, 0int,
{
    match node {
        ActionNode::Call { name, args } => first_of(
            call_rebind(name@, args@, protected),
            check_body(args, 0, protected),
        ),
        ActionNode::If { condition, then_actions, else_actions } => first_of(
            check_node(*condition, protected),
            first_of(check_body(then_actions, 0, protected), check_body(else_actions, 0, protected)),
        ),
        ActionNode::While { condition, body } => first_of(
            check_node(*condition, protected),
            check_body(body, 0, protected),
        ),
        ActionNode::LoopForCount { var_name, start, end, body } => first_of(
            check_node(*start, protected),
            first_of(
                check_node(*end, protected),
                check_body(
                    body,
                    0,
                    protect(
                        protected,
                        match var_name {
                            Some(n) => Some(n@),
                            None => None,
                        },
                        loop_for_count_code(),
                    ),
                ),
            ),
        ),
        ActionNode::Progn { var_name, list_expr, body } => first_of(
            check_node(*list_expr, protected),
            check_body(body, 0, protect(protected, Some(var_name@), progn_code())),
        ),
        ActionNode::QueryAction { query, body } => first_of(
            check_node(*query, protected),
            check_body(body, 0, protected),
        ),
        ActionNode::Switch { expr, cases, default } => first_of(
            check_node(*expr, protected),
            first_of(
                check_cases(cases, 0, protected),
                match default {
                    Some(body) => check_body(body, 0, protected),
                    None => None,
                },
            ),
        ),
        _ => None,
    }
}

/// The first rebind in a body from its `i`th expression.
pub open spec fn check_body<S>(body: Vec<ActionNode<S>>, i: int, protected: Seq<(Seq<u8>, &'static str)>) -> Option<
    Rebind<S>,
>
    decreases body, body.len() - i,
{
    if 0 <= i < body.len() {
        first_of(check_node(body[i], protected), check_body(body, i + 1, protected))
    } else {
        None
    }
}

/// The first rebind in the cases of a `switch` from its `i`th case.
pub open spec fn check_cases<S>(
    cases: Vec<(ActionNode<S>, Vec<ActionNode<S>>)>,
    i: int,
    protected: Seq<(Seq<u8>, &'static str)>,
) -> Option<Rebind<S>>
    decreases cases, cases.len() - i,
{
    if 0 <= i < cases.len() {
        proof {
            assert(decreases_to!(cases => cases[i]));
        }
        first_of(
            check_node(cases[i].0, protected),
            first_of(check_body(cases[i].1, 0, protected), check_cases(cases, i + 1, protected)),
        )
    } else {
        None
    }
}

/// A rebind error, by value.
pub open spec fn rebind_view<S>(e: RebindError<'_, S>) -> Rebind<S> {
    Rebind { span: e.span, diagnostic: e.diagnostic, name: e.name@ }
}

/// The protections in force, by value.
pub open spec fn protected_view(p: Seq<(&[u8], &'static str)>) -> Seq<(Seq<u8>, &'static str)> {
    p.map_values(|e: (&[u8], &'static str)| (e.0@, e.1))
}

/// Whether a check found what the exec code returned.
pub open spec fn reports<S>(result: Result<(), RebindError<'_, S>>, found: Option<Rebind<S>>) -> bool {
    match found {
        None => result is Ok,
        Some(r) => result matches Err(e) && rebind_view(e) == r,
    }
}

/// A variable name without its multifield `$?` prefix.
fn binding_name(name: &[u8]) -> (stripped: &[u8])
    ensures
        stripped@ == spec_binding_name(name@),
{
    if name.len() >= 2 && name[0] == 36u8 && name[1] == 63u8 {
        slice_subrange(name, 2, name.len())
    } else {
        name
    }
}

fn bytes_equal(a: &[u8], b: &[u8]) -> (equal: bool)
    ensures
        equal == (a@ == b@),
{
    if a.len() != b.len() {
        return false;
    }
    let mut i: usize = 0;
    while i < a.len()
        invariant
            a@.len() == b@.len(),
            i <= a@.len(),
            forall|j: int| 0 <= j < i ==> a@[j] == b@[j],
        decreases a@.len() - i,
    {
        if a[i] != b[i] {
            return false;
        }
        i += 1;
    }
    assert(a@ =~= b@);
    true
}

/// The diagnostic of the innermost protection of `name`, searching from the
/// most recent.
fn innermost_protection(protected: &Vec<(&[u8], &'static str)>, name: &[u8]) -> (found: Option<&'static str>)
    ensures
        found == innermost(protected_view(protected@), name@),
{
    let ghost view = protected_view(protected@);
    let mut i = protected.len();
    proof {
        assert(view.take(i as int) =~= view);
    }
    while i > 0
        invariant
            i <= protected@.len(),
            view == protected_view(protected@),
            innermost(view.take(i as int), name@) == innermost(view, name@),
        decreases i,
    {
        i -= 1;
        let entry = protected[i];
        proof {
            assert(view.take(i + 1).drop_last() =~= view.take(i as int));
        }
        if bytes_equal(entry.0, name) {
            return Some(entry.1);
        }
    }
    None
}

/// Check a top-level action body: no `bind` may overwrite an enclosing
/// iteration variable. The first offense in source order is reported.
pub fn validate_iterator_binds<'a, S: Copy>(body: &'a Vec<ActionNode<S>>) -> (result: Result<
    (),
    RebindError<'a, S>,
>)
    ensures
        reports(result, check_body(*body, 0, Seq::empty())),
{
    let mut protected: Vec<(&'a [u8], &'static str)> = Vec::new();
    proof {
        assert(protected_view(protected@) =~= Seq::empty());
    }
    validate_body(body, &mut protected)
}

fn validate_body<'a, S: Copy>(body: &'a Vec<ActionNode<S>>, protected: &mut Vec<(&'a [u8], &'static str)>) -> (result:
    Result<(), RebindError<'a, S>>)
    ensures
        reports(result, check_body(*body, 0, protected_view(old(protected)@))),
        final(protected)@ == old(protected)@,
    decreases body, 1int,
{
    let ghost pv = protected_view(protected@);
    let mut i: usize = 0;
    while i < body.len()
        invariant
            i <= body@.len(),
            protected@ == old(protected)@,
            pv == protected_view(old(protected)@),
            check_body(*body, 0, pv) == check_body(*body, i as int, pv),
        decreases body@.len() - i,
    {
        let node = &body[i];
        match validate(node, protected) {
            Ok(()) => {},
            Err(e) => {
                return Err(e);
            },
        }
        i += 1;
    }
    Ok(())
}

fn validate_iteration<'a, S: Copy>(
    body: &'a Vec<ActionNode<S>>,
    name: Option<&'a [u8]>,
    diagnostic: &'static str,
    protected: &mut Vec<(&'a [u8], &'static str)>,
) -> (result: Result<(), RebindError<'a, S>>)
    ensures
        reports(
            result,
            check_body(
                *body,
                0,
                protect(
                    protected_view(old(protected)@),
                    match name {
                        Some(n) => Some(n@),
                        None => None,
                    },
                    diagnostic,
                ),
            ),
        ),
        final(protected)@ == old(protected)@,
    decreases body, 2int,
{
    let outer_len = protected.len();
    match name {
        Some(name) => {
            protected.push((binding_name(name), diagnostic));
        },
        None => {},
    }
    proof {
        assert(protected_view(protected@) =~= protect(
            protected_view(old(protected)@),
            match name {
                Some(n) => Some(n@),
                None => None,
            },
            diagnostic,
        ));
    }
    let result = validate_body(body, protected);
    protected.truncate(outer_len);
    proof {
        assert(protected@ =~= old(protected)@);
    }
    result
}

fn validate_cases<'a, S: Copy>(
    cases: &'a Vec<(ActionNode<S>, Vec<ActionNode<S>>)>,
    protected: &mut Vec<(&'a [u8], &'static str)>,
) -> (result: Result<(), RebindError<'a, S>>)
    ensures
        reports(result, check_cases(*cases, 0, protected_view(old(protected)@))),
        final(protected)@ == old(protected)@,
    decreases cases, 1int,
{
    let ghost pv = protected_view(protected@);
    let mut i: usize = 0;
    while i < cases.len()
        invariant
            i <= cases@.len(),
            protected@ == old(protected)@,
            pv == protected_view(old(protected)@),
            check_cases(*cases, 0, pv) == check_cases(*cases, i as int, pv),
        decreases cases@.len() - i,
    {
        let case = &cases[i];
        proof {
            assert(decreases_to!(*cases => cases[i as int]));
        }
        match validate(&case.0, protected) {
            Ok(()) => {},
            Err(e) => {
                return Err(e);
            },
        }
        match validate_body(&case.1, protected) {
            Ok(()) => {},
            Err(e) => {
                return Err(e);
            },
        }
        i += 1;
    }
    Ok(())
}

/// Check one expression.
fn validate<'a, S: Copy>(expression: &'a ActionNode<S>, protected: &mut Vec<(&'a [u8], &'static str)>) -> (result:
    Result<(), RebindError<'a, S>>)
    ensures
        reports(result, check_node(*expression, protected_view(old(protected)@))),
        final(protected)@ == old(protected)@,
    decreases *expression, 0int,
{
    let ghost pv = protected_view(protected@);
    match expression {
        ActionNode::Call { name, args } => {
            if name.len() == 4 && name[0] == 98u8 && name[1] == 105u8 && name[2] == 110u8 && name[3]
                == 100u8 && args.len() > 0 {
                assert(name@ =~= bind_name());
                match &args[0] {
                    ActionNode::Variable { name: var, span } => {
                        match innermost_protection(protected, binding_name(var.as_slice())) {
                            Some(diagnostic) => {
                                return Err(RebindError { span: *span, diagnostic, name: var.as_slice() });
                            },
                            None => {},
                        }
                    },
                    _ => {},
                }
            } else {
                assert(name@ != bind_name() || args@.len() == 0) by {
                    if name@ == bind_name() {
                        assert(name@.len() == 4);
                        assert(name@[0] == 98u8 && name@[1] == 105u8 && name@[2] == 110u8 && name@[3]
                            == 100u8);
                    }
                }
            }
            validate_body(args, protected)
        },
        ActionNode::If { condition, then_actions, else_actions } => {
            match validate(condition, protected) {
                Ok(()) => {},
                Err(e) => {
                    return Err(e);
                },
            }
            match validate_body(then_actions, protected) {
                Ok(()) => {},
                Err(e) => {
                    return Err(e);
                },
            }
            validate_body(else_actions, protected)
        },
        ActionNode::While { condition, body } => {
            match validate(condition, protected) {
                Ok(()) => {},
                Err(e) => {
                    return Err(e);
                },
            }
            validate_body(body, protected)
        },
        ActionNode::LoopForCount { var_name, start, end, body } => {
            match validate(start, protected) {
                Ok(()) => {},
                Err(e) => {
                    return Err(e);
                },
            }
            match validate(end, protected) {
                Ok(()) => {},
                Err(e) => {
                    return Err(e);
                },
            }
            let name: Option<&'a [u8]> = match var_name {
                Some(n) => Some(n.as_slice()),
                None => None,
            };
            validate_iteration(body, name, "PRCDRPSR1", protected)
        },
        ActionNode::Progn { var_name, list_expr, body } => {
            match validate(list_expr, protected) {
                Ok(()) => {},
                Err(e) => {
                    return Err(e);
                },
            }
            // The generated -index name is an ordinary writable local. Only
            // the element variable is protected by CLIPS syntax.
            validate_iteration(body, Some(var_name.as_slice()), "MULTIFUN2", protected)
        },
        ActionNode::QueryAction { query, body } => {
            match validate(query, protected) {
                Ok(()) => {},
                Err(e) => {
                    return Err(e);
                },
            }
            validate_body(body, protected)
        },
        ActionNode::Switch { expr, cases, default } => {
            match validate(expr, protected) {
                Ok(()) => {},
                Err(e) => {
                    return Err(e);
                },
            }
            match validate_cases(cases, protected) {
                Ok(()) => {},
                Err(e) => {
                    return Err(e);
                },
            }
            match default {
                Some(body) => validate_body(body, protected),
                None => Ok(()),
            }
        },
        ActionNode::Variable { .. } => Ok(()),
        ActionNode::Leaf => Ok(()),
    }
}

/// One step into an expression: `part` picks which of its sub-expressions
/// (the condition, a branch, a loop body, the switch's tests, a case body or
/// the default), `case` the `switch` case, and `index` the item within a
/// sequence. The result is the sub-expression with the protections it sees:
/// a `loop-for-count` with a variable and a `progn$` protect their variable
/// (without its `$?` prefix) inside their body.
pub open spec fn step_into<S>(
    node: ActionNode<S>,
    protected: Seq<(Seq<u8>, &'static str)>,
    part: nat,
    case: nat,
    index: nat,
) -> Option<(ActionNode<S>, Seq<(Seq<u8>, &'static str)>)> {
    let k = index as int;
    match node {
        ActionNode::Call { args, .. } => if part == 0 && k < args@.len() {
            Some((args@[k], protected))
        } else {
            None
        },
        ActionNode::If { condition, then_actions, else_actions } => if part == 0 {
            Some((*condition, protected))
        } else if part == 1 && k < then_actions@.len() {
            Some((then_actions@[k], protected))
        } else if part == 2 && k < else_actions@.len() {
            Some((else_actions@[k], protected))
        } else {
            None
        },
        ActionNode::While { condition, body } => if part == 0 {
            Some((*condition, protected))
        } else if part == 1 && k < body@.len() {
            Some((body@[k], protected))
        } else {
            None
        },
        ActionNode::LoopForCount { var_name, start, end, body } => if part == 0 {
            Some((*start, protected))
        } else if part == 1 {
            Some((*end, protected))
        } else if part == 2 && k < body@.len() {
            Some((
                body@[k],
                match var_name {
                    Some(n) => protected.push((spec_binding_name(n@), loop_for_count_code())),
                    None => protected,
                },
            ))
        } else {
            None
        },
        ActionNode::Progn { var_name, list_expr, body } => if part == 0 {
            Some((*list_expr, protected))
        } else if part == 1 && k < body@.len() {
            Some((body@[k], protected.push((spec_binding_name(var_name@), progn_code()))))
        } else {
            None
        },
        ActionNode::QueryAction { query, body } => if part == 0 {
            Some((*query, protected))
        } else if part == 1 && k < body@.len() {
            Some((body@[k], protected))
        } else {
            None
        },
        ActionNode::Switch { expr, cases, default } => if part == 0 {
            Some((*expr, protected))
        } else if part == 1 && case < cases@.len() {
            Some((cases@[case as int].0, protected))
        } else if part == 2 && case < cases@.len() && k < cases@[case as int].1@.len() {
            Some((cases@[case as int].1@[k], protected))
        } else if part == 3 && default is Some && k < default->0@.len() {
            Some((default->0@[k], protected))
        } else {
            None
        },
        _ => None,
    }
}

/// The expression reached from `node` by following `path`, with the
/// protections it sees.
pub open spec fn node_at<S>(
    node: ActionNode<S>,
    protected: Seq<(Seq<u8>, &'static str)>,
    path: Seq<(nat, nat, nat)>,
) -> Option<(ActionNode<S>, Seq<(Seq<u8>, &'static str)>)>
    decreases path.len(),
{
    if path.len() == 0 {
        Some((node, protected))
    } else {
        match step_into(node, protected, path[0].0, path[0].1, path[0].2) {
            Some((child, inner)) => node_at(child, inner, path.drop_first()),
            None => None,
        }
    }
}

/// Whether `node` binds a variable that `protected` protects: a `bind` call
/// whose first argument is a local variable whose name, without its `$?`
/// prefix, is one of the protected names.
pub open spec fn binds_protected<S>(node: ActionNode<S>, protected: Seq<(Seq<u8>, &'static str)>) -> bool {
    match node {
        ActionNode::Call { name, args } => name@ == bind_name() && args@.len() > 0 && match args@[0] {
            ActionNode::Variable { name: var, .. } => exists|j: int|
                0 <= j < protected.len() && (#[trigger] protected[j]).0 == spec_binding_name(var@),
            _ => false,
        },
        _ => false,
    }
}

proof fn lemma_innermost_found(protected: Seq<(Seq<u8>, &'static str)>, name: Seq<u8>, j: int)
    requires
        0 <= j < protected.len(),
        protected[j].0 == name,
    ensures
        innermost(protected, name) is Some,
    decreases protected.len(),
{
    if protected.last().0 != name {
        assert(j < protected.len() - 1);
        assert(protected.drop_last()[j] == protected[j]);
        lemma_innermost_found(protected.drop_last(), name, j);
    }
}

proof fn lemma_body_reports<S>(body: Vec<ActionNode<S>>, i: int, k: int, protected: Seq<(Seq<u8>, &'static str)>)
    requires
        0 <= i <= k < body@.len(),
        check_node(body@[k], protected) is Some,
    ensures
        check_body(body, i, protected) is Some,
    decreases k - i,
{
    if i < k {
        lemma_body_reports(body, i + 1, k, protected);
    }
}

proof fn lemma_cases_report<S>(
    cases: Vec<(ActionNode<S>, Vec<ActionNode<S>>)>,
    i: int,
    c: int,
    protected: Seq<(Seq<u8>, &'static str)>,
)
    requires
        0 <= i <= c < cases@.len(),
        check_node(cases@[c].0, protected) is Some || check_body(cases@[c].1, 0, protected) is Some,
    ensures
        check_cases(cases, i, protected) is Some,
    decreases c - i,
{
    if i < c {
        lemma_cases_report(cases, i + 1, c, protected);
    }
}

/// A rebind in a sub-expression is a rebind of the expression.
proof fn lemma_step_reports<S>(node: ActionNode<S>, protected: Seq<(Seq<u8>, &'static str)>, part: nat, case: nat, index: nat)
    requires
        step_into(node, protected, part, case, index) matches Some((child, inner)) && check_node(child, inner) is Some,
    ensures
        check_node(node, protected) is Some,
{
    let k = index as int;
    match node {
        ActionNode::Call { args, .. } => {
            lemma_body_reports(args, 0, k, protected);
        },
        ActionNode::If { condition, then_actions, else_actions } => {
            if part == 1 {
                lemma_body_reports(then_actions, 0, k, protected);
            } else if part == 2 {
                lemma_body_reports(else_actions, 0, k, protected);
            }
        },
        ActionNode::While { condition, body } => {
            if part == 1 {
                lemma_body_reports(body, 0, k, protected);
            }
        },
        ActionNode::LoopForCount { var_name, start, end, body } => {
            if part == 2 {
                let inner = protect(
                    protected,
                    match var_name {
                        Some(n) => Some(n@),
                        None => None,
                    },
                    loop_for_count_code(),
                );
                lemma_body_reports(body, 0, k, inner);
            }
        },
        ActionNode::Progn { var_name, list_expr, body } => {
            if part == 1 {
                lemma_body_reports(body, 0, k, protect(protected, Some(var_name@), progn_code()));
            }
        },
        ActionNode::QueryAction { query, body } => {
            if part == 1 {
                lemma_body_reports(body, 0, k, protected);
            }
        },
        ActionNode::Switch { expr, cases, default } => {
            if part == 1 {
                lemma_cases_report(cases, 0, case as int, protected);
            } else if part == 2 {
                lemma_body_reports(cases@[case as int].1, 0, k, protected);
                lemma_cases_report(cases, 0, case as int, protected);
            } else if part == 3 {
                lemma_body_reports(default->0, 0, k, protected);
            }
        },
        _ => {},
    }
}

/// No bind of a protected variable escapes the check: wherever it stands in
/// an expression (a condition, a then- or else-action, a loop body item, a
/// call argument, a switch test, case or default, at any depth), a `bind`
/// of a variable protected at that point makes the check of the whole
/// expression report a rebind.
pub proof fn lemma_protected_bind_is_reported<S>(
    node: ActionNode<S>,
    protected: Seq<(Seq<u8>, &'static str)>,
    path: Seq<(nat, nat, nat)>,
)
    requires
        node_at(node, protected, path) matches Some((e, q)) && binds_protected(e, q),
    ensures
        check_node(node, protected) is Some,
    decreases path.len(),
{
    if path.len() == 0 {
        if let ActionNode::Call { name, args } = node {
            if let ActionNode::Variable { name: var, .. } = args@[0] {
                let j = choose|j: int| 0 <= j < protected.len() && (#[trigger] protected[j]).0 == spec_binding_name(var@);
                lemma_innermost_found(protected, spec_binding_name(var@), j);
            }
        }
    } else {
        let (child, inner) = step_into(node, protected, path[0].0, path[0].1, path[0].2)->0;
        lemma_protected_bind_is_reported(child, inner, path.drop_first());
        lemma_step_reports(node, protected, path[0].0, path[0].1, path[0].2);
    }
}

/// The same for a whole action body: a bind of a protected variable in any
/// of its expressions, at any depth, makes `validate_iterator_binds` fail.
pub proof fn lemma_body_protected_bind_is_reported<S>(
    body: Vec<ActionNode<S>>,
    protected: Seq<(Seq<u8>, &'static str)>,
    k: int,
    path: Seq<(nat, nat, nat)>,
)
    requires
        0 <= k < body@.len(),
        node_at(body@[k], protected, path) matches Some((e, q)) && binds_protected(e, q),
    ensures
        check_body(body, 0, protected) is Some,
{
    lemma_protected_bind_is_reported(body@[k], protected, path);
    lemma_body_reports(body, 0, k, protected);
}

proof fn lemma_body_found<S>(body: Vec<ActionNode<S>>, i: int, protected: Seq<(Seq<u8>, &'static str)>) -> (k: int)
    requires
        check_body(body, i, protected) is Some,
    ensures
        0 <= i <= k < body@.len(),
        check_node(body@[k], protected) is Some,
    decreases body@.len() - i,
{
    if check_node(body@[i], protected) is Some {
        i
    } else {
        lemma_body_found(body, i + 1, protected)
    }
}

proof fn lemma_innermost_is_protected(protected: Seq<(Seq<u8>, &'static str)>, name: Seq<u8>) -> (j: int)
    requires
        innermost(protected, name) is Some,
    ensures
        0 <= j < protected.len(),
        protected[j].0 == name,
    decreases protected.len(),
{
    if protected.last().0 == name {
        protected.len() - 1
    } else {
        let j = lemma_innermost_is_protected(protected.drop_last(), name);
        assert(protected.drop_last()[j] == protected[j]);
        j
    }
}

/// Every reported rebind is real: when the check of an expression reports
/// one, some path inside the expression leads to a `bind` of a variable
/// that is protected at that point.
pub proof fn lemma_reported_rebind_is_real<S>(node: ActionNode<S>, protected: Seq<(Seq<u8>, &'static str)>) -> (path: Seq<
    (nat, nat, nat),
>)
    requires
        check_node(node, protected) is Some,
    ensures
        node_at(node, protected, path) matches Some((e, q)) && binds_protected(e, q),
    decreases node,
{
    match node {
        ActionNode::Call { name, args } => {
            if call_rebind(name@, args@, protected) is Some {
                if let ActionNode::Variable { name: var, .. } = args@[0] {
                    let j = lemma_innermost_is_protected(protected, spec_binding_name(var@));
                    assert(protected[j].0 == spec_binding_name(var@));
                }
                Seq::empty()
            } else {
                let k = lemma_body_found(args, 0, protected);
                let rest = lemma_reported_rebind_is_real(args@[k], protected);
                let path = seq![(0nat, 0nat, k as nat)] + rest;
                assert(path.drop_first() =~= rest);
                path
            }
        },
        ActionNode::If { condition, then_actions, else_actions } => {
            if check_node(*condition, protected) is Some {
                let rest = lemma_reported_rebind_is_real(*condition, protected);
                let path = seq![(0nat, 0nat, 0nat)] + rest;
                assert(path.drop_first() =~= rest);
                path
            } else if check_body(then_actions, 0, protected) is Some {
                let k = lemma_body_found(then_actions, 0, protected);
                let rest = lemma_reported_rebind_is_real(then_actions@[k], protected);
                let path = seq![(1nat, 0nat, k as nat)] + rest;
                assert(path.drop_first() =~= rest);
                path
            } else {
                let k = lemma_body_found(else_actions, 0, protected);
                let rest = lemma_reported_rebind_is_real(else_actions@[k], protected);
                let path = seq![(2nat, 0nat, k as nat)] + rest;
                assert(path.drop_first() =~= rest);
                path
            }
        },
        ActionNode::While { condition, body } => {
            if check_node(*condition, protected) is Some {
                let rest = lemma_reported_rebind_is_real(*condition, protected);
                let path = seq![(0nat, 0nat, 0nat)] + rest;
                assert(path.drop_first() =~= rest);
                path
            } else {
                let k = lemma_body_found(body, 0, protected);
                let rest = lemma_reported_rebind_is_real(body@[k], protected);
                let path = seq![(1nat, 0nat, k as nat)] + rest;
                assert(path.drop_first() =~= rest);
                path
            }
        },
        ActionNode::LoopForCount { var_name, start, end, body } => {
            if check_node(*start, protected) is Some {
                let rest = lemma_reported_rebind_is_real(*start, protected);
                let path = seq![(0nat, 0nat, 0nat)] + rest;
                assert(path.drop_first() =~= rest);
                path
            } else if check_node(*end, protected) is Some {
                let rest = lemma_reported_rebind_is_real(*end, protected);
                let path = seq![(1nat, 0nat, 0nat)] + rest;
                assert(path.drop_first() =~= rest);
                path
            } else {
                let inner = protect(
                    protected,
                    match var_name {
                        Some(n) => Some(n@),
                        None => None,
                    },
                    loop_for_count_code(),
                );
                let k = lemma_body_found(body, 0, inner);
                let rest = lemma_reported_rebind_is_real(body@[k], inner);
                let path = seq![(2nat, 0nat, k as nat)] + rest;
                assert(path.drop_first() =~= rest);
                path
            }
        },
        ActionNode::Progn { var_name, list_expr, body } => {
            if check_node(*list_expr, protected) is Some {
                let rest = lemma_reported_rebind_is_real(*list_expr, protected);
                let path = seq![(0nat, 0nat, 0nat)] + rest;
                assert(path.drop_first() =~= rest);
                path
            } else {
                let inner = protect(protected, Some(var_name@), progn_code());
                let k = lemma_body_found(body, 0, inner);
                let rest = lemma_reported_rebind_is_real(body@[k], inner);
                let path = seq![(1nat, 0nat, k as nat)] + rest;
                assert(path.drop_first() =~= rest);
                path
            }
        },
        ActionNode::QueryAction { query, body } => {
            if check_node(*query, protected) is Some {
                let rest = lemma_reported_rebind_is_real(*query, protected);
                let path = seq![(0nat, 0nat, 0nat)] + rest;
                assert(path.drop_first() =~= rest);
                path
            } else {
                let k = lemma_body_found(body, 0, protected);
                let rest = lemma_reported_rebind_is_real(body@[k], protected);
                let path = seq![(1nat, 0nat, k as nat)] + rest;
                assert(path.drop_first() =~= rest);
                path
            }
        },
        ActionNode::Switch { expr, cases, default } => {
            if check_node(*expr, protected) is Some {
                let rest = lemma_reported_rebind_is_real(*expr, protected);
                let path = seq![(0nat, 0nat, 0nat)] + rest;
                assert(path.drop_first() =~= rest);
                path
            } else if check_cases(cases, 0, protected) is Some {
                let (c, in_test) = lemma_cases_found(cases, 0, protected);
                assert(decreases_to!(cases => cases@[c]));
                if in_test {
                    let rest = lemma_reported_rebind_is_real(cases@[c].0, protected);
                    let path = seq![(1nat, c as nat, 0nat)] + rest;
                    assert(path.drop_first() =~= rest);
                    path
                } else {
                    let k = lemma_body_found(cases@[c].1, 0, protected);
                    let rest = lemma_reported_rebind_is_real(cases@[c].1@[k], protected);
                    let path = seq![(2nat, c as nat, k as nat)] + rest;
                    assert(path.drop_first() =~= rest);
                    path
                }
            } else {
                let body = default->0;
                let k = lemma_body_found(body, 0, protected);
                let rest = lemma_reported_rebind_is_real(body@[k], protected);
                let path = seq![(3nat, 0nat, k as nat)] + rest;
                assert(path.drop_first() =~= rest);
                path
            }
        },
        _ => Seq::empty(),
    }
}

proof fn lemma_cases_found<S>(
    cases: Vec<(ActionNode<S>, Vec<ActionNode<S>>)>,
    i: int,
    protected: Seq<(Seq<u8>, &'static str)>,
) -> (found: (int, bool))
    requires
        check_cases(cases, i, protected) is Some,
    ensures
        0 <= i <= found.0 < cases@.len(),
        found.1 ==> check_node(cases@[found.0].0, protected) is Some,
        !found.1 ==> check_body(cases@[found.0].1, 0, protected) is Some,
    decreases cases@.len() - i,
{
    if check_node(cases@[i].0, protected) is Some {
        (i, true)
    } else if check_body(cases@[i].1, 0, protected) is Some {
        (i, false)
    } else {
        lemma_cases_found(cases, i + 1, protected)
    }
}

} // verus!
