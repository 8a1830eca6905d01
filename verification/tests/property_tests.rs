// Property-oriented tests: order independence of definition and call,
// silent skipping of never-defined names, idempotence, exact message
// formatting, and the ordering of accumulated diagnostics.

use call_checker::ast::ContractAnalysis;
use call_checker::ast::Expr;
use call_checker::ast::ExprKind;
use call_checker::ast::Span;
use call_checker::ast::TypedVar;
use call_checker::checker::CallChecker;
use call_checker::diagnostic::Diagnostic;
use call_checker::diagnostic::Level;

fn sp(start_line: u32, start_column: u32, end_line: u32, end_column: u32) -> Span {
    Span { start_line, start_column, end_line, end_column }
}

fn atom(line: u32, start_column: u32, end_column: u32) -> Expr {
    Expr { span: sp(line, start_column, line, end_column), kind: ExprKind::Other { children: vec![] } }
}

fn user_call(span: Span, name: &str, args: Vec<Expr>) -> Expr {
    Expr { span, kind: ExprKind::UserCall { name: name.to_string(), args } }
}

/// A definition of `name` with the given parameters and a leaf body.
fn define_private(span: Span, name: &str, parameters: Option<Vec<TypedVar>>, body: Expr) -> Expr {
    Expr {
        span,
        kind: ExprKind::DefinePrivate {
            name: name.to_string(),
            parameters,
            body: Box::new(body),
        },
    }
}

fn params(count: u32) -> Option<Vec<TypedVar>> {
    let mut list = Vec::new();
    for k in 0..count {
        list.push(TypedVar { name: format!("p{}", k), type_expr: "uint".to_string() });
    }
    Some(list)
}

fn program(expressions: Vec<Expr>) -> ContractAnalysis {
    ContractAnalysis { expressions }
}

fn messages(diagnostics: &[Diagnostic]) -> Vec<String> {
    diagnostics.iter().map(|d| d.message.clone()).collect()
}

#[test]
fn call_before_definition_matching_succeeds() {
    let contract = program(vec![
        user_call(sp(1, 1, 1, 10), "foo", vec![atom(1, 6, 7)]),
        define_private(sp(2, 1, 2, 30), "foo", params(1), atom(2, 20, 25)),
    ]);
    match CallChecker::run_pass(&contract) {
        Ok(result) => assert_eq!(result.len(), 0),
        _ => panic!("expected success for a matching forward call"),
    }
}

#[test]
fn order_independent_message_text() {
    let early = program(vec![
        user_call(sp(1, 1, 1, 14), "foo", vec![atom(1, 6, 7), atom(1, 9, 10)]),
        define_private(sp(2, 1, 2, 30), "foo", params(1), atom(2, 20, 25)),
    ]);
    let late = program(vec![
        define_private(sp(1, 1, 1, 30), "foo", params(1), atom(1, 20, 25)),
        user_call(sp(5, 3, 5, 16), "foo", vec![atom(5, 8, 9), atom(5, 11, 12)]),
    ]);
    let early_diags = match CallChecker::run_pass(&early) {
        Err(d) => d,
        _ => panic!("expected error for a mismatched forward call"),
    };
    let late_diags = match CallChecker::run_pass(&late) {
        Err(d) => d,
        _ => panic!("expected error for a mismatched backward call"),
    };
    assert_eq!(early_diags.len(), 1);
    assert_eq!(late_diags.len(), 1);
    // Identical message text; the spans differ only by source position.
    assert_eq!(early_diags[0].message, late_diags[0].message);
    assert_eq!(
        early_diags[0].message,
        "incorrect number of arguments in call to 'foo' (expected 1 got 2)"
    );
    assert_eq!(early_diags[0].spans[0], sp(1, 1, 1, 14));
    assert_eq!(late_diags[0].spans[0], sp(5, 3, 5, 16));
}

#[test]
fn never_defined_name_is_skipped() {
    let contract = program(vec![
        user_call(sp(1, 1, 1, 20), "missing", vec![atom(1, 10, 11), atom(1, 13, 14)]),
        define_private(sp(2, 1, 2, 30), "foo", params(1), atom(2, 20, 25)),
    ]);
    match CallChecker::run_pass(&contract) {
        Ok(result) => assert_eq!(result.len(), 0),
        _ => panic!("a call to a never-defined name must not fail this pass"),
    }
}

#[test]
fn running_twice_yields_identical_outcomes() {
    let contract = program(vec![
        define_private(sp(1, 1, 1, 30), "foo", params(2), atom(1, 20, 25)),
        user_call(sp(3, 1, 3, 10), "foo", vec![atom(3, 6, 7)]),
    ]);
    let first = CallChecker::run_pass(&contract);
    let second = CallChecker::run_pass(&contract);
    match (first, second) {
        (Err(a), Err(b)) => {
            assert_eq!(messages(&a), messages(&b));
            assert_eq!(a.len(), b.len());
            assert_eq!(a[0].spans[0], b[0].spans[0]);
        }
        _ => panic!("both runs must fail identically"),
    }
}

#[test]
fn multi_digit_counts_in_message() {
    let contract = program(vec![
        define_private(sp(1, 1, 1, 80), "wide", params(12), atom(1, 70, 75)),
        user_call(sp(2, 1, 2, 8), "wide", vec![]),
    ]);
    match CallChecker::run_pass(&contract) {
        Err(diagnostics) => {
            assert_eq!(diagnostics.len(), 1);
            assert_eq!(
                diagnostics[0].message,
                "incorrect number of arguments in call to 'wide' (expected 12 got 0)"
            );
        }
        _ => panic!("expected error for a mismatched call"),
    }
}

#[test]
fn absent_parameter_list_means_zero() {
    let ok = program(vec![
        define_private(sp(1, 1, 1, 20), "nullary", None, atom(1, 15, 18)),
        user_call(sp(2, 1, 2, 10), "nullary", vec![]),
    ]);
    match CallChecker::run_pass(&ok) {
        Ok(result) => assert_eq!(result.len(), 0),
        _ => panic!("a zero-argument call to a parameterless function must pass"),
    }
    let bad = program(vec![
        define_private(sp(1, 1, 1, 20), "nullary", None, atom(1, 15, 18)),
        user_call(sp(2, 1, 2, 13), "nullary", vec![atom(2, 10, 11)]),
    ]);
    match CallChecker::run_pass(&bad) {
        Err(diagnostics) => {
            assert_eq!(diagnostics.len(), 1);
            assert_eq!(
                diagnostics[0].message,
                "incorrect number of arguments in call to 'nullary' (expected 0 got 1)"
            );
        }
        _ => panic!("expected error for an argument to a parameterless function"),
    }
}

#[test]
fn last_definition_wins_on_collision() {
    let contract = program(vec![
        define_private(sp(1, 1, 1, 30), "foo", params(1), atom(1, 20, 25)),
        define_private(sp(2, 1, 2, 30), "foo", params(2), atom(2, 20, 25)),
        user_call(sp(3, 1, 3, 14), "foo", vec![atom(3, 6, 7), atom(3, 9, 10)]),
    ]);
    match CallChecker::run_pass(&contract) {
        Ok(result) => assert_eq!(result.len(), 0),
        _ => panic!("the call matches the most recent definition"),
    }
}

#[test]
fn diagnostics_ordered_immediate_then_deferred() {
    // `foo` is mismatched immediately; `bar` is deferred and found at
    // reconciliation, although its call precedes `foo`'s in the source.
    let contract = program(vec![
        user_call(sp(1, 1, 1, 16), "bar", vec![atom(1, 6, 7), atom(1, 9, 10), atom(1, 12, 13)]),
        define_private(sp(2, 1, 2, 30), "foo", params(1), atom(2, 20, 25)),
        user_call(sp(3, 1, 3, 14), "foo", vec![atom(3, 6, 7), atom(3, 9, 10)]),
        define_private(sp(4, 1, 4, 30), "bar", params(1), atom(4, 20, 25)),
    ]);
    match CallChecker::run_pass(&contract) {
        Err(diagnostics) => {
            assert_eq!(diagnostics.len(), 2);
            assert_eq!(
                diagnostics[0].message,
                "incorrect number of arguments in call to 'foo' (expected 1 got 2)"
            );
            assert_eq!(
                diagnostics[1].message,
                "incorrect number of arguments in call to 'bar' (expected 1 got 3)"
            );
        }
        _ => panic!("expected two mismatch diagnostics"),
    }
}

#[test]
fn calls_inside_definition_bodies_are_visited() {
    // The mismatched call sits inside `main`'s body, and its target is
    // defined after `main`: found at reconciliation.
    let inner_call = user_call(sp(2, 5, 2, 18), "helper", vec![atom(2, 13, 14)]);
    let contract = program(vec![
        define_private(sp(1, 1, 3, 1), "main", None, inner_call),
        define_private(sp(4, 1, 4, 40), "helper", params(2), atom(4, 30, 35)),
    ]);
    match CallChecker::run_pass(&contract) {
        Err(diagnostics) => {
            assert_eq!(diagnostics.len(), 1);
            assert_eq!(
                diagnostics[0].message,
                "incorrect number of arguments in call to 'helper' (expected 2 got 1)"
            );
            assert_eq!(diagnostics[0].spans[0], sp(2, 5, 2, 18));
        }
        _ => panic!("expected one diagnostic for the nested call"),
    }
}

#[test]
fn call_arguments_are_visited() {
    // A mismatched call nested inside another call's argument list.
    let inner = user_call(sp(1, 10, 1, 20), "inner", vec![atom(1, 17, 18)]);
    let contract = program(vec![
        define_private(sp(2, 1, 2, 30), "inner", None, atom(2, 20, 25)),
        define_private(sp(3, 1, 3, 30), "outer", params(1), atom(3, 20, 25)),
        user_call(sp(1, 1, 1, 21), "outer", vec![inner]),
    ]);
    match CallChecker::run_pass(&contract) {
        Err(diagnostics) => {
            assert_eq!(diagnostics.len(), 1);
            assert_eq!(
                diagnostics[0].message,
                "incorrect number of arguments in call to 'inner' (expected 0 got 1)"
            );
        }
        _ => panic!("expected one diagnostic for the argument call"),
    }
}

#[test]
fn generated_diagnostic_shape() {
    let mut checker = CallChecker::new();
    let span = sp(7, 9, 7, 19);
    let diagnostic = checker.generate_diagnostic(span, &"foo".to_string(), 1, 2);
    assert_eq!(
        diagnostic.message,
        "incorrect number of arguments in call to 'foo' (expected 1 got 2)"
    );
    assert!(matches!(diagnostic.level, Level::Error));
    assert_eq!(diagnostic.spans.len(), 1);
    assert_eq!(diagnostic.spans[0], span);
    assert!(diagnostic.suggestion.is_none());
}
