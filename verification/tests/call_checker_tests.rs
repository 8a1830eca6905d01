// Tests drive the pass the way the enclosing pipeline would: a parsed
// program tree goes in, and the diagnostics that come out are rendered the
// way the downstream reporting subsystem prints them, one header line, the
// offending source line, and an underline per diagnostic.

use call_checker::ast::ContractAnalysis;
use call_checker::ast::Expr;
use call_checker::ast::ExprKind;
use call_checker::ast::Span;
use call_checker::ast::TypedVar;
use call_checker::checker::CallChecker;
use call_checker::diagnostic::Diagnostic;
use call_checker::diagnostic::Level;

fn sp(start_line: u32, start_column: u32, end_line: u32, end_column: u32) -> Span {
    Span { start_line, start_column, end_line, end_column }
}

/// An atom or literal: a leaf the pass does not recognize.
fn atom(line: u32, start_column: u32, end_column: u32) -> Expr {
    Expr { span: sp(line, start_column, line, end_column), kind: ExprKind::Other { children: vec![] } }
}

/// A built-in application such as `(ok ...)`: unrecognized, visited only
/// for its children.
fn builtin(span: Span, children: Vec<Expr>) -> Expr {
    Expr { span, kind: ExprKind::Other { children } }
}

fn user_call(span: Span, name: &str, args: Vec<Expr>) -> Expr {
    Expr { span, kind: ExprKind::UserCall { name: name.to_string(), args } }
}

fn typed_var(name: &str, type_expr: &str) -> TypedVar {
    TypedVar { name: name.to_string(), type_expr: type_expr.to_string() }
}

fn level_text(level: Level) -> &'static str {
    match level {
        Level::Note => "note",
        Level::Warning => "warning",
        Level::Error => "error",
    }
}

/// Renders diagnostics the way the reporting subsystem prints them: a
/// `<contract>:<line>:<column>: <level>: <message>` header, the offending
/// source line, and a `^~~~` underline covering the span's columns.
fn render(contract: &str, snippet: &str, diagnostics: &[Diagnostic]) -> Vec<String> {
    let mut output = Vec::new();
    for d in diagnostics {
        let s = &d.spans[0];
        output.push(format!(
            "{}:{}:{}: {}: {}",
            contract,
            s.start_line,
            s.start_column,
            level_text(d.level),
            d.message
        ));
        let line = snippet
            .lines()
            .nth((s.start_line - 1) as usize)
            .unwrap_or("")
            .to_string();
        output.push(line);
        let underline = format!(
            "{}^{}",
            " ".repeat((s.start_column - 1) as usize),
            "~".repeat((s.end_column - s.start_column) as usize)
        );
        output.push(underline);
    }
    output
}

/// The tree of:
/// ```text
/// (<define_kind> (foo (amount uint))
///     (ok amount)
/// )
///
/// (define-public (main)
///     (ok <main_body_call>)
/// )
/// ```
/// with the call in `main`'s body supplied by the caller.
fn foo_then_main(define_foo: ExprKind, call_in_main: Expr) -> ContractAnalysis {
    let ok_span = call_in_main.span;
    let ok_wrapper = builtin(
        sp(ok_span.start_line, 5, ok_span.start_line, ok_span.end_column + 1),
        vec![call_in_main],
    );
    ContractAnalysis {
        expressions: vec![
            Expr { span: sp(2, 1, 4, 1), kind: define_foo },
            Expr {
                span: sp(6, 1, 8, 1),
                kind: ExprKind::DefinePublic {
                    name: "main".to_string(),
                    parameters: None,
                    body: Box::new(ok_wrapper),
                },
            },
        ],
    }
}

fn define_foo_one_param(kind: &str) -> ExprKind {
    let name = "foo".to_string();
    let parameters = Some(vec![typed_var("amount", "uint")]);
    let body = Box::new(builtin(sp(3, 5, 3, 15), vec![atom(3, 9, 14)]));
    match kind {
        "private" => ExprKind::DefinePrivate { name, parameters, body },
        "public" => ExprKind::DefinePublic { name, parameters, body },
        _ => ExprKind::DefineReadOnly { name, parameters, body },
    }
}

#[test]
fn define_private() {
    let snippet = "
(define-private (foo (amount uint))
    (ok amount)
)

(define-public (main)
    (ok (foo u1 u2))
)
"
    .to_string();
    let foo_call = user_call(sp(7, 9, 7, 19), "foo", vec![atom(7, 14, 15), atom(7, 17, 18)]);
    let contract = foo_then_main(define_foo_one_param("private"), foo_call);
    match CallChecker::run_pass(&contract) {
        Err(diagnostics) => {
            let output = render("checker", &snippet, &diagnostics);
            assert_eq!(output.len(), 3);
            assert_eq!(
                output[0],
                format!(
                    "checker:7:9: {}: incorrect number of arguments in call to 'foo' (expected 1 got 2)",
                    "error"
                )
            );
            assert_eq!(output[1], "    (ok (foo u1 u2))");
            assert_eq!(output[2], "        ^~~~~~~~~~~");
        }
        _ => panic!("Expected error"),
    };
}

#[test]
fn define_read_only() {
    let snippet = "
(define-read-only (foo (amount uint))
    (ok amount)
)

(define-public (main)
    (ok (foo))
)
"
    .to_string();
    let foo_call = user_call(sp(7, 9, 7, 13), "foo", vec![]);
    let contract = foo_then_main(define_foo_one_param("read-only"), foo_call);
    match CallChecker::run_pass(&contract) {
        Err(diagnostics) => {
            let output = render("checker", &snippet, &diagnostics);
            assert_eq!(output.len(), 3);
            assert_eq!(
                output[0],
                format!(
                    "checker:7:9: {}: incorrect number of arguments in call to 'foo' (expected 1 got 0)",
                    "error"
                )
            );
            assert_eq!(output[1], "    (ok (foo))");
            assert_eq!(output[2], "        ^~~~~");
        }
        _ => panic!("Expected error"),
    };
}

#[test]
fn define_public() {
    let snippet = "
(define-public (foo (amount uint))
    (ok amount)
)

(define-public (main)
    (ok (foo u1 u2))
)
"
    .to_string();
    let foo_call = user_call(sp(7, 9, 7, 19), "foo", vec![atom(7, 14, 15), atom(7, 17, 18)]);
    let contract = foo_then_main(define_foo_one_param("public"), foo_call);
    match CallChecker::run_pass(&contract) {
        Err(diagnostics) => {
            let output = render("checker", &snippet, &diagnostics);
            assert_eq!(output.len(), 3);
            assert_eq!(
                output[0],
                format!(
                    "checker:7:9: {}: incorrect number of arguments in call to 'foo' (expected 1 got 2)",
                    "error"
                )
            );
            assert_eq!(output[1], "    (ok (foo u1 u2))");
            assert_eq!(output[2], "        ^~~~~~~~~~~");
        }
        _ => panic!("Expected error"),
    };
}

#[test]
fn correct_call() {
    let foo_call = user_call(sp(7, 9, 7, 16), "foo", vec![atom(7, 14, 15)]);
    let contract = foo_then_main(define_foo_one_param("private"), foo_call);
    match CallChecker::run_pass(&contract) {
        Ok(result) => {
            assert_eq!(result.len(), 0);
        }
        _ => panic!("Expected successful interpretation"),
    };
}
