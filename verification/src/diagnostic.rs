//! Diagnostics: the structured findings the pass reports.
//!
//! The pass produces error-severity diagnostics only, each with exactly one
//! span (the full extent of the offending call expression), the exact
//! message stated by `arity_message`, and never a suggestion.  Rendering the
//! diagnostic into user-facing output is a downstream collaborator's job.

use vstd::prelude::*;
use vstd::string::StringExecFns;
use crate::ast::Span;

verus! {

/// The severity of a diagnostic.  This pass only ever emits `Error`.
#[derive(Clone, Copy, Debug, PartialEq, Eq, Structural)]
pub enum Level {
    Note,
    Warning,
    Error,
}

/// A structured, renderable analysis finding.
pub struct Diagnostic {
    pub level: Level,
    pub message: String,
    pub spans: Vec<Span>,
    pub suggestion: Option<String>,
}

/// The mathematical value of a [`Diagnostic`]: the same fields with the
/// strings as character sequences.
pub struct DiagnosticModel {
    pub level: Level,
    pub message: Seq<char>,
    pub spans: Seq<Span>,
    pub suggestion: Option<Seq<char>>,
}

impl View for Diagnostic {
    type V = DiagnosticModel;

    open spec fn view(&self) -> DiagnosticModel {
        DiagnosticModel {
            level: self.level,
            message: self.message@,
            spans: self.spans@,
            suggestion: match self.suggestion {
                Some(ref s) => Some(s@),
                None => None,
            },
        }
    }
}

/// The decimal digit character for `d`, which must be below ten.
pub open spec fn digit_char(d: nat) -> char {
    if d == 0 { '0' }
    else if d == 1 { '1' }
    else if d == 2 { '2' }
    else if d == 3 { '3' }
    else if d == 4 { '4' }
    else if d == 5 { '5' }
    else if d == 6 { '6' }
    else if d == 7 { '7' }
    else if d == 8 { '8' }
    else { '9' }
}

/// The decimal rendering of `n`, without leading zeros (a single `'0'` for
/// zero itself).
pub open spec fn spec_decimal(n: nat) -> Seq<char>
    decreases n,
{
    if n < 10 {
        seq![digit_char(n)]
    } else {
        spec_decimal(n / 10).push(digit_char(n % 10))
    }
}

/// The exact message of an arity-mismatch diagnostic for a call to `name`
/// that supplied `got` arguments where the definition declares `expected`.
pub open spec fn arity_message(name: Seq<char>, expected: nat, got: nat) -> Seq<char> {
    "incorrect number of arguments in call to '"@ + name + "' (expected "@ + spec_decimal(expected)
        + " got "@ + spec_decimal(got) + ")"@
}

/// The one diagnostic this pass ever emits: an error with the exact
/// arity-mismatch message, spanning the whole call expression, with no
/// suggestion attached.
pub open spec fn arity_diagnostic(span: Span, name: Seq<char>, expected: nat, got: nat)
    -> DiagnosticModel {
    DiagnosticModel {
        level: Level::Error,
        message: arity_message(name, expected, got),
        spans: seq![span],
        suggestion: None,
    }
}

/// Appends the decimal rendering of `n` to `out`.
pub fn push_decimal(out: &mut String, n: usize)
    ensures
        final(out)@ == old(out)@ + spec_decimal(n as nat),
    decreases n,
{
    if n >= 10 {
        push_decimal(out, n / 10);
    }
    let d: usize = n % 10;
    let digit: &str = if d == 0 { "0" }
        else if d == 1 { "1" }
        else if d == 2 { "2" }
        else if d == 3 { "3" }
        else if d == 4 { "4" }
        else if d == 5 { "5" }
        else if d == 6 { "6" }
        else if d == 7 { "7" }
        else if d == 8 { "8" }
        else { "9" };
    proof {
        reveal_strlit("0");
        reveal_strlit("1");
        reveal_strlit("2");
        reveal_strlit("3");
        reveal_strlit("4");
        reveal_strlit("5");
        reveal_strlit("6");
        reveal_strlit("7");
        reveal_strlit("8");
        reveal_strlit("9");
        assert(digit@ =~= seq![digit_char((n % 10) as nat)]);
    }
    out.append(digit);
    proof {
        assert(out@ =~= old(out)@ + spec_decimal(n as nat));
    }
}

} // verus!
