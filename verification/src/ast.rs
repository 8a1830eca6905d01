//! The parsed program handed to the pass, and the traversal events it yields.
//!
//! The tree is produced by an upstream parser; the pass borrows it and never
//! mutates it.  Only the node kinds the pass recognizes are distinguished:
//! the three function-definition forms, calls whose target is statically
//! known to be a user-defined function, and everything else, which is
//! visited only for the nodes it contains.

use vstd::prelude::*;

verus! {

/// The source extent of one expression, line/column based, end inclusive.
#[derive(Clone, Copy, Debug, PartialEq, Eq, Structural)]
pub struct Span {
    pub start_line: u32,
    pub start_column: u32,
    pub end_line: u32,
    pub end_column: u32,
}

/// One parameter of a function definition's signature: its name and the
/// source text of its declared type.  The pass only ever counts these.
#[derive(Debug)]
pub struct TypedVar {
    pub name: String,
    pub type_expr: String,
}

/// One node of the parsed expression tree.
pub struct Expr {
    pub span: Span,
    pub kind: ExprKind,
}

/// The node kinds the traversal distinguishes.  The recognized set is
/// closed, so a match over it is checked for exhaustiveness.
pub enum ExprKind {
    /// `(define-private (name params...) body)`
    DefinePrivate { name: String, parameters: Option<Vec<TypedVar>>, body: Box<Expr> },
    /// `(define-public (name params...) body)`
    DefinePublic { name: String, parameters: Option<Vec<TypedVar>>, body: Box<Expr> },
    /// `(define-read-only (name params...) body)`
    DefineReadOnly { name: String, parameters: Option<Vec<TypedVar>>, body: Box<Expr> },
    /// A call whose target is a user-defined (not built-in) function.
    UserCall { name: String, args: Vec<Expr> },
    /// Any other form: an atom, a literal, or a built-in operation applied
    /// to the given children.
    Other { children: Vec<Expr> },
}

/// A parsed contract as handed to an analysis pass: its top-level
/// expressions in source order.
pub struct ContractAnalysis {
    pub expressions: Vec<Expr>,
}

/// What one visit of a recognized node reports: either a definition with
/// its declared parameter count, or a call with its span and argument
/// count.  The sequence of events, in visitation order, is all the pass
/// ever learns from the tree.
pub enum Event {
    Define { name: Seq<char>, params: nat },
    Call { name: Seq<char>, span: Span, args: nat },
}

/// The declared parameter count of a definition: zero when no parameter
/// list is present, else the list's length.
pub open spec fn spec_param_count(parameters: Option<Vec<TypedVar>>) -> nat {
    match parameters {
        Some(ps) => ps@.len(),
        None => 0,
    }
}

/// The events a pre-order traversal of one node reports, in order: the
/// node's own event, if it is a recognized form, followed by the events of
/// its children, left to right.
pub open spec fn expr_events(e: Expr) -> Seq<Event>
    decreases e,
{
    match e.kind {
        ExprKind::DefinePrivate { name, parameters, body } => seq![
            Event::Define { name: name@, params: spec_param_count(parameters) },
        ] + expr_events(*body),
        ExprKind::DefinePublic { name, parameters, body } => seq![
            Event::Define { name: name@, params: spec_param_count(parameters) },
        ] + expr_events(*body),
        ExprKind::DefineReadOnly { name, parameters, body } => seq![
            Event::Define { name: name@, params: spec_param_count(parameters) },
        ] + expr_events(*body),
        ExprKind::UserCall { name, args } => seq![
            Event::Call { name: name@, span: e.span, args: args@.len() },
        ] + exprs_events(args@),
        ExprKind::Other { children } => exprs_events(children@),
    }
}

/// The events of a sequence of sibling nodes, left to right.
pub open spec fn exprs_events(es: Seq<Expr>) -> Seq<Event>
    decreases es,
{
    if es.len() == 0 {
        Seq::empty()
    } else {
        expr_events(es[0]) + exprs_events(es.drop_first())
    }
}

/// Appending one sibling appends its events.
pub proof fn lemma_exprs_events_snoc(es: Seq<Expr>, e: Expr)
    ensures
        exprs_events(es.push(e)) == exprs_events(es) + expr_events(e),
    decreases es.len(),
{
    if es.len() == 0 {
        let p = es.push(e);
        assert(p[0] == e);
        assert(p.drop_first() =~= Seq::<Expr>::empty());
        assert(exprs_events(p.drop_first()) == Seq::<Event>::empty());
        assert(exprs_events(p) == expr_events(e) + Seq::<Event>::empty());
        assert(exprs_events(es) == Seq::<Event>::empty());
        assert(expr_events(e) + Seq::<Event>::empty() =~= Seq::<Event>::empty() + expr_events(e));
    } else {
        lemma_exprs_events_snoc(es.drop_first(), e);
        let a = expr_events(es[0]);
        let b = exprs_events(es.drop_first());
        let c = expr_events(e);
        assert(es.push(e)[0] == es[0]);
        assert(es.push(e).drop_first() =~= es.drop_first().push(e));
        assert(exprs_events(es.push(e)) == a + (b + c));
        assert(exprs_events(es) == a + b);
        assert(a + (b + c) =~= (a + b) + c);
    }
}

} // verus!
