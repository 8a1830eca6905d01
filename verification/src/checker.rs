//! The arity-checking pass itself.
//!
//! `CallChecker` owns one pass run's state: the arity table, the deferred
//! calls, and the diagnostics found so far.  A pre-order traversal of the
//! program tree drives the visit hooks; `check_user_calls` then reconciles
//! the deferred calls against the completed table, and `run` aggregates the
//! outcome.  Every mismatch is collected, never aborting the pass, so one
//! run reports every mismatch in the program.

use vstd::prelude::*;
use vstd::string::StringExecFns;
use crate::ast::ContractAnalysis;
use crate::ast::Event;
use crate::ast::Expr;
use crate::ast::ExprKind;
use crate::ast::Span;
use crate::ast::TypedVar;
use crate::ast::expr_events;
use crate::ast::exprs_events;
use crate::ast::lemma_exprs_events_snoc;
use crate::ast::spec_param_count;
use crate::diagnostic::Diagnostic;
use crate::diagnostic::DiagnosticModel;
use crate::diagnostic::Level;
use crate::diagnostic::arity_diagnostic;
use crate::diagnostic::arity_message;
use crate::diagnostic::push_decimal;
use crate::semantics::PassState;
use crate::semantics::PendingCallModel;
use crate::semantics::initial_state;
use crate::semantics::lemma_pass_diagnostics;
use crate::semantics::lemma_steps_concat;
use crate::semantics::pass_diagnostics;
use crate::semantics::reconcile;
use crate::semantics::step;
use crate::semantics::steps;
use crate::table::ArityTable;

verus! {

/// What a pass returns: success carries no diagnostics; failure carries
/// the non-empty ordered list of every diagnostic found.
pub type AnalysisResult = Result<Vec<Diagnostic>, Vec<Diagnostic>>;

/// A call visited before any definition of its target: the target name,
/// the span of the whole call expression, and the observed argument count.
pub struct PendingCall {
    pub name: String,
    pub span: Span,
    pub args: usize,
}

impl View for PendingCall {
    type V = PendingCallModel;

    open spec fn view(&self) -> PendingCallModel {
        PendingCallModel { name: self.name@, span: self.span, args: self.args as nat }
    }
}

/// The models of a sequence of diagnostics.
pub open spec fn diagnostics_model(v: Seq<Diagnostic>) -> Seq<DiagnosticModel> {
    v.map_values(|d: Diagnostic| d@)
}

/// The models of a sequence of deferred calls.
pub open spec fn pending_model(v: Seq<PendingCall>) -> Seq<PendingCallModel> {
    v.map_values(|p: PendingCall| p@)
}

/// The diagnostics a result carries, success carrying none.
pub open spec fn result_model(r: AnalysisResult) -> Seq<DiagnosticModel> {
    match r {
        Ok(v) => diagnostics_model(v@),
        Err(d) => diagnostics_model(d@),
    }
}

/// Whether a result is the outcome the pass owes a program with the given
/// traversal events: success, carrying nothing, when no mismatch exists,
/// and failure carrying exactly the mismatches' diagnostics, in order,
/// otherwise.
pub open spec fn outcome_matches(evs: Seq<Event>, r: AnalysisResult) -> bool {
    match r {
        Ok(v) => pass_diagnostics(evs).len() == 0 && v@.len() == 0,
        Err(d) => pass_diagnostics(evs).len() > 0 && diagnostics_model(d@) == pass_diagnostics(
            evs,
        ),
    }
}

/// One arity-checking pass run over one parsed contract.
pub struct CallChecker {
    diagnostics: Vec<Diagnostic>,
    user_funcs: ArityTable,
    user_calls: Vec<PendingCall>,
}

impl View for CallChecker {
    type V = PassState;

    closed spec fn view(&self) -> PassState {
        PassState {
            funcs: self.user_funcs@,
            pending: pending_model(self.user_calls@),
            diags: diagnostics_model(self.diagnostics@),
        }
    }
}

impl CallChecker {
    /// A fresh pass instance with nothing recorded yet.
    pub fn new() -> (c: CallChecker)
        ensures
            c@ == initial_state(),
    {
        let c = CallChecker {
            diagnostics: Vec::new(),
            user_funcs: ArityTable::new(),
            user_calls: Vec::new(),
        };
        proof {
            assert(pending_model(c.user_calls@) =~= Seq::<PendingCallModel>::empty());
            assert(diagnostics_model(c.diagnostics@) =~= Seq::<DiagnosticModel>::empty());
        }
        c
    }

    /// Builds the one diagnostic this pass emits: an error whose message is
    /// exactly `incorrect number of arguments in call to '<name>'
    /// (expected <expected> got <got>)`, whose single span is the full
    /// extent of the call expression, with no suggestion.
    pub fn generate_diagnostic(
        &mut self,
        span: Span,
        name: &String,
        expected: usize,
        got: usize,
    ) -> (d: Diagnostic)
        ensures
            d@ == arity_diagnostic(span, name@, expected as nat, got as nat),
            *final(self) == *old(self),
    {
        let mut message = String::new();
        message.append("incorrect number of arguments in call to '");
        message.append(name.as_str());
        message.append("' (expected ");
        push_decimal(&mut message, expected);
        message.append(" got ");
        push_decimal(&mut message, got);
        message.append(")");
        proof {
            assert(message@ =~= arity_message(name@, expected as nat, got as nat));
        }
        let mut spans: Vec<Span> = Vec::new();
        spans.push(span);
        proof {
            assert(spans@ =~= seq![span]);
        }
        Diagnostic { level: Level::Error, message, spans, suggestion: None }
    }

    /// Definition hook: records the declared parameter count, overwriting
    /// any earlier definition of the same name, and asks the traversal to
    /// recurse into the definition's body.
    pub fn visit_define_private(
        &mut self,
        expr: &Expr,
        name: &String,
        parameters: &Option<Vec<TypedVar>>,
        body: &Expr,
    ) -> (recurse: bool)
        ensures
            final(self)@ == step(
                old(self)@,
                Event::Define { name: name@, params: spec_param_count(*parameters) },
            ),
            recurse,
    {
        let num_params: usize = match parameters {
            Some(parameters) => parameters.len(),
            None => 0,
        };
        self.user_funcs.record(name, num_params);
        true
    }

    /// Definition hook for `define-public`; same behaviour as
    /// [`Self::visit_define_private`].
    pub fn visit_define_public(
        &mut self,
        expr: &Expr,
        name: &String,
        parameters: &Option<Vec<TypedVar>>,
        body: &Expr,
    ) -> (recurse: bool)
        ensures
            final(self)@ == step(
                old(self)@,
                Event::Define { name: name@, params: spec_param_count(*parameters) },
            ),
            recurse,
    {
        let num_params: usize = match parameters {
            Some(parameters) => parameters.len(),
            None => 0,
        };
        self.user_funcs.record(name, num_params);
        true
    }

    /// Definition hook for `define-read-only`; same behaviour as
    /// [`Self::visit_define_private`].
    pub fn visit_define_read_only(
        &mut self,
        expr: &Expr,
        name: &String,
        parameters: &Option<Vec<TypedVar>>,
        body: &Expr,
    ) -> (recurse: bool)
        ensures
            final(self)@ == step(
                old(self)@,
                Event::Define { name: name@, params: spec_param_count(*parameters) },
            ),
            recurse,
    {
        let num_params: usize = match parameters {
            Some(parameters) => parameters.len(),
            None => 0,
        };
        self.user_funcs.record(name, num_params);
        true
    }

    /// Call hook: a call whose target is already recorded is checked at
    /// once, a mismatch appending one diagnostic; a call whose target is
    /// not yet recorded is deferred.  Always asks the traversal to recurse
    /// into the arguments.
    pub fn visit_call_user_defined(
        &mut self,
        expr: &Expr,
        name: &String,
        args: &Vec<Expr>,
    ) -> (recurse: bool)
        ensures
            final(self)@ == step(
                old(self)@,
                Event::Call { name: name@, span: expr.span, args: args@.len() },
            ),
            recurse,
    {
        if let Some(param_count) = self.user_funcs.lookup(name) {
            if args.len() != param_count {
                let diagnostic = self.generate_diagnostic(expr.span, name, param_count, args.len());
                self.diagnostics.push(diagnostic);
                proof {
                    assert(diagnostics_model(self.diagnostics@) =~= old(self)@.diags.push(
                        arity_diagnostic(
                            expr.span,
                            name@,
                            old(self)@.funcs[name@],
                            args@.len(),
                        ),
                    ));
                }
            }
        } else {
            let pending = PendingCall { name: name.clone(), span: expr.span, args: args.len() };
            self.user_calls.push(pending);
            proof {
                assert(pending_model(self.user_calls@) =~= old(self)@.pending.push(
                    PendingCallModel { name: name@, span: expr.span, args: args@.len() },
                ));
            }
        }
        true
    }

    /// Visits one node: fires its hook, if it is a recognized form, and
    /// recurses into its children as the hook asks.
    fn traverse_expr(&mut self, expr: &Expr)
        ensures
            final(self)@ == steps(old(self)@, expr_events(*expr)),
        decreases *expr,
    {
        match &expr.kind {
            ExprKind::DefinePrivate { name, parameters, body } => {
                let recurse = self.visit_define_private(expr, name, parameters, body);
                if recurse {
                    self.traverse_expr(body);
                }
                proof {
                    let ev = Event::Define { name: name@, params: spec_param_count(*parameters) };
                    assert((seq![ev] + expr_events(**body)).drop_first() =~= expr_events(**body));
                }
            },
            ExprKind::DefinePublic { name, parameters, body } => {
                let recurse = self.visit_define_public(expr, name, parameters, body);
                if recurse {
                    self.traverse_expr(body);
                }
                proof {
                    let ev = Event::Define { name: name@, params: spec_param_count(*parameters) };
                    assert((seq![ev] + expr_events(**body)).drop_first() =~= expr_events(**body));
                }
            },
            ExprKind::DefineReadOnly { name, parameters, body } => {
                let recurse = self.visit_define_read_only(expr, name, parameters, body);
                if recurse {
                    self.traverse_expr(body);
                }
                proof {
                    let ev = Event::Define { name: name@, params: spec_param_count(*parameters) };
                    assert((seq![ev] + expr_events(**body)).drop_first() =~= expr_events(**body));
                }
            },
            ExprKind::UserCall { name, args } => {
                let recurse = self.visit_call_user_defined(expr, name, args);
                if recurse {
                    self.traverse_expr_list(args);
                }
                proof {
                    let ev = Event::Call { name: name@, span: expr.span, args: args@.len() };
                    assert((seq![ev] + exprs_events(args@)).drop_first() =~= exprs_events(args@));
                }
            },
            ExprKind::Other { children } => {
                self.traverse_expr_list(children);
            },
        }
    }

    /// Visits a sequence of sibling nodes, left to right.
    fn traverse_expr_list(&mut self, exprs: &Vec<Expr>)
        ensures
            final(self)@ == steps(old(self)@, exprs_events(exprs@)),
        decreases exprs@,
    {
        let ghost st0 = self@;
        let mut i: usize = 0;
        while i < exprs.len()
            invariant
                i <= exprs.len(),
                self@ == steps(st0, exprs_events(exprs@.subrange(0, i as int))),
            decreases exprs.len() - i,
        {
            let ghost pre = exprs@.subrange(0, i as int);
            self.traverse_expr(&exprs[i]);
            proof {
                lemma_exprs_events_snoc(pre, exprs@[i as int]);
                lemma_steps_concat(st0, exprs_events(pre), expr_events(exprs@[i as int]));
                assert(exprs@.subrange(0, i as int + 1) =~= pre.push(exprs@[i as int]));
            }
            i = i + 1;
        }
        proof {
            assert(exprs@.subrange(0, exprs@.len() as int) =~= exprs@);
        }
    }

    /// The reconciliation pass: walks the deferred calls once, in deferral
    /// order, checking each against the completed arity table.  A target
    /// recorded with a differing count appends one diagnostic; a target
    /// never recorded is skipped silently, being another pass's concern.
    pub fn check_user_calls(&mut self)
        ensures
            final(self)@.funcs == old(self)@.funcs,
            final(self)@.pending == old(self)@.pending,
            final(self)@.diags == reconcile(old(self)@.funcs, old(self)@.pending, old(self)@.diags),
    {
        let ghost funcs0 = self@.funcs;
        let ghost pending0 = self@.pending;
        let ghost diags0 = self@.diags;
        let mut i: usize = 0;
        proof {
            assert(pending0.skip(0) =~= pending0);
        }
        while i < self.user_calls.len()
            invariant
                i <= self.user_calls.len(),
                self@.funcs == funcs0,
                self@.pending == pending0,
                pending0.len() == self.user_calls.len(),
                reconcile(funcs0, pending0, diags0) == reconcile(
                    funcs0,
                    pending0.skip(i as int),
                    self@.diags,
                ),
            decreases self.user_calls.len() - i,
        {
            let ghost rest = pending0.skip(i as int);
            let ghost diags_head = self@.diags;
            proof {
                assert(rest[0] == pending0[i as int]);
                assert(pending0[i as int] == self.user_calls@[i as int]@);
                assert(rest.drop_first() =~= pending0.skip(i as int + 1));
            }
            let name = self.user_calls[i].name.clone();
            let span = self.user_calls[i].span;
            let num_args = self.user_calls[i].args;
            if let Some(num_params) = self.user_funcs.lookup(&name) {
                if num_args != num_params {
                    let diagnostic = self.generate_diagnostic(span, &name, num_params, num_args);
                    self.diagnostics.push(diagnostic);
                    proof {
                        assert(self@.diags =~= diags_head.push(
                            arity_diagnostic(span, name@, num_params as nat, num_args as nat),
                        ));
                    }
                }
            }
            proof {
                let p = rest[0];
                assert(name@ == p.name && span == p.span && num_args as nat == p.args);
                assert(reconcile(funcs0, rest, diags_head) == reconcile(
                    funcs0,
                    pending0.skip(i as int + 1),
                    self@.diags,
                ));
            }
            i = i + 1;
        }
        proof {
            assert(pending0.skip(pending0.len() as int) =~= Seq::<PendingCallModel>::empty());
        }
    }

    /// One whole pass run: traverses the program, reconciles the deferred
    /// calls, and returns failure with the ordered diagnostics exactly
    /// when at least one arity mismatch was found.
    pub fn run(self, contract_analysis: &ContractAnalysis) -> (r: AnalysisResult)
        ensures
            ({
                let st = steps(self@, exprs_events(contract_analysis.expressions@));
                let outcome = reconcile(st.funcs, st.pending, st.diags);
                match r {
                    Ok(v) => outcome.len() == 0 && v@.len() == 0,
                    Err(d) => outcome.len() > 0 && diagnostics_model(d@) == outcome,
                }
            }),
    {
        let mut checker = self;
        checker.traverse_expr_list(&contract_analysis.expressions);
        checker.check_user_calls();

        if checker.diagnostics.len() > 0 {
            Err(checker.diagnostics)
        } else {
            Ok(Vec::new())
        }
    }

    /// The pass driver: a fresh instance run over the given contract.  The
    /// outcome is `pass_diagnostics` of the program's traversal events:
    /// failure, with every mismatch's diagnostic in order, exactly when
    /// that sequence is non-empty.
    pub fn run_pass(contract_analysis: &ContractAnalysis) -> (r: AnalysisResult)
        ensures
            outcome_matches(exprs_events(contract_analysis.expressions@), r),
    {
        let tc = CallChecker::new();
        proof {
            lemma_pass_diagnostics(exprs_events(contract_analysis.expressions@));
        }
        tc.run(contract_analysis)
    }
}

} // verus!
