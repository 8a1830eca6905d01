//! The meaning of the pass, stated over traversal events.
//!
//! The pass is a fold: starting from an empty state, each event either
//! records a definition, checks a call immediately against the table so
//! far, or defers the call.  After the fold, the deferred calls are
//! reconciled once against the completed table.  `pass_diagnostics` states
//! the outcome of the whole pass as a direct function of the event
//! sequence; the lemmas below tie it to the fold the executable code
//! mirrors.

use vstd::prelude::*;
use crate::ast::Event;
use crate::ast::Span;
use crate::diagnostic::DiagnosticModel;
use crate::diagnostic::arity_diagnostic;

verus! {

/// A deferred call: its target name, the span of the whole call
/// expression, and the observed argument count.
pub struct PendingCallModel {
    pub name: Seq<char>,
    pub span: Span,
    pub args: nat,
}

/// The pass-instance state: the arity table accumulated so far, the calls
/// deferred so far, and the diagnostics found so far, all in order.
pub struct PassState {
    pub funcs: Map<Seq<char>, nat>,
    pub pending: Seq<PendingCallModel>,
    pub diags: Seq<DiagnosticModel>,
}

/// The state a fresh pass instance starts from.
pub open spec fn initial_state() -> PassState {
    PassState { funcs: Map::empty(), pending: Seq::empty(), diags: Seq::empty() }
}

/// One traversal event applied to the state: a definition inserts or
/// overwrites its arity; a call is checked at once when its target is
/// already recorded (a mismatch appends a diagnostic) and deferred
/// otherwise.
pub open spec fn step(st: PassState, ev: Event) -> PassState {
    match ev {
        Event::Define { name, params } => PassState {
            funcs: st.funcs.insert(name, params),
            ..st
        },
        Event::Call { name, span, args } => {
            if st.funcs.contains_key(name) {
                if st.funcs[name] == args {
                    st
                } else {
                    PassState {
                        diags: st.diags.push(arity_diagnostic(span, name, st.funcs[name], args)),
                        ..st
                    }
                }
            } else {
                PassState {
                    pending: st.pending.push(PendingCallModel { name, span, args }),
                    ..st
                }
            }
        },
    }
}

/// The state after a whole event sequence, first event first.
pub open spec fn steps(st: PassState, evs: Seq<Event>) -> PassState
    decreases evs.len(),
{
    if evs.len() == 0 {
        st
    } else {
        steps(step(st, evs[0]), evs.drop_first())
    }
}

/// Folding a concatenation folds the parts in order.
pub proof fn lemma_steps_concat(st: PassState, a: Seq<Event>, b: Seq<Event>)
    ensures
        steps(st, a + b) == steps(steps(st, a), b),
    decreases a.len(),
{
    if a.len() == 0 {
        assert(a + b =~= b);
    } else {
        assert((a + b)[0] == a[0]);
        assert((a + b).drop_first() =~= a.drop_first() + b);
        lemma_steps_concat(step(st, a[0]), a.drop_first(), b);
    }
}

/// The reconciliation of the deferred calls, in deferral order: a call
/// whose target is now recorded with a differing count appends a
/// diagnostic; one whose target matches, or was never defined, appends
/// nothing.
pub open spec fn reconcile(
    funcs: Map<Seq<char>, nat>,
    pending: Seq<PendingCallModel>,
    diags: Seq<DiagnosticModel>,
) -> Seq<DiagnosticModel>
    decreases pending.len(),
{
    if pending.len() == 0 {
        diags
    } else {
        let p = pending[0];
        let checked = if funcs.contains_key(p.name) && funcs[p.name] != p.args {
            diags.push(arity_diagnostic(p.span, p.name, funcs[p.name], p.args))
        } else {
            diags
        };
        reconcile(funcs, pending.drop_first(), checked)
    }
}

/// The completed arity table of an event sequence: every defined name
/// bound to the parameter count of its last definition.
pub open spec fn defines_map(evs: Seq<Event>) -> Map<Seq<char>, nat>
    decreases evs.len(),
{
    if evs.len() == 0 {
        Map::empty()
    } else {
        match evs.last() {
            Event::Define { name, params } => defines_map(evs.drop_last()).insert(name, params),
            Event::Call { name, span, args } => defines_map(evs.drop_last()),
        }
    }
}

/// The calls deferred by the traversal: those visited before any
/// definition of their target, in visitation order.
pub open spec fn pending_calls(evs: Seq<Event>) -> Seq<PendingCallModel>
    decreases evs.len(),
{
    if evs.len() == 0 {
        Seq::empty()
    } else {
        let pre = evs.drop_last();
        match evs.last() {
            Event::Call { name, span, args } => if !defines_map(pre).contains_key(name) {
                pending_calls(pre).push(PendingCallModel { name, span, args })
            } else {
                pending_calls(pre)
            },
            Event::Define { name, params } => pending_calls(pre),
        }
    }
}

/// The diagnostics found during traversal itself: one for each call whose
/// target was already recorded, with a differing count, at the moment the
/// call was visited.
pub open spec fn immediate_diagnostics(evs: Seq<Event>) -> Seq<DiagnosticModel>
    decreases evs.len(),
{
    if evs.len() == 0 {
        Seq::empty()
    } else {
        let pre = evs.drop_last();
        match evs.last() {
            Event::Call { name, span, args } => if defines_map(pre).contains_key(name)
                && defines_map(pre)[name] != args {
                immediate_diagnostics(pre).push(
                    arity_diagnostic(span, name, defines_map(pre)[name], args),
                )
            } else {
                immediate_diagnostics(pre)
            },
            Event::Define { name, params } => immediate_diagnostics(pre),
        }
    }
}

/// The diagnostics reconciliation adds, stated directly: one for each
/// deferred call whose target stands in the completed table with a
/// differing count.
pub open spec fn deferred_diagnostics(
    funcs: Map<Seq<char>, nat>,
    pending: Seq<PendingCallModel>,
) -> Seq<DiagnosticModel>
    decreases pending.len(),
{
    if pending.len() == 0 {
        Seq::empty()
    } else {
        let p = pending[0];
        let head = if funcs.contains_key(p.name) && funcs[p.name] != p.args {
            seq![arity_diagnostic(p.span, p.name, funcs[p.name], p.args)]
        } else {
            Seq::empty()
        };
        head + deferred_diagnostics(funcs, pending.drop_first())
    }
}

/// The outcome of the whole pass on an event sequence: the immediate
/// diagnostics, in traversal order, followed by the deferred ones, in
/// deferral order.
pub open spec fn pass_diagnostics(evs: Seq<Event>) -> Seq<DiagnosticModel> {
    immediate_diagnostics(evs) + deferred_diagnostics(defines_map(evs), pending_calls(evs))
}

/// The fold from the empty state lands exactly on the completed table,
/// the deferred calls, and the immediate diagnostics.
pub proof fn lemma_steps_characterized(evs: Seq<Event>)
    ensures
        steps(initial_state(), evs) == (PassState {
            funcs: defines_map(evs),
            pending: pending_calls(evs),
            diags: immediate_diagnostics(evs),
        }),
    decreases evs.len(),
{
    if evs.len() == 0 {
    } else {
        let pre = evs.drop_last();
        let last = evs.last();
        lemma_steps_characterized(pre);
        assert(evs =~= pre + seq![last]);
        lemma_steps_concat(initial_state(), pre, seq![last]);
        let st1 = steps(initial_state(), pre);
        assert(steps(initial_state(), evs) == steps(st1, seq![last]));
        assert(seq![last][0] == last);
        assert(seq![last].drop_first() =~= Seq::<Event>::empty());
        assert(steps(st1, seq![last]) == steps(step(st1, last), Seq::<Event>::empty()));
        assert(steps(step(st1, last), Seq::<Event>::empty()) == step(st1, last));
    }
}

/// Reconciliation appends exactly the deferred diagnostics to whatever
/// diagnostics stand already.
pub proof fn lemma_reconcile_appends(
    funcs: Map<Seq<char>, nat>,
    pending: Seq<PendingCallModel>,
    diags: Seq<DiagnosticModel>,
)
    ensures
        reconcile(funcs, pending, diags) == diags + deferred_diagnostics(funcs, pending),
    decreases pending.len(),
{
    if pending.len() == 0 {
        assert(diags + deferred_diagnostics(funcs, pending) =~= diags);
    } else {
        let p = pending[0];
        let checked = if funcs.contains_key(p.name) && funcs[p.name] != p.args {
            diags.push(arity_diagnostic(p.span, p.name, funcs[p.name], p.args))
        } else {
            diags
        };
        lemma_reconcile_appends(funcs, pending.drop_first(), checked);
        assert(reconcile(funcs, pending, diags) == checked + deferred_diagnostics(
            funcs,
            pending.drop_first(),
        ));
        assert(checked + deferred_diagnostics(funcs, pending.drop_first()) =~= diags
            + deferred_diagnostics(funcs, pending));
    }
}

/// The fold followed by reconciliation is exactly `pass_diagnostics`.
pub proof fn lemma_pass_diagnostics(evs: Seq<Event>)
    ensures
        ({
            let st = steps(initial_state(), evs);
            reconcile(st.funcs, st.pending, st.diags) == pass_diagnostics(evs)
        }),
{
    lemma_steps_characterized(evs);
    lemma_reconcile_appends(defines_map(evs), pending_calls(evs), immediate_diagnostics(evs));
}

} // verus!
