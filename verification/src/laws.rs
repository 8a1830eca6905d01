//! Pass-level properties, stated over traversal events and proved from the
//! semantics alone.

use vstd::prelude::*;
use crate::ast::Event;
use crate::ast::Span;
use crate::checker::AnalysisResult;
use crate::checker::outcome_matches;
use crate::checker::result_model;
use crate::diagnostic::DiagnosticModel;
use crate::diagnostic::arity_diagnostic;
use crate::semantics::PendingCallModel;
use crate::semantics::defines_map;
use crate::semantics::deferred_diagnostics;
use crate::semantics::immediate_diagnostics;
use crate::semantics::pass_diagnostics;
use crate::semantics::pending_calls;

verus! {

/// Whether an event is a function definition.
pub open spec fn is_define(ev: Event) -> bool {
    match ev {
        Event::Define { name, params } => true,
        Event::Call { name, span, args } => false,
    }
}

/// Whether an event is a call to a user-defined function.
pub open spec fn is_call(ev: Event) -> bool {
    !is_define(ev)
}

/// The function name an event carries: the defined name, or the call's
/// target.
pub open spec fn event_name(ev: Event) -> Seq<char> {
    match ev {
        Event::Define { name, params } => name,
        Event::Call { name, span, args } => name,
    }
}

/// The count an event carries: a definition's declared parameter count, or
/// a call's observed argument count.
pub open spec fn event_count(ev: Event) -> nat {
    match ev {
        Event::Define { name, params } => params,
        Event::Call { name, span, args } => args,
    }
}

/// The span of a call event.
pub open spec fn call_span(ev: Event) -> Span
    recommends
        is_call(ev),
{
    match ev {
        Event::Define { name, params } => arbitrary(),
        Event::Call { name, span, args } => span,
    }
}

/// Whether the target of the call at index `i` was already defined at the
/// moment the call was visited — that is, whether the call is checked
/// immediately rather than deferred.
pub open spec fn defined_before(evs: Seq<Event>, i: int) -> bool {
    defines_map(evs.subrange(0, i)).contains_key(event_name(evs[i]))
}

/// A defined name stands in the completed table.
pub proof fn lemma_define_in_map(evs: Seq<Event>, j: int)
    requires
        0 <= j < evs.len(),
        is_define(evs[j]),
    ensures
        defines_map(evs).contains_key(event_name(evs[j])),
    decreases evs.len(),
{
    if j == evs.len() - 1 {
    } else {
        lemma_define_in_map(evs.drop_last(), j);
    }
}

/// Every binding of the completed table is the declared count of some
/// definition in the program.
pub proof fn lemma_map_from_define(evs: Seq<Event>, name: Seq<char>)
    requires
        defines_map(evs).contains_key(name),
    ensures
        exists|j: int|
            0 <= j < evs.len() && is_define(#[trigger] evs[j]) && event_name(evs[j]) == name
                && event_count(evs[j]) == defines_map(evs)[name],
    decreases evs.len(),
{
    if evs.len() == 0 {
    } else {
        let pre = evs.drop_last();
        let last = evs.last();
        if is_define(last) && event_name(last) == name {
            assert(0 <= evs.len() - 1 < evs.len() && is_define(evs[evs.len() - 1])
                && event_name(evs[evs.len() - 1]) == name
                && event_count(evs[evs.len() - 1]) == defines_map(evs)[name]);
        } else {
            lemma_map_from_define(pre, name);
            let j = choose|j: int|
                0 <= j < pre.len() && is_define(#[trigger] pre[j]) && event_name(pre[j]) == name
                    && event_count(pre[j]) == defines_map(pre)[name];
            assert(evs[j] == pre[j]);
        }
    }
}

/// Every deferred call record carries the name and argument count of some
/// call in the program.
pub proof fn lemma_pending_from_call(evs: Seq<Event>, k: int)
    requires
        0 <= k < pending_calls(evs).len(),
    ensures
        exists|i: int|
            0 <= i < evs.len() && is_call(#[trigger] evs[i])
                && event_name(evs[i]) == pending_calls(evs)[k].name
                && event_count(evs[i]) == pending_calls(evs)[k].args,
    decreases evs.len(),
{
    if evs.len() == 0 {
    } else {
        let pre = evs.drop_last();
        let last = evs.last();
        if k < pending_calls(pre).len() {
            lemma_pending_from_call(pre, k);
            let i = choose|i: int|
                0 <= i < pre.len() && is_call(#[trigger] pre[i])
                    && event_name(pre[i]) == pending_calls(pre)[k].name
                    && event_count(pre[i]) == pending_calls(pre)[k].args;
            assert(evs[i] == pre[i]);
            assert(pending_calls(evs)[k] == pending_calls(pre)[k]);
        } else {
            assert(is_call(evs[evs.len() - 1]));
        }
    }
}

/// Reconciliation finds nothing when no deferred call disagrees with the
/// completed table.
pub proof fn lemma_deferred_empty(funcs: Map<Seq<char>, nat>, pending: Seq<PendingCallModel>)
    requires
        forall|k: int|
            0 <= k < pending.len() ==> !(funcs.contains_key((#[trigger] pending[k]).name)
                && funcs[pending[k].name] != pending[k].args),
    ensures
        deferred_diagnostics(funcs, pending).len() == 0,
    decreases pending.len(),
{
    if pending.len() > 0 {
        assert forall|k: int| 0 <= k < pending.drop_first().len() implies !(funcs.contains_key(
            (#[trigger] pending.drop_first()[k]).name,
        ) && funcs[pending.drop_first()[k].name] != pending.drop_first()[k].args) by {
            assert(pending.drop_first()[k] == pending[k + 1]);
        }
        lemma_deferred_empty(funcs, pending.drop_first());
    }
}

/// Every call in the program agrees in count with every definition of its
/// target name, definitions before and after the call alike.
pub open spec fn calls_match_defines(evs: Seq<Event>) -> bool {
    forall|i: int, j: int|
        0 <= i < evs.len() && 0 <= j < evs.len() && is_call(#[trigger] evs[i]) && is_define(
            #[trigger] evs[j],
        ) && event_name(evs[i]) == event_name(evs[j]) ==> event_count(evs[i]) == event_count(
            evs[j],
        )
}

/// The traversal finds nothing immediately in a program whose calls all
/// agree with the definitions of their targets.
proof fn lemma_immediate_empty(evs: Seq<Event>)
    requires
        calls_match_defines(evs),
    ensures
        immediate_diagnostics(evs).len() == 0,
    decreases evs.len(),
{
    if evs.len() > 0 {
        let pre = evs.drop_last();
        let last = evs.last();
        assert forall|i: int, j: int|
            0 <= i < pre.len() && 0 <= j < pre.len() && is_call(#[trigger] pre[i]) && is_define(
                #[trigger] pre[j],
            ) && event_name(pre[i]) == event_name(pre[j]) implies event_count(pre[i])
            == event_count(pre[j]) by {
            assert(pre[i] == evs[i] && pre[j] == evs[j]);
        }
        lemma_immediate_empty(pre);
        if is_call(last) && defines_map(pre).contains_key(event_name(last)) {
            lemma_map_from_define(pre, event_name(last));
            let j = choose|j: int|
                0 <= j < pre.len() && is_define(#[trigger] pre[j]) && event_name(pre[j])
                    == event_name(last) && event_count(pre[j]) == defines_map(pre)[event_name(
                    last,
                )];
            assert(evs[j] == pre[j]);
            assert(is_call(evs[evs.len() - 1]));
            assert(event_count(last) == defines_map(pre)[event_name(last)]);
        }
    }
}

/// A program in which every call's argument count equals its target's
/// declared parameter count — whether each call precedes or follows the
/// definitions of its target — passes with no diagnostic at all.
pub proof fn lemma_matching_program_succeeds(evs: Seq<Event>)
    requires
        calls_match_defines(evs),
    ensures
        pass_diagnostics(evs).len() == 0,
{
    lemma_immediate_empty(evs);
    let funcs = defines_map(evs);
    let pending = pending_calls(evs);
    assert forall|k: int| 0 <= k < pending.len() implies !(funcs.contains_key(
        (#[trigger] pending[k]).name,
    ) && funcs[pending[k].name] != pending[k].args) by {
        if funcs.contains_key(pending[k].name) {
            lemma_pending_from_call(evs, k);
            lemma_map_from_define(evs, pending[k].name);
        }
    }
    lemma_deferred_empty(funcs, pending);
}

/// A program whose calls all target names never defined anywhere in it
/// passes with no diagnostic: such calls are silently skipped, being
/// another pass's concern.
pub proof fn lemma_undefined_calls_ignored(evs: Seq<Event>)
    requires
        forall|i: int, j: int|
            0 <= i < evs.len() && 0 <= j < evs.len() && is_call(#[trigger] evs[i]) && is_define(
                #[trigger] evs[j],
            ) ==> event_name(evs[i]) != event_name(evs[j]),
    ensures
        pass_diagnostics(evs).len() == 0,
{
    lemma_matching_program_succeeds(evs);
}

/// Sharper still: a call to a name the program never defines adds nothing
/// to the outcome, whatever else the program holds — it is deferred,
/// found absent from the completed table at reconciliation, and skipped.
pub proof fn lemma_undefined_call_adds_nothing(
    evs: Seq<Event>,
    name: Seq<char>,
    span: Span,
    args: nat,
)
    requires
        forall|j: int|
            0 <= j < evs.len() && is_define(#[trigger] evs[j]) ==> event_name(evs[j]) != name,
    ensures
        pass_diagnostics(evs.push(Event::Call { name, span, args })) == pass_diagnostics(evs),
{
    let c = Event::Call { name, span, args };
    let evs2 = evs.push(c);
    assert(evs2.drop_last() =~= evs);
    assert(evs2.last() == c);
    if defines_map(evs).contains_key(name) {
        lemma_map_from_define(evs, name);
        let j = choose|j: int|
            0 <= j < evs.len() && is_define(#[trigger] evs[j]) && event_name(evs[j]) == name
                && event_count(evs[j]) == defines_map(evs)[name];
        assert(false);
    }
    assert(immediate_diagnostics(evs2) == immediate_diagnostics(evs));
    let p = PendingCallModel { name, span, args };
    assert(pending_calls(evs2) == pending_calls(evs).push(p));
    lemma_deferred_snoc(defines_map(evs), pending_calls(evs), p);
    assert(deferred_diagnostics(defines_map(evs2), pending_calls(evs2)) =~= deferred_diagnostics(
        defines_map(evs),
        pending_calls(evs),
    ));
    assert(pass_diagnostics(evs2) =~= pass_diagnostics(evs));
}

/// Every two definitions of one name declare the same parameter count, so
/// "its target's declared parameter count" is well defined for every call.
pub open spec fn defines_agree(evs: Seq<Event>) -> bool {
    forall|i: int, j: int|
        0 <= i < evs.len() && 0 <= j < evs.len() && is_define(#[trigger] evs[i]) && is_define(
            #[trigger] evs[j],
        ) && event_name(evs[i]) == event_name(evs[j]) ==> event_count(evs[i]) == event_count(
            evs[j],
        )
}

/// When all definitions of a name agree, the table built from any prefix
/// binds a name it holds to the same count as the completed table.
proof fn lemma_prefix_value(evs: Seq<Event>, k: int, name: Seq<char>)
    requires
        defines_agree(evs),
        0 <= k <= evs.len(),
        defines_map(evs.subrange(0, k)).contains_key(name),
    ensures
        defines_map(evs).contains_key(name),
        defines_map(evs)[name] == defines_map(evs.subrange(0, k))[name],
{
    let pre = evs.subrange(0, k);
    lemma_map_from_define(pre, name);
    let j = choose|j: int|
        0 <= j < pre.len() && is_define(#[trigger] pre[j]) && event_name(pre[j]) == name
            && event_count(pre[j]) == defines_map(pre)[name];
    assert(evs[j] == pre[j]);
    lemma_define_in_map(evs, j);
    lemma_map_from_define(evs, name);
    let j2 = choose|j2: int|
        0 <= j2 < evs.len() && is_define(#[trigger] evs[j2]) && event_name(evs[j2]) == name
            && event_count(evs[j2]) == defines_map(evs)[name];
    assert(event_count(evs[j]) == event_count(evs[j2]));
}

/// The program holds exactly one arity mismatch, at the call at index `c`:
/// that call's target is defined, with a count differing from the call's
/// argument count; definitions agree program-wide; and every other call
/// either matches its target's count or targets a name never defined.
pub open spec fn single_mismatch_at(evs: Seq<Event>, c: int) -> bool {
    &&& 0 <= c < evs.len()
    &&& is_call(evs[c])
    &&& defines_map(evs).contains_key(event_name(evs[c]))
    &&& defines_map(evs)[event_name(evs[c])] != event_count(evs[c])
    &&& defines_agree(evs)
    &&& forall|i: int|
        0 <= i < evs.len() && i != c && is_call(#[trigger] evs[i]) && defines_map(
            evs,
        ).contains_key(event_name(evs[i])) ==> event_count(evs[i]) == defines_map(evs)[event_name(
            evs[i],
        )]
}

/// The one diagnostic a single mismatch owes: the exact message over the
/// target name, its declared count and the observed count, spanning the
/// whole call expression.
pub open spec fn mismatch_diagnostic(evs: Seq<Event>, c: int) -> DiagnosticModel {
    arity_diagnostic(
        call_span(evs[c]),
        event_name(evs[c]),
        defines_map(evs)[event_name(evs[c])],
        event_count(evs[c]),
    )
}

/// The traversal of a single-mismatch program finds, immediately, the one
/// diagnostic when the mismatched call follows a definition of its target,
/// and nothing otherwise.
proof fn lemma_immediate_prefix(evs: Seq<Event>, c: int, k: int)
    requires
        single_mismatch_at(evs, c),
        0 <= k <= evs.len(),
    ensures
        immediate_diagnostics(evs.subrange(0, k)) == if k > c && defined_before(evs, c) {
            seq![mismatch_diagnostic(evs, c)]
        } else {
            Seq::<DiagnosticModel>::empty()
        },
    decreases k,
{
    if k == 0 {
        assert(evs.subrange(0, 0) =~= Seq::<Event>::empty());
        assert(immediate_diagnostics(Seq::<Event>::empty()) == Seq::<DiagnosticModel>::empty());
    } else {
        lemma_immediate_prefix(evs, c, k - 1);
        let s = evs.subrange(0, k);
        let pre2 = evs.subrange(0, k - 1);
        assert(s.drop_last() =~= pre2);
        assert(s.last() == evs[k - 1]);
        match evs[k - 1] {
            Event::Define { name, params } => {},
            Event::Call { name, span, args } => {
                if defines_map(pre2).contains_key(name) {
                    lemma_prefix_value(evs, k - 1, name);
                    if k - 1 == c {
                        assert(defined_before(evs, c));
                        assert(defines_map(pre2)[name] == defines_map(evs)[event_name(evs[c])]);
                        assert(immediate_diagnostics(s) =~= seq![mismatch_diagnostic(evs, c)]);
                    } else {
                        assert(event_count(evs[k - 1]) == defines_map(evs)[name]);
                        assert(args == defines_map(pre2)[name]);
                    }
                } else {
                    if k - 1 == c {
                        assert(!defined_before(evs, c));
                    }
                }
            },
        }
    }
}

/// Appending one deferred record appends its reconciliation outcome.
proof fn lemma_deferred_snoc(
    funcs: Map<Seq<char>, nat>,
    pending: Seq<PendingCallModel>,
    p: PendingCallModel,
)
    ensures
        deferred_diagnostics(funcs, pending.push(p)) == deferred_diagnostics(funcs, pending) + (
        if funcs.contains_key(p.name) && funcs[p.name] != p.args {
            seq![arity_diagnostic(p.span, p.name, funcs[p.name], p.args)]
        } else {
            Seq::<DiagnosticModel>::empty()
        }),
    decreases pending.len(),
{
    let tail = if funcs.contains_key(p.name) && funcs[p.name] != p.args {
        seq![arity_diagnostic(p.span, p.name, funcs[p.name], p.args)]
    } else {
        Seq::<DiagnosticModel>::empty()
    };
    if pending.len() == 0 {
        assert(pending.push(p)[0] == p);
        assert(pending.push(p).drop_first() =~= Seq::<PendingCallModel>::empty());
        assert(deferred_diagnostics(funcs, Seq::<PendingCallModel>::empty())
            == Seq::<DiagnosticModel>::empty());
        assert(deferred_diagnostics(funcs, pending.push(p)) =~= deferred_diagnostics(
            funcs,
            pending,
        ) + tail);
    } else {
        lemma_deferred_snoc(funcs, pending.drop_first(), p);
        assert(pending.push(p)[0] == pending[0]);
        assert(pending.push(p).drop_first() =~= pending.drop_first().push(p));
        assert(deferred_diagnostics(funcs, pending.push(p)) =~= deferred_diagnostics(
            funcs,
            pending,
        ) + tail);
    }
}

/// Reconciliation of a single-mismatch program yields the one diagnostic
/// when the mismatched call was deferred, and nothing otherwise.
proof fn lemma_deferred_prefix(evs: Seq<Event>, c: int, k: int)
    requires
        single_mismatch_at(evs, c),
        0 <= k <= evs.len(),
    ensures
        deferred_diagnostics(defines_map(evs), pending_calls(evs.subrange(0, k))) == if k > c
            && !defined_before(evs, c) {
            seq![mismatch_diagnostic(evs, c)]
        } else {
            Seq::<DiagnosticModel>::empty()
        },
    decreases k,
{
    let funcs = defines_map(evs);
    if k == 0 {
        assert(evs.subrange(0, 0) =~= Seq::<Event>::empty());
        assert(pending_calls(Seq::<Event>::empty()) == Seq::<PendingCallModel>::empty());
        assert(deferred_diagnostics(funcs, Seq::<PendingCallModel>::empty())
            == Seq::<DiagnosticModel>::empty());
    } else {
        lemma_deferred_prefix(evs, c, k - 1);
        let s = evs.subrange(0, k);
        let pre2 = evs.subrange(0, k - 1);
        assert(s.drop_last() =~= pre2);
        assert(s.last() == evs[k - 1]);
        match evs[k - 1] {
            Event::Define { name, params } => {},
            Event::Call { name, span, args } => {
                if defines_map(pre2).contains_key(name) {
                    if k - 1 == c {
                        assert(defined_before(evs, c));
                    }
                } else {
                    let p = PendingCallModel { name, span, args };
                    assert(pending_calls(s) == pending_calls(pre2).push(p));
                    lemma_deferred_snoc(funcs, pending_calls(pre2), p);
                    if k - 1 == c {
                        assert(!defined_before(evs, c));
                        assert(funcs.contains_key(p.name) && funcs[p.name] != p.args);
                        assert(deferred_diagnostics(funcs, pending_calls(s))
                            =~= seq![mismatch_diagnostic(evs, c)]);
                    } else {
                        if funcs.contains_key(name) {
                            assert(event_count(evs[k - 1]) == funcs[name]);
                        }
                        assert(deferred_diagnostics(funcs, pending_calls(s))
                            =~= deferred_diagnostics(funcs, pending_calls(pre2)));
                    }
                }
            },
        }
    }
}

/// A program with exactly one call whose argument count differs from its
/// target's declared parameter count — all definitions agreeing, every
/// other call matching or targeting an undefined name — fails with exactly
/// one diagnostic: the exact arity-mismatch message for that call, whose
/// single span is the whole call expression, whether the call preceded or
/// followed the definition.
pub proof fn lemma_single_mismatch_single_diagnostic(evs: Seq<Event>, c: int)
    requires
        single_mismatch_at(evs, c),
    ensures
        pass_diagnostics(evs) == seq![mismatch_diagnostic(evs, c)],
{
    lemma_immediate_prefix(evs, c, evs.len() as int);
    lemma_deferred_prefix(evs, c, evs.len() as int);
    assert(evs.subrange(0, evs.len() as int) =~= evs);
    if defined_before(evs, c) {
        assert(pass_diagnostics(evs) =~= seq![mismatch_diagnostic(evs, c)]);
    } else {
        assert(pass_diagnostics(evs) =~= seq![mismatch_diagnostic(evs, c)]);
    }
}

/// Order independence: a mismatched call deferred past its definition and
/// the same mismatched call checked immediately after its definition yield
/// one diagnostic each, built from the same name and counts, with
/// identical message text — the span alone follows the call's own source
/// position, not the detection mechanism.
pub proof fn lemma_order_independent_message(
    name: Seq<char>,
    params: nat,
    args: nat,
    span_early: Span,
    span_late: Span,
)
    requires
        args != params,
    ensures
        ({
            let call_first = seq![
                Event::Call { name, span: span_early, args },
                Event::Define { name, params },
            ];
            let define_first = seq![
                Event::Define { name, params },
                Event::Call { name, span: span_late, args },
            ];
            &&& pass_diagnostics(call_first) == seq![
                arity_diagnostic(span_early, name, params, args),
            ]
            &&& pass_diagnostics(define_first) == seq![
                arity_diagnostic(span_late, name, params, args),
            ]
            &&& pass_diagnostics(call_first)[0].message == pass_diagnostics(define_first)[0].message
        }),
{
    let c_early = Event::Call { name, span: span_early, args };
    let c_late = Event::Call { name, span: span_late, args };
    let d = Event::Define { name, params };
    let call_first = seq![c_early, d];
    let define_first = seq![d, c_late];
    let funcs = Map::<Seq<char>, nat>::empty().insert(name, params);
    let empty_events = Seq::<Event>::empty();

    assert(defines_map(empty_events) == Map::<Seq<char>, nat>::empty());
    assert(immediate_diagnostics(empty_events) == Seq::<DiagnosticModel>::empty());
    assert(pending_calls(empty_events) == Seq::<PendingCallModel>::empty());
    assert(seq![c_early].last() == c_early);
    assert(seq![d].last() == d);
    assert(call_first.last() == d);
    assert(define_first.last() == c_late);

    assert(call_first.drop_last() =~= seq![c_early]);
    assert(seq![c_early].drop_last() =~= Seq::<Event>::empty());
    assert(defines_map(seq![c_early]) == Map::<Seq<char>, nat>::empty());
    assert(defines_map(call_first) == funcs);
    assert(immediate_diagnostics(seq![c_early]) =~= Seq::<DiagnosticModel>::empty());
    assert(immediate_diagnostics(call_first) =~= Seq::<DiagnosticModel>::empty());
    let p = PendingCallModel { name, span: span_early, args };
    assert(pending_calls(seq![c_early]) =~= seq![p]);
    assert(pending_calls(call_first) =~= seq![p]);
    assert(seq![p].drop_first() =~= Seq::<PendingCallModel>::empty());
    assert(deferred_diagnostics(funcs, Seq::<PendingCallModel>::empty())
        == Seq::<DiagnosticModel>::empty());
    assert(seq![p][0] == p);
    assert(deferred_diagnostics(funcs, seq![p]) =~= seq![
        arity_diagnostic(span_early, name, params, args),
    ]);
    assert(pass_diagnostics(call_first) =~= seq![
        arity_diagnostic(span_early, name, params, args),
    ]);

    assert(define_first.drop_last() =~= seq![d]);
    assert(seq![d].drop_last() =~= Seq::<Event>::empty());
    assert(defines_map(seq![d]) == funcs);
    assert(defines_map(define_first) == funcs);
    assert(immediate_diagnostics(seq![d]) =~= Seq::<DiagnosticModel>::empty());
    assert(immediate_diagnostics(define_first) =~= seq![
        arity_diagnostic(span_late, name, params, args),
    ]);
    assert(pending_calls(seq![d]) =~= Seq::<PendingCallModel>::empty());
    assert(pending_calls(define_first) =~= Seq::<PendingCallModel>::empty());
    assert(deferred_diagnostics(funcs, Seq::<PendingCallModel>::empty())
        =~= Seq::<DiagnosticModel>::empty());
    assert(pass_diagnostics(define_first) =~= seq![
        arity_diagnostic(span_late, name, params, args),
    ]);
}

/// Idempotence: two runs over the same unmodified program tree agree —
/// both succeed or both fail, and they carry the same diagnostics in the
/// same order.  The outcome is a function of the tree alone.
pub proof fn lemma_pass_idempotent(evs: Seq<Event>, first: AnalysisResult, second: AnalysisResult)
    requires
        outcome_matches(evs, first),
        outcome_matches(evs, second),
    ensures
        first is Ok <==> second is Ok,
        result_model(first) == result_model(second),
{
    match first {
        Ok(v) => {
            assert(result_model(first) =~= Seq::<DiagnosticModel>::empty());
        },
        Err(d) => {},
    }
    match second {
        Ok(v) => {
            assert(result_model(second) =~= Seq::<DiagnosticModel>::empty());
        },
        Err(d) => {},
    }
}

} // verus!
