//! The mathematical model of the orchestrator's single depth-first walk:
//! what tree it leaves behind, which diagnostics it records, and which hook
//! invocations it performs, node by node. The orchestrator's methods are
//! verified against these functions, and the traversal laws — identity under
//! an all-disabled configuration, exactly-once hook invocation per node in
//! declared pass order, and no early termination of diagnostic collection —
//! are proved of them here.

use vstd::prelude::*;

use crate::TransformOptions;
use crate::ast::{ExprView, StmtView, expr_size, exprs_size, stmt_size, stmts_size};
use crate::decorators::{decorator_diags_stmt, lower_decorators_stmt};
use crate::diagnostics::Diagnostic;
use crate::react::expand_jsx_expr;
use crate::typescript::erase_types_stmt;

verus! {

/// Which pass a hook invocation belongs to. The declared pass order is fixed
/// in the orchestrator: type erasure first, then JSX expansion, then
/// decorator desugaring.
pub enum PassKind {
    TypeScript,
    React,
    Decorators,
}

/// One hook invocation performed by the walk: at which node — the path of
/// child indices from the walk's root — and by which pass.
pub struct HookEvent {
    pub path: Seq<int>,
    pub pass: PassKind,
}

/// Every statement hook applied at one node, in declared order: type erasure
/// first, then decorator desugaring. (The JSX-expansion pass applies only to
/// expressions.)
pub open spec fn hooked_stmt(t: TransformOptions, s: StmtView) -> StmtView {
    lower_decorators_stmt(t.decorators, erase_types_stmt(t.typescript, s))
}

/// The diagnostics those hooks record at one statement node, in hook order.
pub open spec fn hook_diags_stmt(t: TransformOptions, s: StmtView) -> Seq<Diagnostic> {
    decorator_diags_stmt(t.decorators, erase_types_stmt(t.typescript, s))
}

/// Every expression hook applied at one node: JSX expansion alone, which
/// records no diagnostics.
pub open spec fn hooked_expr(t: TransformOptions, e: ExprView) -> ExprView {
    expand_jsx_expr(t.react, e)
}

/// Unfolding step for sizes: a sequence with one element in front.
proof fn lemma_exprs_size_cons(x: ExprView, es: Seq<ExprView>)
    ensures
        exprs_size(seq![x] + es) == expr_size(x) + exprs_size(es),
{
    let s = seq![x] + es;
    assert(s[0] == x);
    assert(s.subrange(1, s.len() as int) =~= es);
}

/// The statement hooks never change a node's structural size.
pub proof fn lemma_hooked_stmt_size(t: TransformOptions, s: StmtView)
    ensures
        stmt_size(hooked_stmt(t, s)) == stmt_size(s),
{
}

/// The expression hook never grows a node's structural size.
pub proof fn lemma_hooked_expr_size(t: TransformOptions, e: ExprView)
    ensures
        expr_size(hooked_expr(t, e)) <= expr_size(e),
{
    if t.react.enabled {
        match e {
            ExprView::JsxElement { tag, children } => {
                lemma_exprs_size_cons(ExprView::StringLiteral(tag), children);
            },
            _ => {},
        }
    }
}

/// The tree the walk leaves behind for one statement: every statement hook
/// runs at the node in declared order, then the walk descends into the
/// rewritten node's current children, left to right.
pub open spec fn walked_stmt(t: TransformOptions, s: StmtView) -> StmtView
    decreases stmt_size(s), 0nat,
    via walked_stmt_decreases
{
    match hooked_stmt(t, s) {
        StmtView::FunctionDeclaration { name, params, return_type, body } => {
            StmtView::FunctionDeclaration {
                name,
                params,
                return_type,
                body: walked_stmts(t, body),
            }
        },
        StmtView::ClassDeclaration { name, decorators, body } => {
            StmtView::ClassDeclaration { name, decorators, body: walked_stmts(t, body) }
        },
        StmtView::ExpressionStatement(e) => StmtView::ExpressionStatement(walked_expr(t, e)),
        StmtView::Empty => StmtView::Empty,
    }
}

#[via_fn]
proof fn walked_stmt_decreases(t: TransformOptions, s: StmtView) {
    lemma_hooked_stmt_size(t, s);
}

/// The walk of a statement sequence, statement by statement, in order.
pub open spec fn walked_stmts(t: TransformOptions, ss: Seq<StmtView>) -> Seq<StmtView>
    decreases stmts_size(ss), ss.len(),
{
    if ss.len() == 0 {
        Seq::empty()
    } else {
        seq![walked_stmt(t, ss[0])] + walked_stmts(t, ss.subrange(1, ss.len() as int))
    }
}

/// The tree the walk leaves behind for one expression.
pub open spec fn walked_expr(t: TransformOptions, e: ExprView) -> ExprView
    decreases expr_size(e), 0nat,
    via walked_expr_decreases
{
    match hooked_expr(t, e) {
        ExprView::Identifier(name) => ExprView::Identifier(name),
        ExprView::StringLiteral(value) => ExprView::StringLiteral(value),
        ExprView::JsxElement { tag, children } => {
            ExprView::JsxElement { tag, children: walked_exprs(t, children) }
        },
        ExprView::Call { callee, arguments } => {
            ExprView::Call { callee, arguments: walked_exprs(t, arguments) }
        },
    }
}

#[via_fn]
proof fn walked_expr_decreases(t: TransformOptions, e: ExprView) {
    lemma_hooked_expr_size(t, e);
}

/// The walk of an expression sequence, in order.
pub open spec fn walked_exprs(t: TransformOptions, es: Seq<ExprView>) -> Seq<ExprView>
    decreases exprs_size(es), es.len(),
{
    if es.len() == 0 {
        Seq::empty()
    } else {
        seq![walked_expr(t, es[0])] + walked_exprs(t, es.subrange(1, es.len() as int))
    }
}

/// The diagnostics the walk records for one statement, in order: what the
/// hooks record at the node itself, then what the walk of its current
/// children records. Expression subtrees contribute none, since the one
/// expression hook records none.
pub open spec fn walk_diags_stmt(t: TransformOptions, s: StmtView) -> Seq<Diagnostic>
    decreases stmt_size(s), 0nat,
    via walk_diags_stmt_decreases
{
    hook_diags_stmt(t, s) + match hooked_stmt(t, s) {
        StmtView::FunctionDeclaration { body, .. } => walk_diags_stmts(t, body),
        StmtView::ClassDeclaration { body, .. } => walk_diags_stmts(t, body),
        StmtView::ExpressionStatement(_) => Seq::empty(),
        StmtView::Empty => Seq::empty(),
    }
}

#[via_fn]
proof fn walk_diags_stmt_decreases(t: TransformOptions, s: StmtView) {
    lemma_hooked_stmt_size(t, s);
}

/// The diagnostics the walk records for a statement sequence, in order.
pub open spec fn walk_diags_stmts(t: TransformOptions, ss: Seq<StmtView>) -> Seq<Diagnostic>
    decreases stmts_size(ss), ss.len(),
{
    if ss.len() == 0 {
        Seq::empty()
    } else {
        walk_diags_stmt(t, ss[0]) + walk_diags_stmts(t, ss.subrange(1, ss.len() as int))
    }
}

/// The hook invocations of the walk of one statement standing at path `p`:
/// the statement hooks at the node itself, in declared order, then the
/// invocations of the walk of the rewritten node's i-th child, at path
/// `p.push(i)`.
pub open spec fn walk_trace_stmt(t: TransformOptions, s: StmtView, p: Seq<int>) -> Seq<HookEvent>
    decreases stmt_size(s), 0nat,
    via walk_trace_stmt_decreases
{
    seq![
        HookEvent { path: p, pass: PassKind::TypeScript },
        HookEvent { path: p, pass: PassKind::Decorators },
    ] + match hooked_stmt(t, s) {
        StmtView::FunctionDeclaration { body, .. } => walk_trace_stmts(t, body, p, 0),
        StmtView::ClassDeclaration { body, .. } => walk_trace_stmts(t, body, p, 0),
        StmtView::ExpressionStatement(e) => walk_trace_expr(t, e, p.push(0)),
        StmtView::Empty => Seq::empty(),
    }
}

#[via_fn]
proof fn walk_trace_stmt_decreases(t: TransformOptions, s: StmtView, p: Seq<int>) {
    lemma_hooked_stmt_size(t, s);
}

/// The hook invocations of the walk of a statement sequence whose j-th
/// element stands at path `p.push(i + j)`.
pub open spec fn walk_trace_stmts(
    t: TransformOptions,
    ss: Seq<StmtView>,
    p: Seq<int>,
    i: int,
) -> Seq<HookEvent>
    decreases stmts_size(ss), ss.len(),
{
    if ss.len() == 0 {
        Seq::empty()
    } else {
        walk_trace_stmt(t, ss[0], p.push(i)) + walk_trace_stmts(
            t,
            ss.subrange(1, ss.len() as int),
            p,
            i + 1,
        )
    }
}

/// The hook invocations of the walk of one expression standing at path `p`.
pub open spec fn walk_trace_expr(t: TransformOptions, e: ExprView, p: Seq<int>) -> Seq<HookEvent>
    decreases expr_size(e), 0nat,
    via walk_trace_expr_decreases
{
    seq![HookEvent { path: p, pass: PassKind::React }] + match hooked_expr(t, e) {
        ExprView::JsxElement { children, .. } => walk_trace_exprs(t, children, p, 0),
        ExprView::Call { arguments, .. } => walk_trace_exprs(t, arguments, p, 0),
        ExprView::Identifier(_) => Seq::empty(),
        ExprView::StringLiteral(_) => Seq::empty(),
    }
}

#[via_fn]
proof fn walk_trace_expr_decreases(t: TransformOptions, e: ExprView, p: Seq<int>) {
    lemma_hooked_expr_size(t, e);
}

/// The hook invocations of the walk of an expression sequence whose j-th
/// element stands at path `p.push(i + j)`.
pub open spec fn walk_trace_exprs(
    t: TransformOptions,
    es: Seq<ExprView>,
    p: Seq<int>,
    i: int,
) -> Seq<HookEvent>
    decreases exprs_size(es), es.len(),
{
    if es.len() == 0 {
        Seq::empty()
    } else {
        walk_trace_expr(t, es[0], p.push(i)) + walk_trace_exprs(
            t,
            es.subrange(1, es.len() as int),
            p,
            i + 1,
        )
    }
}


/// The hook invocations a statement subtree is owed: two per statement node
/// (its two statement hooks, type erasure and decorator desugaring) plus one
/// per expression node (its one expression hook, JSX expansion).
pub open spec fn owed_hooks_stmt(s: StmtView) -> nat
    decreases s,
{
    match s {
        StmtView::FunctionDeclaration { body, .. } => 2 + owed_hooks_stmts(body),
        StmtView::ClassDeclaration { body, .. } => 2 + owed_hooks_stmts(body),
        StmtView::ExpressionStatement(e) => 2 + owed_hooks_expr(e),
        StmtView::Empty => 2,
    }
}

/// The hook invocations a statement sequence is owed.
pub open spec fn owed_hooks_stmts(ss: Seq<StmtView>) -> nat
    decreases ss,
{
    if ss.len() == 0 {
        0
    } else {
        owed_hooks_stmt(ss[0]) + owed_hooks_stmts(ss.subrange(1, ss.len() as int))
    }
}

/// The hook invocations an expression subtree is owed.
pub open spec fn owed_hooks_expr(e: ExprView) -> nat
    decreases e,
{
    match e {
        ExprView::Identifier(_) => 1,
        ExprView::StringLiteral(_) => 1,
        ExprView::JsxElement { children, .. } => 1 + owed_hooks_exprs(children),
        ExprView::Call { arguments, .. } => 1 + owed_hooks_exprs(arguments),
    }
}

/// The hook invocations an expression sequence is owed.
pub open spec fn owed_hooks_exprs(es: Seq<ExprView>) -> nat
    decreases es,
{
    if es.len() == 0 {
        0
    } else {
        owed_hooks_expr(es[0]) + owed_hooks_exprs(es.subrange(1, es.len() as int))
    }
}

/// Exactly one traversal, whatever the tree and the configuration: the walk
/// of a statement performs exactly two hook invocations per statement node
/// plus one per expression node of the tree it leaves behind — every node of
/// that tree is visited, none twice, none skipped, at a cost linear in tree
/// size times pass count. Together with the once-in-order lemmas below, each
/// node's share is exactly its own declared hook sequence.
pub proof fn lemma_single_traversal_stmt(t: TransformOptions, s: StmtView, p: Seq<int>)
    ensures
        walk_trace_stmt(t, s, p).len() == owed_hooks_stmt(walked_stmt(t, s)),
    decreases stmt_size(s), 0nat,
{
    lemma_hooked_stmt_size(t, s);
    match hooked_stmt(t, s) {
        StmtView::FunctionDeclaration { body, .. } => {
            lemma_single_traversal_stmts(t, body, p, 0);
            assert(owed_hooks_stmt(walked_stmt(t, s)) == 2 + owed_hooks_stmts(
                walked_stmts(t, body),
            ));
        },
        StmtView::ClassDeclaration { body, .. } => {
            lemma_single_traversal_stmts(t, body, p, 0);
            assert(owed_hooks_stmt(walked_stmt(t, s)) == 2 + owed_hooks_stmts(
                walked_stmts(t, body),
            ));
        },
        StmtView::ExpressionStatement(e) => {
            lemma_single_traversal_expr(t, e, p.push(0));
            assert(owed_hooks_stmt(walked_stmt(t, s)) == 2 + owed_hooks_expr(walked_expr(t, e)));
        },
        StmtView::Empty => {},
    }
}

/// Whole-run form of `lemma_single_traversal_stmt`, for a statement sequence
/// — in particular for the program body the run starts from.
pub proof fn lemma_single_traversal_stmts(
    t: TransformOptions,
    ss: Seq<StmtView>,
    p: Seq<int>,
    i: int,
)
    ensures
        walk_trace_stmts(t, ss, p, i).len() == owed_hooks_stmts(walked_stmts(t, ss)),
    decreases stmts_size(ss), ss.len(),
{
    if ss.len() > 0 {
        let rest = ss.subrange(1, ss.len() as int);
        lemma_single_traversal_stmt(t, ss[0], p.push(i));
        lemma_single_traversal_stmts(t, rest, p, i + 1);
        let ws = walked_stmts(t, ss);
        assert(ws == seq![walked_stmt(t, ss[0])] + walked_stmts(t, rest));
        assert(ws.len() >= 1);
        assert(ws[0] == walked_stmt(t, ss[0]));
        assert(ws.subrange(1, ws.len() as int) =~= walked_stmts(t, rest));
        assert(owed_hooks_stmts(ws) == owed_hooks_stmt(ws[0]) + owed_hooks_stmts(
            ws.subrange(1, ws.len() as int),
        ));
    }
}

/// Expression form of `lemma_single_traversal_stmt`.
pub proof fn lemma_single_traversal_expr(t: TransformOptions, e: ExprView, p: Seq<int>)
    ensures
        walk_trace_expr(t, e, p).len() == owed_hooks_expr(walked_expr(t, e)),
    decreases expr_size(e), 0nat,
{
    lemma_hooked_expr_size(t, e);
    match hooked_expr(t, e) {
        ExprView::JsxElement { children, .. } => {
            lemma_single_traversal_exprs(t, children, p, 0);
            assert(owed_hooks_expr(walked_expr(t, e)) == 1 + owed_hooks_exprs(
                walked_exprs(t, children),
            ));
        },
        ExprView::Call { arguments, .. } => {
            lemma_single_traversal_exprs(t, arguments, p, 0);
            assert(owed_hooks_expr(walked_expr(t, e)) == 1 + owed_hooks_exprs(
                walked_exprs(t, arguments),
            ));
        },
        ExprView::Identifier(_) => {},
        ExprView::StringLiteral(_) => {},
    }
}

/// Expression-sequence form of `lemma_single_traversal_stmt`.
pub proof fn lemma_single_traversal_exprs(
    t: TransformOptions,
    es: Seq<ExprView>,
    p: Seq<int>,
    i: int,
)
    ensures
        walk_trace_exprs(t, es, p, i).len() == owed_hooks_exprs(walked_exprs(t, es)),
    decreases exprs_size(es), es.len(),
{
    if es.len() > 0 {
        let rest = es.subrange(1, es.len() as int);
        lemma_single_traversal_expr(t, es[0], p.push(i));
        lemma_single_traversal_exprs(t, rest, p, i + 1);
        let ws = walked_exprs(t, es);
        assert(ws == seq![walked_expr(t, es[0])] + walked_exprs(t, rest));
        assert(ws.len() >= 1);
        assert(ws[0] == walked_expr(t, es[0]));
        assert(ws.subrange(1, ws.len() as int) =~= walked_exprs(t, rest));
        assert(owed_hooks_exprs(ws) == owed_hooks_expr(ws[0]) + owed_hooks_exprs(
            ws.subrange(1, ws.len() as int),
        ));
    }
}

/// With every pass disabled, the walk of any expression is a pure identity
/// transform, with every pass disabled through the configuration.
pub proof fn lemma_walk_identity_expr(t: TransformOptions, e: ExprView)
    requires
        !t.typescript.enabled,
        !t.react.enabled,
        !t.decorators.enabled,
    ensures
        walked_expr(t, e) == e,
    decreases expr_size(e), 0nat,
{
    assert(hooked_expr(t, e) == e);
    match e {
        ExprView::JsxElement { tag, children } => {
            lemma_walk_identity_exprs(t, children);
        },
        ExprView::Call { callee, arguments } => {
            lemma_walk_identity_exprs(t, arguments);
        },
        _ => {},
    }
}

/// Elementwise form of `lemma_walk_identity_expr`.
pub proof fn lemma_walk_identity_exprs(t: TransformOptions, es: Seq<ExprView>)
    requires
        !t.typescript.enabled,
        !t.react.enabled,
        !t.decorators.enabled,
    ensures
        walked_exprs(t, es) == es,
    decreases exprs_size(es), es.len(),
{
    if es.len() == 0 {
        assert(walked_exprs(t, es) =~= es);
    } else {
        lemma_walk_identity_expr(t, es[0]);
        lemma_walk_identity_exprs(t, es.subrange(1, es.len() as int));
        assert(walked_exprs(t, es) =~= es);
    }
}

/// With every pass disabled through the configuration, the walk of any
/// statement is a pure identity transform and records no diagnostics.
pub proof fn lemma_walk_identity_stmt(t: TransformOptions, s: StmtView)
    requires
        !t.typescript.enabled,
        !t.react.enabled,
        !t.decorators.enabled,
    ensures
        walked_stmt(t, s) == s,
        walk_diags_stmt(t, s) == Seq::<Diagnostic>::empty(),
    decreases stmt_size(s), 0nat,
{
    assert(hooked_stmt(t, s) == s);
    assert(hook_diags_stmt(t, s) == Seq::<Diagnostic>::empty());
    match s {
        StmtView::FunctionDeclaration { body, .. } => {
            lemma_walk_identity_stmts(t, body);
        },
        StmtView::ClassDeclaration { body, .. } => {
            lemma_walk_identity_stmts(t, body);
        },
        StmtView::ExpressionStatement(e) => {
            lemma_walk_identity_expr(t, e);
        },
        StmtView::Empty => {},
    }
    assert(walk_diags_stmt(t, s) =~= Seq::<Diagnostic>::empty());
}

/// Identity on a no-op configuration: with every pass disabled, the whole
/// run leaves any statement sequence — in particular a program body —
/// structurally unchanged, and its diagnostic sequence empty.
pub proof fn lemma_walk_identity_stmts(t: TransformOptions, ss: Seq<StmtView>)
    requires
        !t.typescript.enabled,
        !t.react.enabled,
        !t.decorators.enabled,
    ensures
        walked_stmts(t, ss) == ss,
        walk_diags_stmts(t, ss) == Seq::<Diagnostic>::empty(),
    decreases stmts_size(ss), ss.len(),
{
    if ss.len() == 0 {
        assert(walked_stmts(t, ss) =~= ss);
    } else {
        lemma_walk_identity_stmt(t, ss[0]);
        lemma_walk_identity_stmts(t, ss.subrange(1, ss.len() as int));
        assert(walked_stmts(t, ss) =~= ss);
        assert(walk_diags_stmts(t, ss) =~= Seq::<Diagnostic>::empty());
    }
}

/// No early termination: the diagnostics of a statement sequence are exactly
/// the diagnostics of the statements before `i`, then those of statement
/// `i`'s whole subtree, then those of the statements after `i` — in visit
/// order. A problem found in one subtree never truncates or suppresses what
/// disjoint subtrees report.
pub proof fn lemma_no_early_termination(t: TransformOptions, ss: Seq<StmtView>, i: int)
    requires
        0 <= i < ss.len(),
    ensures
        walk_diags_stmts(t, ss) == walk_diags_stmts(t, ss.subrange(0, i)) + walk_diags_stmt(
            t,
            ss[i],
        ) + walk_diags_stmts(t, ss.subrange(i + 1, ss.len() as int)),
    decreases i,
{
    let rest = ss.subrange(1, ss.len() as int);
    if i == 0 {
        assert(ss.subrange(0, 0) =~= Seq::<StmtView>::empty());
        assert(walk_diags_stmts(t, ss.subrange(0, 0)) == Seq::<Diagnostic>::empty());
        assert(walk_diags_stmts(t, ss) =~= walk_diags_stmts(t, ss.subrange(0, 0))
            + walk_diags_stmt(t, ss[0]) + walk_diags_stmts(t, ss.subrange(1, ss.len() as int)));
    } else {
        lemma_no_early_termination(t, rest, i - 1);
        assert(rest.subrange(0, i - 1) =~= ss.subrange(1, i));
        assert(rest[i - 1] == ss[i]);
        assert(rest.subrange(i, rest.len() as int) =~= ss.subrange(i + 1, ss.len() as int));
        let front = ss.subrange(0, i);
        assert(front[0] == ss[0]);
        assert(front.subrange(1, front.len() as int) =~= ss.subrange(1, i));
        assert(walk_diags_stmts(t, front) == walk_diags_stmt(t, ss[0]) + walk_diags_stmts(
            t,
            ss.subrange(1, i),
        ));
        assert(walk_diags_stmts(t, ss) =~= walk_diags_stmts(t, front) + walk_diags_stmt(t, ss[i])
            + walk_diags_stmts(t, ss.subrange(i + 1, ss.len() as int)));
    }
}

/// Every invocation in the walk of a statement at path `p` happens at `p` or
/// below: its path extends `p`.
proof fn lemma_trace_stmt_path_depths(t: TransformOptions, s: StmtView, p: Seq<int>)
    ensures
        forall|j: int| #![trigger walk_trace_stmt(t, s, p)[j]]
            0 <= j < walk_trace_stmt(t, s, p).len() ==> walk_trace_stmt(t, s, p)[j].path.len()
                >= p.len() && walk_trace_stmt(t, s, p)[j].path.subrange(0, p.len() as int) == p,
    decreases stmt_size(s), 0nat,
{
    let tr = walk_trace_stmt(t, s, p);
    lemma_hooked_stmt_size(t, s);
    assert(p.subrange(0, p.len() as int) =~= p);
    match hooked_stmt(t, s) {
        StmtView::FunctionDeclaration { body, .. } => {
            lemma_trace_stmts_path_depths(t, body, p, 0);
            assert forall|j: int| 0 <= j < tr.len() implies tr[j].path.len() >= p.len()
                && tr[j].path.subrange(0, p.len() as int) == p by {
                if 2 <= j {
                    assert(tr[j] == walk_trace_stmts(t, body, p, 0)[j - 2]);
                }
            }
        },
        StmtView::ClassDeclaration { body, .. } => {
            lemma_trace_stmts_path_depths(t, body, p, 0);
            assert forall|j: int| 0 <= j < tr.len() implies tr[j].path.len() >= p.len()
                && tr[j].path.subrange(0, p.len() as int) == p by {
                if 2 <= j {
                    assert(tr[j] == walk_trace_stmts(t, body, p, 0)[j - 2]);
                }
            }
        },
        StmtView::ExpressionStatement(e) => {
            let p2 = p.push(0);
            lemma_trace_expr_path_depths(t, e, p2);
            assert forall|j: int| 0 <= j < tr.len() implies tr[j].path.len() >= p.len()
                && tr[j].path.subrange(0, p.len() as int) == p by {
                if 2 <= j {
                    assert(tr[j] == walk_trace_expr(t, e, p2)[j - 2]);
                    let q = tr[j].path;
                    assert(q.subrange(0, p2.len() as int) == p2);
                    assert forall|k: int| 0 <= k < p.len() implies q.subrange(
                        0,
                        p.len() as int,
                    )[k] == p[k] by {
                        assert(q.subrange(0, p2.len() as int)[k] == q[k]);
                    }
                    assert(q.subrange(0, p.len() as int) =~= p);
                }
            }
        },
        StmtView::Empty => {},
    }
}

/// Every invocation in the walk of a statement sequence under path `p`
/// happens strictly below `p`: its path extends `p`, and the child index
/// right after `p` is at least `i` — so sibling subtrees walk disjoint paths.
proof fn lemma_trace_stmts_path_depths(t: TransformOptions, ss: Seq<StmtView>, p: Seq<int>, i: int)
    ensures
        forall|j: int| #![trigger walk_trace_stmts(t, ss, p, i)[j]]
            0 <= j < walk_trace_stmts(t, ss, p, i).len() ==> walk_trace_stmts(
                t,
                ss,
                p,
                i,
            )[j].path.len() > p.len() && walk_trace_stmts(t, ss, p, i)[j].path.subrange(
                0,
                p.len() as int,
            ) == p && walk_trace_stmts(t, ss, p, i)[j].path[p.len() as int] >= i,
    decreases stmts_size(ss), ss.len(),
{
    if ss.len() > 0 {
        let tr = walk_trace_stmts(t, ss, p, i);
        let p2 = p.push(i);
        let head = walk_trace_stmt(t, ss[0], p2);
        lemma_trace_stmt_path_depths(t, ss[0], p2);
        lemma_trace_stmts_path_depths(t, ss.subrange(1, ss.len() as int), p, i + 1);
        assert forall|j: int| 0 <= j < tr.len() implies tr[j].path.len() > p.len()
            && tr[j].path.subrange(0, p.len() as int) == p && tr[j].path[p.len() as int]
            >= i by {
            if j < head.len() {
                assert(tr[j] == head[j]);
                let q = tr[j].path;
                assert(q.subrange(0, p2.len() as int) == p2);
                assert forall|k: int| 0 <= k < p.len() implies q.subrange(0, p.len() as int)[k]
                    == p[k] by {
                    assert(q.subrange(0, p2.len() as int)[k] == q[k]);
                }
                assert(q.subrange(0, p.len() as int) =~= p);
                assert(q.subrange(0, p2.len() as int)[p.len() as int] == q[p.len() as int]);
                assert(q[p.len() as int] == i);
            } else {
                assert(tr[j] == walk_trace_stmts(t, ss.subrange(1, ss.len() as int), p, i + 1)[j
                    - head.len()]);
            }
        }
    }
}

/// Every invocation in the walk of an expression at path `p` happens at `p`
/// or below: its path extends `p`.
proof fn lemma_trace_expr_path_depths(t: TransformOptions, e: ExprView, p: Seq<int>)
    ensures
        forall|j: int| #![trigger walk_trace_expr(t, e, p)[j]]
            0 <= j < walk_trace_expr(t, e, p).len() ==> walk_trace_expr(t, e, p)[j].path.len()
                >= p.len() && walk_trace_expr(t, e, p)[j].path.subrange(0, p.len() as int) == p,
    decreases expr_size(e), 0nat,
{
    let tr = walk_trace_expr(t, e, p);
    lemma_hooked_expr_size(t, e);
    assert(p.subrange(0, p.len() as int) =~= p);
    match hooked_expr(t, e) {
        ExprView::JsxElement { children, .. } => {
            lemma_trace_exprs_path_depths(t, children, p, 0);
            assert forall|j: int| 0 <= j < tr.len() implies tr[j].path.len() >= p.len()
                && tr[j].path.subrange(0, p.len() as int) == p by {
                if 1 <= j {
                    assert(tr[j] == walk_trace_exprs(t, children, p, 0)[j - 1]);
                }
            }
        },
        ExprView::Call { arguments, .. } => {
            lemma_trace_exprs_path_depths(t, arguments, p, 0);
            assert forall|j: int| 0 <= j < tr.len() implies tr[j].path.len() >= p.len()
                && tr[j].path.subrange(0, p.len() as int) == p by {
                if 1 <= j {
                    assert(tr[j] == walk_trace_exprs(t, arguments, p, 0)[j - 1]);
                }
            }
        },
        ExprView::Identifier(_) => {},
        ExprView::StringLiteral(_) => {},
    }
}

/// Every invocation in the walk of an expression sequence under path `p`
/// happens strictly below `p`: its path extends `p`, and the child index
/// right after `p` is at least `i` — so sibling subtrees walk disjoint paths.
proof fn lemma_trace_exprs_path_depths(t: TransformOptions, es: Seq<ExprView>, p: Seq<int>, i: int)
    ensures
        forall|j: int| #![trigger walk_trace_exprs(t, es, p, i)[j]]
            0 <= j < walk_trace_exprs(t, es, p, i).len() ==> walk_trace_exprs(
                t,
                es,
                p,
                i,
            )[j].path.len() > p.len() && walk_trace_exprs(t, es, p, i)[j].path.subrange(
                0,
                p.len() as int,
            ) == p && walk_trace_exprs(t, es, p, i)[j].path[p.len() as int] >= i,
    decreases exprs_size(es), es.len(),
{
    if es.len() > 0 {
        let tr = walk_trace_exprs(t, es, p, i);
        let p2 = p.push(i);
        let head = walk_trace_expr(t, es[0], p2);
        lemma_trace_expr_path_depths(t, es[0], p2);
        lemma_trace_exprs_path_depths(t, es.subrange(1, es.len() as int), p, i + 1);
        assert forall|j: int| 0 <= j < tr.len() implies tr[j].path.len() > p.len()
            && tr[j].path.subrange(0, p.len() as int) == p && tr[j].path[p.len() as int]
            >= i by {
            if j < head.len() {
                assert(tr[j] == head[j]);
                let q = tr[j].path;
                assert(q.subrange(0, p2.len() as int) == p2);
                assert forall|k: int| 0 <= k < p.len() implies q.subrange(0, p.len() as int)[k]
                    == p[k] by {
                    assert(q.subrange(0, p2.len() as int)[k] == q[k]);
                }
                assert(q.subrange(0, p.len() as int) =~= p);
                assert(q.subrange(0, p2.len() as int)[p.len() as int] == q[p.len() as int]);
                assert(q[p.len() as int] == i);
            } else {
                assert(tr[j] == walk_trace_exprs(t, es.subrange(1, es.len() as int), p, i + 1)[j
                    - head.len()]);
            }
        }
    }
}

/// Exactly-once visitation in fixed declared order, at any statement node:
/// in the walk of a statement standing at path `p`, the invocations at `p`
/// itself are exactly the first two — the type-erasure statement hook, then
/// the decorator statement hook, the declared order — and every later
/// invocation of that walk belongs to a node strictly below `p`, so no pass
/// runs at the node a second time. Every visited node is the root of such a
/// sub-walk, so this holds at every node of every tree.
pub proof fn lemma_stmt_hooks_once_in_declared_order(t: TransformOptions, s: StmtView, p: Seq<int>)
    ensures
        walk_trace_stmt(t, s, p).len() >= 2,
        walk_trace_stmt(t, s, p)[0] == (HookEvent { path: p, pass: PassKind::TypeScript }),
        walk_trace_stmt(t, s, p)[1] == (HookEvent { path: p, pass: PassKind::Decorators }),
        forall|j: int| #![trigger walk_trace_stmt(t, s, p)[j]]
            2 <= j < walk_trace_stmt(t, s, p).len() ==> walk_trace_stmt(t, s, p)[j].path != p,
{
    let tr = walk_trace_stmt(t, s, p);
    match hooked_stmt(t, s) {
        StmtView::FunctionDeclaration { body, .. } => {
            lemma_trace_stmts_path_depths(t, body, p, 0);
            assert forall|j: int| 2 <= j < tr.len() implies (#[trigger] tr[j]).path != p by {
                assert(tr[j] == walk_trace_stmts(t, body, p, 0)[j - 2]);
                assert(tr[j].path.len() > p.len());
            }
        },
        StmtView::ClassDeclaration { body, .. } => {
            lemma_trace_stmts_path_depths(t, body, p, 0);
            assert forall|j: int| 2 <= j < tr.len() implies (#[trigger] tr[j]).path != p by {
                assert(tr[j] == walk_trace_stmts(t, body, p, 0)[j - 2]);
                assert(tr[j].path.len() > p.len());
            }
        },
        StmtView::ExpressionStatement(e) => {
            lemma_trace_expr_path_depths(t, e, p.push(0));
            assert forall|j: int| 2 <= j < tr.len() implies (#[trigger] tr[j]).path != p by {
                assert(tr[j] == walk_trace_expr(t, e, p.push(0))[j - 2]);
                assert(tr[j].path.len() >= p.len() + 1);
            }
        },
        StmtView::Empty => {},
    }
}

/// Exactly-once visitation in fixed order, at any expression node: in the
/// walk of an expression standing at path `p`, the one invocation at `p` is
/// the first — the JSX-expansion expression hook, the only pass that applies
/// to expressions — and every later invocation belongs to a node strictly
/// below `p`.
pub proof fn lemma_expr_hooks_once_in_declared_order(t: TransformOptions, e: ExprView, p: Seq<int>)
    ensures
        walk_trace_expr(t, e, p).len() >= 1,
        walk_trace_expr(t, e, p)[0] == (HookEvent { path: p, pass: PassKind::React }),
        forall|j: int| #![trigger walk_trace_expr(t, e, p)[j]]
            1 <= j < walk_trace_expr(t, e, p).len() ==> walk_trace_expr(t, e, p)[j].path != p,
{
    let tr = walk_trace_expr(t, e, p);
    match hooked_expr(t, e) {
        ExprView::JsxElement { children, .. } => {
            lemma_trace_exprs_path_depths(t, children, p, 0);
            assert forall|j: int| 1 <= j < tr.len() implies (#[trigger] tr[j]).path != p by {
                assert(tr[j] == walk_trace_exprs(t, children, p, 0)[j - 1]);
                assert(tr[j].path.len() > p.len());
            }
        },
        ExprView::Call { arguments, .. } => {
            lemma_trace_exprs_path_depths(t, arguments, p, 0);
            assert forall|j: int| 1 <= j < tr.len() implies (#[trigger] tr[j]).path != p by {
                assert(tr[j] == walk_trace_exprs(t, arguments, p, 0)[j - 1]);
                assert(tr[j].path.len() > p.len());
            }
        },
        ExprView::Identifier(_) => {},
        ExprView::StringLiteral(_) => {},
    }
}


/// The predicate picking the invocations that happened at node `q`.
pub open spec fn at_path(q: Seq<int>) -> spec_fn(HookEvent) -> bool {
    |ev: HookEvent| ev.path == q
}

/// The statement-hook invocations owed at one node, in declared order.
pub open spec fn stmt_hooks_at(q: Seq<int>) -> Seq<HookEvent> {
    seq![
        HookEvent { path: q, pass: PassKind::TypeScript },
        HookEvent { path: q, pass: PassKind::Decorators },
    ]
}

/// The expression-hook invocation owed at one node.
pub open spec fn expr_hooks_at(q: Seq<int>) -> Seq<HookEvent> {
    seq![HookEvent { path: q, pass: PassKind::React }]
}

/// A sequence none of whose elements satisfies the predicate filters to
/// nothing.
proof fn lemma_filter_empty_when_none(s: Seq<HookEvent>, pred: spec_fn(HookEvent) -> bool)
    requires
        forall|k: int| 0 <= k < s.len() ==> !pred(#[trigger] s[k]),
    ensures
        s.filter(pred) == Seq::<HookEvent>::empty(),
{
    let f = s.filter(pred);
    if f.len() > 0 {
        s.lemma_filter_pred(pred, 0);
        assert(f.contains(f[0]));
        s.lemma_filter_contains_rev(pred, f[0]);
        let k = choose|k: int| 0 <= k < s.len() && s[k] == f[0];
        assert(!pred(s[k]));
        assert(false);
    }
    assert(f =~= Seq::<HookEvent>::empty());
}

/// Filtering a one-element sequence.
proof fn lemma_filter_single(ev: HookEvent, pred: spec_fn(HookEvent) -> bool)
    ensures
        seq![ev].filter(pred) == (if pred(ev) {
            seq![ev]
        } else {
            Seq::<HookEvent>::empty()
        }),
{
    reveal(Seq::filter);
    let s = seq![ev];
    assert(s.drop_last() =~= Seq::<HookEvent>::empty());
    assert(Seq::<HookEvent>::empty().filter(pred) =~= Seq::<HookEvent>::empty());
    assert(s.last() == ev);
    if pred(ev) {
        assert(s.filter(pred) =~= seq![ev]);
    }
}

/// The empty sequence filters to nothing.
proof fn lemma_filter_empty_seq(pred: spec_fn(HookEvent) -> bool)
    ensures
        Seq::<HookEvent>::empty().filter(pred) == Seq::<HookEvent>::empty(),
{
    reveal(Seq::filter);
    assert(Seq::<HookEvent>::empty().filter(pred) =~= Seq::<HookEvent>::empty());
}

/// Global exactly-once visitation, statement form: pick any node path `q`.
/// Within the walk of a statement standing at path `p`, the invocations that
/// happen at `q` are either none (no node of this walk stands at `q`), or
/// exactly the two statement hooks in declared order, or exactly the one
/// expression hook — never a hook twice, never a partial block, wherever in
/// the whole run `q` lies. Sibling subtrees walk disjoint paths, so not even
/// two distinct visits can share a node.
pub proof fn lemma_hooks_at_every_node_stmt(
    t: TransformOptions,
    s: StmtView,
    p: Seq<int>,
    q: Seq<int>,
)
    ensures
        ({
            let at_q = walk_trace_stmt(t, s, p).filter(at_path(q));
            at_q == Seq::<HookEvent>::empty() || at_q == stmt_hooks_at(q) || at_q == expr_hooks_at(
                q,
            )
        }),
    decreases stmt_size(s), 0nat,
{
    let pred = at_path(q);
    let tr = walk_trace_stmt(t, s, p);
    let e0 = HookEvent { path: p, pass: PassKind::TypeScript };
    let e1 = HookEvent { path: p, pass: PassKind::Decorators };
    let head = seq![e0, e1];
    lemma_hooked_stmt_size(t, s);
    let child = match hooked_stmt(t, s) {
        StmtView::FunctionDeclaration { body, .. } => walk_trace_stmts(t, body, p, 0),
        StmtView::ClassDeclaration { body, .. } => walk_trace_stmts(t, body, p, 0),
        StmtView::ExpressionStatement(e) => walk_trace_expr(t, e, p.push(0)),
        StmtView::Empty => Seq::<HookEvent>::empty(),
    };
    assert(tr == head + child);
    Seq::filter_distributes_over_add(head, child, pred);
    assert(head =~= seq![e0] + seq![e1]);
    Seq::filter_distributes_over_add(seq![e0], seq![e1], pred);
    lemma_filter_single(e0, pred);
    lemma_filter_single(e1, pred);
    if q == p {
        assert(pred(e0) && pred(e1));
        assert(head.filter(pred) =~= stmt_hooks_at(q));
        match hooked_stmt(t, s) {
            StmtView::FunctionDeclaration { body, .. } => {
                lemma_trace_stmts_path_depths(t, body, p, 0);
                assert forall|k: int| 0 <= k < child.len() implies !pred(#[trigger] child[k]) by {
                    assert(child[k].path.len() > p.len());
                }
                lemma_filter_empty_when_none(child, pred);
            },
            StmtView::ClassDeclaration { body, .. } => {
                lemma_trace_stmts_path_depths(t, body, p, 0);
                assert forall|k: int| 0 <= k < child.len() implies !pred(#[trigger] child[k]) by {
                    assert(child[k].path.len() > p.len());
                }
                lemma_filter_empty_when_none(child, pred);
            },
            StmtView::ExpressionStatement(e) => {
                lemma_trace_expr_path_depths(t, e, p.push(0));
                assert forall|k: int| 0 <= k < child.len() implies !pred(#[trigger] child[k]) by {
                    assert(child[k].path.len() >= p.len() + 1);
                }
                lemma_filter_empty_when_none(child, pred);
            },
            StmtView::Empty => {
                lemma_filter_empty_seq(pred);
            },
        }
        assert(tr.filter(pred) =~= stmt_hooks_at(q));
    } else {
        assert(!pred(e0) && !pred(e1));
        assert(head.filter(pred) =~= Seq::<HookEvent>::empty());
        match hooked_stmt(t, s) {
            StmtView::FunctionDeclaration { body, .. } => {
                lemma_hooks_at_every_node_stmts(t, body, p, 0, q);
            },
            StmtView::ClassDeclaration { body, .. } => {
                lemma_hooks_at_every_node_stmts(t, body, p, 0, q);
            },
            StmtView::ExpressionStatement(e) => {
                lemma_hooks_at_every_node_expr(t, e, p.push(0), q);
            },
            StmtView::Empty => {
                lemma_filter_empty_seq(pred);
            },
        }
        assert(tr.filter(pred) =~= child.filter(pred));
    }
}

/// Global exactly-once visitation over a statement sequence — in particular
/// over the program body a whole run starts from: at any node path `q`, the
/// run's invocations at `q` are one node's declared hook block, or none.
pub proof fn lemma_hooks_at_every_node_stmts(
    t: TransformOptions,
    ss: Seq<StmtView>,
    p: Seq<int>,
    i: int,
    q: Seq<int>,
)
    ensures
        ({
            let at_q = walk_trace_stmts(t, ss, p, i).filter(at_path(q));
            at_q == Seq::<HookEvent>::empty() || at_q == stmt_hooks_at(q) || at_q == expr_hooks_at(
                q,
            )
        }),
    decreases stmts_size(ss), ss.len(),
{
    let pred = at_path(q);
    if ss.len() == 0 {
        assert(walk_trace_stmts(t, ss, p, i) == Seq::<HookEvent>::empty());
        lemma_filter_empty_seq(pred);
    } else {
        let rest = ss.subrange(1, ss.len() as int);
        let head = walk_trace_stmt(t, ss[0], p.push(i));
        let tail = walk_trace_stmts(t, rest, p, i + 1);
        assert(walk_trace_stmts(t, ss, p, i) == head + tail);
        Seq::filter_distributes_over_add(head, tail, pred);
        lemma_hooks_at_every_node_stmt(t, ss[0], p.push(i), q);
        lemma_hooks_at_every_node_stmts(t, rest, p, i + 1, q);
        let fh = head.filter(pred);
        let ft = tail.filter(pred);
        if fh.len() > 0 && ft.len() > 0 {
            head.lemma_filter_pred(pred, 0);
            assert(fh.contains(fh[0]));
            head.lemma_filter_contains_rev(pred, fh[0]);
            let k1 = choose|k: int| 0 <= k < head.len() && head[k] == fh[0];
            lemma_trace_stmt_path_depths(t, ss[0], p.push(i));
            assert(head[k1].path == q);
            assert(q.subrange(0, (p.len() + 1) as int) == p.push(i));
            assert(q.subrange(0, (p.len() + 1) as int)[p.len() as int] == q[p.len() as int]);
            assert(q[p.len() as int] == i);
            tail.lemma_filter_pred(pred, 0);
            assert(ft.contains(ft[0]));
            tail.lemma_filter_contains_rev(pred, ft[0]);
            let k2 = choose|k: int| 0 <= k < tail.len() && tail[k] == ft[0];
            lemma_trace_stmts_path_depths(t, rest, p, i + 1);
            assert(tail[k2].path == q);
            assert(q[p.len() as int] >= i + 1);
            assert(false);
        }
        if fh.len() == 0 {
            assert(fh =~= Seq::<HookEvent>::empty());
            assert(fh + ft =~= ft);
        } else {
            assert(ft =~= Seq::<HookEvent>::empty());
            assert(fh + ft =~= fh);
        }
    }
}

/// Global exactly-once visitation, expression form of
/// `lemma_hooks_at_every_node_stmt`.
pub proof fn lemma_hooks_at_every_node_expr(
    t: TransformOptions,
    e: ExprView,
    p: Seq<int>,
    q: Seq<int>,
)
    ensures
        ({
            let at_q = walk_trace_expr(t, e, p).filter(at_path(q));
            at_q == Seq::<HookEvent>::empty() || at_q == stmt_hooks_at(q) || at_q == expr_hooks_at(
                q,
            )
        }),
    decreases expr_size(e), 0nat,
{
    let pred = at_path(q);
    let tr = walk_trace_expr(t, e, p);
    let e0 = HookEvent { path: p, pass: PassKind::React };
    let head = seq![e0];
    lemma_hooked_expr_size(t, e);
    let child = match hooked_expr(t, e) {
        ExprView::JsxElement { children, .. } => walk_trace_exprs(t, children, p, 0),
        ExprView::Call { arguments, .. } => walk_trace_exprs(t, arguments, p, 0),
        ExprView::Identifier(_) => Seq::<HookEvent>::empty(),
        ExprView::StringLiteral(_) => Seq::<HookEvent>::empty(),
    };
    assert(tr == head + child);
    Seq::filter_distributes_over_add(head, child, pred);
    lemma_filter_single(e0, pred);
    if q == p {
        assert(pred(e0));
        assert(head.filter(pred) =~= expr_hooks_at(q));
        match hooked_expr(t, e) {
            ExprView::JsxElement { children, .. } => {
                lemma_trace_exprs_path_depths(t, children, p, 0);
                assert forall|k: int| 0 <= k < child.len() implies !pred(#[trigger] child[k]) by {
                    assert(child[k].path.len() > p.len());
                }
                lemma_filter_empty_when_none(child, pred);
            },
            ExprView::Call { arguments, .. } => {
                lemma_trace_exprs_path_depths(t, arguments, p, 0);
                assert forall|k: int| 0 <= k < child.len() implies !pred(#[trigger] child[k]) by {
                    assert(child[k].path.len() > p.len());
                }
                lemma_filter_empty_when_none(child, pred);
            },
            ExprView::Identifier(_) => {
                lemma_filter_empty_seq(pred);
            },
            ExprView::StringLiteral(_) => {
                lemma_filter_empty_seq(pred);
            },
        }
        assert(tr.filter(pred) =~= expr_hooks_at(q));
    } else {
        assert(!pred(e0));
        assert(head.filter(pred) =~= Seq::<HookEvent>::empty());
        match hooked_expr(t, e) {
            ExprView::JsxElement { children, .. } => {
                lemma_hooks_at_every_node_exprs(t, children, p, 0, q);
            },
            ExprView::Call { arguments, .. } => {
                lemma_hooks_at_every_node_exprs(t, arguments, p, 0, q);
            },
            ExprView::Identifier(_) => {
                lemma_filter_empty_seq(pred);
            },
            ExprView::StringLiteral(_) => {
                lemma_filter_empty_seq(pred);
            },
        }
        assert(tr.filter(pred) =~= child.filter(pred));
    }
}

/// Global exactly-once visitation, expression-sequence form of
/// `lemma_hooks_at_every_node_stmts`.
#[verifier::spinoff_prover]
#[verifier::rlimit(30)]
pub proof fn lemma_hooks_at_every_node_exprs(
    t: TransformOptions,
    es: Seq<ExprView>,
    p: Seq<int>,
    i: int,
    q: Seq<int>,
)
    ensures
        ({
            let at_q = walk_trace_exprs(t, es, p, i).filter(at_path(q));
            at_q == Seq::<HookEvent>::empty() || at_q == stmt_hooks_at(q) || at_q == expr_hooks_at(
                q,
            )
        }),
    decreases exprs_size(es), es.len(),
{
    let pred = at_path(q);
    if es.len() == 0 {
        assert(walk_trace_exprs(t, es, p, i) == Seq::<HookEvent>::empty());
        lemma_filter_empty_seq(pred);
    } else {
        let rest = es.subrange(1, es.len() as int);
        let head = walk_trace_expr(t, es[0], p.push(i));
        let tail = walk_trace_exprs(t, rest, p, i + 1);
        assert(walk_trace_exprs(t, es, p, i) == head + tail);
        Seq::filter_distributes_over_add(head, tail, pred);
        lemma_hooks_at_every_node_expr(t, es[0], p.push(i), q);
        lemma_hooks_at_every_node_exprs(t, rest, p, i + 1, q);
        let fh = head.filter(pred);
        let ft = tail.filter(pred);
        if fh.len() > 0 && ft.len() > 0 {
            head.lemma_filter_pred(pred, 0);
            assert(fh.contains(fh[0]));
            head.lemma_filter_contains_rev(pred, fh[0]);
            let k1 = choose|k: int| 0 <= k < head.len() && head[k] == fh[0];
            lemma_trace_expr_path_depths(t, es[0], p.push(i));
            assert(head[k1].path == q);
            assert(q.subrange(0, (p.len() + 1) as int) == p.push(i));
            assert(q.subrange(0, (p.len() + 1) as int)[p.len() as int] == q[p.len() as int]);
            assert(q[p.len() as int] == i);
            tail.lemma_filter_pred(pred, 0);
            assert(ft.contains(ft[0]));
            tail.lemma_filter_contains_rev(pred, ft[0]);
            let k2 = choose|k: int| 0 <= k < tail.len() && tail[k] == ft[0];
            lemma_trace_exprs_path_depths(t, rest, p, i + 1);
            assert(tail[k2].path == q);
            assert(q[p.len() as int] >= i + 1);
            assert(false);
        }
        if fh.len() == 0 {
            assert(fh =~= Seq::<HookEvent>::empty());
            assert(fh + ft =~= ft);
        } else {
            assert(ft =~= Seq::<HookEvent>::empty());
            assert(fh + ft =~= fh);
        }
    }
}

} // verus!
