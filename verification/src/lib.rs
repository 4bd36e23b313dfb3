//! Transformer / transpiler: the transformation stage of a source-to-source
//! compiler. An orchestrator composes an ordered set of independent lowering
//! passes into a single depth-first mutable traversal of the syntax tree,
//! shares diagnostic state among the passes, and aggregates failures without
//! aborting the walk.

use vstd::prelude::*;

pub mod ast;
pub mod compiler_assumptions;
pub mod context;
pub mod decorators;
pub mod diagnostics;
pub mod react;
pub mod traversal;
pub mod typescript;

pub use crate::compiler_assumptions::CompilerAssumptions;
pub use crate::decorators::{Decorators, DecoratorsOptions};
pub use crate::react::{React, ReactOptions};
pub use crate::typescript::{TypeScript, TypeScriptOptions};

use crate::ast::{
    Expression, Program, Statement, expr_size, exprs_size, stmt_size, stmts_size, views_of_exprs,
    views_of_stmts,
};
use crate::context::{Allocator, Semantic, SourceType, TransformCtx};
use crate::diagnostics::Diagnostic;
use crate::traversal::{
    HookEvent, PassKind, hook_diags_stmt, hooked_expr, hooked_stmt, lemma_hooked_expr_size,
    lemma_hooked_stmt_size, walk_diags_stmt, walk_diags_stmts, walk_trace_expr, walk_trace_exprs,
    walk_trace_stmt, walk_trace_stmts, walked_expr, walked_exprs, walked_stmt, walked_stmts,
};

verus! {

/// The configuration set: the global assumptions record plus one option
/// record per pass. Pure data, supplied at orchestrator construction and
/// immutable afterward; it parameterizes every pass and never produces
/// errors.
#[derive(Clone, Copy, Debug, PartialEq, Eq, Structural)]
pub struct TransformOptions {
    /// Set assumptions in order to produce smaller output.
    pub assumptions: CompilerAssumptions,
    /// Options of the decorator-desugaring pass.
    pub decorators: DecoratorsOptions,
    /// Options of the type-erasure pass.
    pub typescript: TypeScriptOptions,
    /// Options of the JSX-expansion pass.
    pub react: ReactOptions,
}

impl Default for TransformOptions {
    /// Every pass disabled and nothing assumed of the input program.
    fn default() -> (r: Self)
        ensures
            !r.typescript.enabled,
            !r.react.enabled,
            !r.decorators.enabled,
            !r.decorators.legacy,
            !r.assumptions.set_public_class_fields,
            !r.assumptions.no_document_all,
            !r.assumptions.ignore_function_length,
    {
        TransformOptions {
            assumptions: CompilerAssumptions {
                set_public_class_fields: false,
                no_document_all: false,
                ignore_function_length: false,
            },
            decorators: DecoratorsOptions { enabled: false, legacy: false },
            typescript: TypeScriptOptions { enabled: false },
            react: ReactOptions { enabled: false },
        }
    }
}

/// The orchestrator: owns the shared transform context and exactly one
/// instance of every known pass, in a fixed declared order. It performs one
/// depth-first mutable traversal of the tree, invoking every pass's hook at
/// every node in declared order before descending, and is consumed by that
/// single run.
pub struct Transformer {
    ctx: TransformCtx,
    // All hooks run in declared order: x0, then x1, then x2.
    x0_typescript: TypeScript,
    x1_react: React,
    x2_decorators: Decorators,
    options: Ghost<TransformOptions>,
    trace: Ghost<Seq<HookEvent>>,
}

impl Transformer {
    /// The configuration this orchestrator was built from.
    pub closed spec fn options_spec(self) -> TransformOptions {
        self.options@
    }

    /// The diagnostics recorded so far, in order.
    pub closed spec fn errors_spec(self) -> Seq<Diagnostic> {
        self.ctx.errors@
    }

    /// The hook invocations performed so far, in order.
    pub closed spec fn trace_spec(self) -> Seq<HookEvent> {
        self.trace@
    }

    /// The bulk allocator handle the shared context captured.
    pub closed spec fn allocator_spec(self) -> Allocator {
        self.ctx.allocator
    }

    /// The dialect descriptor the shared context captured.
    pub closed spec fn source_type_spec(self) -> SourceType {
        self.ctx.source_type
    }

    /// The semantic analysis result the shared context captured.
    pub closed spec fn semantic_spec(self) -> Semantic {
        self.ctx.semantic
    }

    /// Each pass holds exactly the option record it was built from.
    pub closed spec fn wf(self) -> bool {
        self.x0_typescript.options == self.options@.typescript
            && self.x1_react.options == self.options@.react
            && self.x2_decorators.options == self.options@.decorators
    }

    /// The traversal changes nothing of the orchestrator but the diagnostic
    /// log and the invocation trace.
    spec fn setup_unchanged(pre: Self, post: Self) -> bool {
        post.x0_typescript == pre.x0_typescript && post.x1_react == pre.x1_react
            && post.x2_decorators == pre.x2_decorators && post.options == pre.options
            && post.ctx.allocator == pre.ctx.allocator && post.ctx.source_type
            == pre.ctx.source_type && post.ctx.semantic == pre.ctx.semantic
    }

    /// Build the shared context and one instance of each known pass from the
    /// configuration set.
    pub fn new(
        allocator: Allocator,
        source_type: SourceType,
        semantic: Semantic,
        options: TransformOptions,
    ) -> (r: Self)
        ensures
            r.wf(),
            r.options_spec() == options,
            r.allocator_spec() == allocator,
            r.source_type_spec() == source_type,
            r.semantic_spec() == semantic,
            r.errors_spec() == Seq::<Diagnostic>::empty(),
            r.trace_spec() == Seq::<HookEvent>::empty(),
    {
        let ctx = TransformCtx::new(allocator, source_type, semantic);
        Transformer {
            ctx,
            x0_typescript: TypeScript::new(options.typescript),
            x1_react: React::new(options.react),
            x2_decorators: Decorators::new(options.decorators),
            options: Ghost(options),
            trace: Ghost(Seq::empty()),
        }
    }

    /// Visit one expression standing at path `p`: run every expression hook
    /// at the node in declared order, then descend into the rewritten node's
    /// current children.
    fn visit_expression(&mut self, e: Expression, Ghost(p): Ghost<Seq<int>>) -> (r: Expression)
        requires
            old(self).wf(),
        ensures
            final(self).wf(),
            Self::setup_unchanged(*old(self), *final(self)),
            r@ == walked_expr(old(self).options@, e@),
            final(self).ctx.errors@ == old(self).ctx.errors@,
            final(self).trace@ == old(self).trace@ + walk_trace_expr(old(self).options@, e@, p),
        decreases expr_size(e@), 0nat,
    {
        let ghost t = self.options@;
        let ghost e0 = e@;
        let ghost trace0 = self.trace@;
        let x1 = self.x1_react;
        let e1 = x1.transform_expression(e);
        self.trace = Ghost(self.trace@.push(HookEvent { path: p, pass: PassKind::React }));
        proof {
            assert(e1@ == hooked_expr(t, e0));
            lemma_hooked_expr_size(t, e0);
        }
        match e1 {
            Expression::JsxElement { tag, children } => {
                proof {
                    assert(exprs_size(views_of_exprs(children@)) < expr_size(e0));
                }
                let new_children = self.visit_expressions(children, Ghost(p), Ghost(0));
                let r = Expression::JsxElement { tag, children: new_children };
                proof {
                    assert(r@ =~~= walked_expr(t, e0));
                    assert(self.trace@ =~= trace0 + walk_trace_expr(t, e0, p));
                }
                r
            },
            Expression::Call { callee, arguments } => {
                proof {
                    assert(exprs_size(views_of_exprs(arguments@)) < expr_size(e0));
                }
                let new_arguments = self.visit_expressions(arguments, Ghost(p), Ghost(0));
                let r = Expression::Call { callee, arguments: new_arguments };
                proof {
                    assert(r@ =~~= walked_expr(t, e0));
                    assert(self.trace@ =~= trace0 + walk_trace_expr(t, e0, p));
                }
                r
            },
            Expression::Identifier(name) => {
                let r = Expression::Identifier(name);
                proof {
                    assert(r@ =~~= walked_expr(t, e0));
                    assert(self.trace@ =~= trace0 + walk_trace_expr(t, e0, p));
                }
                r
            },
            Expression::StringLiteral(value) => {
                let r = Expression::StringLiteral(value);
                proof {
                    assert(r@ =~~= walked_expr(t, e0));
                    assert(self.trace@ =~= trace0 + walk_trace_expr(t, e0, p));
                }
                r
            },
        }
    }

    /// Visit each expression of a sequence in order; the j-th element stands
    /// at path `p.push(i0 + j)`.
    fn visit_expressions(
        &mut self,
        es: Vec<Expression>,
        Ghost(p): Ghost<Seq<int>>,
        Ghost(i0): Ghost<int>,
    ) -> (r: Vec<Expression>)
        requires
            old(self).wf(),
        ensures
            final(self).wf(),
            Self::setup_unchanged(*old(self), *final(self)),
            views_of_exprs(r@) == walked_exprs(old(self).options@, views_of_exprs(es@)),
            final(self).ctx.errors@ == old(self).ctx.errors@,
            final(self).trace@ == old(self).trace@ + walk_trace_exprs(
                old(self).options@,
                views_of_exprs(es@),
                p,
                i0,
            ),
        decreases exprs_size(views_of_exprs(es@)), es@.len(),
    {
        let ghost t = self.options@;
        let ghost vs0 = views_of_exprs(es@);
        let ghost trace0 = self.trace@;
        if es.len() == 0 {
            proof {
                assert(views_of_exprs(es@) =~= walked_exprs(t, vs0));
                assert(self.trace@ =~= trace0 + walk_trace_exprs(t, vs0, p, i0));
            }
            return es;
        }
        let mut rest = es;
        let head = rest.remove(0);
        proof {
            assert(rest@ =~= es@.subrange(1, es@.len() as int));
            assert(head == es@[0]);
            assert(vs0 == seq![es@[0]@] + views_of_exprs(es@.subrange(1, es@.len() as int)));
            assert(vs0.len() >= 1);
            assert(views_of_exprs(rest@) =~= vs0.subrange(1, vs0.len() as int));
            assert(head@ == vs0[0]);
            assert(exprs_size(vs0) == expr_size(vs0[0]) + exprs_size(
                vs0.subrange(1, vs0.len() as int),
            ));
        }
        let r0 = self.visit_expression(head, Ghost(p.push(i0)));
        let tail = self.visit_expressions(rest, Ghost(p), Ghost(i0 + 1));
        let ghost tailseq = tail@;
        let ghost tailv = views_of_exprs(tail@);
        let mut out = tail;
        out.insert(0, r0);
        proof {
            assert(out@ =~= seq![r0] + tailseq);
            assert(out@.subrange(1, out@.len() as int) =~= tailseq);
            assert(views_of_exprs(out@) =~= seq![r0@] + tailv);
            assert(views_of_exprs(out@) =~= walked_exprs(t, vs0));
            assert(self.trace@ =~= trace0 + walk_trace_exprs(t, vs0, p, i0));
        }
        out
    }

    /// Visit one statement standing at path `p`: run every statement hook at
    /// the node in declared order, then descend into the rewritten node's
    /// current children.
    fn visit_statement(&mut self, s: Statement, Ghost(p): Ghost<Seq<int>>) -> (r: Statement)
        requires
            old(self).wf(),
        ensures
            final(self).wf(),
            Self::setup_unchanged(*old(self), *final(self)),
            r@ == walked_stmt(old(self).options@, s@),
            final(self).ctx.errors@ == old(self).ctx.errors@ + walk_diags_stmt(
                old(self).options@,
                s@,
            ),
            final(self).trace@ == old(self).trace@ + walk_trace_stmt(old(self).options@, s@, p),
        decreases stmt_size(s@), 0nat,
    {
        let ghost t = self.options@;
        let ghost s0 = s@;
        let ghost trace0 = self.trace@;
        let ghost errs0 = self.ctx.errors@;
        let x0 = self.x0_typescript;
        let s1 = x0.transform_statement(s);
        self.trace = Ghost(self.trace@.push(HookEvent { path: p, pass: PassKind::TypeScript }));
        let x2 = self.x2_decorators;
        let s2 = x2.transform_statement(s1, &mut self.ctx);
        self.trace = Ghost(self.trace@.push(HookEvent { path: p, pass: PassKind::Decorators }));
        proof {
            assert(s2@ == hooked_stmt(t, s0));
            assert(self.ctx.errors@ == errs0 + hook_diags_stmt(t, s0));
            lemma_hooked_stmt_size(t, s0);
        }
        match s2 {
            Statement::FunctionDeclaration { name, params, return_type, body } => {
                proof {
                    assert(stmts_size(views_of_stmts(body@)) < stmt_size(s0));
                }
                let new_body = self.visit_statements(body, Ghost(p), Ghost(0));
                let r = Statement::FunctionDeclaration {
                    name,
                    params,
                    return_type,
                    body: new_body,
                };
                proof {
                    assert(r@ =~~= walked_stmt(t, s0));
                    assert(self.ctx.errors@ =~= errs0 + walk_diags_stmt(t, s0));
                    assert(self.trace@ =~= trace0 + walk_trace_stmt(t, s0, p));
                }
                r
            },
            Statement::ClassDeclaration { name, decorators, body } => {
                proof {
                    assert(stmts_size(views_of_stmts(body@)) < stmt_size(s0));
                }
                let new_body = self.visit_statements(body, Ghost(p), Ghost(0));
                let r = Statement::ClassDeclaration { name, decorators, body: new_body };
                proof {
                    assert(r@ =~~= walked_stmt(t, s0));
                    assert(self.ctx.errors@ =~= errs0 + walk_diags_stmt(t, s0));
                    assert(self.trace@ =~= trace0 + walk_trace_stmt(t, s0, p));
                }
                r
            },
            Statement::ExpressionStatement(e) => {
                proof {
                    assert(expr_size(e@) < stmt_size(s0));
                }
                let e2 = self.visit_expression(e, Ghost(p.push(0)));
                let r = Statement::ExpressionStatement(e2);
                proof {
                    assert(r@ =~~= walked_stmt(t, s0));
                    assert(self.ctx.errors@ =~= errs0 + walk_diags_stmt(t, s0));
                    assert(self.trace@ =~= trace0 + walk_trace_stmt(t, s0, p));
                }
                r
            },
            Statement::Empty => {
                let r = Statement::Empty;
                proof {
                    assert(r@ =~~= walked_stmt(t, s0));
                    assert(self.ctx.errors@ =~= errs0 + walk_diags_stmt(t, s0));
                    assert(self.trace@ =~= trace0 + walk_trace_stmt(t, s0, p));
                }
                r
            },
        }
    }

    /// Visit each statement of a sequence in order; the j-th element stands
    /// at path `p.push(i0 + j)`.
    fn visit_statements(
        &mut self,
        ss: Vec<Statement>,
        Ghost(p): Ghost<Seq<int>>,
        Ghost(i0): Ghost<int>,
    ) -> (r: Vec<Statement>)
        requires
            old(self).wf(),
        ensures
            final(self).wf(),
            Self::setup_unchanged(*old(self), *final(self)),
            views_of_stmts(r@) == walked_stmts(old(self).options@, views_of_stmts(ss@)),
            final(self).ctx.errors@ == old(self).ctx.errors@ + walk_diags_stmts(
                old(self).options@,
                views_of_stmts(ss@),
            ),
            final(self).trace@ == old(self).trace@ + walk_trace_stmts(
                old(self).options@,
                views_of_stmts(ss@),
                p,
                i0,
            ),
        decreases stmts_size(views_of_stmts(ss@)), ss@.len(),
    {
        let ghost t = self.options@;
        let ghost vs0 = views_of_stmts(ss@);
        let ghost trace0 = self.trace@;
        let ghost errs0 = self.ctx.errors@;
        if ss.len() == 0 {
            proof {
                assert(views_of_stmts(ss@) =~= walked_stmts(t, vs0));
                assert(self.ctx.errors@ =~= errs0 + walk_diags_stmts(t, vs0));
                assert(self.trace@ =~= trace0 + walk_trace_stmts(t, vs0, p, i0));
            }
            return ss;
        }
        let mut rest = ss;
        let head = rest.remove(0);
        proof {
            assert(rest@ =~= ss@.subrange(1, ss@.len() as int));
            assert(head == ss@[0]);
            assert(vs0 == seq![ss@[0]@] + views_of_stmts(ss@.subrange(1, ss@.len() as int)));
            assert(vs0.len() >= 1);
            assert(views_of_stmts(rest@) =~= vs0.subrange(1, vs0.len() as int));
            assert(head@ == vs0[0]);
            assert(stmts_size(vs0) == stmt_size(vs0[0]) + stmts_size(
                vs0.subrange(1, vs0.len() as int),
            ));
        }
        let r0 = self.visit_statement(head, Ghost(p.push(i0)));
        let tail = self.visit_statements(rest, Ghost(p), Ghost(i0 + 1));
        let ghost tailseq = tail@;
        let ghost tailv = views_of_stmts(tail@);
        let mut out = tail;
        out.insert(0, r0);
        proof {
            assert(out@ =~= seq![r0] + tailseq);
            assert(out@.subrange(1, out@.len() as int) =~= tailseq);
            assert(views_of_stmts(out@) =~= seq![r0@] + tailv);
            assert(views_of_stmts(out@) =~= walked_stmts(t, vs0));
            assert(self.ctx.errors@ =~= errs0 + walk_diags_stmts(t, vs0));
            assert(self.trace@ =~= trace0 + walk_trace_stmts(t, vs0, p, i0));
        }
        out
    }

    /// Run the transformation: exactly one depth-first traversal of the whole
    /// tree, rewriting it in place, then drain the diagnostic log. Success
    /// exactly when no pass recorded a diagnostic; otherwise the complete
    /// ordered diagnostic sequence, never truncated and never deduplicated.
    /// The orchestrator is consumed: one run per construction.
    pub fn build(self, program: &mut Program) -> (r: Result<(), Vec<Diagnostic>>)
        requires
            self.wf(),
        ensures
            final(program)@ == walked_stmts(self.options_spec(), old(program)@),
            ({
                let ds = self.errors_spec() + walk_diags_stmts(self.options_spec(), old(program)@);
                match r {
                    Result::Ok(u) => ds.len() == 0,
                    Result::Err(e) => e@ == ds && ds.len() > 0,
                }
            }),
    {
        let mut this = self;
        let mut body: Vec<Statement> = Vec::new();
        core::mem::swap(&mut body, &mut program.body);
        let new_body = this.visit_statements(body, Ghost(Seq::empty()), Ghost(0));
        program.body = new_body;
        let errors = this.ctx.take_errors();
        if errors.len() == 0 {
            Result::Ok(())
        } else {
            Result::Err(errors)
        }
    }
}

} // verus!
