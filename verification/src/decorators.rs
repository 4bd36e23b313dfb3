//! The decorator-desugaring pass: lowers legacy decorators off class
//! declarations, and reports any decorator usage it cannot lower, leaving the
//! node well-formed so the walk safely continues.

use vstd::prelude::*;

use crate::ast::{Decorator, DecoratorView, Statement, StmtView};
use crate::context::TransformCtx;
use crate::diagnostics::{Diagnostic, DiagnosticKind};

verus! {

/// Options of the decorator-desugaring pass.
#[derive(Clone, Copy, Debug, PartialEq, Eq, Structural)]
pub struct DecoratorsOptions {
    /// Whether the pass runs at all.
    pub enabled: bool,
    /// Accept the legacy decorator proposal, the one this pass can lower.
    pub legacy: bool,
}

impl Default for DecoratorsOptions {
    /// The pass is disabled by default, and the legacy proposal not accepted.
    fn default() -> (r: Self)
        ensures
            !r.enabled,
            !r.legacy,
    {
        DecoratorsOptions { enabled: false, legacy: false }
    }
}

/// The diagnostic reported for one decorator the pass cannot lower: it points
/// at the decorator's own source span.
pub open spec fn invalid_decorator_diag(d: DecoratorView) -> Diagnostic {
    Diagnostic { kind: DiagnosticKind::InvalidDecorator, start: d.start, end: d.end }
}

/// What the statement hook of the decorator pass does: with the pass enabled
/// and the legacy proposal accepted, a class loses its decorators (they are
/// lowered away); in every other case the statement is left untouched — in
/// particular, a decorator usage the pass cannot lower stays on the node,
/// which remains well-formed. The hook never descends into children.
pub open spec fn lower_decorators_stmt(o: DecoratorsOptions, s: StmtView) -> StmtView {
    if o.enabled && o.legacy {
        match s {
            StmtView::ClassDeclaration { name, decorators, body } => {
                StmtView::ClassDeclaration { name, decorators: Seq::empty(), body }
            },
            _ => s,
        }
    } else {
        s
    }
}

/// The diagnostics the statement hook records: with the pass enabled but the
/// legacy proposal not accepted, one diagnostic per decorator on a class, in
/// decorator order; otherwise none.
pub open spec fn decorator_diags_stmt(o: DecoratorsOptions, s: StmtView) -> Seq<Diagnostic> {
    if o.enabled && !o.legacy {
        match s {
            StmtView::ClassDeclaration { decorators, .. } => decorators.map_values(
                |d: DecoratorView| invalid_decorator_diag(d),
            ),
            _ => Seq::empty(),
        }
    } else {
        Seq::empty()
    }
}

/// The decorator-desugaring lowering pass. It owns its options; its state
/// never changes during a run.
#[derive(Clone, Copy, Debug)]
pub struct Decorators {
    pub options: DecoratorsOptions,
}

impl Decorators {
    /// Build the pass from its options.
    pub fn new(options: DecoratorsOptions) -> (r: Self)
        ensures
            r.options == options,
    {
        Decorators { options }
    }

    /// Statement hook: rewrite this one node as `lower_decorators_stmt` says,
    /// and record exactly the diagnostics of `decorator_diags_stmt`, in
    /// order, through the shared context.
    pub fn transform_statement(&self, s: Statement, ctx: &mut TransformCtx) -> (r: Statement)
        ensures
            r@ == lower_decorators_stmt(self.options, s@),
            final(ctx).errors@ == old(ctx).errors@ + decorator_diags_stmt(self.options, s@),
            final(ctx).allocator == old(ctx).allocator,
            final(ctx).source_type == old(ctx).source_type,
            final(ctx).semantic == old(ctx).semantic,
    {
        let ghost s0 = s@;
        if self.options.enabled && self.options.legacy {
            match s {
                Statement::ClassDeclaration { name, decorators: _unused, body } => {
                    let r = Statement::ClassDeclaration { name, decorators: Vec::new(), body };
                    proof {
                        assert(r@ =~~= lower_decorators_stmt(self.options, s0));
                        assert(ctx.errors@ =~= old(ctx).errors@ + decorator_diags_stmt(
                            self.options,
                            s0,
                        ));
                    }
                    r
                },
                other => {
                    proof {
                        assert(ctx.errors@ =~= old(ctx).errors@ + decorator_diags_stmt(
                            self.options,
                            other@,
                        ));
                    }
                    other
                },
            }
        } else if self.options.enabled {
            match s {
                Statement::ClassDeclaration { name, decorators, body } => {
                    let ghost errs0 = ctx.errors@;
                    let ghost ds0 = decorators@;
                    let n = decorators.len();
                    let mut i: usize = 0;
                    while i < n
                        invariant
                            n == ds0.len(),
                            decorators@ == ds0,
                            i <= n,
                            ctx.errors@.len() == errs0.len() + i as int,
                            forall|k: int| 0 <= k < errs0.len() ==> #[trigger] ctx.errors@[k]
                                == errs0[k],
                            forall|k: int|
                                0 <= k < i ==> #[trigger] ctx.errors@[errs0.len() + k]
                                    == invalid_decorator_diag(ds0[k]@),
                            ctx.allocator == old(ctx).allocator,
                            ctx.source_type == old(ctx).source_type,
                            ctx.semantic == old(ctx).semantic,
                        decreases n - i,
                    {
                        let d = &decorators[i];
                        ctx.record_error(
                            Diagnostic {
                                kind: DiagnosticKind::InvalidDecorator,
                                start: d.start,
                                end: d.end,
                            },
                        );
                        i += 1;
                    }
                    let r = Statement::ClassDeclaration { name, decorators, body };
                    proof {
                        let dd = ds0.map_values(|d: Decorator| d@).map_values(
                            |dv: DecoratorView| invalid_decorator_diag(dv),
                        );
                        assert forall|j: int| 0 <= j < ctx.errors@.len() implies ctx.errors@[j]
                            == (errs0 + dd)[j] by {
                            if errs0.len() <= j {
                                let k = j - errs0.len();
                                assert(ctx.errors@[errs0.len() + k] == invalid_decorator_diag(
                                    ds0[k]@,
                                ));
                            }
                        }
                        assert(ctx.errors@ =~= errs0 + dd);
                        assert(r@ =~~= lower_decorators_stmt(self.options, s0));
                    }
                    r
                },
                other => {
                    proof {
                        assert(ctx.errors@ =~= old(ctx).errors@ + decorator_diags_stmt(
                            self.options,
                            other@,
                        ));
                    }
                    other
                },
            }
        } else {
            proof {
                assert(ctx.errors@ =~= old(ctx).errors@ + decorator_diags_stmt(
                    self.options,
                    s@,
                ));
            }
            s
        }
    }
}

} // verus!
