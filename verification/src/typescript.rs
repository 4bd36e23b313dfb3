//! The type-erasure pass: lowers static type syntax out of the tree, leaving
//! a program the untyped target runtime accepts.

use vstd::prelude::*;

use crate::ast::{Param, ParamView, Statement, StmtView};

verus! {

/// Options of the type-erasure pass.
#[derive(Clone, Copy, Debug, PartialEq, Eq, Structural)]
pub struct TypeScriptOptions {
    /// Whether the pass runs at all.
    pub enabled: bool,
}

impl Default for TypeScriptOptions {
    /// The pass is disabled by default.
    fn default() -> (r: Self)
        ensures
            !r.enabled,
    {
        TypeScriptOptions { enabled: false }
    }
}

/// A parameter with its static type annotation removed.
pub open spec fn erased_param(p: ParamView) -> ParamView {
    ParamView { name: p.name, type_annotation: Option::None }
}

/// What the statement hook of the type-erasure pass does: with the pass
/// enabled, a function declaration loses its parameter and return type
/// annotations and keeps everything else; any other statement, and every
/// statement while the pass is disabled, is left untouched. The hook never
/// descends into children; descent belongs to the orchestrator.
pub open spec fn erase_types_stmt(o: TypeScriptOptions, s: StmtView) -> StmtView {
    if !o.enabled {
        s
    } else {
        match s {
            StmtView::FunctionDeclaration { name, params, return_type, body } => {
                StmtView::FunctionDeclaration {
                    name,
                    params: params.map_values(|p: ParamView| erased_param(p)),
                    return_type: Option::None,
                    body,
                }
            },
            _ => s,
        }
    }
}

/// The type-erasure lowering pass. It owns its options and shares the
/// transform context with the other passes; its state never changes during a
/// run.
#[derive(Clone, Copy, Debug)]
pub struct TypeScript {
    pub options: TypeScriptOptions,
}

impl TypeScript {
    /// Build the pass from its options.
    pub fn new(options: TypeScriptOptions) -> (r: Self)
        ensures
            r.options == options,
    {
        TypeScript { options }
    }

    /// Statement hook: rewrite this one node as `erase_types_stmt` says,
    /// recording no diagnostics.
    pub fn transform_statement(&self, s: Statement) -> (r: Statement)
        ensures
            r@ == erase_types_stmt(self.options, s@),
    {
        let ghost s0 = s@;
        if !self.options.enabled {
            return s;
        }
        match s {
            Statement::FunctionDeclaration { name, params, return_type: _unused, body } => {
                let ghost params0 = params@;
                let mut new_params: Vec<Param> = Vec::new();
                let n = params.len();
                let mut i: usize = 0;
                while i < n
                    invariant
                        n == params0.len(),
                        params@ == params0,
                        i <= n,
                        new_params@.len() == i as int,
                        forall|k: int|
                            0 <= k < i ==> #[trigger] new_params@[k]@ == erased_param(
                                params0[k]@,
                            ),
                    decreases n - i,
                {
                    let p = &params[i];
                    new_params.push(Param { name: p.name.clone(), type_annotation: Option::None });
                    i += 1;
                }
                let r = Statement::FunctionDeclaration {
                    name,
                    params: new_params,
                    return_type: Option::None,
                    body,
                };
                proof {
                    let lhs = new_params@.map_values(|p: Param| p@);
                    let rhs = params0.map_values(|p: Param| p@).map_values(
                        |pv: ParamView| erased_param(pv),
                    );
                    assert(lhs =~= rhs);
                    assert(r@ =~~= erase_types_stmt(self.options, s0));
                }
                r
            },
            other => other,
        }
    }
}

} // verus!
