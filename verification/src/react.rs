//! The JSX-expansion pass: lowers a JSX element into a call of a fixed
//! runtime factory function, synthesizing the call node in place.

use vstd::prelude::*;

use crate::ast::{ExprView, Expression, views_of_exprs};

verus! {

/// Options of the JSX-expansion pass.
#[derive(Clone, Copy, Debug, PartialEq, Eq, Structural)]
pub struct ReactOptions {
    /// Whether the pass runs at all.
    pub enabled: bool,
}

impl Default for ReactOptions {
    /// The pass is disabled by default.
    fn default() -> (r: Self)
        ensures
            !r.enabled,
    {
        ReactOptions { enabled: false }
    }
}

/// The name of the runtime factory function a JSX element is lowered to.
pub open spec fn jsx_factory_name() -> Seq<char> {
    "createElement"@
}

/// What the expression hook of the JSX-expansion pass does: with the pass
/// enabled, a JSX element becomes a call of the runtime factory whose
/// arguments are the tag as a string literal followed by the element's
/// children, unchanged; everything else, and everything while the pass is
/// disabled, is left untouched. The hook never descends into children.
pub open spec fn expand_jsx_expr(o: ReactOptions, e: ExprView) -> ExprView {
    if !o.enabled {
        e
    } else {
        match e {
            ExprView::JsxElement { tag, children } => {
                ExprView::Call {
                    callee: jsx_factory_name(),
                    arguments: seq![ExprView::StringLiteral(tag)] + children,
                }
            },
            _ => e,
        }
    }
}

/// The JSX-expansion lowering pass. It owns its options; its state never
/// changes during a run.
#[derive(Clone, Copy, Debug)]
pub struct React {
    pub options: ReactOptions,
}

impl React {
    /// Build the pass from its options.
    pub fn new(options: ReactOptions) -> (r: Self)
        ensures
            r.options == options,
    {
        React { options }
    }

    /// Expression hook: rewrite this one node as `expand_jsx_expr` says,
    /// recording no diagnostics.
    pub fn transform_expression(&self, e: Expression) -> (r: Expression)
        ensures
            r@ == expand_jsx_expr(self.options, e@),
    {
        broadcast use vstd::string::to_string_from_display_ensures_for_str;

        let ghost e0 = e@;
        if !self.options.enabled {
            return e;
        }
        match e {
            Expression::JsxElement { tag, children } => {
                let ghost tag0 = tag@;
                let ghost children0 = children@;
                let first = Expression::StringLiteral(tag);
                let mut arguments: Vec<Expression> = Vec::new();
                arguments.push(first);
                let mut rest = children;
                arguments.append(&mut rest);
                let r = Expression::Call { callee: "createElement".to_string(), arguments };
                proof {
                    assert(arguments@[0] == first);
                    assert(arguments@[0]@ == ExprView::StringLiteral(tag0));
                    assert(arguments@.subrange(1, arguments@.len() as int) =~= children0);
                    assert(views_of_exprs(arguments@) =~= seq![ExprView::StringLiteral(tag0)]
                        + views_of_exprs(children0));
                    assert(r@ =~~= expand_jsx_expr(self.options, e0));
                }
                r
            },
            other => other,
        }
    }
}

} // verus!
