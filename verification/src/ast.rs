//! The syntax tree that the transformation pipeline rewrites: statement and
//! expression nodes as tagged unions, owned by the caller and lent to the
//! orchestrator for one run.
//!
//! Each executable node type has a mathematical view (`StmtView`, `ExprView`,
//! ...) over `Seq`, which the contracts of the pipeline speak of, plus a
//! structural size used as the termination measure of the walk.

use vstd::prelude::*;

verus! {

/// A formal parameter of a function declaration: a binder name plus an
/// optional static type annotation (kept as its source text).
#[derive(Debug, PartialEq, Eq)]
pub struct Param {
    pub name: String,
    pub type_annotation: Option<String>,
}

/// Mathematical model of a `Param`.
pub struct ParamView {
    pub name: Seq<char>,
    pub type_annotation: Option<Seq<char>>,
}

impl View for Param {
    type V = ParamView;

    open spec fn view(&self) -> ParamView {
        ParamView {
            name: self.name@,
            type_annotation: match self.type_annotation {
                Option::Some(t) => Option::Some(t@),
                Option::None => Option::None,
            },
        }
    }
}

/// A decorator attached to a class declaration: the decorated expression's
/// identifier plus the source span it came from, for diagnostics.
#[derive(Debug, PartialEq, Eq)]
pub struct Decorator {
    pub name: String,
    pub start: u32,
    pub end: u32,
}

/// Mathematical model of a `Decorator`.
pub struct DecoratorView {
    pub name: Seq<char>,
    pub start: u32,
    pub end: u32,
}

impl View for Decorator {
    type V = DecoratorView;

    open spec fn view(&self) -> DecoratorView {
        DecoratorView { name: self.name@, start: self.start, end: self.end }
    }
}

/// An expression node.
#[derive(Debug, PartialEq, Eq)]
pub enum Expression {
    /// A reference to a binding.
    Identifier(String),
    /// A string literal.
    StringLiteral(String),
    /// A JSX element: tag name plus child expressions.
    JsxElement { tag: String, children: Vec<Expression> },
    /// A call of a named function.
    Call { callee: String, arguments: Vec<Expression> },
}

/// A statement node.
#[derive(Debug, PartialEq, Eq)]
pub enum Statement {
    /// A function declaration with typed parameters and an optional return
    /// type annotation.
    FunctionDeclaration {
        name: String,
        params: Vec<Param>,
        return_type: Option<String>,
        body: Vec<Statement>,
    },
    /// A class declaration, possibly decorated.
    ClassDeclaration { name: String, decorators: Vec<Decorator>, body: Vec<Statement> },
    /// An expression in statement position.
    ExpressionStatement(Expression),
    /// An empty statement.
    Empty,
}

/// Mathematical model of an `Expression`.
#[verifier::ext_equal]
pub enum ExprView {
    Identifier(Seq<char>),
    StringLiteral(Seq<char>),
    JsxElement { tag: Seq<char>, children: Seq<ExprView> },
    Call { callee: Seq<char>, arguments: Seq<ExprView> },
}

/// Mathematical model of a `Statement`.
#[verifier::ext_equal]
pub enum StmtView {
    FunctionDeclaration {
        name: Seq<char>,
        params: Seq<ParamView>,
        return_type: Option<Seq<char>>,
        body: Seq<StmtView>,
    },
    ClassDeclaration { name: Seq<char>, decorators: Seq<DecoratorView>, body: Seq<StmtView> },
    ExpressionStatement(ExprView),
    Empty,
}

/// The views of a sequence of statements, elementwise.
pub open spec fn views_of_stmts(ss: Seq<Statement>) -> Seq<StmtView>
    decreases ss,
{
    if ss.len() == 0 {
        Seq::empty()
    } else {
        seq![ss[0]@] + views_of_stmts(ss.subrange(1, ss.len() as int))
    }
}

/// The views of a sequence of expressions, elementwise.
pub open spec fn views_of_exprs(es: Seq<Expression>) -> Seq<ExprView>
    decreases es,
{
    if es.len() == 0 {
        Seq::empty()
    } else {
        seq![es[0]@] + views_of_exprs(es.subrange(1, es.len() as int))
    }
}

impl View for Expression {
    type V = ExprView;

    open spec fn view(&self) -> ExprView
        decreases self,
    {
        match self {
            Expression::Identifier(name) => ExprView::Identifier(name@),
            Expression::StringLiteral(value) => ExprView::StringLiteral(value@),
            Expression::JsxElement { tag, children } => ExprView::JsxElement {
                tag: tag@,
                children: views_of_exprs(children@),
            },
            Expression::Call { callee, arguments } => ExprView::Call {
                callee: callee@,
                arguments: views_of_exprs(arguments@),
            },
        }
    }
}

impl View for Statement {
    type V = StmtView;

    open spec fn view(&self) -> StmtView
        decreases self,
    {
        match self {
            Statement::FunctionDeclaration { name, params, return_type, body } => {
                StmtView::FunctionDeclaration {
                    name: name@,
                    params: params@.map_values(|p: Param| p@),
                    return_type: match return_type {
                        Option::Some(t) => Option::Some(t@),
                        Option::None => Option::None,
                    },
                    body: views_of_stmts(body@),
                }
            },
            Statement::ClassDeclaration { name, decorators, body } => {
                StmtView::ClassDeclaration {
                    name: name@,
                    decorators: decorators@.map_values(|d: Decorator| d@),
                    body: views_of_stmts(body@),
                }
            },
            Statement::ExpressionStatement(e) => StmtView::ExpressionStatement(e@),
            Statement::Empty => StmtView::Empty,
        }
    }
}

/// The program: the root of the tree, a list of statements.
#[derive(Debug, PartialEq, Eq)]
pub struct Program {
    pub body: Vec<Statement>,
}

impl View for Program {
    type V = Seq<StmtView>;

    open spec fn view(&self) -> Seq<StmtView> {
        views_of_stmts(self.body@)
    }
}

/// Structural size of a statement node, the termination measure of the walk.
/// A JSX element weighs one extra unit so that every lowering step is
/// size-nonincreasing.
pub open spec fn stmt_size(s: StmtView) -> nat
    decreases s,
{
    match s {
        StmtView::FunctionDeclaration { body, .. } => 1 + stmts_size(body),
        StmtView::ClassDeclaration { body, .. } => 1 + stmts_size(body),
        StmtView::ExpressionStatement(e) => 1 + expr_size(e),
        StmtView::Empty => 1,
    }
}

/// Total size of a sequence of statements.
pub open spec fn stmts_size(ss: Seq<StmtView>) -> nat
    decreases ss,
{
    if ss.len() == 0 {
        0
    } else {
        stmt_size(ss[0]) + stmts_size(ss.subrange(1, ss.len() as int))
    }
}

/// Structural size of an expression node.
pub open spec fn expr_size(e: ExprView) -> nat
    decreases e,
{
    match e {
        ExprView::Identifier(_) => 1,
        ExprView::StringLiteral(_) => 1,
        ExprView::JsxElement { children, .. } => 2 + exprs_size(children),
        ExprView::Call { arguments, .. } => 1 + exprs_size(arguments),
    }
}

/// Total size of a sequence of expressions.
pub open spec fn exprs_size(es: Seq<ExprView>) -> nat
    decreases es,
{
    if es.len() == 0 {
        0
    } else {
        expr_size(es[0]) + exprs_size(es.subrange(1, es.len() as int))
    }
}

} // verus!
