//! End-to-end tests of the transformation pipeline: scenario runs for each
//! pass, the traversal guarantees on concrete trees, and the diagnostic log.

use transformer::Transformer;
use transformer::TransformOptions;
use transformer::ast::{Decorator, Expression, Param, Program, Statement};
use transformer::context::{Allocator, Semantic, SourceType};
use transformer::diagnostics::{Diagnostic, DiagnosticKind};

fn transformer_with(options: TransformOptions) -> Transformer {
    Transformer::new(Allocator {}, SourceType::default(), Semantic {}, options)
}

fn typed_function() -> Statement {
    Statement::FunctionDeclaration {
        name: "f".to_string(),
        params: vec![Param {
            name: "x".to_string(),
            type_annotation: Some("number".to_string()),
        }],
        return_type: Some("void".to_string()),
        body: vec![],
    }
}

fn decorated_class(class: &str, decorator: &str, start: u32, end: u32) -> Statement {
    Statement::ClassDeclaration {
        name: class.to_string(),
        decorators: vec![Decorator {
            name: decorator.to_string(),
            start,
            end,
        }],
        body: vec![],
    }
}

fn empty_tag(tag: &str) -> Expression {
    Expression::JsxElement {
        tag: tag.to_string(),
        children: vec![],
    }
}

fn mixed_program() -> Program {
    Program {
        body: vec![
            typed_function(),
            decorated_class("C", "dec", 10, 14),
            Statement::ExpressionStatement(empty_tag("div")),
            Statement::Empty,
        ],
    }
}

#[test]
fn identity_on_disabled_config() {
    let mut program = mixed_program();
    let result = transformer_with(TransformOptions::default()).build(&mut program);
    assert_eq!(result, Ok(()));
    assert_eq!(program, mixed_program());
}

#[test]
fn empty_program_stays_empty() {
    let mut program = Program { body: vec![] };
    let mut options = TransformOptions::default();
    options.typescript.enabled = true;
    options.react.enabled = true;
    options.decorators.enabled = true;
    let result = transformer_with(options).build(&mut program);
    assert_eq!(result, Ok(()));
    assert!(program.body.is_empty());
}

#[test]
fn type_erasure_scenario() {
    let mut program = Program {
        body: vec![typed_function()],
    };
    let mut options = TransformOptions::default();
    options.typescript.enabled = true;
    let result = transformer_with(options).build(&mut program);
    assert_eq!(result, Ok(()));
    assert_eq!(
        program.body,
        vec![Statement::FunctionDeclaration {
            name: "f".to_string(),
            params: vec![Param {
                name: "x".to_string(),
                type_annotation: None,
            }],
            return_type: None,
            body: vec![],
        }]
    );
}

#[test]
fn jsx_expansion_scenario() {
    let mut program = Program {
        body: vec![Statement::ExpressionStatement(empty_tag("div"))],
    };
    let mut options = TransformOptions::default();
    options.react.enabled = true;
    let result = transformer_with(options).build(&mut program);
    assert_eq!(result, Ok(()));
    assert_eq!(
        program.body,
        vec![Statement::ExpressionStatement(Expression::Call {
            callee: "createElement".to_string(),
            arguments: vec![Expression::StringLiteral("div".to_string())],
        })]
    );
}

#[test]
fn jsx_untouched_when_pass_disabled() {
    let mut program = Program {
        body: vec![Statement::ExpressionStatement(empty_tag("div"))],
    };
    let mut options = TransformOptions::default();
    options.typescript.enabled = true;
    options.decorators.enabled = true;
    let result = transformer_with(options).build(&mut program);
    assert_eq!(result, Ok(()));
    assert_eq!(
        program.body,
        vec![Statement::ExpressionStatement(empty_tag("div"))]
    );
}

#[test]
fn nested_jsx_children_are_lowered_after_the_parent() {
    let mut program = Program {
        body: vec![Statement::ExpressionStatement(Expression::JsxElement {
            tag: "div".to_string(),
            children: vec![empty_tag("span")],
        })],
    };
    let mut options = TransformOptions::default();
    options.react.enabled = true;
    let result = transformer_with(options).build(&mut program);
    assert_eq!(result, Ok(()));
    assert_eq!(
        program.body,
        vec![Statement::ExpressionStatement(Expression::Call {
            callee: "createElement".to_string(),
            arguments: vec![
                Expression::StringLiteral("div".to_string()),
                Expression::Call {
                    callee: "createElement".to_string(),
                    arguments: vec![Expression::StringLiteral("span".to_string())],
                },
            ],
        })]
    );
}

#[test]
fn two_invalid_decorators_scenario() {
    let mut program = Program {
        body: vec![
            decorated_class("A", "first", 5, 10),
            Statement::Empty,
            decorated_class("B", "second", 20, 30),
        ],
    };
    let mut options = TransformOptions::default();
    options.decorators.enabled = true;
    let result = transformer_with(options).build(&mut program);
    assert_eq!(
        result,
        Err(vec![
            Diagnostic {
                kind: DiagnosticKind::InvalidDecorator,
                start: 5,
                end: 10,
            },
            Diagnostic {
                kind: DiagnosticKind::InvalidDecorator,
                start: 20,
                end: 30,
            },
        ])
    );
    // The nodes themselves stay well-formed and untouched.
    assert_eq!(
        program.body,
        vec![
            decorated_class("A", "first", 5, 10),
            Statement::Empty,
            decorated_class("B", "second", 20, 30),
        ]
    );
}

#[test]
fn errors_in_disjoint_subtrees_are_both_reported_in_order() {
    let wrap = |name: &str, inner: Statement| Statement::FunctionDeclaration {
        name: name.to_string(),
        params: vec![],
        return_type: None,
        body: vec![inner],
    };
    let mut program = Program {
        body: vec![
            wrap("g", decorated_class("A", "first", 1, 2)),
            wrap("h", decorated_class("B", "second", 3, 4)),
        ],
    };
    let mut options = TransformOptions::default();
    options.decorators.enabled = true;
    let result = transformer_with(options).build(&mut program);
    assert_eq!(
        result,
        Err(vec![
            Diagnostic {
                kind: DiagnosticKind::InvalidDecorator,
                start: 1,
                end: 2,
            },
            Diagnostic {
                kind: DiagnosticKind::InvalidDecorator,
                start: 3,
                end: 4,
            },
        ])
    );
}

#[test]
fn two_invalid_decorators_under_one_statement_both_reported() {
    let mut program = Program {
        body: vec![Statement::FunctionDeclaration {
            name: "outer".to_string(),
            params: vec![],
            return_type: None,
            body: vec![
                decorated_class("A", "first", 1, 2),
                decorated_class("B", "second", 3, 4),
            ],
        }],
    };
    let mut options = TransformOptions::default();
    options.decorators.enabled = true;
    let result = transformer_with(options).build(&mut program);
    assert_eq!(
        result,
        Err(vec![
            Diagnostic {
                kind: DiagnosticKind::InvalidDecorator,
                start: 1,
                end: 2,
            },
            Diagnostic {
                kind: DiagnosticKind::InvalidDecorator,
                start: 3,
                end: 4,
            },
        ])
    );
}

#[test]
fn legacy_decorators_are_lowered_away() {
    let mut program = Program {
        body: vec![decorated_class("C", "dec", 10, 14)],
    };
    let mut options = TransformOptions::default();
    options.decorators.enabled = true;
    options.decorators.legacy = true;
    let result = transformer_with(options).build(&mut program);
    assert_eq!(result, Ok(()));
    assert_eq!(
        program.body,
        vec![Statement::ClassDeclaration {
            name: "C".to_string(),
            decorators: vec![],
            body: vec![],
        }]
    );
}

#[test]
fn type_erasure_reaches_nested_function_bodies() {
    let mut program = Program {
        body: vec![Statement::FunctionDeclaration {
            name: "outer".to_string(),
            params: vec![],
            return_type: Some("void".to_string()),
            body: vec![typed_function()],
        }],
    };
    let mut options = TransformOptions::default();
    options.typescript.enabled = true;
    let result = transformer_with(options).build(&mut program);
    assert_eq!(result, Ok(()));
    assert_eq!(
        program.body,
        vec![Statement::FunctionDeclaration {
            name: "outer".to_string(),
            params: vec![],
            return_type: None,
            body: vec![Statement::FunctionDeclaration {
                name: "f".to_string(),
                params: vec![Param {
                    name: "x".to_string(),
                    type_annotation: None,
                }],
                return_type: None,
                body: vec![],
            }],
        }]
    );
}

#[test]
fn all_passes_together_on_a_mixed_tree() {
    let mut program = mixed_program();
    let mut options = TransformOptions::default();
    options.typescript.enabled = true;
    options.react.enabled = true;
    options.decorators.enabled = true;
    options.decorators.legacy = true;
    let result = transformer_with(options).build(&mut program);
    assert_eq!(result, Ok(()));
    assert_eq!(
        program.body,
        vec![
            Statement::FunctionDeclaration {
                name: "f".to_string(),
                params: vec![Param {
                    name: "x".to_string(),
                    type_annotation: None,
                }],
                return_type: None,
                body: vec![],
            },
            Statement::ClassDeclaration {
                name: "C".to_string(),
                decorators: vec![],
                body: vec![],
            },
            Statement::ExpressionStatement(Expression::Call {
                callee: "createElement".to_string(),
                arguments: vec![Expression::StringLiteral("div".to_string())],
            }),
            Statement::Empty,
        ]
    );
}
