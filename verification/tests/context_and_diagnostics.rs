//! Tests of the shared transform context's diagnostic log and of the
//! diagnostic records themselves.

use transformer::context::{Allocator, Semantic, SourceType, TransformCtx};
use transformer::diagnostics::{Diagnostic, DiagnosticKind};

fn diag(start: u32, end: u32) -> Diagnostic {
    Diagnostic {
        kind: DiagnosticKind::InvalidDecorator,
        start,
        end,
    }
}

#[test]
fn log_appends_in_order_and_drains_once() {
    let mut ctx = TransformCtx::new(Allocator {}, SourceType::default(), Semantic {});
    ctx.record_error(diag(1, 2));
    ctx.record_error(diag(3, 4));
    ctx.record_error(diag(1, 2));
    let drained = ctx.take_errors();
    assert_eq!(drained, vec![diag(1, 2), diag(3, 4), diag(1, 2)]);
    assert_eq!(ctx.take_errors(), vec![]);
}

#[test]
fn diagnostic_message_text() {
    assert_eq!(diag(7, 9).message(), "invalid decorator usage");
}

#[test]
fn default_source_type_is_plain_script() {
    let st = SourceType::default();
    assert!(!st.module);
    assert!(!st.typescript);
    assert!(!st.jsx);
}
