//! Diagnostics: structured error records that passes append to the shared
//! transform context while lowering. The log is never reordered, filtered or
//! deduplicated; it reflects exactly the order problems were recorded.

use vstd::prelude::*;

verus! {

/// What a diagnostic reports.
#[derive(Clone, Copy, Debug, PartialEq, Eq, Structural)]
pub enum DiagnosticKind {
    /// A decorator stands where the decorator pass cannot lower it.
    InvalidDecorator,
}

/// A structured error record: what went wrong plus the source span it points
/// at, sufficient for user-facing reporting.
#[derive(Clone, Copy, Debug, PartialEq, Eq, Structural)]
pub struct Diagnostic {
    pub kind: DiagnosticKind,
    pub start: u32,
    pub end: u32,
}

impl Diagnostic {
    /// The user-facing message of this diagnostic, as a mathematical value.
    pub open spec fn message_view(self) -> Seq<char> {
        match self.kind {
            DiagnosticKind::InvalidDecorator => "invalid decorator usage"@,
        }
    }

    /// Render the user-facing message of this diagnostic.
    pub fn message(&self) -> (r: String)
        ensures
            r@ == self.message_view(),
    {
        broadcast use vstd::string::to_string_from_display_ensures_for_str;

        match self.kind {
            DiagnosticKind::InvalidDecorator => "invalid decorator usage".to_string(),
        }
    }
}

} // verus!
