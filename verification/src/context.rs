//! The shared transform context: the dialect descriptor, the read-only
//! semantic analysis result, the bulk node allocator handle, and the
//! append-only diagnostic log. One context is built per transformation run
//! and shared by the orchestrator and every pass.

use vstd::prelude::*;

use crate::diagnostics::Diagnostic;

verus! {

/// Handle to the bulk node allocator of one compilation unit. The tree in
/// this crate owns its nodes as plain values, so the handle carries no state;
/// it marks where an arena is supplied to the pipeline.
#[derive(Clone, Copy, Debug, PartialEq, Eq, Structural)]
pub struct Allocator {}

/// The dialect descriptor: the source flavor, read-only for the whole run.
#[derive(Clone, Copy, Debug, PartialEq, Eq, Structural)]
pub struct SourceType {
    /// Module rather than script.
    pub module: bool,
    /// Type-annotated dialect.
    pub typescript: bool,
    /// JSX-capable dialect.
    pub jsx: bool,
}

impl Default for SourceType {
    /// A plain script: no modules, no type annotations, no JSX.
    fn default() -> (r: Self)
        ensures
            !r.module,
            !r.typescript,
            !r.jsx,
    {
        SourceType { module: false, typescript: false, jsx: false }
    }
}

/// The precomputed semantic analysis result: scope and binding information,
/// queried but never mutated by passes. The passes defined in this crate do
/// not consult it; it is stored so the context matches what passes receive.
#[derive(Clone, Copy, Debug, PartialEq, Eq, Structural)]
pub struct Semantic {}

/// The shared transform context.
pub struct TransformCtx {
    /// Bulk allocator handle, for passes that synthesize nodes.
    pub allocator: Allocator,
    /// The dialect descriptor.
    pub source_type: SourceType,
    /// The semantic analysis result.
    pub semantic: Semantic,
    /// The append-only diagnostic log.
    pub errors: Vec<Diagnostic>,
}

impl TransformCtx {
    /// Build the context for one run; the diagnostic log starts empty.
    pub fn new(allocator: Allocator, source_type: SourceType, semantic: Semantic) -> (r: Self)
        ensures
            r.allocator == allocator,
            r.source_type == source_type,
            r.semantic == semantic,
            r.errors@ == Seq::<Diagnostic>::empty(),
    {
        TransformCtx { allocator, source_type, semantic, errors: Vec::new() }
    }

    /// Append one diagnostic to the log. Infallible; callable any number of
    /// times by any pass; never reorders or drops earlier entries.
    pub fn record_error(&mut self, d: Diagnostic)
        ensures
            final(self).errors@ == old(self).errors@.push(d),
            final(self).allocator == old(self).allocator,
            final(self).source_type == old(self).source_type,
            final(self).semantic == old(self).semantic,
    {
        self.errors.push(d);
    }

    /// Return the full ordered diagnostic sequence and clear the log; called
    /// once, after the traversal completes.
    pub fn take_errors(&mut self) -> (r: Vec<Diagnostic>)
        ensures
            r@ == old(self).errors@,
            final(self).errors@ == Seq::<Diagnostic>::empty(),
            final(self).allocator == old(self).allocator,
            final(self).source_type == old(self).source_type,
            final(self).semantic == old(self).semantic,
    {
        let mut out: Vec<Diagnostic> = Vec::new();
        core::mem::swap(&mut out, &mut self.errors);
        out
    }
}

} // verus!
