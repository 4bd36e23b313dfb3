//! Global compiler assumptions: named behavioral flags that promise facts
//! about the input program, letting every pass produce smaller output. Pure
//! data; constructed once and never mutated afterward.

use vstd::prelude::*;

verus! {

/// The global assumptions record shared by every pass.
#[derive(Clone, Copy, Debug, PartialEq, Eq, Structural)]
pub struct CompilerAssumptions {
    /// Class fields may be set with plain assignment.
    pub set_public_class_fields: bool,
    /// No expression relies on the document.all quirk.
    pub no_document_all: bool,
    /// Rewrites may change a function's reported arity.
    pub ignore_function_length: bool,
}

impl Default for CompilerAssumptions {
    /// By default nothing is assumed of the input program.
    fn default() -> (r: Self)
        ensures
            !r.set_public_class_fields,
            !r.no_document_all,
            !r.ignore_function_length,
    {
        CompilerAssumptions {
            set_public_class_fields: false,
            no_document_all: false,
            ignore_function_length: false,
        }
    }
}

} // verus!
