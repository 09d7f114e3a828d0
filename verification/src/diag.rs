//! User-facing layout diagnostics.

use vstd::prelude::*;

verus! {

/// The kind of a user-facing layout diagnostic.
#[derive(Clone, Copy, PartialEq, Eq, Structural, Debug)]
pub enum DiagKind {
    /// The recursion-depth guard tripped: nested layout calls exceeded the
    /// fixed maximum depth.
    LayoutDepthExceeded,
    /// Content remained, the backlog was empty, and no region repeats.
    RegionsExhausted,
    /// A user rewrite hook aborted layout, carrying its own failure code.
    HookFailure(u64),
}

/// A user-facing diagnostic: a kind plus the source span it arose at.
///
/// A failure aborts the enclosing layout call, not the process; content is
/// immutable, so propagating the diagnostic is the only bookkeeping needed.
#[derive(Clone, Copy, PartialEq, Eq, Structural, Debug)]
pub struct Diag {
    /// The source span the diagnostic points at.
    pub span: u64,
    /// What went wrong.
    pub kind: DiagKind,
}

impl Diag {
    /// Create a diagnostic for the given span.
    pub fn new(span: u64, kind: DiagKind) -> (r: Diag)
        ensures
            r.span == span,
            r.kind == kind,
    {
        Diag { span, kind }
    }

    /// An optional hint for resolving the diagnostic. Only the depth guard
    /// carries one: it asks to reduce the amount of nesting in the layout.
    pub fn hint(&self) -> (r: Option<&'static str>)
        ensures
            r is Some <==> self.kind == DiagKind::LayoutDepthExceeded,
    {
        match self.kind {
            DiagKind::LayoutDepthExceeded => Some("try to reduce the amount of nesting in your layout"),
            _ => None,
        }
    }
}

} // verus!
