use vstd::prelude::*;

verus! {

/// What a span of the input holds.
#[derive(Clone, Copy, Debug, PartialEq, Eq, Structural)]
pub enum SpanKind {
    Code,
    LineComment,
    BlockComment,
    DocComment,
}

/// A contiguous range `[start, end)` of the input, counted in characters.
#[derive(Clone, Copy, Debug, PartialEq, Eq, Structural)]
pub struct Span {
    pub start: usize,
    pub end: usize,
    pub kind: SpanKind,
}

/// The two conditions a scan reports without stopping.
#[derive(Clone, Copy, Debug, PartialEq, Eq, Structural)]
pub enum DiagnosticKind {
    UnterminatedComment,
    UnterminatedString,
}

/// A non-fatal condition found at `position` (the opening delimiter).
#[derive(Clone, Copy, Debug, PartialEq, Eq, Structural)]
pub struct Diagnostic {
    pub position: usize,
    pub kind: DiagnosticKind,
}

impl Span {
    pub fn new(start: usize, end: usize, kind: SpanKind) -> (r: Span)
        ensures
            r == (Span { start, end, kind }),
    {
        Span { start, end, kind }
    }
}

} // verus!
