use vstd::prelude::*;

verus! {

/// A half-open range of byte offsets into the source of one crate version.
///
/// Spans are ordered lexicographically by `(start, end)`. This order is the
/// backbone of the ordering and identity of change events: change events
/// sort by where they appear in the source.
#[derive(Clone, Copy, Debug, PartialEq, Eq, Structural)]
pub struct Span {
    pub start: u32,
    pub end: u32,
}

impl Span {
    /// Strict lexicographic order on `(start, end)`.
    pub open spec fn lt_spec(self, other: Span) -> bool {
        self.start < other.start || (self.start == other.start && self.end < other.end)
    }

    pub fn new(start: u32, end: u32) -> (r: Span)
        ensures
            r.start == start,
            r.end == end,
    {
        Span { start, end }
    }

    /// Executable form of the lexicographic order.
    pub fn is_before(&self, other: &Span) -> (r: bool)
        ensures
            r == self.lt_spec(*other),
    {
        self.start < other.start || (self.start == other.start && self.end < other.end)
    }
}

/// One publicly exported item of a crate version: its identifier and where
/// it is defined.
///
/// Records are produced by an external enumerator of a crate's public
/// surface and are immutable here. This crate reads only the identifier
/// (for display) and the span (for ordering and identity of change events);
/// whatever else the enumerator knows about the item's definition stays
/// with the enumerator.
pub struct ExportRecord {
    pub ident: String,
    pub span: Span,
}

impl ExportRecord {
    pub fn new(ident: String, span: Span) -> (r: ExportRecord)
        ensures
            r.ident == ident,
            r.span == span,
    {
        ExportRecord { ident, span }
    }
}

} // verus!
