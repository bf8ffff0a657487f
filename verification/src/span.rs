//! Lowered source spans: absolute file path plus line/column range.
//!
//! A span is the lookup key of the per-unit span table, compared by exact
//! equality of all five components.

use vstd::prelude::*;

verus! {

/// A lowered span: absolute file path and start/end line/column.
pub struct Span {
    pub file_name: String,
    pub line_start: u32,
    pub column_start: u32,
    pub line_end: u32,
    pub column_end: u32,
}

/// The mathematical value of a [`Span`].
pub ghost struct SpanV {
    pub file_name: Seq<char>,
    pub line_start: u32,
    pub column_start: u32,
    pub line_end: u32,
    pub column_end: u32,
}

impl View for Span {
    type V = SpanV;

    open spec fn view(&self) -> SpanV {
        SpanV {
            file_name: self.file_name@,
            line_start: self.line_start,
            column_start: self.column_start,
            line_end: self.line_end,
            column_end: self.column_end,
        }
    }
}

impl Clone for Span {
    fn clone(&self) -> (r: Self)
        ensures
            r@ == self@,
    {
        Span {
            file_name: self.file_name.clone(),
            line_start: self.line_start,
            column_start: self.column_start,
            line_end: self.line_end,
            column_end: self.column_end,
        }
    }
}

/// The mathematical values of a sequence of spans.
pub open spec fn spans_view(s: Seq<Span>) -> Seq<SpanV> {
    s.map_values(|x: Span| x@)
}

/// Exact equality of two spans, component by component.
pub fn span_eq(a: &Span, b: &Span) -> (r: bool)
    ensures
        r == (a@ == b@),
{
    let r = a.file_name == b.file_name && a.line_start == b.line_start && a.column_start
        == b.column_start && a.line_end == b.line_end && a.column_end == b.column_end;
    proof {
        if r {
            assert(a@ == b@);
        }
    }
    r
}

} // verus!
