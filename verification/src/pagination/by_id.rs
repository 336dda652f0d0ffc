//! Cursors that hold just the id of the last row of a page.

use crate::text::{
    chars_of, decimal, format_i64, lemma_parse_decimal, parse_i32, parse_i32_spec,
};
use vstd::prelude::*;

verus! {

/// An opaque page token: the decimal id of the last row served.
#[derive(Debug, Clone)]
pub struct PaginationCursor(pub String);

/// One page of results and, when more rows follow, the cursor for the next.
pub struct PagedResponse<T> {
    pub items: T,
    pub next_page: Option<PaginationCursor>,
}

impl PaginationCursor {
    pub fn encode(id: i32) -> (c: Self)
        ensures
            c.0@ == decimal(id as int),
    {
        PaginationCursor(format_i64(id as i64))
    }

    /// The id, or `None` when the text is not an `i32`.
    pub fn decode(&self) -> (r: Option<i32>)
        ensures
            r == parse_i32_spec(self.0@),
    {
        let s = chars_of(self.0.as_str());
        parse_i32(s.as_slice())
    }
}

/// Decoding the cursor made for an id gives back that id.
pub proof fn lemma_id_cursor_round_trip(id: i32)
    ensures
        parse_i32_spec(decimal(id as int)) == Some(id),
{
    lemma_parse_decimal(id as int);
}

} // verus!
