//! Keyset cursors over `(timestamp, id)`: the view's leading sort column
//! and the row id that breaks ties within it.

use crate::text::{
    chars_of, decimal, decimal_chars, is_digit, lemma_decimal_chars, lemma_parse_decimal,
    lemma_split_joined, parse_i32, parse_i32_spec, parse_i64, parse_i64_spec, split_once_chars,
    split_once_spec, string_from_chars,
};
use crate::time::{micros_in_range, Timestamp};
use vstd::prelude::*;

verus! {

/// An opaque page token, `"<micros>:<id>"`.
#[derive(Debug, Clone)]
pub struct PaginationCursor(pub String);

/// One page of results and, when more rows follow, the cursor for the next.
pub struct PagedResponse<T> {
    pub items: T,
    pub next_page: Option<PaginationCursor>,
}

/// The text of the cursor for a row at `micros` with `id`.
pub open spec fn encode_spec(micros: int, id: int) -> Seq<char> {
    decimal(micros) + seq![':'] + decimal(id)
}

/// What a cursor decodes to: its microseconds and id, or `None` when the
/// text is not two integers around a colon or the instant is out of
/// chrono's range.
pub open spec fn decode_spec(s: Seq<char>) -> Option<(int, i32)> {
    match split_once_spec(s, ':') {
        Some((a, b)) => match (parse_i64_spec(a), parse_i32_spec(b)) {
            (Some(us), Some(id)) => if micros_in_range(us as int) {
                Some((us as int, id))
            } else {
                None
            },
            _ => None,
        },
        None => None,
    }
}

impl PaginationCursor {
    /// Encoded at microsecond precision so that the timestamp of the
    /// boundary row comes back exactly; a truncated one would skip rows
    /// that share it.
    pub fn encode(timestamp: Timestamp, id: i32) -> (c: Self)
        ensures
            c.0@ == encode_spec(timestamp.spec_micros(), id as int),
    {
        let mut v = decimal_chars(timestamp.micros());
        v.push(':');
        let mut w = decimal_chars(id as i64);
        v.append(&mut w);
        proof {
            assert(v@ =~= encode_spec(timestamp.spec_micros(), id as int));
        }
        PaginationCursor(string_from_chars(v.as_slice()))
    }

    /// The `(timestamp, id)` the cursor was made from, or `None` for a
    /// malformed one.
    pub fn decode(&self) -> (r: Option<(Timestamp, i32)>)
        ensures
            match r {
                Some((t, id)) => decode_spec(self.0@) == Some((t.spec_micros(), id)),
                None => decode_spec(self.0@) is None,
            },
    {
        let s = chars_of(self.0.as_str());
        let (a, b) = match split_once_chars(s.as_slice(), ':') {
            Some(p) => p,
            None => return None,
        };
        let us = match parse_i64(a.as_slice()) {
            Some(us) => us,
            None => return None,
        };
        let id = match parse_i32(b.as_slice()) {
            Some(id) => id,
            None => return None,
        };
        match Timestamp::from_micros(us) {
            Some(t) => Some((t, id)),
            None => None,
        }
    }
}

/// Decoding the cursor of a row gives back its timestamp and id.
pub proof fn lemma_cursor_round_trip(micros: i64, id: i32)
    requires
        micros_in_range(micros as int),
    ensures
        decode_spec(encode_spec(micros as int, id as int)) == Some((micros as int, id)),
{
    let a = decimal(micros as int);
    let b = decimal(id as int);
    lemma_decimal_chars(micros as int);
    assert forall|k: int| 0 <= k < a.len() implies a[k] != ':' by {
        assert(is_digit(a[k]) || a[k] == '-');
    }
    lemma_split_joined(a, ':', b);
    lemma_parse_decimal(micros as int);
    lemma_parse_decimal(id as int);
}

} // verus!
