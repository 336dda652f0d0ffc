//! Rules of the feed HTTP client: its configuration, the response size cap
//! and how a `Content-Type` header is read.

use crate::settings::RuntimeSettings;
use crate::text::{
    ascii_lowercase, ascii_lowercase_spec, chars_of, find_char, slice_chars, split_once_spec,
    string_from_chars, trim, trim_spec, is_first, lemma_split_at_first,
};
use vstd::prelude::*;

verus! {

/// Hard cap on fetched bodies: full-content feeds run a few MB; anything
/// larger is not a feed (or a page advertising one). Applied to bytes after
/// transparent gzip decompression, so oversized *and* highly-compressed
/// responses both bail instead of exhausting memory.
pub const MAX_RESPONSE_BYTES: usize = 10 * 1024 * 1024;

/// Settings of the HTTP client.
#[derive(Debug, Clone)]
pub struct HttpConfig {
    /// Response timeout, in seconds.
    pub timeout: u64,
    /// Connection timeout, in seconds.
    pub connect_timeout: u64,
    /// Max retries.
    pub retries: u32,
    /// User Agent header.
    pub user_agent: Option<String>,
}

/// The client configuration for runtime settings; the integers are cast as
/// Rust's `as` casts them (a negative value wraps around).
pub open spec fn http_config_spec(s: RuntimeSettings) -> HttpConfig {
    HttpConfig {
        timeout: s.http_timeout as u64,
        connect_timeout: s.http_connect_timeout as u64,
        retries: s.http_retries as u32,
        user_agent: s.http_user_agent,
    }
}

impl HttpConfig {
    pub fn from_runtime(s: &RuntimeSettings) -> (c: HttpConfig)
        ensures
            c == http_config_spec(*s),
    {
        HttpConfig {
            timeout: s.http_timeout as u64,
            connect_timeout: s.http_connect_timeout as u64,
            retries: s.http_retries as u32,
            user_agent: s.http_user_agent.clone(),
        }
    }
}

impl<'a> From<&'a RuntimeSettings> for HttpConfig {
    fn from(s: &'a RuntimeSettings) -> (c: Self) {
        HttpConfig::from_runtime(s)
    }
}

impl<'a> vstd::std_specs::convert::FromSpecImpl<&'a RuntimeSettings> for HttpConfig {
    open spec fn obeys_from_spec() -> bool {
        true
    }

    open spec fn from_spec(s: &'a RuntimeSettings) -> Self {
        http_config_spec(*s)
    }
}

/// A declared `Content-Length` over the cap refuses the response before
/// its body is read.
pub fn declared_length_too_large(len: Option<u64>) -> (b: bool)
    ensures
        b == (len matches Some(l) && (l as usize) > MAX_RESPONSE_BYTES),
{
    match len {
        Some(l) => (l as usize) > MAX_RESPONSE_BYTES,
        None => false,
    }
}

/// Whether appending a chunk of `chunk` bytes to a body of `current` bytes
/// would pass the cap.
pub fn chunk_exceeds_cap(current: usize, chunk: usize) -> (b: bool)
    ensures
        b == (current + chunk > MAX_RESPONSE_BYTES),
{
    chunk > MAX_RESPONSE_BYTES || current > MAX_RESPONSE_BYTES - chunk
}

/// A `Content-Type` value without its parameters (such as `; charset=`),
/// trimmed and in ASCII lowercase.
pub open spec fn media_type_spec(v: Seq<char>) -> Seq<char> {
    let head = match split_once_spec(v, ';') {
        Some((a, _)) => a,
        None => v,
    };
    ascii_lowercase_spec(trim_spec(head))
}

/// Reads the media type out of a `Content-Type` header value.
pub fn media_type(v: &str) -> (r: String)
    ensures
        r@ == media_type_spec(v@),
{
    let c = chars_of(v);
    let head = match find_char(c.as_slice(), ';') {
        Some(i) => {
            proof {
                lemma_split_at_first(c@, ';', i as int);
            }
            let h = slice_chars(c.as_slice(), 0, i);
            proof {
                assert(h@ =~= c@.take(i as int));
            }
            h
        },
        None => {
            proof {
                assert(!exists|i: int| is_first(c@, ';', i));
            }
            c
        },
    };
    let t = trim(head.as_slice());
    let l = ascii_lowercase(t.as_slice());
    string_from_chars(l.as_slice())
}

} // verus!
