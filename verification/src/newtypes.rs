//! Identifier newtypes and a feed's stored exclusion filters.

use vstd::prelude::*;

verus! {

/// A feed's exclusion filters, one optional raw pattern per entry (see
/// `filter::parse_filter` for their syntax).
#[derive(Clone, Debug, Default)]
pub struct Filters(pub Vec<Option<String>>);

/// The Post ID
#[derive(Clone, Copy, Debug, Hash, PartialEq, Eq, Structural)]
pub struct PostId(pub i32);

/// The Feed ID
#[derive(Clone, Copy, Debug, Hash, PartialEq, Eq, Structural)]
pub struct FeedId(pub i32);

/// The Webhook ID
#[derive(Clone, Copy, Debug, Hash, PartialEq, Eq, Structural)]
pub struct WebhookId(pub i32);

/// The Folder ID
#[derive(Clone, Copy, Debug, Hash, PartialEq, Eq, Structural)]
pub struct FolderId(pub i32);

impl From<Vec<Option<String>>> for Filters {
    fn from(value: Vec<Option<String>>) -> (f: Self) {
        Filters(value)
    }
}

impl vstd::std_specs::convert::FromSpecImpl<Vec<Option<String>>> for Filters {
    open spec fn obeys_from_spec() -> bool {
        true
    }

    open spec fn from_spec(v: Vec<Option<String>>) -> Self {
        Filters(v)
    }
}

} // verus!
