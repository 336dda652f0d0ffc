//! What the library reads of a parsed feed and its entries, as plain
//! values. The application fills these from the feed parser's model.

use crate::time::Timestamp;
use vstd::prelude::*;

verus! {

/// A link of a feed or an entry.
#[derive(Clone, Debug)]
pub struct Link {
    pub href: String,
    /// The `rel` attribute, such as `self` or `alternate`.
    pub rel: Option<String>,
}

/// An author of an entry.
#[derive(Clone, Debug)]
pub struct Person {
    pub name: String,
    pub email: Option<String>,
}

/// One item of a feed.
#[derive(Clone, Debug)]
pub struct Entry {
    /// Title text.
    pub title: Option<String>,
    /// Links in document order.
    pub links: Vec<Link>,
    /// Authors in document order.
    pub authors: Vec<Person>,
    pub published: Option<Timestamp>,
    pub updated: Option<Timestamp>,
    /// Summary text.
    pub summary: Option<String>,
    /// Body of the entry's content element, when it has one.
    pub content: Option<String>,
    /// The description of each media object, in document order.
    pub media_descriptions: Vec<Option<String>>,
}

/// The feed-level elements that icon resolution reads.
#[derive(Clone, Debug)]
pub struct FeedMeta {
    /// Links of the feed in document order.
    pub links: Vec<Link>,
    /// URI of the feed's `<icon>`.
    pub icon: Option<String>,
    /// URI of the feed's `<logo>`.
    pub logo: Option<String>,
}

} // verus!
