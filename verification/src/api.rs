//! Request and response shapes of the HTTP API, and the rules that turn
//! them into database forms.

use crate::models::{FeedIcon, FeedInsertForm, FeedUpdateForm, Post, WebhookKind};
use crate::newtypes::FolderId;
use crate::filter::opt_view;
use crate::newtypes::{FeedId, Filters};
use crate::pagination::by_id;
use crate::settings::{ReadMode, SettingsUpdateForm};
use crate::text::{
    chars_of, parse_i32, parse_i32_spec, split_once_chars, split_once_spec, string_from_chars,
    trim, trim_spec,
};
use crate::time::{millis_in_range, Timestamp};
use vstd::prelude::*;
use vstd::string::StringExecFns;

verus! {

/// A keyset position given as query parameters: milliseconds since the
/// epoch and a post id.
#[derive(Clone, Debug)]
pub struct CursorQuery {
    pub timestamp: Option<i64>,
    pub post_id: Option<i32>,
}

impl CursorQuery {
    /// The position, when both parameters are present. A timestamp chrono
    /// cannot represent falls back to the current time, and to `None` when
    /// the clock cannot be read either.
    pub fn to_cursor(&self) -> (r: Option<(Timestamp, i32)>)
        ensures
            r is Some ==> self.timestamp is Some && self.post_id is Some,
            self.timestamp is Some && self.post_id is Some && millis_in_range(self.timestamp->0 as int)
                ==> r is Some,
            r matches Some((t, id)) ==> id == self.post_id->0 && (millis_in_range(
                self.timestamp->0 as int,
            ) ==> t.spec_micros() == self.timestamp->0 * 1000),
    {
        match (self.timestamp, self.post_id) {
            (Some(ms), Some(id)) => match Timestamp::from_millis(ms) {
                Some(t) => Some((t, id)),
                None => match Timestamp::now() {
                    Some(t) => Some((t, id)),
                    None => None,
                },
            },
            _ => None,
        }
    }
}

/// The pieces `str::split` yields for a one-character separator: the text
/// between separators, empty pieces included, always at least one.
pub open spec fn split_pieces(s: Seq<char>, sep: char) -> Seq<Seq<char>>
    decreases s.len(),
{
    match split_once_spec(s, sep) {
        Some((a, b)) => if b.len() < s.len() {
            seq![a] + split_pieces(b, sep)
        } else {
            seq![s]
        },
        None => seq![s],
    }
}

/// Feed ids from comma-separated pieces, each trimmed: the ids in order, or
/// the first piece that is not an `i32`.
pub open spec fn parse_ids_spec(pieces: Seq<Seq<char>>) -> Result<Seq<i32>, Seq<char>>
    decreases pieces.len(),
{
    if pieces.len() == 0 {
        Ok(seq![])
    } else {
        match parse_ids_spec(pieces.drop_last()) {
            Err(e) => Err(e),
            Ok(v) => match parse_i32_spec(trim_spec(pieces.last())) {
                Some(x) => Ok(v.push(x)),
                None => Err(trim_spec(pieces.last())),
            },
        }
    }
}

/// The `exclude` parameter: absent or blank means no exclusion; otherwise
/// every comma-separated piece must be a feed id.
pub open spec fn feed_ids_spec(raw: Option<Seq<char>>) -> Result<Option<Seq<i32>>, Seq<char>> {
    match raw {
        None => Ok(None),
        Some(r) => if trim_spec(r).len() == 0 {
            Ok(None)
        } else {
            match parse_ids_spec(split_pieces(trim_spec(r), ',')) {
                Ok(v) => Ok(Some(v)),
                Err(e) => Err(e),
            }
        },
    }
}

/// A piece of the `exclude` list that is not a feed id.
#[derive(Clone, Debug)]
pub struct InvalidFeedId(pub String);

pub open spec fn ids_view(v: Seq<FeedId>) -> Seq<i32> {
    v.map_values(|f: FeedId| f.0)
}

fn split_all(s: &[char], sep: char) -> (r: Vec<Vec<char>>)
    ensures
        r@.map_values(|v: Vec<char>| v@) == split_pieces(s@, sep),
{
    let mut out: Vec<Vec<char>> = Vec::new();
    let mut rem: Vec<char> = crate::text::slice_chars(s, 0, s.len());
    proof {
        assert(rem@ =~= s@);
        assert(out@.map_values(|v: Vec<char>| v@) + split_pieces(rem@, sep) =~= split_pieces(s@, sep));
    }
    loop
        invariant
            out@.map_values(|v: Vec<char>| v@) + split_pieces(rem@, sep) == split_pieces(s@, sep),
        decreases rem@.len(),
    {
        match split_once_chars(rem.as_slice(), sep) {
            Some((a, b)) => {
                let ghost before = out@;
                proof {
                    assert(b@.len() < rem@.len()) by {
                        let i = choose|i: int| crate::text::is_first(rem@, sep, i);
                        assert(b@ == rem@.skip(i + 1));
                    }
                    assert(split_pieces(rem@, sep) == seq![a@] + split_pieces(b@, sep));
                }
                out.push(a);
                proof {
                    assert(out@.map_values(|v: Vec<char>| v@) =~= before.map_values(|v: Vec<char>| v@).push(
                        a@,
                    ));
                    assert(out@.map_values(|v: Vec<char>| v@) + split_pieces(b@, sep) =~= before.map_values(
                        |v: Vec<char>| v@,
                    ) + split_pieces(rem@, sep));
                }
                rem = b;
            },
            None => {
                let ghost before = out@;
                out.push(rem);
                proof {
                    assert(out@.map_values(|v: Vec<char>| v@) =~= before.map_values(|v: Vec<char>| v@)
                        + split_pieces(rem@, sep));
                }
                return out;
            },
        }
    }
}

/// `serde_urlencoded` has no sequences, so the post listing's `exclude`
/// filter arrives as one comma-separated string of feed ids (e.g.
/// `?exclude=3,7,12`). This reads it back into ids; surrounding whitespace
/// around the whole value and around each id is ignored.
pub fn parse_comma_sep_feed_ids(raw: Option<&str>) -> (r: Result<Option<Vec<FeedId>>, InvalidFeedId>)
    ensures
        match feed_ids_spec(
            match raw {
                Some(s) => Some(s@),
                None => None,
            },
        ) {
            Ok(None) => r matches Ok(None),
            Ok(Some(ids)) => r matches Ok(Some(v)) && ids_view(v@) == ids,
            Err(e) => r matches Err(err) && err.0@ == e,
        },
{
    let text = match raw {
        Some(s) => s,
        None => return Ok(None),
    };
    let t = trim(chars_of(text).as_slice());
    if t.len() == 0 {
        return Ok(None);
    }
    let pieces = split_all(t.as_slice(), ',');
    let ghost pv = pieces@.map_values(|v: Vec<char>| v@);
    let mut ids: Vec<FeedId> = Vec::new();
    let mut i: usize = 0;
    proof {
        assert(pv.take(0) =~= Seq::<Seq<char>>::empty());
        assert(ids_view(ids@) =~= Seq::<i32>::empty());
    }
    while i < pieces.len()
        invariant
            i <= pieces@.len(),
            raw == Some(text),
            t@ == trim_spec(text@),
            t@.len() > 0,
            pv == split_pieces(t@, ','),
            pv == pieces@.map_values(|v: Vec<char>| v@),
            parse_ids_spec(pv.take(i as int)) == Ok::<Seq<i32>, Seq<char>>(ids_view(ids@)),
        decreases pieces@.len() - i,
    {
        proof {
            assert(pv.take(i + 1).drop_last() =~= pv.take(i as int));
            assert(pv.take(i + 1).last() == pieces@[i as int]@);
        }
        let p = trim(pieces[i].as_slice());
        match parse_i32(p.as_slice()) {
            Some(x) => {
                let ghost before = ids@;
                ids.push(FeedId(x));
                proof {
                    assert(ids_view(ids@) =~= ids_view(before).push(x));
                }
            },
            None => {
                proof {
                    assert(parse_ids_spec(pv.take(i + 1)) == Err::<Seq<i32>, Seq<char>>(p@));
                    assert forall|j: int| i + 1 <= j <= pv.len() implies #[trigger] parse_ids_spec(pv.take(j))
                        == Err::<Seq<i32>, Seq<char>>(p@) by {
                        lemma_parse_ids_err_extends(pv, i as int + 1, j, p@);
                    }
                    assert(pv.take(pv.len() as int) =~= pv);
                    assert(parse_ids_spec(pv) == Err::<Seq<i32>, Seq<char>>(p@));
                }
                return Err(InvalidFeedId(string_from_chars(p.as_slice())));
            },
        }
        i = i + 1;
    }
    proof {
        assert(pv.take(pv.len() as int) =~= pv);
    }
    Ok(Some(ids))
}

proof fn lemma_parse_ids_err_extends(pv: Seq<Seq<char>>, i: int, j: int, e: Seq<char>)
    requires
        0 <= i <= j <= pv.len(),
        parse_ids_spec(pv.take(i)) == Err::<Seq<i32>, Seq<char>>(e),
    ensures
        parse_ids_spec(pv.take(j)) == Err::<Seq<i32>, Seq<char>>(e),
    decreases j - i,
{
    if j > i {
        lemma_parse_ids_err_extends(pv, i, j - 1, e);
        assert(pv.take(j).drop_last() =~= pv.take(j - 1));
    }
}

/// Query parameters of the post listings.
#[derive(Clone, Debug)]
pub struct ListPosts {
    pub page: Option<by_id::PaginationCursor>,
    pub tag: Option<String>,
    pub search: Option<String>,
    pub exclude: Option<Vec<FeedId>>,
}

/// Body of a feed creation request.
#[derive(Clone, Debug)]
pub struct CreateFeed {
    pub title: String,
    pub url: String,
    pub ttl: i32,
    pub folder: Option<String>,
    pub filters: Option<Vec<String>>,
}

/// Body of a feed update request.
#[derive(Clone, Debug)]
pub struct UpdateFeed {
    pub title: Option<String>,
    pub url: Option<String>,
    pub ttl: Option<i32>,
    /// Absent (`None`) keeps the current folder; `Some(None)` or a blank
    /// name removes the feed from its folder; a name assigns it (creating
    /// the folder if needed).
    pub folder: Option<Option<String>>,
    pub filters: Option<Vec<String>>,
}

pub open spec fn filters_spec(v: Option<Vec<String>>) -> Option<Seq<Option<String>>> {
    match v {
        Some(v) => Some(v@.map_values(|s: String| Some(s))),
        None => None,
    }
}

pub open spec fn filters_view(f: Option<Filters>) -> Option<Seq<Option<String>>> {
    match f {
        Some(f) => Some(f.0@),
        None => None,
    }
}

/// Filters from a request: every given pattern is kept, in order.
pub fn to_filters(v: Option<Vec<String>>) -> (r: Option<Filters>)
    ensures
        filters_view(r) == filters_spec(v),
{
    match v {
        None => None,
        Some(v) => {
            let ghost all = v@;
            let mut out: Vec<Option<String>> = Vec::new();
            for s in it: v.into_iter()
                invariant
                    it.seq() == all,
                    out@ == all.take(it.index() as int).map_values(|s: String| Some(s)),
            {
                proof {
                    assert(all.take(it.index() + 1) =~= all.take(it.index() as int).push(s));
                }
                out.push(Some(s));
                proof {
                    assert(out@ =~= all.take(it.index() + 1).map_values(|s: String| Some(s)));
                }
            }
            proof {
                assert(all.take(all.len() as int) =~= all);
            }
            Some(Filters(out))
        },
    }
}

impl CreateFeed {
    /// The feed to store, once the requested URL has been resolved to the
    /// feed it designates.
    pub fn into_insert_form(self, url: String) -> (f: FeedInsertForm)
        ensures
            f.title == self.title,
            f.url == url,
            f.ttl == self.ttl,
            f.folder == self.folder,
            filters_view(f.filters) == filters_spec(self.filters),
    {
        let filters = to_filters(self.filters);
        FeedInsertForm { title: self.title, url, ttl: self.ttl, folder: self.folder, filters }
    }
}

/// What to do with the URL of a feed update.
#[derive(Clone, Debug)]
pub enum UrlChange {
    /// No URL given: leave it as it is.
    Keep,
    /// The feed's current URL again: store it as it is, without a network
    /// round trip.
    Unchanged(String),
    /// A new URL: resolve it to the feed it designates first.
    Resolve(String),
}

/// Only a *changed* URL triggers discovery. The edit form always sends the
/// url field, so an unchanged one must pass through — otherwise a TTL or
/// title edit would fail while the feed's site happens to be down.
pub fn url_change(requested: Option<String>, current: &str) -> (r: UrlChange)
    ensures
        match requested {
            None => r is Keep,
            Some(u) => if u@ == current@ {
                r matches UrlChange::Unchanged(v) && v@ == u@
            } else {
                r matches UrlChange::Resolve(v) && v@ == u@
            },
        },
{
    match requested {
        None => UrlChange::Keep,
        Some(u) => {
            let a = chars_of(u.as_str());
            let b = chars_of(current);
            if crate::text::chars_eq(a.as_slice(), b.as_slice()) {
                UrlChange::Unchanged(u)
            } else {
                UrlChange::Resolve(u)
            }
        },
    }
}

impl UpdateFeed {
    /// The update to apply to feed `id`, with the URL as settled by
    /// [`url_change`] (and resolution, when it was needed).
    pub fn into_update_form(self, id: FeedId, url: Option<String>) -> (f: FeedUpdateForm)
        ensures
            f.id == id,
            f.title == self.title,
            f.url == url,
            f.ttl == self.ttl,
            f.folder == self.folder,
            filters_view(f.filters) == filters_spec(self.filters),
            f.is_paused is None,
            f.last_fetched_at is None,
    {
        let filters = to_filters(self.filters);
        FeedUpdateForm {
            id,
            title: self.title,
            url,
            ttl: self.ttl,
            folder: self.folder,
            filters,
            is_paused: None,
            last_fetched_at: None,
        }
    }
}

/// Body of a post update request.
#[derive(Clone, Debug)]
pub struct UpdatePost {
    pub is_favorite: Option<bool>,
    pub is_read: Option<bool>,
}

/// A changed post with the new unread count of its feed.
#[derive(Clone, Debug)]
pub struct UpdatePostResponse {
    pub post: Post,
    pub feed_unread_count: i64,
}

/// Body of a folder creation request.
#[derive(Clone, Debug)]
pub struct CreateFolder {
    pub name: String,
}

/// Body of a folder rename request.
#[derive(Clone, Debug)]
pub struct UpdateFolder {
    pub name: String,
}

/// Body of a webhook creation request.
#[derive(Clone, Debug)]
pub struct CreateWebhook {
    pub name: String,
    pub url: String,
    pub kind: WebhookKind,
    pub payload_template: Option<String>,
}

/// Body of a webhook update request.
#[derive(Clone, Debug)]
pub struct UpdateWebhook {
    pub name: Option<String>,
    pub url: Option<String>,
    pub kind: WebhookKind,
    pub payload_template: Option<String>,
}

/// Body of a settings update request.
#[derive(Clone, Debug)]
pub struct UpdateSettings {
    pub page_size: Option<i32>,
    pub feed_poll_interval_secs: Option<i32>,
    pub read_mode: Option<ReadMode>,
    pub http_timeout: Option<i32>,
    pub http_connect_timeout: Option<i32>,
    pub http_retries: Option<i32>,
    pub http_user_agent: Option<String>,
    pub expire_read_after_days: Option<i32>,
    pub expire_unread_after_days: Option<i32>,
}

impl UpdateSettings {
    /// The row update for this request: each field carried over as given.
    pub fn into_update_form(self) -> (f: SettingsUpdateForm)
        ensures
            f == (SettingsUpdateForm {
                page_size: self.page_size,
                feed_poll_interval_secs: self.feed_poll_interval_secs,
                http_timeout: self.http_timeout,
                http_connect_timeout: self.http_connect_timeout,
                http_retries: self.http_retries,
                http_user_agent: self.http_user_agent,
                read_mode: self.read_mode,
                expire_read_after_days: self.expire_read_after_days,
                expire_unread_after_days: self.expire_unread_after_days,
            }),
    {
        SettingsUpdateForm {
            page_size: self.page_size,
            feed_poll_interval_secs: self.feed_poll_interval_secs,
            http_timeout: self.http_timeout,
            http_connect_timeout: self.http_connect_timeout,
            http_retries: self.http_retries,
            http_user_agent: self.http_user_agent,
            read_mode: self.read_mode,
            expire_read_after_days: self.expire_read_after_days,
            expire_unread_after_days: self.expire_unread_after_days,
        }
    }
}

/// An XML document served as a download.
#[derive(Clone, Debug)]
pub struct XmlResponse {
    pub body: String,
}

/// Which posts a "mark as read" request covers.
#[derive(Clone, Copy, Debug, PartialEq, Eq, Structural)]
pub enum MarkReadScope {
    Feed(FeedId),
    Folder(FolderId),
    All,
}

/// A feed given wins over a folder; neither means every post.
pub fn mark_read_scope(feed_id: Option<FeedId>, folder_id: Option<FolderId>) -> (r: MarkReadScope)
    ensures
        r == match (feed_id, folder_id) {
            (Some(f), _) => MarkReadScope::Feed(f),
            (None, Some(d)) => MarkReadScope::Folder(d),
            (None, None) => MarkReadScope::All,
        },
{
    match (feed_id, folder_id) {
        (Some(f), _) => MarkReadScope::Feed(f),
        (None, Some(d)) => MarkReadScope::Folder(d),
        (None, None) => MarkReadScope::All,
    }
}

/// What the icon endpoint serves for a feed's stored icon: the bytes and
/// their MIME type (`image/x-icon` when none was recorded), or nothing when
/// no icon was found.
pub fn icon_body(icon: Option<FeedIcon>) -> (r: Option<(Vec<u8>, String)>)
    ensures
        match icon {
            Some(i) => match i.data {
                Some(d) => r matches Some((b, ct)) && b@ == d@ && ct@ == match opt_view(i.content_type) {
                    Some(c) => c,
                    None => "image/x-icon"@,
                },
                None => r is None,
            },
            None => r is None,
        },
{
    match icon {
        Some(i) => match i.data {
            Some(d) => {
                let ct = match i.content_type {
                    Some(c) => c,
                    None => String::from_str("image/x-icon"),
                };
                Some((d, ct))
            },
            None => None,
        },
        None => None,
    }
}

} // verus!
