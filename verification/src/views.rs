//! Assembling list responses from loaded rows.

use crate::models::{Feed, Folder, Post, PostArchive, Webhook};
use crate::newtypes::FeedId;
use crate::pagination::keyset::{decode_spec, encode_spec, lemma_cursor_round_trip, PagedResponse, PaginationCursor};
use crate::time::Timestamp;
use std::collections::HashMap;
use vstd::prelude::*;

verus! {

/// A row of a keyset-paginated list: its leading sort timestamp and its id.
pub trait PageRow: Sized {
    spec fn row_key(&self) -> (Timestamp, i32);

    fn page_key(&self) -> (r: (Timestamp, i32))
        ensures
            r == self.row_key(),
    ;
}

impl PageRow for PostArchive {
    /// Archive lists run newest-archived first.
    open spec fn row_key(&self) -> (Timestamp, i32) {
        (self.archived_at, self.id.0)
    }

    fn page_key(&self) -> (r: (Timestamp, i32)) {
        (self.archived_at, self.id.0)
    }
}

impl PageRow for Post {
    /// Post lists run newest-published first.
    open spec fn row_key(&self) -> (Timestamp, i32) {
        (self.published_at, self.id.0)
    }

    fn page_key(&self) -> (r: (Timestamp, i32)) {
        (self.published_at, self.id.0)
    }
}

/// The cursor text for a row.
pub open spec fn row_cursor<T: PageRow>(row: T) -> Seq<char> {
    encode_spec(row.row_key().0.spec_micros(), row.row_key().1 as int)
}

/// What every page is: a prefix of the loaded rows and, when there is a
/// cursor, the cursor of the last row served.
pub open spec fn page_served<T: PageRow>(rows: Seq<T>, r: PagedResponse<Vec<T>>) -> bool {
    &&& r.items@.len() <= rows.len()
    &&& r.items@ == rows.take(r.items@.len() as int)
    &&& (r.next_page matches Some(c) ==> r.items@.len() > 0 && c.0@ == row_cursor(r.items@.last()))
}

/// The archive page served from `rows`, loaded with one row more than the
/// page size: when more than `page_size` rows came back, the first
/// `page_size` rows and (unless the page is empty) the cursor of the last
/// one; otherwise every row and no cursor. A negative page size takes no
/// row away and gives no cursor.
pub open spec fn page_ok<T: PageRow>(rows: Seq<T>, page_size: i32, r: PagedResponse<Vec<T>>) -> bool {
    if 0 <= page_size < rows.len() {
        &&& r.items@ == rows.take(page_size as int)
        &&& if page_size > 0 {
            r.next_page matches Some(c) && c.0@ == row_cursor(rows[page_size - 1])
        } else {
            r.next_page is None
        }
    } else {
        &&& r.items@ == rows
        &&& r.next_page is None
    }
}

/// Cuts loaded archive rows down to one page and makes the cursor for the
/// next.
pub fn finish_page<T: PageRow>(rows: Vec<T>, page_size: i32) -> (r: PagedResponse<Vec<T>>)
    ensures
        page_ok(rows@, page_size, r),
        page_served(rows@, r),
{
    let mut items = rows;
    if page_size >= 0 && items.len() > page_size as usize {
        let limit = page_size as usize;
        items.truncate(limit);
        let next_page = if limit > 0 {
            let (t, id) = items[limit - 1].page_key();
            Some(PaginationCursor::encode(t, id))
        } else {
            None
        };
        PagedResponse { items, next_page }
    } else {
        proof {
            assert(items@.take(items@.len() as int) =~= items@);
        }
        PagedResponse { items, next_page: None }
    }
}

/// The post page served from `rows`, loaded with one row more than the page
/// size: when more rows came back than `page_size`, the first `page_size`
/// of them (all of them for a negative size) and, unless that is none, the
/// cursor of the last one; otherwise every row and no cursor.
pub open spec fn post_page_ok<T: PageRow>(rows: Seq<T>, page_size: i64, r: PagedResponse<Vec<T>>) -> bool {
    if page_size < rows.len() {
        let n = if page_size < 0 {
            rows.len() as int
        } else {
            page_size as int
        };
        &&& r.items@ == rows.take(n)
        &&& if n > 0 {
            r.next_page matches Some(c) && c.0@ == row_cursor(rows[n - 1])
        } else {
            r.next_page is None
        }
    } else {
        &&& r.items@ == rows
        &&& r.next_page is None
    }
}

/// Cuts loaded post rows down to one page and makes the cursor for the
/// next.
pub fn finish_post_page<T: PageRow>(rows: Vec<T>, page_size: i64) -> (r: PagedResponse<Vec<T>>)
    ensures
        post_page_ok(rows@, page_size, r),
        page_served(rows@, r),
{
    let mut items = rows;
    let over = if page_size < 0 {
        true
    } else {
        (items.len() as u64) > (page_size as u64)
    };
    if over {
        let n: usize = if page_size < 0 {
            items.len()
        } else {
            page_size as usize
        };
        items.truncate(n);
        proof {
            assert(items@.len() == n);
        }
        let next_page = if n > 0 {
            let (t, id) = items[n - 1].page_key();
            Some(PaginationCursor::encode(t, id))
        } else {
            None
        };
        PagedResponse { items, next_page }
    } else {
        proof {
            assert(items@.take(items@.len() as int) =~= items@);
        }
        PagedResponse { items, next_page: None }
    }
}

/// The cursor of a page decodes to the key of the last row on it, so the
/// next request resumes right after that row.
pub proof fn lemma_next_page_resumes<T: PageRow>(rows: Seq<T>, r: PagedResponse<Vec<T>>)
    requires
        page_served(rows, r),
        r.next_page is Some,
        r.items@.last().row_key().0.valid(),
    ensures
        r.items@.len() > 0,
        decode_spec((r.next_page->0).0@) == Some(
            (
                r.items@.last().row_key().0.spec_micros(),
                r.items@.last().row_key().1,
            ),
        ),
{
    let (t, id) = r.items@.last().row_key();
    t.lemma_fits_i64();
    lemma_cursor_round_trip(t.spec_micros() as i64, id);
}

/// The sort key of a row as numbers: microseconds and id.
pub open spec fn key_of<T: PageRow>(row: T) -> (int, int) {
    (row.row_key().0.spec_micros(), row.row_key().1 as int)
}

/// `a` sorts after `b` in newest-first order: an earlier timestamp, or the
/// same timestamp and a smaller id. This is the condition the listing
/// queries put on the rows that follow a cursor.
pub open spec fn older_than(a: (int, int), b: (int, int)) -> bool {
    a.0 < b.0 || (a.0 == b.0 && a.1 < b.1)
}

/// Rows in the order the listings load them: newest first, ties broken by
/// the larger id, no two rows with the same key.
pub open spec fn newest_first<T: PageRow>(rows: Seq<T>) -> bool {
    forall|i: int, j: int| 0 <= i < j < rows.len() ==> older_than(key_of(#[trigger] rows[j]), key_of(#[trigger] rows[i]))
}

/// Keyset paging loses and repeats nothing: of rows loaded newest first,
/// those that follow the cursor of a page are exactly the rows the page
/// did not serve.
pub proof fn lemma_next_page_is_the_rest<T: PageRow>(rows: Seq<T>, r: PagedResponse<Vec<T>>)
    requires
        page_served(rows, r),
        r.next_page is Some,
        newest_first(rows),
        r.items@.last().row_key().0.valid(),
    ensures
        decode_spec((r.next_page->0).0@) matches Some(c) && forall|k: int|
            0 <= k < rows.len() ==> (older_than(key_of(#[trigger] rows[k]), (c.0, c.1 as int)) <==> k
                >= r.items@.len()),
{
    lemma_next_page_resumes(rows, r);
    let limit = r.items@.len() as int;
    let last = rows[limit - 1];
    assert(r.items@.last() == last);
    assert forall|k: int| 0 <= k < rows.len() implies (older_than(key_of(#[trigger] rows[k]), key_of(last))
        <==> k >= r.items@.len()) by {
        if k > limit - 1 {
            assert(older_than(key_of(rows[k]), key_of(rows[limit - 1])));
        } else if k < limit - 1 {
            assert(older_than(key_of(rows[limit - 1]), key_of(rows[k])));
        }
    }
}

/// The post listing orders and filters by `published_at`, so the cursor of
/// a post page decodes to the `published_at` (in microseconds) and id of
/// the last post served.
pub proof fn lemma_post_cursor_is_published_at(rows: Seq<Post>, page_size: i64, r: PagedResponse<Vec<Post>>)
    requires
        post_page_ok(rows, page_size, r),
        page_served(rows, r),
        r.next_page is Some,
        r.items@.last().published_at.valid(),
    ensures
        r.items@.len() > 0,
        decode_spec((r.next_page->0).0@) == Some(
            (r.items@.last().published_at.spec_micros(), r.items@.last().id.0),
        ),
{
    let last = r.items@.last();
    last.published_at.lemma_fits_i64();
    lemma_cursor_round_trip(last.published_at.spec_micros() as i64, last.id.0);
}

/// The archive listing orders and filters by `archived_at`, so the cursor
/// of an archive page decodes to the `archived_at` (in microseconds) and
/// id of the last entry served.
pub proof fn lemma_archive_cursor_is_archived_at(rows: Seq<PostArchive>, page_size: i32, r: PagedResponse<Vec<PostArchive>>)
    requires
        page_ok(rows, page_size, r),
        page_served(rows, r),
        r.next_page is Some,
        r.items@.last().archived_at.valid(),
    ensures
        r.items@.len() > 0,
        decode_spec((r.next_page->0).0@) == Some(
            (r.items@.last().archived_at.spec_micros(), r.items@.last().id.0),
        ),
{
    let last = r.items@.last();
    last.archived_at.lemma_fits_i64();
    lemma_cursor_round_trip(last.archived_at.spec_micros() as i64, last.id.0);
}

/// The rows of `all` that a cursor at key `c` lets through: those that
/// sort after it, in their order.
pub open spec fn rows_after<T: PageRow>(all: Seq<T>, c: (int, int)) -> Seq<T>
    decreases all.len(),
{
    if all.len() == 0 {
        seq![]
    } else {
        let prev = rows_after(all.drop_last(), c);
        if older_than(key_of(all.last()), c) {
            prev.push(all.last())
        } else {
            prev
        }
    }
}

/// At most one row more than the page size, as the listing queries load.
pub open spec fn with_limit<T>(rows: Seq<T>, page_size: i64) -> Seq<T> {
    if rows.len() <= page_size + 1 {
        rows
    } else {
        rows.take(page_size + 1)
    }
}

/// The rows a post listing query loads from `all` (the matching posts,
/// newest first): those after the decoded cursor, or all of them without
/// one, at most one more than the page size.
pub open spec fn listing_rows<T: PageRow>(all: Seq<T>, cursor: Option<(int, i32)>, page_size: i64) -> Seq<T> {
    match cursor {
        None => with_limit(all, page_size),
        Some(c) => with_limit(rows_after(all, (c.0, c.1 as int)), page_size),
    }
}

/// The items of the pages, one page after the other.
pub open spec fn all_items<T>(pages: Seq<PagedResponse<Vec<T>>>) -> Seq<T>
    decreases pages.len(),
{
    if pages.len() == 0 {
        seq![]
    } else {
        all_items(pages.drop_last()) + pages.last().items@
    }
}

/// A cursor at the key of row `m - 1` lets through exactly the rows from
/// `m` on.
proof fn lemma_rows_after_key<T: PageRow>(all: Seq<T>, m: int, j: int)
    requires
        newest_first(all),
        0 < m <= all.len(),
        0 <= j <= all.len(),
    ensures
        rows_after(all.take(j), key_of(all[m - 1])) == (if j <= m {
            Seq::<T>::empty()
        } else {
            all.subrange(m, j)
        }),
    decreases j,
{
    let c = key_of(all[m - 1]);
    if j > 0 {
        lemma_rows_after_key(all, m, j - 1);
        assert(all.take(j).drop_last() =~= all.take(j - 1));
        assert(all.take(j).last() == all[j - 1]);
        if j - 1 > m - 1 {
            assert(older_than(key_of(all[j - 1]), key_of(all[m - 1])));
            if j - 1 == m {
                assert(all.subrange(m, j) =~= seq![all[j - 1]]);
            } else {
                assert(all.subrange(m, j) =~= all.subrange(m, j - 1).push(all[j - 1]));
            }
        } else if j - 1 < m - 1 {
            assert(older_than(key_of(all[m - 1]), key_of(all[j - 1])));
        }
    } else {
        assert(all.take(0) =~= Seq::<T>::empty());
    }
}

/// One page of the chain: what a page over the rows from `m` on serves and
/// where its cursor points.
proof fn lemma_page_step<T: PageRow>(all: Seq<T>, m: int, page_size: i64, p: PagedResponse<Vec<T>>)
    requires
        0 <= m <= all.len(),
        page_size > 0,
        forall|i: int| 0 <= i < all.len() ==> (#[trigger] all[i]).row_key().0.valid(),
        post_page_ok(with_limit(all.skip(m), page_size), page_size, p),
    ensures
        p.next_page is Some ==> {
            &&& m + page_size < all.len()
            &&& p.items@ == all.subrange(m, m + page_size)
            &&& decode_spec((p.next_page->0).0@) == Some(
                (
                    all[m + page_size - 1].row_key().0.spec_micros(),
                    all[m + page_size - 1].row_key().1,
                ),
            )
        },
        p.next_page is None ==> p.items@ == all.skip(m),
{
    let a = all.skip(m);
    let rows = with_limit(a, page_size);
    if page_size < rows.len() {
        assert(rows.take(page_size as int) =~= all.subrange(m, m + page_size));
        let last = all[m + page_size - 1];
        assert(rows[page_size - 1] == last);
        let (t, id) = last.row_key();
        t.lemma_fits_i64();
        lemma_cursor_round_trip(t.spec_micros() as i64, id);
    } else {
        assert(rows == a);
    }
}

/// Following the cursors page after page serves every row exactly once, in
/// order: when no row changes between the queries, each query loads the
/// rows after the previous page's cursor (all rows for the first), and the
/// last page has no cursor, the pages together hold exactly the matching
/// rows, newest first. Rows sharing a timestamp are neither skipped nor
/// repeated.
pub proof fn lemma_paging_serves_every_row_once<T: PageRow>(
    all: Seq<T>,
    page_size: i64,
    pages: Seq<PagedResponse<Vec<T>>>,
)
    requires
        newest_first(all),
        page_size > 0,
        forall|i: int| 0 <= i < all.len() ==> (#[trigger] all[i]).row_key().0.valid(),
        pages.len() > 0,
        post_page_ok(listing_rows(all, None, page_size), page_size, pages[0]),
        forall|i: int|
            0 < i < pages.len() ==> pages[i - 1].next_page is Some && post_page_ok(
                listing_rows(all, decode_spec((pages[i - 1].next_page->0).0@), page_size),
                page_size,
                #[trigger] pages[i],
            ),
        pages.last().next_page is None,
    ensures
        all_items(pages) == all,
{
    let n = pages.len() as int;
    assert(pages[n - 1] == pages.last());
    lemma_chain_prefix(all, page_size, pages, n);
    assert(pages.take(n) =~= pages);
    assert(all_items(pages).len() == all.len());
    assert(all.take(all.len() as int) =~= all);
}

/// The pages up to `i` hold those up to `i - 1` and then page `i - 1`.
proof fn lemma_items_extend<T>(pages: Seq<PagedResponse<Vec<T>>>, i: int)
    requires
        0 < i <= pages.len(),
    ensures
        all_items(pages.take(i)) == all_items(pages.take(i - 1)) + pages[i - 1].items@,
{
    assert(pages.take(i).drop_last() =~= pages.take(i - 1));
    assert(pages.take(i).last() == pages[i - 1]);
}

/// The query given the cursor of row `m - 1` loads the rows from `m` on.
proof fn lemma_query_after_cursor<T: PageRow>(all: Seq<T>, m: int, page_size: i64, c: Option<(int, i32)>)
    requires
        newest_first(all),
        0 < m <= all.len(),
        c == Some((all[m - 1].row_key().0.spec_micros(), all[m - 1].row_key().1)),
    ensures
        listing_rows(all, c, page_size) == with_limit(all.skip(m), page_size),
{
    lemma_rows_after_key(all, m, all.len() as int);
    assert(all.take(all.len() as int) =~= all);
    if m < all.len() {
        assert(all.subrange(m, all.len() as int) =~= all.skip(m));
    } else {
        assert(all.skip(m) =~= Seq::<T>::empty());
    }
}

/// What the first page serves and where its cursor points.
proof fn lemma_chain_first<T: PageRow>(all: Seq<T>, page_size: i64, p: PagedResponse<Vec<T>>)
    requires
        page_size > 0,
        forall|i: int| 0 <= i < all.len() ==> (#[trigger] all[i]).row_key().0.valid(),
        post_page_ok(listing_rows(all, None, page_size), page_size, p),
    ensures
        p.items@.len() <= all.len(),
        p.items@ == all.take(p.items@.len() as int),
        p.next_page is Some ==> {
            let m = p.items@.len() as int;
            &&& m > 0
            &&& decode_spec((p.next_page->0).0@) == Some(
                (all[m - 1].row_key().0.spec_micros(), all[m - 1].row_key().1),
            )
        },
        p.next_page is None ==> p.items@.len() == all.len(),
{
    assert(all.skip(0) =~= all);
    lemma_page_step(all, 0, page_size, p);
    if p.next_page is Some {
        assert(all.take(page_size as int) =~= all.subrange(0, page_size as int));
    } else {
        assert(all.take(all.len() as int) =~= all);
    }
}

/// A later page continues the served prefix of length `m`.
proof fn lemma_chain_next<T: PageRow>(all: Seq<T>, page_size: i64, prev: Seq<T>, p: PagedResponse<Vec<T>>)
    requires
        newest_first(all),
        page_size > 0,
        forall|i: int| 0 <= i < all.len() ==> (#[trigger] all[i]).row_key().0.valid(),
        0 < prev.len() <= all.len(),
        prev == all.take(prev.len() as int),
        post_page_ok(with_limit(all.skip(prev.len() as int), page_size), page_size, p),
    ensures
        (prev + p.items@).len() <= all.len(),
        prev + p.items@ == all.take((prev + p.items@).len() as int),
        p.next_page is Some ==> {
            let m = (prev + p.items@).len() as int;
            &&& m > 0
            &&& decode_spec((p.next_page->0).0@) == Some(
                (all[m - 1].row_key().0.spec_micros(), all[m - 1].row_key().1),
            )
        },
        p.next_page is None ==> (prev + p.items@).len() == all.len(),
{
    let m = prev.len() as int;
    lemma_page_step(all, m, page_size, p);
    if p.next_page is Some {
        assert(prev + p.items@ =~= all.take(m + page_size));
    } else {
        assert(prev + p.items@ =~= all);
        assert(all.take(all.len() as int) =~= all);
    }
}

proof fn lemma_chain_prefix<T: PageRow>(all: Seq<T>, page_size: i64, pages: Seq<PagedResponse<Vec<T>>>, i: int)
    requires
        newest_first(all),
        page_size > 0,
        forall|i: int| 0 <= i < all.len() ==> (#[trigger] all[i]).row_key().0.valid(),
        0 < i <= pages.len(),
        post_page_ok(listing_rows(all, None, page_size), page_size, pages[0]),
        forall|i: int|
            0 < i < pages.len() ==> pages[i - 1].next_page is Some && post_page_ok(
                listing_rows(all, decode_spec((pages[i - 1].next_page->0).0@), page_size),
                page_size,
                #[trigger] pages[i],
            ),
    ensures
        all_items(pages.take(i)).len() <= all.len(),
        all_items(pages.take(i)) == all.take(all_items(pages.take(i)).len() as int),
        pages[i - 1].next_page is Some ==> {
            let m = all_items(pages.take(i)).len() as int;
            &&& m > 0
            &&& decode_spec((pages[i - 1].next_page->0).0@) == Some(
                (all[m - 1].row_key().0.spec_micros(), all[m - 1].row_key().1),
            )
        },
        pages[i - 1].next_page is None ==> all_items(pages.take(i)).len() == all.len(),
    decreases i,
{
    lemma_items_extend(pages, i);
    if i == 1 {
        assert(pages.take(0) =~= Seq::<PagedResponse<Vec<T>>>::empty());
        assert(all_items(pages.take(0)) + pages[0].items@ =~= pages[0].items@);
        lemma_chain_first(all, page_size, pages[0]);
    } else {
        lemma_chain_prefix(all, page_size, pages, i - 1);
        let prev = all_items(pages.take(i - 1));
        let c = decode_spec((pages[i - 2].next_page->0).0@);
        assert(pages[i - 2].next_page is Some && post_page_ok(
            listing_rows(all, c, page_size),
            page_size,
            pages[i - 1],
        ));
        lemma_query_after_cursor(all, prev.len() as int, page_size, c);
        lemma_chain_next(all, page_size, prev, pages[i - 1]);
    }
}

/// Query parameters of the archive listing.
#[derive(Clone, Debug)]
pub struct ListPostArchive {
    pub page: Option<PaginationCursor>,
    pub search: Option<String>,
}

/// A page request over the archive: a search text and the cursor to
/// resume after.
#[derive(Clone, Debug)]
pub struct PostArchiveQuery {
    pub search: Option<String>,
    pub cursor: Option<PaginationCursor>,
}

/// A page request over posts: one feed, one tag, favorites only, and the
/// cursor to resume after.
#[derive(Clone, Debug)]
pub struct PostQuery {
    pub feed_id: Option<i32>,
    pub tag: Option<String>,
    pub fav_only: bool,
    pub cursor: Option<PaginationCursor>,
}

/// A feed with its unread count and whether an icon is stored for it.
#[derive(Clone, Debug)]
pub struct FeedView {
    pub feed: Feed,
    pub unread_count: i64,
    /// Whether the icon endpoint will serve an image.
    pub has_icon: bool,
}

pub open spec fn ids_contain(ids: Seq<FeedId>, id: FeedId) -> bool {
    exists|k: int| 0 <= k < ids.len() && ids[k] == id
}

fn contains_id(ids: &[FeedId], id: FeedId) -> (b: bool)
    ensures
        b == ids_contain(ids@, id),
{
    let mut i: usize = 0;
    while i < ids.len()
        invariant
            i <= ids@.len(),
            forall|k: int| 0 <= k < i ==> ids@[k] != id,
        decreases ids@.len() - i,
    {
        if ids[i].0 == id.0 {
            return true;
        }
        i = i + 1;
    }
    false
}

/// The feed list: each loaded `(feed, unread count)` row in order, flagged
/// with whether its id is among the feeds that have stored icon bytes.
pub fn feed_views(rows: Vec<(Feed, i64)>, icon_ids: &[FeedId]) -> (r: Vec<FeedView>)
    ensures
        r@.len() == rows@.len(),
        forall|k: int| 0 <= k < r@.len() ==> {
            &&& (#[trigger] r@[k]).feed == rows@[k].0
            &&& r@[k].unread_count == rows@[k].1
            &&& r@[k].has_icon == ids_contain(icon_ids@, rows@[k].0.id)
        },
{
    let ghost all = rows@;
    let mut out: Vec<FeedView> = Vec::new();
    for row in it: rows.into_iter()
        invariant
            it.seq() == all,
            out@.len() == it.index(),
            forall|k: int| 0 <= k < out@.len() ==> {
                &&& (#[trigger] out@[k]).feed == all[k].0
                &&& out@[k].unread_count == all[k].1
                &&& out@[k].has_icon == ids_contain(icon_ids@, all[k].0.id)
            },
    {
        let (feed, unread_count) = row;
        let has_icon = contains_id(icon_ids, feed.id);
        out.push(FeedView { feed, unread_count, has_icon });
    }
    out
}

/// A webhook and whether it is attached to the feed being edited.
#[derive(Clone, Debug)]
pub struct FeedWebhookView {
    pub webhook: Webhook,
    pub attached: bool,
}

/// All webhooks with their attached flag, in the loaded order.
pub fn feed_webhook_views(rows: Vec<(Webhook, bool)>) -> (r: Vec<FeedWebhookView>)
    ensures
        r@.len() == rows@.len(),
        forall|k: int| 0 <= k < r@.len() ==> (#[trigger] r@[k]).webhook == rows@[k].0 && r@[k].attached
            == rows@[k].1,
{
    let ghost all = rows@;
    let mut out: Vec<FeedWebhookView> = Vec::new();
    for row in it: rows.into_iter()
        invariant
            it.seq() == all,
            out@.len() == it.index(),
            forall|k: int| 0 <= k < out@.len() ==> (#[trigger] out@[k]).webhook == all[k].0 && out@[k].attached
                == all[k].1,
    {
        let (webhook, attached) = row;
        out.push(FeedWebhookView { webhook, attached });
    }
    out
}

/// The webhooks attached to feed `k`, in row order.
pub open spec fn hooks_for(rows: Seq<(FeedId, Webhook)>, k: i32) -> Seq<Webhook>
    decreases rows.len(),
{
    if rows.len() == 0 {
        seq![]
    } else {
        let prev = hooks_for(rows.drop_last(), k);
        if rows.last().0.0 == k {
            prev.push(rows.last().1)
        } else {
            prev
        }
    }
}

/// The attached webhooks of each feed: a feed id is a key exactly when it
/// has an attachment row, and maps to its webhooks in row order.
pub open spec fn hooks_by_feed_ok(m: Map<i32, Vec<Webhook>>, rows: Seq<(FeedId, Webhook)>) -> bool {
    &&& forall|k: i32| #[trigger] m.contains_key(k) <==> hooks_for(rows, k).len() > 0
    &&& forall|k: i32| m.contains_key(k) ==> (#[trigger] m[k])@ == hooks_for(rows, k)
}

/// Groups `(feed, webhook)` attachment rows by feed.
pub fn webhooks_by_feed(rows: Vec<(FeedId, Webhook)>) -> (m: HashMap<i32, Vec<Webhook>>)
    ensures
        hooks_by_feed_ok(m@, rows@),
{
    broadcast use vstd::std_specs::hash::group_hash_axioms;

    let ghost all = rows@;
    let mut m: HashMap<i32, Vec<Webhook>> = HashMap::new();
    proof {
        assert forall|k: i32| !(#[trigger] m@.contains_key(k)) && hooks_for(all.take(0), k).len() == 0 by {
            assert(all.take(0) =~= Seq::<(FeedId, Webhook)>::empty());
        }
    }
    for row in it: rows.into_iter()
        invariant
            it.seq() == all,
            hooks_by_feed_ok(m@, all.take(it.index() as int)),
    {
        let ghost i = it.index();
        let ghost old_m = m@;
        proof {
            assert(all.take(i + 1).drop_last() =~= all.take(i as int));
            assert(all.take(i + 1).last() == row);
        }
        let (feed_id, webhook) = row;
        let key = feed_id.0;
        proof {
            assert(old_m.contains_key(key) ==> old_m[key]@ == hooks_for(all.take(i as int), key));
        }
        let removed = m.remove(&key);
        proof {
            assert(m@ == old_m.remove(key));
            assert(removed is Some ==> old_m.contains_key(key) && removed->0 == old_m[key]);
            assert(removed is None ==> !old_m.contains_key(key));
        }
        let mut hooks = match removed {
            Some(v) => v,
            None => {
                proof {
                    assert(!old_m.contains_key(key));
                }
                Vec::new()
            },
        };
        proof {
            assert(hooks@ =~= hooks_for(all.take(i as int), key));
        }
        hooks.push(webhook);
        proof {
            assert(hooks@ =~= hooks_for(all.take(i + 1), key));
        }
        m.insert(key, hooks);
        proof {
            assert forall|k: i32| #[trigger] m@.contains_key(k) <==> hooks_for(all.take(i + 1), k).len() > 0 by {
                if k != key {
                    assert(hooks_for(all.take(i + 1), k) == hooks_for(all.take(i as int), k));
                    assert(old_m.contains_key(k) <==> hooks_for(all.take(i as int), k).len() > 0);
                }
            }
            assert forall|k: i32| m@.contains_key(k) implies (#[trigger] m@[k])@ == hooks_for(all.take(i + 1), k) by {
                if k != key {
                    assert(hooks_for(all.take(i + 1), k) == hooks_for(all.take(i as int), k));
                    assert(old_m.contains_key(k));
                    assert(old_m[k]@ == hooks_for(all.take(i as int), k));
                }
            }
        }
    }
    proof {
        assert(all.take(all.len() as int) =~= all);
    }
    m
}

/// The folder of feed `k` among `(feed, folder)` rows: the last row for it
/// counts.
pub open spec fn folder_for(rows: Seq<(FeedId, Folder)>, k: i32) -> Option<Folder>
    decreases rows.len(),
{
    if rows.len() == 0 {
        None
    } else if rows.last().0.0 == k {
        Some(rows.last().1)
    } else {
        folder_for(rows.drop_last(), k)
    }
}

/// The folder of each feed that is in one; standalone feeds are absent.
pub fn folders_by_feed(rows: Vec<(FeedId, Folder)>) -> (m: HashMap<i32, Folder>)
    ensures
        forall|k: i32| #[trigger] m@.contains_key(k) == folder_for(rows@, k) is Some,
        forall|k: i32| m@.contains_key(k) ==> Some(#[trigger] m@[k]) == folder_for(rows@, k),
{
    broadcast use vstd::std_specs::hash::group_hash_axioms;

    let ghost all = rows@;
    let mut m: HashMap<i32, Folder> = HashMap::new();
    proof {
        assert(all.take(0) =~= Seq::<(FeedId, Folder)>::empty());
    }
    for row in it: rows.into_iter()
        invariant
            it.seq() == all,
            forall|k: i32| #[trigger] m@.contains_key(k) == folder_for(all.take(it.index() as int), k) is Some,
            forall|k: i32| m@.contains_key(k) ==> Some(#[trigger] m@[k]) == folder_for(all.take(it.index() as int), k),
    {
        let ghost i = it.index();
        proof {
            assert(all.take(i + 1).drop_last() =~= all.take(i as int));
            assert(all.take(i + 1).last() == row);
        }
        let (feed_id, folder) = row;
        m.insert(feed_id.0, folder);
    }
    proof {
        assert(all.take(all.len() as int) =~= all);
    }
    m
}

} // verus!
