//! Rows of the database and the rules that build or judge them.

use crate::error::{DatabaseError, WyrmError};
use crate::feed::{Entry, Person};
use crate::filter::opt_view;
use crate::newtypes::{FeedId, Filters, FolderId, PostId, WebhookId};
use crate::text::{
    chars_of, string_from_chars, trim, trim_spec,
};
use crate::time::{minutes_between, whole_minutes, Timestamp};
use vstd::prelude::*;

verus! {

/// A subscribed feed.
#[derive(Clone, Debug)]
pub struct Feed {
    pub id: FeedId,
    /// Human-readable feed name shown in the UI.
    pub title: String,
    /// URL the feed is fetched from.
    pub url: String,
    /// Refresh interval in minutes; the feed is polled once this much time
    /// has elapsed since `last_fetched_at`.
    pub ttl: i32,
    /// Patterns that exclude a post when matched.
    pub filters: Filters,
    /// Timestamp of the last successful poll; `None` until the feed is
    /// first fetched.
    pub last_fetched_at: Option<Timestamp>,
    /// Timestamp the feed was added.
    pub created_at: Timestamp,
    /// Optional folder used to group and filter feeds.
    pub folder_id: Option<FolderId>,
    /// Whether the feed is paused (not polled by the worker).
    pub is_paused: bool,
}

/// A feed is due at `now` when it was never fetched or at least `ttl`
/// whole minutes have passed since its last fetch.
pub open spec fn is_due_spec(last_fetched_at: Option<Timestamp>, ttl: i32, now: Timestamp) -> bool {
    match last_fetched_at {
        None => true,
        Some(last) => whole_minutes(now.spec_micros() - last.spec_micros()) >= ttl,
    }
}

impl Feed {
    /// Whether the feed should be polled now: the rule of [`Feed::is_due_at`]
    /// applied at the instant the clock reads. A feed never fetched is due
    /// without reading the clock; otherwise `None` when the clock cannot be
    /// read as a [`Timestamp`].
    pub fn is_due(&self) -> (r: Option<bool>)
        ensures
            self.last_fetched_at is None ==> r == Some(true),
            self.last_fetched_at is Some ==> (r matches Some(b) ==> exists|now: Timestamp| b == is_due_spec(
                self.last_fetched_at,
                self.ttl,
                now,
            )),
    {
        match self.last_fetched_at {
            None => Some(true),
            Some(_) => match Timestamp::now() {
                Some(now) => {
                    let b = self.is_due_at(now);
                    assert(b == is_due_spec(self.last_fetched_at, self.ttl, now));
                    Some(b)
                },
                None => None,
            },
        }
    }

    /// Whether the feed should be polled at `now`.
    pub fn is_due_at(&self, now: Timestamp) -> (b: bool)
        ensures
            b == is_due_spec(self.last_fetched_at, self.ttl, now),
    {
        match self.last_fetched_at {
            None => true,
            Some(last) => minutes_between(last, now) >= self.ttl as i64,
        }
    }
}

/// A feed that is due stays due as time goes on, until it is fetched
/// again.
pub proof fn lemma_due_stays_due(last_fetched_at: Option<Timestamp>, ttl: i32, now: Timestamp, later: Timestamp)
    requires
        is_due_spec(last_fetched_at, ttl, now),
        now.spec_micros() <= later.spec_micros(),
    ensures
        is_due_spec(last_fetched_at, ttl, later),
{
    if let Some(last) = last_fetched_at {
        crate::time::lemma_whole_minutes_monotone(
            now.spec_micros() - last.spec_micros(),
            later.spec_micros() - last.spec_micros(),
        );
    }
}

/// The fields of a new feed.
#[derive(Clone, Debug, Default)]
pub struct FeedInsertForm {
    pub title: String,
    pub url: String,
    pub ttl: i32,
    /// Name of the folder to place the feed in, resolved to a folder when
    /// the feed is stored.
    pub folder: Option<String>,
    pub filters: Option<Filters>,
}

/// Changes to a feed; `None` leaves a field as it is.
#[derive(Clone, Debug)]
pub struct FeedUpdateForm {
    pub id: FeedId,
    pub title: Option<String>,
    pub url: Option<String>,
    pub ttl: Option<i32>,
    /// `None` leaves the folder untouched; `Some(None)` or a blank name
    /// clears it; `Some(Some(name))` assigns it, creating the folder if the
    /// name is new.
    pub folder: Option<Option<String>>,
    pub filters: Option<Filters>,
    pub is_paused: Option<bool>,
    pub last_fetched_at: Option<Timestamp>,
}

/// A single entry fetched from a feed.
#[derive(Clone, Debug)]
pub struct Post {
    pub id: PostId,
    /// The feed this post belongs to.
    pub feed_id: FeedId,
    pub title: Option<String>,
    /// Link to the original post; with `feed_id` it identifies the post
    /// across polls.
    pub url: Option<String>,
    /// Comma-separated author list, each as `name (email)` or `name`.
    pub authors: Option<String>,
    pub published_at: Timestamp,
    pub updated_at: Option<Timestamp>,
    /// Short summary or excerpt.
    pub description: Option<String>,
    /// Full post body, if the feed includes it.
    pub content: Option<String>,
    /// Whether the user has bookmarked this post ("Read Later").
    pub bookmarked: bool,
    pub is_read: bool,
    pub is_archived: bool,
    /// Insertion time.
    pub created_at: Timestamp,
}

/// Flags of a post to change; `None` leaves one as it is.
#[derive(Clone, Debug)]
pub struct PostUpdateForm {
    pub id: PostId,
    pub bookmarked: Option<bool>,
    pub is_read: Option<bool>,
}

/// A post to insert; `None` timestamps take the column defaults.
#[derive(Clone, Debug)]
pub struct PostInsertForm {
    pub feed_id: FeedId,
    pub title: Option<String>,
    pub url: Option<String>,
    pub authors: Option<String>,
    pub published_at: Option<Timestamp>,
    pub updated_at: Option<Timestamp>,
    pub description: Option<String>,
    pub content: Option<String>,
    pub created_at: Option<Timestamp>,
}

/// How one author is listed: `name (email)`, or just `name`.
pub open spec fn author_text(p: Person) -> Seq<char> {
    match p.email {
        Some(e) => p.name@ + seq![' ', '('] + e@ + seq![')'],
        None => p.name@,
    }
}

/// Authors listed in order, separated by `", "`.
pub open spec fn join_authors(ps: Seq<Person>) -> Seq<char>
    decreases ps.len(),
{
    if ps.len() == 0 {
        seq![]
    } else if ps.len() == 1 {
        author_text(ps[0])
    } else {
        join_authors(ps.drop_last()) + seq![',', ' '] + author_text(ps.last())
    }
}

/// The description of an entry: its summary, else the description of its
/// first media object.
pub open spec fn entry_description(e: Entry) -> Option<Seq<char>> {
    match e.summary {
        Some(s) => Some(s@),
        None => if e.media_descriptions.len() > 0 {
            opt_view(e.media_descriptions@[0])
        } else {
            None
        },
    }
}

/// Authors are listed in order, separated by a comma and a space; one with
/// an email shows as `name (email)`, one without as the bare name.
pub proof fn lemma_author_list(ps: Seq<Person>, p: Person)
    ensures
        p.email matches Some(e) ==> join_authors(seq![p]) == p.name@ + " ("@ + e@ + ")"@,
        p.email is None ==> join_authors(seq![p]) == p.name@,
        ps.len() > 0 ==> join_authors(ps.push(p)) == join_authors(ps) + ", "@ + join_authors(seq![p]),
{
    reveal_strlit(" (");
    reveal_strlit(")");
    reveal_strlit(", ");
    let one: Seq<Person> = seq![p];
    assert(one[0] == p);
    if let Some(e) = p.email {
        assert(p.name@ + seq![' ', '('] + e@ + seq![')'] =~= p.name@ + " ("@ + e@ + ")"@);
    }
    if ps.len() > 0 {
        assert(ps.push(p).drop_last() =~= ps);
        assert(ps.push(p).last() == p);
        assert(seq![',', ' '] =~= ", "@);
    }
}

/// The stored description is the entry's summary when it has one; the
/// first media object's description counts only when there is no summary,
/// and there is none when neither exists.
pub proof fn lemma_summary_wins_over_media(e: Entry)
    ensures
        e.summary matches Some(sm) ==> entry_description(e) == Some(sm@),
        e.summary is None && e.media_descriptions@.len() > 0 ==> entry_description(e) == opt_view(
            e.media_descriptions@[0],
        ),
        e.summary is None && e.media_descriptions@.len() == 0 ==> entry_description(e) is None,
{
}

fn author_chars(p: &Person) -> (v: Vec<char>)
    ensures
        v@ == author_text(*p),
{
    let mut v = chars_of(p.name.as_str());
    match &p.email {
        Some(e) => {
            v.push(' ');
            v.push('(');
            let mut ec = chars_of(e.as_str());
            v.append(&mut ec);
            v.push(')');
            proof {
                assert(v@ =~= author_text(*p));
            }
        },
        None => {},
    }
    v
}

fn authors_text(ps: &Vec<Person>) -> (s: String)
    requires
        ps@.len() > 0,
    ensures
        s@ == join_authors(ps@),
{
    let mut v: Vec<char> = Vec::new();
    let mut i: usize = 0;
    while i < ps.len()
        invariant
            i <= ps@.len(),
            v@ == join_authors(ps@.take(i as int)),
        decreases ps@.len() - i,
    {
        let ghost prev = ps@.take(i as int);
        proof {
            assert(ps@.take(i + 1).drop_last() =~= prev);
            assert(ps@.take(i + 1).last() == ps@[i as int]);
        }
        if i > 0 {
            v.push(',');
            v.push(' ');
        }
        let mut a = author_chars(&ps[i]);
        v.append(&mut a);
        proof {
            if i == 0 {
                assert(prev =~= Seq::<Person>::empty());
                assert(ps@.take(1)[0] == ps@[0]);
                assert(v@ =~= join_authors(ps@.take(1)));
            } else {
                assert(v@ =~= join_authors(prev) + seq![',', ' '] + author_text(ps@[i as int]));
            }
        }
        i = i + 1;
    }
    proof {
        assert(ps@.take(ps@.len() as int) =~= ps@);
    }
    string_from_chars(v.as_slice())
}

impl PostInsertForm {
    /// The post to store for a feed entry.
    pub fn from_entry(entry: Entry, feed_id: FeedId) -> (f: Self)
        ensures
            f.feed_id == feed_id,
            opt_view(f.title) == opt_view(entry.title),
            opt_view(f.url) == (if entry.links.len() > 0 {
                Some(entry.links@[0].href@)
            } else {
                None
            }),
            opt_view(f.authors) == (if entry.authors.len() == 0 {
                None
            } else {
                Some(join_authors(entry.authors@))
            }),
            f.published_at == entry.published,
            f.updated_at == entry.updated,
            opt_view(f.description) == entry_description(entry),
            entry.summary matches Some(sm) ==> opt_view(f.description) == Some(sm@),
            opt_view(f.content) == opt_view(entry.content),
            f.created_at is None,
    {
        let authors = if entry.authors.len() == 0 {
            None
        } else {
            Some(authors_text(&entry.authors))
        };
        let url = if entry.links.len() > 0 {
            Some(entry.links[0].href.clone())
        } else {
            None
        };
        let description = match &entry.summary {
            Some(s) => Some(s.clone()),
            None => if entry.media_descriptions.len() > 0 {
                entry.media_descriptions[0].clone()
            } else {
                None
            },
        };
        PostInsertForm {
            feed_id,
            title: entry.title.clone(),
            url,
            authors,
            published_at: entry.published,
            updated_at: entry.updated,
            description,
            content: entry.content.clone(),
            created_at: None,
        }
    }
}

/// A `(feed, url)` whose post was expired (deleted); polls must not bring
/// it back.
#[derive(Clone, Debug)]
pub struct ExpiredPostInsertForm {
    pub feed_id: FeedId,
    pub url: String,
}

/// A recorded expired post.
#[derive(Clone, Debug)]
pub struct ExpiredPost {
    pub feed_id: FeedId,
    pub url: String,
}

/// The form names a `(feed, url)` pair recorded in `expired`.
pub open spec fn is_expired(f: PostInsertForm, expired: Seq<(FeedId, String)>) -> bool {
    f.url matches Some(u) && exists|i: int|
        0 <= i < expired.len() && expired[i].0 == f.feed_id && #[trigger] expired[i].1@ == u@
}

/// The forms that survive the expired-posts filter, in their order.
pub open spec fn kept_forms(forms: Seq<PostInsertForm>, expired: Seq<(FeedId, String)>) -> Seq<PostInsertForm>
    decreases forms.len(),
{
    if forms.len() == 0 {
        seq![]
    } else {
        let prev = kept_forms(forms.drop_last(), expired);
        if is_expired(forms.last(), expired) {
            prev
        } else {
            prev.push(forms.last())
        }
    }
}

fn recorded(expired: &[(FeedId, String)], feed_id: FeedId, url: &str) -> (b: bool)
    ensures
        b == exists|i: int|
            0 <= i < expired@.len() && expired@[i].0 == feed_id && #[trigger] expired@[i].1@ == url@,
{
    let u = chars_of(url);
    let mut i: usize = 0;
    while i < expired.len()
        invariant
            i <= expired@.len(),
            u@ == url@,
            forall|k: int|
                0 <= k < i ==> !(expired@[k].0 == feed_id && #[trigger] expired@[k].1@ == url@),
        decreases expired@.len() - i,
    {
        if expired[i].0.0 == feed_id.0 {
            let e = chars_of(expired[i].1.as_str());
            if crate::text::chars_eq(e.as_slice(), u.as_slice()) {
                return true;
            }
        }
        i = i + 1;
    }
    false
}

/// The `(feed_id, url)` pairs to look up in the expired-posts record for a
/// batch: every form's feed id, and the urls of the forms that have one.
pub fn expired_lookup_keys(forms: &[PostInsertForm]) -> (r: (Vec<FeedId>, Vec<String>))
    ensures
        r.0@ == forms@.map_values(|f: PostInsertForm| f.feed_id),
        r.1@.map_values(|s: String| s@) == urls_of(forms@),
{
    let mut ids: Vec<FeedId> = Vec::new();
    let mut urls: Vec<String> = Vec::new();
    let mut i: usize = 0;
    while i < forms.len()
        invariant
            i <= forms@.len(),
            ids@ == forms@.take(i as int).map_values(|f: PostInsertForm| f.feed_id),
            urls@.map_values(|s: String| s@) == urls_of(forms@.take(i as int)),
        decreases forms@.len() - i,
    {
        proof {
            assert(forms@.take(i + 1).drop_last() =~= forms@.take(i as int));
        }
        ids.push(forms[i].feed_id);
        let ghost before = urls@;
        match &forms[i].url {
            Some(u) => {
                urls.push(u.clone());
                proof {
                    assert(urls@.map_values(|s: String| s@) =~= before.map_values(|s: String| s@).push(u@));
                }
            },
            None => {},
        }
        proof {
            assert(ids@ =~= forms@.take(i + 1).map_values(|f: PostInsertForm| f.feed_id));
        }
        i = i + 1;
    }
    proof {
        assert(forms@.take(forms@.len() as int) =~= forms@);
    }
    (ids, urls)
}

/// The urls of the forms that have one, in order.
pub open spec fn urls_of(forms: Seq<PostInsertForm>) -> Seq<Seq<char>>
    decreases forms.len(),
{
    if forms.len() == 0 {
        seq![]
    } else {
        let prev = urls_of(forms.drop_last());
        match forms.last().url {
            Some(u) => prev.push(u@),
            None => prev,
        }
    }
}

/// Drops the forms whose `(feed_id, url)` is recorded as expired, so posts
/// removed by expiry cannot come back on the next poll. Forms without a
/// url always stay.
pub fn drop_expired(forms: Vec<PostInsertForm>, expired: &[(FeedId, String)]) -> (r: Vec<PostInsertForm>)
    ensures
        r@ == kept_forms(forms@, expired@),
{
    let ghost all = forms@;
    let mut out: Vec<PostInsertForm> = Vec::new();
    for f in it: forms.into_iter()
        invariant
            it.seq() == all,
            out@ == kept_forms(all.take(it.index() as int), expired@),
    {
        let ghost i = it.index();
        proof {
            assert(all.take(i + 1).drop_last() =~= all.take(i as int));
            assert(all.take(i + 1).last() == all[i as int]);
        }
        let gone = match &f.url {
            Some(u) => recorded(expired, f.feed_id, u.as_str()),
            None => false,
        };
        if !gone {
            out.push(f);
        }
    }
    proof {
        assert(all.take(all.len() as int) =~= all);
    }
    out
}

/// Nothing that survives the filter is recorded as expired, and every
/// form that is not recorded survives.
pub proof fn lemma_kept_forms(forms: Seq<PostInsertForm>, expired: Seq<(FeedId, String)>)
    ensures
        forall|k: int| 0 <= k < kept_forms(forms, expired).len() ==> !is_expired(
            #[trigger] kept_forms(forms, expired)[k],
            expired,
        ),
        forall|j: int| 0 <= j < forms.len() && !is_expired(#[trigger] forms[j], expired)
            ==> kept_forms(forms, expired).contains(forms[j]),
        kept_forms(forms, expired).len() <= forms.len(),
    decreases forms.len(),
{
    if forms.len() > 0 {
        let init = forms.drop_last();
        lemma_kept_forms(init, expired);
        let prev = kept_forms(init, expired);
        assert forall|j: int| 0 <= j < forms.len() && !is_expired(#[trigger] forms[j], expired)
            implies kept_forms(forms, expired).contains(forms[j]) by {
            if j < forms.len() - 1 {
                assert(init[j] == forms[j]);
                assert(prev.contains(init[j]));
                let w = choose|w: int| 0 <= w < prev.len() && prev[w] == init[j];
                if !is_expired(forms.last(), expired) {
                    assert(prev.push(forms.last())[w] == forms[j]);
                }
            } else {
                assert(prev.push(forms.last())[prev.len() as int] == forms[j]);
            }
        }
    }
}

/// The expired-posts records for the rows a sweep deleted: one per row
/// that had a url.
pub fn tombstones(deleted: Vec<(FeedId, Option<String>)>) -> (r: Vec<ExpiredPostInsertForm>)
    ensures
        r@.len() <= deleted@.len(),
        tombstones_view(r@) == tombstones_spec(deleted@),
{
    let mut out: Vec<ExpiredPostInsertForm> = Vec::new();
    let mut i: usize = 0;
    while i < deleted.len()
        invariant
            i <= deleted@.len(),
            out@.len() <= i,
            tombstones_view(out@) == tombstones_spec(deleted@.take(i as int)),
        decreases deleted@.len() - i,
    {
        proof {
            assert(deleted@.take(i + 1).drop_last() =~= deleted@.take(i as int));
            assert(deleted@.take(i + 1).last() == deleted@[i as int]);
        }
        let ghost before = out@;
        match &deleted[i].1 {
            Some(u) => {
                out.push(ExpiredPostInsertForm { feed_id: deleted[i].0, url: u.clone() });
                proof {
                    assert(tombstones_view(out@) =~= tombstones_view(before).push((deleted@[i as int].0, u@)));
                }
            },
            None => {},
        }
        i = i + 1;
    }
    proof {
        assert(deleted@.take(deleted@.len() as int) =~= deleted@);
    }
    out
}

pub open spec fn tombstones_view(v: Seq<ExpiredPostInsertForm>) -> Seq<(FeedId, Seq<char>)> {
    v.map_values(|f: ExpiredPostInsertForm| (f.feed_id, f.url@))
}

/// `(feed, url)` of each deleted row that had a url, in order.
pub open spec fn tombstones_spec(deleted: Seq<(FeedId, Option<String>)>) -> Seq<(FeedId, Seq<char>)>
    decreases deleted.len(),
{
    if deleted.len() == 0 {
        seq![]
    } else {
        let prev = tombstones_spec(deleted.drop_last());
        match deleted.last().1 {
            Some(u) => prev.push((deleted.last().0, u@)),
            None => prev,
        }
    }
}

/// A snapshot of an archived post, kept independently of the posts table
/// so it survives the original post (and its feed) being deleted.
#[derive(Clone, Debug)]
pub struct PostArchive {
    /// The original post's id, reused as this row's key.
    pub id: PostId,
    pub title: Option<String>,
    pub url: Option<String>,
    pub authors: Option<String>,
    pub published_at: Timestamp,
    pub description: Option<String>,
    pub content: Option<String>,
    /// When the post was archived.
    pub archived_at: Timestamp,
}

/// The snapshot to store when archiving a post.
#[derive(Clone, Debug)]
pub struct PostArchiveInsertForm {
    pub id: PostId,
    pub title: Option<String>,
    pub url: Option<String>,
    pub authors: Option<String>,
    pub published_at: Timestamp,
    pub description: Option<String>,
    pub content: Option<String>,
}

pub open spec fn archive_form_spec(p: Post) -> PostArchiveInsertForm {
    PostArchiveInsertForm {
        id: p.id,
        title: p.title,
        url: p.url,
        authors: p.authors,
        published_at: p.published_at,
        description: p.description,
        content: p.content,
    }
}

impl From<Post> for PostArchiveInsertForm {
    fn from(p: Post) -> (f: Self) {
        PostArchiveInsertForm {
            id: p.id,
            title: p.title,
            url: p.url,
            authors: p.authors,
            published_at: p.published_at,
            description: p.description,
            content: p.content,
        }
    }
}

impl vstd::std_specs::convert::FromSpecImpl<Post> for PostArchiveInsertForm {
    open spec fn obeys_from_spec() -> bool {
        true
    }

    open spec fn from_spec(p: Post) -> Self {
        archive_form_spec(p)
    }
}

/// The snapshot for archiving `post`; a post archived already is a
/// conflict.
pub fn archive_insert_form(post: Post) -> (r: Result<PostArchiveInsertForm, WyrmError>)
    ensures
        post.is_archived ==> (r matches Err(WyrmError::Database(DatabaseError::Conflict(m))) && m@
            == "post already archived"@),
        !post.is_archived ==> r == Ok::<PostArchiveInsertForm, WyrmError>(archive_form_spec(post)),
{
    if post.is_archived {
        return Err(
            WyrmError::Database(
                DatabaseError::Conflict(string_from_chars(chars_of("post already archived").as_slice())),
            ),
        );
    }
    Ok(PostArchiveInsertForm::from(post))
}

/// A folder feeds can be grouped in.
#[derive(Clone, Debug)]
pub struct Folder {
    pub id: FolderId,
    pub name: String,
}

#[derive(Clone, Debug)]
pub struct FolderInsertForm {
    pub name: String,
}

#[derive(Clone, Debug)]
pub struct FolderUpdateForm {
    pub id: FolderId,
    pub name: String,
}

/// Trims a folder name, rejecting one that is empty after trimming. Every
/// folder write goes through this: the case-insensitive unique index has
/// no trim, so an untrimmed insert would slip past it.
pub fn normalize_name(name: &str) -> (r: Result<String, WyrmError>)
    ensures
        trim_spec(name@).len() == 0 ==> r matches Err(WyrmError::EmptyFolderName),
        trim_spec(name@).len() > 0 ==> (r matches Ok(s) && s@ == trim_spec(name@)),
{
    let t = trim(chars_of(name).as_slice());
    if t.len() == 0 {
        return Err(WyrmError::EmptyFolderName);
    }
    Ok(string_from_chars(t.as_slice()))
}

/// The folder a feed write names: a blank or absent name means no folder.
pub fn folder_name(name: Option<&str>) -> (r: Option<String>)
    ensures
        match name {
            Some(n) => if trim_spec(n@).len() > 0 {
                r matches Some(s) && s@ == trim_spec(n@)
            } else {
                r is None
            },
            None => r is None,
        },
{
    match name {
        Some(n) => match normalize_name(n) {
            Ok(s) => Some(s),
            Err(_) => None,
        },
        None => None,
    }
}

/// A feed's resolved icon. `data` is `None` when a lookup completed but
/// found nothing, so missing icons are retried on a slow cadence.
#[derive(Clone, Debug)]
pub struct FeedIcon {
    pub feed_id: FeedId,
    /// Raw image bytes; `None` = checked, nothing found.
    pub data: Option<Vec<u8>>,
    /// MIME type the bytes are served with.
    pub content_type: Option<String>,
    /// When the icon was last (re)resolved.
    pub checked_at: Timestamp,
}

/// A lookup result to record.
#[derive(Clone, Debug)]
pub struct FeedIconInsertForm {
    pub feed_id: FeedId,
    /// `None` records a lookup that found no icon.
    pub data: Option<Vec<u8>>,
    pub content_type: Option<String>,
}

/// An icon is looked up when the feed was never checked, or when the last
/// check found nothing at least `RETRY_MISSING_AFTER_MICROS` ago. Found
/// icons are kept until the feed's URL changes.
pub open spec fn needs_icon_lookup_spec(existing: Option<FeedIcon>, now: Timestamp) -> bool {
    match existing {
        None => true,
        Some(icon) => icon.data is None && now.spec_micros() - icon.checked_at.spec_micros()
            >= crate::icon::RETRY_MISSING_AFTER_MICROS,
    }
}

/// A found icon is never looked up again, and a miss that is due for a
/// retry stays due as time goes on.
pub proof fn lemma_icon_lookup_cadence(icon: FeedIcon, now: Timestamp, later: Timestamp)
    ensures
        icon.data is Some ==> !needs_icon_lookup_spec(Some(icon), now),
        needs_icon_lookup_spec(Some(icon), now) && now.spec_micros() <= later.spec_micros()
            ==> needs_icon_lookup_spec(Some(icon), later),
{
}

/// Whether a feed's icon should be (re)resolved at `now`.
pub fn needs_icon_lookup(existing: &Option<FeedIcon>, now: Timestamp) -> (b: bool)
    ensures
        b == needs_icon_lookup_spec(*existing, now),
{
    match existing {
        None => true,
        Some(icon) => {
            let elapsed: i128 = now.micros() as i128 - icon.checked_at.micros() as i128;
            icon.data.is_none() && elapsed >= crate::icon::RETRY_MISSING_AFTER_MICROS as i128
        },
    }
}

/// Payload format of a webhook.
#[derive(Clone, Copy, Debug, PartialEq, Eq, Structural)]
pub enum WebhookKind {
    Slack,
    Discord,
    Custom,
}

/// A reusable notification destination, attached to any number of feeds.
#[derive(Clone, Debug)]
pub struct Webhook {
    pub id: WebhookId,
    /// Label shown in the UI.
    pub name: String,
    /// Endpoint the payload is POSTed to.
    pub url: String,
    pub kind: WebhookKind,
    /// JSON template rendered for `Custom` webhooks.
    pub payload_template: Option<String>,
    pub created_at: Timestamp,
}

/// A feed–webhook attachment.
#[derive(Clone, Copy, Debug)]
pub struct FeedWebhook {
    pub feed_id: FeedId,
    pub webhook_id: WebhookId,
}

#[derive(Clone, Debug)]
pub struct WebhookInsertForm {
    pub name: String,
    pub url: String,
    pub kind: WebhookKind,
    pub payload_template: Option<String>,
}

#[derive(Clone, Debug)]
pub struct WebhookUpdateForm {
    pub id: WebhookId,
    pub name: Option<String>,
    pub url: Option<String>,
    pub kind: Option<WebhookKind>,
    pub payload_template: Option<String>,
}

} // verus!
