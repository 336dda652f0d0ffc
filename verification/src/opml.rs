//! Subscription lists in OPML form: which feeds an imported outline tree
//! creates, and how stored feeds are grouped when exported.

use crate::error::{DatabaseError, WyrmError};
use crate::models::{Feed, FeedInsertForm, Folder};
use crate::newtypes::FolderId;
use crate::filter::opt_view;
use crate::text::{chars_eq, chars_of, string_from_chars};
use vstd::multiset::Multiset;
use vstd::prelude::*;

verus! {

/// An OPML outline: a feed (with `xml_url`) or a folder of feeds.
#[derive(Debug, Default)]
pub struct Outline {
    pub text: String,
    pub title: String,
    /// `type` attribute; `rss` for feeds.
    pub kind: Option<String>,
    pub xml_url: Option<String>,
    pub children: Vec<Outline>,
}

/// A feed to create on import: title, url and folder name.
pub type ImportView = (Seq<char>, Seq<char>, Option<Seq<char>>);

/// The feeds the children of a folder outline create, in order: those
/// with an `xml_url`, placed in the folder named by the parent's text.
pub open spec fn children_plan(cs: Seq<Outline>, folder: Seq<char>) -> Seq<ImportView>
    decreases cs.len(),
{
    if cs.len() == 0 {
        seq![]
    } else {
        let prev = children_plan(cs.drop_last(), folder);
        match cs.last().xml_url {
            Some(u) => prev.push((cs.last().title@, u@, Some(folder))),
            None => prev,
        }
    }
}

/// The feeds one top-level outline creates: itself when it has an
/// `xml_url`, otherwise its children.
pub open spec fn outline_plan(o: Outline) -> Seq<ImportView> {
    match o.xml_url {
        Some(u) => seq![(o.title@, u@, None)],
        None => children_plan(o.children@, o.text@),
    }
}

/// The feeds an imported document creates, in document order.
pub open spec fn import_plan_spec(os: Seq<Outline>) -> Seq<ImportView>
    decreases os.len(),
{
    if os.len() == 0 {
        seq![]
    } else {
        import_plan_spec(os.drop_last()) + outline_plan(os.last())
    }
}

pub open spec fn form_view(f: FeedInsertForm) -> ImportView {
    (f.title@, f.url@, opt_view(f.folder))
}

/// Every form of an import: an hour's refresh interval and no filters.
pub open spec fn import_defaults(fs: Seq<FeedInsertForm>) -> bool {
    forall|k: int| 0 <= k < fs.len() ==> #[trigger] fs[k].ttl == 60 && fs[k].filters is None
}

fn import_form(title: &String, url: &String, folder: Option<&String>) -> (f: FeedInsertForm)
    ensures
        f.title@ == title@,
        f.url@ == url@,
        opt_view(f.folder) == match folder {
            Some(s) => Some(s@),
            None => None,
        },
        f.ttl == 60,
        f.filters is None,
{
    FeedInsertForm {
        title: title.clone(),
        url: url.clone(),
        ttl: 60,
        folder: match folder {
            Some(s) => Some(s.clone()),
            None => None,
        },
        filters: None,
    }
}

/// The feeds to create for an imported outline list: standalone feeds,
/// and the feeds inside each folder outline filed under its name. Nested
/// folders are not descended into.
pub fn import_plan(outlines: &[Outline]) -> (r: Vec<FeedInsertForm>)
    ensures
        r@.map_values(|f: FeedInsertForm| form_view(f)) == import_plan_spec(outlines@),
        import_defaults(r@),
{
    let mut out: Vec<FeedInsertForm> = Vec::new();
    let mut i: usize = 0;
    while i < outlines.len()
        invariant
            i <= outlines@.len(),
            out@.map_values(|f: FeedInsertForm| form_view(f)) == import_plan_spec(outlines@.take(i as int)),
            import_defaults(out@),
        decreases outlines@.len() - i,
    {
        proof {
            assert(outlines@.take(i + 1).drop_last() =~= outlines@.take(i as int));
            assert(outlines@.take(i + 1).last() == outlines@[i as int]);
        }
        let o = &outlines[i];
        let ghost before = out@.map_values(|f: FeedInsertForm| form_view(f));
        match &o.xml_url {
            Some(u) => {
                let f = import_form(&o.title, u, None);
                out.push(f);
                proof {
                    assert(out@.map_values(|f: FeedInsertForm| form_view(f)) =~= before + outline_plan(*o));
                }
            },
            None => {
                let cs = &o.children;
                let mut j: usize = 0;
                while j < cs.len()
                    invariant
                        j <= cs@.len(),
                        cs@ == o.children@,
                        out@.map_values(|f: FeedInsertForm| form_view(f)) == before + children_plan(
                            cs@.take(j as int),
                            o.text@,
                        ),
                        import_defaults(out@),
                    decreases cs@.len() - j,
                {
                    proof {
                        assert(cs@.take(j + 1).drop_last() =~= cs@.take(j as int));
                        assert(cs@.take(j + 1).last() == cs@[j as int]);
                    }
                    let ghost mid = out@.map_values(|f: FeedInsertForm| form_view(f));
                    match &cs[j].xml_url {
                        Some(u) => {
                            let f = import_form(&cs[j].title, u, Some(&o.text));
                            out.push(f);
                            proof {
                                assert(out@.map_values(|f: FeedInsertForm| form_view(f)) =~= mid.push(
                                    form_view(f),
                                ));
                            }
                        },
                        None => {},
                    }
                    j = j + 1;
                }
                proof {
                    assert(cs@.take(cs@.len() as int) =~= cs@);
                }
            },
        }
        i = i + 1;
    }
    proof {
        assert(outlines@.take(outlines@.len() as int) =~= outlines@);
    }
    out
}

/// The name of folder `id`; the last listed folder with that id counts.
pub open spec fn folder_name_of(folders: Seq<Folder>, id: FolderId) -> Option<Seq<char>>
    decreases folders.len(),
{
    if folders.len() == 0 {
        None
    } else if folders.last().id == id {
        Some(folders.last().name@)
    } else {
        folder_name_of(folders.drop_last(), id)
    }
}

/// The folder name a feed is exported under; `None` for a feed in no
/// folder or in a folder that is not listed.
pub open spec fn feed_folder(f: Feed, folders: Seq<Folder>) -> Option<Seq<char>> {
    match f.folder_id {
        Some(id) => folder_name_of(folders, id),
        None => None,
    }
}

/// The folder names of the export, each once, in order of first use.
pub open spec fn export_names(feeds: Seq<Feed>, folders: Seq<Folder>) -> Seq<Seq<char>>
    decreases feeds.len(),
{
    if feeds.len() == 0 {
        seq![]
    } else {
        let prev = export_names(feeds.drop_last(), folders);
        match feed_folder(feeds.last(), folders) {
            Some(n) => if prev.contains(n) {
                prev
            } else {
                prev.push(n)
            },
            None => prev,
        }
    }
}

/// Title and url of a feed, as its export outline shows them.
pub open spec fn leaf(f: Feed) -> (Seq<char>, Seq<char>) {
    (f.title@, f.url@)
}

/// The feeds filed under folder name `n` (`Some`) or under no folder
/// (`None`), in order.
pub open spec fn feeds_under(feeds: Seq<Feed>, folders: Seq<Folder>, n: Option<Seq<char>>) -> Seq<(Seq<char>, Seq<char>)>
    decreases feeds.len(),
{
    if feeds.len() == 0 {
        seq![]
    } else {
        let prev = feeds_under(feeds.drop_last(), folders, n);
        if feed_folder(feeds.last(), folders) == n {
            prev.push(leaf(feeds.last()))
        } else {
            prev
        }
    }
}

/// A feed outline: its title as text and title, type `rss`, its url.
pub open spec fn leaf_ok(o: Outline, l: (Seq<char>, Seq<char>)) -> bool {
    &&& o.text@ == l.0
    &&& o.title@ == l.0
    &&& o.kind matches Some(k) && k@ == "rss"@
    &&& o.xml_url matches Some(u) && u@ == l.1
    &&& o.children.len() == 0
}

/// A folder outline named `n` holding the given feeds.
pub open spec fn folder_ok(o: Outline, n: Seq<char>, ls: Seq<(Seq<char>, Seq<char>)>) -> bool {
    &&& o.text@ == n
    &&& o.title@ == n
    &&& o.kind is None
    &&& o.xml_url is None
    &&& o.children.len() == ls.len()
    &&& forall|k: int| 0 <= k < ls.len() ==> leaf_ok(#[trigger] o.children@[k], ls[k])
}

/// The export: one folder outline per folder name in use, in order of
/// first use, holding its feeds in order; then the feeds in no folder.
pub open spec fn export_ok(r: Seq<Outline>, feeds: Seq<Feed>, folders: Seq<Folder>) -> bool {
    let names = export_names(feeds, folders);
    let alone = feeds_under(feeds, folders, None);
    &&& r.len() == names.len() + alone.len()
    &&& forall|j: int| 0 <= j < names.len() ==> folder_ok(#[trigger] r[j], names[j], feeds_under(feeds, folders, Some(names[j])))
    &&& forall|k: int| 0 <= k < alone.len() ==> leaf_ok(#[trigger] r[names.len() + k], alone[k])
}

fn lookup_folder(folders: &[Folder], id: FolderId) -> (r: Option<String>)
    ensures
        opt_view(r) == folder_name_of(folders@, id),
{
    let mut i = folders.len();
    proof {
        assert(folders@.take(i as int) =~= folders@);
    }
    while i > 0
        invariant
            i <= folders@.len(),
            folder_name_of(folders@, id) == folder_name_of(folders@.take(i as int), id),
        decreases i,
    {
        proof {
            assert(folders@.take(i as int).drop_last() =~= folders@.take(i - 1));
            assert(folders@.take(i as int).last() == folders@[i - 1]);
        }
        if folders[i - 1].id.0 == id.0 {
            return Some(folders[i - 1].name.clone());
        }
        i = i - 1;
    }
    None
}

fn feed_folder_name(f: &Feed, folders: &[Folder]) -> (r: Option<String>)
    ensures
        opt_view(r) == feed_folder(*f, folders@),
{
    match f.folder_id {
        Some(id) => lookup_folder(folders, id),
        None => None,
    }
}

fn leaf_outline(f: &Feed) -> (o: Outline)
    ensures
        leaf_ok(o, leaf(*f)),
{
    let rss = string_from_chars(chars_of("rss").as_slice());
    Outline {
        text: f.title.clone(),
        title: f.title.clone(),
        kind: Some(rss),
        xml_url: Some(f.url.clone()),
        children: Vec::new(),
    }
}

fn names_contain(names: &Vec<String>, n: &String) -> (b: bool)
    ensures
        b == names@.map_values(|s: String| s@).contains(n@),
{
    let nc = chars_of(n.as_str());
    let mut i: usize = 0;
    while i < names.len()
        invariant
            i <= names@.len(),
            nc@ == n@,
            forall|k: int| 0 <= k < i ==> names@[k]@ != n@,
        decreases names@.len() - i,
    {
        let c = chars_of(names[i].as_str());
        if chars_eq(c.as_slice(), nc.as_slice()) {
            proof {
                assert(names@.map_values(|s: String| s@)[i as int] == n@);
            }
            return true;
        }
        i = i + 1;
    }
    proof {
        let nv = names@.map_values(|s: String| s@);
        if nv.contains(n@) {
            let k = choose|k: int| 0 <= k < nv.len() && #[trigger] nv[k] == n@;
            assert(names@[k]@ == n@);
        }
    }
    false
}

fn opt_eq(a: &Option<String>, b: &Option<String>) -> (r: bool)
    ensures
        r == (opt_view(*a) == opt_view(*b)),
{
    match (a, b) {
        (Some(x), Some(y)) => chars_eq(chars_of(x.as_str()).as_slice(), chars_of(y.as_str()).as_slice()),
        (None, None) => true,
        _ => false,
    }
}

/// Leaf outlines of the feeds filed under `n`, in order.
fn outlines_under(feeds: &[Feed], names: &Vec<Option<String>>, n: &Option<String>, folders: &[Folder]) -> (r: Vec<Outline>)
    requires
        names@.len() == feeds@.len(),
        forall|k: int| 0 <= k < feeds@.len() ==> opt_view(#[trigger] names@[k]) == feed_folder(feeds@[k], folders@),
    ensures
        r@.len() == feeds_under(feeds@, folders@, opt_view(*n)).len(),
        forall|k: int| 0 <= k < r@.len() ==> leaf_ok(#[trigger] r@[k], feeds_under(feeds@, folders@, opt_view(*n))[k]),
{
    let mut out: Vec<Outline> = Vec::new();
    let mut i: usize = 0;
    while i < feeds.len()
        invariant
            i <= feeds@.len(),
            names@.len() == feeds@.len(),
            forall|k: int| 0 <= k < feeds@.len() ==> opt_view(#[trigger] names@[k]) == feed_folder(feeds@[k], folders@),
            out@.len() == feeds_under(feeds@.take(i as int), folders@, opt_view(*n)).len(),
            forall|k: int| 0 <= k < out@.len() ==> leaf_ok(#[trigger] out@[k], feeds_under(feeds@.take(i as int), folders@, opt_view(*n))[k]),
        decreases feeds@.len() - i,
    {
        proof {
            assert(feeds@.take(i + 1).drop_last() =~= feeds@.take(i as int));
            assert(feeds@.take(i + 1).last() == feeds@[i as int]);
        }
        if opt_eq(&names[i], n) {
            let o = leaf_outline(&feeds[i]);
            out.push(o);
        }
        i = i + 1;
    }
    proof {
        assert(feeds@.take(feeds@.len() as int) =~= feeds@);
    }
    out
}

/// Exports all feeds as outlines: feeds in a folder are grouped under a
/// folder outline, the others are top-level outlines after the folders.
pub fn export_outlines(feeds: &[Feed], folders: &[Folder]) -> (r: Vec<Outline>)
    ensures
        export_ok(r@, feeds@, folders@),
{
    // The folder name of each feed, and the names in order of first use.
    let mut fnames: Vec<Option<String>> = Vec::new();
    let mut names: Vec<String> = Vec::new();
    let mut i: usize = 0;
    while i < feeds.len()
        invariant
            i <= feeds@.len(),
            fnames@.len() == i,
            forall|k: int| 0 <= k < i ==> opt_view(#[trigger] fnames@[k]) == feed_folder(feeds@[k], folders@),
            names@.map_values(|s: String| s@) == export_names(feeds@.take(i as int), folders@),
        decreases feeds@.len() - i,
    {
        proof {
            assert(feeds@.take(i + 1).drop_last() =~= feeds@.take(i as int));
            assert(feeds@.take(i + 1).last() == feeds@[i as int]);
        }
        let n = feed_folder_name(&feeds[i], folders);
        match &n {
            Some(name) => {
                if !names_contain(&names, name) {
                    let ghost before = names@;
                    names.push(name.clone());
                    proof {
                        assert(names@.map_values(|s: String| s@) =~= before.map_values(|s: String| s@).push(name@));
                    }
                }
            },
            None => {},
        }
        fnames.push(n);
        i = i + 1;
    }
    proof {
        assert(feeds@.take(feeds@.len() as int) =~= feeds@);
    }
    let ghost nv = names@.map_values(|s: String| s@);
    let mut out: Vec<Outline> = Vec::new();
    let mut j: usize = 0;
    while j < names.len()
        invariant
            j <= names@.len(),
            nv == names@.map_values(|s: String| s@),
            nv == export_names(feeds@, folders@),
            fnames@.len() == feeds@.len(),
            forall|k: int| 0 <= k < feeds@.len() ==> opt_view(#[trigger] fnames@[k]) == feed_folder(feeds@[k], folders@),
            out@.len() == j,
            forall|k: int| 0 <= k < j ==> folder_ok(#[trigger] out@[k], nv[k], feeds_under(feeds@, folders@, Some(nv[k]))),
        decreases names@.len() - j,
    {
        let key = Some(names[j].clone());
        let children = outlines_under(feeds, &fnames, &key, folders);
        let o = Outline {
            text: names[j].clone(),
            title: names[j].clone(),
            kind: None,
            xml_url: None,
            children,
        };
        proof {
            assert(nv[j as int] == names@[j as int]@);
            assert(folder_ok(o, nv[j as int], feeds_under(feeds@, folders@, Some(nv[j as int]))));
        }
        out.push(o);
        j = j + 1;
    }
    let none: Option<String> = None;
    let alone = outlines_under(feeds, &fnames, &none, folders);
    let ghost g = out@;
    let mut k: usize = 0;
    while k < alone.len()
        invariant
            k <= alone@.len(),
            g.len() == nv.len(),
            nv == export_names(feeds@, folders@),
            alone@.len() == feeds_under(feeds@, folders@, None).len(),
            forall|m: int| 0 <= m < alone@.len() ==> leaf_ok(#[trigger] alone@[m], feeds_under(feeds@, folders@, None)[m]),
            forall|m: int| 0 <= m < nv.len() ==> folder_ok(#[trigger] g[m], nv[m], feeds_under(feeds@, folders@, Some(nv[m]))),
            out@.len() == g.len() + k,
            forall|m: int| 0 <= m < g.len() ==> out@[m] == g[m],
            forall|m: int| 0 <= m < k ==> leaf_ok(#[trigger] out@[g.len() + m], feeds_under(feeds@, folders@, None)[m]),
        decreases alone@.len() - k,
    {
        let o = leaf_outline_copy(&alone[k]);
        let ghost before = out@;
        out.push(o);
        proof {
            assert forall|m: int| 0 <= m < k + 1 implies leaf_ok(#[trigger] out@[g.len() + m], feeds_under(feeds@, folders@, None)[m]) by {
                if m < k {
                    assert(out@[g.len() + m] == before[g.len() + m]);
                }
            }
        }
        k = k + 1;
    }
    proof {
        assert forall|m: int| 0 <= m < nv.len() implies folder_ok(#[trigger] out@[m], nv[m], feeds_under(feeds@, folders@, Some(nv[m]))) by {
            assert(out@[m] == g[m]);
        }
    }
    out
}

/// A copy of a feed outline (feed outlines have no children).
fn leaf_outline_copy(o: &Outline) -> (r: Outline)
    requires
        o.children.len() == 0,
    ensures
        r.text@ == o.text@,
        r.title@ == o.title@,
        opt_view(r.kind) == opt_view(o.kind),
        opt_view(r.xml_url) == opt_view(o.xml_url),
        r.children.len() == 0,
{
    Outline {
        text: o.text.clone(),
        title: o.title.clone(),
        kind: o.kind.clone(),
        xml_url: o.xml_url.clone(),
        children: Vec::new(),
    }
}

/// How an import goes on after storing one planned feed: a feed whose URL
/// is stored already is skipped, any other failure ends the import.
pub fn import_outcome(stored: Result<Feed, WyrmError>) -> (r: Result<(), WyrmError>)
    ensures
        match stored {
            Ok(_) => r is Ok,
            Err(WyrmError::Database(DatabaseError::UniqueViolation(_))) => r is Ok,
            Err(e) => r == Err::<(), WyrmError>(e),
        },
{
    match stored {
        Ok(_) => Ok(()),
        Err(WyrmError::Database(DatabaseError::UniqueViolation(_))) => Ok(()),
        Err(e) => Err(e),
    }
}

/// What importing brings back of a feed: its title, url and folder name.
pub open spec fn feed_plan(f: Feed, folders: Seq<Folder>) -> ImportView {
    (f.title@, f.url@, feed_folder(f, folders))
}

spec fn planned_by(r: Seq<Outline>, x: ImportView) -> bool {
    exists|j: int, m: int| 0 <= j < r.len() && 0 <= m < outline_plan(r[j]).len() && outline_plan(r[j])[m] == x
}

proof fn lemma_import_plan_members(r: Seq<Outline>)
    ensures
        forall|j: int, m: int|
            0 <= j < r.len() && 0 <= m < outline_plan(r[j]).len() ==> import_plan_spec(r).contains(
                #[trigger] outline_plan(r[j])[m],
            ),
        forall|k: int| 0 <= k < import_plan_spec(r).len() ==> planned_by(r, #[trigger] import_plan_spec(r)[k]),
    decreases r.len(),
{
    if r.len() > 0 {
        let init = r.drop_last();
        lemma_import_plan_members(init);
        let a = import_plan_spec(init);
        let b = outline_plan(r.last());
        assert(import_plan_spec(r) == a + b);
        assert forall|j: int, m: int|
            0 <= j < r.len() && 0 <= m < outline_plan(r[j]).len() implies import_plan_spec(r).contains(
                #[trigger] outline_plan(r[j])[m],
            ) by {
            if j < r.len() - 1 {
                assert(r[j] == init[j]);
                let x = outline_plan(init[j])[m];
                assert(a.contains(x));
                let w = choose|w: int| 0 <= w < a.len() && a[w] == x;
                assert((a + b)[w] == x);
            } else {
                assert((a + b)[a.len() + m] == b[m]);
            }
        }
        assert forall|k: int| 0 <= k < import_plan_spec(r).len() implies planned_by(r, #[trigger] import_plan_spec(r)[k]) by {
            if k < a.len() {
                assert(import_plan_spec(r)[k] == a[k]);
                assert(planned_by(init, a[k]));
                let (j, m) = choose|j: int, m: int|
                    0 <= j < init.len() && 0 <= m < outline_plan(init[j]).len() && outline_plan(init[j])[m] == a[k];
                assert(r[j] == init[j]);
                assert(outline_plan(r[j])[m] == import_plan_spec(r)[k]);
            } else {
                assert(import_plan_spec(r)[k] == b[k - a.len()]);
                assert(r[r.len() - 1] == r.last());
                assert(outline_plan(r[r.len() - 1])[k - a.len()] == import_plan_spec(r)[k]);
            }
        }
    }
}

/// `x` is the feed of a child outline of `cs` that has an `xml_url`, filed
/// under `folder`.
pub open spec fn child_feed(cs: Seq<Outline>, folder: Seq<char>, x: ImportView) -> bool {
    exists|c: int|
        0 <= c < cs.len() && (#[trigger] cs[c]).xml_url is Some && x == (
            cs[c].title@,
            (cs[c].xml_url->0)@,
            Some(folder),
        )
}

/// `x` is the feed of an outline of the document: a top-level outline with
/// an `xml_url`, standalone, or a child with an `xml_url` of a top-level
/// outline without one, filed under that outline's text.
pub open spec fn outline_feed(os: Seq<Outline>, x: ImportView) -> bool {
    exists|j: int|
        0 <= j < os.len() && (match (#[trigger] os[j]).xml_url {
            Some(u) => x == (os[j].title@, u@, None::<Seq<char>>),
            None => child_feed(os[j].children@, os[j].text@, x),
        })
}

proof fn lemma_children_plan_members(cs: Seq<Outline>, folder: Seq<char>)
    ensures
        forall|c: int|
            0 <= c < cs.len() && (#[trigger] cs[c]).xml_url is Some ==> children_plan(cs, folder).contains(
                (cs[c].title@, (cs[c].xml_url->0)@, Some(folder)),
            ),
        forall|k: int|
            0 <= k < children_plan(cs, folder).len() ==> child_feed(cs, folder, #[trigger] children_plan(cs, folder)[k]),
    decreases cs.len(),
{
    if cs.len() > 0 {
        let init = cs.drop_last();
        lemma_children_plan_members(init, folder);
        let prev = children_plan(init, folder);
        let cur = children_plan(cs, folder);
        let n = cs.len() - 1;
        assert(cs[n] == cs.last());
        assert forall|c: int|
            0 <= c < cs.len() && (#[trigger] cs[c]).xml_url is Some implies cur.contains(
                (cs[c].title@, (cs[c].xml_url->0)@, Some(folder)),
            ) by {
            if c < n {
                assert(init[c] == cs[c]);
                let x = (cs[c].title@, (cs[c].xml_url->0)@, Some(folder));
                assert(prev.contains(x));
                let w = choose|w: int| 0 <= w < prev.len() && prev[w] == x;
                if cs.last().xml_url is Some {
                    assert(cur[w] == prev[w]);
                }
            } else {
                assert(cur[cur.len() - 1] == (cs[c].title@, (cs[c].xml_url->0)@, Some(folder)));
            }
        }
        assert forall|k: int| 0 <= k < cur.len() implies child_feed(cs, folder, #[trigger] cur[k]) by {
            if k < prev.len() {
                if cs.last().xml_url is Some {
                    assert(cur[k] == prev[k]);
                }
                assert(child_feed(init, folder, prev[k]));
                let c = choose|c: int|
                    0 <= c < init.len() && (#[trigger] init[c]).xml_url is Some && prev[k] == (
                        init[c].title@,
                        (init[c].xml_url->0)@,
                        Some(folder),
                    );
                assert(cs[c] == init[c]);
            } else {
                assert(cs[n].xml_url is Some);
            }
        }
    }
}

/// Importing creates a feed for every outline with an `xml_url`, whatever
/// its `type`: top-level ones standalone, the children of a folder outline
/// under the folder's text; and it creates nothing else.
pub proof fn lemma_import_creates_every_feed_outline(os: Seq<Outline>)
    ensures
        forall|j: int|
            0 <= j < os.len() && (#[trigger] os[j]).xml_url is Some ==> import_plan_spec(os).contains(
                (os[j].title@, (os[j].xml_url->0)@, None::<Seq<char>>),
            ),
        forall|j: int, c: int|
            0 <= j < os.len() && os[j].xml_url is None && 0 <= c < os[j].children@.len() && (
            #[trigger] os[j].children@[c]).xml_url is Some ==> import_plan_spec(os).contains(
                (os[j].children@[c].title@, (os[j].children@[c].xml_url->0)@, Some(os[j].text@)),
            ),
        forall|k: int| 0 <= k < import_plan_spec(os).len() ==> outline_feed(os, #[trigger] import_plan_spec(os)[k]),
{
    lemma_import_plan_members(os);
    assert forall|j: int|
        0 <= j < os.len() && (#[trigger] os[j]).xml_url is Some implies import_plan_spec(os).contains(
            (os[j].title@, (os[j].xml_url->0)@, None::<Seq<char>>),
        ) by {
        assert(outline_plan(os[j])[0] == (os[j].title@, (os[j].xml_url->0)@, None::<Seq<char>>));
    }
    assert forall|j: int, c: int|
        0 <= j < os.len() && os[j].xml_url is None && 0 <= c < os[j].children@.len() && (
        #[trigger] os[j].children@[c]).xml_url is Some implies import_plan_spec(os).contains(
            (os[j].children@[c].title@, (os[j].children@[c].xml_url->0)@, Some(os[j].text@)),
        ) by {
        let cs = os[j].children@;
        lemma_children_plan_members(cs, os[j].text@);
        assert(cs[c].xml_url is Some);
        let x = (cs[c].title@, (cs[c].xml_url->0)@, Some(os[j].text@));
        assert(children_plan(cs, os[j].text@).contains(x));
        let m = choose|m: int| 0 <= m < children_plan(cs, os[j].text@).len() && children_plan(cs, os[j].text@)[m] == x;
        assert(outline_plan(os[j])[m] == x);
    }
    assert forall|k: int| 0 <= k < import_plan_spec(os).len() implies outline_feed(
        os,
        #[trigger] import_plan_spec(os)[k],
    ) by {
        let x = import_plan_spec(os)[k];
        assert(planned_by(os, x));
        let (j, m) = choose|j: int, m: int|
            0 <= j < os.len() && 0 <= m < outline_plan(os[j]).len() && outline_plan(os[j])[m] == x;
        match os[j].xml_url {
            Some(u) => {
                assert(x == (os[j].title@, u@, None::<Seq<char>>));
            },
            None => {
                lemma_children_plan_members(os[j].children@, os[j].text@);
                assert(child_feed(os[j].children@, os[j].text@, children_plan(os[j].children@, os[j].text@)[m]));
            },
        }
    }
}

/// Import views of feed outlines filed under folder `n`.
spec fn plan_map(ls: Seq<(Seq<char>, Seq<char>)>, n: Option<Seq<char>>) -> Seq<ImportView> {
    ls.map_values(|l: (Seq<char>, Seq<char>)| (l.0, l.1, n))
}

proof fn lemma_children_plan(cs: Seq<Outline>, n: Seq<char>, ls: Seq<(Seq<char>, Seq<char>)>)
    requires
        cs.len() == ls.len(),
        forall|k: int| 0 <= k < ls.len() ==> leaf_ok(#[trigger] cs[k], ls[k]),
    ensures
        children_plan(cs, n) == plan_map(ls, Some(n)),
    decreases cs.len(),
{
    if cs.len() > 0 {
        let ci = cs.drop_last();
        let li = ls.drop_last();
        assert forall|k: int| 0 <= k < li.len() implies leaf_ok(#[trigger] ci[k], li[k]) by {
            assert(ci[k] == cs[k]);
            assert(li[k] == ls[k]);
        }
        lemma_children_plan(ci, n, li);
        assert(leaf_ok(cs[cs.len() - 1], ls[ls.len() - 1]));
        assert(plan_map(ls, Some(n)) =~= plan_map(li, Some(n)).push((ls.last().0, ls.last().1, Some(n))));
    } else {
        assert(plan_map(ls, Some(n)) =~= Seq::<ImportView>::empty());
    }
}

spec fn leaf_of_feed_in(feeds: Seq<Feed>, folders: Seq<Folder>, n: Option<Seq<char>>, l: (Seq<char>, Seq<char>)) -> bool {
    exists|i: int| 0 <= i < feeds.len() && feed_folder(feeds[i], folders) == n && leaf(feeds[i]) == l
}

proof fn lemma_feeds_under_members(feeds: Seq<Feed>, folders: Seq<Folder>, n: Option<Seq<char>>)
    ensures
        forall|i: int|
            0 <= i < feeds.len() && feed_folder(#[trigger] feeds[i], folders) == n ==> feeds_under(
                feeds,
                folders,
                n,
            ).contains(leaf(feeds[i])),
        forall|k: int|
            0 <= k < feeds_under(feeds, folders, n).len() ==> leaf_of_feed_in(
                feeds,
                folders,
                n,
                #[trigger] feeds_under(feeds, folders, n)[k],
            ),
    decreases feeds.len(),
{
    if feeds.len() > 0 {
        let init = feeds.drop_last();
        lemma_feeds_under_members(init, folders, n);
        let prev = feeds_under(init, folders, n);
        let cur = feeds_under(feeds, folders, n);
        assert forall|i: int|
            0 <= i < feeds.len() && feed_folder(#[trigger] feeds[i], folders) == n implies cur.contains(
                leaf(feeds[i]),
            ) by {
            if i < feeds.len() - 1 {
                assert(feeds[i] == init[i]);
                let w = choose|w: int| 0 <= w < prev.len() && prev[w] == leaf(init[i]);
                assert(cur[w] == prev[w]);
            } else {
                assert(cur[cur.len() - 1] == leaf(feeds.last()));
            }
        }
        assert forall|k: int| 0 <= k < cur.len() implies leaf_of_feed_in(feeds, folders, n, #[trigger] cur[k]) by {
            if k < prev.len() {
                assert(cur[k] == prev[k]);
                assert(leaf_of_feed_in(init, folders, n, prev[k]));
                let i = choose|i: int| 0 <= i < init.len() && feed_folder(init[i], folders) == n && leaf(init[i]) == prev[k];
                assert(feeds[i] == init[i]);
            } else {
                assert(feeds[feeds.len() - 1] == feeds.last());
            }
        }
    }
}

proof fn lemma_export_names_members(feeds: Seq<Feed>, folders: Seq<Folder>)
    ensures
        forall|i: int|
            0 <= i < feeds.len() && feed_folder(#[trigger] feeds[i], folders) is Some ==> export_names(
                feeds,
                folders,
            ).contains(feed_folder(feeds[i], folders)->0),
    decreases feeds.len(),
{
    if feeds.len() > 0 {
        let init = feeds.drop_last();
        lemma_export_names_members(init, folders);
        let prev = export_names(init, folders);
        let cur = export_names(feeds, folders);
        assert forall|i: int|
            0 <= i < feeds.len() && feed_folder(#[trigger] feeds[i], folders) is Some implies cur.contains(
                feed_folder(feeds[i], folders)->0,
            ) by {
            if i < feeds.len() - 1 {
                assert(feeds[i] == init[i]);
                let x = feed_folder(init[i], folders)->0;
                let w = choose|w: int| 0 <= w < prev.len() && prev[w] == x;
                if !prev.contains(feed_folder(feeds.last(), folders)->0) && feed_folder(feeds.last(), folders) is Some {
                    assert(cur[w] == prev[w]);
                }
            } else {
                let x = feed_folder(feeds.last(), folders)->0;
                if !prev.contains(x) {
                    assert(cur[cur.len() - 1] == x);
                }
            }
        }
    }
}

/// `x` is what importing brings back of one of `feeds`.
pub open spec fn plans_some_feed(feeds: Seq<Feed>, folders: Seq<Folder>, x: ImportView) -> bool {
    exists|i: int| 0 <= i < feeds.len() && feed_plan(feeds[i], folders) == x
}

/// Importing an export brings every feed back with its title, url and
/// folder, and creates nothing else.
pub proof fn lemma_export_import_round_trip(r: Seq<Outline>, feeds: Seq<Feed>, folders: Seq<Folder>)
    requires
        export_ok(r, feeds, folders),
    ensures
        forall|i: int| 0 <= i < feeds.len() ==> import_plan_spec(r).contains(feed_plan(#[trigger] feeds[i], folders)),
        forall|k: int|
            0 <= k < import_plan_spec(r).len() ==> plans_some_feed(feeds, folders, #[trigger] import_plan_spec(r)[k]),
{
    let names = export_names(feeds, folders);
    let alone = feeds_under(feeds, folders, None);
    lemma_import_plan_members(r);
    lemma_export_names_members(feeds, folders);
    lemma_feeds_under_members(feeds, folders, None);
    assert forall|j: int| 0 <= j < names.len() implies #[trigger] outline_plan(r[j]) == plan_map(
        feeds_under(feeds, folders, Some(names[j])),
        Some(names[j]),
    ) by {
        let ls = feeds_under(feeds, folders, Some(names[j]));
        assert(folder_ok(r[j], names[j], ls));
        lemma_children_plan(r[j].children@, names[j], ls);
    }
    assert forall|i: int| 0 <= i < feeds.len() implies import_plan_spec(r).contains(
        feed_plan(#[trigger] feeds[i], folders),
    ) by {
        let f = feeds[i];
        match feed_folder(f, folders) {
            Some(n) => {
                lemma_feeds_under_members(feeds, folders, Some(n));
                let ls = feeds_under(feeds, folders, Some(n));
                assert(ls.contains(leaf(feeds[i])));
                let m = choose|m: int| 0 <= m < ls.len() && ls[m] == leaf(feeds[i]);
                assert(names.contains(n));
                let j = choose|j: int| 0 <= j < names.len() && names[j] == n;
                assert(outline_plan(r[j]) == plan_map(ls, Some(n)));
                assert(outline_plan(r[j])[m] == feed_plan(f, folders));
            },
            None => {
                assert(alone.contains(leaf(feeds[i])));
                let m = choose|m: int| 0 <= m < alone.len() && alone[m] == leaf(feeds[i]);
                let j = names.len() + m;
                assert(leaf_ok(r[j], alone[m]));
                assert(outline_plan(r[j]) =~= seq![feed_plan(f, folders)]);
                assert(outline_plan(r[j])[0] == feed_plan(f, folders));
            },
        }
    }
    assert forall|k: int| 0 <= k < import_plan_spec(r).len() implies plans_some_feed(
        feeds,
        folders,
        #[trigger] import_plan_spec(r)[k],
    ) by {
        assert(planned_by(r, import_plan_spec(r)[k]));
        let (j, m) = choose|j: int, m: int|
            0 <= j < r.len() && 0 <= m < outline_plan(r[j]).len() && outline_plan(r[j])[m] == import_plan_spec(r)[k];
        if j < names.len() {
            let n = names[j];
            lemma_feeds_under_members(feeds, folders, Some(n));
            let ls = feeds_under(feeds, folders, Some(n));
            assert(outline_plan(r[j]) == plan_map(ls, Some(n)));
            assert(leaf_of_feed_in(feeds, folders, Some(n), ls[m]));
            let i = choose|i: int| 0 <= i < feeds.len() && feed_folder(feeds[i], folders) == Some(n) && leaf(feeds[i]) == ls[m];
            assert(import_plan_spec(r)[k] == feed_plan(feeds[i], folders));
        } else {
            let a = j - names.len();
            assert(leaf_ok(r[names.len() + a], alone[a]));
            assert(leaf_of_feed_in(feeds, folders, None, alone[a]));
            let i = choose|i: int| 0 <= i < feeds.len() && feed_folder(feeds[i], folders) == None::<Seq<char>> && leaf(feeds[i]) == alone[a];
            assert(outline_plan(r[j]) =~= seq![(alone[a].0, alone[a].1, None::<Seq<char>>)]);
            assert(import_plan_spec(r)[k] == feed_plan(feeds[i], folders));
        }
    }
}

/// The import views of the folder groups named in `names`, in that order.
spec fn grouped_plan(feeds: Seq<Feed>, folders: Seq<Folder>, names: Seq<Seq<char>>) -> Seq<ImportView>
    decreases names.len(),
{
    if names.len() == 0 {
        seq![]
    } else {
        grouped_plan(feeds, folders, names.drop_last()) + plan_map(
            feeds_under(feeds, folders, Some(names.last())),
            Some(names.last()),
        )
    }
}

proof fn lemma_import_prefix_groups(r: Seq<Outline>, feeds: Seq<Feed>, folders: Seq<Folder>, j: int)
    requires
        export_ok(r, feeds, folders),
        0 <= j <= export_names(feeds, folders).len(),
    ensures
        import_plan_spec(r.take(j)) == grouped_plan(feeds, folders, export_names(feeds, folders).take(j)),
    decreases j,
{
    let names = export_names(feeds, folders);
    if j == 0 {
        assert(r.take(0) =~= Seq::<Outline>::empty());
        assert(names.take(0) =~= Seq::<Seq<char>>::empty());
    } else {
        lemma_import_prefix_groups(r, feeds, folders, j - 1);
        assert(r.take(j).drop_last() =~= r.take(j - 1));
        assert(names.take(j).drop_last() =~= names.take(j - 1));
        let n = names[j - 1];
        let ls = feeds_under(feeds, folders, Some(n));
        assert(folder_ok(r[j - 1], n, ls));
        lemma_children_plan(r[j - 1].children@, n, ls);
        assert(r.take(j).last() == r[j - 1]);
        assert(names.take(j).last() == n);
    }
}

proof fn lemma_import_of_export(r: Seq<Outline>, feeds: Seq<Feed>, folders: Seq<Folder>, k: int)
    requires
        export_ok(r, feeds, folders),
        0 <= k <= feeds_under(feeds, folders, None).len(),
    ensures
        import_plan_spec(r.take(export_names(feeds, folders).len() + k)) == grouped_plan(
            feeds,
            folders,
            export_names(feeds, folders),
        ) + plan_map(feeds_under(feeds, folders, None).take(k), None),
    decreases k,
{
    let names = export_names(feeds, folders);
    let alone = feeds_under(feeds, folders, None);
    let m = names.len() as int;
    if k == 0 {
        lemma_import_prefix_groups(r, feeds, folders, m);
        assert(names.take(m) =~= names);
        assert(plan_map(alone.take(0), None) =~= Seq::<ImportView>::empty());
        assert(grouped_plan(feeds, folders, names) + Seq::<ImportView>::empty() =~= grouped_plan(feeds, folders, names));
    } else {
        lemma_import_of_export(r, feeds, folders, k - 1);
        assert(r.take(m + k).drop_last() =~= r.take(m + k - 1));
        assert(r.take(m + k).last() == r[m + k - 1]);
        assert(leaf_ok(r[m + (k - 1)], alone[k - 1]));
        assert(outline_plan(r[m + k - 1]) =~= seq![(alone[k - 1].0, alone[k - 1].1, None::<Seq<char>>)]);
        assert(plan_map(alone.take(k), None) =~= plan_map(alone.take(k - 1), None).push(
            (alone[k - 1].0, alone[k - 1].1, None::<Seq<char>>),
        ));
        assert(grouped_plan(feeds, folders, names) + plan_map(alone.take(k), None) =~= grouped_plan(
            feeds,
            folders,
            names,
        ) + plan_map(alone.take(k - 1), None) + seq![(alone[k - 1].0, alone[k - 1].1, None::<Seq<char>>)]);
    }
}

/// What adding feed `f` adds to the groups named in `names`.
spec fn group_extra(f: Feed, folders: Seq<Folder>, names: Seq<Seq<char>>) -> Multiset<ImportView> {
    match feed_folder(f, folders) {
        Some(n) => if names.contains(n) {
            Multiset::singleton(feed_plan(f, folders))
        } else {
            Multiset::empty()
        },
        None => Multiset::empty(),
    }
}

spec fn distinct(names: Seq<Seq<char>>) -> bool {
    forall|i: int, j: int| 0 <= i < j < names.len() ==> names[i] != names[j]
}

proof fn lemma_groups_grow(feeds: Seq<Feed>, folders: Seq<Folder>, names: Seq<Seq<char>>)
    requires
        feeds.len() > 0,
        distinct(names),
    ensures
        grouped_plan(feeds, folders, names).to_multiset() =~= grouped_plan(
            feeds.drop_last(),
            folders,
            names,
        ).to_multiset().add(group_extra(feeds.last(), folders, names)),
    decreases names.len(),
{
    broadcast use vstd::seq_lib::group_to_multiset_ensures, vstd::seq_lib::lemma_multiset_commutative, vstd::multiset::group_multiset_axioms;

    let init = feeds.drop_last();
    let f = feeds.last();
    if names.len() == 0 {
        assert(grouped_plan(feeds, folders, names).to_multiset() =~= Multiset::<ImportView>::empty());
        assert(grouped_plan(init, folders, names).to_multiset() =~= Multiset::<ImportView>::empty());
    } else {
        let ni = names.drop_last();
        let n = names.last();
        assert(distinct(ni)) by {
            assert forall|i: int, j: int| 0 <= i < j < ni.len() implies ni[i] != ni[j] by {
                assert(ni[i] == names[i] && ni[j] == names[j]);
            }
        }
        lemma_groups_grow(feeds, folders, ni);
        let before = plan_map(feeds_under(init, folders, Some(n)), Some(n));
        let after = plan_map(feeds_under(feeds, folders, Some(n)), Some(n));
        if feed_folder(f, folders) == Some(n) {
            assert(after =~= before.push(feed_plan(f, folders)));
            assert(!ni.contains(n)) by {
                if ni.contains(n) {
                    let i = choose|i: int| 0 <= i < ni.len() && ni[i] == n;
                    assert(names[i] == names[names.len() - 1]);
                }
            }
            assert(names.contains(n)) by {
                assert(names[names.len() - 1] == n);
            }
        } else {
            assert(after =~= before);
            if let Some(m) = feed_folder(f, folders) {
                assert(names.contains(m) == ni.contains(m)) by {
                    if names.contains(m) {
                        let i = choose|i: int| 0 <= i < names.len() && names[i] == m;
                        assert(i < ni.len());
                        assert(ni[i] == m);
                    }
                    if ni.contains(m) {
                        let i = choose|i: int| 0 <= i < ni.len() && ni[i] == m;
                        assert(names[i] == m);
                    }
                }
            }
        }
    }
}

proof fn lemma_export_names_distinct(feeds: Seq<Feed>, folders: Seq<Folder>)
    ensures
        distinct(export_names(feeds, folders)),
    decreases feeds.len(),
{
    if feeds.len() > 0 {
        lemma_export_names_distinct(feeds.drop_last(), folders);
    }
}

proof fn lemma_unnamed_folder_is_empty(feeds: Seq<Feed>, folders: Seq<Folder>, n: Seq<char>)
    requires
        !export_names(feeds, folders).contains(n),
    ensures
        feeds_under(feeds, folders, Some(n)).len() == 0,
{
    let ls = feeds_under(feeds, folders, Some(n));
    if ls.len() > 0 {
        lemma_feeds_under_members(feeds, folders, Some(n));
        assert(leaf_of_feed_in(feeds, folders, Some(n), ls[0]));
        let i = choose|i: int| 0 <= i < feeds.len() && feed_folder(feeds[i], folders) == Some(n) && leaf(feeds[i]) == ls[0];
        lemma_export_names_members(feeds, folders);
        assert(feed_folder(feeds[i], folders) is Some);
    }
}

proof fn lemma_groups_cover_feeds(feeds: Seq<Feed>, folders: Seq<Folder>)
    ensures
        (grouped_plan(feeds, folders, export_names(feeds, folders)) + plan_map(
            feeds_under(feeds, folders, None),
            None,
        )).to_multiset() =~= feeds.map_values(|f: Feed| feed_plan(f, folders)).to_multiset(),
    decreases feeds.len(),
{
    broadcast use vstd::seq_lib::group_to_multiset_ensures, vstd::seq_lib::lemma_multiset_commutative, vstd::multiset::group_multiset_axioms;

    let all = feeds.map_values(|f: Feed| feed_plan(f, folders));
    if feeds.len() == 0 {
        assert(all =~= Seq::<ImportView>::empty());
        assert(plan_map(feeds_under(feeds, folders, None), None) =~= Seq::<ImportView>::empty());
        assert(grouped_plan(feeds, folders, export_names(feeds, folders)) =~= Seq::<ImportView>::empty());
    } else {
        let init = feeds.drop_last();
        let f = feeds.last();
        lemma_groups_cover_feeds(init, folders);
        assert(all =~= init.map_values(|g: Feed| feed_plan(g, folders)).push(feed_plan(f, folders)));
        let names = export_names(init, folders);
        lemma_export_names_distinct(init, folders);
        lemma_groups_grow(feeds, folders, names);
        let alone_before = plan_map(feeds_under(init, folders, None), None);
        let alone_after = plan_map(feeds_under(feeds, folders, None), None);
        match feed_folder(f, folders) {
            None => {
                assert(export_names(feeds, folders) == names);
                assert(alone_after =~= alone_before.push(feed_plan(f, folders)));
            },
            Some(n) => {
                assert(alone_after =~= alone_before);
                if !names.contains(n) {
                    let names2 = export_names(feeds, folders);
                    assert(names2 == names.push(n));
                    assert(names2.drop_last() =~= names);
                    lemma_unnamed_folder_is_empty(init, folders, n);
                    assert(plan_map(feeds_under(feeds, folders, Some(n)), Some(n)) =~= seq![feed_plan(f, folders)]);
                    assert(grouped_plan(feeds, folders, names2) == grouped_plan(feeds, folders, names) + seq![
                        feed_plan(f, folders),
                    ]);
                } else {
                    assert(export_names(feeds, folders) == names);
                }
            },
        }
    }
}

/// Importing an export creates each exported feed exactly once: the
/// import views of the export and of the feeds are the same multiset.
pub proof fn lemma_export_import_exact(r: Seq<Outline>, feeds: Seq<Feed>, folders: Seq<Folder>)
    requires
        export_ok(r, feeds, folders),
    ensures
        import_plan_spec(r).to_multiset() == feeds.map_values(|f: Feed| feed_plan(f, folders)).to_multiset(),
        import_plan_spec(r).len() == feeds.len(),
{
    broadcast use vstd::seq_lib::group_to_multiset_ensures;

    let alone = feeds_under(feeds, folders, None);
    lemma_import_of_export(r, feeds, folders, alone.len() as int);
    assert(alone.take(alone.len() as int) =~= alone);
    assert(r.take(r.len() as int) =~= r);
    lemma_groups_cover_feeds(feeds, folders);
    assert(import_plan_spec(r).len() == import_plan_spec(r).to_multiset().len());
    assert(feeds.map_values(|f: Feed| feed_plan(f, folders)).len() == feeds.len());
}

} // verus!
