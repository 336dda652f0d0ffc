//! Exclusion filters: a feed's stored patterns that drop matching entries
//! during a poll.

use crate::feed::Entry;
use crate::text::{
    chars_eq, chars_of, contains, find_char, lowercase, seq_contains, slice_chars,
    split_once_spec, to_lowercase, lemma_split_at_first, lemma_split_joined, is_first,
};
use vstd::prelude::*;
use vstd::string::StrSliceExecFns;

verus! {

/// Which text of an entry a filter looks at.
#[derive(Clone, Copy, Debug, PartialEq, Eq, Structural)]
pub enum FilterScope {
    /// The link, title, summary and body.
    All,
    /// The entry's first link.
    Url,
    /// The title.
    Title,
    /// The summary and the body.
    Content,
}

pub open spec fn url_prefix() -> Seq<char> {
    seq!['u', 'r', 'l']
}

pub open spec fn title_prefix() -> Seq<char> {
    seq!['t', 'i', 't', 'l', 'e']
}

pub open spec fn content_prefix() -> Seq<char> {
    seq!['c', 'o', 'n', 't', 'e', 'n', 't']
}

/// The scope and pattern of a stored filter: a `url:`, `title:` or
/// `content:` prefix before the first colon limits the match to that text
/// and is removed; anything else, colon included, is a pattern for every
/// text.
pub open spec fn parse_filter_spec(raw: Seq<char>) -> (FilterScope, Seq<char>) {
    match split_once_spec(raw, ':') {
        Some((p, rest)) => if p == url_prefix() {
            (FilterScope::Url, rest)
        } else if p == title_prefix() {
            (FilterScope::Title, rest)
        } else if p == content_prefix() {
            (FilterScope::Content, rest)
        } else {
            (FilterScope::All, raw)
        },
        None => (FilterScope::All, raw),
    }
}

/// Splits a stored filter into its scope and pattern: an optional `url:` /
/// `title:` / `content:` prefix limits the match to that field, no prefix
/// matches every field. Only known prefixes count as scopes — a bare
/// "https://example.com" keeps its colon and stays a plain pattern.
pub fn parse_filter(raw: &str) -> (r: (FilterScope, &str))
    ensures
        (r.0, r.1@) == parse_filter_spec(raw@),
{
    let s = chars_of(raw);
    match find_char(s.as_slice(), ':') {
        Some(i) => {
            proof {
                lemma_split_at_first(s@, ':', i as int);
                assert(is_first(s@, ':', i as int));
            }
            let p = slice_chars(s.as_slice(), 0, i);
            proof {
                assert(p@ =~= s@.take(i as int));
            }
            let scope = if chars_eq(p.as_slice(), &['u', 'r', 'l']) {
                FilterScope::Url
            } else if chars_eq(p.as_slice(), &['t', 'i', 't', 'l', 'e']) {
                FilterScope::Title
            } else if chars_eq(p.as_slice(), &['c', 'o', 'n', 't', 'e', 'n', 't']) {
                FilterScope::Content
            } else {
                return (FilterScope::All, raw);
            };
            let rest = raw.substring_char(i + 1, s.len());
            proof {
                assert(rest@ =~= s@.skip(i + 1));
            }
            (scope, rest)
        },
        None => {
            proof {
                assert(!exists|i: int| is_first(s@, ':', i));
            }
            (FilterScope::All, raw)
        },
    }
}

/// A parsed filter with its pattern lowercased.
pub open spec fn compile_one(raw: Seq<char>) -> (FilterScope, Seq<char>) {
    let (scope, pattern) = parse_filter_spec(raw);
    (scope, lowercase(pattern))
}

/// The compiled form of stored filters: absent entries are skipped, the
/// others parsed and lowercased, in order.
pub open spec fn compile_spec(fs: Seq<Option<String>>) -> Seq<(FilterScope, Seq<char>)>
    decreases fs.len(),
{
    if fs.len() == 0 {
        seq![]
    } else {
        let prev = compile_spec(fs.drop_last());
        match fs.last() {
            Some(raw) => prev.push(compile_one(raw@)),
            None => prev,
        }
    }
}

/// Whether one compiled filter matches the given (already lowercased)
/// texts of an entry.
pub open spec fn filter_hits(
    f: (FilterScope, Seq<char>),
    url: Seq<char>,
    title: Seq<char>,
    summary: Seq<char>,
    body: Seq<char>,
) -> bool {
    match f.0 {
        FilterScope::Url => seq_contains(url, f.1),
        FilterScope::Title => seq_contains(title, f.1),
        FilterScope::Content => seq_contains(summary, f.1) || seq_contains(body, f.1),
        FilterScope::All => seq_contains(url, f.1) || seq_contains(title, f.1) || seq_contains(
            summary,
            f.1,
        ) || seq_contains(body, f.1),
    }
}

/// Whether any filter of `fs` matches.
pub open spec fn any_hit(
    fs: Seq<(FilterScope, Seq<char>)>,
    url: Seq<char>,
    title: Seq<char>,
    summary: Seq<char>,
    body: Seq<char>,
) -> bool {
    exists|i: int| 0 <= i < fs.len() && filter_hits(#[trigger] fs[i], url, title, summary, body)
}

proof fn lemma_single_filter(raw: String, url: Seq<char>, title: Seq<char>, summary: Seq<char>, body: Seq<char>)
    ensures
        any_hit(compile_spec(seq![Some(raw)]), url, title, summary, body) == filter_hits(
            compile_one(raw@),
            url,
            title,
            summary,
            body,
        ),
{
    let fs: Seq<Option<String>> = seq![Some(raw)];
    assert(fs.drop_last() =~= Seq::<Option<String>>::empty());
    assert(fs.last() == Some(raw));
    let c = compile_spec(fs);
    assert(compile_spec(fs.drop_last()) == Seq::<(FilterScope, Seq<char>)>::empty());
    assert(c == compile_spec(fs.drop_last()).push(compile_one(raw@)));
    assert(c =~= seq![compile_one(raw@)]);
    assert(c[0] == compile_one(raw@));
}

proof fn lemma_prefix_scope(p: Seq<char>, rest: Seq<char>, raw: Seq<char>)
    requires
        forall|k: int| 0 <= k < p.len() ==> p[k] != ':',
        raw == p + seq![':'] + rest,
    ensures
        parse_filter_spec(raw) == (if p == url_prefix() {
            (FilterScope::Url, rest)
        } else if p == title_prefix() {
            (FilterScope::Title, rest)
        } else if p == content_prefix() {
            (FilterScope::Content, rest)
        } else {
            (FilterScope::All, raw)
        }),
{
    lemma_split_joined(p, ':', rest);
}

/// A filter with no colon is a bare pattern: it excludes an entry exactly
/// when its lowercased text occurs in the entry's (lowercased) link, title,
/// summary or body.
pub proof fn lemma_bare_filter_matches_every_field(
    raw: String,
    url: Seq<char>,
    title: Seq<char>,
    summary: Seq<char>,
    body: Seq<char>,
)
    requires
        forall|k: int| 0 <= k < raw@.len() ==> raw@[k] != ':',
    ensures
        any_hit(compile_spec(seq![Some(raw)]), url, title, summary, body) == (seq_contains(url, lowercase(raw@))
            || seq_contains(title, lowercase(raw@)) || seq_contains(summary, lowercase(raw@)) || seq_contains(
            body,
            lowercase(raw@),
        )),
{
    lemma_single_filter(raw, url, title, summary, body);
    assert(!exists|i: int| is_first(raw@, ':', i));
}

/// A filter whose text before its first colon is not `url`, `title` or
/// `content` is a bare pattern too, colon included: it is looked for in
/// every field.
pub proof fn lemma_unknown_prefix_matches_every_field(
    raw: String,
    p: Seq<char>,
    rest: Seq<char>,
    url: Seq<char>,
    title: Seq<char>,
    summary: Seq<char>,
    body: Seq<char>,
)
    requires
        forall|k: int| 0 <= k < p.len() ==> p[k] != ':',
        raw@ == p + seq![':'] + rest,
        p != "url"@,
        p != "title"@,
        p != "content"@,
    ensures
        any_hit(compile_spec(seq![Some(raw)]), url, title, summary, body) == (seq_contains(url, lowercase(raw@))
            || seq_contains(title, lowercase(raw@)) || seq_contains(summary, lowercase(raw@)) || seq_contains(
            body,
            lowercase(raw@),
        )),
{
    reveal_strlit("url");
    reveal_strlit("title");
    reveal_strlit("content");
    assert(url_prefix() =~= "url"@);
    assert(title_prefix() =~= "title"@);
    assert(content_prefix() =~= "content"@);
    lemma_prefix_scope(p, rest, raw@);
    lemma_single_filter(raw, url, title, summary, body);
}

/// `url:` limits a filter to the entry's link: it excludes an entry
/// exactly when the lowercased rest occurs in the lowercased link.
pub proof fn lemma_url_filter_matches_link_only(
    raw: String,
    rest: Seq<char>,
    url: Seq<char>,
    title: Seq<char>,
    summary: Seq<char>,
    body: Seq<char>,
)
    requires
        raw@ == "url:"@ + rest,
    ensures
        any_hit(compile_spec(seq![Some(raw)]), url, title, summary, body) == seq_contains(url, lowercase(rest)),
{
    reveal_strlit("url:");
    assert("url:"@ + rest =~= url_prefix() + seq![':'] + rest);
    lemma_prefix_scope(url_prefix(), rest, raw@);
    lemma_single_filter(raw, url, title, summary, body);
}

/// `title:` limits a filter to the entry's title.
pub proof fn lemma_title_filter_matches_title_only(
    raw: String,
    rest: Seq<char>,
    url: Seq<char>,
    title: Seq<char>,
    summary: Seq<char>,
    body: Seq<char>,
)
    requires
        raw@ == "title:"@ + rest,
    ensures
        any_hit(compile_spec(seq![Some(raw)]), url, title, summary, body) == seq_contains(title, lowercase(rest)),
{
    reveal_strlit("title:");
    assert("title:"@ + rest =~= title_prefix() + seq![':'] + rest);
    lemma_prefix_scope(title_prefix(), rest, raw@);
    lemma_single_filter(raw, url, title, summary, body);
}

/// `content:` limits a filter to the entry's summary and body: either one
/// holding the lowercased rest excludes the entry.
pub proof fn lemma_content_filter_matches_summary_or_body(
    raw: String,
    rest: Seq<char>,
    url: Seq<char>,
    title: Seq<char>,
    summary: Seq<char>,
    body: Seq<char>,
)
    requires
        raw@ == "content:"@ + rest,
    ensures
        any_hit(compile_spec(seq![Some(raw)]), url, title, summary, body) == (seq_contains(
            summary,
            lowercase(rest),
        ) || seq_contains(body, lowercase(rest))),
{
    reveal_strlit("content:");
    assert("content:"@ + rest =~= content_prefix() + seq![':'] + rest);
    lemma_prefix_scope(content_prefix(), rest, raw@);
    lemma_single_filter(raw, url, title, summary, body);
}

/// Several filters exclude an entry exactly when one of them, on its own,
/// would.
pub proof fn lemma_any_filter_excludes(
    fs: Seq<Option<String>>,
    url: Seq<char>,
    title: Seq<char>,
    summary: Seq<char>,
    body: Seq<char>,
)
    ensures
        any_hit(compile_spec(fs), url, title, summary, body) == exists|k: int|
            0 <= k < fs.len() && #[trigger] fs[k] is Some && any_hit(
                compile_spec(seq![fs[k]]),
                url,
                title,
                summary,
                body,
            ),
    decreases fs.len(),
{
    if fs.len() == 0 {
        assert(compile_spec(fs) =~= Seq::<(FilterScope, Seq<char>)>::empty());
    } else {
        let init = fs.drop_last();
        lemma_any_filter_excludes(init, url, title, summary, body);
        let prev = compile_spec(init);
        let cur = compile_spec(fs);
        let n = fs.len() - 1;
        assert(fs[n] == fs.last());
        match fs.last() {
            Some(raw) => {
                lemma_single_filter(raw, url, title, summary, body);
                assert(cur == prev.push(compile_one(raw@)));
                assert(seq![fs[n]] =~= seq![Some(raw)]);
                if any_hit(cur, url, title, summary, body) {
                    let i = choose|i: int| 0 <= i < cur.len() && filter_hits(#[trigger] cur[i], url, title, summary, body);
                    if i < prev.len() {
                        assert(cur[i] == prev[i]);
                        assert(any_hit(prev, url, title, summary, body));
                        let k = choose|k: int|
                            0 <= k < init.len() && #[trigger] init[k] is Some && any_hit(
                                compile_spec(seq![init[k]]),
                                url,
                                title,
                                summary,
                                body,
                            );
                        assert(fs[k] == init[k]);
                    } else {
                        assert(cur[i] == compile_one(raw@));
                    }
                }
                if exists|k: int|
                    0 <= k < fs.len() && #[trigger] fs[k] is Some && any_hit(
                        compile_spec(seq![fs[k]]),
                        url,
                        title,
                        summary,
                        body,
                    ) {
                    let k = choose|k: int|
                        0 <= k < fs.len() && #[trigger] fs[k] is Some && any_hit(
                            compile_spec(seq![fs[k]]),
                            url,
                            title,
                            summary,
                            body,
                        );
                    if k < n {
                        assert(init[k] == fs[k]);
                        assert(any_hit(prev, url, title, summary, body));
                        let i = choose|i: int| 0 <= i < prev.len() && filter_hits(#[trigger] prev[i], url, title, summary, body);
                        assert(cur[i] == prev[i]);
                    } else {
                        assert(cur[prev.len() as int] == compile_one(raw@));
                    }
                }
            },
            None => {
                assert(cur == prev);
                if exists|k: int|
                    0 <= k < fs.len() && #[trigger] fs[k] is Some && any_hit(
                        compile_spec(seq![fs[k]]),
                        url,
                        title,
                        summary,
                        body,
                    ) {
                    let k = choose|k: int|
                        0 <= k < fs.len() && #[trigger] fs[k] is Some && any_hit(
                            compile_spec(seq![fs[k]]),
                            url,
                            title,
                            summary,
                            body,
                        );
                    assert(k < n);
                    assert(init[k] == fs[k]);
                }
                if any_hit(prev, url, title, summary, body) {
                    let k = choose|k: int|
                        0 <= k < init.len() && #[trigger] init[k] is Some && any_hit(
                            compile_spec(seq![init[k]]),
                            url,
                            title,
                            summary,
                            body,
                        );
                    assert(fs[k] == init[k]);
                }
            },
        }
    }
}

/// Absent filters are skipped, so a feed without filters (or with only
/// absent ones) excludes no entry.
pub proof fn lemma_no_filters_exclude_nothing(
    fs: Seq<Option<String>>,
    url: Seq<char>,
    title: Seq<char>,
    summary: Seq<char>,
    body: Seq<char>,
)
    requires
        forall|i: int| 0 <= i < fs.len() ==> (#[trigger] fs[i]) is None,
    ensures
        compile_spec(fs) == Seq::<(FilterScope, Seq<char>)>::empty(),
        !any_hit(compile_spec(fs), url, title, summary, body),
    decreases fs.len(),
{
    if fs.len() > 0 {
        let init = fs.drop_last();
        assert forall|i: int| 0 <= i < init.len() implies (#[trigger] init[i]) is None by {
            assert(init[i] == fs[i]);
        }
        lemma_no_filters_exclude_nothing(init, url, title, summary, body);
        assert(fs.last() == fs[fs.len() - 1]);
    }
}

/// The lowercased text of an optional field; an absent one is empty.
pub open spec fn lowered(o: Option<Seq<char>>) -> Seq<char> {
    match o {
        Some(s) => lowercase(s),
        None => seq![],
    }
}

pub open spec fn opt_view(o: Option<String>) -> Option<Seq<char>> {
    match o {
        Some(s) => Some(s@),
        None => None,
    }
}

/// The entry's first link, if any.
pub open spec fn entry_url(e: Entry) -> Option<Seq<char>> {
    if e.links.len() > 0 {
        Some(e.links@[0].href@)
    } else {
        None
    }
}

pub open spec fn pairs_view(v: Seq<(FilterScope, String)>) -> Seq<(FilterScope, Seq<char>)> {
    v.map_values(|p: (FilterScope, String)| (p.0, p.1@))
}

/// A feed's exclusion filters, parsed once per poll and matched per entry.
/// Matching is case-insensitive: patterns are lowercased here, haystacks in
/// [`CompiledFilters::excludes`].
pub struct CompiledFilters(Vec<(FilterScope, String)>);

impl View for CompiledFilters {
    type V = Seq<(FilterScope, Seq<char>)>;

    closed spec fn view(&self) -> Seq<(FilterScope, Seq<char>)> {
        pairs_view(self.0@)
    }
}

fn lower_opt(o: &Option<String>) -> (r: String)
    ensures
        r@ == lowered(opt_view(*o)),
{
    match o {
        Some(s) => to_lowercase(s.as_str()),
        None => String::new(),
    }
}

impl CompiledFilters {
    pub fn new(filters: &[Option<String>]) -> (c: Self)
        ensures
            c@ == compile_spec(filters@),
    {
        let mut v: Vec<(FilterScope, String)> = Vec::new();
        let n = filters.len();
        let mut i: usize = 0;
        while i < n
            invariant
                n == filters@.len(),
                i <= n,
                pairs_view(v@) == compile_spec(filters@.take(i as int)),
            decreases n - i,
        {
            proof {
                assert(filters@.take(i + 1).drop_last() =~= filters@.take(i as int));
                assert(filters@.take(i + 1).last() == filters@[i as int]);
            }
            match &filters[i] {
                Some(raw) => {
                    let (scope, pattern) = parse_filter(raw.as_str());
                    let lowered = to_lowercase(pattern);
                    let ghost before = v@;
                    v.push((scope, lowered));
                    proof {
                        assert(pairs_view(v@) =~= pairs_view(before).push((scope, lowered@)));
                    }
                },
                None => {},
            }
            i = i + 1;
        }
        proof {
            assert(filters@.take(n as int) =~= filters@);
        }
        CompiledFilters(v)
    }

    /// True when any filter matches the entry, i.e. the entry should be skipped.
    pub fn excludes(&self, entry: &Entry) -> (b: bool)
        ensures
            b == any_hit(
                self@,
                lowered(entry_url(*entry)),
                lowered(opt_view(entry.title)),
                lowered(opt_view(entry.summary)),
                lowered(opt_view(entry.content)),
            ),
    {
        if self.0.len() == 0 {
            return false;
        }
        let url = if entry.links.len() > 0 {
            to_lowercase(entry.links[0].href.as_str())
        } else {
            String::new()
        };
        let title = lower_opt(&entry.title);
        let summary = lower_opt(&entry.summary);
        let body = lower_opt(&entry.content);
        self.excludes_fields(url.as_str(), title.as_str(), summary.as_str(), body.as_str())
    }

    /// Content scope covers both summary and body: feeds routinely fill
    /// only one of the two. The texts are expected lowercased already.
    pub fn excludes_fields(&self, url: &str, title: &str, summary: &str, body: &str) -> (b: bool)
        ensures
            b == any_hit(self@, url@, title@, summary@, body@),
    {
        let u = chars_of(url);
        let t = chars_of(title);
        let s = chars_of(summary);
        let bd = chars_of(body);
        let n = self.0.len();
        let mut i: usize = 0;
        while i < n
            invariant
                n == self.0@.len(),
                i <= n,
                u@ == url@,
                t@ == title@,
                s@ == summary@,
                bd@ == body@,
                forall|k: int| 0 <= k < i ==> !filter_hits(#[trigger] self@[k], url@, title@, summary@, body@),
            decreases n - i,
        {
            let scope = self.0[i].0;
            let p = chars_of(self.0[i].1.as_str());
            proof {
                assert(self@[i as int] == (scope, p@));
            }
            let hit = match scope {
                FilterScope::Url => contains(u.as_slice(), p.as_slice()),
                FilterScope::Title => contains(t.as_slice(), p.as_slice()),
                FilterScope::Content => contains(s.as_slice(), p.as_slice()) || contains(
                    bd.as_slice(),
                    p.as_slice(),
                ),
                FilterScope::All => contains(u.as_slice(), p.as_slice()) || contains(
                    t.as_slice(),
                    p.as_slice(),
                ) || contains(s.as_slice(), p.as_slice()) || contains(bd.as_slice(), p.as_slice()),
            };
            if hit {
                return true;
            }
            i = i + 1;
        }
        false
    }
}

} // verus!
