//! The order in which icon candidates are tried: the feed's own icon and
//! logo, then the icons the site page advertises, then `/favicon.ico` at
//! the site's origin; the first candidate that fetches and validates wins.
//!
//! The application performs each fetch the machine asks for and hands the
//! outcome back as an event; every decision is taken here.

use crate::feed::FeedMeta;
use crate::filter::opt_view;
use crate::icon::{
    accept_icon, accept_icon_spec, css_select_attr, fallback_icon_url, feed_image_urls,
    feed_image_urls_spec, icon_selector, page_icon_urls, resolve_all, site_url, site_url_spec,
    strings_view, url_join,
};
use vstd::prelude::*;

verus! {

/// Which source of candidates a resolution is working through.
#[derive(Clone, Copy, Debug, PartialEq, Eq, Structural)]
pub enum IconStage {
    /// The feed's own `<icon>` and `<logo>`.
    FeedImages,
    /// Waiting for the site page the feed links to.
    SitePage,
    /// The icons the site page advertises.
    PageIcons,
    /// `/favicon.ico` at the site's origin.
    Fallback,
    /// Finished.
    Done,
}

/// Where a resolution stands: its stage, the candidate URLs of that stage
/// and the one being fetched, and the site page (if the feed links to one).
#[derive(Clone, Debug)]
pub struct IconState {
    pub stage: IconStage,
    pub queue: Vec<String>,
    pub pos: usize,
    pub page_url: Option<String>,
}

pub ghost struct IconStateView {
    pub stage: IconStage,
    pub queue: Seq<Seq<char>>,
    pub pos: int,
    pub page: Option<Seq<char>>,
}

impl View for IconState {
    type V = IconStateView;

    open spec fn view(&self) -> IconStateView {
        IconStateView {
            stage: self.stage,
            queue: strings_view(self.queue@),
            pos: self.pos as int,
            page: opt_view(self.page_url),
        }
    }
}

/// The outcome of the fetch the machine asked for.
#[derive(Clone, Debug)]
pub enum IconEvent {
    /// A candidate's body and media type, or `None` when fetching failed.
    Fetched(Option<(Vec<u8>, Option<String>)>),
    /// The site page's text, or `None` when fetching it failed.
    PageFetched(Option<String>),
}

pub ghost enum IconEventView {
    Fetched(Option<(Seq<u8>, Option<Seq<char>>)>),
    PageFetched(Option<Seq<char>>),
}

impl View for IconEvent {
    type V = IconEventView;

    open spec fn view(&self) -> IconEventView {
        match self {
            IconEvent::Fetched(o) => IconEventView::Fetched(
                match o {
                    Some(p) => Some((p.0@, opt_view(p.1))),
                    None => None,
                },
            ),
            IconEvent::PageFetched(h) => IconEventView::PageFetched(opt_view(*h)),
        }
    }
}

/// What to do next.
#[derive(Clone, Debug)]
pub enum IconAction {
    /// Fetch this candidate and report it with [`IconEvent::Fetched`].
    FetchIcon(String),
    /// Fetch the site page and report it with [`IconEvent::PageFetched`].
    FetchPage(String),
    /// Stop: the accepted icon's bytes and MIME type, or `None` when no
    /// candidate was accepted.
    Finish(Option<(Vec<u8>, String)>),
}

pub ghost enum IconActionView {
    FetchIcon(Seq<char>),
    FetchPage(Seq<char>),
    Finish(Option<(Seq<u8>, Seq<char>)>),
}

impl View for IconAction {
    type V = IconActionView;

    open spec fn view(&self) -> IconActionView {
        match self {
            IconAction::FetchIcon(u) => IconActionView::FetchIcon(u@),
            IconAction::FetchPage(u) => IconActionView::FetchPage(u@),
            IconAction::Finish(r) => IconActionView::Finish(
                match r {
                    Some(p) => Some((p.0@, p.1@)),
                    None => None,
                },
            ),
        }
    }
}

pub open spec fn state_view(stage: IconStage, queue: Seq<Seq<char>>, pos: int, page: Option<Seq<char>>) -> IconStateView {
    IconStateView { stage, queue, pos, page }
}

/// The base `/favicon.ico` is resolved against: the site page, else the
/// feed.
pub open spec fn fallback_base(feed_url: Seq<char>, page: Option<Seq<char>>) -> Seq<char> {
    match page {
        Some(p) => p,
        None => feed_url,
    }
}

/// Moving on to the origin favicon.
pub open spec fn to_fallback(feed_url: Seq<char>, page: Option<Seq<char>>) -> (IconStateView, IconActionView) {
    match url_join(fallback_base(feed_url, page), "/favicon.ico"@) {
        Some(u) => (state_view(IconStage::Fallback, seq![u], 0, page), IconActionView::FetchIcon(u)),
        None => (state_view(IconStage::Done, seq![], 0, page), IconActionView::Finish(None)),
    }
}

/// What follows once a stage's candidates are used up.
pub open spec fn after_stage(feed_url: Seq<char>, stage: IconStage, page: Option<Seq<char>>) -> (IconStateView, IconActionView) {
    match stage {
        IconStage::FeedImages => match page {
            Some(p) => (state_view(IconStage::SitePage, seq![], 0, page), IconActionView::FetchPage(p)),
            None => to_fallback(feed_url, page),
        },
        IconStage::PageIcons => to_fallback(feed_url, page),
        _ => (state_view(IconStage::Done, seq![], 0, page), IconActionView::Finish(None)),
    }
}

/// Starting a stage on its candidates: the first one, or the next stage
/// when there is none.
pub open spec fn begin_stage(feed_url: Seq<char>, stage: IconStage, queue: Seq<Seq<char>>, page: Option<Seq<char>>) -> (IconStateView, IconActionView) {
    if queue.len() > 0 {
        (state_view(stage, queue, 0, page), IconActionView::FetchIcon(queue[0]))
    } else {
        after_stage(feed_url, stage, page)
    }
}

pub open spec fn icon_start_spec(feed_url: Seq<char>, meta: FeedMeta) -> (IconStateView, IconActionView) {
    begin_stage(
        feed_url,
        IconStage::FeedImages,
        feed_image_urls_spec(feed_url, opt_view(meta.icon), opt_view(meta.logo)),
        site_url_spec(feed_url, meta.links@),
    )
}

/// What a fetched candidate is kept as, if anything.
pub open spec fn accepted(o: Option<(Seq<u8>, Option<Seq<char>>)>) -> Option<(Seq<u8>, Seq<char>)> {
    match o {
        Some(p) => match accept_icon_spec(p.0, p.1) {
            Some(m) => Some((p.0, m)),
            None => None,
        },
        None => None,
    }
}

/// The icons a site page advertises, resolved against the page's URL.
pub open spec fn page_candidates(page: Seq<char>, html: Seq<char>) -> Seq<Seq<char>> {
    resolve_all(
        page,
        match css_select_attr(html, icon_selector(), "href"@) {
            Some(v) => v,
            None => seq![],
        },
    )
}

/// One step: the next state and action once the event for the previous
/// action has come in. An event of the wrong kind counts as a failed fetch.
pub open spec fn icon_step_spec(feed_url: Seq<char>, s: IconStateView, e: IconEventView) -> (IconStateView, IconActionView) {
    match s.stage {
        IconStage::Done => (s, IconActionView::Finish(None)),
        IconStage::SitePage => match e {
            IconEventView::PageFetched(Some(html)) => match s.page {
                Some(p) => begin_stage(feed_url, IconStage::PageIcons, page_candidates(p, html), s.page),
                None => to_fallback(feed_url, s.page),
            },
            _ => to_fallback(feed_url, s.page),
        },
        _ => {
            let outcome = match e {
                IconEventView::Fetched(o) => o,
                IconEventView::PageFetched(_) => None,
            };
            match accepted(outcome) {
                Some(x) => (state_view(IconStage::Done, s.queue, s.pos, s.page), IconActionView::Finish(Some(x))),
                None => if s.pos + 1 < s.queue.len() {
                    (state_view(s.stage, s.queue, s.pos + 1, s.page), IconActionView::FetchIcon(s.queue[s.pos + 1]))
                } else {
                    after_stage(feed_url, s.stage, s.page)
                },
            }
        },
    }
}

fn exec_to_fallback(feed_url: &str, page: Option<String>) -> (r: (IconState, IconAction))
    ensures
        (r.0@, r.1@) == to_fallback(feed_url@, opt_view(page)),
{
    match fallback_icon_url(feed_url, &page) {
        Some(u) => {
            let mut queue: Vec<String> = Vec::new();
            queue.push(u.clone());
            proof {
                assert(strings_view(queue@) =~= seq![u@]);
            }
            (IconState { stage: IconStage::Fallback, queue, pos: 0, page_url: page }, IconAction::FetchIcon(u))
        },
        None => {
            let queue: Vec<String> = Vec::new();
            proof {
                assert(strings_view(queue@) =~= Seq::<Seq<char>>::empty());
            }
            (IconState { stage: IconStage::Done, queue, pos: 0, page_url: page }, IconAction::Finish(None))
        },
    }
}

fn exec_after_stage(feed_url: &str, stage: IconStage, page: Option<String>) -> (r: (IconState, IconAction))
    ensures
        (r.0@, r.1@) == after_stage(feed_url@, stage, opt_view(page)),
{
    match stage {
        IconStage::FeedImages => match &page {
            Some(p) => {
                let target = p.clone();
                let queue: Vec<String> = Vec::new();
                proof {
                    assert(strings_view(queue@) =~= Seq::<Seq<char>>::empty());
                }
                (IconState { stage: IconStage::SitePage, queue, pos: 0, page_url: page }, IconAction::FetchPage(target))
            },
            None => exec_to_fallback(feed_url, page),
        },
        IconStage::PageIcons => exec_to_fallback(feed_url, page),
        _ => {
            let queue: Vec<String> = Vec::new();
            proof {
                assert(strings_view(queue@) =~= Seq::<Seq<char>>::empty());
            }
            (IconState { stage: IconStage::Done, queue, pos: 0, page_url: page }, IconAction::Finish(None))
        },
    }
}

fn exec_begin_stage(feed_url: &str, stage: IconStage, queue: Vec<String>, page: Option<String>) -> (r: (IconState, IconAction))
    ensures
        (r.0@, r.1@) == begin_stage(feed_url@, stage, strings_view(queue@), opt_view(page)),
{
    if queue.len() > 0 {
        let first = queue[0].clone();
        (IconState { stage, queue, pos: 0, page_url: page }, IconAction::FetchIcon(first))
    } else {
        exec_after_stage(feed_url, stage, page)
    }
}

/// The first step of resolving a feed's icon.
pub fn icon_start(feed_url: &str, meta: &FeedMeta) -> (r: (IconState, IconAction))
    ensures
        (r.0@, r.1@) == icon_start_spec(feed_url@, *meta),
{
    let images = feed_image_urls(feed_url, meta);
    let page = site_url(feed_url, meta);
    exec_begin_stage(feed_url, IconStage::FeedImages, images, page)
}

/// The next state and action once the outcome of the previous action has
/// come in.
pub fn icon_step(feed_url: &str, state: IconState, event: IconEvent) -> (r: (IconState, IconAction))
    ensures
        (r.0@, r.1@) == icon_step_spec(feed_url@, state@, event@),
{
    match state.stage {
        IconStage::Done => {
            proof {
                assert(state@.stage == IconStage::Done);
            }
            (state, IconAction::Finish(None))
        },
        IconStage::SitePage => match event {
            IconEvent::PageFetched(Some(html)) => match &state.page_url {
                Some(p) => {
                    let urls = page_icon_urls(p.as_str(), html.as_str());
                    exec_begin_stage(feed_url, IconStage::PageIcons, urls, state.page_url)
                },
                None => exec_to_fallback(feed_url, state.page_url),
            },
            _ => exec_to_fallback(feed_url, state.page_url),
        },
        _ => {
            let outcome = match event {
                IconEvent::Fetched(o) => o,
                IconEvent::PageFetched(_) => None,
            };
            let kept = match outcome {
                Some(p) => accept_icon(p.0, p.1),
                None => None,
            };
            match kept {
                Some(x) => (
                    IconState { stage: IconStage::Done, queue: state.queue, pos: state.pos, page_url: state.page_url },
                    IconAction::Finish(Some(x)),
                ),
                None => if state.pos < state.queue.len() && state.pos + 1 < state.queue.len() {
                    let next = state.queue[state.pos + 1].clone();
                    (
                        IconState {
                            stage: state.stage,
                            queue: state.queue,
                            pos: state.pos + 1,
                            page_url: state.page_url,
                        },
                        IconAction::FetchIcon(next),
                    )
                } else {
                    exec_after_stage(feed_url, state.stage, state.page_url)
                },
            }
        },
    }
}

/// The candidates a resolution tries, in order, when the site page (if the
/// feed links to one) fetches as `page_body`: the feed's own images, the
/// page's icons, the origin favicon.
pub open spec fn icon_candidates(feed_url: Seq<char>, meta: FeedMeta, page_body: Option<Seq<char>>) -> Seq<Seq<char>> {
    let page = site_url_spec(feed_url, meta.links@);
    feed_image_urls_spec(feed_url, opt_view(meta.icon), opt_view(meta.logo)) + page_part(page, page_body)
        + fallback_part(feed_url, page)
}

pub open spec fn page_part(page: Option<Seq<char>>, page_body: Option<Seq<char>>) -> Seq<Seq<char>> {
    match (page, page_body) {
        (Some(p), Some(h)) => page_candidates(p, h),
        _ => seq![],
    }
}

pub open spec fn fallback_part(feed_url: Seq<char>, page: Option<Seq<char>>) -> Seq<Seq<char>> {
    match url_join(fallback_base(feed_url, page), "/favicon.ico"@) {
        Some(u) => seq![u],
        None => seq![],
    }
}

/// The first candidate whose fetch outcome is accepted, as it is kept.
pub open spec fn first_accepted(
    cs: Seq<Seq<char>>,
    fetched: spec_fn(Seq<char>) -> Option<(Seq<u8>, Option<Seq<char>>)>,
) -> Option<(Seq<u8>, Seq<char>)>
    decreases cs.len(),
{
    if cs.len() == 0 {
        None
    } else {
        match accepted(fetched(cs[0])) {
            Some(x) => Some(x),
            None => first_accepted(cs.drop_first(), fetched),
        }
    }
}

/// Running the machine from `(s, a)` for at most `fuel` fetches, when each
/// candidate fetches as `fetched` says and the site page as `page_body`:
/// what it finishes with, or `None` if it has not finished.
pub open spec fn drive(
    feed_url: Seq<char>,
    s: IconStateView,
    a: IconActionView,
    fetched: spec_fn(Seq<char>) -> Option<(Seq<u8>, Option<Seq<char>>)>,
    page_body: Option<Seq<char>>,
    fuel: nat,
) -> Option<Option<(Seq<u8>, Seq<char>)>>
    decreases fuel,
{
    match a {
        IconActionView::Finish(r) => Some(r),
        IconActionView::FetchIcon(u) => if fuel == 0 {
            None
        } else {
            let n = icon_step_spec(feed_url, s, IconEventView::Fetched(fetched(u)));
            drive(feed_url, n.0, n.1, fetched, page_body, (fuel - 1) as nat)
        },
        IconActionView::FetchPage(_) => if fuel == 0 {
            None
        } else {
            let n = icon_step_spec(feed_url, s, IconEventView::PageFetched(page_body));
            drive(feed_url, n.0, n.1, fetched, page_body, (fuel - 1) as nat)
        },
    }
}

pub open spec fn or_else(a: Option<(Seq<u8>, Seq<char>)>, b: Option<(Seq<u8>, Seq<char>)>) -> Option<(Seq<u8>, Seq<char>)> {
    if a is Some {
        a
    } else {
        b
    }
}

proof fn lemma_first_accepted_concat(
    a: Seq<Seq<char>>,
    b: Seq<Seq<char>>,
    f: spec_fn(Seq<char>) -> Option<(Seq<u8>, Option<Seq<char>>)>,
)
    ensures
        first_accepted(a + b, f) == or_else(first_accepted(a, f), first_accepted(b, f)),
    decreases a.len(),
{
    if a.len() > 0 {
        lemma_first_accepted_concat(a.drop_first(), b, f);
        assert((a + b).drop_first() =~= a.drop_first() + b);
        assert((a + b)[0] == a[0]);
    } else {
        assert(a + b =~= b);
    }
}

proof fn lemma_drive_fallback(
    feed_url: Seq<char>,
    page: Option<Seq<char>>,
    f: spec_fn(Seq<char>) -> Option<(Seq<u8>, Option<Seq<char>>)>,
    page_body: Option<Seq<char>>,
    fuel: nat,
)
    requires
        fuel >= fallback_part(feed_url, page).len(),
    ensures
        drive(feed_url, to_fallback(feed_url, page).0, to_fallback(feed_url, page).1, f, page_body, fuel)
            == Some(first_accepted(fallback_part(feed_url, page), f)),
{
    let t = to_fallback(feed_url, page);
    if let Some(u) = url_join(fallback_base(feed_url, page), "/favicon.ico"@) {
        let n = icon_step_spec(feed_url, t.0, IconEventView::Fetched(f(u)));
        let one: Seq<Seq<char>> = seq![u];
        assert(one[0] == u);
        assert(one.drop_first() =~= Seq::<Seq<char>>::empty());
        assert(first_accepted(one.drop_first(), f) == None::<(Seq<u8>, Seq<char>)>);
        assert(t.0 == state_view(IconStage::Fallback, one, 0, page));
        assert(t.1 == IconActionView::FetchIcon(u));
        assert(n.1 == IconActionView::Finish(accepted(f(u))));
        assert(drive(feed_url, n.0, n.1, f, page_body, (fuel - 1) as nat) == Some(accepted(f(u))));
        assert(first_accepted(one, f) == accepted(f(u)));
    }
}

/// Trying the candidates of a stage from `pos` on, then whatever follows the
/// stage (which finishes with `rest` within `k` fetches).
proof fn lemma_drive_queue(
    feed_url: Seq<char>,
    s: IconStateView,
    f: spec_fn(Seq<char>) -> Option<(Seq<u8>, Option<Seq<char>>)>,
    page_body: Option<Seq<char>>,
    k: nat,
    rest: Option<(Seq<u8>, Seq<char>)>,
    fuel: nat,
)
    requires
        s.stage == IconStage::FeedImages || s.stage == IconStage::PageIcons || s.stage == IconStage::Fallback,
        0 <= s.pos < s.queue.len(),
        forall|g: nat| g >= k ==> #[trigger] drive(
            feed_url,
            after_stage(feed_url, s.stage, s.page).0,
            after_stage(feed_url, s.stage, s.page).1,
            f,
            page_body,
            g,
        ) == Some(rest),
        fuel >= s.queue.len() - s.pos + k,
    ensures
        drive(feed_url, s, IconActionView::FetchIcon(s.queue[s.pos]), f, page_body, fuel) == Some(
            or_else(first_accepted(s.queue.skip(s.pos), f), rest),
        ),
    decreases s.queue.len() - s.pos,
{
    let q = s.queue.skip(s.pos);
    assert(q[0] == s.queue[s.pos]);
    let n = icon_step_spec(feed_url, s, IconEventView::Fetched(f(s.queue[s.pos])));
    if accepted(f(s.queue[s.pos])) is None {
        assert(q.drop_first() =~= s.queue.skip(s.pos + 1));
        if s.pos + 1 < s.queue.len() {
            let s2 = state_view(s.stage, s.queue, s.pos + 1, s.page);
            lemma_drive_queue(feed_url, s2, f, page_body, k, rest, (fuel - 1) as nat);
        } else {
            assert(s.queue.skip(s.pos + 1) =~= Seq::<Seq<char>>::empty());
            assert(drive(feed_url, n.0, n.1, f, page_body, (fuel - 1) as nat) == Some(rest));
        }
    }
}

proof fn lemma_drive_begin(
    feed_url: Seq<char>,
    stage: IconStage,
    queue: Seq<Seq<char>>,
    page: Option<Seq<char>>,
    f: spec_fn(Seq<char>) -> Option<(Seq<u8>, Option<Seq<char>>)>,
    page_body: Option<Seq<char>>,
    k: nat,
    rest: Option<(Seq<u8>, Seq<char>)>,
    fuel: nat,
)
    requires
        stage == IconStage::FeedImages || stage == IconStage::PageIcons || stage == IconStage::Fallback,
        forall|g: nat| g >= k ==> #[trigger] drive(
            feed_url,
            after_stage(feed_url, stage, page).0,
            after_stage(feed_url, stage, page).1,
            f,
            page_body,
            g,
        ) == Some(rest),
        fuel >= queue.len() + k,
    ensures
        drive(
            feed_url,
            begin_stage(feed_url, stage, queue, page).0,
            begin_stage(feed_url, stage, queue, page).1,
            f,
            page_body,
            fuel,
        ) == Some(or_else(first_accepted(queue, f), rest)),
{
    if queue.len() > 0 {
        let s = state_view(stage, queue, 0, page);
        assert(queue.skip(0) =~= queue);
        lemma_drive_queue(feed_url, s, f, page_body, k, rest, fuel);
    }
}

/// After the feed's own images: the site page and its icons, then the
/// favicon.
proof fn lemma_drive_after_images(
    feed_url: Seq<char>,
    page: Option<Seq<char>>,
    f: spec_fn(Seq<char>) -> Option<(Seq<u8>, Option<Seq<char>>)>,
    page_body: Option<Seq<char>>,
    g: nat,
)
    requires
        g >= (if page is Some { 1 + page_part(page, page_body).len() } else { 0 }) + fallback_part(
            feed_url,
            page,
        ).len(),
    ensures
        drive(
            feed_url,
            after_stage(feed_url, IconStage::FeedImages, page).0,
            after_stage(feed_url, IconStage::FeedImages, page).1,
            f,
            page_body,
            g,
        ) == Some(or_else(first_accepted(page_part(page, page_body), f), first_accepted(fallback_part(feed_url, page), f))),
{
    let fb = first_accepted(fallback_part(feed_url, page), f);
    let kf = fallback_part(feed_url, page).len();
    match page {
        None => {
            assert(page_part(page, page_body) =~= Seq::<Seq<char>>::empty());
            lemma_drive_fallback(feed_url, page, f, page_body, g);
        },
        Some(p) => {
            let s = state_view(IconStage::SitePage, seq![], 0, page);
            let n = icon_step_spec(feed_url, s, IconEventView::PageFetched(page_body));
            match page_body {
                Some(h) => {
                    assert forall|g2: nat| g2 >= kf implies #[trigger] drive(
                        feed_url,
                        after_stage(feed_url, IconStage::PageIcons, page).0,
                        after_stage(feed_url, IconStage::PageIcons, page).1,
                        f,
                        page_body,
                        g2,
                    ) == Some(fb) by {
                        lemma_drive_fallback(feed_url, page, f, page_body, g2);
                    }
                    lemma_drive_begin(
                        feed_url,
                        IconStage::PageIcons,
                        page_candidates(p, h),
                        page,
                        f,
                        page_body,
                        kf as nat,
                        fb,
                        (g - 1) as nat,
                    );
                },
                None => {
                    assert(page_part(page, page_body) =~= Seq::<Seq<char>>::empty());
                    lemma_drive_fallback(feed_url, page, f, page_body, (g - 1) as nat);
                },
            }
        },
    }
}

/// The resolution order: whatever the candidates fetch as, the machine,
/// driven from [`icon_start`] with each fetch's outcome, finishes with the
/// first candidate in [`icon_candidates`] order (feed images, page icons,
/// favicon) that is accepted, or with nothing when none is; it fetches at
/// most one more time than there are candidates.
pub proof fn lemma_icon_resolution_order(
    feed_url: Seq<char>,
    meta: FeedMeta,
    fetched: spec_fn(Seq<char>) -> Option<(Seq<u8>, Option<Seq<char>>)>,
    page_body: Option<Seq<char>>,
)
    ensures
        drive(
            feed_url,
            icon_start_spec(feed_url, meta).0,
            icon_start_spec(feed_url, meta).1,
            fetched,
            page_body,
            (icon_candidates(feed_url, meta, page_body).len() + 1) as nat,
        ) == Some(first_accepted(icon_candidates(feed_url, meta, page_body), fetched)),
{
    let page = site_url_spec(feed_url, meta.links@);
    let imgs = feed_image_urls_spec(feed_url, opt_view(meta.icon), opt_view(meta.logo));
    let pp = page_part(page, page_body);
    let fp = fallback_part(feed_url, page);
    let k = (if page is Some { 1 + pp.len() } else { 0 }) + fp.len();
    let rest = or_else(first_accepted(pp, fetched), first_accepted(fp, fetched));
    assert forall|g: nat| g >= k implies #[trigger] drive(
        feed_url,
        after_stage(feed_url, IconStage::FeedImages, page).0,
        after_stage(feed_url, IconStage::FeedImages, page).1,
        fetched,
        page_body,
        g,
    ) == Some(rest) by {
        lemma_drive_after_images(feed_url, page, fetched, page_body, g);
    }
    assert(page is None ==> pp.len() == 0);
    lemma_drive_begin(
        feed_url,
        IconStage::FeedImages,
        imgs,
        page,
        fetched,
        page_body,
        k as nat,
        rest,
        (icon_candidates(feed_url, meta, page_body).len() + 1) as nat,
    );
    lemma_first_accepted_concat(imgs + pp, fp, fetched);
    lemma_first_accepted_concat(imgs, pp, fetched);
    assert(icon_candidates(feed_url, meta, page_body) == imgs + pp + fp);
}

} // verus!
