//! Feed icon resolution: finds a small image to represent a feed in the UI.
//!
//! The resolution order:
//!  1. The feed's own `<icon>`/`<logo>`;
//!  2. The `<link rel="icon">` tags of the site page the feed links to;
//!  3. `/favicon.ico` at the site origin.
//!
//! Every candidate is fetched and validated before it is stored, so a 404
//! page served for a missing favicon never ends up in the database. The
//! fetching is the application's; the choices are made here.

use crate::feed::{FeedMeta, Link};
use crate::filter::opt_view;
use crate::text::{
    chars_eq, chars_of, contains, drop_leading, lemma_split_at_first, seq_contains,
    seq_starts_with, skip_whitespace_from, starts_with, trim_start_spec, ws,
};
use crate::time::Timestamp;

use vstd::prelude::*;
use vstd::utf8::{decode_utf8, valid_utf8};

verus! {

/// Favicons run a few KB. Anything larger is not an icon worth storing
/// and serving per feed.
pub const MAX_ICON_BYTES: usize = 256 * 1024;

/// How long a "checked, nothing found" result suppresses re-resolution:
/// seven days, in microseconds.
pub const RETRY_MISSING_AFTER_MICROS: i64 = 7 * 24 * 60 * 60 * 1_000_000;

/// An image format recognised by its leading bytes.
#[derive(Clone, Copy, Debug, PartialEq, Eq, Structural)]
pub enum ImageKind {
    Png,
    Jpeg,
    Gif,
    Icon,
    Webp,
    Svg,
}

pub open spec fn mime_spec(k: ImageKind) -> Seq<char> {
    match k {
        ImageKind::Png => "image/png"@,
        ImageKind::Jpeg => "image/jpeg"@,
        ImageKind::Gif => "image/gif"@,
        ImageKind::Icon => "image/x-icon"@,
        ImageKind::Webp => "image/webp"@,
        ImageKind::Svg => "image/svg+xml"@,
    }
}

impl ImageKind {
    /// The MIME type the bytes are served with.
    pub fn mime(self) -> (s: &'static str)
        ensures
            s@ == mime_spec(self),
    {
        match self {
            ImageKind::Png => "image/png",
            ImageKind::Jpeg => "image/jpeg",
            ImageKind::Gif => "image/gif",
            ImageKind::Icon => "image/x-icon",
            ImageKind::Webp => "image/webp",
            ImageKind::Svg => "image/svg+xml",
        }
    }
}

pub open spec fn bytes_start_with(b: Seq<u8>, p: Seq<u8>) -> bool {
    p.len() <= b.len() && b.take(p.len() as int) == p
}

/// The first kilobyte of the data, where an SVG document must open.
pub open spec fn svg_head(b: Seq<u8>) -> Seq<u8> {
    if b.len() <= 1024 {
        b
    } else {
        b.take(1024)
    }
}

pub open spec fn bom() -> spec_fn(char) -> bool {
    |c: char| c == '\u{feff}'
}

/// The text at the head of a document once byte-order marks and then
/// whitespace are skipped.
pub open spec fn svg_text(head: Seq<char>) -> Seq<char> {
    trim_start_spec(drop_leading(head, bom()))
}

/// Whether a decoded head opens as an SVG document: `<svg` itself, or an
/// XML declaration followed somewhere by `<svg`. Text that merely mentions
/// an `<svg>` tag does not count.
pub open spec fn opens_as_svg(t: Seq<char>) -> bool {
    seq_starts_with(t, "<svg"@) || (seq_starts_with(t, "<?xml"@) && seq_contains(t, "<svg"@))
}

/// The image format of `b`, judged from its leading bytes; an SVG is
/// recognised only when its first kilobyte is valid UTF-8.
pub open spec fn sniff_spec(b: Seq<u8>) -> Option<ImageKind> {
    if bytes_start_with(b, seq![0x89u8, 0x50, 0x4e, 0x47, 0x0d, 0x0a, 0x1a, 0x0a]) {
        Some(ImageKind::Png)
    } else if bytes_start_with(b, seq![0xffu8, 0xd8, 0xff]) {
        Some(ImageKind::Jpeg)
    } else if bytes_start_with(b, seq![0x47u8, 0x49, 0x46, 0x38, 0x37, 0x61]) || bytes_start_with(
        b,
        seq![0x47u8, 0x49, 0x46, 0x38, 0x39, 0x61],
    ) {
        Some(ImageKind::Gif)
    } else if bytes_start_with(b, seq![0x00u8, 0x00, 0x01, 0x00]) {
        Some(ImageKind::Icon)
    } else if bytes_start_with(b, seq![0x52u8, 0x49, 0x46, 0x46]) && b.len() >= 12
        && b.subrange(8, 12) == seq![0x57u8, 0x45, 0x42, 0x50] {
        Some(ImageKind::Webp)
    } else if valid_utf8(svg_head(b)) && opens_as_svg(svg_text(decode_utf8(svg_head(b)))) {
        Some(ImageKind::Svg)
    } else {
        None
    }
}

/// Calls `std::str::from_utf8`, which accepts exactly the valid UTF-8
/// byte strings and decodes them.
#[verifier::external_body]
fn utf8_str(b: &[u8]) -> (r: Option<&str>)
    ensures
        r is Some == valid_utf8(b@),
        r matches Some(s) ==> s@ == decode_utf8(b@),
{
    std::str::from_utf8(b).ok()
}

fn bytes_prefix(b: &[u8], p: &[u8]) -> (r: bool)
    ensures
        r == bytes_start_with(b@, p@),
{
    if p.len() > b.len() {
        return false;
    }
    let mut i: usize = 0;
    while i < p.len()
        invariant
            p@.len() <= b@.len(),
            i <= p@.len(),
            forall|k: int| 0 <= k < i ==> b@[k] == p@[k],
        decreases p@.len() - i,
    {
        if b[i] != p[i] {
            proof {
                assert(b@.take(p@.len() as int)[i as int] != p@[i as int]);
            }
            return false;
        }
        i = i + 1;
    }
    proof {
        assert(b@.take(p@.len() as int) =~= p@);
    }
    true
}

fn opens_as_svg_text(head: &str) -> (r: bool)
    ensures
        r == opens_as_svg(svg_text(head@)),
{
    let s = chars_of(head);
    let mut i: usize = 0;
    proof {
        assert(s@.skip(0) =~= s@);
    }
    while i < s.len() && s[i] == '\u{feff}'
        invariant
            i <= s@.len(),
            drop_leading(s@, bom()) == drop_leading(s@.skip(i as int), bom()),
        decreases s@.len() - i,
    {
        proof {
            assert(s@.skip(i as int).drop_first() =~= s@.skip(i + 1));
        }
        i = i + 1;
    }
    proof {
        if i < s@.len() {
            assert(s@.skip(i as int)[0] == s@[i as int]);
        }
    }
    let j = skip_whitespace_from(s.as_slice(), i);
    let t = crate::text::slice_chars(s.as_slice(), j, s.len());
    proof {
        assert(t@ =~= s@.skip(j as int));
    }
    let svg = ['<', 's', 'v', 'g'];
    let xml = ['<', '?', 'x', 'm', 'l'];
    proof {
        reveal_strlit("<svg");
        reveal_strlit("<?xml");
        assert(svg@ =~= "<svg"@);
        assert(xml@ =~= "<?xml"@);
    }
    starts_with(t.as_slice(), &svg) || (starts_with(t.as_slice(), &xml) && contains(
        t.as_slice(),
        &svg,
    ))
}

/// Identifies an image format from its leading bytes.
/// https://en.wikipedia.org/wiki/List_of_file_signatures
pub fn sniff_image(bytes: &[u8]) -> (r: Option<&'static str>)
    ensures
        match sniff_spec(bytes@) {
            Some(k) => r is Some && r->0@ == mime_spec(k),
            None => r is None,
        },
{
    let kind = sniff_kind(bytes);
    match kind {
        Some(k) => Some(k.mime()),
        None => None,
    }
}

/// The image format of `bytes`, if recognised.
pub fn sniff_kind(bytes: &[u8]) -> (r: Option<ImageKind>)
    ensures
        r == sniff_spec(bytes@),
{
    if bytes_prefix(bytes, &[0x89u8, 0x50, 0x4e, 0x47, 0x0d, 0x0a, 0x1a, 0x0a]) {
        return Some(ImageKind::Png);
    }
    if bytes_prefix(bytes, &[0xffu8, 0xd8, 0xff]) {
        return Some(ImageKind::Jpeg);
    }
    if bytes_prefix(bytes, &[0x47u8, 0x49, 0x46, 0x38, 0x37, 0x61]) || bytes_prefix(
        bytes,
        &[0x47u8, 0x49, 0x46, 0x38, 0x39, 0x61],
    ) {
        return Some(ImageKind::Gif);
    }
    if bytes_prefix(bytes, &[0x00u8, 0x00, 0x01, 0x00]) {
        return Some(ImageKind::Icon);
    }
    if bytes_prefix(bytes, &[0x52u8, 0x49, 0x46, 0x46]) && bytes.len() >= 12 && bytes[8] == 0x57
        && bytes[9] == 0x45 && bytes[10] == 0x42 && bytes[11] == 0x50 {
        proof {
            assert(bytes@.subrange(8, 12) =~= seq![0x57u8, 0x45, 0x42, 0x50]);
        }
        return Some(ImageKind::Webp);
    }
    proof {
        if bytes@.len() >= 12 && bytes@.subrange(8, 12) == seq![0x57u8, 0x45, 0x42, 0x50] {
            assert(bytes@.subrange(8, 12)[0] == bytes@[8]);
            assert(bytes@.subrange(8, 12)[1] == bytes@[9]);
            assert(bytes@.subrange(8, 12)[2] == bytes@[10]);
            assert(bytes@.subrange(8, 12)[3] == bytes@[11]);
        }
    }
    let n = if bytes.len() <= 1024 {
        bytes.len()
    } else {
        1024
    };
    let head = &bytes[0..n];
    proof {
        if bytes@.len() <= 1024 {
            assert(head@ =~= bytes@);
        } else {
            assert(head@ =~= bytes@.take(1024));
        }
    }
    match utf8_str(head) {
        Some(text) => if opens_as_svg_text(text) {
            Some(ImageKind::Svg)
        } else {
            None
        },
        None => None,
    }
}

/// What `reqwest::Url::parse(base)` followed by `Url::join(href)` yields,
/// serialized: the absolute URL `href` refers to from `base`, or `None`
/// when either step fails.
pub uninterp spec fn url_join(base: Seq<char>, href: Seq<char>) -> Option<Seq<char>>;

/// Resolves a possibly-relative `href` against `base` with `reqwest::Url`
/// (`Url::parse`, then `Url::join`); the result is named [`url_join`].
#[verifier::external_body]
pub fn join_url(base: &str, href: &str) -> (r: Option<String>)
    ensures
        opt_view(r) == url_join(base@, href@),
{
    reqwest::Url::parse(base).and_then(|b| b.join(href)).map(String::from).ok()
}

/// The values of attribute `attr` on the elements of the HTML document
/// `html` that the CSS selector list `selector` matches, in the order
/// scraper's `Html::select` yields them (elements without the attribute
/// skipped); `None` when the selector does not parse.
pub uninterp spec fn css_select_attr(html: Seq<char>, selector: Seq<char>, attr: Seq<char>) -> Option<Seq<Seq<char>>>;

/// Parses `html` with `scraper::Html::parse_document`, runs
/// `scraper::Selector::parse(selector)` over it and collects attribute
/// `attr` of each match; the result is named [`css_select_attr`].
#[verifier::external_body]
fn select_attr(html: &str, selector: &str, attr: &str) -> (r: Option<Vec<String>>)
    ensures
        match r {
            Some(v) => css_select_attr(html@, selector@, attr@) == Some(strings_view(v@)),
            None => css_select_attr(html@, selector@, attr@) is None,
        },
{
    let selector = scraper::Selector::parse(selector).ok()?;
    Some(
        scraper::Html::parse_document(html).select(&selector).filter_map(
            |e| e.attr(attr).map(String::from),
        ).collect(),
    )
}

pub open spec fn strings_view(v: Seq<String>) -> Seq<Seq<char>> {
    v.map_values(|s: String| s@)
}

/// Elements whose space-separated `rel` holds `icon` or
/// `apple-touch-icon`, compared without regard to case.
pub open spec fn icon_selector() -> Seq<char> {
    "link[rel~=\"icon\" i], link[rel~=\"apple-touch-icon\" i]"@
}

/// Icon URL candidates advertised by an HTML page, in document order.
/// `og:image` is deliberately not considered: it is a share banner (or,
/// on YouTube, the channel avatar), not the site's icon.
pub fn page_icon_candidates(html: &str) -> (r: Vec<String>)
    ensures
        strings_view(r@) == match css_select_attr(html@, icon_selector(), "href"@) {
            Some(v) => v,
            None => seq![],
        },
{
    match select_attr(html, "link[rel~=\"icon\" i], link[rel~=\"apple-touch-icon\" i]", "href") {
        Some(v) => v,
        None => {
            let v: Vec<String> = Vec::new();
            proof {
                assert(strings_view(v@) =~= seq![]);
            }
            v
        },
    }
}

pub open spec fn is_self_rel(l: Link) -> bool {
    l.rel matches Some(r) && r@ == "self"@
}

/// Index of the first link that is not `rel="self"`.
pub open spec fn first_non_self(links: Seq<Link>, i: int) -> bool {
    0 <= i < links.len() && !is_self_rel(links[i]) && forall|k: int|
        0 <= k < i ==> is_self_rel(#[trigger] links[k])
}

/// The site page to scan: the first non-self link joined to the feed URL.
pub open spec fn site_url_spec(feed_url: Seq<char>, links: Seq<Link>) -> Option<Seq<char>> {
    if exists|i: int| first_non_self(links, i) {
        let i = choose|i: int| first_non_self(links, i);
        url_join(feed_url, links[i].href@)
    } else {
        None
    }
}

fn is_self(l: &Link) -> (b: bool)
    ensures
        b == is_self_rel(*l),
{
    match &l.rel {
        Some(r) => {
            let c = chars_of(r.as_str());
            proof {
                reveal_strlit("self");
            }
            let b = chars_eq(c.as_slice(), &['s', 'e', 'l', 'f']);
            proof {
                assert(['s', 'e', 'l', 'f']@ =~= "self"@);
            }
            b
        },
        None => false,
    }
}

/// The site page to scan for icons: the feed's first non-self link (the
/// channel/home page for YouTube and most blogs), or `None` when the feed
/// links nowhere and only the origin favicon fallback remains.
pub fn site_url(feed_url: &str, parsed: &FeedMeta) -> (r: Option<String>)
    ensures
        opt_view(r) == site_url_spec(feed_url@, parsed.links@),
{
    let links = &parsed.links;
    let mut i: usize = 0;
    while i < links.len()
        invariant
            links@ == parsed.links@,
            i <= links@.len(),
            forall|k: int| 0 <= k < i ==> is_self_rel(#[trigger] links@[k]),
        decreases links@.len() - i,
    {
        if !is_self(&links[i]) {
            proof {
                assert(first_non_self(links@, i as int));
                let j = choose|j: int| first_non_self(links@, j);
                if j < i {
                    assert(is_self_rel(links@[j]));
                } else if j > i {
                    assert(is_self_rel(links@[i as int]));
                }
                assert(j == i);
                assert(site_url_spec(feed_url@, parsed.links@) == url_join(feed_url@, links@[i as int].href@));
            }
            return join_url(feed_url, links[i].href.as_str());
        }
        i = i + 1;
    }
    proof {
        assert(!exists|j: int| first_non_self(links@, j));
    }
    None
}

/// The feed's own icon and logo URIs, in that order, each resolved against
/// the feed URL; those that do not resolve are left out.
pub open spec fn feed_image_urls_spec(feed_url: Seq<char>, icon: Option<Seq<char>>, logo: Option<Seq<char>>) -> Seq<Seq<char>> {
    joined(feed_url, icon) + joined(feed_url, logo)
}

pub open spec fn joined(base: Seq<char>, href: Option<Seq<char>>) -> Seq<Seq<char>> {
    match href {
        Some(h) => match url_join(base, h) {
            Some(u) => seq![u],
            None => seq![],
        },
        None => seq![],
    }
}

fn push_joined(out: &mut Vec<String>, base: &str, href: &Option<String>)
    ensures
        strings_view(final(out)@) == strings_view(old(out)@) + joined(base@, opt_view(*href)),
{
    match href {
        Some(h) => match join_url(base, h.as_str()) {
            Some(u) => {
                let ghost before = out@;
                out.push(u);
                proof {
                    assert(strings_view(out@) =~= strings_view(before) + joined(base@, opt_view(*href)));
                }
            },
            None => {
                assert(strings_view(out@) =~= strings_view(out@) + seq![]);
            },
        },
        None => {
            assert(strings_view(out@) =~= strings_view(out@) + seq![]);
        },
    }
}

/// First stage of resolution: the URLs of the feed's `<icon>` and
/// `<logo>`, in that order.
pub fn feed_image_urls(feed_url: &str, parsed: &FeedMeta) -> (r: Vec<String>)
    ensures
        strings_view(r@) == feed_image_urls_spec(feed_url@, opt_view(parsed.icon), opt_view(parsed.logo)),
{
    let mut out: Vec<String> = Vec::new();
    proof {
        assert(strings_view(out@) =~= seq![]);
    }
    push_joined(&mut out, feed_url, &parsed.icon);
    push_joined(&mut out, feed_url, &parsed.logo);
    proof {
        assert(seq![] + joined(feed_url@, opt_view(parsed.icon)) =~= joined(feed_url@, opt_view(parsed.icon)));
    }
    out
}

/// Resolves each href against `base`, keeping those that resolve, in order.
pub open spec fn resolve_all(base: Seq<char>, hrefs: Seq<Seq<char>>) -> Seq<Seq<char>>
    decreases hrefs.len(),
{
    if hrefs.len() == 0 {
        seq![]
    } else {
        resolve_all(base, hrefs.drop_last()) + joined(base, Some(hrefs.last()))
    }
}

/// Second stage of resolution: the icons a fetched site page advertises,
/// resolved against the page's URL, in document order.
pub fn page_icon_urls(page_url: &str, html: &str) -> (r: Vec<String>)
    ensures
        strings_view(r@) == resolve_all(
            page_url@,
            match css_select_attr(html@, icon_selector(), "href"@) {
                Some(v) => v,
                None => seq![],
            },
        ),
{
    let hrefs = page_icon_candidates(html);
    let ghost hv = strings_view(hrefs@);
    let mut out: Vec<String> = Vec::new();
    let mut i: usize = 0;
    while i < hrefs.len()
        invariant
            i <= hrefs@.len(),
            hv == strings_view(hrefs@),
            strings_view(out@) == resolve_all(page_url@, hv.take(i as int)),
        decreases hrefs@.len() - i,
    {
        proof {
            assert(hv.take(i + 1).drop_last() =~= hv.take(i as int));
            assert(hv.take(i + 1).last() == hrefs@[i as int]@);
        }
        let href = Some(hrefs[i].clone());
        push_joined(&mut out, page_url, &href);
        i = i + 1;
    }
    proof {
        assert(hv.take(hrefs@.len() as int) =~= hv);
    }
    out
}

/// Last stage of resolution: `/favicon.ico` at the origin of the site page,
/// or of the feed when it links to no page. Most sites serve it even
/// without advertising it.
pub fn fallback_icon_url(feed_url: &str, page_url: &Option<String>) -> (r: Option<String>)
    ensures
        opt_view(r) == url_join(
            match page_url {
                Some(p) => p@,
                None => feed_url@,
            },
            "/favicon.ico"@,
        ),
{
    match page_url {
        Some(p) => join_url(p.as_str(), "/favicon.ico"),
        None => join_url(feed_url, "/favicon.ico"),
    }
}

/// What a fetched candidate is kept as: its bytes and MIME type, when it
/// is non-empty, within [`MAX_ICON_BYTES`], and either sniffs as an image
/// or was served with an `image/` content type.
pub open spec fn accept_icon_spec(bytes: Seq<u8>, content_type: Option<Seq<char>>) -> Option<Seq<char>> {
    if bytes.len() == 0 || bytes.len() > MAX_ICON_BYTES {
        None
    } else {
        match sniff_spec(bytes) {
            Some(k) => Some(mime_spec(k)),
            None => match content_type {
                Some(ct) => if seq_starts_with(ct, "image/"@) {
                    Some(ct)
                } else {
                    None
                },
                None => None,
            },
        }
    }
}

/// Image signatures: a body is recognised by its leading bytes alone,
/// whatever follows them. `89 50 4E 47 0D 0A 1A 0A` is a PNG; `FF D8 FF`
/// (with any fourth byte: JFIF, EXIF, a quantization table) a JPEG;
/// `GIF87a` or `GIF89a` a GIF; `00 00 01 00` an icon; `RIFF`, four length
/// bytes and `WEBP` a WebP.
pub proof fn lemma_image_signatures(b: Seq<u8>)
    ensures
        b.len() >= 8 && b[0] == 0x89 && b[1] == 0x50 && b[2] == 0x4e && b[3] == 0x47 && b[4] == 0x0d
            && b[5] == 0x0a && b[6] == 0x1a && b[7] == 0x0a ==> sniff_spec(b) == Some(ImageKind::Png),
        b.len() >= 3 && b[0] == 0xff && b[1] == 0xd8 && b[2] == 0xff ==> sniff_spec(b) == Some(ImageKind::Jpeg),
        b.len() >= 6 && b[0] == 0x47 && b[1] == 0x49 && b[2] == 0x46 && b[3] == 0x38 && (b[4] == 0x37
            || b[4] == 0x39) && b[5] == 0x61 ==> sniff_spec(b) == Some(ImageKind::Gif),
        b.len() >= 4 && b[0] == 0x00 && b[1] == 0x00 && b[2] == 0x01 && b[3] == 0x00 ==> sniff_spec(b)
            == Some(ImageKind::Icon),
        b.len() >= 12 && b[0] == 0x52 && b[1] == 0x49 && b[2] == 0x46 && b[3] == 0x46 && b[8] == 0x57
            && b[9] == 0x45 && b[10] == 0x42 && b[11] == 0x50 ==> sniff_spec(b) == Some(ImageKind::Webp),
{
    if b.len() >= 8 && b[0] == 0x89 && b[1] == 0x50 && b[2] == 0x4e && b[3] == 0x47 && b[4] == 0x0d && b[5]
        == 0x0a && b[6] == 0x1a && b[7] == 0x0a {
        assert(b.take(8) =~= seq![0x89u8, 0x50, 0x4e, 0x47, 0x0d, 0x0a, 0x1a, 0x0a]);
    }
    if b.len() >= 3 && b[0] == 0xff && b[1] == 0xd8 && b[2] == 0xff {
        assert(b.take(3) =~= seq![0xffu8, 0xd8, 0xff]);
    }
    if b.len() >= 6 && b[0] == 0x47 && b[1] == 0x49 && b[2] == 0x46 && b[3] == 0x38 && b[5] == 0x61 {
        if b[4] == 0x37 {
            assert(b.take(6) =~= seq![0x47u8, 0x49, 0x46, 0x38, 0x37, 0x61]);
        } else if b[4] == 0x39 {
            assert(b.take(6) =~= seq![0x47u8, 0x49, 0x46, 0x38, 0x39, 0x61]);
        }
    }
    if b.len() >= 4 && b[0] == 0x00 && b[1] == 0x00 && b[2] == 0x01 && b[3] == 0x00 {
        assert(b.take(4) =~= seq![0x00u8, 0x00, 0x01, 0x00]);
    }
    if b.len() >= 12 && b[0] == 0x52 && b[1] == 0x49 && b[2] == 0x46 && b[3] == 0x46 && b[8] == 0x57 && b[9]
        == 0x45 && b[10] == 0x42 && b[11] == 0x50 {
        assert(b.take(4) =~= seq![0x52u8, 0x49, 0x46, 0x46]);
        assert(b.subrange(8, 12) =~= seq![0x57u8, 0x45, 0x42, 0x50]);
    }
}

/// What is kept of a candidate is never an empty or oversized body, and
/// is always served as an `image/` type, so an error page fetched in place
/// of a favicon is never stored as one.
pub proof fn lemma_accepted_icons_are_images(bytes: Seq<u8>, content_type: Option<Seq<char>>)
    ensures
        accept_icon_spec(bytes, content_type) matches Some(m) ==> {
            &&& 0 < bytes.len() <= MAX_ICON_BYTES
            &&& seq_starts_with(m, "image/"@)
        },
{
    reveal_strlit("image/");
    reveal_strlit("image/png");
    reveal_strlit("image/jpeg");
    reveal_strlit("image/gif");
    reveal_strlit("image/x-icon");
    reveal_strlit("image/webp");
    reveal_strlit("image/svg+xml");
    if let Some(k) = sniff_spec(bytes) {
        assert(mime_spec(k).take(6) =~= "image/"@);
    }
}

/// Validates a fetched icon candidate.
pub fn accept_icon(bytes: Vec<u8>, content_type: Option<String>) -> (r: Option<(Vec<u8>, String)>)
    ensures
        match accept_icon_spec(bytes@, opt_view(content_type)) {
            Some(m) => r matches Some((b, mt)) && b@ == bytes@ && mt@ == m,
            None => r is None,
        },
{
    if bytes.len() == 0 || bytes.len() > MAX_ICON_BYTES {
        return None;
    }
    match sniff_image(bytes.as_slice()) {
        Some(m) => {
            let s = crate::text::string_from_chars(chars_of(m).as_slice());
            Some((bytes, s))
        },
        None => match content_type {
            Some(ct) => {
                let c = chars_of(ct.as_str());
                let p = ['i', 'm', 'a', 'g', 'e', '/'];
                proof {
                    reveal_strlit("image/");
                    assert(p@ =~= "image/"@);
                }
                if starts_with(c.as_slice(), &p) {
                    Some((bytes, ct))
                } else {
                    None
                }
            },
            None => None,
        },
    }
}

} // verus!
