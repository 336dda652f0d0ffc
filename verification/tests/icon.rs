use wyrm::icon_cascade::{icon_start, icon_step, IconAction, IconEvent};
use wyrm::feed::{FeedMeta, Link};
use wyrm::icon::{
    accept_icon, fallback_icon_url, feed_image_urls, join_url, page_icon_candidates,
    page_icon_urls, site_url, sniff_image, sniff_kind, ImageKind, MAX_ICON_BYTES,
};

#[test]
fn sniffs_common_formats_and_rejects_garbage() {
    assert_eq!(sniff_image(b"\x89PNG\r\n\x1a\n...."), Some("image/png"));
    assert_eq!(sniff_image(b"\xff\xd8\xff\xe0...."), Some("image/jpeg"));
    assert_eq!(sniff_image(b"GIF89a...."), Some("image/gif"));
    assert_eq!(sniff_image(b"\x00\x00\x01\x00...."), Some("image/x-icon"));
    assert_eq!(
        sniff_image(b"RIFF\x00\x00\x00\x00WEBPVP8 "),
        Some("image/webp")
    );
    assert_eq!(
        sniff_image(b"<svg xmlns=\"http://www.w3.org/2000/svg\"/>"),
        Some("image/svg+xml")
    );
    assert_eq!(
        sniff_image(b"<?xml version=\"1.0\"?><svg/>"),
        Some("image/svg+xml")
    );

    assert_eq!(sniff_image(b""), None);
    assert_eq!(sniff_image(b"<html><body>404</body></html>"), None);
    // Text mentioning <svg> mid-document is not an SVG.
    assert_eq!(sniff_image(b"<html>an inline <svg/> here</html>"), None);
}

#[test]
fn page_candidates_cover_icon_rel_variants_in_order() {
    let html = r#"
        <link rel="stylesheet" href="/style.css">
        <link rel="shortcut icon" href="/favicon.ico">
        <LINK REL="Icon" HREF="/favicon-32.png" SIZES="32x32">
        <link rel="apple-touch-icon" href="/touch.png">
        <meta property="og:image" content="/banner.png">
    "#;
    // og:image is a share banner (or channel avatar), not an icon.
    assert_eq!(
        page_icon_candidates(html),
        vec!["/favicon.ico", "/favicon-32.png", "/touch.png"]
    );
}

#[test]
fn join_url_resolves_relative_and_absolute() {
    assert_eq!(
        join_url("https://example.com/blog/feed.xml", "/favicon.ico").as_deref(),
        Some("https://example.com/favicon.ico")
    );
    assert_eq!(
        join_url("https://example.com/", "https://cdn.example.com/icon.png").as_deref(),
        Some("https://cdn.example.com/icon.png")
    );
    assert_eq!(join_url("nonsense", "/favicon.ico"), None);
}

#[test]
fn svg_sniffing_skips_byte_order_mark_and_whitespace() {
    assert_eq!(sniff_image(b"\xef\xbb\xbf  \n<svg/>"), Some("image/svg+xml"));
    assert_eq!(sniff_image(b"<SVG width=\"1\"/>"), None);
    assert_eq!(sniff_image(b"<?xml version=\"1.0\"?>\n<!-- x --><svg/>"), Some("image/svg+xml"));
    // Not UTF-8: never an SVG.
    assert_eq!(sniff_image(b"\xc3\x28<svg/>"), None);
}

#[test]
fn short_inputs_are_not_images() {
    assert_eq!(sniff_image(b"\x89PN"), None);
    assert_eq!(sniff_image(b"RIFF\x00\x00\x00\x00WEB"), None);
    assert_eq!(sniff_kind(b"GIF87a"), Some(ImageKind::Gif));
    assert_eq!(ImageKind::Webp.mime(), "image/webp");
}

fn link(href: &str, rel: Option<&str>) -> Link {
    Link { href: href.to_string(), rel: rel.map(|r| r.to_string()) }
}

#[test]
fn site_url_skips_self_links() {
    let meta = FeedMeta {
        links: vec![
            link("https://example.com/feed.xml", Some("self")),
            link("/channel/abc", Some("alternate")),
            link("https://other.example/", None),
        ],
        icon: None,
        logo: None,
    };
    assert_eq!(
        site_url("https://example.com/feeds/videos.xml", &meta).as_deref(),
        Some("https://example.com/channel/abc")
    );
    let only_self = FeedMeta { links: vec![link("https://example.com/feed.xml", Some("self"))], icon: None, logo: None };
    assert_eq!(site_url("https://example.com/feed.xml", &only_self), None);
}

#[test]
fn feed_image_urls_lists_icon_then_logo() {
    let meta = FeedMeta {
        links: vec![],
        icon: Some("/icon.png".to_string()),
        logo: Some("https://cdn.example.com/logo.png".to_string()),
    };
    assert_eq!(
        feed_image_urls("https://example.com/blog/feed.xml", &meta),
        vec!["https://example.com/icon.png", "https://cdn.example.com/logo.png"]
    );
    let none = FeedMeta { links: vec![], icon: None, logo: None };
    assert!(feed_image_urls("https://example.com/feed.xml", &none).is_empty());
}

#[test]
fn page_icon_urls_resolves_against_the_page() {
    let html = r#"<link rel="icon" href="favicon.png"><link rel="apple-touch-icon" href="//cdn.example.com/t.png">"#;
    assert_eq!(
        page_icon_urls("https://example.com/blog/", html),
        vec!["https://example.com/blog/favicon.png", "https://cdn.example.com/t.png"]
    );
}

#[test]
fn fallback_uses_the_page_origin_else_the_feed() {
    assert_eq!(
        fallback_icon_url("https://feeds.example.com/rss", &Some("https://www.example.com/about".to_string())).as_deref(),
        Some("https://www.example.com/favicon.ico")
    );
    assert_eq!(
        fallback_icon_url("https://feeds.example.com/rss", &None).as_deref(),
        Some("https://feeds.example.com/favicon.ico")
    );
}

#[test]
fn accept_icon_validates_candidates() {
    let png = b"\x89PNG\r\n\x1a\n....".to_vec();
    assert_eq!(
        accept_icon(png.clone(), Some("text/html".to_string())),
        Some((png.clone(), "image/png".to_string()))
    );
    assert_eq!(
        accept_icon(b"opaque".to_vec(), Some("image/avif".to_string())),
        Some((b"opaque".to_vec(), "image/avif".to_string()))
    );
    assert_eq!(accept_icon(b"<html>404</html>".to_vec(), Some("text/html".to_string())), None);
    assert_eq!(accept_icon(b"opaque".to_vec(), None), None);
    assert_eq!(accept_icon(Vec::new(), Some("image/png".to_string())), None);
    let mut big = png.clone();
    big.resize(MAX_ICON_BYTES + 1, 0);
    assert_eq!(accept_icon(big, Some("image/png".to_string())), None);
}

#[test]
fn resolution_tries_feed_images_then_page_icons_then_favicon() {
    let meta = FeedMeta {
        links: vec![link("https://example.com/", Some("alternate"))],
        icon: Some("/icon.png".to_string()),
        logo: None,
    };
    let feed_url = "https://example.com/feed.xml";
    let png = b"\x89PNG\r\n\x1a\n....".to_vec();
    let mut asked: Vec<String> = Vec::new();
    let (mut state, mut action) = icon_start(feed_url, &meta);
    let result = loop {
        let event = match action {
            IconAction::Finish(r) => break r,
            IconAction::FetchIcon(url) => {
                asked.push(url.clone());
                if url == "https://example.com/touch.png" {
                    IconEvent::Fetched(Some((png.clone(), None)))
                } else {
                    IconEvent::Fetched(Some((b"<html>404</html>".to_vec(), Some("text/html".to_string()))))
                }
            }
            IconAction::FetchPage(url) => {
                asked.push(format!("page {url}"));
                IconEvent::PageFetched(Some(
                    r#"<link rel="icon" href="/fav.svg"><link rel="apple-touch-icon" href="/touch.png"><link rel="icon" href="/never.png">"#
                        .to_string(),
                ))
            }
        };
        (state, action) = icon_step(feed_url, state, event);
    };
    assert_eq!(
        asked,
        vec![
            "https://example.com/icon.png",
            "page https://example.com/",
            "https://example.com/fav.svg",
            "https://example.com/touch.png",
        ]
    );
    assert_eq!(result, Some((png, "image/png".to_string())));
}

#[test]
fn resolution_falls_back_to_the_favicon_when_the_page_fails() {
    let meta = FeedMeta {
        links: vec![link("https://www.example.com/about", None)],
        icon: None,
        logo: None,
    };
    let (state, action) = icon_start("https://feeds.example.com/rss", &meta);
    assert!(matches!(&action, IconAction::FetchPage(u) if u == "https://www.example.com/about"));
    let (state, action) = icon_step("https://feeds.example.com/rss", state, IconEvent::PageFetched(None));
    assert!(matches!(&action, IconAction::FetchIcon(u) if u == "https://www.example.com/favicon.ico"));
    let (_, action) = icon_step("https://feeds.example.com/rss", state, IconEvent::Fetched(None));
    assert!(matches!(action, IconAction::Finish(None)));
}
