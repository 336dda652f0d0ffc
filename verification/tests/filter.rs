use wyrm::filter::{parse_filter, CompiledFilters, FilterScope};
use wyrm::feed::{Entry, Link};

fn compiled(raw: &[&str]) -> CompiledFilters {
    let owned: Vec<Option<String>> = raw.iter().map(|f| Some(f.to_string())).collect();
    CompiledFilters::new(&owned)
}

#[test]
fn parse_filter_scoped_prefixes() {
    assert_eq!(parse_filter("url:/shorts"), (FilterScope::Url, "/shorts"));
    assert_eq!(
        parse_filter("title:sponsored"),
        (FilterScope::Title, "sponsored")
    );
    assert_eq!(
        parse_filter("content:crypto"),
        (FilterScope::Content, "crypto")
    );
}

#[test]
fn parse_filter_bare_pattern_matches_all() {
    assert_eq!(parse_filter("sponsored"), (FilterScope::All, "sponsored"));
}

#[test]
fn parse_filter_unknown_prefix_keeps_colon() {
    assert_eq!(
        parse_filter("https://example.com"),
        (FilterScope::All, "https://example.com")
    );
    assert_eq!(parse_filter("titel:typo"), (FilterScope::All, "titel:typo"));
}

#[test]
fn url_scope_ignores_other_fields() {
    let f = compiled(&["url:/shorts"]);
    assert!(f.excludes_fields("https://youtube.com/shorts/abc", "a title", "", ""));
    assert!(!f.excludes_fields(
        "https://youtube.com/watch?v=1",
        "watch /shorts later",
        "/shorts",
        ""
    ));
}

#[test]
fn content_scope_matches_summary_or_body() {
    let f = compiled(&["content:crypto"]);
    assert!(f.excludes_fields("", "", "all about crypto", ""));
    assert!(f.excludes_fields("", "", "", "<p>crypto</p>"));
    assert!(!f.excludes_fields("https://crypto.example", "crypto news", "", ""));
}

#[test]
fn bare_pattern_matches_any_field() {
    // excludes_fields expects pre-lowercased haystacks, as produced by excludes.
    let f = compiled(&["sponsored"]);
    assert!(f.excludes_fields("", "sponsored: new gadget", "", ""));
    assert!(f.excludes_fields("", "", "", "this post is sponsored"));
    assert!(!f.excludes_fields("https://example.com", "a title", "text", "body"));
}

#[test]
fn matching_is_case_insensitive() {
    let f = compiled(&["title:SPONSORED"]);
    assert!(f.excludes_fields("", "sponsored content", "", ""));
}

#[test]
fn no_filters_excludes_nothing() {
    let f = CompiledFilters::new(&[]);
    assert!(!f.excludes_fields("url", "title", "summary", "body"));
}

fn entry(url: &str, title: &str, summary: Option<&str>, body: Option<&str>) -> Entry {
    Entry {
        title: Some(title.to_string()),
        links: vec![Link { href: url.to_string(), rel: None }],
        authors: vec![],
        published: None,
        updated: None,
        summary: summary.map(|s| s.to_string()),
        content: body.map(|s| s.to_string()),
        media_descriptions: vec![],
    }
}

#[test]
fn excludes_lowercases_the_entry_text() {
    let f = compiled(&["title:sponsored"]);
    assert!(f.excludes(&entry("https://a.example", "SPONSORED: Gadget", None, None)));
    assert!(!f.excludes(&entry("https://a.example", "Gadget review", Some("sponsored"), None)));
}

#[test]
fn excludes_reads_the_first_link_as_url() {
    let f = compiled(&["url:/shorts/"]);
    assert!(f.excludes(&entry("https://YouTube.com/Shorts/x", "clip", None, None)));
    let mut e = entry("https://youtube.com/watch?v=1", "clip", None, None);
    e.links.push(Link { href: "https://youtube.com/shorts/2".to_string(), rel: None });
    assert!(!f.excludes(&e));
}

#[test]
fn absent_filters_are_skipped_and_an_empty_pattern_matches_everything() {
    let f = CompiledFilters::new(&[None, None]);
    assert!(!f.excludes(&entry("https://example.com", "title", Some("s"), Some("b"))));
    let g = CompiledFilters::new(&[None, Some("url:".to_string())]);
    assert!(g.excludes_fields("https://example.com", "title", "summary", "body"));
}

#[test]
fn any_matching_filter_excludes() {
    let f = compiled(&["title:nothing-here", "content:crypto"]);
    assert!(f.excludes_fields("", "", "", "crypto"));
    assert!(!f.excludes_fields("", "crypto", "", ""));
}
