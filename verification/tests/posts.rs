use chrono::{DateTime, Utc};
use feed_rs::parser;
use wyrm::api::parse_comma_sep_feed_ids;
use wyrm::feed::{Entry, Link, Person};
use wyrm::models::PostInsertForm;
use wyrm::newtypes::FeedId;
use wyrm::time::Timestamp;

fn exclude(raw: Option<&str>) -> Option<Vec<FeedId>> {
    parse_comma_sep_feed_ids(raw).expect("query should parse")
}

#[test]
fn exclude_parses_comma_separated_feed_ids() {
    assert_eq!(exclude(Some("3,7,12")), Some(vec![FeedId(3), FeedId(7), FeedId(12)]));
}

#[test]
fn exclude_single_id() {
    assert_eq!(exclude(Some("5")), Some(vec![FeedId(5)]));
}

#[test]
fn exclude_absent_is_none() {
    assert_eq!(exclude(None), None);
}

#[test]
fn exclude_empty_string_is_none() {
    assert_eq!(exclude(Some("")), None);
}

#[test]
fn exclude_tolerates_surrounding_whitespace() {
    // Spaces around the middle id, as `exclude=3,%207%20,12` decodes.
    assert_eq!(
        exclude(Some("3, 7 ,12")),
        Some(vec![FeedId(3), FeedId(7), FeedId(12)])
    );
}

#[test]
fn exclude_rejects_non_numeric() {
    assert!(parse_comma_sep_feed_ids(Some("3,abc")).is_err());
}

#[test]
fn exclude_reports_the_offending_piece() {
    let err = parse_comma_sep_feed_ids(Some(" 1,, 2")).unwrap_err();
    assert_eq!(err.0, "");
    let err = parse_comma_sep_feed_ids(Some("1, 99999999999 ")).unwrap_err();
    assert_eq!(err.0, "99999999999");
    assert_eq!(exclude(Some("   ")), None);
    assert_eq!(exclude(Some("+4,-2")), Some(vec![FeedId(4), FeedId(-2)]));
}

fn ts(dt: DateTime<Utc>) -> Timestamp {
    Timestamp::from_micros(dt.timestamp_micros()).unwrap()
}

/// The entry as the library sees it, read off the parser's model.
fn to_entry(e: feed_rs::model::Entry) -> Entry {
    Entry {
        title: e.title.map(|t| t.content),
        links: e
            .links
            .into_iter()
            .map(|l| Link { href: l.href, rel: l.rel })
            .collect(),
        authors: e
            .authors
            .into_iter()
            .map(|p| Person { name: p.name.unwrap_or_default(), email: p.email })
            .collect(),
        published: e.published.map(ts),
        updated: e.updated.map(ts),
        summary: e.summary.map(|s| s.content),
        content: e.content.and_then(|c| c.body),
        media_descriptions: e
            .media
            .into_iter()
            .map(|m| m.description.map(|d| d.content))
            .collect(),
    }
}

fn atom_entry(entry_body: &str) -> Entry {
    let xml = [
        r#"<?xml version="1.0" encoding="utf-8"?>"#,
        r#"<feed xmlns="http://www.w3.org/2005/Atom" xmlns:media="http://search.yahoo.com/mrss/">"#,
        "<title>Test Feed</title><id>urn:feed</id><updated>2026-01-01T00:00:00Z</updated>",
        "<entry>",
        entry_body,
        "</entry>",
        "</feed>",
    ]
    .concat();
    let parsed = parser::parse(xml.as_bytes())
        .expect("fixture should parse")
        .entries
        .into_iter()
        .next()
        .expect("fixture should contain an entry");
    to_entry(parsed)
}

#[test]
fn maps_entry_fields() {
    let entry = atom_entry(&[
        "<id>urn:1</id><title>Hello World</title>",
        r#"<link href="https://example.com/post/1"/>"#,
        "<published>2026-01-02T03:04:05Z</published>",
        "<author><name>Jane Doe</name><email>jane@example.com</email></author>",
        "<summary>A short summary.</summary>",
        "<content>Full body.</content>",
    ].concat());

    let form = PostInsertForm::from_entry(entry, FeedId(42));

    assert_eq!(form.feed_id, FeedId(42));
    assert_eq!(form.title.as_deref(), Some("Hello World"));
    assert_eq!(form.url.as_deref(), Some("https://example.com/post/1"));
    assert_eq!(form.authors.as_deref(), Some("Jane Doe (jane@example.com)"));
    assert_eq!(form.description.as_deref(), Some("A short summary."));
    assert_eq!(form.content.as_deref(), Some("Full body."));
    assert_eq!(
        form.published_at,
        Some(ts("2026-01-02T03:04:05Z".parse::<DateTime<Utc>>().unwrap())),
    );
}

#[test]
fn media_feed_entry_uses_media_description() {
    let entry = atom_entry(&[
        "<id>urn:video:1</id>",
        "<title>Test Video</title>",
        r#"<link rel="alternate" href="https://example.com/video/1"/>"#,
        "<author><name>Test Author</name><uri>https://example.com/author</uri></author>",
        "<published>2026-01-02T03:04:05Z</published>",
        "<media:group>",
        "<media:title>Test Video</media:title>",
        r#"<media:content url="https://example.com/video/1.mp4" type="video/mp4"/>"#,
        r#"<media:thumbnail url="https://example.com/video/1.jpg"/>"#,
        "<media:description>Test description.</media:description>",
        "</media:group>",
    ].concat());

    let form = PostInsertForm::from_entry(entry, FeedId(7));

    assert_eq!(form.title.as_deref(), Some("Test Video"));
    assert_eq!(form.url.as_deref(), Some("https://example.com/video/1"));
    assert_eq!(form.authors.as_deref(), Some("Test Author"));
    assert_eq!(form.description.as_deref(), Some("Test description."));
    assert_eq!(form.content, None);
}

#[test]
fn several_authors_are_joined_in_order() {
    let entry = Entry {
        title: None,
        links: vec![],
        authors: vec![
            Person { name: "A".to_string(), email: None },
            Person { name: "B".to_string(), email: Some("b@x".to_string()) },
            Person { name: "C".to_string(), email: None },
        ],
        published: None,
        updated: None,
        summary: None,
        content: None,
        media_descriptions: vec![None, Some("second".to_string())],
    };
    let form = PostInsertForm::from_entry(entry, FeedId(1));
    assert_eq!(form.authors.as_deref(), Some("A, B (b@x), C"));
    assert_eq!(form.url, None);
    // Only the first media object's description counts.
    assert_eq!(form.description, None);
    assert!(form.created_at.is_none());
}
