use std::collections::HashMap;
use wyrm::api::{
    icon_body, mark_read_scope, to_filters, url_change, CreateFeed, CursorQuery, MarkReadScope,
    UpdateFeed, UpdateSettings, UrlChange,
};
use wyrm::desktop::{base_url, generate_api_key, key_from_draws, is_internal_navigation, validate_video_id, youtube_embed_html};
use wyrm::error::{DatabaseError, TemplateError, WyrmError};
use wyrm::filter::CompiledFilters;
use wyrm::http::{chunk_exceeds_cap, declared_length_too_large, media_type, HttpConfig, MAX_RESPONSE_BYTES};
use wyrm::icon::RETRY_MISSING_AFTER_MICROS;
use wyrm::models::{
    archive_insert_form, drop_expired, expired_lookup_keys, folder_name, needs_icon_lookup,
    normalize_name, tombstones, Feed, FeedIcon, Folder, Post, PostInsertForm, Webhook, WebhookKind,
};
use wyrm::newtypes::{FeedId, Filters, FolderId, PostId, WebhookId};
use wyrm::opml::{export_outlines, import_outcome, import_plan, Outline};
use wyrm::settings::{ReadMode, RuntimeSettings, Settings};
use wyrm::time::{minutes_between, Timestamp};
use wyrm::views::{feed_views, feed_webhook_views, folders_by_feed, webhooks_by_feed};

fn at(us: i64) -> Timestamp {
    Timestamp::from_micros(us).unwrap()
}

const MINUTE: i64 = 60_000_000;

fn feed(id: i32, title: &str, url: &str, folder: Option<i32>) -> Feed {
    Feed {
        id: FeedId(id),
        title: title.to_string(),
        url: url.to_string(),
        ttl: 30,
        filters: Filters::default(),
        last_fetched_at: None,
        created_at: at(0),
        folder_id: folder.map(FolderId),
        is_paused: false,
    }
}

fn form(feed_id: i32, url: Option<&str>) -> PostInsertForm {
    PostInsertForm {
        feed_id: FeedId(feed_id),
        title: None,
        url: url.map(|u| u.to_string()),
        authors: None,
        published_at: None,
        updated_at: None,
        description: None,
        content: None,
        created_at: None,
    }
}

fn post(id: i32, archived: bool) -> Post {
    Post {
        id: PostId(id),
        feed_id: FeedId(1),
        title: Some("t".to_string()),
        url: Some("https://example.com/p".to_string()),
        authors: None,
        published_at: at(5),
        updated_at: None,
        description: Some("d".to_string()),
        content: None,
        bookmarked: false,
        is_read: true,
        is_archived: archived,
        created_at: at(6),
    }
}

#[test]
fn minutes_between_truncates_toward_zero() {
    assert_eq!(minutes_between(at(0), at(59 * MINUTE / 60 * 60 + 59_999_999)), 59);
    assert_eq!(minutes_between(at(0), at(90 * MINUTE)), 90);
    assert_eq!(minutes_between(at(0), at(MINUTE - 1)), 0);
    assert_eq!(minutes_between(at(MINUTE + 1), at(0)), -1);
    assert_eq!(minutes_between(at(2 * MINUTE), at(0)), -2);
}

#[test]
fn feed_is_due_after_its_ttl() {
    let mut f = feed(1, "a", "https://a.example/feed", None);
    assert!(f.is_due_at(at(0)));
    assert_eq!(f.is_due(), Some(true));
    f.last_fetched_at = Some(at(0));
    assert!(!f.is_due_at(at(30 * MINUTE - 1)));
    assert!(f.is_due_at(at(30 * MINUTE)));
    assert!(!f.is_due_at(at(-MINUTE)));
}

#[test]
fn timestamps_from_millis() {
    assert_eq!(Timestamp::from_millis(1_500).unwrap().micros(), 1_500_000);
    assert_eq!(Timestamp::from_millis(i64::MAX), None);
    let now = Timestamp::now().unwrap().micros();
    assert!(now > 1_600_000_000_000_000);
}

#[test]
fn folder_names_are_trimmed_and_blank_ones_refused() {
    assert_eq!(normalize_name("  News \t").unwrap(), "News");
    assert!(matches!(normalize_name("   "), Err(WyrmError::EmptyFolderName)));
    assert!(matches!(normalize_name(""), Err(WyrmError::EmptyFolderName)));
    assert_eq!(folder_name(Some(" Tech ")), Some("Tech".to_string()));
    assert_eq!(folder_name(Some("  ")), None);
    assert_eq!(folder_name(None), None);
    // Unicode whitespace counts as whitespace, as `str::trim` has it.
    assert_eq!(normalize_name("\u{3000}Video\u{a0}").unwrap(), "Video");
}

#[test]
fn archiving_copies_the_post_and_refuses_a_second_time() {
    let f = archive_insert_form(post(9, false)).unwrap();
    assert_eq!(f.id, PostId(9));
    assert_eq!(f.title.as_deref(), Some("t"));
    assert_eq!(f.url.as_deref(), Some("https://example.com/p"));
    assert_eq!(f.published_at, at(5));
    assert_eq!(f.description.as_deref(), Some("d"));
    match archive_insert_form(post(9, true)) {
        Err(WyrmError::Database(DatabaseError::Conflict(m))) => assert_eq!(m, "post already archived"),
        other => panic!("unexpected: {other:?}"),
    }
}

#[test]
fn expired_posts_do_not_come_back() {
    let forms = vec![
        form(1, Some("https://a/1")),
        form(1, Some("https://a/2")),
        form(2, Some("https://a/1")),
        form(1, None),
    ];
    let (ids, urls) = expired_lookup_keys(&forms);
    assert_eq!(ids, vec![FeedId(1), FeedId(1), FeedId(2), FeedId(1)]);
    assert_eq!(urls, vec!["https://a/1", "https://a/2", "https://a/1"]);
    let expired = vec![(FeedId(1), "https://a/1".to_string())];
    let kept = drop_expired(forms, &expired);
    let kept: Vec<(i32, Option<String>)> = kept.into_iter().map(|f| (f.feed_id.0, f.url)).collect();
    assert_eq!(
        kept,
        vec![
            (1, Some("https://a/2".to_string())),
            (2, Some("https://a/1".to_string())),
            (1, None)
        ]
    );
}

#[test]
fn tombstones_skip_rows_without_url() {
    let t = tombstones(vec![
        (FeedId(1), Some("https://a/1".to_string())),
        (FeedId(2), None),
        (FeedId(3), Some("https://c/3".to_string())),
    ]);
    let t: Vec<(i32, String)> = t.into_iter().map(|f| (f.feed_id.0, f.url)).collect();
    assert_eq!(t, vec![(1, "https://a/1".to_string()), (3, "https://c/3".to_string())]);
}

#[test]
fn icon_lookup_cadence() {
    assert!(needs_icon_lookup(&None, at(0)));
    let found = FeedIcon {
        feed_id: FeedId(1),
        data: Some(vec![1, 2]),
        content_type: None,
        checked_at: at(0),
    };
    assert!(!needs_icon_lookup(&Some(found.clone()), at(10 * RETRY_MISSING_AFTER_MICROS)));
    let missing = FeedIcon { data: None, ..found };
    assert!(!needs_icon_lookup(&Some(missing.clone()), at(RETRY_MISSING_AFTER_MICROS - 1)));
    assert!(needs_icon_lookup(&Some(missing), at(RETRY_MISSING_AFTER_MICROS)));
}

#[test]
fn icon_body_defaults_the_content_type() {
    let icon = FeedIcon { feed_id: FeedId(1), data: Some(vec![7]), content_type: None, checked_at: at(0) };
    assert_eq!(icon_body(Some(icon.clone())), Some((vec![7], "image/x-icon".to_string())));
    let png = FeedIcon { content_type: Some("image/png".to_string()), ..icon.clone() };
    assert_eq!(icon_body(Some(png)), Some((vec![7], "image/png".to_string())));
    assert_eq!(icon_body(Some(FeedIcon { data: None, ..icon })), None);
    assert_eq!(icon_body(None), None);
}

fn outline(text: &str, url: Option<&str>, children: Vec<Outline>) -> Outline {
    Outline {
        text: text.to_string(),
        title: text.to_string(),
        kind: url.map(|_| "rss".to_string()),
        xml_url: url.map(|u| u.to_string()),
        children,
    }
}

#[test]
fn import_plan_files_children_under_their_folder() {
    let doc = vec![
        outline("Solo", Some("https://solo/feed"), vec![]),
        outline(
            "Videos",
            None,
            vec![
                outline("A", Some("https://a/feed"), vec![]),
                outline("Not a feed", None, vec![outline("Deep", Some("https://deep/feed"), vec![])]),
                outline("B", Some("https://b/feed"), vec![]),
            ],
        ),
    ];
    let plan: Vec<(String, String, Option<String>, i32, bool)> = import_plan(&doc)
        .into_iter()
        .map(|f| (f.title, f.url, f.folder, f.ttl, f.filters.is_none()))
        .collect();
    assert_eq!(
        plan,
        vec![
            ("Solo".to_string(), "https://solo/feed".to_string(), None, 60, true),
            ("A".to_string(), "https://a/feed".to_string(), Some("Videos".to_string()), 60, true),
            ("B".to_string(), "https://b/feed".to_string(), Some("Videos".to_string()), 60, true),
        ]
    );
}

#[test]
fn export_groups_feeds_by_folder_then_standalone() {
    let folders = vec![
        Folder { id: FolderId(1), name: "News".to_string() },
        Folder { id: FolderId(2), name: "Tech".to_string() },
    ];
    let feeds = vec![
        feed(1, "Alone", "https://alone/feed", None),
        feed(2, "T1", "https://t1/feed", Some(2)),
        feed(3, "N1", "https://n1/feed", Some(1)),
        feed(4, "T2", "https://t2/feed", Some(2)),
        feed(5, "Orphan", "https://orphan/feed", Some(9)),
    ];
    let out = export_outlines(&feeds, &folders);
    assert_eq!(out.len(), 4);
    assert_eq!(out[0].text, "Tech");
    assert_eq!(out[0].xml_url, None);
    let tech: Vec<&str> = out[0].children.iter().map(|c| c.title.as_str()).collect();
    assert_eq!(tech, vec!["T1", "T2"]);
    assert_eq!(out[1].title, "News");
    assert_eq!(out[1].children[0].xml_url.as_deref(), Some("https://n1/feed"));
    assert_eq!(out[1].children[0].kind.as_deref(), Some("rss"));
    assert_eq!(out[2].text, "Alone");
    assert_eq!(out[3].xml_url.as_deref(), Some("https://orphan/feed"));
    assert!(out[3].children.is_empty());

    // Importing the export gives every feed back with its folder.
    let mut back: Vec<(String, String, Option<String>)> =
        import_plan(&out).into_iter().map(|f| (f.title, f.url, f.folder)).collect();
    back.sort();
    let mut expected = vec![
        ("Alone".to_string(), "https://alone/feed".to_string(), None),
        ("N1".to_string(), "https://n1/feed".to_string(), Some("News".to_string())),
        ("Orphan".to_string(), "https://orphan/feed".to_string(), None),
        ("T1".to_string(), "https://t1/feed".to_string(), Some("Tech".to_string())),
        ("T2".to_string(), "https://t2/feed".to_string(), Some("Tech".to_string())),
    ];
    expected.sort();
    assert_eq!(back, expected);
}

#[test]
fn http_rules() {
    assert_eq!(media_type(" Application/RSS+XML ; charset=utf-8"), "application/rss+xml");
    assert_eq!(media_type("text/html"), "text/html");
    assert_eq!(media_type(""), "");
    assert!(declared_length_too_large(Some(MAX_RESPONSE_BYTES as u64 + 1)));
    assert!(!declared_length_too_large(Some(MAX_RESPONSE_BYTES as u64)));
    assert!(!declared_length_too_large(None));
    assert!(!chunk_exceeds_cap(MAX_RESPONSE_BYTES - 10, 10));
    assert!(chunk_exceeds_cap(MAX_RESPONSE_BYTES - 10, 11));
    assert!(chunk_exceeds_cap(0, usize::MAX));
}

fn settings() -> Settings {
    Settings {
        is_singleton: true,
        page_size: 50,
        feed_poll_interval_secs: 300,
        http_timeout: 30,
        http_connect_timeout: 10,
        http_retries: 3,
        http_user_agent: Some("wyrm-test/1.0".to_string()),
        read_mode: ReadMode::OnOpen,
        expire_read_after_days: Some(30),
        expire_unread_after_days: None,
    }
}

#[test]
fn runtime_settings_and_client_config() {
    let rt = RuntimeSettings::from(&settings());
    assert_eq!(rt.page_size, 50);
    assert_eq!(rt.feed_poll_interval_secs, 300);
    assert_eq!(rt.expire_read_after_days, Some(30));
    let c = HttpConfig::from(&rt);
    assert_eq!(c.timeout, 30);
    assert_eq!(c.connect_timeout, 10);
    assert_eq!(c.retries, 3);
    assert_eq!(c.user_agent.as_deref(), Some("wyrm-test/1.0"));
    let negative = RuntimeSettings { http_timeout: -1, ..rt };
    assert_eq!(HttpConfig::from_runtime(&negative).timeout, u64::MAX);
}

#[test]
fn settings_update_carries_every_field() {
    let u = UpdateSettings {
        page_size: Some(10),
        feed_poll_interval_secs: None,
        read_mode: Some(ReadMode::Manually),
        http_timeout: None,
        http_connect_timeout: Some(4),
        http_retries: None,
        http_user_agent: None,
        expire_read_after_days: Some(7),
        expire_unread_after_days: None,
    }
    .into_update_form();
    assert_eq!(u.page_size, Some(10));
    assert_eq!(u.read_mode, Some(ReadMode::Manually));
    assert_eq!(u.http_connect_timeout, Some(4));
    assert_eq!(u.expire_read_after_days, Some(7));
    assert_eq!(u.http_user_agent, None);
}

#[test]
fn desktop_rules() {
    assert_eq!(base_url(8080), "http://127.0.0.1:8080");
    assert_eq!(base_url(0), "http://127.0.0.1:0");
    assert!(is_internal_navigation("tauri", Some("localhost"), "/", false));
    assert!(is_internal_navigation("http", Some("127.0.0.1"), "/api", false));
    assert!(is_internal_navigation("https", Some("www.youtube.com"), "/embed/abc", false));
    assert!(!is_internal_navigation("https", Some("www.youtube.com"), "/watch", false));
    assert!(!is_internal_navigation("http", Some("localhost"), "/", false));
    assert!(is_internal_navigation("http", Some("localhost"), "/", true));
    assert!(!is_internal_navigation("https", None, "/", true));
    assert!(validate_video_id("dQw4w9WgXcQ"));
    assert!(validate_video_id("a-b_c-d_e-f"));
    assert!(!validate_video_id("dQw4w9WgXc"));
    assert!(!validate_video_id("dQw4w9WgXc!"));
    assert!(!validate_video_id("dQw4w9WgXcé"));
    let page = youtube_embed_html("dQw4w9WgXcQ").unwrap();
    assert!(page.contains("src=\"https://www.youtube.com/embed/dQw4w9WgXcQ\""));
    assert!(page.starts_with("<!DOCTYPE html>"));
    assert_eq!(youtube_embed_html("<script>x"), None);
}

#[test]
fn api_rules() {
    let q = CursorQuery { timestamp: Some(1_700_000_000_000), post_id: Some(3) };
    let (t, id) = q.to_cursor().unwrap();
    assert_eq!((t.micros(), id), (1_700_000_000_000_000, 3));
    assert!(CursorQuery { timestamp: None, post_id: Some(3) }.to_cursor().is_none());
    assert!(CursorQuery { timestamp: Some(1), post_id: None }.to_cursor().is_none());

    assert!(matches!(url_change(None, "https://a"), UrlChange::Keep));
    assert!(matches!(url_change(Some("https://a".to_string()), "https://a"), UrlChange::Unchanged(u) if u == "https://a"));
    assert!(matches!(url_change(Some("https://b".to_string()), "https://a"), UrlChange::Resolve(u) if u == "https://b"));

    let f = to_filters(Some(vec!["url:/shorts".to_string(), "spam".to_string()])).unwrap();
    assert_eq!(f.0, vec![Some("url:/shorts".to_string()), Some("spam".to_string())]);
    assert!(to_filters(None).is_none());

    assert_eq!(mark_read_scope(Some(FeedId(1)), Some(FolderId(2))), MarkReadScope::Feed(FeedId(1)));
    assert_eq!(mark_read_scope(None, Some(FolderId(2))), MarkReadScope::Folder(FolderId(2)));
    assert_eq!(mark_read_scope(None, None), MarkReadScope::All);

    let c = CreateFeed {
        title: "T".to_string(),
        url: "https://site".to_string(),
        ttl: 15,
        folder: Some("News".to_string()),
        filters: Some(vec!["x".to_string()]),
    }
    .into_insert_form("https://site/feed.xml".to_string());
    assert_eq!(c.url, "https://site/feed.xml");
    assert_eq!(c.ttl, 15);
    assert_eq!(c.filters.unwrap().0, vec![Some("x".to_string())]);

    let u = UpdateFeed { title: None, url: None, ttl: Some(5), folder: Some(None), filters: None }
        .into_update_form(FeedId(4), Some("https://n".to_string()));
    assert_eq!(u.id, FeedId(4));
    assert_eq!(u.ttl, Some(5));
    assert_eq!(u.folder, Some(None));
    assert_eq!(u.url.as_deref(), Some("https://n"));
    assert!(u.is_paused.is_none() && u.last_fetched_at.is_none());
}

fn webhook(id: i32) -> Webhook {
    Webhook {
        id: WebhookId(id),
        name: format!("hook {id}"),
        url: "https://hooks.example".to_string(),
        kind: WebhookKind::Discord,
        payload_template: None,
        created_at: at(0),
    }
}

#[test]
fn views_assemble_rows() {
    let rows = vec![(feed(1, "a", "u1", None), 3i64), (feed(2, "b", "u2", None), 0)];
    let v = feed_views(rows, &[FeedId(2)]);
    assert_eq!(v.len(), 2);
    assert_eq!((v[0].feed.id, v[0].unread_count, v[0].has_icon), (FeedId(1), 3, false));
    assert_eq!((v[1].feed.id, v[1].unread_count, v[1].has_icon), (FeedId(2), 0, true));

    let w = feed_webhook_views(vec![(webhook(1), true), (webhook(2), false)]);
    assert_eq!((w[0].webhook.id, w[0].attached), (WebhookId(1), true));
    assert_eq!((w[1].webhook.id, w[1].attached), (WebhookId(2), false));

    let by_feed: HashMap<i32, Vec<Webhook>> = webhooks_by_feed(vec![
        (FeedId(1), webhook(1)),
        (FeedId(2), webhook(2)),
        (FeedId(1), webhook(3)),
    ]);
    let ids: Vec<WebhookId> = by_feed[&1].iter().map(|w| w.id).collect();
    assert_eq!(ids, vec![WebhookId(1), WebhookId(3)]);
    assert_eq!(by_feed[&2].len(), 1);
    assert!(!by_feed.contains_key(&3));

    let folders = folders_by_feed(vec![
        (FeedId(1), Folder { id: FolderId(1), name: "A".to_string() }),
        (FeedId(1), Folder { id: FolderId(2), name: "B".to_string() }),
    ]);
    assert_eq!(folders[&1].id, FolderId(2));
    assert_eq!(folders.len(), 1);
}

#[test]
fn patterns_are_lowercased_with_unicode_rules() {
    let owned = vec![Some("title:ÜBER ΑΣ".to_string())];
    let f = CompiledFilters::new(&owned);
    assert!(f.excludes_fields("", "all über ας", "", ""));
    assert!(!f.excludes_fields("", "all ÜBER ΑΣ", "", ""));
}

#[test]
fn template_errors_read_as_before() {
    assert_eq!(TemplateError::Missing.message(), "custom webhook requires a payload template");
    assert_eq!(
        TemplateError::UnknownVar("title".to_string()).message(),
        "unknown template variable `${title}`"
    );
    assert_eq!(
        TemplateError::UnterminatedToken("a ${b".to_string()).message(),
        "unterminated `${` in template string `a ${b`"
    );
    assert_eq!(
        TemplateError::NonScalarInString("tags".to_string()).message(),
        "cannot embed array/object variable `${tags}` inside a string; use it as the whole value instead"
    );
    assert_eq!(
        TemplateError::InvalidJson("EOF".to_string()).message(),
        "template is not valid JSON: EOF"
    );
}

#[test]
fn normalizing_a_normalized_name_changes_nothing() {
    for raw in ["  News ", "\tA  B\n", "x", "\u{2003}Émission\u{2003}"] {
        let once = normalize_name(raw).unwrap();
        assert_eq!(normalize_name(&once).unwrap(), once);
    }
}

#[test]
fn a_due_feed_stays_due() {
    let mut f = feed(1, "a", "https://a.example/feed", None);
    f.last_fetched_at = Some(at(0));
    for later in [30 * MINUTE, 31 * MINUTE, 1_000 * MINUTE] {
        assert!(f.is_due_at(at(later)));
    }
}

#[test]
fn import_skips_duplicates_and_stops_on_other_errors() {
    let f = feed(1, "a", "https://a/feed", None);
    assert!(import_outcome(Ok(f)).is_ok());
    assert!(import_outcome(Err(WyrmError::Database(DatabaseError::UniqueViolation("url".to_string())))).is_ok());
    assert!(matches!(
        import_outcome(Err(WyrmError::EmptyFolderName)),
        Err(WyrmError::EmptyFolderName)
    ));
    assert!(matches!(
        import_outcome(Err(WyrmError::Database(DatabaseError::Conflict("x".to_string())))),
        Err(WyrmError::Database(DatabaseError::Conflict(m))) if m == "x"
    ));
}

#[test]
fn api_keys_are_32_ascii_alphanumerics() {
    let a = generate_api_key().unwrap();
    let b = generate_api_key().unwrap();
    assert_eq!(a.len(), 32);
    assert!(a.chars().all(|c| c.is_ascii_alphanumeric()));
    assert_ne!(a, b);
}

#[test]
fn is_due_reads_the_clock_only_for_fetched_feeds() {
    let mut f = feed(1, "a", "https://a.example/feed", None);
    assert_eq!(f.is_due(), Some(true));
    f.last_fetched_at = Some(at(0));
    assert_eq!(f.is_due(), Some(true));
    f.last_fetched_at = Timestamp::now();
    f.ttl = 60;
    assert_eq!(f.is_due(), Some(false));
}

#[test]
fn timestamps_cover_exactly_chronos_range() {
    assert!(Timestamp::from_micros(-8_334_601_228_800_000_000).is_some());
    assert!(Timestamp::from_micros(-8_334_601_228_800_000_001).is_none());
    assert!(Timestamp::from_micros(8_210_266_876_799_999_999).is_some());
    assert!(Timestamp::from_micros(8_210_266_876_800_000_000).is_none());
    assert!(Timestamp::from_millis(-8_334_601_228_800_000).is_some());
    assert!(Timestamp::from_millis(-8_334_601_228_800_001).is_none());
    assert!(Timestamp::from_millis(8_210_266_876_799_999).is_some());
    assert!(Timestamp::from_millis(8_210_266_876_800_000).is_none());
}

#[test]
fn keys_spell_their_draws() {
    assert_eq!(key_from_draws(b"aZ09"), "aZ09");
    assert_eq!(key_from_draws(b""), "");
}

#[test]
fn clock_readings_become_timestamps_within_range() {
    assert_eq!(Timestamp::from_clock_micros(0).unwrap().micros(), 0);
    assert_eq!(Timestamp::from_clock_micros(1_700_000_000_000_123).unwrap().micros(), 1_700_000_000_000_123);
    assert!(Timestamp::from_clock_micros(8_210_266_876_799_999_999).is_some());
    assert!(Timestamp::from_clock_micros(8_210_266_876_800_000_000).is_none());
    assert!(Timestamp::from_clock_micros(u128::MAX).is_none());
}
