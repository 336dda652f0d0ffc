use chrono::{DateTime, Utc};
use wyrm::models::PostArchive;
use wyrm::newtypes::PostId;
use wyrm::pagination::{by_id, keyset::PaginationCursor};
use wyrm::time::Timestamp;
use wyrm::views::{finish_page, finish_post_page};

fn ts(s: &str) -> Timestamp {
    let dt = s.parse::<DateTime<Utc>>().unwrap();
    Timestamp::from_micros(dt.timestamp_micros()).unwrap()
}

#[test]
fn cursor_roundtrips_microsecond_timestamps() {
    // Sub-millisecond remainder, as produced by Postgres NOW().
    let timestamp = ts("2026-07-05T23:50:29.357711Z");

    let decoded = PaginationCursor::encode(timestamp, 42).decode();

    assert_eq!(decoded, Some((timestamp, 42)));
}

#[test]
fn decode_rejects_malformed_cursors() {
    for raw in ["", "123", "abc:1", "123:xyz", ":"] {
        assert_eq!(PaginationCursor(raw.to_string()).decode(), None);
    }
}

#[test]
fn cursor_text_is_micros_colon_id() {
    let t = Timestamp::from_micros(-1_500_000).unwrap();
    assert_eq!(PaginationCursor::encode(t, -7).0, "-1500000:-7");
    let zero = Timestamp::from_micros(0).unwrap();
    assert_eq!(PaginationCursor::encode(zero, 0).0, "0:0");
    assert_eq!(
        PaginationCursor("+5:+6".to_string()).decode(),
        Some((Timestamp::from_micros(5).unwrap(), 6))
    );
}

#[test]
fn decode_rejects_out_of_range_parts() {
    // The id does not fit an i32.
    assert_eq!(PaginationCursor("1:2147483648".to_string()).decode(), None);
    // chrono cannot represent this instant.
    assert_eq!(PaginationCursor(format!("{}:1", i64::MAX)).decode(), None);
    assert_eq!(Timestamp::from_micros(i64::MAX), None);
}

#[test]
fn id_cursor_round_trips() {
    for id in [0, 17, -3, i32::MAX, i32::MIN] {
        let c = by_id::PaginationCursor::encode(id);
        assert_eq!(c.0, id.to_string());
        assert_eq!(c.decode(), Some(id));
    }
    assert_eq!(by_id::PaginationCursor("x1".to_string()).decode(), None);
}

fn archived(id: i32, at: &str) -> PostArchive {
    PostArchive {
        id: PostId(id),
        title: None,
        url: None,
        authors: None,
        published_at: ts("2026-01-01T00:00:00Z"),
        description: None,
        content: None,
        archived_at: ts(at),
    }
}

#[test]
fn next_page_cursor_resumes_after_the_last_row() {
    let rows = vec![
        archived(3, "2026-03-03T00:00:00Z"),
        archived(2, "2026-02-02T00:00:00Z"),
        archived(1, "2026-01-01T00:00:00Z"),
    ];
    let page = finish_page(rows, 2);
    assert_eq!(page.items.len(), 2);
    assert_eq!(page.items[1].id, PostId(2));
    let cursor = page.next_page.expect("rows were left over");
    assert_eq!(cursor.decode(), Some((ts("2026-02-02T00:00:00Z"), 2)));
}

#[test]
fn last_page_has_no_cursor() {
    let rows = vec![archived(2, "2026-02-02T00:00:00Z"), archived(1, "2026-01-01T00:00:00Z")];
    let page = finish_page(rows, 2);
    assert_eq!(page.items.len(), 2);
    assert!(page.next_page.is_none());
    let empty = finish_page(vec![archived(1, "2026-01-01T00:00:00Z")], 0);
    assert!(empty.items.is_empty());
    assert!(empty.next_page.is_none());
}

#[test]
fn negative_archive_page_size_serves_everything_without_cursor() {
    let rows = vec![archived(2, "2026-02-02T00:00:00Z"), archived(1, "2026-01-01T00:00:00Z")];
    let page = finish_page(rows, -1);
    assert_eq!(page.items.len(), 2);
    assert!(page.next_page.is_none());
}

#[test]
fn post_pages_cut_like_the_archive_for_non_negative_sizes() {
    let rows = vec![
        archived(3, "2026-03-03T00:00:00Z"),
        archived(2, "2026-02-02T00:00:00Z"),
        archived(1, "2026-01-01T00:00:00Z"),
    ];
    let page = finish_post_page(rows.clone(), 2);
    assert_eq!(page.items.len(), 2);
    assert_eq!(
        page.next_page.unwrap().decode(),
        Some((ts("2026-02-02T00:00:00Z"), 2))
    );
    let all = finish_post_page(rows.clone(), 3);
    assert_eq!(all.items.len(), 3);
    assert!(all.next_page.is_none());
    let none = finish_post_page(rows, 0);
    assert!(none.items.is_empty());
    assert!(none.next_page.is_none());
}

#[test]
fn negative_post_page_size_serves_everything_with_the_last_cursor() {
    let rows = vec![archived(2, "2026-02-02T00:00:00Z"), archived(1, "2026-01-01T00:00:00Z")];
    let page = finish_post_page(rows, -5);
    assert_eq!(page.items.len(), 2);
    assert_eq!(
        page.next_page.unwrap().decode(),
        Some((ts("2026-01-01T00:00:00Z"), 1))
    );
    assert!(finish_post_page(Vec::<PostArchive>::new(), -1).next_page.is_none());
}

#[test]
fn following_cursors_serves_every_row_once_even_with_shared_timestamps() {
    // Newest first, several rows sharing a timestamp.
    let all = vec![
        archived(9, "2026-03-03T00:00:00Z"),
        archived(8, "2026-02-02T00:00:00Z"),
        archived(7, "2026-02-02T00:00:00Z"),
        archived(6, "2026-02-02T00:00:00Z"),
        archived(5, "2026-02-02T00:00:00Z"),
        archived(4, "2026-01-01T00:00:00Z"),
        archived(3, "2026-01-01T00:00:00Z"),
    ];
    let key = |p: &PostArchive| (p.archived_at.micros(), p.id.0);
    let mut served = Vec::new();
    let mut cursor: Option<(i64, i32)> = None;
    loop {
        // The listing query: rows after the cursor, at most page size + 1.
        let loaded: Vec<PostArchive> = all
            .iter()
            .filter(|p| match cursor {
                None => true,
                Some(c) => key(p) < c,
            })
            .take(3)
            .cloned()
            .collect();
        let page = finish_post_page(loaded, 2);
        served.extend(page.items.iter().map(|p| p.id.0));
        match page.next_page {
            Some(c) => {
                let (t, id) = c.decode().unwrap();
                cursor = Some((t.micros(), id));
            }
            None => break,
        }
    }
    assert_eq!(served, vec![9, 8, 7, 6, 5, 4, 3]);
}
