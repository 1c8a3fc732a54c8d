use papa_pet::behavior::{ActivitySample, ActivityTracker, Point, PointerTracker};
use papa_pet::export::{export_document, render_html, render_markdown, replace_chars, ClockTime, ExportEntry};
use papa_pet::store::EventStore;
use papa_pet::{Attachment, AttachmentKind, EventType, StoreError, TimelineEvent};

fn event(t: EventType, title: Option<&str>, note: Option<&str>, text: Option<&str>) -> TimelineEvent {
    TimelineEvent {
        id: "e".to_string(),
        event_type: t,
        title: title.map(|s| s.to_string()),
        note: note.map(|s| s.to_string()),
        text_content: text.map(|s| s.to_string()),
        created_at: 0,
        source: None,
        is_deleted: false,
    }
}

fn attachment(kind: AttachmentKind, name: Option<&str>) -> Attachment {
    Attachment {
        id: "a".to_string(),
        event_id: "e".to_string(),
        kind,
        original_path: "/p".to_string(),
        stored_path: None,
        file_name: name.map(|s| s.to_string()),
        mime_type: None,
        size_bytes: None,
        sha256: None,
        width: None,
        height: None,
        created_at: 0,
    }
}

#[test]
fn markdown_of_an_empty_day() {
    assert_eq!(
        render_markdown("2024-01-01", &vec![]),
        "# Daily Record - 2024-01-01\n\n0 records\n\n---\n\n"
    );
}

#[test]
fn markdown_of_one_thought() {
    let entries = vec![ExportEntry {
        event: event(EventType::Thought, None, Some("hi"), Some("")),
        attachments: vec![],
        clock: Some(ClockTime { hour: 9, minute: 5 }),
    }];
    assert_eq!(
        render_markdown("2024-01-01", &entries),
        "# Daily Record - 2024-01-01\n\n1 records\n\n---\n\n## 09:05 💭 Untitled\n\nhi\n\n---\n\n"
    );
}

#[test]
fn markdown_with_text_and_attachments() {
    let entries = vec![ExportEntry {
        event: event(EventType::Image, Some("cat.png"), Some(""), Some("line")),
        attachments: vec![
            attachment(AttachmentKind::Image, Some("cat.png")),
            attachment(AttachmentKind::File, None),
        ],
        clock: None,
    }];
    assert_eq!(
        render_markdown("d", &entries),
        "# Daily Record - d\n\n1 records\n\n---\n\n## ??:?? 🖼️ cat.png\n\n```\nline\n```\n\n**Attachments:**\n- 🖼️ cat.png\n- 📎 Unknown\n\n---\n\n"
    );
}

#[test]
fn replacement_is_left_to_right() {
    let s: Vec<char> = "aaa".chars().collect();
    let from: Vec<char> = "aa".chars().collect();
    let to: Vec<char> = "b".chars().collect();
    assert_eq!(replace_chars(&s, &from, &to), vec!['b', 'a']);
}

#[test]
fn html_wraps_by_substitution() {
    let html = render_html("D", "# A\n## B\n");
    assert!(html.starts_with("<!DOCTYPE html>\n<html>\n<head>\n  <meta charset=\"UTF-8\">\n  <title>Daily Record - D</title>"));
    assert!(html.contains("<body>\n<h1>A<br>\n<h2>B<br>\n\n</body>\n</html>"));
    assert!(html.ends_with("</body>\n</html>"));
}

#[test]
fn document_format_and_file_name() {
    let md = export_document(&"2024-01-01".to_string(), &"md".to_string(), &vec![]);
    assert_eq!(md.file_name, "2024-01-01.md");
    assert_eq!(md.content, render_markdown("2024-01-01", &vec![]));
    let html = export_document(&"2024-01-01".to_string(), &"html".to_string(), &vec![]);
    assert_eq!(html.file_name, "2024-01-01.html");
    assert!(html.content.starts_with("<!DOCTYPE html>"));
    let other = export_document(&"2024-01-01".to_string(), &"txt".to_string(), &vec![]);
    assert_eq!(other.file_name, "2024-01-01.md");
}

#[test]
fn daily_export_rejects_bad_dates() {
    let store = EventStore::new();
    assert_eq!(
        store.render_daily_export(&"2024-13-01".to_string(), &"md".to_string()).err(),
        Some(StoreError::InvalidDate)
    );
    assert_eq!(
        store.render_daily_export(&"yesterday".to_string(), &"md".to_string()).err(),
        Some(StoreError::InvalidDate)
    );
}

#[test]
fn daily_export_is_deterministic() {
    let mut store = EventStore::new();
    let mid_2024 = 1_704_110_400_000i64;
    store
        .insert_text_event("a".to_string(), None, None, None, &"e1".to_string(), &"r".to_string(), mid_2024)
        .unwrap();
    store
        .insert_text_event("b".to_string(), Some("t".to_string()), None, None, &"e2".to_string(), &"r2".to_string(), mid_2024 - 5)
        .unwrap();
    let first = store.render_daily_export(&"2024-01-01".to_string(), &"md".to_string()).unwrap();
    let second = store.render_daily_export(&"2024-01-01".to_string(), &"md".to_string()).unwrap();
    assert_eq!(first.content, second.content);
    assert_eq!(first.file_name, "2024-01-01.md");
    assert!(first.content.starts_with("# Daily Record - 2024-01-01\n\n"));
}

#[test]
fn pointer_reports_changes_only() {
    let mut t = PointerTracker::new();
    let e = t.observe(Point { x: 1, y: 2 }, false);
    assert!(e.moved && !e.button_changed);
    let e = t.observe(Point { x: 1, y: 2 }, false);
    assert!(!e.moved && !e.button_changed);
    let e = t.observe(Point { x: 1, y: 2 }, true);
    assert!(!e.moved && e.button_changed);
    let e = t.observe(Point { x: 3, y: 2 }, true);
    assert!(e.moved && !e.button_changed);
}

fn sample(now_ms: u64, keys: u64, backspace: bool, x: i32, left: bool) -> ActivitySample {
    ActivitySample { now_ms, keys_down: keys, backspace_down: backspace, at: Point { x, y: 0 }, left_down: left }
}

#[test]
fn activity_counts_and_reports_every_two_seconds() {
    let mut t = ActivityTracker::new(0);
    let s = t.observe(sample(100, 1, false, 0, false));
    assert_eq!((s.dx, s.dy), (0, 0));
    assert!(s.report.is_none());
    t.observe(sample(200, 2, true, 0, false));
    t.observe(sample(300, 1, false, 3, true));
    let s = t.observe(sample(400, 1, false, 7, true));
    assert_eq!(s.dx, 4);
    t.observe(sample(1500, 1, false, 7, true));
    let s = t.observe(sample(2000, 1, false, 7, false));
    let r = s.report.unwrap();
    assert_eq!(r.key_press_count, 2);
    assert_eq!(r.backspace_count, 1);
    assert_eq!(r.mouse_click_count, 1);
    assert_eq!(r.window_ms, 2000);
    assert_eq!(r.idle_ms, 1600);
    assert_eq!(t.key_press_count, 0);
    assert_eq!(t.last_report_ms, 2000);
    assert!(t.observe(sample(3999, 1, false, 7, false)).report.is_none());
    let r = t.observe(sample(4000, 1, false, 7, false)).report.unwrap();
    assert_eq!(r.key_press_count, 0);
    assert_eq!(r.idle_ms, 3600);
}

#[test]
fn day_includes_its_last_millisecond() {
    let mut store = EventStore::new();
    store
        .insert_text_event("edge".to_string(), None, None, None, &"e1".to_string(), &"r".to_string(), 1999)
        .unwrap();
    store
        .insert_text_event("after".to_string(), None, None, None, &"e2".to_string(), &"r2".to_string(), 2000)
        .unwrap();
    store
        .insert_text_event("before".to_string(), None, None, None, &"e3".to_string(), &"r3".to_string(), 99)
        .unwrap();
    let doc = store.render_day(&"d".to_string(), &"md".to_string(), 100, 1000);
    assert!(doc.content.starts_with("# Daily Record - d\n\n1 records\n\n---\n\n## "));
    assert!(doc.content.contains("edge"));
    assert!(!doc.content.contains("after"));
    assert!(!doc.content.contains("before"));
    assert_eq!(doc.file_name, "d.md");
}

#[test]
fn second_level_headings_become_h2() {
    let html = render_html("D", "## a");
    assert!(html.contains("<body>\n<h2>a\n</body>"));
}
