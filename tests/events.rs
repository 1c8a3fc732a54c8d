use papa_pet::store::{DropRequest, DroppedFile, EventStore};
use papa_pet::{AttachmentKind, EventSource, EventType, StoreError};

fn file(path: &str, content: Option<&[u8]>) -> DroppedFile {
    DroppedFile {
        path: path.to_string(),
        size_bytes: content.map(|c| c.len() as i64),
        content: content.map(|c| c.to_vec()),
    }
}

fn request(files: Vec<DroppedFile>) -> DropRequest {
    DropRequest { files, note: None, remind_at: None, remind_message: None }
}

#[test]
fn drop_yields_one_event_and_one_attachment_per_path() {
    let mut store = EventStore::new();
    let req = request(vec![file("/home/u/cat.JPG", Some(b"")), file("/home/u/notes.txt", None)]);
    let out = store.create_drop_event(&req).unwrap();
    assert_eq!(store.events.len(), 1);
    assert_eq!(store.attachments.len(), 2);
    assert_eq!(out.attachments.len(), 2);
    assert_eq!(out.event.event_type, EventType::Image);
    assert_eq!(out.event.title.as_deref(), Some("cat.JPG"));
    assert_eq!(out.event.source, Some(EventSource::Drop));
    assert!(!out.event.is_deleted);
    for a in &out.attachments {
        assert_eq!(a.event_id, out.event.id);
    }
    assert_eq!(out.attachments[0].kind, AttachmentKind::Image);
    assert_eq!(out.attachments[0].mime_type.as_deref(), Some("image/jpeg"));
    assert_eq!(
        out.attachments[0].sha256.as_deref(),
        Some("e3b0c44298fc1c149afbf4c8996fb92427ae41e4649b934ca495991b7852b855")
    );
    assert_eq!(out.attachments[0].size_bytes, Some(0));
    assert_eq!(out.attachments[1].kind, AttachmentKind::File);
    assert_eq!(out.attachments[1].file_name.as_deref(), Some("notes.txt"));
    assert_eq!(out.attachments[1].sha256, None);
    assert!(out.reminders.is_empty());
}

#[test]
fn drop_classified_by_first_path() {
    let mut store = EventStore::new();
    let req = request(vec![file("/a/doc.pdf", None), file("/a/pic.png", None)]);
    let out = store.create_drop_event(&req).unwrap();
    assert_eq!(out.event.event_type, EventType::File);
    assert_eq!(out.attachments[1].kind, AttachmentKind::Image);
}

#[test]
fn empty_drop_is_refused_and_writes_nothing() {
    let mut store = EventStore::new();
    let r = store.create_drop_event(&request(vec![]));
    assert_eq!(r.err(), Some(StoreError::EmptyInput));
    assert!(store.events.is_empty());
    assert!(store.attachments.is_empty());
    assert!(store.reminders.is_empty());
}

#[test]
fn drop_reminder_message_defaults() {
    let mut store = EventStore::new();
    let mut req = request(vec![file("/x/y/report.md", None)]);
    req.remind_at = Some(5);
    let out = store
        .insert_drop_event(&req, &"e1".to_string(), &vec!["a1".to_string()], &"r1".to_string(), 100)
        .unwrap();
    assert_eq!(out.reminders.len(), 1);
    assert_eq!(out.reminders[0].message, "report.md");
    assert_eq!(out.reminders[0].id, "r1");
    assert_eq!(out.reminders[0].event_id, "e1");
    assert_eq!(out.attachments[0].id, "a1");
    assert_eq!(out.event.created_at, 100);

    req.note = Some("look".to_string());
    let out = store
        .insert_drop_event(&req, &"e2".to_string(), &vec!["a2".to_string()], &"r2".to_string(), 100)
        .unwrap();
    assert_eq!(out.reminders[0].message, "look");

    req.remind_message = Some("now".to_string());
    let out = store
        .insert_drop_event(&req, &"e3".to_string(), &vec!["a3".to_string()], &"r3".to_string(), 100)
        .unwrap();
    assert_eq!(out.reminders[0].message, "now");

    let mut bare = request(vec![file("/", None)]);
    bare.remind_at = Some(5);
    let out = store
        .insert_drop_event(&bare, &"e4".to_string(), &vec!["a4".to_string()], &"r4".to_string(), 100)
        .unwrap();
    assert_eq!(out.event.title, None);
    assert_eq!(out.reminders[0].message, "Reminder");
    assert_eq!(store.reminders.len(), 4);
}

#[test]
fn text_and_thought_events() {
    let mut store = EventStore::new();
    let t = store.create_text_event("n".to_string(), Some("body".to_string()), None, None).unwrap();
    assert_eq!(t.event.event_type, EventType::Text);
    assert_eq!(t.event.source, Some(EventSource::Manual));
    assert_eq!(t.event.text_content.as_deref(), Some("body"));
    let th = store.create_text_event("idea".to_string(), None, Some(9), None).unwrap();
    assert_eq!(th.event.event_type, EventType::Thought);
    assert_eq!(th.reminders.len(), 1);
    assert_eq!(th.reminders[0].message, "idea");
    assert_eq!(th.reminders[0].remind_at, 9);
    assert_eq!(store.events.len(), 2);
    assert_eq!(store.reminders.len(), 1);
}

fn seeded() -> EventStore {
    let mut store = EventStore::new();
    for (i, t) in [300i64, 100, 200, 400].iter().enumerate() {
        store.insert_text_event(
            format!("note{}", i),
            None,
            None,
            None,
            &format!("e{}", i),
            &format!("r{}", i),
            *t,
        )
        .unwrap();
    }
    store
}

#[test]
fn listing_is_newest_first_and_paged() {
    let store = seeded();
    let all = store.list_events(None, None, None, None);
    let ids: Vec<&str> = all.iter().map(|e| e.event.id.as_str()).collect();
    assert_eq!(ids, vec!["e3", "e0", "e2", "e1"]);
    let page = store.list_events(None, None, Some(1), Some(3));
    assert_eq!(page.len(), 1);
    assert_eq!(page[0].event.id, "e1");
    let bounded = store.list_events(Some(200), Some(300), None, None);
    let ids: Vec<&str> = bounded.iter().map(|e| e.event.id.as_str()).collect();
    assert_eq!(ids, vec!["e0", "e2"]);
    assert!(store.list_events(None, None, Some(7), Some(2)).is_empty());
}

#[test]
fn listing_skips_deleted_but_detail_finds_them() {
    let mut store = seeded();
    store.delete_event(&"e0".to_string());
    let all = store.list_events(None, None, None, None);
    assert_eq!(all.len(), 3);
    assert!(all.iter().all(|e| !e.event.is_deleted && e.event.id != "e0"));
    let d = store.get_event_detail(&"e0".to_string()).unwrap();
    assert!(d.event.is_deleted);
    assert_eq!(
        store.get_event_detail(&"nope".to_string()).err(),
        Some(StoreError::NotFound)
    );
}

#[test]
fn delete_twice_is_the_same_as_once() {
    let mut store = seeded();
    store.delete_event(&"e2".to_string());
    let once: Vec<bool> = store.events.iter().map(|e| e.is_deleted).collect();
    store.delete_event(&"e2".to_string());
    let twice: Vec<bool> = store.events.iter().map(|e| e.is_deleted).collect();
    assert_eq!(once, twice);
    assert_eq!(twice, vec![false, false, true, false]);
}

#[test]
fn note_update_overwrites() {
    let mut store = seeded();
    store.update_event_note(&"e1".to_string(), "changed".to_string());
    let d = store.get_event_detail(&"e1".to_string()).unwrap();
    assert_eq!(d.event.note.as_deref(), Some("changed"));
    assert_eq!(store.events[0].note.as_deref(), Some("note0"));
}

#[test]
fn detail_carries_attachments_and_reminders() {
    let mut store = EventStore::new();
    let req = DropRequest {
        files: vec![file("/p/a.gif", None)],
        note: Some("n".to_string()),
        remind_at: Some(50),
        remind_message: None,
    };
    let out = store.create_drop_event(&req).unwrap();
    let d = store.get_event_detail(&out.event.id).unwrap();
    assert_eq!(d.attachments.len(), 1);
    assert_eq!(d.reminders.len(), 1);
    assert_eq!(d.reminders[0].message, "n");
}

#[test]
fn reused_ids_are_refused() {
    let mut store = EventStore::new();
    let ids = vec!["a1".to_string()];
    let req = request(vec![file("/x/a.txt", None)]);
    store.insert_drop_event(&req, &"e1".to_string(), &ids, &"r1".to_string(), 1).unwrap();
    let again = store.insert_drop_event(&req, &"e1".to_string(), &vec!["a2".to_string()], &"r1".to_string(), 2);
    assert!(matches!(again, Err(StoreError::StorageFailure(_))));
    let same_attachment = store.insert_drop_event(&req, &"e2".to_string(), &ids, &"r1".to_string(), 2);
    assert!(matches!(same_attachment, Err(StoreError::StorageFailure(_))));
    let two = request(vec![file("/x/a.txt", None), file("/x/b.txt", None)]);
    let twice = vec!["a9".to_string(), "a9".to_string()];
    let pair = store.insert_drop_event(&two, &"e3".to_string(), &twice, &"r1".to_string(), 2);
    assert!(matches!(pair, Err(StoreError::StorageFailure(_))));
    let text = store.insert_text_event("n".to_string(), None, None, None, &"e1".to_string(), &"r".to_string(), 3);
    assert!(matches!(text, Err(StoreError::StorageFailure(_))));
    assert_eq!(store.events.len(), 1);
    assert_eq!(store.attachments.len(), 1);
}
