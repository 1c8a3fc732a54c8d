use papa_pet::reminders::ReminderDue;
use papa_pet::store::EventStore;
use papa_pet::{ReminderStatus, StoreError};

fn store_with_event(id: &str) -> EventStore {
    let mut store = EventStore::new();
    store
        .insert_text_event("n".to_string(), None, None, None, &id.to_string(), &"x".to_string(), 10)
        .unwrap();
    store
}

fn ids(due: &[ReminderDue]) -> Vec<String> {
    due.iter().map(|d| d.reminder.id.clone()).collect()
}

#[test]
fn overdue_reminder_fires_once() {
    let now = 1_000_000;
    let mut store = store_with_event("ev");
    store.insert_reminder("ev".to_string(), now - 1, "m".to_string(), "r1".to_string(), 5).unwrap();
    let due = store.scheduler_tick(now);
    assert_eq!(ids(&due), vec!["r1".to_string()]);
    assert_eq!(due[0].event.id, "ev");
    assert_eq!(store.reminders[0].status, ReminderStatus::Triggered);
    assert_eq!(store.reminders[0].triggered_at, Some(now));
    assert!(store.scheduler_tick(now + 30_000).is_empty());
}

#[test]
fn reminder_without_event_waits() {
    let mut store = store_with_event("ev");
    store.insert_reminder("ghost".to_string(), 5, "m".to_string(), "r1".to_string(), 5).unwrap();
    assert!(store.scheduler_tick(100).is_empty());
    assert_eq!(store.reminders[0].status, ReminderStatus::Pending);
    assert_eq!(store.reminders[0].triggered_at, None);
}

#[test]
fn due_reminders_come_earliest_first_with_attachments() {
    let mut store = store_with_event("ev");
    store.insert_reminder("ev".to_string(), 30, "b".to_string(), "late".to_string(), 5).unwrap();
    store.insert_reminder("ev".to_string(), 20, "a".to_string(), "early".to_string(), 5).unwrap();
    store.insert_reminder("ev".to_string(), 900, "c".to_string(), "future".to_string(), 5).unwrap();
    let due = store.scheduler_tick(100);
    assert_eq!(ids(&due), vec!["early".to_string(), "late".to_string()]);
    assert_eq!(due[0].reminder.status, ReminderStatus::Pending);
    assert_eq!(store.reminders[2].status, ReminderStatus::Pending);
}

#[test]
fn snooze_defers_until_its_end() {
    let t = 5_000_000;
    let mut store = store_with_event("ev");
    store.insert_reminder("ev".to_string(), 10, "m".to_string(), "r".to_string(), 5).unwrap();
    store.snooze_reminder_at(&"r".to_string(), 10, t);
    assert_eq!(store.reminders[0].status, ReminderStatus::Snoozed);
    assert_eq!(store.reminders[0].snooze_until, Some(t + 600_000));
    assert!(store.scheduler_tick(t + 599_999).is_empty());
    assert_eq!(store.reminders[0].status, ReminderStatus::Snoozed);
    assert_eq!(ids(&store.scheduler_tick(t + 600_000)), vec!["r".to_string()]);
    assert_eq!(store.reminders[0].status, ReminderStatus::Triggered);
    assert_eq!(store.reminders[0].snooze_until, None);
}

#[test]
fn snooze_end_saturates() {
    let mut store = store_with_event("ev");
    store.insert_reminder("ev".to_string(), 10, "m".to_string(), "r".to_string(), 5).unwrap();
    store.snooze_reminder_at(&"r".to_string(), i64::MAX, 1);
    assert_eq!(store.reminders[0].snooze_until, Some(i64::MAX));
}

#[test]
fn dismiss_stamps_and_ends() {
    let mut store = store_with_event("ev");
    store.insert_reminder("ev".to_string(), 10, "m".to_string(), "r".to_string(), 5).unwrap();
    store.snooze_reminder_at(&"r".to_string(), 1, 0);
    store.dismiss_reminder_at(&"r".to_string(), 77);
    assert_eq!(store.reminders[0].status, ReminderStatus::Dismissed);
    assert_eq!(store.reminders[0].triggered_at, Some(77));
    assert_eq!(store.reminders[0].snooze_until, None);
    assert!(store.scheduler_tick(1_000_000).is_empty());
    assert!(store.list_pending_reminders().is_empty());
}

#[test]
fn pending_list_holds_open_reminders_by_time() {
    let mut store = store_with_event("ev");
    store.insert_reminder("ev".to_string(), 300, "a".to_string(), "a".to_string(), 5).unwrap();
    store.insert_reminder("ev".to_string(), 100, "b".to_string(), "b".to_string(), 5).unwrap();
    store.insert_reminder("ev".to_string(), 200, "c".to_string(), "c".to_string(), 5).unwrap();
    store.dismiss_reminder_at(&"c".to_string(), 1);
    store.snooze_reminder_at(&"a".to_string(), 1, 0);
    let p: Vec<String> = store.list_pending_reminders().iter().map(|r| r.id.clone()).collect();
    assert_eq!(p, vec!["b".to_string(), "a".to_string()]);
}

#[test]
fn created_reminder_is_pending() {
    let mut store = store_with_event("ev");
    let r = store.create_reminder("ev".to_string(), 42, "hello".to_string()).unwrap();
    assert_eq!(r.status, ReminderStatus::Pending);
    assert_eq!(r.remind_at, 42);
    assert_eq!(r.message, "hello");
    assert_eq!(store.reminders.len(), 1);
    store.snooze_reminder(&r.id, 1);
    assert_eq!(store.reminders[0].status, ReminderStatus::Snoozed);
    store.dismiss_reminder(&r.id);
    assert_eq!(store.reminders[0].status, ReminderStatus::Dismissed);
}

#[test]
fn settings_upsert() {
    let mut store = EventStore::new();
    assert_eq!(store.get_setting(&"theme".to_string()), None);
    store.set_setting("theme".to_string(), "dark".to_string());
    store.set_setting("lang".to_string(), "en".to_string());
    store.set_setting("theme".to_string(), "light".to_string());
    assert_eq!(store.get_setting(&"theme".to_string()), Some("light".to_string()));
    assert_eq!(
        store.list_settings(),
        vec![
            ("theme".to_string(), "light".to_string()),
            ("lang".to_string(), "en".to_string())
        ]
    );
}

#[test]
fn legacy_drop_records() {
    let mut store = EventStore::new();
    let none: Vec<String> = vec![];
    assert_eq!(
        store.process_drop_paths(&none, &Ok(vec![]), 1).err(),
        Some(StoreError::EmptyInput)
    );
    let paths = vec!["/a/b.txt".to_string(), "/a/c.txt".to_string()];
    assert_eq!(
        store.process_drop_paths(&paths, &Err("gone".to_string()), 1).err(),
        Some(StoreError::IoFailure("gone".to_string()))
    );
    let d = store.process_drop_paths(&paths, &Ok(b"abc".to_vec()), 7).unwrap();
    assert_eq!(d.id, 1);
    assert_eq!(d.path, "/a/b.txt");
    assert_eq!(d.created_at, 7);
    assert_eq!(d.hash, "ba7816bf8f01cfea414140de5dae2223b00361a396177a9cb410ff61f20015ad");
    let d2 = store.process_drop_paths(&paths, &Ok(vec![]), 8).unwrap();
    assert_eq!(d2.id, 2);
    assert_eq!(store.drop_records.len(), 2);
}

#[test]
fn mock_results_fill_their_column() {
    let mut store = EventStore::new();
    let paths = vec!["/a".to_string()];
    store.process_drop_paths(&paths, &Ok(vec![]), 1).unwrap();
    assert_eq!(
        store.save_mock_result(1, "translate", "x".to_string()).err(),
        Some(StoreError::InvalidKind)
    );
    store.save_mock_result(1, "summarize", "s".to_string()).unwrap();
    store.save_mock_result(1, "actions", "a".to_string()).unwrap();
    store.save_mock_result(1, "remember", "m".to_string()).unwrap();
    store.save_mock_result(9, "remember", "other".to_string()).unwrap();
    let d = &store.drop_records[0];
    assert_eq!(d.summary.as_deref(), Some("s"));
    assert_eq!(d.actions.as_deref(), Some("a"));
    assert_eq!(d.memory.as_deref(), Some("m"));
    assert_eq!(d.tags, None);
}

#[test]
fn exporting_twice_keeps_one_record() {
    let mut store = EventStore::new();
    store.record_export("id1".to_string(), "2024-01-01".to_string(), "md".to_string(), "/x/1".to_string(), 1);
    store.record_export("id2".to_string(), "2024-01-01".to_string(), "md".to_string(), "/x/2".to_string(), 2);
    store.record_export("id3".to_string(), "2024-01-01".to_string(), "html".to_string(), "/x/3".to_string(), 3);
    assert_eq!(store.exports.len(), 2);
    assert_eq!(store.exports[0].id, "id1");
    assert_eq!(store.exports[0].output_path, "/x/2");
    assert_eq!(store.exports[0].created_at, 2);
}

#[test]
fn exports_listed_latest_date_first() {
    let mut store = EventStore::new();
    store.record_export("a".to_string(), "2024-01-02".to_string(), "md".to_string(), "p".to_string(), 1);
    store.record_export("b".to_string(), "2024-03-01".to_string(), "md".to_string(), "p".to_string(), 1);
    store.record_export("c".to_string(), "2023-12-31".to_string(), "md".to_string(), "p".to_string(), 1);
    let l: Vec<String> = store.list_exports().iter().map(|e| e.id.clone()).collect();
    assert_eq!(l, vec!["b".to_string(), "a".to_string(), "c".to_string()]);
}

#[test]
fn reused_reminder_id_is_refused() {
    let mut store = store_with_event("ev");
    store.insert_reminder("ev".to_string(), 1, "m".to_string(), "r".to_string(), 5).unwrap();
    let again = store.insert_reminder("ev".to_string(), 2, "m".to_string(), "r".to_string(), 5);
    assert!(matches!(again, Err(StoreError::StorageFailure(_))));
    assert_eq!(store.reminders.len(), 1);
}

#[test]
fn legacy_operations_leave_the_timeline_alone() {
    let mut store = store_with_event("ev");
    let paths = vec!["/a".to_string()];
    store.process_drop_paths(&paths, &Ok(vec![]), 1).unwrap();
    store.save_mock_result(1, "summarize", "s".to_string()).unwrap();
    assert_eq!(store.events.len(), 1);
    assert!(!store.events[0].is_deleted);
}
