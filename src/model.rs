use vstd::prelude::*;

verus! {

/// What a timeline event records.
#[derive(Clone, Copy, Debug, PartialEq, Eq, Structural)]
pub enum EventType {
    File,
    Image,
    Text,
    Thought,
}

/// Where a timeline event came from.
#[derive(Clone, Copy, Debug, PartialEq, Eq, Structural)]
pub enum EventSource {
    Drop,
    Manual,
    Clipboard,
}

/// What an attachment holds.
#[derive(Clone, Copy, Debug, PartialEq, Eq, Structural)]
pub enum AttachmentKind {
    File,
    Image,
}

/// The lifecycle state of a reminder.
#[derive(Clone, Copy, Debug, PartialEq, Eq, Structural)]
pub enum ReminderStatus {
    Pending,
    Triggered,
    Dismissed,
    Snoozed,
}

/// The failures an operation of the store can report.
#[derive(Clone, Debug, PartialEq, Eq)]
pub enum StoreError {
    /// The operation needs at least one item and got none.
    EmptyInput,
    /// No row has the id that was looked up.
    NotFound,
    /// A kind name that the legacy table does not know.
    InvalidKind,
    /// A date key that is not a calendar date.
    InvalidDate,
    /// An output format that is not recognised.
    InvalidFormat,
    /// The store's lock could not be taken.
    LockUnavailable,
    /// The storage engine failed, or a row would break a uniqueness rule.
    StorageFailure(String),
    /// A file could not be read or written.
    IoFailure(String),
}

/// One captured moment on the timeline.
#[derive(Clone, Debug)]
pub struct TimelineEvent {
    pub id: String,
    pub event_type: EventType,
    pub title: Option<String>,
    pub note: Option<String>,
    pub text_content: Option<String>,
    pub created_at: i64,
    pub source: Option<EventSource>,
    pub is_deleted: bool,
}

/// A file or image bound to an event.
#[derive(Clone, Debug)]
pub struct Attachment {
    pub id: String,
    pub event_id: String,
    pub kind: AttachmentKind,
    pub original_path: String,
    pub stored_path: Option<String>,
    pub file_name: Option<String>,
    pub mime_type: Option<String>,
    pub size_bytes: Option<i64>,
    pub sha256: Option<String>,
    pub width: Option<i32>,
    pub height: Option<i32>,
    pub created_at: i64,
}

/// A scheduled alert bound to an event.
#[derive(Clone, Debug)]
pub struct Reminder {
    pub id: String,
    pub event_id: String,
    pub remind_at: i64,
    pub message: String,
    pub status: ReminderStatus,
    pub triggered_at: Option<i64>,
    pub snooze_until: Option<i64>,
    pub created_at: i64,
}

/// The record of one rendered daily digest.
#[derive(Clone, Debug)]
pub struct DailyExport {
    pub id: String,
    pub date_key: String,
    pub output_format: String,
    pub output_path: String,
    pub created_at: i64,
}

/// One key/value pair of the settings table.
#[derive(Clone, Debug)]
pub struct Setting {
    pub key: String,
    pub value: String,
}

/// A row of the legacy drop table (timestamps in seconds).
#[derive(Clone, Debug)]
pub struct DropRecord {
    pub id: i64,
    pub path: String,
    pub hash: String,
    pub created_at: i64,
    pub summary: Option<String>,
    pub actions: Option<String>,
    pub memory: Option<String>,
    pub tags: Option<String>,
}

/// An event together with the rows that reference it.
#[derive(Clone, Debug)]
pub struct EventWithAttachments {
    pub event: TimelineEvent,
    pub attachments: Vec<Attachment>,
    pub reminders: Vec<Reminder>,
}

/// A row that can be copied into an equal value.
pub trait Duplicate: Sized {
    fn duplicate(&self) -> (r: Self)
        ensures
            r == *self,
    ;
}

/// Appends copies of the rows of `src` to `dst`.
pub fn append_copies<T: Duplicate>(dst: &mut Vec<T>, src: &Vec<T>)
    ensures
        final(dst)@ == old(dst)@ + src@,
{
    let mut i: usize = 0;
    while i < src.len()
        invariant
            i <= src.len(),
            dst@ == old(dst)@ + src@.subrange(0, i as int),
        decreases src.len() - i,
    {
        dst.push(src[i].duplicate());
        i = i + 1;
        assert(dst@ =~= old(dst)@ + src@.subrange(0, i as int));
    }
    assert(src@.subrange(0, i as int) =~= src@);
}

/// A copy of an optional string, equal to `o`.
pub fn copy_opt_string(o: &Option<String>) -> (r: Option<String>)
    ensures
        r == *o,
{
    match o {
        Some(s) => Some(s.clone()),
        None => None,
    }
}

impl Duplicate for TimelineEvent {
    /// A copy equal to this event.
    fn duplicate(&self) -> (r: TimelineEvent)
        ensures
            r == *self,
    {
        TimelineEvent {
            id: self.id.clone(),
            event_type: self.event_type,
            title: copy_opt_string(&self.title),
            note: copy_opt_string(&self.note),
            text_content: copy_opt_string(&self.text_content),
            created_at: self.created_at,
            source: self.source,
            is_deleted: self.is_deleted,
        }
    }
}

impl Duplicate for Attachment {
    /// A copy equal to this attachment.
    fn duplicate(&self) -> (r: Attachment)
        ensures
            r == *self,
    {
        Attachment {
            id: self.id.clone(),
            event_id: self.event_id.clone(),
            kind: self.kind,
            original_path: self.original_path.clone(),
            stored_path: copy_opt_string(&self.stored_path),
            file_name: copy_opt_string(&self.file_name),
            mime_type: copy_opt_string(&self.mime_type),
            size_bytes: self.size_bytes,
            sha256: copy_opt_string(&self.sha256),
            width: self.width,
            height: self.height,
            created_at: self.created_at,
        }
    }
}

impl Duplicate for Reminder {
    /// A copy equal to this reminder.
    fn duplicate(&self) -> (r: Reminder)
        ensures
            r == *self,
    {
        Reminder {
            id: self.id.clone(),
            event_id: self.event_id.clone(),
            remind_at: self.remind_at,
            message: self.message.clone(),
            status: self.status,
            triggered_at: self.triggered_at,
            snooze_until: self.snooze_until,
            created_at: self.created_at,
        }
    }
}

impl Duplicate for DailyExport {
    /// A copy equal to this record.
    fn duplicate(&self) -> (r: DailyExport)
        ensures
            r == *self,
    {
        DailyExport {
            id: self.id.clone(),
            date_key: self.date_key.clone(),
            output_format: self.output_format.clone(),
            output_path: self.output_path.clone(),
            created_at: self.created_at,
        }
    }
}

} // verus!
