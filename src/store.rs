use vstd::prelude::*;
use crate::clock::{generate_id, now_ms};
use crate::digest::{hex_text, sha256_hex, sha256_of};
use crate::mime::{file_name_of, get_mime_type, is_image_mime, is_image_type, mime_of_path, path_file_name};
use crate::order::{insert_by_key, sort_by_key, Keyed};
use crate::mime::same_text;
use crate::model::{
    append_copies, copy_opt_string, Attachment, AttachmentKind, DailyExport, DropRecord, Duplicate,
    EventSource, EventType, EventWithAttachments, Reminder, ReminderStatus, Setting, StoreError,
    TimelineEvent,
};

verus! {

/// One dropped file, with what could be learnt of it from the file system:
/// its size, and its content when it could be read.
pub struct DroppedFile {
    pub path: String,
    pub size_bytes: Option<i64>,
    pub content: Option<Vec<u8>>,
}

/// A request to record a drop of one or more files.
pub struct DropRequest {
    pub files: Vec<DroppedFile>,
    pub note: Option<String>,
    pub remind_at: Option<i64>,
    pub remind_message: Option<String>,
}

/// The timeline store: every table held as rows in insertion order.
pub struct EventStore {
    pub events: Vec<TimelineEvent>,
    pub attachments: Vec<Attachment>,
    pub reminders: Vec<Reminder>,
    pub exports: Vec<DailyExport>,
    pub settings: Vec<Setting>,
    pub drop_records: Vec<DropRecord>,
}

/// The characters of an optional string.
pub open spec fn opt_view(o: Option<String>) -> Option<Seq<char>> {
    match o {
        Some(s) => Some(s@),
        None => None,
    }
}

/// The attachment kind of a path: an image when its MIME type is one.
pub open spec fn kind_of_path(p: Seq<char>) -> AttachmentKind {
    if is_image_mime(mime_of_path(p)) {
        AttachmentKind::Image
    } else {
        AttachmentKind::File
    }
}

/// The event type of a drop whose first path is `p`.
pub open spec fn event_type_of_path(p: Seq<char>) -> EventType {
    if is_image_mime(mime_of_path(p)) {
        EventType::Image
    } else {
        EventType::File
    }
}

/// The digest text of content that could be read; none otherwise.
pub open spec fn hash_of_content(c: Option<Vec<u8>>) -> Option<Seq<char>> {
    match c {
        Some(b) => Some(hex_text(sha256_of(b@))),
        None => None,
    }
}

/// `a` is the attachment row recorded for the dropped file `f`.
pub open spec fn attachment_for(
    a: Attachment,
    f: DroppedFile,
    id: Seq<char>,
    event_id: Seq<char>,
    created_at: i64,
) -> bool {
    &&& a.id@ == id
    &&& a.event_id@ == event_id
    &&& a.kind == kind_of_path(f.path@)
    &&& a.original_path@ == f.path@
    &&& a.stored_path is None
    &&& opt_view(a.file_name) == file_name_of(f.path@)
    &&& opt_view(a.mime_type) == mime_of_path(f.path@)
    &&& a.size_bytes == f.size_bytes
    &&& opt_view(a.sha256) == hash_of_content(f.content)
    &&& a.width is None
    &&& a.height is None
    &&& a.created_at == created_at
}

/// `r` is a fresh pending reminder with the given fields.
pub open spec fn new_reminder(
    r: Reminder,
    id: Seq<char>,
    event_id: Seq<char>,
    remind_at: i64,
    message: Seq<char>,
    created_at: i64,
) -> bool {
    &&& r.id@ == id
    &&& r.event_id@ == event_id
    &&& r.remind_at == remind_at
    &&& r.message@ == message
    &&& r.status == ReminderStatus::Pending
    &&& r.triggered_at is None
    &&& r.snooze_until is None
    &&& r.created_at == created_at
}

/// The message of a drop's reminder: the one asked for, else the note, else
/// the first file's name, else a fixed word.
pub open spec fn drop_reminder_message(req: DropRequest) -> Seq<char> {
    match req.remind_message {
        Some(m) => m@,
        None => match req.note {
            Some(n) => n@,
            None => match file_name_of(req.files[0].path@) {
                Some(t) => t,
                None => "Reminder"@,
            },
        },
    }
}

/// `out` is what a non-empty drop request records, with the identifiers and
/// the time stamp that `out` carries.
pub open spec fn drop_event_made(req: DropRequest, out: EventWithAttachments) -> bool {
    let e = out.event;
    let first = req.files[0].path@;
    &&& e.event_type == event_type_of_path(first)
    &&& opt_view(e.title) == file_name_of(first)
    &&& e.note == req.note
    &&& e.text_content is None
    &&& e.source == Some(EventSource::Drop)
    &&& !e.is_deleted
    &&& out.attachments.len() == req.files.len()
    &&& forall|i: int|
        0 <= i < req.files.len() ==> attachment_for(
            #[trigger] out.attachments[i],
            req.files[i],
            out.attachments[i].id@,
            e.id@,
            e.created_at,
        )
    &&& req.remind_at is None ==> out.reminders.len() == 0
    &&& req.remind_at is Some ==> {
        &&& out.reminders.len() == 1
        &&& new_reminder(
            out.reminders[0],
            out.reminders[0].id@,
            e.id@,
            req.remind_at->0,
            drop_reminder_message(req),
            e.created_at,
        )
    }
}

/// `out` is what a text or thought request records, with the identifiers
/// and the time stamp that `out` carries.
pub open spec fn text_event_made(
    note: String,
    text_content: Option<String>,
    remind_at: Option<i64>,
    remind_message: Option<String>,
    out: EventWithAttachments,
) -> bool {
    let e = out.event;
    &&& e.event_type == (if text_content is Some {
        EventType::Text
    } else {
        EventType::Thought
    })
    &&& e.title is None
    &&& e.note == Some(note)
    &&& e.text_content == text_content
    &&& e.source == Some(EventSource::Manual)
    &&& !e.is_deleted
    &&& out.attachments.len() == 0
    &&& remind_at is None ==> out.reminders.len() == 0
    &&& remind_at is Some ==> {
        &&& out.reminders.len() == 1
        &&& new_reminder(
            out.reminders[0],
            out.reminders[0].id@,
            e.id@,
            remind_at->0,
            match remind_message {
                Some(m) => m@,
                None => note@,
            },
            e.created_at,
        )
    }
}

/// No two events share an id.
pub open spec fn event_ids_unique(s: Seq<TimelineEvent>) -> bool {
    forall|i: int, j: int| 0 <= i < j < s.len() ==> s[i].id@ != s[j].id@
}

/// No two attachments share an id.
pub open spec fn attachment_ids_unique(s: Seq<Attachment>) -> bool {
    forall|i: int, j: int| 0 <= i < j < s.len() ==> s[i].id@ != s[j].id@
}

/// No two reminders share an id.
pub open spec fn reminder_ids_unique(s: Seq<Reminder>) -> bool {
    forall|i: int, j: int| 0 <= i < j < s.len() ==> s[i].id@ != s[j].id@
}

/// No event has the id `id`.
pub open spec fn event_id_free(s: Seq<TimelineEvent>, id: Seq<char>) -> bool {
    forall|i: int| 0 <= i < s.len() ==> #[trigger] s[i].id@ != id
}

/// No attachment has the id `id`.
pub open spec fn attachment_id_free(s: Seq<Attachment>, id: Seq<char>) -> bool {
    forall|i: int| 0 <= i < s.len() ==> #[trigger] s[i].id@ != id
}

/// No reminder has the id `id`.
pub open spec fn reminder_id_free(s: Seq<Reminder>, id: Seq<char>) -> bool {
    forall|i: int| 0 <= i < s.len() ==> #[trigger] s[i].id@ != id
}

/// The strings are pairwise different.
pub open spec fn texts_distinct(ids: Seq<String>) -> bool {
    forall|i: int, j: int| 0 <= i < j < ids.len() ==> ids[i]@ != ids[j]@
}

/// The identifiers chosen for a drop are unused in `store` and different
/// from each other; the reminder's only matters when one is asked for.
pub open spec fn drop_ids_fresh(
    store: EventStore,
    event_id: Seq<char>,
    attachment_ids: Seq<String>,
    reminder_id: Seq<char>,
    with_reminder: bool,
) -> bool {
    &&& event_id_free(store.events@, event_id)
    &&& texts_distinct(attachment_ids)
    &&& forall|k: int|
        0 <= k < attachment_ids.len() ==> attachment_id_free(store.attachments@, #[trigger] attachment_ids[k]@)
    &&& with_reminder ==> reminder_id_free(store.reminders@, reminder_id)
}

/// The rows of `out` carry ids that `store` does not use, pairwise
/// different among the attachments.
pub open spec fn rows_fresh(store: EventStore, out: EventWithAttachments) -> bool {
    &&& event_id_free(store.events@, out.event.id@)
    &&& forall|k: int|
        0 <= k < out.attachments.len() ==> attachment_id_free(
            store.attachments@,
            (#[trigger] out.attachments[k]).id@,
        )
    &&& forall|k: int, l: int|
        0 <= k < l < out.attachments.len() ==> out.attachments[k].id@ != out.attachments[l].id@
    &&& forall|k: int|
        0 <= k < out.reminders.len() ==> reminder_id_free(store.reminders@, (#[trigger] out.reminders[k]).id@)
    &&& forall|k: int, l: int|
        0 <= k < l < out.reminders.len() ==> out.reminders[k].id@ != out.reminders[l].id@
}

/// `new` is `old` with the rows of `out` appended to the event, attachment
/// and reminder tables, and nothing else changed.
pub open spec fn rows_appended(old: EventStore, new: EventStore, out: EventWithAttachments) -> bool {
    &&& new.events@ == old.events@.push(out.event)
    &&& new.attachments@ == old.attachments@ + out.attachments@
    &&& new.reminders@ == old.reminders@ + out.reminders@
    &&& new.exports@ == old.exports@
    &&& new.settings@ == old.settings@
    &&& new.drop_records@ == old.drop_records@
}

/// Whether a listing with the given bounds shows `e`: not deleted, and
/// created within the bounds, both inclusive.
pub open spec fn in_window(e: TimelineEvent, start: Option<i64>, end: Option<i64>) -> bool {
    &&& !e.is_deleted
    &&& start is Some ==> start->0 <= e.created_at
    &&& end is Some ==> e.created_at <= end->0
}

/// The predicate `in_window` with its bounds fixed.
pub open spec fn window(start: Option<i64>, end: Option<i64>) -> spec_fn(TimelineEvent) -> bool {
    |e: TimelineEvent| in_window(e, start, end)
}

/// Attachment rows that belong to the event `id`.
pub open spec fn owned_attachment(id: Seq<char>) -> spec_fn(Attachment) -> bool {
    |a: Attachment| a.event_id@ == id
}

/// Reminder rows that belong to the event `id`.
pub open spec fn owned_reminder(id: Seq<char>) -> spec_fn(Reminder) -> bool {
    |r: Reminder| r.event_id@ == id
}

/// The attachments of the event `id`, in table order.
pub open spec fn attachments_of(rows: Seq<Attachment>, id: Seq<char>) -> Seq<Attachment> {
    rows.filter(owned_attachment(id))
}

/// The reminders of the event `id`, in table order.
pub open spec fn reminders_of(rows: Seq<Reminder>, id: Seq<char>) -> Seq<Reminder> {
    rows.filter(owned_reminder(id))
}

/// `out` is the event `e` together with its rows in `store`.
pub open spec fn with_rows(store: EventStore, e: TimelineEvent, out: EventWithAttachments) -> bool {
    &&& out.event == e
    &&& out.attachments@ == attachments_of(store.attachments@, e.id@)
    &&& out.reminders@ == reminders_of(store.reminders@, e.id@)
}

/// The events that are not deleted and were created within the bounds,
/// newest first when `desc`, oldest first otherwise.
pub open spec fn listed_events(
    events: Seq<TimelineEvent>,
    start: Option<i64>,
    end: Option<i64>,
    desc: bool,
) -> Seq<TimelineEvent> {
    sort_by_key(events.filter(window(start, end)), desc)
}

/// The rows of `s` from `offset`, at most `limit` of them.
pub open spec fn page_of<T>(s: Seq<T>, offset: int, limit: int) -> Seq<T> {
    let lo = if offset < s.len() {
        offset
    } else {
        s.len() as int
    };
    let hi = if offset + limit < s.len() {
        offset + limit
    } else {
        s.len() as int
    };
    s.subrange(lo, hi)
}

/// `e` marked as deleted.
pub open spec fn mark_deleted(e: TimelineEvent) -> TimelineEvent {
    TimelineEvent { is_deleted: true, ..e }
}

/// `events` with every event of id `id` marked as deleted.
pub open spec fn soft_deleted(events: Seq<TimelineEvent>, id: Seq<char>) -> Seq<TimelineEvent> {
    Seq::new(
        events.len(),
        |i: int|
            if events[i].id@ == id {
                mark_deleted(events[i])
            } else {
                events[i]
            },
    )
}

/// `events` with the note of every event of id `id` replaced.
pub open spec fn noted(events: Seq<TimelineEvent>, id: Seq<char>, note: String) -> Seq<TimelineEvent> {
    Seq::new(
        events.len(),
        |i: int|
            if events[i].id@ == id {
                TimelineEvent { note: Some(note), ..events[i] }
            } else {
                events[i]
            },
    )
}

/// The index of the first event of id `id`, if there is one.
pub open spec fn first_event_index(events: Seq<TimelineEvent>, id: Seq<char>) -> Option<int> {
    if exists|i: int| 0 <= i < events.len() && #[trigger] events[i].id@ == id {
        let i = choose|i: int|
            0 <= i < events.len() && #[trigger] events[i].id@ == id && forall|j: int|
                0 <= j < i ==> #[trigger] events[j].id@ != id;
        Some(i)
    } else {
        None
    }
}

/// `new` differs from `old` in its event table alone, which is `events`.
pub open spec fn events_replaced(old: EventStore, new: EventStore, events: Seq<TimelineEvent>) -> bool {
    &&& new.events@ == events
    &&& new.attachments@ == old.attachments@
    &&& new.reminders@ == old.reminders@
    &&& new.exports@ == old.exports@
    &&& new.settings@ == old.settings@
    &&& new.drop_records@ == old.drop_records@
}

impl Keyed for TimelineEvent {
    open spec fn precedes(&self, other: &Self, desc: bool) -> bool {
        if desc {
            self.created_at > other.created_at
        } else {
            self.created_at < other.created_at
        }
    }

    fn check_precedes(&self, other: &Self, desc: bool) -> (b: bool) {
        if desc {
            self.created_at > other.created_at
        } else {
            self.created_at < other.created_at
        }
    }

    proof fn lemma_strict_order(a: Self, b: Self, c: Self, desc: bool) {
    }
}

impl Keyed for Reminder {
    open spec fn precedes(&self, other: &Self, desc: bool) -> bool {
        if desc {
            self.remind_at > other.remind_at
        } else {
            self.remind_at < other.remind_at
        }
    }

    fn check_precedes(&self, other: &Self, desc: bool) -> (b: bool) {
        if desc {
            self.remind_at > other.remind_at
        } else {
            self.remind_at < other.remind_at
        }
    }

    proof fn lemma_strict_order(a: Self, b: Self, c: Self, desc: bool) {
    }
}

/// Some event has the id `id` at `i`, so a first one exists, at or before `i`.
pub(crate) proof fn lemma_first_event_found(events: Seq<TimelineEvent>, id: Seq<char>, i: int)
    requires
        0 <= i < events.len(),
        events[i].id@ == id,
    ensures
        first_event_index(events, id) is Some,
        ({
            let k = first_event_index(events, id)->0;
            &&& 0 <= k <= i
            &&& events[k].id@ == id
            &&& forall|j: int| 0 <= j < k ==> #[trigger] events[j].id@ != id
        }),
    decreases i,
{
    if exists|j: int| 0 <= j < i && #[trigger] events[j].id@ == id {
        let j = choose|j: int| 0 <= j < i && #[trigger] events[j].id@ == id;
        lemma_first_event_found(events, id, j);
    } else {
        lemma_first_index(events, id, i);
    }
}

/// The first element of a search that ends with a match is the least
/// index that holds one.
pub(crate) proof fn lemma_first_index(events: Seq<TimelineEvent>, id: Seq<char>, i: int)
    requires
        0 <= i < events.len(),
        events[i].id@ == id,
        forall|j: int| 0 <= j < i ==> #[trigger] events[j].id@ != id,
    ensures
        first_event_index(events, id) == Some(i),
{
    let k = choose|k: int|
        0 <= k < events.len() && #[trigger] events[k].id@ == id && forall|j: int|
            0 <= j < k ==> #[trigger] events[j].id@ != id;
    assert(0 <= k < events.len() && events[k].id@ == id);
    if k < i {
        assert(events[k].id@ != id);
    }
    if i < k {
        assert(events[i].id@ != id);
    }
}

/// Appending rows whose ids are fresh keeps every table's ids unique.
proof fn lemma_append_keeps_unique(before: EventStore, after: EventStore, out: EventWithAttachments)
    requires
        rows_appended(before, after, out),
        rows_fresh(before, out),
    ensures
        before.well_formed() ==> after.well_formed(),
{
    if before.well_formed() {
        let n = before.attachments.len() as int;
        assert forall|i: int, j: int| 0 <= i < j < after.attachments@.len() implies after.attachments@[i].id@
            != after.attachments@[j].id@ by {
            if j >= n {
                assert(after.attachments@[j] == out.attachments@[j - n]);
                if i >= n {
                    assert(after.attachments@[i] == out.attachments@[i - n]);
                } else {
                    assert(attachment_id_free(before.attachments@, out.attachments[j - n].id@));
                    assert(after.attachments@[i] == before.attachments@[i]);
                }
            } else {
                assert(after.attachments@[i] == before.attachments@[i]);
                assert(after.attachments@[j] == before.attachments@[j]);
            }
        }
        let m = before.reminders.len() as int;
        assert forall|i: int, j: int| 0 <= i < j < after.reminders@.len() implies after.reminders@[i].id@
            != after.reminders@[j].id@ by {
            if j >= m {
                assert(after.reminders@[j] == out.reminders@[j - m]);
                if i >= m {
                    assert(after.reminders@[i] == out.reminders@[i - m]);
                } else {
                    assert(reminder_id_free(before.reminders@, out.reminders[j - m].id@));
                    assert(after.reminders@[i] == before.reminders@[i]);
                }
            } else {
                assert(after.reminders@[i] == before.reminders@[i]);
                assert(after.reminders@[j] == before.reminders@[j]);
            }
        }
        assert forall|i: int, j: int| 0 <= i < j < after.events@.len() implies after.events@[i].id@
            != after.events@[j].id@ by {
            if j == before.events.len() {
                assert(after.events@[i] == before.events@[i]);
            }
        }
    }
}

/// Builds the attachment row of one dropped file.
fn attachment_row(f: &DroppedFile, id: String, event_id: &String, created_at: i64) -> (a: Attachment)
    ensures
        attachment_for(a, *f, id@, event_id@, created_at),
{
    let mime_type = get_mime_type(f.path.as_str());
    let kind = if is_image_type(&mime_type) {
        AttachmentKind::Image
    } else {
        AttachmentKind::File
    };
    let sha256 = match &f.content {
        Some(c) => Some(sha256_hex(c.as_slice())),
        None => None,
    };
    Attachment {
        id,
        event_id: event_id.clone(),
        kind,
        original_path: f.path.clone(),
        stored_path: None,
        file_name: path_file_name(f.path.as_str()),
        mime_type,
        size_bytes: f.size_bytes,
        sha256,
        width: None,
        height: None,
        created_at,
    }
}

impl EventStore {
    /// Ids are unique within the event, attachment and reminder tables,
    /// setting keys are unique, and no two export records share a date and
    /// a format.
    pub open spec fn well_formed(&self) -> bool {
        &&& event_ids_unique(self.events@)
        &&& attachment_ids_unique(self.attachments@)
        &&& reminder_ids_unique(self.reminders@)
        &&& crate::tables::settings_unique(self.settings@)
        &&& crate::tables::exports_unique(self.exports@)
    }

    /// Whether no event has the id `id`.
    pub fn event_id_unused(&self, id: &String) -> (r: bool)
        ensures
            r == event_id_free(self.events@, id@),
    {
        let mut i: usize = 0;
        while i < self.events.len()
            invariant
                i <= self.events.len(),
                forall|j: int| 0 <= j < i ==> #[trigger] self.events@[j].id@ != id@,
            decreases self.events.len() - i,
        {
            if self.events[i].id == *id {
                return false;
            }
            i = i + 1;
        }
        true
    }

    /// Whether no attachment has the id `id`.
    pub fn attachment_id_unused(&self, id: &String) -> (r: bool)
        ensures
            r == attachment_id_free(self.attachments@, id@),
    {
        let mut i: usize = 0;
        while i < self.attachments.len()
            invariant
                i <= self.attachments.len(),
                forall|j: int| 0 <= j < i ==> #[trigger] self.attachments@[j].id@ != id@,
            decreases self.attachments.len() - i,
        {
            if self.attachments[i].id == *id {
                return false;
            }
            i = i + 1;
        }
        true
    }

    /// Whether no reminder has the id `id`.
    pub fn reminder_id_unused(&self, id: &String) -> (r: bool)
        ensures
            r == reminder_id_free(self.reminders@, id@),
    {
        let mut i: usize = 0;
        while i < self.reminders.len()
            invariant
                i <= self.reminders.len(),
                forall|j: int| 0 <= j < i ==> #[trigger] self.reminders@[j].id@ != id@,
            decreases self.reminders.len() - i,
        {
            if self.reminders[i].id == *id {
                return false;
            }
            i = i + 1;
        }
        true
    }

    /// Whether the identifiers chosen for a drop are fresh.
    pub fn drop_ids_unused(
        &self,
        event_id: &String,
        attachment_ids: &Vec<String>,
        reminder_id: &String,
        with_reminder: bool,
    ) -> (r: bool)
        ensures
            r == drop_ids_fresh(*self, event_id@, attachment_ids@, reminder_id@, with_reminder),
    {
        if !self.event_id_unused(event_id) {
            return false;
        }
        if with_reminder && !self.reminder_id_unused(reminder_id) {
            return false;
        }
        let mut k: usize = 0;
        while k < attachment_ids.len()
            invariant
                k <= attachment_ids.len(),
                forall|a: int, b: int| 0 <= a < b < k ==> attachment_ids@[a]@ != attachment_ids@[b]@,
                forall|a: int|
                    0 <= a < k ==> attachment_id_free(self.attachments@, #[trigger] attachment_ids@[a]@),
            decreases attachment_ids.len() - k,
        {
            if !self.attachment_id_unused(&attachment_ids[k]) {
                return false;
            }
            let mut l: usize = 0;
            while l < k
                invariant
                    l <= k < attachment_ids.len(),
                    forall|a: int| 0 <= a < l ==> attachment_ids@[a]@ != attachment_ids@[k as int]@,
                decreases k - l,
            {
                if attachment_ids[l] == attachment_ids[k] {
                    return false;
                }
                l = l + 1;
            }
            k = k + 1;
        }
        true
    }

    /// An empty store.
    pub fn new() -> (s: EventStore)
        ensures
            s.events@.len() == 0,
            s.attachments@.len() == 0,
            s.reminders@.len() == 0,
            s.exports@.len() == 0,
            s.settings@.len() == 0,
            s.drop_records@.len() == 0,
            s.well_formed(),
    {
        EventStore {
            events: Vec::new(),
            attachments: Vec::new(),
            reminders: Vec::new(),
            exports: Vec::new(),
            settings: Vec::new(),
            drop_records: Vec::new(),
        }
    }

    /// Records a drop with the given identifiers and time stamp: one event,
    /// one attachment per file, and a pending reminder when one is asked for.
    /// An empty drop is refused and leaves the store as it was.
    pub fn insert_drop_event(
        &mut self,
        req: &DropRequest,
        event_id: &String,
        attachment_ids: &Vec<String>,
        reminder_id: &String,
        created_at: i64,
    ) -> (r: Result<EventWithAttachments, StoreError>)
        requires
            attachment_ids.len() == req.files.len(),
        ensures
            req.files.len() == 0 ==> r is Err && r->Err_0 is EmptyInput && *final(self) == *old(self),
            req.files.len() > 0 && !drop_ids_fresh(
                *old(self),
                event_id@,
                attachment_ids@,
                reminder_id@,
                req.remind_at is Some,
            ) ==> r is Err && r->Err_0 is StorageFailure && *final(self) == *old(self),
            old(self).well_formed() ==> final(self).well_formed(),
            req.files.len() > 0 && drop_ids_fresh(
                *old(self),
                event_id@,
                attachment_ids@,
                reminder_id@,
                req.remind_at is Some,
            ) ==> r is Ok && {
                let out = r->Ok_0;
                &&& drop_event_made(*req, out)
                &&& rows_appended(*old(self), *final(self), out)
                &&& out.event.id@ == event_id@
                &&& out.event.created_at == created_at
                &&& forall|i: int|
                    0 <= i < attachment_ids.len() ==> (#[trigger] out.attachments[i]).id@
                        == attachment_ids[i]@
                &&& req.remind_at is Some ==> out.reminders[0].id@ == reminder_id@
            },
    {
        if req.files.len() == 0 {
            return Err(StoreError::EmptyInput);
        }
        if !self.drop_ids_unused(event_id, attachment_ids, reminder_id, req.remind_at.is_some()) {
            return Err(StoreError::StorageFailure("duplicate id".to_owned()));
        }
        let first = &req.files[0].path;
        let mime = get_mime_type(first.as_str());
        let event_type = if is_image_type(&mime) {
            EventType::Image
        } else {
            EventType::File
        };
        let title = path_file_name(first.as_str());

        let mut attachments: Vec<Attachment> = Vec::new();
        let mut i: usize = 0;
        while i < req.files.len()
            invariant
                i <= req.files.len(),
                attachment_ids.len() == req.files.len(),
                attachments.len() == i,
                forall|j: int|
                    0 <= j < i ==> attachment_for(
                        #[trigger] attachments[j],
                        req.files[j],
                        attachment_ids[j]@,
                        event_id@,
                        created_at,
                    ),
            decreases req.files.len() - i,
        {
            let a = attachment_row(&req.files[i], attachment_ids[i].clone(), event_id, created_at);
            attachments.push(a);
            i = i + 1;
        }

        let mut reminders: Vec<Reminder> = Vec::new();
        if let Some(remind_at) = req.remind_at {
            let message = match &req.remind_message {
                Some(m) => m.clone(),
                None => match &req.note {
                    Some(n) => n.clone(),
                    None => match &title {
                        Some(t) => t.clone(),
                        None => "Reminder".to_owned(),
                    },
                },
            };
            reminders.push(
                Reminder {
                    id: reminder_id.clone(),
                    event_id: event_id.clone(),
                    remind_at,
                    message,
                    status: ReminderStatus::Pending,
                    triggered_at: None,
                    snooze_until: None,
                    created_at,
                },
            );
        }

        let event = TimelineEvent {
            id: event_id.clone(),
            event_type,
            title,
            note: copy_opt_string(&req.note),
            text_content: None,
            created_at,
            source: Some(EventSource::Drop),
            is_deleted: false,
        };
        self.events.push(event.duplicate());
        append_copies(&mut self.attachments, &attachments);
        append_copies(&mut self.reminders, &reminders);
        let out = EventWithAttachments { event, attachments, reminders };
        proof {
            lemma_append_keeps_unique(*old(self), *self, out);
        }
        Ok(out)
    }

    /// Records a drop of one or more files, with fresh identifiers and the
    /// current time. An empty drop is refused and leaves the store as it was.
    /// A clash of a fresh identifier with one in use is refused with a
    /// storage failure, as a primary key would refuse it.
    pub fn create_drop_event(&mut self, req: &DropRequest) -> (r: Result<EventWithAttachments, StoreError>)
        ensures
            req.files.len() == 0 ==> r is Err && r->Err_0 is EmptyInput,
            req.files.len() > 0 && r is Err ==> r->Err_0 is StorageFailure,
            r is Err ==> *final(self) == *old(self),
            r is Ok ==> drop_event_made(*req, r->Ok_0) && rows_appended(*old(self), *final(self), r->Ok_0)
                && rows_fresh(*old(self), r->Ok_0),
            old(self).well_formed() ==> final(self).well_formed(),
    {
        if req.files.len() == 0 {
            return Err(StoreError::EmptyInput);
        }
        let event_id = generate_id();
        let created_at = now_ms();
        let mut ids: Vec<String> = Vec::new();
        let mut i: usize = 0;
        while i < req.files.len()
            invariant
                i <= req.files.len(),
                ids.len() == i,
            decreases req.files.len() - i,
        {
            ids.push(generate_id());
            i = i + 1;
        }
        let reminder_id = generate_id();
        self.insert_drop_event(req, &event_id, &ids, &reminder_id, created_at)
    }

    /// Records a note or a piece of text with the given identifiers and time
    /// stamp, and a pending reminder when one is asked for.
    pub fn insert_text_event(
        &mut self,
        note: String,
        text_content: Option<String>,
        remind_at: Option<i64>,
        remind_message: Option<String>,
        event_id: &String,
        reminder_id: &String,
        created_at: i64,
    ) -> (r: Result<EventWithAttachments, StoreError>)
        ensures
            !(event_id_free(old(self).events@, event_id@) && (remind_at is Some ==> reminder_id_free(
                old(self).reminders@,
                reminder_id@,
            ))) ==> r is Err && r->Err_0 is StorageFailure && *final(self) == *old(self),
            old(self).well_formed() ==> final(self).well_formed(),
            event_id_free(old(self).events@, event_id@) && (remind_at is Some ==> reminder_id_free(
                old(self).reminders@,
                reminder_id@,
            )) ==> r is Ok && {
                let out = r->Ok_0;
                &&& text_event_made(note, text_content, remind_at, remind_message, out)
                &&& rows_appended(*old(self), *final(self), out)
                &&& rows_fresh(*old(self), out)
                &&& out.event.id@ == event_id@
                &&& out.event.created_at == created_at
                &&& remind_at is Some ==> out.reminders[0].id@ == reminder_id@
            },
    {
        if !self.event_id_unused(event_id) || (remind_at.is_some() && !self.reminder_id_unused(
            reminder_id,
        )) {
            return Err(StoreError::StorageFailure("duplicate id".to_owned()));
        }
        let event_type = if text_content.is_some() {
            EventType::Text
        } else {
            EventType::Thought
        };
        let mut reminders: Vec<Reminder> = Vec::new();
        if let Some(at) = remind_at {
            let message = match remind_message {
                Some(m) => m,
                None => note.clone(),
            };
            reminders.push(
                Reminder {
                    id: reminder_id.clone(),
                    event_id: event_id.clone(),
                    remind_at: at,
                    message,
                    status: ReminderStatus::Pending,
                    triggered_at: None,
                    snooze_until: None,
                    created_at,
                },
            );
        }
        let event = TimelineEvent {
            id: event_id.clone(),
            event_type,
            title: None,
            note: Some(note),
            text_content,
            created_at,
            source: Some(EventSource::Manual),
            is_deleted: false,
        };
        self.events.push(event.duplicate());
        append_copies(&mut self.reminders, &reminders);
        let attachments: Vec<Attachment> = Vec::new();
        assert(self.attachments@ =~= old(self).attachments@ + attachments@);
        let out = EventWithAttachments { event, attachments, reminders };
        proof {
            lemma_append_keeps_unique(*old(self), *self, out);
        }
        Ok(out)
    }

    /// Records a note or a piece of text, with fresh identifiers and the
    /// current time.
    pub fn create_text_event(
        &mut self,
        note: String,
        text_content: Option<String>,
        remind_at: Option<i64>,
        remind_message: Option<String>,
    ) -> (r: Result<EventWithAttachments, StoreError>)
        ensures
            r is Err ==> r->Err_0 is StorageFailure && *final(self) == *old(self),
            r is Ok ==> text_event_made(note, text_content, remind_at, remind_message, r->Ok_0)
                && rows_appended(*old(self), *final(self), r->Ok_0) && rows_fresh(*old(self), r->Ok_0),
            old(self).well_formed() ==> final(self).well_formed(),
    {
        let event_id = generate_id();
        let created_at = now_ms();
        let reminder_id = generate_id();
        self.insert_text_event(
            note,
            text_content,
            remind_at,
            remind_message,
            &event_id,
            &reminder_id,
            created_at,
        )
    }

    /// The attachments of the event `id`, in table order.
    pub fn attachments_for(&self, id: &String) -> (r: Vec<Attachment>)
        ensures
            r@ == attachments_of(self.attachments@, id@),
    {
        let mut r: Vec<Attachment> = Vec::new();
        let mut i: usize = 0;
        while i < self.attachments.len()
            invariant
                i <= self.attachments.len(),
                r@ == self.attachments@.subrange(0, i as int).filter(owned_attachment(id@)),
            decreases self.attachments.len() - i,
        {
            let ghost prefix = self.attachments@.subrange(0, i as int);
            proof {
                reveal(Seq::filter);
                assert(self.attachments@.subrange(0, i + 1).drop_last() =~= prefix);
            }
            if self.attachments[i].event_id == *id {
                r.push(self.attachments[i].duplicate());
            }
            i = i + 1;
        }
        assert(self.attachments@.subrange(0, i as int) =~= self.attachments@);
        r
    }

    /// The reminders of the event `id`, in table order.
    pub fn reminders_for(&self, id: &String) -> (r: Vec<Reminder>)
        ensures
            r@ == reminders_of(self.reminders@, id@),
    {
        let mut r: Vec<Reminder> = Vec::new();
        let mut i: usize = 0;
        while i < self.reminders.len()
            invariant
                i <= self.reminders.len(),
                r@ == self.reminders@.subrange(0, i as int).filter(owned_reminder(id@)),
            decreases self.reminders.len() - i,
        {
            let ghost prefix = self.reminders@.subrange(0, i as int);
            proof {
                reveal(Seq::filter);
                assert(self.reminders@.subrange(0, i + 1).drop_last() =~= prefix);
            }
            if self.reminders[i].event_id == *id {
                r.push(self.reminders[i].duplicate());
            }
            i = i + 1;
        }
        assert(self.reminders@.subrange(0, i as int) =~= self.reminders@);
        r
    }

    /// The event `e` together with its attachments and reminders.
    pub fn gather(&self, e: &TimelineEvent) -> (out: EventWithAttachments)
        ensures
            with_rows(*self, *e, out),
    {
        EventWithAttachments {
            event: e.duplicate(),
            attachments: self.attachments_for(&e.id),
            reminders: self.reminders_for(&e.id),
        }
    }

    /// The events that are not deleted and were created within the bounds,
    /// newest first when `desc`, oldest first otherwise.
    pub fn events_in_window(&self, start: Option<i64>, end: Option<i64>, desc: bool) -> (r: Vec<
        TimelineEvent,
    >)
        ensures
            r@ == listed_events(self.events@, start, end, desc),
    {
        let mut r: Vec<TimelineEvent> = Vec::new();
        let mut i: usize = 0;
        while i < self.events.len()
            invariant
                i <= self.events.len(),
                r@ == sort_by_key(self.events@.subrange(0, i as int).filter(window(start, end)), desc),
            decreases self.events.len() - i,
        {
            let ghost prefix = self.events@.subrange(0, i as int);
            proof {
                reveal(Seq::filter);
                assert(self.events@.subrange(0, i + 1).drop_last() =~= prefix);
            }
            let e = &self.events[i];
            let shown = !e.is_deleted && match start {
                Some(s) => s <= e.created_at,
                None => true,
            } && match end {
                Some(t) => e.created_at <= t,
                None => true,
            };
            if shown {
                proof {
                    let f = prefix.filter(window(start, end));
                    assert(f.push(self.events@[i as int]).drop_last() =~= f);
                }
                insert_by_key(&mut r, e.duplicate(), desc);
            }
            i = i + 1;
        }
        assert(self.events@.subrange(0, i as int) =~= self.events@);
        r
    }

    /// One page of the events that are not deleted and were created within
    /// the bounds, newest first, each with its attachments and reminders.
    /// Pages are numbered from zero and hold 50 events unless told otherwise.
    pub fn list_events(
        &self,
        start: Option<i64>,
        end: Option<i64>,
        page: Option<u32>,
        page_size: Option<u32>,
    ) -> (r: Vec<EventWithAttachments>)
        ensures
            ({
                let size = match page_size {
                    Some(n) => n as int,
                    None => 50,
                };
                let offset = match page {
                    Some(p) => p as int,
                    None => 0,
                } * size;
                let shown = page_of(listed_events(self.events@, start, end, true), offset, size);
                &&& r.len() == shown.len()
                &&& forall|i: int| 0 <= i < r.len() ==> with_rows(*self, shown[i], #[trigger] r[i])
            }),
    {
        let size: u64 = match page_size {
            Some(n) => n as u64,
            None => 50,
        };
        let number: u64 = match page {
            Some(p) => p as u64,
            None => 0,
        };
        assert(number * size <= u32::MAX as u64 * u32::MAX as u64) by (nonlinear_arith)
            requires
                number <= u32::MAX,
                size <= u32::MAX,
        ;
        let offset: u64 = number * size;
        let all = self.events_in_window(start, end, true);
        let len = all.len() as u64;
        let lo: u64 = if offset < len {
            offset
        } else {
            len
        };
        let hi: u64 = if offset + size < len {
            offset + size
        } else {
            len
        };
        let ghost shown = page_of(all@, offset as int, size as int);
        let mut r: Vec<EventWithAttachments> = Vec::new();
        let mut k: u64 = lo;
        while k < hi
            invariant
                lo <= k <= hi,
                hi <= len == all.len(),
                shown == all@.subrange(lo as int, hi as int),
                r.len() == k - lo,
                forall|i: int| 0 <= i < r.len() ==> with_rows(*self, shown[i], #[trigger] r[i]),
            decreases hi - k,
        {
            r.push(self.gather(&all[k as usize]));
            k = k + 1;
        }
        r
    }

    /// The event `id`, deleted or not, with its attachments and reminders;
    /// `NotFound` when no event has that id.
    pub fn get_event_detail(&self, id: &String) -> (r: Result<EventWithAttachments, StoreError>)
        ensures
            first_event_index(self.events@, id@) is None ==> r is Err && r->Err_0 is NotFound,
            first_event_index(self.events@, id@) is Some ==> r is Ok && with_rows(
                *self,
                self.events@[first_event_index(self.events@, id@)->0],
                r->Ok_0,
            ),
    {
        let mut i: usize = 0;
        while i < self.events.len()
            invariant
                i <= self.events.len(),
                forall|j: int| 0 <= j < i ==> #[trigger] self.events@[j].id@ != id@,
            decreases self.events.len() - i,
        {
            if self.events[i].id == *id {
                proof {
                    lemma_first_index(self.events@, id@, i as int);
                }
                return Ok(self.gather(&self.events[i]));
            }
            i = i + 1;
        }
        Err(StoreError::NotFound)
    }

    /// Marks every event of id `id` as deleted; its rows stay in place.
    pub fn delete_event(&mut self, id: &String)
        ensures
            events_replaced(*old(self), *final(self), soft_deleted(old(self).events@, id@)),
            old(self).well_formed() ==> final(self).well_formed(),
    {
        let mut i: usize = 0;
        while i < self.events.len()
            invariant
                i <= self.events.len(),
                self.events.len() == old(self).events.len(),
                forall|j: int|
                    0 <= j < self.events.len() ==> #[trigger] self.events@[j] == if j < i {
                        soft_deleted(old(self).events@, id@)[j]
                    } else {
                        old(self).events@[j]
                    },
                self.attachments == old(self).attachments,
                self.reminders == old(self).reminders,
                self.exports == old(self).exports,
                self.settings == old(self).settings,
                self.drop_records == old(self).drop_records,
            decreases self.events.len() - i,
        {
            if self.events[i].id == *id {
                let mut e = self.events[i].duplicate();
                e.is_deleted = true;
                self.events.set(i, e);
            }
            i = i + 1;
        }
        assert(self.events@ =~= soft_deleted(old(self).events@, id@));
        assert(forall|j: int| 0 <= j < self.events.len() ==> #[trigger] self.events@[j].id == old(self).events@[j].id);
    }

    /// Replaces the note of every event of id `id`.
    pub fn update_event_note(&mut self, id: &String, note: String)
        ensures
            events_replaced(*old(self), *final(self), noted(old(self).events@, id@, note)),
            old(self).well_formed() ==> final(self).well_formed(),
    {
        let mut i: usize = 0;
        while i < self.events.len()
            invariant
                i <= self.events.len(),
                self.events.len() == old(self).events.len(),
                forall|j: int|
                    0 <= j < self.events.len() ==> #[trigger] self.events@[j] == if j < i {
                        noted(old(self).events@, id@, note)[j]
                    } else {
                        old(self).events@[j]
                    },
                self.attachments == old(self).attachments,
                self.reminders == old(self).reminders,
                self.exports == old(self).exports,
                self.settings == old(self).settings,
                self.drop_records == old(self).drop_records,
            decreases self.events.len() - i,
        {
            if self.events[i].id == *id {
                let mut e = self.events[i].duplicate();
                e.note = Some(note.clone());
                self.events.set(i, e);
            }
            i = i + 1;
        }
        assert(self.events@ =~= noted(old(self).events@, id@, note));
        assert(forall|j: int| 0 <= j < self.events.len() ==> #[trigger] self.events@[j].id == old(self).events@[j].id);
    }
}

} // verus!
