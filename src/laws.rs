//! Properties that relate several operations of the store.
use vstd::prelude::*;
use crate::export::{day_entries, document_text, entries_text, entry_text, markdown_text, ExportEntry};
use crate::model::{DailyExport, EventWithAttachments, Reminder, ReminderStatus, TimelineEvent};
use crate::order::{
    lemma_count_one, lemma_count_two, lemma_filter_all_or_none, lemma_filter_count, lemma_filter_member, lemma_sort_contains,
    lemma_sort_filter_member, lemma_sort_multiset, lemma_sort_ordered, sort_by_key, goes_before,
};
use crate::tables::text_less;
use crate::reminders::{
    after_tick, announced, apply_to_id, dismissed, due_at, has_event, is_due, snooze_consistent, snooze_end,
    snooze_with, snoozed, triggered, with_event, open_reminder,
};
use crate::store::{
    attachment_for, attachments_of, drop_event_made, event_ids_unique, owned_attachment, owned_reminder,
    reminders_of, rows_fresh, new_reminder, reminder_id_free, reminder_ids_unique, first_event_index, lemma_first_event_found, lemma_first_index, listed_events, page_of,
    rows_appended, soft_deleted, window, DropRequest, EventStore,
};
use crate::tables::{export_index, exports_unique, upsert_export};

verus! {

/// A drop of one or more files adds exactly one event and one attachment per
/// file, and every new attachment belongs to the new event.
pub proof fn lemma_drop_adds_one_event(
    before: EventStore,
    after: EventStore,
    req: DropRequest,
    out: EventWithAttachments,
)
    requires
        req.files.len() > 0,
        drop_event_made(req, out),
        rows_appended(before, after, out),
    ensures
        after.events.len() == before.events.len() + 1,
        after.events@.last() == out.event,
        after.attachments.len() == before.attachments.len() + req.files.len(),
        forall|i: int|
            before.attachments.len() <= i < after.attachments.len() ==> (
            #[trigger] after.attachments@[i]).event_id@ == after.events@.last().id@,
{
    assert forall|i: int|
        before.attachments.len() <= i < after.attachments.len() implies (
        #[trigger] after.attachments@[i]).event_id@ == after.events@.last().id@ by {
        let k = i - before.attachments.len();
        assert(after.attachments@[i] == out.attachments@[k]);
        assert(attachment_for(
            out.attachments[k],
            req.files[k],
            out.attachments[k].id@,
            out.event.id@,
            out.event.created_at,
        ));
    }
}

/// Every event of a listing is one of the events and lies in the window.
proof fn lemma_listed_in_window(
    events: Seq<TimelineEvent>,
    start: Option<i64>,
    end: Option<i64>,
    desc: bool,
    i: int,
)
    requires
        0 <= i < listed_events(events, start, end, desc).len(),
    ensures
        window(start, end)(listed_events(events, start, end, desc)[i]),
{
    let f = events.filter(window(start, end));
    let s = listed_events(events, start, end, desc);
    assert(s.contains(s[i]));
    lemma_sort_contains(f, desc, s[i]);
    let j = choose|j: int| 0 <= j < f.len() && f[j] == s[i];
    events.lemma_filter_pred(window(start, end), j);
}

/// No page of a listing shows a deleted event.
pub proof fn lemma_listing_hides_deleted(
    events: Seq<TimelineEvent>,
    start: Option<i64>,
    end: Option<i64>,
    desc: bool,
    offset: int,
    limit: int,
)
    requires
        0 <= offset,
        0 <= limit,
    ensures
        forall|i: int|
            0 <= i < page_of(listed_events(events, start, end, desc), offset, limit).len()
                ==> !(#[trigger] page_of(listed_events(events, start, end, desc), offset, limit)[i]).is_deleted,
{
    let s = listed_events(events, start, end, desc);
    let p = page_of(s, offset, limit);
    assert forall|i: int| 0 <= i < p.len() implies !(#[trigger] p[i]).is_deleted by {
        let lo = if offset < s.len() {
            offset
        } else {
            s.len() as int
        };
        assert(p[i] == s[lo + i]);
        lemma_listed_in_window(events, start, end, desc, lo + i);
    }
}

/// A deleted event is still found by its id, marked deleted.
pub proof fn lemma_deleted_event_found(events: Seq<TimelineEvent>, id: Seq<char>)
    requires
        first_event_index(events, id) is Some,
    ensures
        first_event_index(soft_deleted(events, id), id) == first_event_index(events, id),
        soft_deleted(events, id)[first_event_index(events, id)->0].is_deleted,
{
    let d = soft_deleted(events, id);
    let w = choose|i: int| 0 <= i < events.len() && #[trigger] events[i].id@ == id;
    lemma_first_event_found(events, id, w);
    let k = first_event_index(events, id)->0;
    assert forall|j: int| 0 <= j < d.len() implies #[trigger] d[j].id@ == events[j].id@ by {}
    assert forall|j: int| 0 <= j < k implies #[trigger] d[j].id@ != id by {
        assert(d[j].id@ == events[j].id@);
    }
    lemma_first_index(d, id, k);
}

/// Deleting twice leaves the events as deleting once does, with every event
/// of that id marked deleted.
pub proof fn lemma_delete_idempotent(events: Seq<TimelineEvent>, id: Seq<char>)
    ensures
        soft_deleted(soft_deleted(events, id), id) == soft_deleted(events, id),
        forall|i: int|
            0 <= i < events.len() && events[i].id@ == id ==> (#[trigger] soft_deleted(
                events,
                id,
            )[i]).is_deleted,
{
    assert(soft_deleted(soft_deleted(events, id), id) =~= soft_deleted(events, id));
}

/// A pending reminder whose time has come and whose event exists is
/// triggered by the next tick, stamped with the tick's time, and announced.
pub proof fn lemma_due_reminder_fires(
    rows: Seq<Reminder>,
    events: Seq<TimelineEvent>,
    now: i64,
    i: int,
)
    requires
        0 <= i < rows.len(),
        rows[i].status == ReminderStatus::Pending,
        rows[i].remind_at <= now,
        has_event(events, rows[i].event_id@),
    ensures
        after_tick(rows, events, now)[i].status == ReminderStatus::Triggered,
        after_tick(rows, events, now)[i].triggered_at == Some(now),
        after_tick(rows, events, now)[i].snooze_until is None,
        announced(rows, events, now).contains(rows[i]),
{
    let due = rows.filter(due_at(now));
    rows.lemma_filter_contains(due_at(now), i);
    let sorted = sort_by_key(due, false);
    lemma_sort_contains(due, false, rows[i]);
    let j = choose|j: int| 0 <= j < sorted.len() && sorted[j] == rows[i];
    sorted.lemma_filter_contains(with_event(events), j);
}

/// After a snooze until `until`, a tick before `until` leaves the reminder
/// as it is, and a tick at or after `until` triggers it when its event
/// exists.
pub proof fn lemma_snooze_then_tick(
    rows: Seq<Reminder>,
    events: Seq<TimelineEvent>,
    id: Seq<char>,
    until: i64,
    now: i64,
    i: int,
)
    requires
        0 <= i < rows.len(),
        rows[i].id@ == id,
    ensures
        apply_to_id(rows, id, snooze_with(until))[i].status == ReminderStatus::Snoozed,
        apply_to_id(rows, id, snooze_with(until))[i].snooze_until == Some(until),
        now < until ==> after_tick(apply_to_id(rows, id, snooze_with(until)), events, now)[i]
            == apply_to_id(rows, id, snooze_with(until))[i],
        now >= until && has_event(events, rows[i].event_id@) ==> after_tick(
            apply_to_id(rows, id, snooze_with(until)),
            events,
            now,
        )[i] == triggered(apply_to_id(rows, id, snooze_with(until))[i], now),
{
}

/// A snooze of `minutes` minutes that stays within `i64` ends exactly that
/// many minutes after `now`.
pub proof fn lemma_snooze_end_exact(now: i64, minutes: i64)
    requires
        i64::MIN <= now as int + minutes as int * 60000 <= i64::MAX,
    ensures
        snooze_end(now, minutes) == now as int + minutes as int * 60000,
{
}

/// The first record for a date and format exists whenever some record has
/// them, and it is the least such index.
proof fn lemma_export_index_found(rows: Seq<DailyExport>, date: Seq<char>, format: Seq<char>, i: int)
    requires
        0 <= i < rows.len(),
        rows[i].date_key@ == date,
        rows[i].output_format@ == format,
    ensures
        export_index(rows, date, format) is Some,
        ({
            let k = export_index(rows, date, format)->0;
            &&& 0 <= k <= i
            &&& rows[k].date_key@ == date
            &&& rows[k].output_format@ == format
        }),
    decreases i,
{
    if exists|j: int| 0 <= j < i && #[trigger] rows[j].date_key@ == date && rows[j].output_format@ == format {
        let j = choose|j: int|
            0 <= j < i && #[trigger] rows[j].date_key@ == date && rows[j].output_format@ == format;
        lemma_export_index_found(rows, date, format, j);
    } else {
        assert(forall|j: int|
            0 <= j < i ==> !(#[trigger] rows[j].date_key@ == date && rows[j].output_format@
                == format));
    }
}

/// Recording keeps records unique by date and format, and leaves a record
/// for the recorded pair holding the recorded path.
proof fn lemma_upsert_export(rows: Seq<DailyExport>, row: DailyExport)
    requires
        exports_unique(rows),
    ensures
        exports_unique(upsert_export(rows, row)),
        export_index(upsert_export(rows, row), row.date_key@, row.output_format@) is Some,
        ({
            let after = upsert_export(rows, row);
            let k = export_index(after, row.date_key@, row.output_format@)->0;
            &&& 0 <= k < after.len()
            &&& after[k].output_path == row.output_path
        }),
{
    let after = upsert_export(rows, row);
    let d = row.date_key@;
    let f = row.output_format@;
    match export_index(rows, d, f) {
        Some(k) => {
            let w = choose|i: int|
                0 <= i < rows.len() && #[trigger] rows[i].date_key@ == d && rows[i].output_format@ == f;
            lemma_export_index_found(rows, d, f, w);
            assert(after[k].date_key@ == d && after[k].output_format@ == f);
            lemma_export_index_found(after, d, f, k);
            let k2 = export_index(after, d, f)->0;
            if k2 != k {
                assert(after[k2] == rows[k2]);
            }
        },
        None => {
            let n = rows.len() as int;
            assert(after[n].date_key@ == d && after[n].output_format@ == f);
            lemma_export_index_found(after, d, f, n);
            let k2 = export_index(after, d, f)->0;
            if k2 != n {
                assert(after[k2] == rows[k2]);
                assert(rows[k2].date_key@ == d && rows[k2].output_format@ == f);
            }
        },
    }
}

/// Recording the same date and format twice leaves a single record for the
/// pair, holding the later path, and adds no row on the second call.
pub proof fn lemma_export_idempotent(rows: Seq<DailyExport>, first: DailyExport, second: DailyExport)
    requires
        exports_unique(rows),
        first.date_key@ == second.date_key@,
        first.output_format@ == second.output_format@,
    ensures
        ({
            let once = upsert_export(rows, first);
            let twice = upsert_export(once, second);
            let k = export_index(twice, second.date_key@, second.output_format@)->0;
            &&& exports_unique(twice)
            &&& twice.len() == once.len()
            &&& export_index(twice, second.date_key@, second.output_format@) is Some
            &&& twice[k].output_path == second.output_path
            &&& forall|i: int|
                0 <= i < twice.len() && #[trigger] twice[i].date_key@ == second.date_key@
                    && twice[i].output_format@ == second.output_format@ ==> i == k
        }),
{
    let once = upsert_export(rows, first);
    lemma_upsert_export(rows, first);
    lemma_upsert_export(once, second);
    let twice = upsert_export(once, second);
    let k = export_index(twice, second.date_key@, second.output_format@)->0;
    assert(export_index(once, second.date_key@, second.output_format@) is Some);
    assert forall|i: int|
        0 <= i < twice.len() && #[trigger] twice[i].date_key@ == second.date_key@
            && twice[i].output_format@ == second.output_format@ implies i == k by {
        if i < k {
            assert(!(twice[i].date_key@ == second.date_key@ && twice[i].output_format@
                == second.output_format@));
        }
        if k < i {
            assert(!(twice[k].date_key@ == twice[i].date_key@ && twice[k].output_format@
                == twice[i].output_format@));
        }
    }
}

/// Sections that render alike give the same text, in order.
proof fn lemma_entries_text_equal(a: Seq<ExportEntry>, b: Seq<ExportEntry>)
    requires
        a.len() == b.len(),
        forall|i: int| 0 <= i < a.len() ==> entry_text(#[trigger] a[i]) == entry_text(b[i]),
    ensures
        entries_text(a) == entries_text(b),
    decreases a.len(),
{
    if a.len() > 0 {
        lemma_entries_text_equal(a.drop_last(), b.drop_last());
    }
}

/// Rendering depends on the stored rows and the clock readings alone: two
/// stores with the same events and attachments, read at the same times of
/// day, give the same digest.
pub proof fn lemma_export_deterministic(
    first: EventStore,
    second: EventStore,
    start: i64,
    end: i64,
    a: Seq<ExportEntry>,
    b: Seq<ExportEntry>,
    format: Seq<char>,
    date_key: Seq<char>,
)
    requires
        first.events@ == second.events@,
        first.attachments@ == second.attachments@,
        day_entries(first, start, end, a),
        day_entries(second, start, end, b),
        forall|i: int| 0 <= i < a.len() ==> (#[trigger] a[i]).clock == b[i].clock,
    ensures
        document_text(format, date_key, a) == document_text(format, date_key, b),
{
    assert forall|i: int| 0 <= i < a.len() implies entry_text(#[trigger] a[i]) == entry_text(b[i]) by {
        assert(a[i].event == b[i].event);
        assert(a[i].attachments@ == b[i].attachments@);
    }
    lemma_entries_text_equal(a, b);
    assert(markdown_text(date_key, a) == markdown_text(date_key, b));
}

/// Among reminders with distinct ids, a tick announces a due reminder whose
/// event exists exactly once: one announcement carries its id.
pub proof fn lemma_due_reminder_announced_once(
    rows: Seq<Reminder>,
    events: Seq<TimelineEvent>,
    now: i64,
    i: int,
)
    requires
        0 <= i < rows.len(),
        forall|a: int, b: int| 0 <= a < b < rows.len() ==> rows[a].id@ != rows[b].id@,
        is_due(rows[i], now),
        has_event(events, rows[i].event_id@),
    ensures
        ({
            let ann = announced(rows, events, now);
            exists|k: int|
                0 <= k < ann.len() && #[trigger] ann[k] == rows[i] && forall|k2: int|
                    0 <= k2 < ann.len() && (#[trigger] ann[k2]).id@ == rows[i].id@ ==> k2 == k
        }),
{
    broadcast use vstd::multiset::group_multiset_axioms;

    let due = rows.filter(due_at(now));
    let sorted = sort_by_key(due, false);
    let ann = sorted.filter(with_event(events));
    let x = rows[i];
    rows.lemma_filter_contains(due_at(now), i);
    lemma_sort_contains(due, false, x);
    let j = choose|j: int| 0 <= j < sorted.len() && sorted[j] == x;
    sorted.lemma_filter_contains(with_event(events), j);
    let k = choose|k: int| 0 <= k < ann.len() && ann[k] == x;
    assert forall|a: int| 0 <= a < rows.len() && a != i implies rows[a] != rows[i] by {
        if a < i {
            assert(rows[a].id@ != rows[i].id@);
        } else {
            assert(rows[i].id@ != rows[a].id@);
        }
    }
    lemma_count_one(rows, i);
    lemma_filter_count(rows, due_at(now), x);
    lemma_sort_multiset(due, false);
    lemma_filter_count(sorted, with_event(events), x);
    assert forall|k2: int| 0 <= k2 < ann.len() && (#[trigger] ann[k2]).id@ == x.id@ implies k2 == k by {
        let y = ann[k2];
        assert(ann.contains(y));
        vstd::seq_lib::to_multiset_contains(ann, y);
        lemma_filter_count(sorted, with_event(events), y);
        lemma_filter_count(rows, due_at(now), y);
        vstd::seq_lib::to_multiset_contains(rows, y);
        let a = choose|a: int| 0 <= a < rows.len() && rows[a] == y;
        if a != i {
            if a < i {
                assert(rows[a].id@ != rows[i].id@);
            } else {
                assert(rows[i].id@ != rows[a].id@);
            }
        }
        if k2 != k {
            lemma_count_two(ann, k, k2);
        }
    }
    assert(ann[k] == rows[i]);
    assert(ann == announced(rows, events, now));
    assert(0 <= k < ann.len() && ann[k] == rows[i] && forall|k2: int|
        0 <= k2 < ann.len() && (#[trigger] ann[k2]).id@ == rows[i].id@ ==> k2 == k);
}

/// A reminder's snooze end is set exactly while it is snoozed: a new
/// reminder has none, and every transition keeps the rule.
pub proof fn lemma_snooze_end_only_while_snoozed(
    r: Reminder,
    id: Seq<char>,
    event_id: Seq<char>,
    remind_at: i64,
    message: Seq<char>,
    created_at: i64,
    at: i64,
)
    ensures
        new_reminder(r, id, event_id, remind_at, message, created_at) ==> snooze_consistent(r),
        snooze_consistent(snoozed(r, at)),
        snooze_consistent(dismissed(r, at)),
        snooze_consistent(triggered(r, at)),
{
}

/// A listing is ordered by creation time: newest first when descending,
/// oldest first otherwise.
pub proof fn lemma_listing_ordered(events: Seq<TimelineEvent>, start: Option<i64>, end: Option<i64>, desc: bool)
    ensures
        forall|i: int, j: int|
            0 <= i < j < listed_events(events, start, end, desc).len() ==> if desc {
                listed_events(events, start, end, desc)[i].created_at >= listed_events(
                    events,
                    start,
                    end,
                    desc,
                )[j].created_at
            } else {
                listed_events(events, start, end, desc)[i].created_at <= listed_events(
                    events,
                    start,
                    end,
                    desc,
                )[j].created_at
            },
{
    let l = listed_events(events, start, end, desc);
    lemma_sort_ordered(events.filter(window(start, end)), desc);
    assert forall|i: int, j: int| 0 <= i < j < l.len() implies (if desc {
        l[i].created_at >= l[j].created_at
    } else {
        l[i].created_at <= l[j].created_at
    }) by {
        assert(!goes_before(l[j], l[i], desc));
    }
}

/// Pending and snoozed reminders are listed earliest time first.
pub proof fn lemma_pending_ordered(rows: Seq<Reminder>)
    ensures
        forall|i: int, j: int|
            0 <= i < j < sort_by_key(rows.filter(open_reminder()), false).len() ==> sort_by_key(
                rows.filter(open_reminder()),
                false,
            )[i].remind_at <= sort_by_key(rows.filter(open_reminder()), false)[j].remind_at,
{
    let l = sort_by_key(rows.filter(open_reminder()), false);
    lemma_sort_ordered(rows.filter(open_reminder()), false);
    assert forall|i: int, j: int| 0 <= i < j < l.len() implies l[i].remind_at <= l[j].remind_at by {
        assert(!goes_before(l[j], l[i], false));
    }
}

/// Export records are listed latest date first.
pub proof fn lemma_exports_ordered(rows: Seq<DailyExport>)
    ensures
        forall|i: int, j: int|
            0 <= i < j < sort_by_key(rows, true).len() ==> !text_less(
                sort_by_key(rows, true)[i].date_key@,
                sort_by_key(rows, true)[j].date_key@,
            ),
{
    let l = sort_by_key(rows, true);
    lemma_sort_ordered(rows, true);
    assert forall|i: int, j: int| 0 <= i < j < l.len() implies !text_less(l[i].date_key@, l[j].date_key@) by {
        assert(!goes_before(l[j], l[i], true));
    }
}

/// Among events with distinct ids, a listing never shows one id twice.
pub proof fn lemma_listing_distinct_ids(
    events: Seq<TimelineEvent>,
    start: Option<i64>,
    end: Option<i64>,
    desc: bool,
)
    requires
        event_ids_unique(events),
    ensures
        forall|i: int, j: int|
            0 <= i < j < listed_events(events, start, end, desc).len() ==> listed_events(
                events,
                start,
                end,
                desc,
            )[i].id@ != listed_events(events, start, end, desc)[j].id@,
{
    broadcast use vstd::multiset::group_multiset_axioms;

    let f = events.filter(window(start, end));
    let l = listed_events(events, start, end, desc);
    assert forall|i: int, j: int| 0 <= i < j < l.len() implies l[i].id@ != l[j].id@ by {
        if l[i].id@ == l[j].id@ {
            assert(l.contains(l[i]));
            assert(l.contains(l[j]));
            lemma_sort_filter_member(events, window(start, end), desc, l[i]);
            lemma_sort_filter_member(events, window(start, end), desc, l[j]);
            let a = choose|a: int| 0 <= a < events.len() && events[a] == l[i];
            let b = choose|b: int| 0 <= b < events.len() && events[b] == l[j];
            if a != b {
                if a < b {
                    assert(events[a].id@ != events[b].id@);
                } else {
                    assert(events[b].id@ != events[a].id@);
                }
            }
            assert forall|c: int| 0 <= c < events.len() && c != a implies events[c] != events[a] by {
                if c < a {
                    assert(events[c].id@ != events[a].id@);
                } else {
                    assert(events[a].id@ != events[c].id@);
                }
            }
            lemma_count_one(events, a);
            lemma_filter_count(events, window(start, end), events[a]);
            lemma_sort_multiset(f, desc);
            lemma_count_two(l, i, j);
        }
    }
}

/// Among reminders with distinct ids, a tick leaves a reminder whose event
/// is missing as it is, and announces nothing with its id.
pub proof fn lemma_tick_skips_missing_event(
    rows: Seq<Reminder>,
    events: Seq<TimelineEvent>,
    now: i64,
    i: int,
)
    requires
        0 <= i < rows.len(),
        reminder_ids_unique(rows),
        !has_event(events, rows[i].event_id@),
    ensures
        after_tick(rows, events, now)[i] == rows[i],
        forall|k: int|
            0 <= k < announced(rows, events, now).len() ==> (#[trigger] announced(rows, events, now)[k]).id@
                != rows[i].id@,
{
    let sorted = sort_by_key(rows.filter(due_at(now)), false);
    let ann = announced(rows, events, now);
    assert forall|k: int| 0 <= k < ann.len() implies (#[trigger] ann[k]).id@ != rows[i].id@ by {
        let y = ann[k];
        lemma_filter_member(sorted, with_event(events), k);
        lemma_sort_filter_member(rows, due_at(now), false, y);
        let a = choose|a: int| 0 <= a < rows.len() && rows[a] == y;
        if a != i {
            if a < i {
                assert(rows[a].id@ != rows[i].id@);
            } else {
                assert(rows[i].id@ != rows[a].id@);
            }
        }
    }
}

/// A reminder just added with a fresh id, due at `now` and whose event
/// exists, is triggered by a tick at `now` and announced exactly once.
pub proof fn lemma_created_reminder_fires_once(
    before: Seq<Reminder>,
    r: Reminder,
    events: Seq<TimelineEvent>,
    now: i64,
)
    requires
        reminder_ids_unique(before),
        reminder_id_free(before, r.id@),
        r.status == ReminderStatus::Pending,
        r.remind_at <= now,
        has_event(events, r.event_id@),
    ensures
        ({
            let rows = before.push(r);
            let ann = announced(rows, events, now);
            &&& after_tick(rows, events, now)[before.len() as int].status == ReminderStatus::Triggered
            &&& after_tick(rows, events, now)[before.len() as int].triggered_at == Some(now)
            &&& exists|k: int|
                0 <= k < ann.len() && #[trigger] ann[k] == r && forall|k2: int|
                    0 <= k2 < ann.len() && (#[trigger] ann[k2]).id@ == r.id@ ==> k2 == k
        }),
{
    let rows = before.push(r);
    let n = before.len() as int;
    assert(rows[n] == r);
    assert forall|a: int, b: int| 0 <= a < b < rows.len() implies rows[a].id@ != rows[b].id@ by {
        assert(rows[a] == before[a]);
        if b < n {
            assert(rows[b] == before[b]);
        }
    }
    lemma_due_reminder_fires(rows, events, now, n);
    lemma_due_reminder_announced_once(rows, events, now, n);
}

/// Among reminders with distinct ids, a reminder snoozed until `until`
/// whose event exists is triggered by a tick at or after `until` and
/// announced exactly once.
pub proof fn lemma_snoozed_reminder_fires_once(
    rows: Seq<Reminder>,
    events: Seq<TimelineEvent>,
    id: Seq<char>,
    until: i64,
    now: i64,
    i: int,
)
    requires
        0 <= i < rows.len(),
        reminder_ids_unique(rows),
        rows[i].id@ == id,
        until <= now,
        has_event(events, rows[i].event_id@),
    ensures
        ({
            let s = apply_to_id(rows, id, snooze_with(until));
            let ann = announced(s, events, now);
            &&& after_tick(s, events, now)[i] == triggered(s[i], now)
            &&& exists|k: int|
                0 <= k < ann.len() && #[trigger] ann[k] == s[i] && forall|k2: int|
                    0 <= k2 < ann.len() && (#[trigger] ann[k2]).id@ == id ==> k2 == k
        }),
{
    let s = apply_to_id(rows, id, snooze_with(until));
    assert forall|a: int, b: int| 0 <= a < b < s.len() implies s[a].id@ != s[b].id@ by {
        assert(s[a].id == rows[a].id);
        assert(s[b].id == rows[b].id);
    }
    assert(is_due(s[i], now));
    lemma_due_reminder_announced_once(s, events, now, i);
}

/// Right after a drop whose ids are fresh, looking up its event finds it
/// with exactly the drop's attachments and reminders, when no earlier row
/// referred to that id.
pub proof fn lemma_drop_then_detail(
    before: EventStore,
    after: EventStore,
    req: DropRequest,
    out: EventWithAttachments,
)
    requires
        req.files.len() > 0,
        drop_event_made(req, out),
        rows_appended(before, after, out),
        rows_fresh(before, out),
        forall|i: int| 0 <= i < before.attachments.len() ==> (#[trigger] before.attachments@[i]).event_id@ != out.event.id@,
        forall|i: int| 0 <= i < before.reminders.len() ==> (#[trigger] before.reminders@[i]).event_id@ != out.event.id@,
    ensures
        first_event_index(after.events@, out.event.id@) == Some(before.events.len() as int),
        attachments_of(after.attachments@, out.event.id@) == out.attachments@,
        reminders_of(after.reminders@, out.event.id@) == out.reminders@,
{
    let id = out.event.id@;
    Seq::filter_distributes_over_add(before.attachments@, out.attachments@, owned_attachment(id));
    Seq::filter_distributes_over_add(before.reminders@, out.reminders@, owned_reminder(id));
    let n = before.events.len() as int;
    assert(after.events@[n] == out.event);
    assert forall|j: int| 0 <= j < n implies #[trigger] after.events@[j].id@ != id by {
        assert(after.events@[j] == before.events@[j]);
    }
    lemma_first_index(after.events@, id, n);
    lemma_filter_all_or_none(before.attachments@, owned_attachment(id));
    lemma_filter_all_or_none(out.attachments@, owned_attachment(id));
    assert forall|i: int| 0 <= i < out.attachments.len() implies owned_attachment(id)(#[trigger] out.attachments@[i]) by {
        assert(attachment_for(
            out.attachments[i],
            req.files[i],
            out.attachments[i].id@,
            out.event.id@,
            out.event.created_at,
        ));
    }
    assert(before.attachments@.filter(owned_attachment(id)) =~= Seq::<crate::model::Attachment>::empty());
    assert(attachments_of(after.attachments@, id) =~= out.attachments@);
    lemma_filter_all_or_none(before.reminders@, owned_reminder(id));
    lemma_filter_all_or_none(out.reminders@, owned_reminder(id));
    assert(before.reminders@.filter(owned_reminder(id)) =~= Seq::<Reminder>::empty());
    assert(reminders_of(after.reminders@, id) =~= out.reminders@);
}

} // verus!
