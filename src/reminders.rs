use vstd::prelude::*;
use crate::clock::{generate_id, now_ms};
use crate::model::{Attachment, Duplicate, Reminder, ReminderStatus, StoreError, TimelineEvent};
use crate::order::{insert_by_key, sort_by_key};
use crate::store::{attachments_of, first_event_index, new_reminder, reminder_id_free, EventStore};

verus! {

/// A due reminder whose event was found: what the scheduler announces.
pub struct ReminderDue {
    pub reminder: Reminder,
    pub event: TimelineEvent,
    pub attachments: Vec<Attachment>,
}

/// `r` snoozed until `until`.
pub open spec fn snoozed(r: Reminder, until: i64) -> Reminder {
    Reminder { status: ReminderStatus::Snoozed, snooze_until: Some(until), ..r }
}

/// `r` dismissed at `at`.
pub open spec fn dismissed(r: Reminder, at: i64) -> Reminder {
    Reminder { status: ReminderStatus::Dismissed, triggered_at: Some(at), snooze_until: None, ..r }
}

/// `r` triggered at `at`.
pub open spec fn triggered(r: Reminder, at: i64) -> Reminder {
    Reminder { status: ReminderStatus::Triggered, triggered_at: Some(at), snooze_until: None, ..r }
}

/// The update that snoozes a reminder until `until`.
pub open spec fn snooze_with(until: i64) -> spec_fn(Reminder) -> Reminder {
    |r: Reminder| snoozed(r, until)
}

/// The update that dismisses a reminder at `at`.
pub open spec fn dismiss_with(at: i64) -> spec_fn(Reminder) -> Reminder {
    |r: Reminder| dismissed(r, at)
}

/// `rows` with `f` applied to every reminder of id `id`.
pub open spec fn apply_to_id(rows: Seq<Reminder>, id: Seq<char>, f: spec_fn(Reminder) -> Reminder) -> Seq<
    Reminder,
> {
    Seq::new(
        rows.len(),
        |i: int|
            if rows[i].id@ == id {
                f(rows[i])
            } else {
                rows[i]
            },
    )
}

/// Whether a reminder waits for the scheduler: pending or snoozed.
pub open spec fn is_open(r: Reminder) -> bool {
    r.status == ReminderStatus::Pending || r.status == ReminderStatus::Snoozed
}

/// The predicate `is_open`.
pub open spec fn open_reminder() -> spec_fn(Reminder) -> bool {
    |r: Reminder| is_open(r)
}

/// Whether a reminder is due at `now`: pending and past its time, or snoozed
/// and past the end of its snooze.
pub open spec fn is_due(r: Reminder, now: i64) -> bool {
    ||| r.status == ReminderStatus::Pending && r.remind_at <= now
    ||| r.status == ReminderStatus::Snoozed && r.snooze_until is Some && r.snooze_until->0 <= now
}

/// The predicate `is_due` at a fixed time.
pub open spec fn due_at(now: i64) -> spec_fn(Reminder) -> bool {
    |r: Reminder| is_due(r, now)
}

/// Whether some event has the id `id`.
pub open spec fn has_event(events: Seq<TimelineEvent>, id: Seq<char>) -> bool {
    first_event_index(events, id) is Some
}

/// The predicate `has_event` over a fixed event table.
pub open spec fn with_event(events: Seq<TimelineEvent>) -> spec_fn(Reminder) -> bool {
    |r: Reminder| has_event(events, r.event_id@)
}

/// Whether a tick at `now` fires `r`: it is due and its event exists.
pub open spec fn fires(r: Reminder, events: Seq<TimelineEvent>, now: i64) -> bool {
    is_due(r, now) && has_event(events, r.event_id@)
}

/// The reminder table after a tick at `now`: each reminder that fires is
/// triggered at `now`, the others stay as they are.
pub open spec fn after_tick(rows: Seq<Reminder>, events: Seq<TimelineEvent>, now: i64) -> Seq<Reminder> {
    Seq::new(
        rows.len(),
        |i: int|
            if fires(rows[i], events, now) {
                triggered(rows[i], now)
            } else {
                rows[i]
            },
    )
}

/// The reminders that a tick at `now` announces, in order of their time.
pub open spec fn announced(rows: Seq<Reminder>, events: Seq<TimelineEvent>, now: i64) -> Seq<Reminder> {
    sort_by_key(rows.filter(due_at(now)), false).filter(with_event(events))
}

/// `d` announces `r` with its event and that event's attachments.
pub open spec fn announces(store: EventStore, r: Reminder, d: ReminderDue) -> bool {
    &&& d.reminder == r
    &&& d.event == store.events@[first_event_index(store.events@, r.event_id@)->0]
    &&& d.attachments@ == attachments_of(store.attachments@, r.event_id@)
}

/// A reminder's snooze end is set exactly while it is snoozed.
pub open spec fn snooze_consistent(r: Reminder) -> bool {
    r.snooze_until is Some <==> r.status == ReminderStatus::Snoozed
}

/// `new` differs from `old` in its reminder table alone, which is `rows`.
pub open spec fn reminders_replaced(old: EventStore, new: EventStore, rows: Seq<Reminder>) -> bool {
    &&& new.events@ == old.events@
    &&& new.attachments@ == old.attachments@
    &&& new.reminders@ == rows
    &&& new.exports@ == old.exports@
    &&& new.settings@ == old.settings@
    &&& new.drop_records@ == old.drop_records@
}

impl EventStore {
    /// Adds a pending reminder for the event `event_id` with the given
    /// identifier and time stamp.
    pub fn insert_reminder(
        &mut self,
        event_id: String,
        remind_at: i64,
        message: String,
        id: String,
        created_at: i64,
    ) -> (r: Result<Reminder, StoreError>)
        ensures
            !reminder_id_free(old(self).reminders@, id@) ==> r is Err && r->Err_0 is StorageFailure
                && *final(self) == *old(self),
            reminder_id_free(old(self).reminders@, id@) ==> r is Ok && new_reminder(
                r->Ok_0,
                id@,
                event_id@,
                remind_at,
                message@,
                created_at,
            ) && reminders_replaced(*old(self), *final(self), old(self).reminders@.push(r->Ok_0)),
            old(self).well_formed() ==> final(self).well_formed(),
    {
        if !self.reminder_id_unused(&id) {
            return Err(StoreError::StorageFailure("duplicate id".to_owned()));
        }
        let r = Reminder {
            id,
            event_id,
            remind_at,
            message,
            status: ReminderStatus::Pending,
            triggered_at: None,
            snooze_until: None,
            created_at,
        };
        self.reminders.push(r.duplicate());
        proof {
            if old(self).well_formed() {
                assert forall|i: int, j: int|
                    0 <= i < j < self.reminders@.len() implies self.reminders@[i].id@
                    != self.reminders@[j].id@ by {
                    assert(self.reminders@[i] == old(self).reminders@[i]);
                    if j < old(self).reminders.len() {
                        assert(self.reminders@[j] == old(self).reminders@[j]);
                    }
                }
            }
        }
        Ok(r)
    }

    /// Adds a pending reminder for the event `event_id`, with a fresh
    /// identifier and the current time.
    /// A clash of the fresh identifier with one in use is refused with a
    /// storage failure.
    pub fn create_reminder(&mut self, event_id: String, remind_at: i64, message: String) -> (r: Result<
        Reminder,
        StoreError,
    >)
        ensures
            r is Err ==> r->Err_0 is StorageFailure && *final(self) == *old(self),
            r is Ok ==> new_reminder(r->Ok_0, r->Ok_0.id@, event_id@, remind_at, message@, r->Ok_0.created_at)
                && reminder_id_free(old(self).reminders@, r->Ok_0.id@) && reminders_replaced(
                *old(self),
                *final(self),
                old(self).reminders@.push(r->Ok_0),
            ),
            old(self).well_formed() ==> final(self).well_formed(),
    {
        let id = generate_id();
        let created_at = now_ms();
        self.insert_reminder(event_id, remind_at, message, id, created_at)
    }

    /// Snoozes every reminder of id `id` until `until`.
    pub fn snooze_reminder_until(&mut self, id: &String, until: i64)
        ensures
            reminders_replaced(
                *old(self),
                *final(self),
                apply_to_id(old(self).reminders@, id@, snooze_with(until)),
            ),
            old(self).well_formed() ==> final(self).well_formed(),
    {
        let ghost f = snooze_with(until);
        let mut i: usize = 0;
        while i < self.reminders.len()
            invariant
                i <= self.reminders.len(),
                self.reminders.len() == old(self).reminders.len(),
                f == snooze_with(until),
                forall|j: int|
                    0 <= j < self.reminders.len() ==> #[trigger] self.reminders@[j] == if j < i {
                        apply_to_id(old(self).reminders@, id@, f)[j]
                    } else {
                        old(self).reminders@[j]
                    },
                self.events == old(self).events,
                self.attachments == old(self).attachments,
                self.exports == old(self).exports,
                self.settings == old(self).settings,
                self.drop_records == old(self).drop_records,
            decreases self.reminders.len() - i,
        {
            if self.reminders[i].id == *id {
                let mut r = self.reminders[i].duplicate();
                r.status = ReminderStatus::Snoozed;
                r.snooze_until = Some(until);
                self.reminders.set(i, r);
            }
            i = i + 1;
        }
        assert(self.reminders@ =~= apply_to_id(old(self).reminders@, id@, f));
        assert(forall|j: int| 0 <= j < self.reminders.len() ==> #[trigger] self.reminders@[j].id == old(self).reminders@[j].id);
    }

    /// Snoozes every reminder of id `id` for `minutes` minutes from `now`;
    /// the end time saturates at the bounds of `i64`.
    pub fn snooze_reminder_at(&mut self, id: &String, minutes: i64, now: i64)
        ensures
            reminders_replaced(
                *old(self),
                *final(self),
                apply_to_id(
                    old(self).reminders@,
                    id@,
                    snooze_with(snooze_end(now, minutes)),
                ),
            ),
            old(self).well_formed() ==> final(self).well_formed(),
    {
        let wide: i128 = now as i128 + minutes as i128 * 60000;
        let until: i64 = if wide > i64::MAX as i128 {
            i64::MAX
        } else if wide < i64::MIN as i128 {
            i64::MIN
        } else {
            wide as i64
        };
        self.snooze_reminder_until(id, until);
    }

    /// Snoozes every reminder of id `id` for `minutes` minutes from now.
    pub fn snooze_reminder(&mut self, id: &String, minutes: i64)
        ensures
            exists|now: i64|
                reminders_replaced(
                    *old(self),
                    *final(self),
                    apply_to_id(
                        old(self).reminders@,
                        id@,
                        snooze_with(#[trigger] snooze_end(now, minutes)),
                    ),
                ),
            old(self).well_formed() ==> final(self).well_formed(),
    {
        let now = now_ms();
        self.snooze_reminder_at(id, minutes, now);
    }

    /// Dismisses every reminder of id `id`, stamping `at` as its handling time.
    pub fn dismiss_reminder_at(&mut self, id: &String, at: i64)
        ensures
            reminders_replaced(
                *old(self),
                *final(self),
                apply_to_id(old(self).reminders@, id@, dismiss_with(at)),
            ),
            old(self).well_formed() ==> final(self).well_formed(),
    {
        let ghost f = dismiss_with(at);
        let mut i: usize = 0;
        while i < self.reminders.len()
            invariant
                i <= self.reminders.len(),
                self.reminders.len() == old(self).reminders.len(),
                f == dismiss_with(at),
                forall|j: int|
                    0 <= j < self.reminders.len() ==> #[trigger] self.reminders@[j] == if j < i {
                        apply_to_id(old(self).reminders@, id@, f)[j]
                    } else {
                        old(self).reminders@[j]
                    },
                self.events == old(self).events,
                self.attachments == old(self).attachments,
                self.exports == old(self).exports,
                self.settings == old(self).settings,
                self.drop_records == old(self).drop_records,
            decreases self.reminders.len() - i,
        {
            if self.reminders[i].id == *id {
                let mut r = self.reminders[i].duplicate();
                r.status = ReminderStatus::Dismissed;
                r.triggered_at = Some(at);
                r.snooze_until = None;
                self.reminders.set(i, r);
            }
            i = i + 1;
        }
        assert(self.reminders@ =~= apply_to_id(old(self).reminders@, id@, f));
        assert(forall|j: int| 0 <= j < self.reminders.len() ==> #[trigger] self.reminders@[j].id == old(self).reminders@[j].id);
    }

    /// Dismisses every reminder of id `id` now.
    pub fn dismiss_reminder(&mut self, id: &String)
        ensures
            exists|at: i64|
                reminders_replaced(
                    *old(self),
                    *final(self),
                    apply_to_id(old(self).reminders@, id@, #[trigger] dismiss_with(at)),
                ),
            old(self).well_formed() ==> final(self).well_formed(),
    {
        let at = now_ms();
        self.dismiss_reminder_at(id, at);
    }

    /// The reminders that are pending or snoozed, earliest time first.
    pub fn list_pending_reminders(&self) -> (r: Vec<Reminder>)
        ensures
            r@ == sort_by_key(self.reminders@.filter(open_reminder()), false),
    {
        let mut r: Vec<Reminder> = Vec::new();
        let mut i: usize = 0;
        while i < self.reminders.len()
            invariant
                i <= self.reminders.len(),
                r@ == sort_by_key(self.reminders@.subrange(0, i as int).filter(open_reminder()), false),
            decreases self.reminders.len() - i,
        {
            let ghost prefix = self.reminders@.subrange(0, i as int);
            proof {
                reveal(Seq::filter);
                assert(self.reminders@.subrange(0, i + 1).drop_last() =~= prefix);
            }
            let x = &self.reminders[i];
            if x.status == ReminderStatus::Pending || x.status == ReminderStatus::Snoozed {
                proof {
                    let f = prefix.filter(open_reminder());
                    assert(f.push(self.reminders@[i as int]).drop_last() =~= f);
                }
                insert_by_key(&mut r, x.duplicate(), false);
            }
            i = i + 1;
        }
        assert(self.reminders@.subrange(0, i as int) =~= self.reminders@);
        r
    }

    /// The index of the first event of id `id`, if there is one.
    pub fn find_event(&self, id: &String) -> (r: Option<usize>)
        ensures
            r is None <==> first_event_index(self.events@, id@) is None,
            r is Some ==> r->0 as int == first_event_index(self.events@, id@)->0,
            r is Some ==> r->0 < self.events.len(),
    {
        let mut i: usize = 0;
        while i < self.events.len()
            invariant
                i <= self.events.len(),
                forall|j: int| 0 <= j < i ==> #[trigger] self.events@[j].id@ != id@,
            decreases self.events.len() - i,
        {
            if self.events[i].id == *id {
                proof {
                    crate::store::lemma_first_index(self.events@, id@, i as int);
                }
                return Some(i);
            }
            i = i + 1;
        }
        None
    }

    /// The reminders due at `now`, earliest time first.
    pub fn due_reminders(&self, now: i64) -> (r: Vec<Reminder>)
        ensures
            r@ == sort_by_key(self.reminders@.filter(due_at(now)), false),
    {
        let mut r: Vec<Reminder> = Vec::new();
        let mut i: usize = 0;
        while i < self.reminders.len()
            invariant
                i <= self.reminders.len(),
                r@ == sort_by_key(self.reminders@.subrange(0, i as int).filter(due_at(now)), false),
            decreases self.reminders.len() - i,
        {
            let ghost prefix = self.reminders@.subrange(0, i as int);
            proof {
                reveal(Seq::filter);
                assert(self.reminders@.subrange(0, i + 1).drop_last() =~= prefix);
            }
            let x = &self.reminders[i];
            let due = (x.status == ReminderStatus::Pending && x.remind_at <= now) || (x.status
                == ReminderStatus::Snoozed && match x.snooze_until {
                Some(u) => u <= now,
                None => false,
            });
            if due {
                proof {
                    let f = prefix.filter(due_at(now));
                    assert(f.push(self.reminders@[i as int]).drop_last() =~= f);
                }
                insert_by_key(&mut r, x.duplicate(), false);
            }
            i = i + 1;
        }
        assert(self.reminders@.subrange(0, i as int) =~= self.reminders@);
        r
    }

    /// One pass of the reminder scheduler at `now`. Every due reminder whose
    /// event exists is marked triggered at `now` and announced, earliest time
    /// first; a due reminder whose event is missing stays as it is, to be
    /// tried again on a later pass.
    pub fn scheduler_tick(&mut self, now: i64) -> (r: Vec<ReminderDue>)
        ensures
            reminders_replaced(
                *old(self),
                *final(self),
                after_tick(old(self).reminders@, old(self).events@, now),
            ),
            old(self).well_formed() ==> final(self).well_formed(),
            r.len() == announced(old(self).reminders@, old(self).events@, now).len(),
            forall|i: int|
                0 <= i < r.len() ==> announces(
                    *old(self),
                    announced(old(self).reminders@, old(self).events@, now)[i],
                    #[trigger] r[i],
                ),
    {
        let due = self.due_reminders(now);
        let ghost events = self.events@;
        let mut r: Vec<ReminderDue> = Vec::new();
        let mut k: usize = 0;
        while k < due.len()
            invariant
                k <= due.len(),
                *self == *old(self),
                events == self.events@,
                due@ == sort_by_key(self.reminders@.filter(due_at(now)), false),
                r.len() == due@.subrange(0, k as int).filter(with_event(events)).len(),
                forall|i: int|
                    0 <= i < r.len() ==> announces(
                        *self,
                        due@.subrange(0, k as int).filter(with_event(events))[i],
                        #[trigger] r[i],
                    ),
            decreases due.len() - k,
        {
            let ghost prefix = due@.subrange(0, k as int);
            proof {
                reveal(Seq::filter);
                assert(due@.subrange(0, k + 1).drop_last() =~= prefix);
            }
            let x = &due[k];
            match self.find_event(&x.event_id) {
                Some(e) => {
                    r.push(
                        ReminderDue {
                            reminder: x.duplicate(),
                            event: self.events[e].duplicate(),
                            attachments: self.attachments_for(&x.event_id),
                        },
                    );
                },
                None => {},
            }
            k = k + 1;
        }
        assert(due@.subrange(0, k as int) =~= due@);

        let mut i: usize = 0;
        while i < self.reminders.len()
            invariant
                i <= self.reminders.len(),
                self.reminders.len() == old(self).reminders.len(),
                events == old(self).events@,
                forall|j: int|
                    0 <= j < self.reminders.len() ==> #[trigger] self.reminders@[j] == if j < i {
                        after_tick(old(self).reminders@, events, now)[j]
                    } else {
                        old(self).reminders@[j]
                    },
                self.events == old(self).events,
                self.attachments == old(self).attachments,
                self.exports == old(self).exports,
                self.settings == old(self).settings,
                self.drop_records == old(self).drop_records,
            decreases self.reminders.len() - i,
        {
            let x = &self.reminders[i];
            let due = (x.status == ReminderStatus::Pending && x.remind_at <= now) || (x.status
                == ReminderStatus::Snoozed && match x.snooze_until {
                Some(u) => u <= now,
                None => false,
            });
            if due && self.find_event(&x.event_id).is_some() {
                let mut t = x.duplicate();
                t.status = ReminderStatus::Triggered;
                t.triggered_at = Some(now);
                t.snooze_until = None;
                self.reminders.set(i, t);
            }
            i = i + 1;
        }
        assert(self.reminders@ =~= after_tick(old(self).reminders@, events, now));
        assert(forall|j: int| 0 <= j < self.reminders.len() ==> #[trigger] self.reminders@[j].id == old(self).reminders@[j].id);
        r
    }
}

/// The end of a snooze of `minutes` minutes from `now`, saturated to `i64`.
pub open spec fn snooze_end(now: i64, minutes: i64) -> i64 {
    let wide = now as int + minutes as int * 60000;
    if wide > i64::MAX as int {
        i64::MAX
    } else if wide < i64::MIN as int {
        i64::MIN
    } else {
        wide as i64
    }
}

} // verus!
