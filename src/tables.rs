use vstd::prelude::*;
use crate::digest::{hex_text, sha256_hex, sha256_of};
use crate::mime::same_text;
use crate::model::{copy_opt_string, DailyExport, DropRecord, Duplicate, Setting, StoreError};
use crate::order::{insert_by_key, sort_by_key, Keyed};
use crate::store::EventStore;

verus! {

/// Whether `a` comes strictly before `b` in code-point order.
pub open spec fn text_less(a: Seq<char>, b: Seq<char>) -> bool
    decreases a.len(),
{
    if a.len() == 0 {
        b.len() > 0
    } else if b.len() == 0 {
        false
    } else if a[0] != b[0] {
        (a[0] as u32) < (b[0] as u32)
    } else {
        text_less(a.drop_first(), b.drop_first())
    }
}

/// Code-point order on texts is a strict total order: irreflexive,
/// transitive, and any two different texts are ordered one way.
pub proof fn lemma_text_order(a: Seq<char>, b: Seq<char>, c: Seq<char>)
    ensures
        !text_less(a, a),
        text_less(a, b) && text_less(b, c) ==> text_less(a, c),
        a != b ==> text_less(a, b) || text_less(b, a),
    decreases a.len(),
{
    if a.len() > 0 {
        lemma_text_order(a.drop_first(), b.drop_first(), c.drop_first());
        if b.len() > 0 {
            vstd::utf8::char_u32_cast(a[0], a[0] as u32);
            vstd::utf8::char_u32_cast(b[0], b[0] as u32);
        }
        if b.len() > 0 && a[0] == b[0] && a.drop_first() == b.drop_first() {
            assert forall|i: int| 0 <= i < a.len() implies a[i] == b[i] by {
                if i > 0 {
                    assert(a[i] == a.drop_first()[i - 1]);
                    assert(b[i] == b.drop_first()[i - 1]);
                }
            }
            assert(a =~= b);
        }
    } else if b.len() == 0 {
        assert(a =~= b);
    }
}

/// Whether `a` comes strictly before `b` in code-point order.
pub fn is_text_less(a: &str, b: &str) -> (r: bool)
    ensures
        r == text_less(a@, b@),
{
    let al = a.unicode_len();
    let bl = b.unicode_len();
    let mut i: usize = 0;
    assert(a@.skip(0) =~= a@);
    assert(b@.skip(0) =~= b@);
    while i < al && i < bl
        invariant
            al == a@.len(),
            bl == b@.len(),
            i <= al,
            i <= bl,
            text_less(a@, b@) == text_less(a@.skip(i as int), b@.skip(i as int)),
        decreases al - i,
    {
        let ca = a.get_char(i);
        let cb = b.get_char(i);
        assert(a@.skip(i as int)[0] == ca);
        assert(b@.skip(i as int)[0] == cb);
        if ca != cb {
            return (ca as u32) < (cb as u32);
        }
        assert(a@.skip(i as int).drop_first() =~= a@.skip(i + 1));
        assert(b@.skip(i as int).drop_first() =~= b@.skip(i + 1));
        i = i + 1;
    }
    assert(a@.skip(i as int).len() == al - i);
    assert(b@.skip(i as int).len() == bl - i);
    i < bl
}

impl Keyed for DailyExport {
    open spec fn precedes(&self, other: &Self, desc: bool) -> bool {
        if desc {
            text_less(other.date_key@, self.date_key@)
        } else {
            text_less(self.date_key@, other.date_key@)
        }
    }

    fn check_precedes(&self, other: &Self, desc: bool) -> (b: bool) {
        if desc {
            is_text_less(other.date_key.as_str(), self.date_key.as_str())
        } else {
            is_text_less(self.date_key.as_str(), other.date_key.as_str())
        }
    }

    proof fn lemma_strict_order(a: Self, b: Self, c: Self, desc: bool) {
        lemma_text_order(a.date_key@, b.date_key@, c.date_key@);
        lemma_text_order(c.date_key@, b.date_key@, a.date_key@);
    }
}

/// No two settings share a key.
pub open spec fn settings_unique(s: Seq<Setting>) -> bool {
    forall|i: int, j: int| 0 <= i < j < s.len() ==> s[i].key@ != s[j].key@
}

/// No two export records share a date and a format.
pub open spec fn exports_unique(s: Seq<DailyExport>) -> bool {
    forall|i: int, j: int|
        0 <= i < j < s.len() ==> !(s[i].date_key@ == s[j].date_key@ && s[i].output_format@
            == s[j].output_format@)
}

/// The index of the first row of `s` with key `key`, if there is one.
pub open spec fn setting_index(s: Seq<Setting>, key: Seq<char>) -> Option<int> {
    if exists|i: int| 0 <= i < s.len() && #[trigger] s[i].key@ == key {
        Some(
            choose|i: int|
                0 <= i < s.len() && #[trigger] s[i].key@ == key && forall|j: int|
                    0 <= j < i ==> #[trigger] s[j].key@ != key,
        )
    } else {
        None
    }
}

/// The index of the first export record for `date_key` and `format`.
pub open spec fn export_index(s: Seq<DailyExport>, date_key: Seq<char>, format: Seq<char>) -> Option<int> {
    if exists|i: int|
        0 <= i < s.len() && #[trigger] s[i].date_key@ == date_key && s[i].output_format@ == format {
        Some(
            choose|i: int|
                0 <= i < s.len() && #[trigger] s[i].date_key@ == date_key && s[i].output_format@
                    == format && forall|j: int|
                    0 <= j < i ==> !(#[trigger] s[j].date_key@ == date_key && s[j].output_format@
                        == format),
        )
    } else {
        None
    }
}

/// `rows` after recording `row`: the record with the same date and format
/// takes its path and time stamp, keeping its identifier; with no such
/// record, `row` is added.
pub open spec fn upsert_export(rows: Seq<DailyExport>, row: DailyExport) -> Seq<DailyExport> {
    match export_index(rows, row.date_key@, row.output_format@) {
        Some(k) => rows.update(
            k,
            DailyExport { output_path: row.output_path, created_at: row.created_at, ..rows[k] },
        ),
        None => rows.push(row),
    }
}

/// The legacy column that a kind name selects: 0 for the summary, 1 for the
/// actions, 2 for the memory; none for an unknown kind.
pub open spec fn kind_column(kind: Seq<char>) -> Option<int> {
    if kind == "summarize"@ {
        Some(0)
    } else if kind == "actions"@ {
        Some(1)
    } else if kind == "remember"@ {
        Some(2)
    } else {
        None
    }
}

/// `d` with the column `col` set to `content`.
pub open spec fn with_column(d: DropRecord, col: int, content: String) -> DropRecord {
    if col == 0 {
        DropRecord { summary: Some(content), ..d }
    } else if col == 1 {
        DropRecord { actions: Some(content), ..d }
    } else {
        DropRecord { memory: Some(content), ..d }
    }
}

/// The identifier the legacy table gives its next row: one past the
/// greatest in use, or 1 for an empty table.
pub open spec fn next_drop_id(s: Seq<DropRecord>) -> int
    decreases s.len(),
{
    if s.len() == 0 {
        1
    } else {
        let rest = next_drop_id(s.drop_last());
        if s.last().id as int + 1 > rest {
            s.last().id as int + 1
        } else {
            rest
        }
    }
}

impl EventStore {
    /// The value stored under `key`, if any.
    pub fn get_setting(&self, key: &String) -> (r: Option<String>)
        ensures
            r is None <==> setting_index(self.settings@, key@) is None,
            r is Some ==> r->0@ == self.settings@[setting_index(self.settings@, key@)->0].value@,
    {
        let mut i: usize = 0;
        while i < self.settings.len()
            invariant
                i <= self.settings.len(),
                forall|j: int| 0 <= j < i ==> #[trigger] self.settings@[j].key@ != key@,
            decreases self.settings.len() - i,
        {
            if self.settings[i].key == *key {
                proof {
                    let k = setting_index(self.settings@, key@)->0;
                    assert(self.settings@[i as int].key@ == key@);
                    if k < i {
                        assert(self.settings@[k].key@ != key@);
                    }
                    if i < k {
                        assert(self.settings@[i as int].key@ != key@);
                    }
                }
                return Some(self.settings[i].value.clone());
            }
            i = i + 1;
        }
        None
    }

    /// Stores `value` under `key`, replacing the value held there.
    pub fn set_setting(&mut self, key: String, value: String)
        ensures
            final(self).events == old(self).events,
            final(self).attachments == old(self).attachments,
            final(self).reminders == old(self).reminders,
            final(self).exports == old(self).exports,
            final(self).drop_records == old(self).drop_records,
            setting_index(old(self).settings@, key@) is Some ==> final(self).settings@ == old(
                self,
            ).settings@.update(
                setting_index(old(self).settings@, key@)->0,
                Setting { key: old(self).settings@[setting_index(old(self).settings@, key@)->0].key, value },
            ),
            setting_index(old(self).settings@, key@) is None ==> final(self).settings@ == old(
                self,
            ).settings@.push(Setting { key, value }),
            settings_unique(old(self).settings@) ==> settings_unique(final(self).settings@),
            old(self).well_formed() ==> final(self).well_formed(),
    {
        let mut i: usize = 0;
        while i < self.settings.len()
            invariant
                i <= self.settings.len(),
                *self == *old(self),
                forall|j: int| 0 <= j < i ==> #[trigger] self.settings@[j].key@ != key@,
            decreases self.settings.len() - i,
        {
            if self.settings[i].key == key {
                proof {
                    let k = setting_index(self.settings@, key@)->0;
                    assert(self.settings@[i as int].key@ == key@);
                    if k < i {
                        assert(self.settings@[k].key@ != key@);
                    }
                    if i < k {
                        assert(self.settings@[i as int].key@ != key@);
                    }
                }
                let k = self.settings[i].key.clone();
                self.settings.set(i, Setting { key: k, value });
                return;
            }
            i = i + 1;
        }
        self.settings.push(Setting { key, value });
    }

    /// Every stored pair, in table order.
    pub fn list_settings(&self) -> (r: Vec<(String, String)>)
        ensures
            r.len() == self.settings.len(),
            forall|i: int|
                0 <= i < r.len() ==> (#[trigger] r[i]).0@ == self.settings@[i].key@ && r[i].1@
                    == self.settings@[i].value@,
    {
        let mut r: Vec<(String, String)> = Vec::new();
        let mut i: usize = 0;
        while i < self.settings.len()
            invariant
                i <= self.settings.len(),
                r.len() == i,
                forall|j: int|
                    0 <= j < i ==> (#[trigger] r[j]).0@ == self.settings@[j].key@ && r[j].1@
                        == self.settings@[j].value@,
            decreases self.settings.len() - i,
        {
            r.push((self.settings[i].key.clone(), self.settings[i].value.clone()));
            i = i + 1;
        }
        r
    }

    /// Records an export of `date_key` in `format` written to `path`. A record
    /// for the same date and format is refreshed in place (its identifier
    /// kept); otherwise a new one is added.
    pub fn record_export(
        &mut self,
        id: String,
        date_key: String,
        format: String,
        path: String,
        created_at: i64,
    )
        ensures
            final(self).events == old(self).events,
            final(self).attachments == old(self).attachments,
            final(self).reminders == old(self).reminders,
            final(self).settings == old(self).settings,
            final(self).drop_records == old(self).drop_records,
            final(self).exports@ == upsert_export(
                old(self).exports@,
                DailyExport { id, date_key, output_format: format, output_path: path, created_at },
            ),
            exports_unique(old(self).exports@) ==> exports_unique(final(self).exports@),
            old(self).well_formed() ==> final(self).well_formed(),
    {
        let mut i: usize = 0;
        while i < self.exports.len()
            invariant
                i <= self.exports.len(),
                *self == *old(self),
                forall|j: int|
                    0 <= j < i ==> !(#[trigger] self.exports@[j].date_key@ == date_key@
                        && self.exports@[j].output_format@ == format@),
            decreases self.exports.len() - i,
        {
            if self.exports[i].date_key == date_key && self.exports[i].output_format == format {
                proof {
                    let k = export_index(self.exports@, date_key@, format@)->0;
                    assert(self.exports@[i as int].date_key@ == date_key@);
                    if k < i {
                        assert(!(self.exports@[k].date_key@ == date_key@
                            && self.exports@[k].output_format@ == format@));
                    }
                    if i < k {
                        assert(!(self.exports@[i as int].date_key@ == date_key@
                            && self.exports@[i as int].output_format@ == format@));
                    }
                }
                let mut e = self.exports[i].duplicate();
                e.output_path = path;
                e.created_at = created_at;
                self.exports.set(i, e);
                return;
            }
            i = i + 1;
        }
        self.exports.push(
            DailyExport { id, date_key, output_format: format, output_path: path, created_at },
        );
    }

    /// Every export record, latest date first.
    pub fn list_exports(&self) -> (r: Vec<DailyExport>)
        ensures
            r@ == sort_by_key(self.exports@, true),
    {
        let mut r: Vec<DailyExport> = Vec::new();
        let mut i: usize = 0;
        while i < self.exports.len()
            invariant
                i <= self.exports.len(),
                r@ == sort_by_key(self.exports@.subrange(0, i as int), true),
            decreases self.exports.len() - i,
        {
            assert(self.exports@.subrange(0, i + 1).drop_last() =~= self.exports@.subrange(
                0,
                i as int,
            ));
            insert_by_key(&mut r, self.exports[i].duplicate(), true);
            i = i + 1;
        }
        assert(self.exports@.subrange(0, i as int) =~= self.exports@);
        r
    }

    /// Adds a legacy drop row for `path` with the digest of `content`, stamped
    /// `created_at` (seconds); its identifier is one past the greatest in use.
    /// Refused with a storage failure when identifiers are exhausted.
    pub fn insert_drop_record(&mut self, path: &String, content: &Vec<u8>, created_at: i64) -> (r: Result<
        DropRecord,
        StoreError,
    >)
        ensures
            next_drop_id(old(self).drop_records@) > i64::MAX ==> r is Err && r->Err_0 is StorageFailure
                && *final(self) == *old(self),
            next_drop_id(old(self).drop_records@) <= i64::MAX ==> r is Ok && {
                let d = r->Ok_0;
                &&& d.id == next_drop_id(old(self).drop_records@)
                &&& d.path@ == path@
                &&& d.hash@ == hex_text(sha256_of(content@))
                &&& d.created_at == created_at
                &&& d.summary is None && d.actions is None && d.memory is None && d.tags is None
                &&& final(self).drop_records@ == old(self).drop_records@.push(d)
                &&& final(self).events == old(self).events
                &&& final(self).attachments == old(self).attachments
                &&& final(self).reminders == old(self).reminders
                &&& final(self).exports == old(self).exports
                &&& final(self).settings == old(self).settings
            },
    {
        let mut next: i128 = 1;
        let mut i: usize = 0;
        while i < self.drop_records.len()
            invariant
                i <= self.drop_records.len(),
                next == next_drop_id(self.drop_records@.subrange(0, i as int)),
                i64::MIN as int + 1 <= next <= i64::MAX as int + 1,
            decreases self.drop_records.len() - i,
        {
            assert(self.drop_records@.subrange(0, i + 1).drop_last() =~= self.drop_records@.subrange(
                0,
                i as int,
            ));
            let candidate = self.drop_records[i].id as i128 + 1;
            if candidate > next {
                next = candidate;
            }
            i = i + 1;
        }
        assert(self.drop_records@.subrange(0, i as int) =~= self.drop_records@);
        if next > i64::MAX as i128 {
            return Err(StoreError::StorageFailure("drop identifiers exhausted".to_owned()));
        }
        let d = DropRecord {
            id: next as i64,
            path: path.clone(),
            hash: sha256_hex(content.as_slice()),
            created_at,
            summary: None,
            actions: None,
            memory: None,
            tags: None,
        };
        self.drop_records.push(
            DropRecord {
                id: d.id,
                path: d.path.clone(),
                hash: d.hash.clone(),
                created_at,
                summary: None,
                actions: None,
                memory: None,
                tags: None,
            },
        );
        Ok(d)
    }

    /// Records a legacy drop of the first of `paths`, whose content the caller
    /// read: `EmptyInput` for no paths, `IoFailure` when the first file could
    /// not be read.
    pub fn process_drop_paths(
        &mut self,
        paths: &Vec<String>,
        first_content: &Result<Vec<u8>, String>,
        created_at: i64,
    ) -> (r: Result<DropRecord, StoreError>)
        ensures
            paths.len() == 0 ==> r is Err && r->Err_0 is EmptyInput && *final(self) == *old(self),
            paths.len() > 0 && first_content is Err ==> r is Err && r->Err_0 is IoFailure
                && *final(self) == *old(self),
            paths.len() > 0 && first_content is Ok && next_drop_id(old(self).drop_records@)
                > i64::MAX ==> r is Err && r->Err_0 is StorageFailure && *final(self) == *old(self),
            paths.len() > 0 && first_content is Ok && next_drop_id(old(self).drop_records@)
                <= i64::MAX ==> r is Ok && r->Ok_0.id == next_drop_id(old(self).drop_records@)
                && r->Ok_0.path@ == paths[0]@ && r->Ok_0.hash@ == hex_text(
                sha256_of(first_content->Ok_0@),
            ) && r->Ok_0.created_at == created_at && r->Ok_0.summary is None && r->Ok_0.actions is None
                && r->Ok_0.memory is None && r->Ok_0.tags is None && final(self).drop_records@ == old(
                self,
            ).drop_records@.push(r->Ok_0),
            final(self).events == old(self).events,
            final(self).attachments == old(self).attachments,
            final(self).reminders == old(self).reminders,
            final(self).exports == old(self).exports,
            final(self).settings == old(self).settings,
            old(self).well_formed() ==> final(self).well_formed(),
    {
        if paths.len() == 0 {
            return Err(StoreError::EmptyInput);
        }
        match first_content {
            Err(e) => Err(StoreError::IoFailure(e.clone())),
            Ok(content) => self.insert_drop_record(&paths[0], content, created_at),
        }
    }

    /// Writes `content` into the legacy column that `kind` selects, on every
    /// row of id `record_id`; `InvalidKind` for an unknown kind.
    pub fn save_mock_result(&mut self, record_id: i64, kind: &str, content: String) -> (r: Result<
        (),
        StoreError,
    >)
        ensures
            kind_column(kind@) is None ==> r is Err && r->Err_0 is InvalidKind && *final(self)
                == *old(self),
            kind_column(kind@) is Some ==> r is Ok && final(self).drop_records@ == Seq::new(
                old(self).drop_records@.len(),
                |i: int|
                    if old(self).drop_records@[i].id == record_id {
                        with_column(old(self).drop_records@[i], kind_column(kind@)->0, content)
                    } else {
                        old(self).drop_records@[i]
                    },
            ),
            final(self).events == old(self).events,
            final(self).attachments == old(self).attachments,
            final(self).reminders == old(self).reminders,
            final(self).exports == old(self).exports,
            final(self).settings == old(self).settings,
            old(self).well_formed() ==> final(self).well_formed(),
    {
        let col: u8 = if same_text(kind, "summarize") {
            0
        } else if same_text(kind, "actions") {
            1
        } else if same_text(kind, "remember") {
            2
        } else {
            return Err(StoreError::InvalidKind);
        };
        let ghost target = Seq::new(
            old(self).drop_records@.len(),
            |i: int|
                if old(self).drop_records@[i].id == record_id {
                    with_column(old(self).drop_records@[i], col as int, content)
                } else {
                    old(self).drop_records@[i]
                },
        );
        let mut i: usize = 0;
        while i < self.drop_records.len()
            invariant
                i <= self.drop_records.len(),
                self.drop_records.len() == old(self).drop_records.len(),
                col <= 2,
                target.len() == old(self).drop_records.len(),
                target == Seq::new(
                    old(self).drop_records@.len(),
                    |i: int|
                        if old(self).drop_records@[i].id == record_id {
                            with_column(old(self).drop_records@[i], col as int, content)
                        } else {
                            old(self).drop_records@[i]
                        },
                ),
                forall|j: int|
                    0 <= j < self.drop_records.len() ==> #[trigger] self.drop_records@[j] == if j < i {
                        target[j]
                    } else {
                        old(self).drop_records@[j]
                    },
                self.events == old(self).events,
                self.attachments == old(self).attachments,
                self.reminders == old(self).reminders,
                self.exports == old(self).exports,
                self.settings == old(self).settings,
            decreases self.drop_records.len() - i,
        {
            if self.drop_records[i].id == record_id {
                let d = &self.drop_records[i];
                let mut n = DropRecord {
                    id: d.id,
                    path: d.path.clone(),
                    hash: d.hash.clone(),
                    created_at: d.created_at,
                    summary: copy_opt_string(&d.summary),
                    actions: copy_opt_string(&d.actions),
                    memory: copy_opt_string(&d.memory),
                    tags: copy_opt_string(&d.tags),
                };
                if col == 0 {
                    n.summary = Some(content.clone());
                } else if col == 1 {
                    n.actions = Some(content.clone());
                } else {
                    n.memory = Some(content.clone());
                }
                self.drop_records.set(i, n);
            }
            i = i + 1;
        }
        assert(self.drop_records@ =~= target);
        Ok(())
    }
}

} // verus!
