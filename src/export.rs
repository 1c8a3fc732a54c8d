use vstd::prelude::*;
use chrono::{Datelike, TimeZone, Timelike};
use crate::clock::{generate_id, now_ms};
use crate::mime::same_text;
use crate::tables::{exports_unique, upsert_export};
use crate::model::{Attachment, AttachmentKind, DailyExport, Duplicate, EventType, StoreError, TimelineEvent};
use crate::store::{attachments_of, listed_events, EventStore};
use crate::text::{digit_char, digit_str, digits_in_base, decimal_string, has_prefix};

verus! {

/// The calendar date that `NaiveDate::parse_from_str` reads from a text in
/// the form year-month-day, if it reads one.
pub uninterp spec fn parsed_date_of(s: Seq<char>) -> Option<CalendarDate>;

/// Relies on `chrono::NaiveDate::parse_from_str` with the format `%Y-%m-%d`:
/// the date read depends on the text alone; month and day are those of a
/// real calendar date.
#[verifier::external_body]
fn parse_date_key(s: &str) -> (r: Option<CalendarDate>)
    ensures
        r == parsed_date_of(s@),
        r is Some ==> 1 <= r->0.month <= 12 && 1 <= r->0.day <= 31,
{
    chrono::NaiveDate::parse_from_str(s, "%Y-%m-%d").ok().map(
        |d| CalendarDate { year: d.year(), month: d.month(), day: d.day() },
    )
}

/// Relies on `chrono::Local::from_local_datetime`: the instant, in
/// milliseconds since the epoch, of a wall-clock time on a date in the
/// machine's time zone; none where that time is skipped or repeated there.
/// Nothing is promised of the value.
#[verifier::external_body]
fn local_instant_ms(year: i32, month: u32, day: u32, hour: u32, min: u32, sec: u32) -> (r: Option<i64>) {
    let t = chrono::NaiveDate::from_ymd_opt(year, month, day)?.and_hms_opt(hour, min, sec)?;
    chrono::Local.from_local_datetime(&t).single().map(|d| d.timestamp_millis())
}

/// Relies on `chrono::DateTime::<Utc>::from_timestamp_millis` and
/// `with_timezone(&Local)`: the hour and minute on the machine's clock at an
/// instant; none for an instant out of range.
#[verifier::external_body]
fn local_clock(ms: i64) -> (r: Option<ClockTime>)
    ensures
        clock_ok(r),
{
    chrono::DateTime::<chrono::Utc>::from_timestamp_millis(ms).map(
        |d| {
            let l = d.with_timezone(&chrono::Local);
            ClockTime { hour: l.hour(), minute: l.minute() }
        },
    )
}

/// A calendar date.
#[derive(Clone, Copy, Debug, PartialEq, Eq, Structural)]
pub struct CalendarDate {
    pub year: i32,
    pub month: u32,
    pub day: u32,
}

/// A time of day to the minute.
#[derive(Clone, Copy, Debug, PartialEq, Eq, Structural)]
pub struct ClockTime {
    pub hour: u32,
    pub minute: u32,
}

/// An absent reading, or a real time of day.
pub open spec fn clock_ok(c: Option<ClockTime>) -> bool {
    c is Some ==> c->0.hour < 24 && c->0.minute < 60
}

/// Relies on `str::chars`: the characters of the string, in order.
#[verifier::external_body]
fn chars_of(s: &str) -> (r: Vec<char>)
    ensures
        r@ == s@,
{
    s.chars().collect()
}

/// Relies on `String: FromIterator<char>`: the string of the characters, in
/// order.
#[verifier::external_body]
fn string_of(v: &Vec<char>) -> (r: String)
    ensures
        r@ == v@,
{
    v.iter().collect()
}

/// One event of a daily digest: the event, its attachments, and its time of
/// day on the local clock when known.
pub struct ExportEntry {
    pub event: TimelineEvent,
    pub attachments: Vec<Attachment>,
    pub clock: Option<ClockTime>,
}

/// A rendered digest: the file name to write it under and its text.
pub struct ExportDocument {
    pub file_name: String,
    pub content: String,
}

/// Two decimal digits of a number below one hundred.
pub open spec fn two_digits(n: nat) -> Seq<char> {
    seq![digit_char(n / 10), digit_char(n % 10)]
}

/// `HH:MM`, or `??:??` for an unknown time.
pub open spec fn clock_text(c: Option<ClockTime>) -> Seq<char> {
    match c {
        Some(t) => two_digits(t.hour as nat) + ":"@ + two_digits(t.minute as nat),
        None => "??:??"@,
    }
}

/// The glyph of an event type.
pub open spec fn event_icon(t: EventType) -> Seq<char> {
    match t {
        EventType::Image => "🖼️"@,
        EventType::Text => "📝"@,
        EventType::Thought => "💭"@,
        EventType::File => "📄"@,
    }
}

/// The glyph of an attachment kind.
pub open spec fn attachment_icon(k: AttachmentKind) -> Seq<char> {
    match k {
        AttachmentKind::Image => "🖼️"@,
        AttachmentKind::File => "📎"@,
    }
}

/// The text of an optional string, or `fallback` when it is absent.
pub open spec fn text_or(o: Option<String>, fallback: Seq<char>) -> Seq<char> {
    match o {
        Some(s) => s@,
        None => fallback,
    }
}

/// The note paragraph of an event: its note followed by a blank line, or
/// nothing for an absent or empty note.
pub open spec fn note_part(note: Option<String>) -> Seq<char> {
    match note {
        Some(n) => if n@.len() > 0 {
            n@ + "\n\n"@
        } else {
            Seq::empty()
        },
        None => Seq::empty(),
    }
}

/// The fenced block of an event's text content, or nothing for absent or
/// empty content.
pub open spec fn text_part(text: Option<String>) -> Seq<char> {
    match text {
        Some(t) => if t@.len() > 0 {
            "```\n"@ + t@ + "\n```\n\n"@
        } else {
            Seq::empty()
        },
        None => Seq::empty(),
    }
}

/// One bullet line per attachment.
pub open spec fn attachment_lines(atts: Seq<Attachment>) -> Seq<char>
    decreases atts.len(),
{
    if atts.len() == 0 {
        Seq::empty()
    } else {
        let a = atts.last();
        attachment_lines(atts.drop_last()) + "- "@ + attachment_icon(a.kind) + " "@ + text_or(
            a.file_name,
            "Unknown"@,
        ) + "\n"@
    }
}

/// The attachment list of an event, or nothing when it has none.
pub open spec fn attachments_part(atts: Seq<Attachment>) -> Seq<char> {
    if atts.len() == 0 {
        Seq::empty()
    } else {
        "**Attachments:**\n"@ + attachment_lines(atts) + "\n"@
    }
}

/// The section of one event.
pub open spec fn entry_text(e: ExportEntry) -> Seq<char> {
    "## "@ + clock_text(e.clock) + " "@ + event_icon(e.event.event_type) + " "@ + text_or(
        e.event.title,
        "Untitled"@,
    ) + "\n\n"@ + note_part(e.event.note) + text_part(e.event.text_content) + attachments_part(
        e.attachments@,
    ) + "---\n\n"@
}

/// The sections of the events, in order.
pub open spec fn entries_text(entries: Seq<ExportEntry>) -> Seq<char>
    decreases entries.len(),
{
    if entries.len() == 0 {
        Seq::empty()
    } else {
        entries_text(entries.drop_last()) + entry_text(entries.last())
    }
}

/// The Markdown digest of a day.
pub open spec fn markdown_text(date_key: Seq<char>, entries: Seq<ExportEntry>) -> Seq<char> {
    "# Daily Record - "@ + date_key + "\n\n"@ + digits_in_base(entries.len(), 10)
        + " records\n\n---\n\n"@ + entries_text(entries)
}

/// `s` with every occurrence of `from`, taken left to right without
/// overlap, replaced by `to`.
pub open spec fn replace_text(s: Seq<char>, from: Seq<char>, to: Seq<char>) -> Seq<char>
    decreases s.len(),
{
    if s.len() == 0 || from.len() == 0 {
        s
    } else if has_prefix(s, from) {
        to + replace_text(s.skip(from.len() as int), from, to)
    } else {
        seq![s[0]] + replace_text(s.drop_first(), from, to)
    }
}

/// The text before the body of an HTML digest.
pub open spec fn html_head(date_key: Seq<char>) -> Seq<char> {
    HTML_OPEN@ + date_key + HTML_STYLE@
}

/// The body of an HTML digest: line breaks, then second-level and
/// first-level heading markers, turned into tags by plain substitution.
pub open spec fn html_body(markdown: Seq<char>) -> Seq<char> {
    replace_text(
        replace_text(replace_text(markdown, "\n"@, "<br>\n"@), "## "@, "<h2>"@),
        "# "@,
        "<h1>"@,
    )
}

/// The HTML digest of a day.
pub open spec fn html_text(date_key: Seq<char>, markdown: Seq<char>) -> Seq<char> {
    html_head(date_key) + html_body(markdown) + HTML_CLOSE@
}

/// Whether an output format asks for HTML.
pub open spec fn wants_html(format: Seq<char>) -> bool {
    format == "html"@
}

/// The digest of a day in the given format: HTML when asked for, Markdown
/// otherwise.
pub open spec fn document_text(format: Seq<char>, date_key: Seq<char>, entries: Seq<ExportEntry>) -> Seq<
    char,
> {
    if wants_html(format) {
        html_text(date_key, markdown_text(date_key, entries))
    } else {
        markdown_text(date_key, entries)
    }
}

/// The file name of a day's digest in the given format.
pub open spec fn export_file_name(format: Seq<char>, date_key: Seq<char>) -> Seq<char> {
    date_key + if wants_html(format) {
        ".html"@
    } else {
        ".md"@
    }
}

/// The last millisecond of the second that starts at `last`, held at the
/// largest `i64`.
pub open spec fn day_end(last: i64) -> i64 {
    if last > i64::MAX - 999 {
        i64::MAX
    } else {
        (last + 999) as i64
    }
}

/// `entries` are the events of `store` created within `[start, end]` and not
/// deleted, oldest first, each with its attachments and a clock reading
/// that is a real time of day when present.
pub open spec fn day_entries(store: EventStore, start: i64, end: i64, entries: Seq<ExportEntry>) -> bool {
    let shown = listed_events(store.events@, Some(start), Some(end), false);
    &&& entries.len() == shown.len()
    &&& forall|i: int|
        0 <= i < entries.len() ==> {
            &&& (#[trigger] entries[i]).event == shown[i]
            &&& entries[i].attachments@ == attachments_of(store.attachments@, shown[i].id@)
            &&& clock_ok(entries[i].clock)
        }
}

pub const HTML_OPEN: &'static str = "<!DOCTYPE html>\n<html>\n<head>\n  <meta charset=\"UTF-8\">\n  <title>Daily Record - ";

pub const HTML_STYLE: &'static str = "</title>\n  <style>\n    body { font-family: -apple-system, BlinkMacSystemFont, 'Segoe UI', sans-serif; max-width: 800px; margin: 0 auto; padding: 20px; line-height: 1.6; }\n    h1 { color: #333; border-bottom: 2px solid #ffb347; padding-bottom: 10px; }\n    h2 { color: #555; margin-top: 30px; }\n    hr { border: none; border-top: 1px solid #eee; margin: 20px 0; }\n    pre { background: #f5f5f5; padding: 15px; border-radius: 5px; overflow-x: auto; }\n  </style>\n</head>\n<body>\n";

pub const HTML_CLOSE: &'static str = "\n</body>\n</html>";

/// Appends two decimal digits of `n`.
fn append_two_digits(out: &mut String, n: u32)
    requires
        n < 100,
    ensures
        final(out)@ == old(out)@ + two_digits(n as nat),
{
    out.append(digit_str((n / 10) as u64));
    out.append(digit_str((n % 10) as u64));
    assert(final(out)@ =~= old(out)@ + two_digits(n as nat)) by {
        assert((n / 10) as nat % 16 == (n / 10) as nat);
    }
}

/// Appends the heading line of an event's section.
fn append_heading(out: &mut String, e: &ExportEntry)
    requires
        clock_ok(e.clock),
    ensures
        final(out)@ == old(out)@ + "## "@ + clock_text(e.clock) + " "@ + event_icon(e.event.event_type)
            + " "@ + text_or(e.event.title, "Untitled"@) + "\n\n"@,
{
    out.append("## ");
    match e.clock {
        Some(t) => {
            append_two_digits(out, t.hour);
            out.append(":");
            append_two_digits(out, t.minute);
        },
        None => {
            out.append("??:??");
        },
    }
    out.append(" ");
    let icon = match e.event.event_type {
        EventType::Image => "🖼️",
        EventType::Text => "📝",
        EventType::Thought => "💭",
        EventType::File => "📄",
    };
    out.append(icon);
    out.append(" ");
    match &e.event.title {
        Some(t) => out.append(t.as_str()),
        None => out.append("Untitled"),
    }
    out.append("\n\n");
    assert(out@ =~= old(out)@ + "## "@ + clock_text(e.clock) + " "@ + event_icon(e.event.event_type)
        + " "@ + text_or(e.event.title, "Untitled"@) + "\n\n"@);
}

/// Appends the note paragraph of an event.
fn append_note(out: &mut String, note: &Option<String>)
    ensures
        final(out)@ == old(out)@ + note_part(*note),
{
    match note {
        Some(n) => {
            if n.unicode_len() > 0 {
                out.append(n.as_str());
                out.append("\n\n");
            }
        },
        None => {},
    }
    assert(out@ =~= old(out)@ + note_part(*note));
}

/// Appends the fenced text block of an event.
fn append_text(out: &mut String, text: &Option<String>)
    ensures
        final(out)@ == old(out)@ + text_part(*text),
{
    match text {
        Some(t) => {
            if t.unicode_len() > 0 {
                out.append("```\n");
                out.append(t.as_str());
                out.append("\n```\n\n");
            }
        },
        None => {},
    }
    assert(out@ =~= old(out)@ + text_part(*text));
}

/// Appends the attachment list of an event.
fn append_attachments(out: &mut String, atts: &Vec<Attachment>)
    ensures
        final(out)@ == old(out)@ + attachments_part(atts@),
{
    if atts.len() > 0 {
        out.append("**Attachments:**\n");
        let ghost before_lines = out@;
        let mut i: usize = 0;
        while i < atts.len()
            invariant
                i <= atts.len(),
                out@ == before_lines + attachment_lines(atts@.subrange(0, i as int)),
            decreases atts.len() - i,
        {
            let a = &atts[i];
            proof {
                assert(atts@.subrange(0, i + 1).drop_last() =~= atts@.subrange(0, i as int));
            }
            let ghost line_start = out@;
            out.append("- ");
            match a.kind {
                AttachmentKind::Image => out.append("🖼️"),
                AttachmentKind::File => out.append("📎"),
            }
            out.append(" ");
            match &a.file_name {
                Some(f) => out.append(f.as_str()),
                None => out.append("Unknown"),
            }
            out.append("\n");
            assert(out@ =~= line_start + "- "@ + attachment_icon(a.kind) + " "@ + text_or(
                a.file_name,
                "Unknown"@,
            ) + "\n"@);
            i = i + 1;
            assert(out@ =~= before_lines + attachment_lines(atts@.subrange(0, i as int)));
        }
        assert(atts@.subrange(0, i as int) =~= atts@);
        out.append("\n");
    }
    assert(out@ =~= old(out)@ + attachments_part(atts@));
}

/// Appends the section of one event.
fn append_entry(out: &mut String, e: &ExportEntry)
    requires
        clock_ok(e.clock),
    ensures
        final(out)@ == old(out)@ + entry_text(*e),
{
    append_heading(out, e);
    append_note(out, &e.event.note);
    append_text(out, &e.event.text_content);
    append_attachments(out, &e.attachments);
    out.append("---\n\n");
    assert(out@ =~= old(out)@ + entry_text(*e));
}

/// The Markdown digest of a day.
pub fn render_markdown(date_key: &str, entries: &Vec<ExportEntry>) -> (r: String)
    requires
        forall|i: int|
            0 <= i < entries.len() ==> clock_ok((#[trigger] entries[i]).clock),
    ensures
        r@ == markdown_text(date_key@, entries@),
{
    let mut out = String::new();
    out.append("# Daily Record - ");
    out.append(date_key);
    out.append("\n\n");
    let count = decimal_string(entries.len() as u128);
    out.append(count.as_str());
    out.append(" records\n\n---\n\n");
    let ghost head = out@;
    let mut i: usize = 0;
    while i < entries.len()
        invariant
            i <= entries.len(),
            out@ == head + entries_text(entries@.subrange(0, i as int)),
            forall|j: int|
                0 <= j < entries.len() ==> clock_ok((#[trigger] entries[j]).clock),
        decreases entries.len() - i,
    {
        proof {
            assert(entries@.subrange(0, i + 1).drop_last() =~= entries@.subrange(0, i as int));
        }
        append_entry(&mut out, &entries[i]);
        i = i + 1;
        assert(out@ =~= head + entries_text(entries@.subrange(0, i as int)));
    }
    assert(entries@.subrange(0, i as int) =~= entries@);
    assert(out@ =~= markdown_text(date_key@, entries@));
    out
}

/// `s` with every occurrence of `from`, left to right without overlap,
/// replaced by `to`.
pub fn replace_chars(s: &Vec<char>, from: &Vec<char>, to: &Vec<char>) -> (r: Vec<char>)
    ensures
        r@ == replace_text(s@, from@, to@),
{
    let mut out: Vec<char> = Vec::new();
    if from.len() == 0 {
        let mut k: usize = 0;
        while k < s.len()
            invariant
                k <= s.len(),
                out@ == s@.subrange(0, k as int),
            decreases s.len() - k,
        {
            out.push(s[k]);
            k = k + 1;
        }
        assert(out@ =~= s@);
        return out;
    }
    let mut i: usize = 0;
    assert(s@.skip(0) =~= s@);
    while i < s.len()
        invariant
            i <= s.len(),
            from.len() > 0,
            out@ + replace_text(s@.skip(i as int), from@, to@) == replace_text(s@, from@, to@),
        decreases s.len() - i,
    {
        let ghost rest = s@.skip(i as int);
        let mut matched = from.len() <= s.len() - i;
        let mut j: usize = 0;
        while matched && j < from.len()
            invariant
                i < s.len(),
                j <= from.len(),
                matched ==> from.len() <= s.len() - i,
                matched ==> forall|k: int| 0 <= k < j ==> s@[i + k] == from@[k],
                !matched ==> !has_prefix(rest, from@),
                rest == s@.skip(i as int),
            decreases (from.len() - j) as int + if matched {
                1int
            } else {
                0int
            },
        {
            if s[i + j] != from[j] {
                matched = false;
                assert(rest.subrange(0, from@.len() as int)[j as int] != from@[j as int]);
            } else {
                j = j + 1;
            }
        }
        if matched {
            assert(rest.subrange(0, from@.len() as int) =~= from@);
            let mut k: usize = 0;
            let ghost before = out@;
            while k < to.len()
                invariant
                    k <= to.len(),
                    out@ == before + to@.subrange(0, k as int),
                decreases to.len() - k,
            {
                out.push(to[k]);
                k = k + 1;
            }
            assert(to@.subrange(0, k as int) =~= to@);
            assert(rest.skip(from@.len() as int) =~= s@.skip(i + from.len()));
            assert(out@ + replace_text(s@.skip(i + from.len()), from@, to@) =~= before
                + replace_text(rest, from@, to@));
            i = i + from.len();
        } else {
            let ghost before = out@;
            out.push(s[i]);
            assert(rest.drop_first() =~= s@.skip(i + 1));
            assert(out@ + replace_text(s@.skip(i + 1), from@, to@) =~= before + replace_text(
                rest,
                from@,
                to@,
            ));
            i = i + 1;
        }
    }
    assert(out@ + replace_text(s@.skip(i as int), from@, to@) == out@ + s@.skip(i as int));
    assert(s@.skip(i as int).len() == 0);
    assert(out@ =~= replace_text(s@, from@, to@));
    out
}

/// The HTML digest of a day whose Markdown digest is `markdown`.
pub fn render_html(date_key: &str, markdown: &str) -> (r: String)
    ensures
        r@ == html_text(date_key@, markdown@),
{
    let c0 = chars_of(markdown);
    let c1 = replace_chars(&c0, &chars_of("\n"), &chars_of("<br>\n"));
    let c2 = replace_chars(&c1, &chars_of("## "), &chars_of("<h2>"));
    let c3 = replace_chars(&c2, &chars_of("# "), &chars_of("<h1>"));
    let body = string_of(&c3);
    let mut out = String::new();
    out.append(HTML_OPEN);
    out.append(date_key);
    out.append(HTML_STYLE);
    out.append(body.as_str());
    out.append(HTML_CLOSE);
    assert(out@ =~= html_text(date_key@, markdown@));
    out
}

/// The digest of a day in `format` (HTML for `html`, Markdown otherwise),
/// with the file name to write it under.
pub fn export_document(date_key: &String, format: &String, entries: &Vec<ExportEntry>) -> (r:
    ExportDocument)
    requires
        forall|i: int|
            0 <= i < entries.len() ==> clock_ok((#[trigger] entries[i]).clock),
    ensures
        r.content@ == document_text(format@, date_key@, entries@),
        r.file_name@ == export_file_name(format@, date_key@),
{
    let markdown = render_markdown(date_key.as_str(), entries);
    let html = same_text(format.as_str(), "html");
    let content = if html {
        render_html(date_key.as_str(), markdown.as_str())
    } else {
        markdown
    };
    let mut file_name = date_key.clone();
    if html {
        file_name.append(".html");
    } else {
        file_name.append(".md");
    }
    ExportDocument { file_name, content }
}

impl EventStore {
    /// The events created within `[start, end]` and not deleted, oldest
    /// first, each with its attachments and its local time of day.
    pub fn day_entries(&self, start: i64, end: i64) -> (r: Vec<ExportEntry>)
        ensures
            day_entries(*self, start, end, r@),
    {
        let events = self.events_in_window(Some(start), Some(end), false);
        let mut r: Vec<ExportEntry> = Vec::new();
        let mut i: usize = 0;
        while i < events.len()
            invariant
                i <= events.len(),
                events@ == listed_events(self.events@, Some(start), Some(end), false),
                r.len() == i,
                forall|k: int|
                    0 <= k < i ==> {
                        &&& (#[trigger] r[k]).event == events@[k]
                        &&& r[k].attachments@ == attachments_of(self.attachments@, events@[k].id@)
                        &&& clock_ok(r[k].clock)
                    },
            decreases events.len() - i,
        {
            let e = &events[i];
            r.push(
                ExportEntry {
                    event: e.duplicate(),
                    attachments: self.attachments_for(&e.id),
                    clock: local_clock(e.created_at),
                },
            );
            i = i + 1;
        }
        r
    }

    /// Renders the digest of the local calendar day `date_key` in `format`.
    /// `InvalidDate` when the key is not a date, or when local midnight or
    /// the day's last second does not exist once on the machine's clock.
    pub fn render_daily_export(&self, date_key: &String, format: &String) -> (r: Result<
        ExportDocument,
        StoreError,
    >)
        ensures
            parsed_date_of(date_key@) is None ==> r is Err && r->Err_0 is InvalidDate,
            r is Err ==> r->Err_0 is InvalidDate,
            r is Ok ==> r->Ok_0.file_name@ == export_file_name(format@, date_key@),
            r is Ok ==> exists|start: i64, last: i64, entries: Seq<ExportEntry>|
                #[trigger] day_entries(*self, start, day_end(last), entries) && r->Ok_0.content@
                    == document_text(format@, date_key@, entries),
    {
        let date = match parse_date_key(date_key.as_str()) {
            Some(t) => t,
            None => {
                return Err(StoreError::InvalidDate);
            },
        };
        let start = match local_instant_ms(date.year, date.month, date.day, 0, 0, 0) {
            Some(t) => t,
            None => {
                return Err(StoreError::InvalidDate);
            },
        };
        let last_second = match local_instant_ms(date.year, date.month, date.day, 23, 59, 59) {
            Some(t) => t,
            None => {
                return Err(StoreError::InvalidDate);
            },
        };
        Ok(self.render_day(date_key, format, start, last_second))
    }

    /// Renders the digest of the day that starts at `start` and whose last
    /// second starts at `last_second` (both in milliseconds since the
    /// epoch); the day ends at the last millisecond of that second.
    pub fn render_day(&self, date_key: &String, format: &String, start: i64, last_second: i64) -> (r:
        ExportDocument)
        ensures
            r.file_name@ == export_file_name(format@, date_key@),
            exists|entries: Seq<ExportEntry>|
                #[trigger] day_entries(*self, start, day_end(last_second), entries) && r.content@
                    == document_text(format@, date_key@, entries),
    {
        let end = if last_second > i64::MAX - 999 {
            i64::MAX
        } else {
            last_second + 999
        };
        assert(end == day_end(last_second));
        let entries = self.day_entries(start, end);
        let r = export_document(date_key, format, &entries);
        assert(day_entries(*self, start, day_end(last_second), entries@));
        r
    }

    /// Records that the digest of `date_key` in `format` was written to
    /// `path`, with a fresh identifier and the current time.
    pub fn record_daily_export(&mut self, date_key: String, format: String, path: String)
        ensures
            final(self).events == old(self).events,
            final(self).attachments == old(self).attachments,
            final(self).reminders == old(self).reminders,
            final(self).settings == old(self).settings,
            final(self).drop_records == old(self).drop_records,
            exists|row: DailyExport|
                row.date_key == date_key && row.output_format == format && row.output_path == path
                    && final(self).exports@ == #[trigger] upsert_export(old(self).exports@, row),
            exports_unique(old(self).exports@) ==> exports_unique(final(self).exports@),
            old(self).well_formed() ==> final(self).well_formed(),
    {
        let id = generate_id();
        let created_at = now_ms();
        self.record_export(id, date_key, format, path, created_at);
    }
}

} // verus!
