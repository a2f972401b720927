//! Timestamps and the one-line rendering of an activity event.
use vstd::prelude::*;
use vstd::string::*;
use chrono::{Datelike, Timelike};
use crate::text::{chars_of, pad_right, push_pad_right, push_zero_padded, string_of, zero_padded};

verus! {

/// A wall-clock instant as read in its own offset: calendar date and time of day.
#[derive(Clone, Copy, Debug, PartialEq, Eq, Structural)]
pub struct Stamp {
    pub year: i32,
    pub month: u32,
    pub day: u32,
    pub hour: u32,
    pub minute: u32,
    pub second: u32,
}

impl Stamp {
    /// Every field within its calendar range.
    pub open spec fn wf(&self) -> bool {
        &&& 1 <= self.month <= 12
        &&& 1 <= self.day <= 31
        &&& self.hour <= 23
        &&& self.minute <= 59
        &&& self.second <= 59
    }
}

/// What `chrono` reads from an RFC 3339 timestamp, when it accepts it.
pub uninterp spec fn rfc3339_stamp(s: Seq<char>) -> Option<Stamp>;

/// Relies on `chrono::DateTime::parse_from_rfc3339`: the result is a function of
/// the text alone, and the date and time fields of a `DateTime` are always in
/// their documented ranges (`Datelike`, `Timelike`).
#[verifier::external_body]
fn parse_rfc3339(s: &str) -> (r: Option<Stamp>)
    ensures
        r == rfc3339_stamp(s@),
        r matches Some(st) ==> st.wf(),
{
    match chrono::DateTime::parse_from_rfc3339(s) {
        Ok(dt) => Some(Stamp {
            year: dt.year(),
            month: dt.month(),
            day: dt.day(),
            hour: dt.hour(),
            minute: dt.minute(),
            second: dt.second(),
        }),
        Err(_) => None,
    }
}

/// Relies on `chrono::Utc::now`: some instant, its fields in their documented ranges.
#[verifier::external_body]
fn now_utc() -> (r: Stamp)
    ensures
        r.wf(),
{
    let dt = chrono::Utc::now();
    Stamp {
        year: dt.year(),
        month: dt.month(),
        day: dt.day(),
        hour: dt.hour(),
        minute: dt.minute(),
        second: dt.second(),
    }
}

/// Relies on `chrono::Local::now`: some instant in the machine's time zone, its
/// fields in their documented ranges.
#[verifier::external_body]
pub(crate) fn now_local() -> (r: Stamp)
    ensures
        r.wf(),
{
    let dt = chrono::Local::now();
    Stamp {
        year: dt.year(),
        month: dt.month(),
        day: dt.day(),
        hour: dt.hour(),
        minute: dt.minute(),
        second: dt.second(),
    }
}

/// The year in four digits; a year outside `0..=9999` carries an explicit sign.
pub open spec fn year_text(y: int) -> Seq<char> {
    if 0 <= y <= 9999 {
        zero_padded(y as nat, 4)
    } else if y < 0 {
        seq!['-'] + zero_padded((-y) as nat, 4)
    } else {
        seq!['+'] + zero_padded(y as nat, 4)
    }
}

/// `YYYY-MM-DD HH:MM`.
pub open spec fn minutes_text(st: Stamp) -> Seq<char> {
    year_text(st.year as int) + seq!['-'] + zero_padded(st.month as nat, 2) + seq!['-']
        + zero_padded(st.day as nat, 2) + seq![' '] + zero_padded(st.hour as nat, 2) + seq![':']
        + zero_padded(st.minute as nat, 2)
}

/// `YYYY-MM-DD HH:MM:SS`.
pub open spec fn seconds_text(st: Stamp) -> Seq<char> {
    minutes_text(st) + seq![':'] + zero_padded(st.second as nat, 2)
}

pub open spec fn event_suffix() -> Seq<char> {
    seq!['E', 'v', 'e', 'n', 't']
}

/// The event type without its trailing `Event`, when it has one.
pub open spec fn strip_event(kind: Seq<char>) -> Seq<char> {
    if kind.len() >= 5 && kind.subrange(kind.len() - 5, kind.len() as int) == event_suffix() {
        kind.subrange(0, kind.len() - 5)
    } else {
        kind
    }
}

/// One line of the activity log: the kind in 16 columns, the repository in 15,
/// then the time to the minute.
pub open spec fn row_text(kind: Seq<char>, repo: Seq<char>, st: Stamp) -> Seq<char> {
    pad_right(kind, 16) + seq![' ', '|', ' '] + pad_right(repo, 15) + seq![' ', '|', ' ']
        + minutes_text(st)
}

/// One event of the activity log, its kind already stripped of `Event`.
pub struct ActivityEvent {
    pub kind: String,
    pub repo_name: String,
    pub timestamp: Stamp,
}

/// Appends the year in four digits, signed when outside `0..=9999`.
pub fn push_year(out: &mut Vec<char>, y: i32)
    ensures
        final(out)@ == old(out)@ + year_text(y as int),
{
    if 0 <= y && y <= 9999 {
        push_zero_padded(out, y as u64, 4);
    } else if y < 0 {
        out.push('-');
        push_zero_padded(out, (-(y as i64)) as u64, 4);
        assert(final(out)@ =~= old(out)@ + year_text(y as int));
    } else {
        out.push('+');
        push_zero_padded(out, y as u64, 4);
        assert(final(out)@ =~= old(out)@ + year_text(y as int));
    }
}

/// Appends `c` followed by `n` as two digits at least.
fn push_two(out: &mut Vec<char>, c: char, n: u32)
    ensures
        final(out)@ == old(out)@ + seq![c] + zero_padded(n as nat, 2),
{
    out.push(c);
    push_zero_padded(out, n as u64, 2);
    assert(final(out)@ =~= old(out)@ + seq![c] + zero_padded(n as nat, 2));
}

/// Appends `YYYY-MM-DD HH:MM`.
pub fn push_minutes(out: &mut Vec<char>, st: &Stamp)
    ensures
        final(out)@ == old(out)@ + minutes_text(*st),
{
    push_year(out, st.year);
    push_two(out, '-', st.month);
    push_two(out, '-', st.day);
    push_two(out, ' ', st.hour);
    push_two(out, ':', st.minute);
    assert(final(out)@ =~= old(out)@ + minutes_text(*st));
}

/// Appends `YYYY-MM-DD HH:MM:SS`.
pub fn push_seconds(out: &mut Vec<char>, st: &Stamp)
    ensures
        final(out)@ == old(out)@ + seconds_text(*st),
{
    push_minutes(out, st);
    out.push(':');
    push_zero_padded(out, st.second as u64, 2);
    assert(final(out)@ =~= old(out)@ + seconds_text(*st));
}

/// The event type without its trailing `Event`, when it has one.
pub fn strip_event_suffix(kind: &str) -> (r: String)
    ensures
        r@ == strip_event(kind@),
{
    let k = chars_of(kind);
    let n = k.len();
    let mut out: Vec<char> = Vec::new();
    let stripped = n >= 5 && k[n - 5] == 'E' && k[n - 4] == 'v' && k[n - 3] == 'e' && k[n - 2]
        == 'n' && k[n - 1] == 't';
    let keep = if stripped {
        n - 5
    } else {
        n
    };
    let mut i: usize = 0;
    while i < keep
        invariant
            keep <= n,
            n == k@.len(),
            i <= keep,
            out@ == k@.subrange(0, i as int),
        decreases keep - i,
    {
        out.push(k[i]);
        i += 1;
        assert(out@ =~= k@.subrange(0, i as int));
    }
    proof {
        if n >= 5 {
            let tail = k@.subrange(n - 5, n as int);
            if stripped {
                assert(tail =~= event_suffix());
            } else {
                assert(tail != event_suffix()) by {
                    if tail == event_suffix() {
                        assert(tail[0] == 'E' && tail[1] == 'v' && tail[2] == 'e' && tail[3] == 'n'
                            && tail[4] == 't');
                    }
                }
                assert(k@.subrange(0, n as int) =~= k@);
            }
        } else {
            assert(k@.subrange(0, n as int) =~= k@);
        }
    }
    string_of(&out)
}

impl ActivityEvent {
    /// Builds an event from the raw record fields: the type loses a trailing
    /// `Event`, and a timestamp that does not parse as RFC 3339 is replaced by the
    /// current UTC time.
    pub fn from_record(kind: &str, repo: &str, created_at: &str) -> (r: ActivityEvent)
        ensures
            r.kind@ == strip_event(kind@),
            r.repo_name@ == repo@,
            r.timestamp.wf(),
            rfc3339_stamp(created_at@) matches Some(st) ==> r.timestamp == st,
    {
        let timestamp = match parse_rfc3339(created_at) {
            Some(st) => st,
            None => now_utc(),
        };
        ActivityEvent {
            kind: strip_event_suffix(kind),
            repo_name: repo.to_owned(),
            timestamp,
        }
    }
}

/// Characters of one line of the activity log.
pub fn activity_row_chars(event: &ActivityEvent) -> (r: Vec<char>)
    ensures
        r@ == row_text(event.kind@, event.repo_name@, event.timestamp),
{
    let kind = chars_of(event.kind.as_str());
    let repo = chars_of(event.repo_name.as_str());
    let mut out: Vec<char> = Vec::new();
    push_pad_right(&mut out, &kind, 16);
    out.push(' ');
    out.push('|');
    out.push(' ');
    push_pad_right(&mut out, &repo, 15);
    out.push(' ');
    out.push('|');
    out.push(' ');
    push_minutes(&mut out, &event.timestamp);
    assert(out@ =~= row_text(event.kind@, event.repo_name@, event.timestamp));
    out
}

/// One line of the activity log: `{kind:<16} | {repo:<15} | YYYY-MM-DD HH:MM`.
pub fn activity_row(event: &ActivityEvent) -> (r: String)
    ensures
        r@ == row_text(event.kind@, event.repo_name@, event.timestamp),
{
    let v = activity_row_chars(event);
    string_of(&v)
}

/// Formats one raw event record as a line of the activity log: the type without
/// its trailing `Event`, the repository name, and the timestamp to the minute; a
/// timestamp that does not parse is replaced by the current time.
pub fn format_activity(kind: &str, repo: &str, created_at: &str) -> (r: String)
    ensures
        exists|st: Stamp|
            #![trigger row_text(strip_event(kind@), repo@, st)]
            st.wf() && (rfc3339_stamp(created_at@) matches Some(p) ==> st == p) && r@ == row_text(
                strip_event(kind@),
                repo@,
                st,
            ),
{
    let event = ActivityEvent::from_record(kind, repo, created_at);
    activity_row(&event)
}

} // verus!
