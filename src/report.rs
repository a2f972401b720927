//! The whole report: a warning block where a large figure runs beside a stack of
//! badges, the language distribution with a small figure beside its last rows,
//! the statistics table, the activity log, and a closing note.
use vstd::prelude::*;
use vstd::string::*;
use vstd::utf8::encode_utf8;
use crate::activity::{activity_row_chars, now_local, push_seconds, row_text, seconds_text, ActivityEvent, Stamp};
use crate::badge::{badge_line_chars, badge_lines};
use crate::bar::{bar_chars, bar_text, round_div, round_ratio};
use crate::languages::LanguageShare;
use crate::stats::{stats_chars, stats_text, StatsSummary};
use crate::text::{
    chars_of, decimal, decimal_chars, digit, digit_char, lemma_decimal_nonempty, pad_left,
    pad_right, push_decimal, push_pad_left, push_pad_right, push_repeat, push_seq, push_str,
    repeat_char, string_of,
};

verus! {

/// Blank rows above the badge stack.
pub const BADGE_OFFSET: usize = 4;

/// Minimum inner width of each badge.
pub const BADGE_WIDTH: usize = 20;

/// Cells of each language bar.
pub const BAR_WIDTH: usize = 20;

/// Column of the language names.
pub const NAME_WIDTH: usize = 12;

/// Width to which a language row is padded before the small figure.
pub const LINE_WIDTH: usize = 38;

/// Column in which each row of the small figure is right-aligned.
pub const ART_COLUMN: usize = 50;

/// How many events the activity log shows.
pub const ACTIVITY_LIMIT: usize = 5;

/// Width of the rules around the activity log.
pub const RULE_WIDTH: usize = 60;

pub const FOLLOWERS_LABEL: &'static str = "Followers";

pub const STARS_LABEL: &'static str = "Stars";

pub const WARNING_OPEN: &'static str = "> [!WARNING]\n> ```";

pub const WARNING_CLOSE: &'static str = "> ```\n";

pub const CAPTION: &'static str = "> <p>You’re coding at the bar ~ Im drunk at the office</p>\n\n";

pub const SECTION_BREAK: &'static str = "---\n\n";

pub const LANGUAGES_OPEN: &'static str = "#### 🛠️ Languages\n```css\n";

pub const FENCE_CLOSE: &'static str = "```\n\n";

pub const STATS_OPEN: &'static str = "#### 📊 Stats\n```\n";

pub const STATS_CLOSE: &'static str = "\n```\n\n";

pub const ACTIVITY_OPEN: &'static str = "#### 🔥 Activity\n```\n";

pub const UPDATED_LABEL: &'static str = "Last updated: ";

pub const CLOSING_NOTE: &'static str = "> [!NOTE]\n> <p align=\"center\">This README is <b>auto-generated</b> with Rust and Actions - Credits to the original creater is <a href=\"https://github.com/vxfemboy/vxfemboy/\">@vxfemboy</a></p>";

/// Everything one report is made from. The two figures are given line by line.
pub struct ReportInput {
    pub figure: Vec<String>,
    pub small_art: Vec<String>,
    pub followers: u64,
    pub stars: u64,
    pub languages: Vec<LanguageShare>,
    pub stats: StatsSummary,
    pub activities: Vec<ActivityEvent>,
}

pub open spec fn lines_view(v: Seq<String>) -> Seq<Seq<char>> {
    Seq::new(v.len(), |i: int| v[i]@)
}

/// Line `i` of `lines`, or nothing past either end.
pub open spec fn line_at(lines: Seq<Seq<char>>, i: int) -> Seq<char> {
    if 0 <= i < lines.len() {
        lines[i]
    } else {
        Seq::empty()
    }
}

/// The length of `line` in UTF-8 bytes, as `str::len` reports it.
pub open spec fn byte_len(line: Seq<char>) -> nat {
    (encode_utf8(line).len() as usize) as nat
}

/// The length in UTF-8 bytes of the longest line.
pub open spec fn max_byte_len(lines: Seq<Seq<char>>) -> nat
    decreases lines.len(),
{
    if lines.len() == 0 {
        0
    } else {
        let rest = max_byte_len(lines.drop_last());
        let here = byte_len(lines.last());
        if here > rest {
            here
        } else {
            rest
        }
    }
}

/// The column given to the large figure: half its widest line in bytes, plus two.
pub open spec fn figure_column(figure: Seq<Seq<char>>) -> nat {
    max_byte_len(figure) / 2 + 2
}

/// The badge stack: the followers badge, a blank line, the stars badge.
pub open spec fn badge_stack(followers: u64, stars: u64) -> Seq<Seq<char>> {
    badge_lines(FOLLOWERS_LABEL@, decimal(followers as nat), BADGE_WIDTH as nat) + seq![
        Seq::<char>::empty(),
    ] + badge_lines(STARS_LABEL@, decimal(stars as nat), BADGE_WIDTH as nat)
}

/// Number of rows of the warning block: enough for the figure and for the badge
/// stack below its offset.
pub open spec fn header_row_count(figure_len: nat, badges_len: nat) -> nat {
    if figure_len >= badges_len + BADGE_OFFSET {
        figure_len
    } else {
        (badges_len + BADGE_OFFSET) as nat
    }
}

/// Row `i` of the warning block: figure line `i` in the figure column, then badge
/// line `i - BADGE_OFFSET` when there is one.
pub open spec fn header_row(figure: Seq<Seq<char>>, badges: Seq<Seq<char>>, i: int) -> Seq<char> {
    seq!['>', ' '] + pad_right(line_at(figure, i), figure_column(figure)) + seq![' '] + line_at(
        badges,
        i - BADGE_OFFSET,
    ) + seq!['\n']
}

pub open spec fn header_rows(figure: Seq<Seq<char>>, badges: Seq<Seq<char>>, k: nat) -> Seq<char>
    decreases k,
{
    if k == 0 {
        Seq::empty()
    } else {
        header_rows(figure, badges, (k - 1) as nat) + header_row(figure, badges, k - 1)
    }
}

/// The warning block with its caption and the break that follows it.
pub open spec fn warning_text(figure: Seq<Seq<char>>, followers: u64, stars: u64) -> Seq<char> {
    let badges = badge_stack(followers, stars);
    WARNING_OPEN@ + header_rows(figure, badges, header_row_count(figure.len(), badges.len()))
        + WARNING_CLOSE@ + CAPTION@ + SECTION_BREAK@
}

/// The share as a percentage with one decimal, rounded half up.
pub open spec fn percent_text(part: nat, whole: nat) -> Seq<char> {
    let tenths = round_ratio(part * 1000, whole);
    decimal(tenths / 10) + seq!['.', digit_char(tenths % 10)]
}

/// A language row: name, bar, percentage.
pub open spec fn language_line(name: Seq<char>, bytes: u64, total: u64) -> Seq<char> {
    pad_right(name, NAME_WIDTH as nat) + seq![' '] + bar_text(
        bytes as nat,
        total as nat,
        BAR_WIDTH as nat,
    ) + seq![' '] + percent_text(bytes as nat, total as nat) + seq!['%']
}

pub open spec fn shares_view(v: Seq<LanguageShare>) -> Seq<(Seq<char>, u64, u64)> {
    Seq::new(v.len(), |i: int| (v[i].name@, v[i].bytes, v[i].total))
}

/// Whether row `i` of `rows` language rows carries a line of a figure of
/// `art_len` lines: the last `min(rows, art_len)` rows do.
pub open spec fn carries_art(i: int, rows: nat, art_len: nat) -> bool {
    i + art_len >= rows
}

/// Row `i` of the language block; a row that carries a figure line is padded to
/// the row width and followed by that line, right-aligned in the figure column.
pub open spec fn language_row(
    langs: Seq<(Seq<char>, u64, u64)>,
    art: Seq<Seq<char>>,
    i: int,
) -> Seq<char> {
    let line = language_line(langs[i].0, langs[i].1, langs[i].2);
    if carries_art(i, langs.len(), art.len()) {
        pad_right(line, LINE_WIDTH as nat) + seq![' '] + pad_left(
            art[i + art.len() - langs.len()],
            ART_COLUMN as nat,
        ) + seq!['\n']
    } else {
        line + seq!['\n']
    }
}

pub open spec fn language_rows(
    langs: Seq<(Seq<char>, u64, u64)>,
    art: Seq<Seq<char>>,
    k: nat,
) -> Seq<char>
    decreases k,
{
    if k == 0 {
        Seq::empty()
    } else {
        language_rows(langs, art, (k - 1) as nat) + language_row(langs, art, k - 1)
    }
}

pub open spec fn languages_text(langs: Seq<(Seq<char>, u64, u64)>, art: Seq<Seq<char>>) -> Seq<
    char,
> {
    LANGUAGES_OPEN@ + language_rows(langs, art, langs.len()) + FENCE_CLOSE@
}

pub open spec fn stats_block(s: StatsSummary) -> Seq<char> {
    STATS_OPEN@ + stats_text(s) + STATS_CLOSE@
}

pub open spec fn events_view(v: Seq<ActivityEvent>) -> Seq<(Seq<char>, Seq<char>, Stamp)> {
    Seq::new(v.len(), |i: int| (v[i].kind@, v[i].repo_name@, v[i].timestamp))
}

pub open spec fn shown_events(n: nat) -> nat {
    if n <= ACTIVITY_LIMIT {
        n
    } else {
        ACTIVITY_LIMIT as nat
    }
}

pub open spec fn activity_rows(events: Seq<(Seq<char>, Seq<char>, Stamp)>, k: nat) -> Seq<char>
    decreases k,
{
    if k == 0 {
        Seq::empty()
    } else {
        activity_rows(events, (k - 1) as nat) + row_text(
            events[k - 1].0,
            events[k - 1].1,
            events[k - 1].2,
        ) + seq!['\n']
    }
}

/// The activity block up to its "last updated" line: the rules and at most the
/// first five events.
pub open spec fn activity_head(events: Seq<(Seq<char>, Seq<char>, Stamp)>) -> Seq<char> {
    ACTIVITY_OPEN@ + repeat_char('-', RULE_WIDTH as nat) + seq!['\n'] + activity_rows(
        events,
        shown_events(events.len()),
    ) + repeat_char('-', RULE_WIDTH as nat) + seq!['\n', '\n']
}

/// The line that says when the report was made.
pub open spec fn updated_line(t: Stamp) -> Seq<char> {
    UPDATED_LABEL@ + seconds_text(t) + seq!['\n']
}

/// What follows the "last updated" line.
pub open spec fn report_tail() -> Seq<char> {
    FENCE_CLOSE@ + CLOSING_NOTE@
}

/// Everything before the "last updated" line.
pub open spec fn report_body(input: ReportInput) -> Seq<char> {
    warning_text(lines_view(input.figure@), input.followers, input.stars) + languages_text(
        shares_view(input.languages@),
        lines_view(input.small_art@),
    ) + stats_block(input.stats) + activity_head(events_view(input.activities@))
}

/// The whole report made at time `t`.
pub open spec fn report_text(input: ReportInput, t: Stamp) -> Seq<char> {
    report_body(input) + updated_line(t) + report_tail()
}

/// The characters of each line.
fn line_chars(lines: &Vec<String>) -> (r: Vec<Vec<char>>)
    ensures
        r@.len() == lines@.len(),
        forall|i: int| 0 <= i < r@.len() ==> r@[i]@ == lines@[i]@,
{
    let mut r: Vec<Vec<char>> = Vec::new();
    let mut i: usize = 0;
    while i < lines.len()
        invariant
            i <= lines@.len(),
            r@.len() == i,
            forall|j: int| 0 <= j < i ==> r@[j]@ == lines@[j]@,
        decreases lines@.len() - i,
    {
        r.push(chars_of(lines[i].as_str()));
        i += 1;
    }
    r
}

/// The length in UTF-8 bytes of the longest line.
fn widest_in_bytes(lines: &Vec<String>) -> (r: usize)
    ensures
        r == max_byte_len(lines_view(lines@)),
{
    let mut m: usize = 0;
    let mut i: usize = 0;
    assert(lines_view(lines@).subrange(0, 0) =~= Seq::<Seq<char>>::empty());
    while i < lines.len()
        invariant
            i <= lines@.len(),
            m == max_byte_len(lines_view(lines@).subrange(0, i as int)),
        decreases lines@.len() - i,
    {
        let line = lines[i].as_str();
        let here = line.len();
        assert(line@ == lines_view(lines@)[i as int]);
        assert(lines_view(lines@).subrange(0, i + 1).last() == lines_view(lines@)[i as int]);
        assert(here as nat == byte_len(line@));
        assert(lines_view(lines@).subrange(0, i + 1).drop_last() =~= lines_view(
            lines@,
        ).subrange(0, i as int));
        if here > m {
            m = here;
        }
        i += 1;
    }
    assert(lines_view(lines@).subrange(0, i as int) =~= lines_view(lines@));
    m
}

spec fn ten_pow(k: nat) -> nat
    decreases k,
{
    if k == 0 {
        1
    } else {
        10 * ten_pow((k - 1) as nat)
    }
}

proof fn lemma_decimal_len(n: nat, k: nat)
    requires
        n < ten_pow(k),
        k >= 1,
    ensures
        decimal(n).len() <= k,
    decreases k,
{
    lemma_decimal_nonempty(n);
    if n >= 10 {
        if k == 1 {
            assert(ten_pow(1) == 10 * ten_pow(0));
        } else {
            let p1 = ten_pow((k - 1) as nat);
            assert(n / 10 < p1) by (nonlinear_arith)
                requires
                    n < 10 * p1,
            ;
            lemma_decimal_len(n / 10, (k - 1) as nat);
        }
    }
}

proof fn lemma_u64_decimal_len(n: u64)
    ensures
        decimal(n as nat).len() <= 20,
{
    reveal_with_fuel(ten_pow, 21);
    assert(ten_pow(20) == 100000000000000000000nat);
    lemma_decimal_len(n as nat, 20);
}

/// The lines of the badge stack.
fn badge_stack_chars(followers: u64, stars: u64) -> (r: Vec<Vec<char>>)
    ensures
        r@.len() == badge_stack(followers, stars).len(),
        forall|i: int| 0 <= i < r@.len() ==> r@[i]@ == badge_stack(followers, stars)[i],
{
    let fl = chars_of(FOLLOWERS_LABEL);
    let sl = chars_of(STARS_LABEL);
    let fv = decimal_chars(followers);
    let sv = decimal_chars(stars);
    proof {
        lemma_u64_decimal_len(followers);
        lemma_u64_decimal_len(stars);
        reveal_strlit("Followers");
        reveal_strlit("Stars");
    }
    let (f0, f1, f2) = badge_line_chars(&fl, &fv, BADGE_WIDTH);
    let (s0, s1, s2) = badge_line_chars(&sl, &sv, BADGE_WIDTH);
    let mut r: Vec<Vec<char>> = Vec::new();
    r.push(f0);
    r.push(f1);
    r.push(f2);
    r.push(Vec::new());
    r.push(s0);
    r.push(s1);
    r.push(s2);
    let ghost st = badge_stack(followers, stars);
    assert(st.len() == 7);
    assert(r@[3]@ =~= st[3]);
    r
}

/// Line `i` of `lines`, or nothing past the end.
fn line_or_empty(lines: &Vec<Vec<char>>, i: usize) -> (r: Vec<char>)
    ensures
        r@ == (if i < lines@.len() {
            lines@[i as int]@
        } else {
            Seq::<char>::empty()
        }),
{
    if i < lines.len() {
        lines[i].clone()
    } else {
        Vec::new()
    }
}

/// Characters of the warning block, its caption and the break after it.
fn warning_chars(figure: &Vec<String>, followers: u64, stars: u64) -> (r: Vec<char>)
    ensures
        r@ == warning_text(lines_view(figure@), followers, stars),
{
    let ghost fig = lines_view(figure@);
    let ghost badges = badge_stack(followers, stars);
    let lines = line_chars(figure);
    let stack = badge_stack_chars(followers, stars);
    let column = widest_in_bytes(figure) / 2 + 2;
    let rows = if lines.len() >= stack.len() + BADGE_OFFSET {
        lines.len()
    } else {
        stack.len() + BADGE_OFFSET
    };
    let mut out: Vec<char> = Vec::new();
    push_str(&mut out, WARNING_OPEN);
    let ghost start = out@;
    let mut i: usize = 0;
    while i < rows
        invariant
            i <= rows,
            rows == header_row_count(fig.len(), badges.len()),
            column == figure_column(fig),
            fig == lines_view(figure@),
            badges == badge_stack(followers, stars),
            lines@.len() == fig.len(),
            forall|j: int| 0 <= j < lines@.len() ==> lines@[j]@ == fig[j],
            stack@.len() == badges.len(),
            forall|j: int| 0 <= j < stack@.len() ==> stack@[j]@ == badges[j],
            out@ == start + header_rows(fig, badges, i as nat),
        decreases rows - i,
    {
        let ghost before = out@;
        out.push('>');
        out.push(' ');
        let cell = line_or_empty(&lines, i);
        push_pad_right(&mut out, &cell, column);
        out.push(' ');
        let badge = if i >= BADGE_OFFSET {
            line_or_empty(&stack, i - BADGE_OFFSET)
        } else {
            Vec::new()
        };
        push_seq(&mut out, &badge);
        out.push('\n');
        assert(cell@ == line_at(fig, i as int));
        assert(badge@ =~= line_at(badges, i - BADGE_OFFSET));
        assert(out@ =~= before + header_row(fig, badges, i as int));
        i += 1;
    }
    push_str(&mut out, WARNING_CLOSE);
    push_str(&mut out, CAPTION);
    push_str(&mut out, SECTION_BREAK);
    assert(out@ =~= warning_text(fig, followers, stars));
    out
}

/// Appends the share as a percentage with one decimal.
fn push_percent(out: &mut Vec<char>, part: u64, whole: u64)
    ensures
        final(out)@ == old(out)@ + percent_text(part as nat, whole as nat),
{
    let tenths = if whole == 0 {
        0
    } else {
        round_div(part as u128 * 1000, whole as u128)
    };
    push_decimal(out, tenths / 10);
    out.push('.');
    out.push(digit((tenths % 10) as u64));
    assert(final(out)@ =~= old(out)@ + percent_text(part as nat, whole as nat));
}

/// Characters of one language row without its figure line.
pub fn language_line_chars(share: &LanguageShare) -> (r: Vec<char>)
    ensures
        r@ == language_line(share.name@, share.bytes, share.total),
{
    let name = chars_of(share.name.as_str());
    let mut out: Vec<char> = Vec::new();
    push_pad_right(&mut out, &name, NAME_WIDTH);
    out.push(' ');
    let bar = bar_chars(share.bytes, share.total, BAR_WIDTH);
    push_seq(&mut out, &bar);
    out.push(' ');
    push_percent(&mut out, share.bytes, share.total);
    out.push('%');
    assert(out@ =~= language_line(share.name@, share.bytes, share.total));
    out
}

/// Characters of the language block.
fn languages_chars(langs: &Vec<LanguageShare>, art: &Vec<String>) -> (r: Vec<char>)
    ensures
        r@ == languages_text(shares_view(langs@), lines_view(art@)),
{
    let ghost sv = shares_view(langs@);
    let ghost av = lines_view(art@);
    let art_lines = line_chars(art);
    let n = langs.len();
    let a = art_lines.len();
    let mut out: Vec<char> = Vec::new();
    push_str(&mut out, LANGUAGES_OPEN);
    let ghost start = out@;
    let mut i: usize = 0;
    while i < n
        invariant
            i <= n,
            n == sv.len(),
            a == av.len(),
            sv == shares_view(langs@),
            av == lines_view(art@),
            art_lines@.len() == a,
            forall|j: int| 0 <= j < a ==> art_lines@[j]@ == av[j],
            out@ == start + language_rows(sv, av, i as nat),
        decreases n - i,
    {
        let ghost before = out@;
        let line = language_line_chars(&langs[i]);
        let with_art = if a >= n {
            true
        } else {
            i >= n - a
        };
        if with_art {
            let k = if a >= n {
                i + (a - n)
            } else {
                i - (n - a)
            };
            push_pad_right(&mut out, &line, LINE_WIDTH);
            out.push(' ');
            push_pad_left(&mut out, &art_lines[k], ART_COLUMN);
            out.push('\n');
        } else {
            push_seq(&mut out, &line);
            out.push('\n');
        }
        assert(out@ =~= before + language_row(sv, av, i as int));
        i += 1;
    }
    push_str(&mut out, FENCE_CLOSE);
    assert(out@ =~= languages_text(sv, av));
    out
}

/// Characters of the activity block up to its "last updated" line.
fn activity_head_chars(events: &Vec<ActivityEvent>) -> (r: Vec<char>)
    ensures
        r@ == activity_head(events_view(events@)),
{
    let ghost ev = events_view(events@);
    let shown = if events.len() <= ACTIVITY_LIMIT {
        events.len()
    } else {
        ACTIVITY_LIMIT
    };
    let mut out: Vec<char> = Vec::new();
    push_str(&mut out, ACTIVITY_OPEN);
    push_repeat(&mut out, '-', RULE_WIDTH);
    out.push('\n');
    let ghost start = out@;
    let mut i: usize = 0;
    while i < shown
        invariant
            i <= shown,
            shown <= events@.len(),
            shown == shown_events(ev.len()),
            ev == events_view(events@),
            out@ == start + activity_rows(ev, i as nat),
        decreases shown - i,
    {
        let ghost before = out@;
        let row = activity_row_chars(&events[i]);
        push_seq(&mut out, &row);
        out.push('\n');
        assert(out@ =~= before + (row_text(ev[i as int].0, ev[i as int].1, ev[i as int].2) + seq![
            '\n',
        ]));
        i += 1;
    }
    push_repeat(&mut out, '-', RULE_WIDTH);
    out.push('\n');
    out.push('\n');
    assert(out@ =~= activity_head(ev));
    out
}

/// Renders the whole report made at time `updated`: the warning block with the
/// figure beside the followers and stars badges, the language block with the
/// small figure beside its last rows, the statistics table, the activity log of
/// at most five events with the time of the report, and the closing note.
pub fn render_report(input: &ReportInput, updated: &Stamp) -> (r: String)
    ensures
        r@ == report_text(*input, *updated),
{
    let mut out = warning_chars(&input.figure, input.followers, input.stars);
    let langs = languages_chars(&input.languages, &input.small_art);
    push_seq(&mut out, &langs);
    push_str(&mut out, STATS_OPEN);
    let table = stats_chars(&input.stats);
    push_seq(&mut out, &table);
    push_str(&mut out, STATS_CLOSE);
    let head = activity_head_chars(&input.activities);
    push_seq(&mut out, &head);
    assert(out@ =~= report_body(*input));
    push_str(&mut out, UPDATED_LABEL);
    push_seconds(&mut out, updated);
    out.push('\n');
    push_str(&mut out, FENCE_CLOSE);
    push_str(&mut out, CLOSING_NOTE);
    assert(out@ =~= report_text(*input, *updated));
    string_of(&out)
}

/// Renders the whole report, stamped with the current local time.
pub fn render_report_now(input: &ReportInput) -> (r: String)
    ensures
        exists|t: Stamp| #![trigger report_text(*input, t)] t.wf() && r@ == report_text(*input, t),
{
    let now = now_local();
    render_report(input, &now)
}

/// Two renderings of the same input differ at most in their "last updated" line:
/// everything before it is the same, and everything after it is the same.
pub proof fn lemma_report_differs_only_in_time(input: ReportInput, t1: Stamp, t2: Stamp)
    ensures
        ({
            let b = report_body(input).len() as int;
            let r1 = report_text(input, t1);
            let r2 = report_text(input, t2);
            &&& r1.subrange(0, b) == r2.subrange(0, b)
            &&& r1 == r1.subrange(0, b) + updated_line(t1) + report_tail()
            &&& r2 == r2.subrange(0, b) + updated_line(t2) + report_tail()
            &&& t1 == t2 ==> r1 == r2
        }),
{
    let body = report_body(input);
    let b = body.len() as int;
    assert(report_text(input, t1).subrange(0, b) =~= body);
    assert(report_text(input, t2).subrange(0, b) =~= body);
}

/// Of `n` language rows beside a figure of `a` lines, exactly the last `min(n, a)`
/// carry a figure line: such a row is the language line padded to the row width,
/// then the figure line right-aligned in the figure column; every earlier row is
/// the language line alone.
pub proof fn lemma_figure_beside_last_rows(
    langs: Seq<(Seq<char>, u64, u64)>,
    art: Seq<Seq<char>>,
    i: int,
)
    requires
        0 <= i < langs.len(),
    ensures
        ({
            let n = langs.len() as int;
            let a = art.len() as int;
            let first = if a >= n {
                0
            } else {
                n - a
            };
            let line = language_line(langs[i].0, langs[i].1, langs[i].2);
            &&& carries_art(i, langs.len(), art.len()) <==> i >= first
            &&& i >= first ==> language_row(langs, art, i) == pad_right(line, LINE_WIDTH as nat)
                + seq![' '] + pad_left(art[i + a - n], ART_COLUMN as nat)
                + seq!['\n']
            &&& i < first ==> language_row(langs, art, i) == line + seq!['\n']
        }),
{
}

} // verus!
