//! The contribution statistics laid out as a fixed two-column ASCII table.
use vstd::prelude::*;
use crate::text::{decimal, decimal_chars, pad_left, push_pad_left, push_str, string_of};

verus! {

/// Six counters of one profile, taken once per report.
#[derive(Clone, Copy, Debug, PartialEq, Eq, Structural)]
pub struct StatsSummary {
    pub commits: u64,
    pub prs: u64,
    pub issues: u64,
    pub stars: u64,
    pub repos_owned: u64,
    pub contributed_to: u64,
}

pub const TABLE_RULE: &'static str =
    "+-------------+------------------------+----------------+--------------------------------------+";

pub const TABLE_HEADER: &'static str =
    "|   Metric    |         Value          |     Metric     |                Value                 |";

pub const COMMITS_CELL: &'static str = "|   Commits   | ";

pub const PRS_CELL: &'static str = "| PRs opened  | ";

pub const REPOS_CELL: &'static str = "| Repos owned | ";

pub const ISSUES_CELL: &'static str = " | Issues opened  | ";

pub const STARS_CELL: &'static str = " | Stars received | ";

pub const CONTRIBUTED_CELL: &'static str = " | Contributed to | ";

pub const ROW_END: &'static str = " |";

/// Width of the first value column.
pub const LEFT_VALUE_WIDTH: usize = 22;

/// Width of the second value column.
pub const RIGHT_VALUE_WIDTH: usize = 36;

/// A data row: two metric names, each followed by its value right-aligned in its column.
pub open spec fn table_row(first: Seq<char>, x: u64, second: Seq<char>, y: u64) -> Seq<char> {
    first + pad_left(decimal(x as nat), LEFT_VALUE_WIDTH as nat) + second + pad_left(
        decimal(y as nat),
        RIGHT_VALUE_WIDTH as nat,
    ) + ROW_END@
}

/// The whole table: rule, header, rule, three data rows, rule; lines joined by
/// line feeds, with no line feed after the last.
pub open spec fn stats_text(s: StatsSummary) -> Seq<char> {
    TABLE_RULE@ + seq!['\n'] + TABLE_HEADER@ + seq!['\n'] + TABLE_RULE@ + seq!['\n'] + table_row(
        COMMITS_CELL@,
        s.commits,
        ISSUES_CELL@,
        s.issues,
    ) + seq!['\n'] + table_row(PRS_CELL@, s.prs, STARS_CELL@, s.stars) + seq!['\n'] + table_row(
        REPOS_CELL@,
        s.repos_owned,
        CONTRIBUTED_CELL@,
        s.contributed_to,
    ) + seq!['\n'] + TABLE_RULE@
}

fn push_row(out: &mut Vec<char>, first: &str, x: u64, second: &str, y: u64)
    ensures
        final(out)@ == old(out)@ + table_row(first@, x, second@, y),
{
    push_str(out, first);
    let dx = decimal_chars(x);
    push_pad_left(out, &dx, LEFT_VALUE_WIDTH);
    push_str(out, second);
    let dy = decimal_chars(y);
    push_pad_left(out, &dy, RIGHT_VALUE_WIDTH);
    push_str(out, ROW_END);
    assert(final(out)@ =~= old(out)@ + table_row(first@, x, second@, y));
}

/// Characters of the statistics table.
pub fn stats_chars(s: &StatsSummary) -> (r: Vec<char>)
    ensures
        r@ == stats_text(*s),
{
    let mut out: Vec<char> = Vec::new();
    push_str(&mut out, TABLE_RULE);
    out.push('\n');
    push_str(&mut out, TABLE_HEADER);
    out.push('\n');
    push_str(&mut out, TABLE_RULE);
    out.push('\n');
    push_row(&mut out, COMMITS_CELL, s.commits, ISSUES_CELL, s.issues);
    out.push('\n');
    push_row(&mut out, PRS_CELL, s.prs, STARS_CELL, s.stars);
    out.push('\n');
    push_row(&mut out, REPOS_CELL, s.repos_owned, CONTRIBUTED_CELL, s.contributed_to);
    out.push('\n');
    push_str(&mut out, TABLE_RULE);
    assert(out@ =~= stats_text(*s));
    out
}

/// Lays the six counters out as a five-line table of two metric/value pairs per
/// row, each value right-aligned in its column.
pub fn format_stats(s: &StatsSummary) -> (r: String)
    ensures
        r@ == stats_text(*s),
{
    let v = stats_chars(s);
    string_of(&v)
}

} // verus!
