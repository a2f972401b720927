//! A label/value pair drawn as a three-line box with rounded corners.
use vstd::prelude::*;
use vstd::string::*;
use crate::text::{pad_right, repeat_char, push_pad_right, push_repeat, push_seq, chars_of, string_of};

verus! {

/// Inner width of the box: the requested minimum, widened so that the label,
/// the value and their four spaces and separator always fit.
pub open spec fn badge_width(label_len: nat, value_len: nat, min_width: nat) -> nat {
    if min_width >= label_len + value_len + 4 {
        min_width
    } else {
        label_len + value_len + 4
    }
}

pub open spec fn badge_top(width: nat) -> Seq<char> {
    seq!['╭'] + repeat_char('─', width) + seq!['╮']
}

pub open spec fn badge_bottom(width: nat) -> Seq<char> {
    seq!['╰'] + repeat_char('─', width) + seq!['╯']
}

/// The content line: the label in its own cell, then the value left-aligned in
/// the rest of the box.
pub open spec fn badge_middle(label: Seq<char>, value: Seq<char>, width: nat) -> Seq<char> {
    seq!['│', ' '] + label + seq!['│', ' '] + pad_right(value, (width - label.len() - 4) as nat)
        + seq![' ', '│']
}

/// The three lines of the badge, top to bottom.
pub open spec fn badge_lines(label: Seq<char>, value: Seq<char>, min_width: nat) -> Seq<
    Seq<char>,
> {
    let w = badge_width(label.len(), value.len(), min_width);
    seq![badge_top(w), badge_middle(label, value, w), badge_bottom(w)]
}

/// The badge as one text, its lines joined by line feeds.
pub open spec fn badge_text(label: Seq<char>, value: Seq<char>, min_width: nat) -> Seq<char> {
    let lines = badge_lines(label, value, min_width);
    lines[0] + seq!['\n'] + lines[1] + seq!['\n'] + lines[2]
}

/// The badge's three lines, each held as characters.
pub fn badge_line_chars(label: &Vec<char>, value: &Vec<char>, min_width: usize) -> (r: (
    Vec<char>,
    Vec<char>,
    Vec<char>,
))
    requires
        label@.len() + value@.len() + 4 <= usize::MAX,
    ensures
        r.0@ == badge_lines(label@, value@, min_width as nat)[0],
        r.1@ == badge_lines(label@, value@, min_width as nat)[1],
        r.2@ == badge_lines(label@, value@, min_width as nat)[2],
{
    let needed = label.len() + value.len() + 4;
    let width = if min_width >= needed {
        min_width
    } else {
        needed
    };
    let mut top: Vec<char> = Vec::new();
    top.push('╭');
    push_repeat(&mut top, '─', width);
    top.push('╮');
    let mut bottom: Vec<char> = Vec::new();
    bottom.push('╰');
    push_repeat(&mut bottom, '─', width);
    bottom.push('╯');
    let mut middle: Vec<char> = Vec::new();
    middle.push('│');
    middle.push(' ');
    push_seq(&mut middle, label);
    middle.push('│');
    middle.push(' ');
    push_pad_right(&mut middle, value, width - label.len() - 4);
    middle.push(' ');
    middle.push('│');
    let ghost w = width as nat;
    assert(top@ =~= badge_top(w));
    assert(bottom@ =~= badge_bottom(w));
    assert(middle@ =~= badge_middle(label@, value@, w));
    (top, middle, bottom)
}

/// Renders `label` and `value` as a bordered three-line badge whose inner width
/// is `min_width`, widened to fit the content when needed; content is never cut.
pub fn render_badge(label: &str, value: &str, min_width: usize) -> (r: String)
    requires
        label@.len() + value@.len() + 4 <= usize::MAX,
    ensures
        r@ == badge_text(label@, value@, min_width as nat),
{
    let l = chars_of(label);
    let v = chars_of(value);
    let (top, middle, bottom) = badge_line_chars(&l, &v, min_width);
    let mut out: Vec<char> = Vec::new();
    push_seq(&mut out, &top);
    out.push('\n');
    push_seq(&mut out, &middle);
    out.push('\n');
    push_seq(&mut out, &bottom);
    assert(out@ =~= badge_text(label@, value@, min_width as nat));
    string_of(&out)
}

/// Every badge is three lines of one common length, two more than its inner
/// width, and that width is at least the requested minimum; the middle line
/// holds the label right after its opening border and space, and the value after
/// the separator.
pub proof fn lemma_badge_shape(label: Seq<char>, value: Seq<char>, min_width: nat)
    ensures
        ({
            let lines = badge_lines(label, value, min_width);
            let w = badge_width(label.len(), value.len(), min_width);
            &&& lines.len() == 3
            &&& w >= min_width
            &&& lines[0].len() == w + 2
            &&& lines[1].len() == w + 2
            &&& lines[2].len() == w + 2
            &&& lines[1].subrange(2, 2 + label.len() as int) == label
            &&& lines[1].subrange(4 + label.len() as int, 4 + label.len() + value.len() as int) == value
        }),
{
    let lines = badge_lines(label, value, min_width);
    let w = badge_width(label.len(), value.len(), min_width);
    let m = badge_middle(label, value, w);
    assert(m.subrange(2, 2 + label.len() as int) =~= label);
    assert(m.subrange(4 + label.len() as int, 4 + label.len() + value.len() as int) =~= value);
}

} // verus!
