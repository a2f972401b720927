//! A percentage drawn as a fixed-width bar of filled, transition and empty cells.
use vstd::prelude::*;
use vstd::arithmetic::div_mod::lemma_fundamental_div_mod_converse;
use crate::text::string_of;

verus! {

pub const FILLED: char = '█';

pub const TRANSITION: char = '▓';

pub const EMPTY: char = '░';

/// `num / den` rounded to the nearest integer, halves rounded up; zero when `den` is zero.
pub open spec fn round_ratio(num: nat, den: nat) -> nat {
    if den == 0 {
        0
    } else {
        ((2 * num + den) / (2 * den)) as nat
    }
}

/// Number of filled cells for the share `part / whole` on `width` cells: the
/// share times `width`, rounded, and clamped to `[0, width]`. A share with a zero
/// whole counts as nothing.
pub open spec fn bar_fill(part: nat, whole: nat, width: nat) -> nat {
    if whole == 0 {
        0
    } else if part >= whole {
        width
    } else {
        round_ratio(part * width, whole)
    }
}

/// The cell at `i` of a bar with `fill` filled cells: filled before `fill`,
/// the transition cell at `fill`, empty after it.
pub open spec fn bar_cell(i: int, fill: nat) -> char {
    if i < fill {
        FILLED
    } else if i == fill {
        TRANSITION
    } else {
        EMPTY
    }
}

pub open spec fn bar_cells(fill: nat, width: nat) -> Seq<char> {
    Seq::new(width, |i: int| bar_cell(i, fill))
}

/// The whole bar for the share `part / whole`, brackets included.
pub open spec fn bar_text(part: nat, whole: nat, width: nat) -> Seq<char> {
    seq!['['] + bar_cells(bar_fill(part, whole, width), width) + seq![']']
}

/// Number of occurrences of `c` in `s`.
pub open spec fn count_char(s: Seq<char>, c: char) -> nat
    decreases s.len(),
{
    if s.len() == 0 {
        0
    } else {
        count_char(s.drop_last(), c) + if s.last() == c {
            1nat
        } else {
            0nat
        }
    }
}

proof fn lemma_round_parts(num: nat, den: nat, q: nat, r: nat)
    requires
        den > 0,
        num == q * den + r,
        r < den,
    ensures
        round_ratio(num, den) == if 2 * r >= den {
            q + 1
        } else {
            q
        },
{
    let d2 = 2 * den;
    if 2 * r >= den {
        assert(2 * num + den == (q + 1) * d2 + (2 * r - den)) by (nonlinear_arith)
            requires
                num == q * den + r,
                d2 == 2 * den,
        ;
        lemma_fundamental_div_mod_converse(
            (2 * num + den) as int,
            d2 as int,
            (q + 1) as int,
            (2 * r - den) as int,
        );
    } else {
        assert(2 * num + den == q * d2 + (2 * r + den)) by (nonlinear_arith)
            requires
                num == q * den + r,
                d2 == 2 * den,
        ;
        lemma_fundamental_div_mod_converse(
            (2 * num + den) as int,
            d2 as int,
            q as int,
            (2 * r + den) as int,
        );
    }
}

proof fn lemma_fill_within(part: nat, whole: nat, width: nat)
    requires
        part < whole,
    ensures
        round_ratio(part * width, whole) <= width,
{
    let num = part * width;
    let q = num / whole;
    let m = num % whole;
    vstd::arithmetic::div_mod::lemma_fundamental_div_mod(num as int, whole as int);
    if width > 0 {
        assert(num < whole * width) by (nonlinear_arith)
            requires
                num == part * width,
                part < whole,
                width > 0,
        ;
        assert(q < width) by (nonlinear_arith)
            requires
                num == q * whole + m,
                m >= 0,
                num < whole * width,
                whole > 0,
        ;
    } else {
        assert(num == 0);
    }
    lemma_round_parts(num, whole, q, m);
}

/// `num / den`, rounded to the nearest integer with halves rounded up.
pub fn round_div(num: u128, den: u128) -> (r: u128)
    requires
        den > 0,
    ensures
        r == round_ratio(num as nat, den as nat),
{
    let q = num / den;
    let m = num % den;
    proof {
        vstd::arithmetic::div_mod::lemma_fundamental_div_mod(num as int, den as int);
        lemma_round_parts(num as nat, den as nat, q as nat, m as nat);
    }
    if m >= den - m {
        assert(q < u128::MAX) by (nonlinear_arith)
            requires
                m >= den - m,
                m < den,
                num == q * den + m,
                num <= u128::MAX,
        ;
        q + 1
    } else {
        q
    }
}

/// The number of filled cells for the share `part / whole` on `width` cells.
pub fn fill_count(part: u64, whole: u64, width: usize) -> (r: usize)
    ensures
        r == bar_fill(part as nat, whole as nat, width as nat),
        r <= width,
{
    if whole == 0 {
        0
    } else if part >= whole {
        width
    } else {
        assert(part as u128 * width as u128 <= u128::MAX) by (nonlinear_arith)
            requires
                part < 0x1_0000_0000_0000_0000int,
                width < 0x1_0000_0000_0000_0000int,
        ;
        let num = part as u128 * width as u128;
        let r = round_div(num, whole as u128);
        proof {
            lemma_fill_within(part as nat, whole as nat, width as nat);
        }
        r as usize
    }
}

/// Renders the share `part / whole` (a percentage of `100 * part / whole`) as a bar
/// of `width` cells between brackets. With `fill` the rounded, clamped number of
/// filled cells, the cells before `fill` are filled, the cell at `fill` (if any)
/// is the transition cell, and the rest are empty: a full bar has no transition
/// cell, and an empty bar starts with one.
pub fn render_bar(part: u64, whole: u64, width: usize) -> (r: String)
    ensures
        r@ == bar_text(part as nat, whole as nat, width as nat),
{
    let v = bar_chars(part, whole, width);
    string_of(&v)
}

pub fn bar_chars(part: u64, whole: u64, width: usize) -> (r: Vec<char>)
    ensures
        r@ == bar_text(part as nat, whole as nat, width as nat),
{
    let fill = fill_count(part, whole, width);
    let mut cells: Vec<char> = Vec::new();
    cells.push('[');
    let mut i: usize = 0;
    while i < width
        invariant
            i <= width,
            cells@ == seq!['['] + bar_cells(fill as nat, i as nat),
        decreases width - i,
    {
        let c = if i < fill {
            FILLED
        } else if i == fill {
            TRANSITION
        } else {
            EMPTY
        };
        cells.push(c);
        i += 1;
        assert(cells@ =~= seq!['['] + bar_cells(fill as nat, i as nat));
    }
    cells.push(']');
    assert(cells@ =~= bar_text(part as nat, whole as nat, width as nat));
    cells
}

proof fn lemma_count_cells(fill: nat, n: nat)
    requires
        fill <= n,
    ensures
        count_char(bar_cells(fill, n), FILLED) == fill,
    decreases n,
{
    if n > 0 {
        let s = bar_cells(fill, n);
        if fill == n {
            lemma_count_cells((fill - 1) as nat, (n - 1) as nat);
            assert(s.drop_last() =~= bar_cells((fill - 1) as nat, (n - 1) as nat));
        } else {
            lemma_count_cells(fill, (n - 1) as nat);
            assert(s.drop_last() =~= bar_cells(fill, (n - 1) as nat));
        }
    }
}

proof fn lemma_count_concat(a: Seq<char>, b: Seq<char>, c: char)
    ensures
        count_char(a + b, c) == count_char(a, c) + count_char(b, c),
    decreases b.len(),
{
    if b.len() > 0 {
        lemma_count_concat(a, b.drop_last(), c);
        assert((a + b).drop_last() =~= a + b.drop_last());
    } else {
        assert(a + b =~= a);
    }
}

/// For every width of at least one cell and every share within `[0, 1]`, the bar
/// is `width + 2` characters long and holds exactly as many filled cells as the
/// share times the width, rounded and clamped to `[0, width]`.
pub proof fn lemma_bar_shape(part: nat, whole: nat, width: nat)
    requires
        width >= 1,
        part <= whole,
    ensures
        bar_text(part, whole, width).len() == width + 2,
        count_char(bar_text(part, whole, width), FILLED) == bar_fill(part, whole, width),
        bar_fill(part, whole, width) <= width,
        whole > 0 && part < whole ==> bar_fill(part, whole, width) == round_ratio(
            part * width,
            whole,
        ),
{
    let fill = bar_fill(part, whole, width);
    if whole > 0 && part < whole {
        lemma_fill_within(part, whole, width);
    }
    lemma_count_cells(fill, width);
    let t = bar_text(part, whole, width);
    lemma_count_concat(seq!['['] + bar_cells(fill, width), seq![']'], FILLED);
    lemma_count_concat(seq!['['], bar_cells(fill, width), FILLED);
    assert(seq!['['].drop_last() =~= Seq::<char>::empty());
    assert(seq![']'].drop_last() =~= Seq::<char>::empty());
    assert(count_char(Seq::<char>::empty(), FILLED) == 0);
    assert(seq!['['].last() == '[');
    assert(seq![']'].last() == ']');
    assert(count_char(seq!['['], FILLED) == 0);
    assert(count_char(seq![']'], FILLED) == 0);
}

} // verus!
