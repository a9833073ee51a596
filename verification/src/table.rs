//! The glyph table: a fixed, immutable catalog mapping characters to
//! symbolic codes.
//!
//! The table has eight rows of six characters. A character found at row
//! `r`, column `c` encodes as the pair `(r, c)`; the two coordinates double
//! as the stroke-pattern selectors of the glyph's upper and lower halves.
//! The search is row-major and the first matching cell wins.

use vstd::prelude::*;

verus! {

/// Number of rows in the glyph table.
pub const TABLE_ROWS: usize = 8;

/// Number of characters in each row of the glyph table.
pub const TABLE_COLS: usize = 6;

/// Number of cells in the glyph table.
pub const TABLE_CELLS: usize = 48;

/// Row `r` of the glyph table. Rows outside the table repeat the last row;
/// callers stay within bounds.
pub open spec fn glyph_row(r: int) -> Seq<char> {
    if r == 0 {
        seq!['p', 'b', 't', 'd', 'k', 'g']
    } else if r == 1 {
        seq!['f', 'v', 's', 'z', 'c', 'j']
    } else if r == 2 {
        seq!['m', 'n', 'r', 'l', 'w', 'y']
    } else if r == 3 {
        seq!['\u{165}', '\u{10f}', '\u{10d}', '\u{1f0}', '\u{148}', 'h']
    } else if r == 4 {
        seq!['\u{f8}', 'i', 'u', 'e', 'o', 'a']
    } else if r == 5 {
        seq!['\u{e3}', '\u{ed}', '\u{fa}', '\u{e9}', '\u{f3}', '\u{e1}']
    } else if r == 6 {
        seq!['.', ',', '\u{1d4}', '\u{11b}', '\u{1d2}', '\u{1ce}']
    } else {
        seq!['\u{1ebd}', '\u{129}', '\u{169}', '\u{207}', '\u{20f}', '\u{203}']
    }
}

/// The character in row `r`, column `c` of the glyph table.
pub open spec fn glyph_at(r: int, c: int) -> char {
    glyph_row(r)[c]
}

/// Row-major first-match search for `ch`, starting at linear cell index
/// `k` (row `k / 6`, column `k % 6`).
pub open spec fn lookup_from(ch: char, k: int) -> Option<(u8, u8)>
    decreases TABLE_CELLS - k,
{
    if k >= TABLE_CELLS {
        None
    } else if glyph_at(k / TABLE_COLS as int, k % TABLE_COLS as int) == ch {
        Some(((k / TABLE_COLS as int) as u8, (k % TABLE_COLS as int) as u8))
    } else {
        lookup_from(ch, k + 1)
    }
}

/// The symbolic code of `ch`: the coordinates of the first cell of the
/// glyph table holding `ch` in row-major order, or `None` when no cell
/// does.
pub open spec fn char_code(ch: char) -> Option<(u8, u8)> {
    lookup_from(ch, 0)
}

/// The character in the glyph table cell with linear index `k`.
fn glyph_cell(k: usize) -> (c: char)
    requires
        k < TABLE_CELLS,
    ensures
        c == glyph_at(k as int / TABLE_COLS as int, k as int % TABLE_COLS as int),
{
    match k {
        0 => 'p',
        1 => 'b',
        2 => 't',
        3 => 'd',
        4 => 'k',
        5 => 'g',
        6 => 'f',
        7 => 'v',
        8 => 's',
        9 => 'z',
        10 => 'c',
        11 => 'j',
        12 => 'm',
        13 => 'n',
        14 => 'r',
        15 => 'l',
        16 => 'w',
        17 => 'y',
        18 => '\u{165}',
        19 => '\u{10f}',
        20 => '\u{10d}',
        21 => '\u{1f0}',
        22 => '\u{148}',
        23 => 'h',
        24 => '\u{f8}',
        25 => 'i',
        26 => 'u',
        27 => 'e',
        28 => 'o',
        29 => 'a',
        30 => '\u{e3}',
        31 => '\u{ed}',
        32 => '\u{fa}',
        33 => '\u{e9}',
        34 => '\u{f3}',
        35 => '\u{e1}',
        36 => '.',
        37 => ',',
        38 => '\u{1d4}',
        39 => '\u{11b}',
        40 => '\u{1d2}',
        41 => '\u{1ce}',
        42 => '\u{1ebd}',
        43 => '\u{129}',
        44 => '\u{169}',
        45 => '\u{207}',
        46 => '\u{20f}',
        _ => '\u{203}',
    }
}

/// Search the glyph table for `ch`, returning the coordinates of the
/// first matching cell in row-major order.
pub fn lookup_char(ch: char) -> (r: Option<(u8, u8)>)
    ensures
        r == char_code(ch),
{
    let mut k: usize = 0;
    while k < TABLE_CELLS
        invariant
            k <= TABLE_CELLS,
            char_code(ch) == lookup_from(ch, k as int),
        decreases TABLE_CELLS - k,
    {
        if glyph_cell(k) == ch {
            return Some(((k / TABLE_COLS) as u8, (k % TABLE_COLS) as u8));
        }
        k = k + 1;
    }
    None
}

} // verus!
