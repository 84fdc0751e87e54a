//! Grids written as text: one line for each row, `1` for a foreground pixel
//! and `0` for a background pixel.

use crate::grid::Grid;
use vstd::prelude::*;

verus! {

/// What has been read of a text: the rows of the lines that have ended, the
/// pixels of the line that has not, and whether that line holds any character
/// yet.
pub struct Reading {
    pub rows: Grid,
    pub row: Seq<bool>,
    pub open: bool,
}

/// What has been read when all of `text` has been: a line feed ends a line, `1`
/// and `0` add a pixel to the line, and any other character only belongs to
/// the line.
pub open spec fn reading(text: Seq<char>) -> Reading
    decreases text.len(),
{
    if text.len() == 0 {
        Reading { rows: Seq::empty(), row: Seq::empty(), open: false }
    } else {
        let before = reading(text.drop_last());
        let c = text.last();
        if c == '\n' {
            Reading { rows: before.rows.push(before.row), row: Seq::empty(), open: false }
        } else if c == '1' {
            Reading { rows: before.rows, row: before.row.push(true), open: true }
        } else if c == '0' {
            Reading { rows: before.rows, row: before.row.push(false), open: true }
        } else {
            Reading { rows: before.rows, row: before.row, open: true }
        }
    }
}

/// The grid that `text` describes: a row for each line, with a pixel for each
/// `1` and each `0` of the line. The last line needs no line feed behind it; a
/// line feed at the end of the text opens no further line.
pub open spec fn rows_of_text(text: Seq<char>) -> Grid {
    let all = reading(text);
    if all.open {
        all.rows.push(all.row)
    } else {
        all.rows
    }
}

/// The rows that `text` describes. They need not have the same length: that is
/// for [`crate::bin_image::BinImage::try_from`] to find out.
pub fn rows_from_text(text: &str) -> (rows: Vec<Vec<bool>>)
    ensures
        rows.deep_view() == rows_of_text(text@),
{
    let mut rows: Vec<Vec<bool>> = Vec::new();
    let mut row: Vec<bool> = Vec::new();
    let mut open: bool = false;
    for c in it: text.chars()
        invariant
            it.seq() == text@,
            rows.deep_view() == reading(text@.take(it.index() as int)).rows,
            row@ == reading(text@.take(it.index() as int)).row,
            open == reading(text@.take(it.index() as int)).open,
    {
        let ghost i = it.index() as int;
        assert(text@.take(i + 1).drop_last() =~= text@.take(i));
        if c == '\n' {
            let ghost before = rows;
            rows.push(row);
            proof {
                crate::bin_image::lemma_push_row(before, rows, row);
            }
            row = Vec::new();
            open = false;
        } else {
            if c == '1' {
                row.push(true);
            } else if c == '0' {
                row.push(false);
            }
            open = true;
        }
    }
    assert(text@.take(text@.len() as int) =~= text@);
    if open {
        let ghost before = rows;
        rows.push(row);
        proof {
            crate::bin_image::lemma_push_row(before, rows, row);
        }
    }
    rows
}

} // verus!
