//! An image as text, for people to read: a head that numbers the columns,
//! then a line for each row with the row's number, `X` for a foreground pixel
//! and `_` for a background pixel, each pixel between two bars.
//!
//! A 3 x 2 image comes out as
//!
//! ```text
//!  |0|1|2|
//! 0|X|_|X|
//! 1|_|X|_|
//! ```
//!
//! Numbers are written in decimal, one head line for each decimal place of the
//! largest column number, with blanks for leading zeros.

use crate::bin_image::BinImage;
use crate::grid::{height, width, Grid};
use vstd::prelude::*;
use vstd::string::StringExecFns;

verus! {

/// How many decimal digits `n` has; 0 has none.
pub open spec fn decimal_digits(n: nat) -> nat
    decreases n,
{
    if n == 0 {
        0
    } else {
        decimal_digits(n / 10) + 1
    }
}

/// `n` without its last `place` decimal digits.
pub open spec fn without_last(n: nat, place: nat) -> nat
    decreases place,
{
    if place == 0 {
        n
    } else {
        without_last(n / 10, (place - 1) as nat)
    }
}

/// The character for the digit `d`, which is below 10.
pub open spec fn digit_char(d: nat) -> char {
    if d == 0 {
        '0'
    } else if d == 1 {
        '1'
    } else if d == 2 {
        '2'
    } else if d == 3 {
        '3'
    } else if d == 4 {
        '4'
    } else if d == 5 {
        '5'
    } else if d == 6 {
        '6'
    } else if d == 7 {
        '7'
    } else if d == 8 {
        '8'
    } else {
        '9'
    }
}

/// What stands at the decimal place `place` of the number `n`, the units being
/// place 0: the digit of `n` there, a blank for a leading zero, and `0` for
/// the units of 0.
pub open spec fn label_char(n: nat, place: nat) -> char {
    let rest = without_last(n, place);
    if rest > 0 {
        digit_char(rest % 10)
    } else if place == 0 {
        '0'
    } else {
        ' '
    }
}

/// The first `k` characters of the number `n` written in `places` places.
pub open spec fn label(n: nat, places: nat, k: nat) -> Seq<char>
    decreases k,
{
    if k == 0 {
        Seq::empty()
    } else {
        label(n, places, (k - 1) as nat).push(label_char(n, (places - k) as nat))
    }
}

/// `n` blanks.
pub open spec fn blanks(n: nat) -> Seq<char>
    decreases n,
{
    if n == 0 {
        Seq::empty()
    } else {
        blanks((n - 1) as nat).push(' ')
    }
}

/// The first `n` cells of a head line for the decimal place `place`: for each
/// column what stands at that place of its number, and a bar.
pub open spec fn head_cells(place: nat, n: nat) -> Seq<char>
    decreases n,
{
    if n == 0 {
        Seq::empty()
    } else {
        head_cells(place, (n - 1) as nat).push(label_char((n - 1) as nat, place)).push('|')
    }
}

/// The character for a pixel.
pub open spec fn pixel_char(p: bool) -> char {
    if p {
        'X'
    } else {
        '_'
    }
}

/// The first `n` cells of a row: for each pixel its character, and a bar.
pub open spec fn row_cells(row: Seq<bool>, n: nat) -> Seq<char>
    decreases n,
{
    if n == 0 {
        Seq::empty()
    } else {
        row_cells(row, (n - 1) as nat).push(pixel_char(row[n - 1])).push('|')
    }
}

/// The head line for the decimal place `place` over `w` columns, behind a
/// margin as wide as the row numbers.
pub open spec fn head_line(w: nat, margin: nat, place: nat) -> Seq<char> {
    (blanks(margin).push('|') + head_cells(place, w)).push('\n')
}

/// The line for row number `y`.
pub open spec fn row_line(row: Seq<bool>, y: nat, margin: nat) -> Seq<char> {
    (label(y, margin, margin).push('|') + row_cells(row, row.len())).push('\n')
}

/// The first `n` head lines, from the highest of `places` decimal places down.
pub open spec fn head(w: nat, margin: nat, places: nat, n: nat) -> Seq<char>
    decreases n,
{
    if n == 0 {
        Seq::empty()
    } else {
        head(w, margin, places, (n - 1) as nat) + head_line(w, margin, (places - n) as nat)
    }
}

/// The lines of the first `n` rows.
pub open spec fn body(g: Grid, margin: nat, n: nat) -> Seq<char>
    decreases n,
{
    if n == 0 {
        Seq::empty()
    } else {
        body(g, margin, (n - 1) as nat) + row_line(g[n - 1], (n - 1) as nat, margin)
    }
}

/// The largest index of `n` things, and 0 where there is none.
pub open spec fn last_index(n: nat) -> nat {
    if n == 0 {
        0
    } else {
        (n - 1) as nat
    }
}

/// The picture of a grid whose rows all have the length of the first.
pub open spec fn picture(g: Grid) -> Seq<char> {
    let margin = decimal_digits(last_index(height(g)));
    let places = decimal_digits(last_index(width(g)));
    head(width(g), margin, places, places) + body(g, margin, g.len())
}

/// How many decimal digits `number` has.
fn count_digit(number: usize) -> (count: usize)
    ensures
        count == decimal_digits(number as nat),
{
    let mut count: usize = 0;
    let mut n: usize = number;
    while n != 0
        invariant
            count + n <= number,
            decimal_digits(number as nat) == count + decimal_digits(n as nat),
        decreases n,
    {
        n = n / 10;
        count = count + 1;
    }
    count
}

/// The text of one character that stands at the decimal place `place` of
/// `number`.
fn label_text(number: usize, place: usize) -> (text: &'static str)
    ensures
        text@ == seq![label_char(number as nat, place as nat)],
{
    let mut rest: usize = number;
    let mut left: usize = place;
    while left > 0
        invariant
            without_last(number as nat, place as nat) == without_last(rest as nat, left as nat),
        decreases left,
    {
        rest = rest / 10;
        left = left - 1;
    }
    proof {
        reveal_strlit("0");
        reveal_strlit("1");
        reveal_strlit("2");
        reveal_strlit("3");
        reveal_strlit("4");
        reveal_strlit("5");
        reveal_strlit("6");
        reveal_strlit("7");
        reveal_strlit("8");
        reveal_strlit("9");
        reveal_strlit(" ");
    }
    let text: &'static str = if rest > 0 {
        let d: usize = rest % 10;
        if d == 0 {
            "0"
        } else if d == 1 {
            "1"
        } else if d == 2 {
            "2"
        } else if d == 3 {
            "3"
        } else if d == 4 {
            "4"
        } else if d == 5 {
            "5"
        } else if d == 6 {
            "6"
        } else if d == 7 {
            "7"
        } else if d == 8 {
            "8"
        } else {
            "9"
        }
    } else if place == 0 {
        "0"
    } else {
        " "
    };
    text
}

/// Writes `number` in `places` decimal places behind `text`.
fn push_label(text: &mut String, number: usize, places: usize)
    ensures
        final(text)@ == old(text)@ + label(number as nat, places as nat, places as nat),
{
    let mut k: usize = 0;
    while k < places
        invariant
            k <= places,
            text@ == old(text)@ + label(number as nat, places as nat, k as nat),
        decreases places - k,
    {
        k = k + 1;
        text.append(label_text(number, places - k));
    }
}

/// Writes `n` blanks behind `text`.
fn push_blanks(text: &mut String, n: usize)
    ensures
        final(text)@ == old(text)@ + blanks(n as nat),
{
    let mut k: usize = 0;
    while k < n
        invariant
            k <= n,
            text@ == old(text)@ + blanks(k as nat),
        decreases n - k,
    {
        k = k + 1;
        text.append(" ");
        proof {
            reveal_strlit(" ");
        }
    }
}

/// Writes the head line for the decimal place `place` behind `text`.
fn push_head_line(text: &mut String, width: usize, margin: usize, place: usize)
    ensures
        final(text)@ == old(text)@ + head_line(width as nat, margin as nat, place as nat),
{
    push_blanks(text, margin);
    text.append("|");
    let ghost start = text@;
    proof {
        reveal_strlit("|");
    }
    let mut x: usize = 0;
    while x < width
        invariant
            x <= width,
            text@ == start + head_cells(place as nat, x as nat),
        decreases width - x,
    {
        text.append(label_text(x, place));
        text.append("|");
        x = x + 1;
        proof {
            reveal_strlit("|");
        }
    }
    text.append("\n");
    proof {
        reveal_strlit("\n");
    }
}

/// Writes the line for the row `row`, which has the number `y`, behind `text`.
fn push_row_line(text: &mut String, row: &Vec<bool>, y: usize, margin: usize)
    ensures
        final(text)@ == old(text)@ + row_line(row@, y as nat, margin as nat),
{
    push_label(text, y, margin);
    text.append("|");
    let ghost start = text@;
    proof {
        reveal_strlit("|");
    }
    let mut x: usize = 0;
    while x < row.len()
        invariant
            x <= row.len(),
            text@ == start + row_cells(row@, x as nat),
        decreases row.len() - x,
    {
        if row[x] {
            text.append("X");
        } else {
            text.append("_");
        }
        text.append("|");
        x = x + 1;
        proof {
            reveal_strlit("X");
            reveal_strlit("_");
            reveal_strlit("|");
        }
    }
    text.append("\n");
    proof {
        reveal_strlit("\n");
    }
}

impl BinImage {
    /// The picture of this image.
    pub fn to_string(&self) -> (text: String)
        ensures
            text@ == picture(self@),
    {
        let pixels = self.get_pixels();
        let width: usize = self.get_width();
        let height: usize = self.get_height();
        let places: usize = count_digit(if width == 0 { 0 } else { width - 1 });
        let margin: usize = count_digit(if height == 0 { 0 } else { height - 1 });
        let mut text = String::new();
        let mut n: usize = 0;
        while n < places
            invariant
                n <= places,
                text@ == head(width as nat, margin as nat, places as nat, n as nat),
            decreases places - n,
        {
            n = n + 1;
            push_head_line(&mut text, width, margin, places - n);
        }
        let ghost top = text@;
        let mut y: usize = 0;
        while y < height
            invariant
                y <= height,
                height == self@.len(),
                pixels.deep_view() == self@,
                text@ == top + body(self@, margin as nat, y as nat),
            decreases height - y,
        {
            proof {
                assert(pixels.deep_view()[y as int] =~= pixels[y as int]@);
            }
            push_row_line(&mut text, &pixels[y], y, margin);
            y = y + 1;
        }
        text
    }
}

} // verus!
