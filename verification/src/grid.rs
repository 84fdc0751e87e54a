//! The mathematical model of a binary image: a sequence of rows of booleans.
//!
//! Row `y` counts from the top, column `x` from the left, and `true` is
//! foreground. Everything outside the grid counts as background.

use vstd::prelude::*;

verus! {

/// A grid of pixels, row by row.
pub type Grid = Seq<Seq<bool>>;

/// Every row is as long as the first one.
pub open spec fn rectangular(g: Grid) -> bool {
    forall|y: int| 0 <= y < g.len() ==> #[trigger] g[y].len() == g[0].len()
}

/// The number of rows.
pub open spec fn height(g: Grid) -> nat {
    g.len()
}

/// The length of the first row, and 0 where there is no row.
pub open spec fn width(g: Grid) -> nat {
    if g.len() == 0 {
        0
    } else {
        g[0].len()
    }
}

/// The pixel in column `x` of row `y`; background wherever the grid has no
/// such pixel.
pub open spec fn pixel(g: Grid, x: int, y: int) -> bool {
    0 <= y < g.len() && 0 <= x < g[y].len() && g[y][x]
}

/// The grid of `h` rows of `w` pixels whose pixel at `(x, y)` is `f(x, y)`.
pub open spec fn tabulate(w: nat, h: nat, f: spec_fn(int, int) -> bool) -> Grid {
    Seq::new(h, |y: int| Seq::new(w, |x: int| f(x, y)))
}

/// The grid of `h` rows of `w` pixels that all hold `fill`.
pub open spec fn filled(w: nat, h: nat, fill: bool) -> Grid {
    tabulate(w, h, |x: int, y: int| fill)
}

/// `a` and `b` have the same number of rows, and each row of `a` is as long as
/// the same row of `b`.
pub open spec fn same_shape(a: Grid, b: Grid) -> bool {
    &&& a.len() == b.len()
    &&& forall|y: int| 0 <= y < a.len() ==> #[trigger] a[y].len() == b[y].len()
}

/// `a` has the shape of `b`, and every foreground pixel of `a` is a foreground
/// pixel of `b`.
pub open spec fn within(a: Grid, b: Grid) -> bool {
    &&& same_shape(a, b)
    &&& forall|x: int, y: int| #[trigger] pixel(a, x, y) ==> pixel(b, x, y)
}

/// `g` without the pixels that are foreground in `m`. What `m` holds outside the
/// bounds of `g` plays no part.
pub open spec fn difference(g: Grid, m: Grid) -> Grid {
    Seq::new(g.len(), |y: int| Seq::new(g[y].len(), |x: int| g[y][x] && !pixel(m, x, y)))
}

/// The pixel at `(x, y)` and its eight neighbours, clockwise from the north:
/// the pixel itself, then its neighbours to the north, north-east, east,
/// south-east, south, south-west, west and north-west.
pub open spec fn neighborhood(g: Grid, x: int, y: int) -> (
    bool,
    bool,
    bool,
    bool,
    bool,
    bool,
    bool,
    bool,
    bool,
) {
    (
        pixel(g, x, y),
        pixel(g, x, y - 1),
        pixel(g, x + 1, y - 1),
        pixel(g, x + 1, y),
        pixel(g, x + 1, y + 1),
        pixel(g, x, y + 1),
        pixel(g, x - 1, y + 1),
        pixel(g, x - 1, y),
        pixel(g, x - 1, y - 1),
    )
}

/// Taking pixels away leaves a grid within the first one.
pub proof fn lemma_difference_within(g: Grid, m: Grid)
    ensures
        within(difference(g, m), g),
{
}

/// A grid within a grid that is within a third is within the third.
pub proof fn lemma_within_transitive(a: Grid, b: Grid, c: Grid)
    requires
        within(a, b),
        within(b, c),
    ensures
        within(a, c),
{
}

/// A grid with the shape of a rectangular grid is rectangular, and as wide.
pub proof fn lemma_same_shape_rectangular(a: Grid, b: Grid)
    requires
        same_shape(a, b),
        rectangular(b),
    ensures
        rectangular(a),
        width(a) == width(b),
        height(a) == height(b),
{
}

/// The number of foreground pixels in one row.
pub open spec fn row_count(r: Seq<bool>) -> nat
    decreases r.len(),
{
    if r.len() == 0 {
        0
    } else {
        row_count(r.drop_last()) + if r.last() { 1nat } else { 0nat }
    }
}

/// The number of foreground pixels in the grid.
pub open spec fn foreground_count(g: Grid) -> nat
    decreases g.len(),
{
    if g.len() == 0 {
        0
    } else {
        foreground_count(g.drop_last()) + row_count(g.last())
    }
}

/// A row whose foreground lies within that of a row of the same length has no
/// more foreground pixels, and as many only if the two are equal.
pub proof fn lemma_row_count_within(a: Seq<bool>, b: Seq<bool>)
    requires
        a.len() == b.len(),
        forall|i: int| 0 <= i < a.len() && a[i] ==> b[i],
    ensures
        row_count(a) <= row_count(b),
        row_count(a) == row_count(b) ==> a == b,
    decreases a.len(),
{
    if a.len() > 0 {
        lemma_row_count_within(a.drop_last(), b.drop_last());
        if row_count(a) == row_count(b) {
            assert(a =~= a.drop_last().push(a.last()));
            assert(b =~= b.drop_last().push(b.last()));
        }
    }
}

/// A grid within another has no more foreground pixels, and as many only if
/// the two are equal.
pub proof fn lemma_count_within(a: Grid, b: Grid)
    requires
        within(a, b),
    ensures
        foreground_count(a) <= foreground_count(b),
        foreground_count(a) == foreground_count(b) ==> a == b,
    decreases a.len(),
{
    if a.len() > 0 {
        let a0 = a.drop_last();
        let b0 = b.drop_last();
        let last = a.len() - 1;
        assert(within(a0, b0)) by {
            assert forall|x: int, y: int| #[trigger] pixel(a0, x, y) implies pixel(b0, x, y) by {
                assert(pixel(a, x, y));
            }
        }
        lemma_count_within(a0, b0);
        assert forall|i: int| 0 <= i < a.last().len() && a.last()[i] implies b.last()[i] by {
            assert(pixel(a, i, last));
        }
        lemma_row_count_within(a.last(), b.last());
        if foreground_count(a) == foreground_count(b) {
            assert(a =~= a0.push(a.last()));
            assert(b =~= b0.push(b.last()));
        }
    }
}

} // verus!
