//! The table engine: the decision for every pattern of eight neighbours is
//! computed once into two 16 x 16 tables, one for each sub-iteration, and a
//! pass over the image only looks decisions up.
//!
//! Its rule is broader than the direct rule of the standard engine: it also
//! deletes a pixel with seven foreground neighbours, and some pixels with two
//! crossings. The two engines are not equivalent.

use crate::bin_image::BinImage;
use crate::common::{
    bit, calculate_ap_and_bp, corners_clear, crossing_number, neighbor_count, standard_rule,
    SubIter,
};
use crate::error::InvalidInput;
use crate::grid::{
    foreground_count, height, lemma_count_within, lemma_same_shape_rectangular,
    lemma_within_transitive, neighborhood, pixel, rectangular, same_shape, tabulate, width,
    within, Grid,
};
use vstd::prelude::*;

verus! {

/// The condition under which a pixel with two crossings is deleted: two
/// neighbours that meet at a corner are foreground, and the three neighbours
/// on the far side of that corner are background. The first sub-iteration
/// looks at the corners north-east and south-east, the second one at the
/// corners north-west and south-west.
pub open spec fn opposite_clear(
    mode: SubIter,
    p2: bool,
    p3: bool,
    p4: bool,
    p5: bool,
    p6: bool,
    p7: bool,
    p8: bool,
    p9: bool,
) -> bool {
    match mode {
        SubIter::First => (p2 && p4 && !(p6 || p7 || p8)) || (p4 && p6 && !(p2 || p8 || p9)),
        SubIter::Second => (p2 && p8 && !(p4 || p5 || p6)) || (p6 && p8 && !(p2 || p3 || p4)),
    }
}

/// The deletion rule of the table engine: a foreground pixel with these
/// neighbours is deleted in sub-iteration `mode` if and only if it has one
/// crossing, two to seven foreground neighbours and clear corners, or it has
/// two crossings and [`opposite_clear`] holds.
pub open spec fn table_rule(
    mode: SubIter,
    p2: bool,
    p3: bool,
    p4: bool,
    p5: bool,
    p6: bool,
    p7: bool,
    p8: bool,
    p9: bool,
) -> bool {
    ||| {
        &&& crossing_number(p2, p3, p4, p5, p6, p7, p8, p9) == 1
        &&& 2 <= neighbor_count(p2, p3, p4, p5, p6, p7, p8, p9) <= 7
        &&& corners_clear(mode, p2, p4, p6, p8)
    }
    ||| {
        &&& crossing_number(p2, p3, p4, p5, p6, p7, p8, p9) == 2
        &&& opposite_clear(mode, p2, p3, p4, p5, p6, p7, p8, p9)
    }
}

/// The rule of the table engine is the broader one: what the direct rule
/// deletes, it deletes too.
pub proof fn lemma_table_rule_broader(
    mode: SubIter,
    p2: bool,
    p3: bool,
    p4: bool,
    p5: bool,
    p6: bool,
    p7: bool,
    p8: bool,
    p9: bool,
)
    ensures
        standard_rule(mode, p2, p3, p4, p5, p6, p7, p8, p9) ==> table_rule(
            mode,
            p2,
            p3,
            p4,
            p5,
            p6,
            p7,
            p8,
            p9,
        ),
{
}

/// The two rules decide alike on a pattern with one crossing, unless it has
/// seven foreground neighbours and clear corners: such a pattern only the rule
/// of the table engine deletes.
pub proof fn lemma_rules_agree(
    mode: SubIter,
    p2: bool,
    p3: bool,
    p4: bool,
    p5: bool,
    p6: bool,
    p7: bool,
    p8: bool,
    p9: bool,
)
    requires
        crossing_number(p2, p3, p4, p5, p6, p7, p8, p9) == 1,
        neighbor_count(p2, p3, p4, p5, p6, p7, p8, p9) != 7 || !corners_clear(mode, p2, p4, p6, p8),
    ensures
        table_rule(mode, p2, p3, p4, p5, p6, p7, p8, p9) == standard_rule(
            mode,
            p2,
            p3,
            p4,
            p5,
            p6,
            p7,
            p8,
            p9,
        ),
{
}

/// Where the two rules differ: on the patterns with one crossing, seven
/// foreground neighbours and clear corners, and on the patterns with two
/// crossings for which [`opposite_clear`] holds. On these the rule of the
/// table engine deletes and the direct rule does not; on all others the two
/// decide alike.
pub proof fn lemma_rules_differ(
    mode: SubIter,
    p2: bool,
    p3: bool,
    p4: bool,
    p5: bool,
    p6: bool,
    p7: bool,
    p8: bool,
    p9: bool,
)
    ensures
        table_rule(mode, p2, p3, p4, p5, p6, p7, p8, p9) != standard_rule(
            mode,
            p2,
            p3,
            p4,
            p5,
            p6,
            p7,
            p8,
            p9,
        ) <==> {
            ||| {
                &&& crossing_number(p2, p3, p4, p5, p6, p7, p8, p9) == 1
                &&& neighbor_count(p2, p3, p4, p5, p6, p7, p8, p9) == 7
                &&& corners_clear(mode, p2, p4, p6, p8)
            }
            ||| {
                &&& crossing_number(p2, p3, p4, p5, p6, p7, p8, p9) == 2
                &&& opposite_clear(mode, p2, p3, p4, p5, p6, p7, p8, p9)
            }
        },
{
}

/// Whether the rule of the table engine deletes, in sub-iteration `mode`, a
/// foreground pixel with the neighbours `p2` to `p9`.
pub fn sub_iter(
    mode: &SubIter,
    p2: bool,
    p3: bool,
    p4: bool,
    p5: bool,
    p6: bool,
    p7: bool,
    p8: bool,
    p9: bool,
) -> (delete: bool)
    ensures
        delete == table_rule(*mode, p2, p3, p4, p5, p6, p7, p8, p9),
{
    let (a_p, b_p) = calculate_ap_and_bp(p2, p3, p4, p5, p6, p7, p8, p9);

    let a: bool = 2 <= b_p && b_p <= 7;

    match mode {
        SubIter::First => {
            if a_p == 1 {
                a && !(p2 && p4 && p6) && !(p4 && p6 && p8)
            } else if a_p == 2 {
                a && ((p2 && p4) && !(p6 || p7 || p8)) || ((p4 && p6) && !(p2 || p8 || p9))
            } else {
                false
            }
        },
        SubIter::Second => {
            if a_p == 1 {
                a && !(p2 && p4 && p8) && !(p2 && p6 && p8)
            } else if a_p == 2 {
                a && ((p2 && p8) && !(p4 || p5 || p6)) || ((p6 && p8) && !(p2 || p3 || p4))
            } else {
                false
            }
        },
    }
}

/// The binary digit of the code `n` that has the weight `weight`, which is 1,
/// 2, 4 or 8.
pub open spec fn digit(n: int, weight: int) -> bool {
    (n / weight) % 2 == 1
}

/// The code of four pixels, the first of them with the greatest weight.
pub open spec fn code(b8: bool, b4: bool, b2: bool, b1: bool) -> int {
    8 * bit(b8) + 4 * bit(b4) + 2 * bit(b2) + bit(b1)
}

/// The number from 0 to 15 whose binary digits are `bin`, the first of them
/// with the weight 8 and the last with the weight 1.
pub fn bin_to_dec(bin: [bool; 4]) -> (dec: usize)
    ensures
        dec == code(bin[0], bin[1], bin[2], bin[3]),
        dec < 16,
{
    let mut dec: usize = 0;
    if bin[3] {
        dec = dec + 1;
    }
    if bin[2] {
        dec = dec + 2;
    }
    if bin[1] {
        dec = dec + 4;
    }
    if bin[0] {
        dec = dec + 8;
    }
    dec
}

/// The digits of a code are the pixels it was made of.
pub proof fn lemma_code_digits(b8: bool, b4: bool, b2: bool, b1: bool)
    ensures
        0 <= code(b8, b4, b2, b1) < 16,
        digit(code(b8, b4, b2, b1), 8) == b8,
        digit(code(b8, b4, b2, b1), 4) == b4,
        digit(code(b8, b4, b2, b1), 2) == b2,
        digit(code(b8, b4, b2, b1), 1) == b1,
{
}

/// What the table of sub-iteration `mode` holds in row `i` and column `j`: the
/// value that a foreground pixel keeps, `false` if the rule deletes it and
/// `true` if it stays. The column's code holds `p2` (weight 1), `p3`, `p4` and
/// `p5` (weight 8), the row's code holds `p6` (weight 1), `p7`, `p8` and `p9`
/// (weight 8).
///
/// Proofs that use the table go by [`lemma_table_lookup`]; one that needs a
/// single entry reveals this function.
#[verifier::opaque]
pub open spec fn table_entry(mode: SubIter, i: int, j: int) -> bool {
    !table_rule(
        mode,
        digit(j, 1),
        digit(j, 2),
        digit(j, 4),
        digit(j, 8),
        digit(i, 1),
        digit(i, 2),
        digit(i, 4),
        digit(i, 8),
    )
}

/// The table of sub-iteration `mode`: 16 rows of 16 entries.
pub open spec fn decision_table(mode: SubIter) -> Grid {
    tabulate(16, 16, |j: int, i: int| table_entry(mode, i, j))
}

/// The four binary digits of `dec`, from the weight 8 down to the weight 1.
fn dec_to_bin(dec: usize) -> (bin: [bool; 4])
    ensures
        bin[0] == digit(dec as int, 8),
        bin[1] == digit(dec as int, 4),
        bin[2] == digit(dec as int, 2),
        bin[3] == digit(dec as int, 1),
{
    [(dec / 8) % 2 == 1, (dec / 4) % 2 == 1, (dec / 2) % 2 == 1, dec % 2 == 1]
}

/// The row of the code `i` in the table of the sub-iteration `sub_iter_type`.
fn make_row(sub_iter_type: SubIter, i: usize) -> (row: Vec<bool>)
    requires
        i < 16,
    ensures
        row@ == decision_table(sub_iter_type)[i as int],
{
    let i_bin = dec_to_bin(i);
    let mut row: Vec<bool> = Vec::new();
    let mut j: usize = 0;
    while j < 16
        invariant
            i < 16,
            j <= 16,
            i_bin[0] == digit(i as int, 8),
            i_bin[1] == digit(i as int, 4),
            i_bin[2] == digit(i as int, 2),
            i_bin[3] == digit(i as int, 1),
            row@.len() == j,
            forall|k: int| 0 <= k < j ==> row@[k] == #[trigger] table_entry(sub_iter_type, i as int, k),
        decreases 16 - j,
    {
        let j_bin = dec_to_bin(j);
        // The digits of j and then those of i, each time from the weight 8
        // down to the weight 1.
        let neighbors: [bool; 8] = [
            j_bin[0],
            j_bin[1],
            j_bin[2],
            j_bin[3],
            i_bin[0],
            i_bin[1],
            i_bin[2],
            i_bin[3],
        ];
        let sub_iter_result: bool = !sub_iter(
            &sub_iter_type,
            neighbors[3],
            neighbors[2],
            neighbors[1],
            neighbors[0],
            neighbors[7],
            neighbors[6],
            neighbors[5],
            neighbors[4],
        );
        assert(sub_iter_result == table_entry(sub_iter_type, i as int, j as int)) by {
            reveal(table_entry);
        }
        row.push(sub_iter_result);
        j = j + 1;
    }
    row
}

/// The table of the sub-iteration `sub_iter_type`, as [`decision_table`]
/// describes it.
pub fn make_table(sub_iter_type: SubIter) -> (table: Vec<Vec<bool>>)
    ensures
        table.deep_view() == decision_table(sub_iter_type),
{
    let mut table: Vec<Vec<bool>> = Vec::new();
    let mut i: usize = 0;
    while i < 16
        invariant
            i <= 16,
            table.deep_view() == decision_table(sub_iter_type).take(i as int),
        decreases 16 - i,
    {
        let row = make_row(sub_iter_type, i);
        let ghost before = table;
        table.push(row);
        i = i + 1;
        proof {
            crate::bin_image::lemma_push_row(before, table, row);
        }
    }
    table
}

/// Looking a pattern up gives the rule's decision on that very pattern: the
/// entry in the row of the code of `p9`, `p8`, `p7`, `p6` and the column of
/// the code of `p5`, `p4`, `p3`, `p2` is `false` if and only if the rule deletes
/// a pixel with the neighbours `p2` to `p9`.
pub proof fn lemma_table_lookup(
    mode: SubIter,
    p2: bool,
    p3: bool,
    p4: bool,
    p5: bool,
    p6: bool,
    p7: bool,
    p8: bool,
    p9: bool,
)
    ensures
        decision_table(mode)[code(p9, p8, p7, p6)][code(p5, p4, p3, p2)]
            == !table_rule(mode, p2, p3, p4, p5, p6, p7, p8, p9),
{
    reveal(table_entry);
    lemma_code_digits(p9, p8, p7, p6);
    lemma_code_digits(p5, p4, p3, p2);
}

/// The value that the pixel at `(x, y)` of `g` has after a pass of
/// sub-iteration `mode`: foreground if it is foreground in `g` and the rule
/// does not delete a pixel with its neighbours.
pub open spec fn survives(mode: SubIter, g: Grid, x: int, y: int) -> bool {
    let n = neighborhood(g, x, y);
    n.0 && !table_rule(mode, n.1, n.2, n.3, n.4, n.5, n.6, n.7, n.8)
}

/// One pass of the table engine over `g`. Every pixel is decided on `g` as it
/// is, none on a grid from which other pixels are gone already.
pub open spec fn table_pass(mode: SubIter, g: Grid) -> Grid {
    Seq::new(g.len(), |y: int| Seq::new(g[y].len(), |x: int| survives(mode, g, x, y)))
}

/// A pass only takes foreground pixels away, and keeps the shape.
pub proof fn lemma_table_pass_within(mode: SubIter, g: Grid)
    ensures
        within(table_pass(mode, g), g),
{
}

/// A pass that changes the grid leaves fewer foreground pixels.
pub proof fn lemma_table_pass_shrinks(mode: SubIter, g: Grid)
    ensures
        foreground_count(table_pass(mode, g)) <= foreground_count(g),
        table_pass(mode, g) != g ==> foreground_count(table_pass(mode, g)) < foreground_count(g),
{
    lemma_table_pass_within(mode, g);
    lemma_count_within(table_pass(mode, g), g);
}

/// The grid that the table engine ends with when it starts on `g` with
/// sub-iteration `mode`: passes that take the two sub-iterations in turn, up
/// to the first pass that deletes nothing.
pub open spec fn table_thin(mode: SubIter, g: Grid) -> Grid
    decreases foreground_count(g),
{
    let next = table_pass(mode, g);
    if next == g {
        g
    } else {
        proof {
            lemma_table_pass_shrinks(mode, g);
        }
        table_thin(mode.other(), next)
    }
}

/// Shape preservation and monotonic erosion: the grid that the table engine
/// ends with has the shape of the grid it started on, and each of its
/// foreground pixels is a foreground pixel of that grid.
pub proof fn lemma_table_thin_within(mode: SubIter, g: Grid)
    ensures
        within(table_thin(mode, g), g),
        same_shape(table_thin(mode, g), g),
    decreases foreground_count(g),
{
    let next = table_pass(mode, g);
    if next != g {
        lemma_table_pass_within(mode, g);
        lemma_table_pass_shrinks(mode, g);
        lemma_table_thin_within(mode.other(), next);
        lemma_within_transitive(table_thin(mode.other(), next), next, g);
    }
}

/// The table engine turns a rectangular grid into a rectangular grid of the
/// same width and height.
pub proof fn lemma_table_thin_keeps_size(mode: SubIter, g: Grid)
    requires
        rectangular(g),
    ensures
        rectangular(table_thin(mode, g)),
        width(table_thin(mode, g)) == width(g),
        height(table_thin(mode, g)) == height(g),
{
    lemma_table_thin_within(mode, g);
    lemma_same_shape_rectangular(table_thin(mode, g), g);
}

/// The table engine stops at a grid that a pass of one of the two
/// sub-iterations leaves as it is.
pub proof fn lemma_table_thin_converged(mode: SubIter, g: Grid)
    ensures
        table_pass(SubIter::First, table_thin(mode, g)) == table_thin(mode, g) || table_pass(
            SubIter::Second,
            table_thin(mode, g),
        ) == table_thin(mode, g),
    decreases foreground_count(g),
{
    let next = table_pass(mode, g);
    if next != g {
        lemma_table_pass_shrinks(mode, g);
        lemma_table_thin_converged(mode.other(), next);
    }
}

/// The fixed points of the table engine, started with sub-iteration `mode`, are
/// the grids from which a pass of that sub-iteration deletes nothing.
pub proof fn lemma_table_thin_fixed_point(mode: SubIter, g: Grid)
    ensures
        table_thin(mode, g) == g <==> table_pass(mode, g) == g,
{
    let next = table_pass(mode, g);
    if next != g {
        lemma_table_pass_shrinks(mode, g);
        lemma_table_thin_within(mode.other(), next);
        lemma_count_within(table_thin(mode.other(), next), next);
    }
}

/// Idempotence: thinning a thinned grid gives it back, provided that a pass of
/// the first sub-iteration deletes nothing from it.
///
/// The engine stops after the first pass that deletes nothing. Where that was
/// a pass of the second sub-iteration, the first one may still find pixels to
/// delete in the result; see [`lemma_table_thin_again_shrinks`].
pub proof fn lemma_table_thin_idempotent(g: Grid)
    requires
        table_pass(SubIter::First, table_thin(SubIter::First, g)) == table_thin(SubIter::First, g),
    ensures
        table_thin(SubIter::First, table_thin(SubIter::First, g)) == table_thin(SubIter::First, g),
{
}

/// Where a pass of the first sub-iteration still deletes a pixel from a
/// thinned grid, thinning that grid again gives a grid with fewer foreground
/// pixels.
pub proof fn lemma_table_thin_again_shrinks(g: Grid)
    requires
        table_pass(SubIter::First, table_thin(SubIter::First, g)) != table_thin(SubIter::First, g),
    ensures
        foreground_count(table_thin(SubIter::First, table_thin(SubIter::First, g)))
            < foreground_count(table_thin(SubIter::First, g)),
        table_thin(SubIter::First, table_thin(SubIter::First, g)) != table_thin(SubIter::First, g),
{
    let t = table_thin(SubIter::First, g);
    let next = table_pass(SubIter::First, t);
    lemma_table_pass_shrinks(SubIter::First, t);
    lemma_table_thin_within(SubIter::Second, next);
    lemma_count_within(table_thin(SubIter::Second, next), next);
}

/// The scratch image of a pass over `g` that has handled the rows above `y`
/// and the pixels of row `y` left of `x`: those pixels hold what survives, the
/// others still what `g` holds.
spec fn swept(mode: SubIter, g: Grid, w: nat, x: int, y: int) -> Grid {
    tabulate(
        w,
        g.len(),
        |i: int, j: int|
            if j < y || (j == y && i < x) {
                survives(mode, g, i, j)
            } else {
                g[j][i]
            },
    )
}

/// The scratch image after one more pixel: the pixel at `(x, y)` has taken the
/// value that survives, and nothing else has changed.
proof fn lemma_swept_step(mode: SubIter, g: Grid, w: nat, x: int, y: int)
    requires
        forall|j: int| 0 <= j < g.len() ==> #[trigger] g[j].len() == w,
        0 <= x < w,
        0 <= y < g.len(),
    ensures
        swept(mode, g, w, x, y).update(
            y,
            swept(mode, g, w, x, y)[y].update(x, survives(mode, g, x, y)),
        ) == (if x + 1 < w {
            swept(mode, g, w, x + 1, y)
        } else {
            swept(mode, g, w, 0, y + 1)
        }),
{
    let before = swept(mode, g, w, x, y);
    let after = before.update(y, before[y].update(x, survives(mode, g, x, y)));
    if x + 1 < w {
        assert(after =~~= swept(mode, g, w, x + 1, y));
    } else {
        assert(after =~~= swept(mode, g, w, 0, y + 1));
    }
}

/// The scratch image after the last row is the grid after the pass, and so is
/// any scratch image of a grid without columns.
proof fn lemma_swept_all(mode: SubIter, g: Grid, w: nat, x: int, y: int)
    requires
        forall|j: int| 0 <= j < g.len() ==> #[trigger] g[j].len() == w,
        w == 0 || y >= g.len(),
    ensures
        swept(mode, g, w, x, y) == table_pass(mode, g),
{
    assert(swept(mode, g, w, x, y) =~~= table_pass(mode, g));
}

/// A pass in which every pixel keeps its value changes nothing.
proof fn lemma_pass_unchanged(mode: SubIter, g: Grid)
    requires
        forall|i: int, j: int|
            0 <= j < g.len() && 0 <= i < g[j].len() ==> #[trigger] survives(mode, g, i, j)
                == g[j][i],
    ensures
        table_pass(mode, g) == g,
{
    assert(table_pass(mode, g) =~~= g);
}

/// Rows of booleans hold what their grid holds.
proof fn lemma_rows_of_grid(rows: Vec<Vec<bool>>, i: int, j: int)
    requires
        0 <= i < rows.deep_view().len(),
        0 <= j < rows.deep_view()[i].len(),
    ensures
        i < rows.len(),
        j < rows[i].len(),
        rows[i][j] == rows.deep_view()[i][j],
{
}

/// What the table of sub-iteration `mode` holds for a ring of neighbours.
fn look_up(
    mode: SubIter,
    sub_1_table: &Vec<Vec<bool>>,
    sub_2_table: &Vec<Vec<bool>>,
    neighbors: (bool, bool, bool, bool, bool, bool, bool, bool, bool),
) -> (d_out: bool)
    requires
        sub_1_table.deep_view() == decision_table(SubIter::First),
        sub_2_table.deep_view() == decision_table(SubIter::Second),
    ensures
        d_out == decision_table(mode)[code(neighbors.8, neighbors.7, neighbors.6, neighbors.5)][code(
            neighbors.4,
            neighbors.3,
            neighbors.2,
            neighbors.1,
        )],
{
    let j: usize = bin_to_dec([neighbors.4, neighbors.3, neighbors.2, neighbors.1]);
    let i: usize = bin_to_dec([neighbors.8, neighbors.7, neighbors.6, neighbors.5]);
    proof {
        lemma_rows_of_grid(*sub_1_table, i as int, j as int);
        lemma_rows_of_grid(*sub_2_table, i as int, j as int);
    }
    match mode {
        SubIter::First => sub_1_table[i][j],
        SubIter::Second => sub_2_table[i][j],
    }
}

/// What the table of sub-iteration `mode` holds for the neighbours of the
/// foreground pixel at `(x, y)` is the value that survives there.
proof fn lemma_lookup_survives(mode: SubIter, g: Grid, x: int, y: int)
    requires
        pixel(g, x, y),
    ensures
        ({
            let n = neighborhood(g, x, y);
            decision_table(mode)[code(n.8, n.7, n.6, n.5)][code(n.4, n.3, n.2, n.1)] == survives(
                mode,
                g,
                x,
                y,
            )
        }),
{
    let n = neighborhood(g, x, y);
    lemma_table_lookup(mode, n.1, n.2, n.3, n.4, n.5, n.6, n.7, n.8);
}

/// One pass of sub-iteration `mode` over the snapshot `k_t`, with the decisions
/// read from the table of that sub-iteration: the scratch image that the pass
/// fills, and whether the pass deleted any pixel.
fn sweep(
    k_t: &BinImage,
    mode: SubIter,
    sub_1_table: &Vec<Vec<bool>>,
    sub_2_table: &Vec<Vec<bool>>,
) -> (scratch: (BinImage, bool))
    requires
        sub_1_table.deep_view() == decision_table(SubIter::First),
        sub_2_table.deep_view() == decision_table(SubIter::Second),
    ensures
        scratch.0@ == table_pass(mode, k_t@),
        scratch.1 <==> table_pass(mode, k_t@) != k_t@,
{
    let ghost g = k_t@;
    let width: usize = k_t.get_width();
    let ghost w = width as nat;
    let mut s_t: BinImage = k_t.clone();
    let mut flag: bool = false;
    let ghost mut at: (int, int) = (0, 0);
    let mut k_t_iter = k_t.clone().into_iter();
    assert(s_t@ =~~= swept(mode, g, w, 0, 0));
    loop
        invariant_except_break
            s_t@ == swept(mode, g, w, k_t_iter.column() as int, k_t_iter.row() as int),
            !flag ==> forall|i: int, j: int|
                0 <= i < w && 0 <= j < g.len() && (j < k_t_iter.row() || (j == k_t_iter.row() && i
                    < k_t_iter.column())) ==> #[trigger] survives(mode, g, i, j) == g[j][i],
        invariant
            g == k_t@,
            k_t_iter.image() == g,
            w == crate::grid::width(g),
            forall|j: int| 0 <= j < g.len() ==> #[trigger] g[j].len() == w,
            k_t_iter.column() == 0 && k_t_iter.row() <= g.len() || k_t_iter.column() < w
                && k_t_iter.row() < g.len(),
            sub_1_table.deep_view() == decision_table(SubIter::First),
            sub_2_table.deep_view() == decision_table(SubIter::Second),
            flag ==> pixel(g, at.0, at.1) && !survives(mode, g, at.0, at.1),
        ensures
            s_t@ == table_pass(mode, g),
            flag <==> table_pass(mode, g) != g,
        decreases g.len() - k_t_iter.row(), w - k_t_iter.column(),
    {
        match k_t_iter.next() {
            Some((x, y, val)) => {
                let value: bool = if val {
                    let neighbors = k_t.get_neighbors(x, y);
                    let d_out: bool = look_up(mode, sub_1_table, sub_2_table, neighbors);
                    proof {
                        lemma_lookup_survives(mode, g, x as int, y as int);
                    }
                    if !d_out {
                        flag = true;
                        proof {
                            at = (x as int, y as int);
                        }
                    }
                    d_out
                } else {
                    false
                };
                let _ = s_t.set_value(x, y, value);
                proof {
                    lemma_swept_step(mode, g, w, x as int, y as int);
                }
            },
            None => {
                proof {
                    lemma_swept_all(
                        mode,
                        g,
                        w,
                        k_t_iter.column() as int,
                        k_t_iter.row() as int,
                    );
                    if !flag {
                        lemma_pass_unchanged(mode, g);
                    }
                }
                break ;
            },
        }
    }
    (s_t, flag)
}

/// Thins an image with the table engine.
///
/// `pixels` holds the rows of the image, `true` for foreground. Rows of
/// different lengths are refused with [`InvalidInput::Image`]. Otherwise the
/// result is [`table_thin`] of the input, with the first sub-iteration for
/// the first pass: it has the shape of the input, and its foreground lies
/// within that of the input.
pub fn imgthin(pixels: Vec<Vec<bool>>) -> (thinned: Result<Vec<Vec<bool>>, InvalidInput>)
    ensures
        match thinned {
            Ok(skeleton) => {
                &&& rectangular(pixels.deep_view())
                &&& skeleton.deep_view() == table_thin(SubIter::First, pixels.deep_view())
                &&& within(skeleton.deep_view(), pixels.deep_view())
            },
            Err(e) => !rectangular(pixels.deep_view()) && e == InvalidInput::Image,
        },
{
    let ghost start = pixels.deep_view();
    let mut k_t: BinImage = match BinImage::try_from(pixels) {
        Ok(image) => image,
        Err(e) => {
            return Err(e);
        },
    };

    let sub_1_table = make_table(SubIter::First);
    let sub_2_table = make_table(SubIter::Second);

    let mut k: SubIter = SubIter::First;
    let mut s: SubIter = SubIter::Second;
    let mut flag: bool = true;

    while flag
        invariant
            sub_1_table.deep_view() == decision_table(SubIter::First),
            sub_2_table.deep_view() == decision_table(SubIter::Second),
            s == k.other(),
            within(k_t@, start),
            flag ==> table_thin(k, k_t@) == table_thin(SubIter::First, start),
            !flag ==> k_t@ == table_thin(SubIter::First, start),
        decreases foreground_count(k_t@), if flag { 1nat } else { 0nat },
    {
        let ghost g = k_t@;
        let (s_t, changed) = sweep(&k_t, k, &sub_1_table, &sub_2_table);
        proof {
            lemma_table_pass_within(k, g);
            lemma_within_transitive(s_t@, g, start);
            lemma_table_pass_shrinks(k, g);
        }
        flag = changed;
        k_t = s_t;
        let t: SubIter = k;
        k = s;
        s = t;
    }

    Ok(k_t.get_pixels().clone())
}

} // verus!
