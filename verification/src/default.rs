//! The standard engine: each pixel is decided from its eight neighbours by the
//! direct rule, in passes of two sub-iterations, until the second
//! sub-iteration of a pass removes nothing.

use crate::bin_image::BinImage;
use crate::common::{standard_rule, SubIter};
use crate::error::InvalidInput;
use crate::grid::{
    difference, foreground_count, height, lemma_count_within, lemma_difference_within,
    lemma_same_shape_rectangular, lemma_within_transitive, neighborhood, pixel, rectangular,
    same_shape, tabulate, width, within, Grid,
};
use vstd::prelude::*;

verus! {

/// Whether sub-iteration `mode` marks the pixel at `(x, y)` of `g` for
/// deletion: it is foreground, and the direct rule deletes a pixel with its
/// neighbours.
pub open spec fn marked(mode: SubIter, g: Grid, x: int, y: int) -> bool {
    let n = neighborhood(g, x, y);
    n.0 && standard_rule(mode, n.1, n.2, n.3, n.4, n.5, n.6, n.7, n.8)
}

/// The deletion mask of sub-iteration `mode` on `g`: a grid of the shape of `g`
/// whose foreground is the marked pixels. Every mark is decided on `g` as it
/// is, none on a grid from which other marked pixels are gone already.
pub open spec fn deletion_mask(mode: SubIter, g: Grid) -> Grid {
    Seq::new(g.len(), |y: int| Seq::new(g[y].len(), |x: int| marked(mode, g, x, y)))
}

/// One sub-iteration: `g` without the pixels of its deletion mask.
pub open spec fn sub_iteration(mode: SubIter, g: Grid) -> Grid {
    difference(g, deletion_mask(mode, g))
}

/// A sub-iteration only takes foreground pixels away, and keeps the shape.
pub proof fn lemma_sub_iteration_within(mode: SubIter, g: Grid)
    ensures
        within(sub_iteration(mode, g), g),
{
    lemma_difference_within(g, deletion_mask(mode, g));
}

/// A sub-iteration that changes the grid leaves fewer foreground pixels.
pub proof fn lemma_sub_iteration_shrinks(mode: SubIter, g: Grid)
    ensures
        foreground_count(sub_iteration(mode, g)) <= foreground_count(g),
        sub_iteration(mode, g) != g ==> foreground_count(sub_iteration(mode, g))
            < foreground_count(g),
{
    lemma_sub_iteration_within(mode, g);
    lemma_count_within(sub_iteration(mode, g), g);
}

/// The thinned grid: passes of the first and then the second sub-iteration,
/// up to and including the first pass whose second sub-iteration removes
/// nothing.
pub open spec fn thin(g: Grid) -> Grid
    decreases foreground_count(g),
{
    let a = sub_iteration(SubIter::First, g);
    let b = sub_iteration(SubIter::Second, a);
    if b == a {
        b
    } else {
        proof {
            lemma_sub_iteration_shrinks(SubIter::First, g);
            lemma_sub_iteration_shrinks(SubIter::Second, a);
        }
        thin(b)
    }
}

/// Shape preservation and monotonic erosion: the thinned grid has the shape of
/// the grid it was made from, and each of its foreground pixels is a
/// foreground pixel of that grid.
pub proof fn lemma_thin_within(g: Grid)
    ensures
        within(thin(g), g),
        same_shape(thin(g), g),
    decreases foreground_count(g),
{
    let a = sub_iteration(SubIter::First, g);
    let b = sub_iteration(SubIter::Second, a);
    lemma_sub_iteration_within(SubIter::First, g);
    lemma_sub_iteration_within(SubIter::Second, a);
    lemma_within_transitive(b, a, g);
    if b != a {
        lemma_sub_iteration_shrinks(SubIter::First, g);
        lemma_sub_iteration_shrinks(SubIter::Second, a);
        lemma_thin_within(b);
        lemma_within_transitive(thin(b), b, g);
    }
}

/// Thinning a rectangular grid gives a rectangular grid of the same width and
/// height.
pub proof fn lemma_thin_keeps_size(g: Grid)
    requires
        rectangular(g),
    ensures
        rectangular(thin(g)),
        width(thin(g)) == width(g),
        height(thin(g)) == height(g),
{
    lemma_thin_within(g);
    lemma_same_shape_rectangular(thin(g), g);
}

/// Thinning stops at a grid from which the second sub-iteration removes
/// nothing.
pub proof fn lemma_thin_converged(g: Grid)
    ensures
        sub_iteration(SubIter::Second, thin(g)) == thin(g),
    decreases foreground_count(g),
{
    let a = sub_iteration(SubIter::First, g);
    let b = sub_iteration(SubIter::Second, a);
    if b != a {
        lemma_sub_iteration_shrinks(SubIter::First, g);
        lemma_sub_iteration_shrinks(SubIter::Second, a);
        lemma_thin_converged(b);
    }
}

/// The fixed points of thinning are the grids from which neither sub-iteration
/// removes a pixel.
pub proof fn lemma_thin_fixed_point(g: Grid)
    ensures
        thin(g) == g <==> sub_iteration(SubIter::First, g) == g && sub_iteration(
            SubIter::Second,
            g,
        ) == g,
{
    let a = sub_iteration(SubIter::First, g);
    let b = sub_iteration(SubIter::Second, a);
    if thin(g) == g {
        lemma_sub_iteration_shrinks(SubIter::First, g);
        lemma_sub_iteration_shrinks(SubIter::Second, a);
        if b != a {
            lemma_thin_within(b);
            lemma_count_within(thin(b), b);
        }
    }
}

/// Idempotence: thinning a thinned grid gives it back, provided that the first
/// sub-iteration removes nothing from it either.
///
/// Thinning stops as soon as the second sub-iteration of a pass removes
/// nothing, whatever the first one of that pass removed, so the first
/// sub-iteration may still find pixels to delete in the result; see
/// [`lemma_thin_again_shrinks`].
pub proof fn lemma_thin_idempotent(g: Grid)
    requires
        sub_iteration(SubIter::First, thin(g)) == thin(g),
    ensures
        thin(thin(g)) == thin(g),
{
    lemma_thin_converged(g);
}

/// Where the first sub-iteration still removes a pixel from a thinned grid,
/// thinning that grid again gives a grid with fewer foreground pixels.
pub proof fn lemma_thin_again_shrinks(g: Grid)
    requires
        sub_iteration(SubIter::First, thin(g)) != thin(g),
    ensures
        foreground_count(thin(thin(g))) < foreground_count(thin(g)),
        thin(thin(g)) != thin(g),
{
    let t = thin(g);
    let a = sub_iteration(SubIter::First, t);
    let b = sub_iteration(SubIter::Second, a);
    lemma_sub_iteration_shrinks(SubIter::First, t);
    lemma_sub_iteration_shrinks(SubIter::Second, a);
    if b != a {
        lemma_thin_within(b);
        lemma_count_within(thin(b), b);
    }
}

/// The grid of the marks that a sweep over `g` has set once it has handled the
/// rows above `y` and the pixels of row `y` left of `x`.
spec fn marks_before(mode: SubIter, g: Grid, w: nat, x: int, y: int) -> Grid {
    tabulate(
        w,
        g.len(),
        |i: int, j: int| (j < y || (j == y && i < x)) && marked(mode, g, i, j),
    )
}

/// The deletion mask of sub-iteration `mode` on `image`, and whether it marks
/// any pixel.
fn deletion_marks(image: &BinImage, mode: SubIter) -> (marks: (BinImage, bool))
    ensures
        marks.0@ == deletion_mask(mode, image@),
        marks.1 <==> sub_iteration(mode, image@) != image@,
{
    let width: usize = image.get_width();
    let height: usize = image.get_height();
    let ghost g = image@;
    let mut mask: BinImage = BinImage::new(width, height, false);
    let mut any: bool = false;
    let ghost mut at: (int, int) = (0, 0);
    assert(mask@ =~~= marks_before(mode, g, width as nat, 0, 0));
    let mut y: usize = 0;
    while y < height
        invariant
            y <= height,
            g == image@,
            height == g.len(),
            forall|j: int| 0 <= j < g.len() ==> #[trigger] g[j].len() == width,
            mask@ == marks_before(mode, g, width as nat, 0, y as int),
            any ==> marked(mode, g, at.0, at.1),
            !any ==> forall|i: int, j: int| 0 <= j < y ==> !marked(mode, g, i, j),
        decreases height - y,
    {
        let mut x: usize = 0;
        while x < width
            invariant
                x <= width,
                y < height,
                g == image@,
                height == g.len(),
                forall|j: int| 0 <= j < g.len() ==> #[trigger] g[j].len() == width,
                mask@ == marks_before(mode, g, width as nat, x as int, y as int),
                any ==> marked(mode, g, at.0, at.1),
                !any ==> forall|i: int, j: int|
                    0 <= j < y || (j == y && i < x) ==> !marked(mode, g, i, j),
            decreases width - x,
        {
            let delete: bool = image.sub_iter(mode, x, y);
            let foreground: bool = match image.get_value(x, y) {
                Ok(value) => value,
                Err(_) => false,
            };
            if delete && foreground {
                let _ = mask.set_value(x, y, true);
                any = true;
                proof {
                    at = (x as int, y as int);
                }
            }
            x = x + 1;
            assert(mask@ =~~= marks_before(mode, g, width as nat, x as int, y as int));
        }
        y = y + 1;
        assert(mask@ =~~= marks_before(mode, g, width as nat, 0, y as int));
    }
    proof {
        assert(mask@ =~~= deletion_mask(mode, g));
        if !any {
            assert(sub_iteration(mode, g) =~~= g);
        }
    }
    (mask, any)
}

/// Thins an image with the standard engine.
///
/// `pixels` holds the rows of the image, `true` for foreground. Rows of
/// different lengths are refused with [`InvalidInput::Image`]. Otherwise the
/// result is the thinned grid, [`thin`] of the input: it has the shape of the
/// input, and its foreground lies within that of the input.
pub fn imgthin(pixels: Vec<Vec<bool>>) -> (thinned: Result<Vec<Vec<bool>>, InvalidInput>)
    ensures
        match thinned {
            Ok(skeleton) => {
                &&& rectangular(pixels.deep_view())
                &&& skeleton.deep_view() == thin(pixels.deep_view())
                &&& within(skeleton.deep_view(), pixels.deep_view())
            },
            Err(e) => !rectangular(pixels.deep_view()) && e == InvalidInput::Image,
        },
{
    let ghost start = pixels.deep_view();
    let mut image: BinImage = match BinImage::try_from(pixels) {
        Ok(image) => image,
        Err(e) => {
            return Err(e);
        },
    };
    loop
        invariant_except_break
            thin(image@) == thin(start),
        invariant
            within(image@, start),
        ensures
            image@ == thin(start),
        decreases foreground_count(image@),
    {
        let ghost g = image@;
        let (mask, _) = deletion_marks(&image, SubIter::First);
        image = image - mask;
        let ghost a = image@;
        let (mask, removed) = deletion_marks(&image, SubIter::Second);
        image = image - mask;
        proof {
            lemma_sub_iteration_within(SubIter::First, g);
            lemma_sub_iteration_within(SubIter::Second, a);
            lemma_within_transitive(image@, a, g);
            lemma_within_transitive(image@, g, start);
            lemma_sub_iteration_shrinks(SubIter::First, g);
            lemma_sub_iteration_shrinks(SubIter::Second, a);
        }
        if !removed {
            break ;
        }
    }
    Ok(image.get_pixels().clone())
}

} // verus!
