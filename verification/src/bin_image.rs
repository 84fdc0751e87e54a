//! The binary image: a rectangular grid of pixels that refuses a position
//! outside it.

use crate::common::{calculate_ap_and_bp, standard_rule, SubIter};
use crate::error::InvalidInput;
use crate::grid::{difference, filled, height, neighborhood, pixel, rectangular, width, Grid};
use vstd::prelude::*;
use vstd::std_specs::convert::TryFromSpecImpl;
use vstd::std_specs::ops::SubSpecImpl;

verus! {

/// A rectangular grid of pixels. `true` is foreground, row 0 is the top row and
/// column 0 the left one.
///
/// Its view is the grid, row by row. All rows have the same length: a value of
/// this type can only be made by [`BinImage::new`] and from a grid that
/// [`BinImage::try_from`] has found rectangular, and no method changes its
/// shape.
pub struct BinImage {
    pixels: Vec<Vec<bool>>,
}

impl View for BinImage {
    type V = Grid;

    closed spec fn view(&self) -> Grid {
        self.pixels.deep_view()
    }
}

/// Whether a grid has a pixel in column `x` of row `y`, and if not, which of
/// the two is at fault: the row is looked for first.
pub open spec fn located(g: Grid, x: int, y: int) -> Result<(), InvalidInput> {
    if !(0 <= y < g.len()) {
        Err(InvalidInput::YCoordinate)
    } else if !(0 <= x < g[y].len()) {
        Err(InvalidInput::XCoordinate)
    } else {
        Ok(())
    }
}

/// Rows of booleans are viewed as they are: the grid of rows with one more row
/// is the grid of those rows with the view of that row behind it.
pub(crate) proof fn lemma_push_row(before: Vec<Vec<bool>>, after: Vec<Vec<bool>>, row: Vec<bool>)
    requires
        after@ == before@.push(row),
    ensures
        after.deep_view() == before.deep_view().push(row@),
{
    assert(after.deep_view() =~~= before.deep_view().push(row@));
}

/// Writes one pixel of a grid and leaves the others as they are.
fn put(pixels: &mut Vec<Vec<bool>>, x: usize, y: usize, value: bool)
    requires
        y < old(pixels).len(),
        x < old(pixels)[y as int].len(),
    ensures
        final(pixels).deep_view() == old(pixels).deep_view().update(
            y as int,
            old(pixels).deep_view()[y as int].update(x as int, value),
        ),
    no_unwind
{
    pixels[y][x] = value;
    assert(pixels.deep_view() =~~= old(pixels).deep_view().update(
        y as int,
        old(pixels).deep_view()[y as int].update(x as int, value),
    ));
}

impl BinImage {
    #[verifier::type_invariant]
    spec fn well_formed(&self) -> bool {
        rectangular(self.pixels.deep_view())
    }

    /// An image of `height` rows of `width` pixels, each of them `fill_color`.
    pub fn new(width: usize, height: usize, fill_color: bool) -> (image: BinImage)
        ensures
            image@ == filled(width as nat, height as nat, fill_color),
    {
        let mut pixels: Vec<Vec<bool>> = Vec::new();
        let mut y: usize = 0;
        while y < height
            invariant
                y <= height,
                pixels.deep_view() == filled(width as nat, y as nat, fill_color),
            decreases height - y,
        {
            let mut row: Vec<bool> = Vec::new();
            let mut x: usize = 0;
            while x < width
                invariant
                    x <= width,
                    row@ == Seq::new(x as nat, |i: int| fill_color),
                decreases width - x,
            {
                row.push(fill_color);
                x = x + 1;
            }
            let ghost before = pixels;
            pixels.push(row);
            y = y + 1;
            proof {
                lemma_push_row(before, pixels, row);
                assert(pixels.deep_view() =~~= filled(width as nat, y as nat, fill_color));
            }
        }
        BinImage { pixels }
    }

    /// The number of pixels in each row; 0 for an image without rows.
    pub fn get_width(&self) -> (w: usize)
        ensures
            w == width(self@),
            forall|y: int| 0 <= y < self@.len() ==> #[trigger] self@[y].len() == w,
    {
        proof {
            use_type_invariant(self);
        }
        if self.pixels.len() == 0 {
            0
        } else {
            self.pixels[0].len()
        }
    }

    /// The number of rows.
    pub fn get_height(&self) -> (h: usize)
        ensures
            h == height(self@),
    {
        self.pixels.len()
    }

    /// The pixel in column `x` of row `y`.
    ///
    /// Fails for a position outside the image: with
    /// [`InvalidInput::YCoordinate`] where there is no row `y`, else with
    /// [`InvalidInput::XCoordinate`].
    pub fn get_value(&self, x: usize, y: usize) -> (value: Result<bool, InvalidInput>)
        ensures
            value == (match located(self@, x as int, y as int) {
                Ok(_) => Ok(self@[y as int][x as int]),
                Err(e) => Err(e),
            }),
    {
        if y < self.pixels.len() {
            if x < self.pixels[y].len() {
                Ok(self.pixels[y][x])
            } else {
                Err(InvalidInput::XCoordinate)
            }
        } else {
            Err(InvalidInput::YCoordinate)
        }
    }

    /// Sets the pixel in column `x` of row `y` to `value`.
    ///
    /// Fails as [`BinImage::get_value`] does, and then leaves the image as it
    /// was.
    pub fn set_value(&mut self, x: usize, y: usize, value: bool) -> (done: Result<(), InvalidInput>)
        ensures
            done == located(old(self)@, x as int, y as int),
            final(self)@ == (if done is Ok {
                old(self)@.update(y as int, old(self)@[y as int].update(x as int, value))
            } else {
                old(self)@
            }),
    {
        proof {
            use_type_invariant(&*self);
        }
        if y < self.pixels.len() {
            if x < self.pixels[y].len() {
                put(&mut self.pixels, x, y, value);
                Ok(())
            } else {
                Err(InvalidInput::XCoordinate)
            }
        } else {
            Err(InvalidInput::YCoordinate)
        }
    }

    /// The rows of the image.
    pub fn get_pixels(&self) -> (pixels: &Vec<Vec<bool>>)
        ensures
            pixels.deep_view() == self@,
    {
        &self.pixels
    }

    /// The walk over the pixels of this image, before its first pixel.
    pub fn into_iter(self) -> (walk: BinImageIntoIter)
        ensures
            walk.image() == self@,
            walk.column() == 0,
            walk.row() == 0,
    {
        proof {
            use_type_invariant(&self);
        }
        BinImageIntoIter { bin_image: self, x: 0, y: 0 }
    }

    /// The pixel at `(x, y)`, and background for a position outside the image.
    fn value_or_background(&self, x: usize, y: usize) -> (value: bool)
        ensures
            value == pixel(self@, x as int, y as int),
    {
        match self.get_value(x, y) {
            Ok(v) => v,
            Err(_) => false,
        }
    }

    /// The pixel at `(x, y)` and its eight neighbours, clockwise from the
    /// north. A neighbour outside the image is background, so this never
    /// fails, whatever `x` and `y` are.
    pub fn get_neighbors(&self, x: usize, y: usize) -> (around: (
        bool,
        bool,
        bool,
        bool,
        bool,
        bool,
        bool,
        bool,
        bool,
    ))
        ensures
            around == neighborhood(self@, x as int, y as int),
    {
        // No row and no column has the index usize::MAX + 1.
        let last_column: bool = x == usize::MAX;
        let last_row: bool = y == usize::MAX;
        proof {
            assert(self@.len() == self.pixels.len());
            assert forall|i: int| 0 <= i < self@.len() implies #[trigger] self@[i].len()
                <= usize::MAX by {
                assert(self@[i].len() == self.pixels[i].len());
            }
        }
        (
            self.value_or_background(x, y),
            if y == 0 {
                false
            } else {
                self.value_or_background(x, y - 1)
            },
            if y == 0 || last_column {
                false
            } else {
                self.value_or_background(x + 1, y - 1)
            },
            if last_column {
                false
            } else {
                self.value_or_background(x + 1, y)
            },
            if last_column || last_row {
                false
            } else {
                self.value_or_background(x + 1, y + 1)
            },
            if last_row {
                false
            } else {
                self.value_or_background(x, y + 1)
            },
            if x == 0 || last_row {
                false
            } else {
                self.value_or_background(x - 1, y + 1)
            },
            if x == 0 {
                false
            } else {
                self.value_or_background(x - 1, y)
            },
            if x == 0 || y == 0 {
                false
            } else {
                self.value_or_background(x - 1, y - 1)
            },
        )
    }

    /// Whether the direct rule of sub-iteration `mode` deletes a foreground
    /// pixel that has the neighbours of `(x, y)`. The pixel itself is not
    /// looked at.
    pub fn sub_iter(&self, mode: SubIter, x: usize, y: usize) -> (delete: bool)
        ensures
            delete == ({
                let n = neighborhood(self@, x as int, y as int);
                standard_rule(mode, n.1, n.2, n.3, n.4, n.5, n.6, n.7, n.8)
            }),
    {
        let (_, p2, p3, p4, p5, p6, p7, p8, p9) = self.get_neighbors(x, y);
        let (a_p, b_p) = calculate_ap_and_bp(p2, p3, p4, p5, p6, p7, p8, p9);

        let a: bool = 2 <= b_p && b_p <= 6;
        let b: bool = a_p == 1;
        let (c, d) = match mode {
            SubIter::First => (!(p2 && p4 && p6), !(p4 && p6 && p8)),
            SubIter::Second => (!(p2 && p4 && p8), !(p2 && p6 && p8)),
        };

        a && b && c && d
    }
}

impl SubSpecImpl<BinImage> for BinImage {
    /// The image that `-` gives is told by its view, in the contract of `sub`,
    /// and by no equation between images.
    open spec fn obeys_sub_spec() -> bool {
        false
    }

    open spec fn sub_req(self, rhs: BinImage) -> bool {
        true
    }

    open spec fn sub_spec(self, rhs: BinImage) -> BinImage {
        self
    }
}

impl core::ops::Sub<BinImage> for BinImage {
    type Output = BinImage;

    /// This image without the pixels that are foreground in `rhs`: a pixel of
    /// the result is foreground if and only if it is foreground here and not
    /// in `rhs`. The result has the shape of this image, whatever the shape
    /// of `rhs` is.
    fn sub(self, rhs: BinImage) -> (rest: BinImage)
        ensures
            rest@ == difference(self@, rhs@),
    {
        proof {
            use_type_invariant(&self);
        }
        let width: usize = self.get_width();
        let height: usize = self.get_height();
        let mut pixels: Vec<Vec<bool>> = Vec::new();
        let mut y: usize = 0;
        while y < height
            invariant
                y <= height,
                height == self@.len(),
                forall|i: int| 0 <= i < self@.len() ==> #[trigger] self@[i].len() == width,
                pixels.deep_view() == difference(self@, rhs@).take(y as int),
            decreases height - y,
        {
            let mut row: Vec<bool> = Vec::new();
            let mut x: usize = 0;
            while x < width
                invariant
                    x <= width,
                    y < height,
                    height == self@.len(),
                    self@[y as int].len() == width,
                    row@ == difference(self@, rhs@)[y as int].take(x as int),
                decreases width - x,
            {
                let keep: bool = self.value_or_background(x, y) && !rhs.value_or_background(x, y);
                row.push(keep);
                x = x + 1;
            }
            let ghost before = pixels;
            pixels.push(row);
            y = y + 1;
            proof {
                lemma_push_row(before, pixels, row);
                assert(row@ =~= difference(self@, rhs@)[y - 1]);
            }
        }
        BinImage { pixels }
    }
}

impl Clone for BinImage {
    /// A copy with the same pixels.
    fn clone(&self) -> (copy: Self)
        ensures
            copy@ == self@,
    {
        proof {
            use_type_invariant(self);
        }
        BinImage { pixels: self.pixels.clone() }
    }
}

impl TryFromSpecImpl<Vec<Vec<bool>>> for BinImage {
    /// The image that is made is told by its view, in the contract of
    /// `try_from`, and by no equation between images.
    open spec fn obeys_try_from_spec() -> bool {
        false
    }

    open spec fn try_from_spec(pixels: Vec<Vec<bool>>) -> Result<BinImage, InvalidInput> {
        Err(InvalidInput::Image)
    }
}

impl TryFrom<Vec<Vec<bool>>> for BinImage {
    type Error = InvalidInput;

    /// The image with the rows `pixels`, if they all have the same length;
    /// [`InvalidInput::Image`] if they do not.
    fn try_from(pixels: Vec<Vec<bool>>) -> (image: Result<BinImage, InvalidInput>)
        ensures
            match image {
                Ok(img) => rectangular(pixels.deep_view()) && img@ == pixels.deep_view(),
                Err(e) => !rectangular(pixels.deep_view()) && e == InvalidInput::Image,
            },
    {
        let mut y: usize = 1;
        while y < pixels.len()
            invariant
                1 <= y,
                forall|i: int| 0 <= i < y && i < pixels.len() ==> #[trigger] pixels.deep_view()[i].len()
                    == pixels.deep_view()[0].len(),
            decreases pixels.len() - y,
        {
            if pixels[y].len() != pixels[0].len() {
                assert(pixels.deep_view()[y as int].len() != pixels.deep_view()[0].len());
                return Err(InvalidInput::Image);
            }
            y = y + 1;
        }
        Ok(BinImage { pixels })
    }
}

/// The number of pixels of a grid whose rows all have the length of the first.
pub open spec fn pixel_total(g: Grid) -> nat {
    width(g) * height(g)
}

/// Row-major order hands out every pixel once: in a grid of `w` columns and `h`
/// rows, the pixel in column `x` of row `y` has the number `y * w + x`, which
/// is below `w * h`, and a number `k` below `w * h` belongs to one pixel only,
/// the one in column `k % w` of row `k / w`.
pub proof fn lemma_row_major_order(w: int, h: int, x: int, y: int, k: int)
    ensures
        0 <= x < w && 0 <= y < h ==> {
            let n = y * w + x;
            0 <= n < w * h && n % w == x && n / w == y
        },
        0 <= k < w * h && 0 <= h ==> 0 <= k % w < w && 0 <= k / w < h && (k / w) * w + k % w == k,
{
    if 0 <= x < w && 0 <= y < h {
        vstd::arithmetic::div_mod::lemma_fundamental_div_mod_converse(y * w + x, w, y, x);
        assert(0 <= y * w + x < w * h) by (nonlinear_arith)
            requires
                0 <= x < w,
                0 <= y < h,
        ;
    }
    if 0 <= k < w * h && 0 <= h {
        assert(w > 0) by (nonlinear_arith)
            requires
                0 <= k < w * h,
                0 <= h,
        ;
        vstd::arithmetic::div_mod::lemma_fundamental_div_mod(k, w);
        vstd::arithmetic::div_mod::lemma_mod_bound(k, w);
        let q = k / w;
        let r = k % w;
        assert(0 <= q < h) by (nonlinear_arith)
            requires
                k == w * q + r,
                0 <= r < w,
                0 <= k < w * h,
        ;
        assert(q * w == w * q) by (nonlinear_arith);
    }
}

/// A walk over the pixels of an image in row-major order: the top row from
/// left to right, then the row below it, and so on. Pixel number `k` of that
/// order, counted from 0, is the one in column `k % width` of row `k / width`.
///
/// It is made by [`BinImage::into_iter`] and advanced by
/// [`BinImageIntoIter::next`].
pub struct BinImageIntoIter {
    bin_image: BinImage,
    x: usize,
    y: usize,
}

impl BinImageIntoIter {
    #[verifier::type_invariant]
    spec fn well_formed(&self) -> bool {
        &&& rectangular(self.bin_image@)
        &&& (self.x == 0 && self.y <= height(self.bin_image@)) || (self.x < width(self.bin_image@)
            && self.y < height(self.bin_image@))
    }

    /// The grid that is walked over.
    pub closed spec fn image(&self) -> Grid {
        self.bin_image@
    }

    /// The column of the pixel that comes next.
    pub closed spec fn column(&self) -> nat {
        self.x as nat
    }

    /// The row of the pixel that comes next; the height of the grid when the
    /// walk has passed the last row.
    pub closed spec fn row(&self) -> nat {
        self.y as nat
    }

    /// How many pixels the walk has handed out so far.
    pub open spec fn yielded(&self) -> nat {
        self.row() * width(self.image()) + self.column()
    }

    /// The next pixel of the walk as `(x, y, value)`, or `None` when every pixel
    /// has been handed out; from then on it is `None` for good.
    pub fn next(&mut self) -> (item: Option<(usize, usize, bool)>)
        ensures
            final(self).image() == old(self).image(),
            match item {
                Some((x, y, value)) => {
                    let g = old(self).image();
                    let k = old(self).yielded();
                    &&& x == old(self).column()
                    &&& y == old(self).row()
                    &&& x < width(g)
                    &&& y < height(g)
                    &&& x < g[y as int].len()
                    &&& value == g[y as int][x as int]
                    &&& final(self).column() == (if x + 1 < width(g) { x + 1 } else { 0 })
                    &&& final(self).row() == (if x + 1 < width(g) { y as int } else { y + 1 })
                    &&& k < pixel_total(g)
                    &&& x == k % width(g)
                    &&& y == k / width(g)
                    &&& final(self).yielded() == k + 1
                },
                None => {
                    &&& !(old(self).row() < height(old(self).image()) && old(self).column() < width(
                        old(self).image(),
                    ))
                    &&& old(self).yielded() == pixel_total(old(self).image())
                    &&& final(self).column() == old(self).column()
                    &&& final(self).row() == old(self).row()
                },
            },
    {
        proof {
            use_type_invariant(&*self);
        }
        let width: usize = self.bin_image.get_width();
        let height: usize = self.bin_image.get_height();
        let x: usize = self.x;
        let y: usize = self.y;
        if y < height && x < width {
            let value: bool = self.bin_image.value_or_background(x, y);
            proof {
                let (xi, yi, w, h) = (x as int, y as int, width as int, height as int);
                vstd::arithmetic::div_mod::lemma_fundamental_div_mod_converse(yi * w + xi, w, yi, xi);
                assert(yi * w + xi < w * h) by (nonlinear_arith)
                    requires
                        0 <= xi < w,
                        0 <= yi < h,
                ;
                assert((yi + 1) * w == yi * w + w) by (nonlinear_arith);
            }
            if x + 1 < width {
                self.x = x + 1;
            } else {
                self.x = 0;
                self.y = y + 1;
            }
            Some((x, y, value))
        } else {
            proof {
                let (yi, w, h) = (y as int, width as int, height as int);
                assert(w == 0 ==> yi * w == 0 && w * h == 0) by (nonlinear_arith);
                assert(yi == h ==> yi * w == w * h) by (nonlinear_arith);
            }
            None
        }
    }
}

} // verus!
