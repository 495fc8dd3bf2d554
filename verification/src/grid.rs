//! The geometry of the sparse warper: where its anchors stand, which block of
//! four anchors encloses a pixel, and with which weights the four are blended.

use vstd::prelude::*;
use crate::controls::{WarpError, check_subresolution};
use vstd::arithmetic::div_mod::{lemma_fundamental_div_mod, lemma_mod_bound, lemma_div_is_ordered};
use vstd::arithmetic::div_mod::lemma_fundamental_div_mod_converse;

verus! {

/// The quotient `a / d`, rounded up.
pub open spec fn ceil_div(a: int, d: int) -> int {
    (a + d - 1) / d
}

/// `ceil_div(a, d)` is the least number of steps of length `d` that reach `a`.
pub proof fn lemma_ceil_div(a: int, d: int)
    requires
        d >= 1,
    ensures
        d * (ceil_div(a, d) - 1) < a <= d * ceil_div(a, d),
{
    let n = a + d - 1;
    lemma_fundamental_div_mod(n, d);
    lemma_mod_bound(n, d);
    assert(d * (n / d - 1) == d * (n / d) - d) by (nonlinear_arith);
}

/// How many anchors an axis of `extent` pixels needs when an anchor stands
/// every `factor` pixels: `(extent - 1) / factor`, rounded up, and two more.
pub open spec fn anchor_count(extent: int, factor: int) -> int {
    ceil_div(extent - 1, factor) + 2
}

/// The pixel position of the anchor with the given index along an axis.
pub open spec fn anchor_position(index: int, factor: int) -> int {
    index * factor
}

/// The index of the anchor at or before pixel position `pos`: the near corner
/// of the block that encloses the pixel.
pub open spec fn block_index(pos: int, factor: int) -> int {
    pos / factor
}

/// The anchors of the block that encloses a pixel exist: the far corner's
/// index is below the anchor count of its axis.
pub proof fn lemma_block_in_grid(pos: int, extent: int, factor: int)
    requires
        factor >= 1,
        0 <= pos < extent,
    ensures
        0 <= block_index(pos, factor),
        block_index(pos, factor) + 1 < anchor_count(extent, factor),
        anchor_position(block_index(pos, factor), factor) <= pos,
        pos < anchor_position(block_index(pos, factor) + 1, factor),
{
    let i = pos / factor;
    lemma_fundamental_div_mod(pos, factor);
    lemma_mod_bound(pos, factor);
    assert(i * factor == factor * i) by (nonlinear_arith);
    assert((i + 1) * factor == factor * i + factor) by (nonlinear_arith);
    assert(0 <= i) by (nonlinear_arith)
        requires
            factor >= 1,
            pos >= 0,
            pos == factor * i + pos % factor,
            0 <= pos % factor < factor,
    ;
    lemma_div_is_ordered(pos, extent - 1 + factor - 1, factor);
}

/// Every anchor of an axis stands less than two steps beyond the last pixel.
pub proof fn lemma_anchor_position_bound(index: int, extent: int, factor: int)
    requires
        factor >= 1,
        extent >= 0,
        0 <= index < anchor_count(extent, factor),
    ensures
        0 <= anchor_position(index, factor) < extent + 2 * factor,
{
    lemma_ceil_div(extent - 1, factor);
    let q = ceil_div(extent - 1, factor);
    assert(0 <= index * factor < extent + 2 * factor) by (nonlinear_arith)
        requires
            factor >= 1,
            0 <= index <= q + 1,
            factor * (q - 1) < extent - 1,
    ;
}

/// Counts the anchors along an axis of `extent` pixels.
pub fn count_anchors(extent: u32, factor: u32) -> (n: u64)
    requires
        factor >= 1,
    ensures
        n == anchor_count(extent as int, factor as int),
        1 <= n <= extent + 2,
{
    let span: u64 = extent as u64 + factor as u64;
    proof {
        let e = extent as int;
        let f = factor as int;
        lemma_ceil_div(e - 1, f);
        let q = ceil_div(e - 1, f);
        assert(q >= 0 - 1 && q <= e) by (nonlinear_arith)
            requires
                f >= 1,
                e >= 0,
                f * (q - 1) < e - 1 <= f * q,
        ;
        if span == 1 {
            lemma_fundamental_div_mod_converse(-1, 1, -1, 0);
        }
    }
    if span == 1 {
        1
    } else {
        (span - 2) / (factor as u64) + 2
    }
}

/// The weights with which the four corners of a block enter the interpolated
/// value at a pixel of the block, and their common denominator.
#[derive(Clone, Copy, Debug, PartialEq, Eq)]
pub struct BilinearWeights {
    /// Weight of the top left corner.
    pub top_left: u64,
    /// Weight of the top right corner.
    pub top_right: u64,
    /// Weight of the bottom left corner.
    pub bottom_left: u64,
    /// Weight of the bottom right corner.
    pub bottom_right: u64,
    /// The area of the block, by which the weighted sum is divided.
    pub area: u64,
}

/// Whether the position lies in the block spanned by the two corners, its
/// edges included.
pub open spec fn in_block(
    top_left_corner: (u64, u64),
    bot_right_corner: (u64, u64),
    src_pos: (u32, u32),
) -> bool {
    &&& top_left_corner.0 <= src_pos.0 <= bot_right_corner.0
    &&& top_left_corner.1 <= src_pos.1 <= bot_right_corner.1
}

/// The area of the block spanned by the two corners.
pub open spec fn block_area(top_left_corner: (u64, u64), bot_right_corner: (u64, u64)) -> int {
    (bot_right_corner.0 - top_left_corner.0) * (bot_right_corner.1 - top_left_corner.1)
}

/// The bilinear weights of a position in a block: each corner weighs as much
/// as the rectangle between the position and the opposite corner.
pub open spec fn bilinear_weights(
    top_left_corner: (u64, u64),
    bot_right_corner: (u64, u64),
    src_pos: (u32, u32),
) -> BilinearWeights {
    let (left, top) = top_left_corner;
    let (right, bottom) = bot_right_corner;
    let (u, v) = src_pos;
    BilinearWeights {
        top_left: ((bottom - v) * (right - u)) as u64,
        top_right: ((bottom - v) * (u - left)) as u64,
        bottom_left: ((v - top) * (right - u)) as u64,
        bottom_right: ((v - top) * (u - left)) as u64,
        area: block_area(top_left_corner, bot_right_corner) as u64,
    }
}

/// The top left corner of the block that encloses the pixel `(x, y)`: the
/// position of the nearest anchor at or before the pixel on both axes.
pub open spec fn block_top_left(x: u32, y: u32, factor: u32) -> (u64, u64) {
    (
        anchor_position(block_index(x as int, factor as int), factor as int) as u64,
        anchor_position(block_index(y as int, factor as int), factor as int) as u64,
    )
}

/// The bottom right corner of the block that encloses the pixel `(x, y)`: one
/// anchor further than the top left corner on both axes.
pub open spec fn block_bot_right(x: u32, y: u32, factor: u32) -> (u64, u64) {
    (
        anchor_position(block_index(x as int, factor as int) + 1, factor as int) as u64,
        anchor_position(block_index(y as int, factor as int) + 1, factor as int) as u64,
    )
}

/// The block of a pixel encloses the pixel, is `factor` pixels wide and high,
/// and its area fits in 64 bits.
pub proof fn lemma_block_encloses(x: u32, y: u32, factor: u32)
    requires
        factor >= 1,
    ensures
        in_block(block_top_left(x, y, factor), block_bot_right(x, y, factor), (x, y)),
        block_top_left(x, y, factor).0 == factor * (x / factor),
        block_top_left(x, y, factor).1 == factor * (y / factor),
        block_bot_right(x, y, factor).0 == block_top_left(x, y, factor).0 + factor,
        block_bot_right(x, y, factor).1 == block_top_left(x, y, factor).1 + factor,
        block_area(block_top_left(x, y, factor), block_bot_right(x, y, factor)) == factor * factor,
        factor * factor <= u64::MAX,
{
    let f = factor as int;
    lemma_block_in_grid(x as int, x + 1, f);
    lemma_block_in_grid(y as int, y + 1, f);
    let i = x as int / f;
    let j = y as int / f;
    assert(i * f == f * i && (i + 1) * f == f * i + f) by (nonlinear_arith);
    assert(j * f == f * j && (j + 1) * f == f * j + f) by (nonlinear_arith);
    assert(f * f <= u64::MAX) by (nonlinear_arith)
        requires
            1 <= f <= u32::MAX,
    ;
}

/// No weight exceeds the area of the block.
proof fn lemma_rectangle_in_block(a: int, b: int, width: int, height: int)
    by (nonlinear_arith)
    requires
        0 <= a <= width,
        0 <= b <= height,
    ensures
        0 <= b * a <= width * height,
{
}

/// Four products over two pairs of factors, each weighting one of two values,
/// add up to the product of the pair sums and the blended value.
proof fn lemma_blend_factors(a: int, b: int, p: int, q: int, l: int, r: int)
    ensures
        (a * p) * l + (a * q) * r + (b * p) * l + (b * q) * r == (a + b) * (p * l + q * r),
{
    vstd::arithmetic::mul::lemma_mul_is_associative(a, p, l);
    vstd::arithmetic::mul::lemma_mul_is_associative(a, q, r);
    vstd::arithmetic::mul::lemma_mul_is_associative(b, p, l);
    vstd::arithmetic::mul::lemma_mul_is_associative(b, q, r);
    let m = p * l;
    let n = q * r;
    assert(a * m + a * n + b * m + b * n == (a + b) * (m + n)) by (nonlinear_arith);
}

/// Each weight is the area of the rectangle between the position and the
/// opposite corner, and the four weights add up to the area of the block.
pub proof fn lemma_weights_sum_to_area(
    top_left_corner: (u64, u64),
    bot_right_corner: (u64, u64),
    src_pos: (u32, u32),
)
    requires
        in_block(top_left_corner, bot_right_corner, src_pos),
        block_area(top_left_corner, bot_right_corner) <= u64::MAX,
    ensures
        ({
            let w = bilinear_weights(top_left_corner, bot_right_corner, src_pos);
            let (left, top) = top_left_corner;
            let (right, bottom) = bot_right_corner;
            let (u, v) = src_pos;
            &&& w.top_left == (bottom - v) * (right - u)
            &&& w.top_right == (bottom - v) * (u - left)
            &&& w.bottom_left == (v - top) * (right - u)
            &&& w.bottom_right == (v - top) * (u - left)
            &&& w.area == block_area(top_left_corner, bot_right_corner)
            &&& w.top_left + w.top_right + w.bottom_left + w.bottom_right == w.area
        }),
{
    let (left, top) = top_left_corner;
    let (right, bottom) = bot_right_corner;
    let (u, v) = src_pos;
    let width = right - left;
    let height = bottom - top;
    lemma_rectangle_in_block(right - u, bottom - v, width, height);
    lemma_rectangle_in_block(u - left, bottom - v, width, height);
    lemma_rectangle_in_block(right - u, v - top, width, height);
    lemma_rectangle_in_block(u - left, v - top, width, height);
    assert((bottom - v) * (right - u) + (bottom - v) * (u - left) + (v - top) * (right - u) + (v
        - top) * (u - left) == (right - left) * (bottom - top)) by (nonlinear_arith);
}

/// Blending the corners' own positions gives back the position of the pixel:
/// the weighted sum of the corner columns is `area` times the pixel's column,
/// and likewise for the rows. A deformation that moves no anchor therefore
/// moves no pixel between them either.
pub proof fn lemma_weights_reproduce_position(
    top_left_corner: (u64, u64),
    bot_right_corner: (u64, u64),
    src_pos: (u32, u32),
)
    requires
        in_block(top_left_corner, bot_right_corner, src_pos),
        block_area(top_left_corner, bot_right_corner) <= u64::MAX,
    ensures
        ({
            let w = bilinear_weights(top_left_corner, bot_right_corner, src_pos);
            let (left, top) = top_left_corner;
            let (right, bottom) = bot_right_corner;
            &&& w.top_left * left + w.top_right * right + w.bottom_left * left + w.bottom_right
                * right == w.area * src_pos.0
            &&& w.top_left * top + w.top_right * top + w.bottom_left * bottom + w.bottom_right
                * bottom == w.area * src_pos.1
        }),
{
    let (left, top) = top_left_corner;
    let (right, bottom) = bot_right_corner;
    let (u, v) = src_pos;
    let width = right - left;
    let height = bottom - top;
    lemma_rectangle_in_block(right - u, bottom - v, width, height);
    lemma_rectangle_in_block(u - left, bottom - v, width, height);
    lemma_rectangle_in_block(right - u, v - top, width, height);
    lemma_rectangle_in_block(u - left, v - top, width, height);
    let a = bottom - v;
    let b = v - top;
    let p = right - u;
    let q = u - left;
    lemma_blend_factors(a, b, p, q, left as int, right as int);
    assert(p * left + q * right == width * u) by (nonlinear_arith)
        requires
            p == right - u,
            q == u - left,
            width == right - left,
    ;
    assert((a + b) * (width * u) == (width * height) * u) by (nonlinear_arith)
        requires
            a + b == height,
    ;
    lemma_blend_factors(p, q, a, b, top as int, bottom as int);
    assert(a * top + b * bottom == height * v) by (nonlinear_arith)
        requires
            a == bottom - v,
            b == v - top,
            height == bottom - top,
    ;
    assert((p + q) * (height * v) == (width * height) * v) by (nonlinear_arith)
        requires
            p + q == width,
    ;
    assert(p * a == a * p && q * a == a * q && p * b == b * p && q * b == b * q)
        by (nonlinear_arith);
}

/// At the top left corner itself that corner carries the whole weight.
pub proof fn lemma_weights_at_corner(top_left_corner: (u64, u64), bot_right_corner: (u64, u64))
    requires
        top_left_corner.0 <= bot_right_corner.0,
        top_left_corner.1 <= bot_right_corner.1,
        top_left_corner.0 <= u32::MAX,
        top_left_corner.1 <= u32::MAX,
        block_area(top_left_corner, bot_right_corner) <= u64::MAX,
    ensures
        ({
            let src_pos = (top_left_corner.0 as u32, top_left_corner.1 as u32);
            let w = bilinear_weights(top_left_corner, bot_right_corner, src_pos);
            &&& w.top_left == w.area
            &&& w.top_right == 0
            &&& w.bottom_left == 0
            &&& w.bottom_right == 0
        }),
{
    let (left, top) = top_left_corner;
    let (right, bottom) = bot_right_corner;
    assert((bottom - top) * (right - left) == (right - left) * (bottom - top))
        by (nonlinear_arith);
    assert((bottom - top) * (left - left) == 0) by (nonlinear_arith);
    assert((top - top) * (right - left) == 0) by (nonlinear_arith);
    assert((top - top) * (left - left) == 0) by (nonlinear_arith);
}

/// Computes the bilinear weights of a position in a block.
pub fn weigh_block(
    top_left_corner: (u64, u64),
    bot_right_corner: (u64, u64),
    src_pos: (u32, u32),
) -> (w: BilinearWeights)
    requires
        in_block(top_left_corner, bot_right_corner, src_pos),
        block_area(top_left_corner, bot_right_corner) <= u64::MAX,
    ensures
        w == bilinear_weights(top_left_corner, bot_right_corner, src_pos),
{
    let (u, v) = src_pos;
    let (left, top) = top_left_corner;
    let (right, bottom) = bot_right_corner;

    let coef_left: u64 = right - u as u64;
    let coef_right: u64 = u as u64 - left;
    let coef_top: u64 = bottom - v as u64;
    let coef_bot: u64 = v as u64 - top;
    proof {
        let width = right - left;
        let height = bottom - top;
        lemma_rectangle_in_block(coef_left as int, coef_top as int, width, height);
        lemma_rectangle_in_block(coef_right as int, coef_top as int, width, height);
        lemma_rectangle_in_block(coef_left as int, coef_bot as int, width, height);
        lemma_rectangle_in_block(coef_right as int, coef_bot as int, width, height);
    }
    BilinearWeights {
        top_left: coef_top * coef_left,
        top_right: coef_top * coef_right,
        bottom_left: coef_bot * coef_left,
        bottom_right: coef_bot * coef_right,
        area: (right - left) * (bottom - top),
    }
}

/// The four anchors at the corners of a block.
#[derive(Debug, PartialEq)]
pub struct Corners<C> {
    /// The anchor at the top left corner.
    pub top_left: C,
    /// The anchor at the top right corner.
    pub top_right: C,
    /// The anchor at the bottom left corner.
    pub bottom_left: C,
    /// The anchor at the bottom right corner.
    pub bottom_right: C,
}

/// The corners of the block whose top left anchor has the given column and
/// row in a grid of anchors, the grid given row by row.
pub open spec fn corners_at<C>(anchors: Seq<Seq<C>>, column: int, row: int) -> Corners<C> {
    Corners {
        top_left: anchors[row][column],
        top_right: anchors[row][column + 1],
        bottom_left: anchors[row + 1][column],
        bottom_right: anchors[row + 1][column + 1],
    }
}

/// Whether `anchors` is a grid for a raster of `width` by `height` pixels with
/// an anchor every `factor` pixels: one row per anchor of the vertical axis,
/// and in each row one entry per anchor of the horizontal axis.
pub open spec fn is_grid<C>(anchors: Seq<Seq<C>>, width: u32, height: u32, factor: u32) -> bool {
    &&& factor >= 1
    &&& anchors.len() == anchor_count(height as int, factor as int)
    &&& forall|row: int|
        0 <= row < anchors.len() ==> (#[trigger] anchors[row]).len() == anchor_count(
            width as int,
            factor as int,
        )
}

/// Whether every anchor of a row is a value that `deform_function` returned
/// for the anchor's pixel position and the two control sets.
pub open spec fn row_anchored_by<C, D>(
    line: Seq<C>,
    row: int,
    factor: u32,
    controls_p: &[C],
    controls_q: &[C],
    deform_function: D,
) -> bool where D: Fn(&[C], &[C], (u64, u64)) -> C {
    forall|column: int|
        0 <= column < line.len() ==> call_ensures(
            deform_function,
            (
                controls_p,
                controls_q,
                (
                    anchor_position(column, factor as int) as u64,
                    anchor_position(row, factor as int) as u64,
                ),
            ),
            #[trigger] line[column],
        )
}

/// Whether `anchors` is the grid of a raster of `width` by `height` pixels
/// in which every anchor is a value that `deform_function` returned for the
/// anchor's pixel position and the two control sets.
pub open spec fn anchored_by<C, D>(
    anchors: Seq<Seq<C>>,
    width: u32,
    height: u32,
    factor: u32,
    controls_p: &[C],
    controls_q: &[C],
    deform_function: D,
) -> bool where D: Fn(&[C], &[C], (u64, u64)) -> C {
    &&& is_grid(anchors, width, height, factor)
    &&& forall|row: int|
        0 <= row < anchors.len() ==> row_anchored_by(
            #[trigger] anchors[row],
            row,
            factor,
            controls_p,
            controls_q,
            deform_function,
        )
}

/// Whether `deform_function` can be called at every anchor position of a
/// raster of `width` by `height` pixels.
pub open spec fn accepts_anchors<C, D>(
    deform_function: D,
    width: u32,
    height: u32,
    factor: u32,
    controls_p: &[C],
    controls_q: &[C],
) -> bool where D: Fn(&[C], &[C], (u64, u64)) -> C {
    forall|column: int, row: int|
        0 <= column < anchor_count(width as int, factor as int) && 0 <= row < anchor_count(
            height as int,
            factor as int,
        ) ==> call_requires(
            deform_function,
            (
                controls_p,
                controls_q,
                (
                    #[trigger] anchor_position(column, factor as int) as u64,
                    #[trigger] anchor_position(row, factor as int) as u64,
                ),
            ),
        )
}

/// The deformed positions of the anchors of a raster, row by row.
pub struct AnchorGrid<C> {
    width: u32,
    height: u32,
    factor: u32,
    anchors: Vec<Vec<C>>,
}

impl<C> AnchorGrid<C> {
    /// Width of the raster that the grid covers.
    pub closed spec fn width(&self) -> u32 {
        self.width
    }

    /// Height of the raster that the grid covers.
    pub closed spec fn height(&self) -> u32 {
        self.height
    }

    /// Distance in pixels between neighbouring anchors.
    pub closed spec fn factor(&self) -> u32 {
        self.factor
    }

    /// The anchors, row by row.
    pub closed spec fn anchors(&self) -> Seq<Seq<C>> {
        Seq::new(self.anchors@.len(), |row: int| self.anchors@[row]@)
    }

    /// The invariant of a grid: it has the rows and columns that its raster
    /// and factor ask for.
    #[verifier::type_invariant]
    spec fn well_formed(self) -> bool {
        is_grid(self.anchors(), self.width, self.height, self.factor)
    }
}

impl<C: Copy> AnchorGrid<C> {
    /// Computes the anchors of a raster of `width` by `height` pixels: the
    /// value of `deform_function` at every `factor`-th pixel position of both
    /// axes, up to the first position beyond the last pixel and one more.
    pub fn build<D>(
        width: u32,
        height: u32,
        factor: u32,
        controls_p: &[C],
        controls_q: &[C],
        deform_function: &D,
    ) -> (r: Result<Self, WarpError>) where D: Fn(&[C], &[C], (u64, u64)) -> C
        requires
            factor >= 1 ==> accepts_anchors(
                *deform_function,
                width,
                height,
                factor,
                controls_p,
                controls_q,
            ),
        ensures
            match r {
                Ok(grid) => {
                    &&& factor >= 1
                    &&& grid.width() == width
                    &&& grid.height() == height
                    &&& grid.factor() == factor
                    &&& anchored_by(
                        grid.anchors(),
                        width,
                        height,
                        factor,
                        controls_p,
                        controls_q,
                        *deform_function,
                    )
                },
                Err(e) => factor == 0 && e == WarpError::ZeroSubresolution,
            },
    {
        match check_subresolution(factor) {
            Err(e) => {
                return Err(e);
            },
            Ok(()) => {},
        }
        let columns = count_anchors(width, factor);
        let rows = count_anchors(height, factor);
        let step = factor as u64;
        let mut anchors: Vec<Vec<C>> = Vec::new();
        let mut v: u64 = 0;
        while v < rows
            invariant
                factor >= 1,
                step == factor,
                columns == anchor_count(width as int, factor as int),
                rows == anchor_count(height as int, factor as int),
                v <= rows,
                anchors@.len() == v,
                forall|row: int|
                    0 <= row < v ==> (#[trigger] anchors@[row])@.len() == columns,
                forall|row: int|
                    0 <= row < v ==> row_anchored_by(
                        (#[trigger] anchors@[row])@,
                        row,
                        factor,
                        controls_p,
                        controls_q,
                        *deform_function,
                    ),
                accepts_anchors(*deform_function, width, height, factor, controls_p, controls_q),
            decreases rows - v,
        {
            proof {
                lemma_anchor_position_bound(v as int, height as int, factor as int);
            }
            let y: u64 = v * step;
            let mut line: Vec<C> = Vec::new();
            let mut u: u64 = 0;
            while u < columns
                invariant
                    factor >= 1,
                    step == factor,
                    columns == anchor_count(width as int, factor as int),
                    rows == anchor_count(height as int, factor as int),
                    v < rows,
                    y == anchor_position(v as int, factor as int),
                    u <= columns,
                    line@.len() == u,
                    row_anchored_by(
                        line@,
                        v as int,
                        factor,
                        controls_p,
                        controls_q,
                        *deform_function,
                    ),
                    accepts_anchors(
                        *deform_function,
                        width,
                        height,
                        factor,
                        controls_p,
                        controls_q,
                    ),
                decreases columns - u,
            {
                proof {
                    lemma_anchor_position_bound(u as int, width as int, factor as int);
                }
                let x: u64 = u * step;
                let anchor = deform_function(controls_p, controls_q, (x, y));
                line.push(anchor);
                u += 1;
            }
            anchors.push(line);
            v += 1;
        }
        proof {
            let grid = AnchorGrid { width, height, factor, anchors };
            assert forall|row: int| 0 <= row < grid.anchors().len() implies {
                &&& (#[trigger] grid.anchors()[row]).len() == anchor_count(
                    width as int,
                    factor as int,
                )
                &&& row_anchored_by(
                    grid.anchors()[row],
                    row,
                    factor,
                    controls_p,
                    controls_q,
                    *deform_function,
                )
            } by {
                assert(grid.anchors()[row] == anchors@[row]@);
            }
        }
        Ok(AnchorGrid { width, height, factor, anchors })
    }

    /// The four anchors around a pixel of the raster: the corners of the
    /// block that encloses it.
    pub fn corners(&self, x: u32, y: u32) -> (corners: Corners<C>)
        requires
            x < self.width(),
            y < self.height(),
        ensures
            corners == corners_at(
                self.anchors(),
                block_index(x as int, self.factor() as int),
                block_index(y as int, self.factor() as int),
            ),
    {
        proof {
            use_type_invariant(self);
            lemma_block_in_grid(x as int, self.width as int, self.factor as int);
            lemma_block_in_grid(y as int, self.height as int, self.factor as int);
        }
        let column = (x / self.factor) as usize;
        let row = (y / self.factor) as usize;
        assert(self.anchors()[row as int] == self.anchors@[row as int]@);
        assert(self.anchors()[row + 1] == self.anchors@[row + 1]@);
        Corners {
            top_left: self.anchors[row][column],
            top_right: self.anchors[row][column + 1],
            bottom_left: self.anchors[row + 1][column],
            bottom_right: self.anchors[row + 1][column + 1],
        }
    }

    /// Distance in pixels between neighbouring anchors.
    pub fn subresolution_factor(&self) -> (factor: u32)
        ensures
            factor == self.factor(),
            factor >= 1,
    {
        proof {
            use_type_invariant(self);
        }
        self.factor
    }
}

} // verus!
