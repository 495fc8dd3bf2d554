//! The reverse warpers: every pixel of the result is pulled from the source
//! raster at the place where the deformation, run from the destination
//! control points back to the source control points, puts it.

use vstd::prelude::*;
use crate::controls::{WarpError, check_controls, controls_error, sparse_error};
use crate::grid::{AnchorGrid, BilinearWeights, Corners};
use crate::grid::{accepts_anchors, anchor_position, anchored_by, bilinear_weights, block_area};
use crate::grid::{block_bot_right, block_index, block_top_left, corners_at, in_block, weigh_block};
use crate::grid::{lemma_block_encloses, lemma_block_in_grid, lemma_weights_at_corner};
use crate::grid::row_anchored_by;
use crate::interpolation::{CanLinearInterpolate, bilinear, footprint_of, mixes, samples};
use crate::interpolation::{lemma_sample_is_unique, samples_cell, sampling_is_single_valued};
use crate::raster::{Color, Raster, raster_dimensions, raster_pixels, rgb_image_from_fn};

verus! {

/// The colour of a pixel whose sample falls outside the source raster: black.
pub open spec fn color_outside() -> Color {
    (0u8, 0u8, 0u8)
}

/// The pixel that a sample gives: the sampled colour, or the background where
/// there is no sample.
pub open spec fn or_outside(sample: Option<Color>) -> Color {
    match sample {
        Some(color) => color,
        None => color_outside(),
    }
}

/// Paints a pixel from its sample: with the sampled colour, or black where
/// the sample fell outside the source raster.
pub fn paint(sample: Option<Color>) -> (out: Color)
    ensures
        out == or_outside(sample),
{
    match sample {
        Some(color) => color,
        None => (0u8, 0u8, 0u8),
    }
}

/// Whether `out` is a pixel that the dense warper may give at `(x, y)`: the
/// source raster sampled at a coordinate that `deform_function` returns for
/// the pixel's position, with the destination control points as the points to
/// move from and the source control points as the points to move to.
pub open spec fn dense_pixel_of<C, V, D, F, M>(
    img_src: Raster,
    controls_src: &[C],
    controls_dst: &[C],
    deform_function: D,
    floor: F,
    mix: M,
    x: u32,
    y: u32,
    out: Color,
) -> bool where
    Color: CanLinearInterpolate<V, Color>,
    D: Fn(&[C], &[C], (u64, u64)) -> C,
    F: Fn(&C) -> Option<(i64, i64)>,
    M: Fn(&C, V, V, V, V) -> V,
 {
    exists|at: C, sample: Option<Color>|
        {
            &&& call_ensures(deform_function, (controls_dst, controls_src, (x as u64, y as u64)), at)
            &&& #[trigger] samples::<C, V, Color, F, M>(img_src, &at, floor, mix, sample)
            &&& out == or_outside(sample)
        }
}

/// Computes one pixel of the dense warp.
pub fn dense_pixel<C, V, D, F, M>(
    img_src: &Raster,
    controls_src: &[C],
    controls_dst: &[C],
    deform_function: &D,
    floor: &F,
    mix: &M,
    x: u32,
    y: u32,
) -> (out: Color) where
    Color: CanLinearInterpolate<V, Color>,
    D: Fn(&[C], &[C], (u64, u64)) -> C,
    F: Fn(&C) -> Option<(i64, i64)>,
    M: Fn(&C, V, V, V, V) -> V,

    requires
        call_requires(*deform_function, (controls_dst, controls_src, (x as u64, y as u64))),
        forall|at: C| call_requires(*floor, (&at,)),
        forall|at: C, a: V, b: V, c: V, d: V| call_requires(*mix, (&at, a, b, c, d)),
    ensures
        dense_pixel_of::<C, V, D, F, M>(
            *img_src,
            controls_src,
            controls_dst,
            *deform_function,
            *floor,
            *mix,
            x,
            y,
            out,
        ),
{
    let at = deform_function(controls_dst, controls_src, (x as u64, y as u64));
    let sample = bilinear::<C, V, Color, F, M>(img_src, &at, floor, mix);
    proof {
        assert(samples::<C, V, Color, F, M>(*img_src, &at, *floor, *mix, sample));
    }
    paint(sample)
}

/// Compute the warped image with an MLS algorithm, densely: the deformation
/// is evaluated for every pixel.
///
/// The new image is back projected as if the source and destination control
/// points were reversed: the pixel at `(x, y)` is the source raster sampled
/// where `deform_function` takes `(x, y)` when it moves the destination
/// control points onto the source control points. Pixels whose sample falls
/// outside the source raster are black. The result has the dimensions of the
/// source raster.
///
/// Control sets of different lengths, and empty ones, are refused before
/// anything is computed.
pub fn reverse_dense<C, V, D, F, M>(
    img_src: &Raster,
    controls_src: &[C],
    controls_dst: &[C],
    deform_function: D,
    floor: F,
    mix: M,
) -> (r: Result<Raster, WarpError>) where
    Color: CanLinearInterpolate<V, Color>,
    D: Fn(&[C], &[C], (u64, u64)) -> C,
    F: Fn(&C) -> Option<(i64, i64)>,
    M: Fn(&C, V, V, V, V) -> V,

    requires
        forall|x: u64, y: u64|
            x < raster_dimensions(*img_src).0 && y < raster_dimensions(*img_src).1
                ==> call_requires(deform_function, (controls_dst, controls_src, (x, y))),
        forall|at: C| call_requires(floor, (&at,)),
        forall|at: C, a: V, b: V, c: V, d: V| call_requires(mix, (&at, a, b, c, d)),
    ensures
        match controls_error(controls_src@.len(), controls_dst@.len()) {
            Some(e) => r == Err::<Raster, WarpError>(e),
            None => r matches Ok(out) && {
                &&& raster_dimensions(out) == raster_dimensions(*img_src)
                &&& forall|x: u32, y: u32|
                    x < raster_dimensions(out).0 && y < raster_dimensions(out).1
                        ==> dense_pixel_of::<C, V, D, F, M>(
                        *img_src,
                        controls_src,
                        controls_dst,
                        deform_function,
                        floor,
                        mix,
                        x,
                        y,
                        #[trigger] raster_pixels(out)[(x as int, y as int)],
                    )
            },
        },
{
    match check_controls(controls_src.len(), controls_dst.len()) {
        Err(e) => {
            return Err(e);
        },
        Ok(()) => {},
    }
    let (width, height) = img_src.dimensions();
    let deform_function = &deform_function;
    let floor = &floor;
    let mix = &mix;
    let pixel = |x: u32, y: u32| -> (color: Color)
        requires
            x < width,
            y < height,
        ensures
            dense_pixel_of::<C, V, D, F, M>(
                *img_src,
                controls_src,
                controls_dst,
                *deform_function,
                *floor,
                *mix,
                x,
                y,
                color,
            ),
        {
            dense_pixel(img_src, controls_src, controls_dst, deform_function, floor, mix, x, y)
        };
    let out = rgb_image_from_fn(width, height, pixel);
    proof {
        assert forall|x: u32, y: u32| x < width && y < height implies dense_pixel_of::<
            C,
            V,
            D,
            F,
            M,
        >(
            *img_src,
            controls_src,
            controls_dst,
            *deform_function,
            *floor,
            *mix,
            x,
            y,
            #[trigger] raster_pixels(out)[(x as int, y as int)],
        ) by {
            assert(call_ensures(pixel, (x, y), raster_pixels(out)[(x as int, y as int)]));
        }
    }
    Ok(out)
}

/// Perform bilinear warping of a pixel: the coordinate that `blend` returns
/// for the four anchors at the corners of the pixel's block, weighted by the
/// position of the pixel in the block.
///
/// The position must lie within the block corners.
pub fn bilinear_warp<C, B>(
    top_left_corner: (u64, u64),
    bot_right_corner: (u64, u64),
    corners_dst: Corners<C>,
    src_pos: (u32, u32),
    blend: &B,
) -> (at: C) where B: Fn(BilinearWeights, Corners<C>) -> C
    requires
        in_block(top_left_corner, bot_right_corner, src_pos),
        block_area(top_left_corner, bot_right_corner) <= u64::MAX,
        call_requires(
            *blend,
            (bilinear_weights(top_left_corner, bot_right_corner, src_pos), corners_dst),
        ),
    ensures
        call_ensures(
            *blend,
            (bilinear_weights(top_left_corner, bot_right_corner, src_pos), corners_dst),
            at,
        ),
{
    let weights = weigh_block(top_left_corner, bot_right_corner, src_pos);
    blend(weights, corners_dst)
}

/// Whether `out` is a pixel that the sparse warper may give at `(x, y)` from
/// the given anchors: the source raster sampled at a coordinate that `blend`
/// returns for the four anchors around the pixel and the pixel's bilinear
/// weights in their block.
pub open spec fn sparse_pixel_of<C, V, B, F, M>(
    img_src: Raster,
    anchors: Seq<Seq<C>>,
    subresolution_factor: u32,
    blend: B,
    floor: F,
    mix: M,
    x: u32,
    y: u32,
    out: Color,
) -> bool where
    Color: CanLinearInterpolate<V, Color>,
    B: Fn(BilinearWeights, Corners<C>) -> C,
    F: Fn(&C) -> Option<(i64, i64)>,
    M: Fn(&C, V, V, V, V) -> V,
 {
    let weights = bilinear_weights(
        block_top_left(x, y, subresolution_factor),
        block_bot_right(x, y, subresolution_factor),
        (x, y),
    );
    let corners = corners_at(
        anchors,
        block_index(x as int, subresolution_factor as int),
        block_index(y as int, subresolution_factor as int),
    );
    exists|at: C, sample: Option<Color>|
        {
            &&& call_ensures(blend, (weights, corners), at)
            &&& #[trigger] samples::<C, V, Color, F, M>(img_src, &at, floor, mix, sample)
            &&& out == or_outside(sample)
        }
}

/// Computes one pixel of the sparse warp from the anchors of the grid.
pub fn sparse_pixel<C: Copy, V, B, F, M>(
    img_src: &Raster,
    grid: &AnchorGrid<C>,
    blend: &B,
    floor: &F,
    mix: &M,
    x: u32,
    y: u32,
) -> (out: Color) where
    Color: CanLinearInterpolate<V, Color>,
    B: Fn(BilinearWeights, Corners<C>) -> C,
    F: Fn(&C) -> Option<(i64, i64)>,
    M: Fn(&C, V, V, V, V) -> V,

    requires
        x < grid.width(),
        y < grid.height(),
        forall|weights: BilinearWeights, corners: Corners<C>|
            call_requires(*blend, (weights, corners)),
        forall|at: C| call_requires(*floor, (&at,)),
        forall|at: C, a: V, b: V, c: V, d: V| call_requires(*mix, (&at, a, b, c, d)),
    ensures
        sparse_pixel_of::<C, V, B, F, M>(
            *img_src,
            grid.anchors(),
            grid.factor(),
            *blend,
            *floor,
            *mix,
            x,
            y,
            out,
        ),
{
    let subresolution_factor = grid.subresolution_factor();
    proof {
        lemma_block_encloses(x, y, subresolution_factor);
    }
    let step = subresolution_factor as u64;
    let sub_left = x / subresolution_factor;
    let sub_top = y / subresolution_factor;
    let top_left_corner = (step * (sub_left as u64), step * (sub_top as u64));
    let bot_right_corner = (top_left_corner.0 + step, top_left_corner.1 + step);
    let corners_dst = grid.corners(x, y);
    let at = bilinear_warp(top_left_corner, bot_right_corner, corners_dst, (x, y), blend);
    let sample = bilinear::<C, V, Color, F, M>(img_src, &at, floor, mix);
    proof {
        assert(samples::<C, V, Color, F, M>(*img_src, &at, *floor, *mix, sample));
    }
    paint(sample)
}

/// Compute the warped image with an MLS algorithm, sparsely: the deformation
/// is evaluated at the anchors of a grid only, every `subresolution_factor`
/// pixels in both directions, and interpolated bilinearly between them.
///
/// The new image is back projected as if the source and destination control
/// points were reversed. There is one grid of anchors, each the value of
/// `deform_function` at the anchor's position, and the pixel at `(x, y)` is
/// the source raster sampled at the blend of the four anchors around it.
/// Pixels whose sample falls outside the source raster are black. The result
/// has the dimensions of the source raster.
///
/// Control sets of different lengths, empty ones, and a subresolution factor
/// of zero are refused before anything is computed.
pub fn reverse_sparse<C: Copy, V, D, B, F, M>(
    img_src: &Raster,
    controls_src: &[C],
    controls_dst: &[C],
    subresolution_factor: u32,
    deform_function: D,
    blend: B,
    floor: F,
    mix: M,
) -> (r: Result<Raster, WarpError>) where
    Color: CanLinearInterpolate<V, Color>,
    D: Fn(&[C], &[C], (u64, u64)) -> C,
    B: Fn(BilinearWeights, Corners<C>) -> C,
    F: Fn(&C) -> Option<(i64, i64)>,
    M: Fn(&C, V, V, V, V) -> V,

    requires
        subresolution_factor >= 1 ==> accepts_anchors(
            deform_function,
            raster_dimensions(*img_src).0,
            raster_dimensions(*img_src).1,
            subresolution_factor,
            controls_dst,
            controls_src,
        ),
        forall|weights: BilinearWeights, corners: Corners<C>|
            call_requires(blend, (weights, corners)),
        forall|at: C| call_requires(floor, (&at,)),
        forall|at: C, a: V, b: V, c: V, d: V| call_requires(mix, (&at, a, b, c, d)),
    ensures
        match sparse_error(controls_src@.len(), controls_dst@.len(), subresolution_factor) {
            Some(e) => r == Err::<Raster, WarpError>(e),
            None => r matches Ok(out) && {
                &&& raster_dimensions(out) == raster_dimensions(*img_src)
                &&& exists|anchors: Seq<Seq<C>>|
                    {
                        &&& #[trigger] anchored_by(
                            anchors,
                            raster_dimensions(out).0,
                            raster_dimensions(out).1,
                            subresolution_factor,
                            controls_dst,
                            controls_src,
                            deform_function,
                        )
                        &&& forall|x: u32, y: u32|
                            x < raster_dimensions(out).0 && y < raster_dimensions(out).1
                                ==> sparse_pixel_of::<C, V, B, F, M>(
                                *img_src,
                                anchors,
                                subresolution_factor,
                                blend,
                                floor,
                                mix,
                                x,
                                y,
                                #[trigger] raster_pixels(out)[(x as int, y as int)],
                            )
                    }
            },
        },
{
    match check_controls(controls_src.len(), controls_dst.len()) {
        Err(e) => {
            return Err(e);
        },
        Ok(()) => {},
    }
    let (width, height) = img_src.dimensions();

    // the anchors are the reprojections of the subresolution grid of points
    let grid = match AnchorGrid::build(
        width,
        height,
        subresolution_factor,
        controls_dst,
        controls_src,
        &deform_function,
    ) {
        Err(e) => {
            return Err(e);
        },
        Ok(grid) => grid,
    };

    // blend the anchors bilinearly to compute the full warp
    let grid = &grid;
    let blend = &blend;
    let floor = &floor;
    let mix = &mix;
    let pixel = |x: u32, y: u32| -> (color: Color)
        requires
            x < width,
            y < height,
        ensures
            sparse_pixel_of::<C, V, B, F, M>(
                *img_src,
                grid.anchors(),
                subresolution_factor,
                *blend,
                *floor,
                *mix,
                x,
                y,
                color,
            ),
        {
            sparse_pixel(img_src, grid, blend, floor, mix, x, y)
        };
    let out = rgb_image_from_fn(width, height, pixel);
    proof {
        let anchors = grid.anchors();
        assert(anchored_by(
            anchors,
            width,
            height,
            subresolution_factor,
            controls_dst,
            controls_src,
            deform_function,
        ));
        assert forall|x: u32, y: u32| x < width && y < height implies sparse_pixel_of::<
            C,
            V,
            B,
            F,
            M,
        >(
            *img_src,
            anchors,
            subresolution_factor,
            *blend,
            *floor,
            *mix,
            x,
            y,
            #[trigger] raster_pixels(out)[(x as int, y as int)],
        ) by {
            assert(call_ensures(pixel, (x, y), raster_pixels(out)[(x as int, y as int)]));
        }
    }
    Ok(out)
}

/// A sample whose every possible cell has its footprint outside the source
/// raster gives the background colour.
pub proof fn lemma_outside_is_background<C, V, F, M>(
    img_src: Raster,
    at: C,
    floor: F,
    mix: M,
    sample: Option<Color>,
) where
    Color: CanLinearInterpolate<V, Color>,
    F: Fn(&C) -> Option<(i64, i64)>,
    M: Fn(&C, V, V, V, V) -> V,

    requires
        samples::<C, V, Color, F, M>(img_src, &at, floor, mix, sample),
        forall|cell: Option<(i64, i64)>| #[trigger]
            call_ensures(floor, (&at,), cell) ==> footprint_of(
                raster_dimensions(img_src).0,
                raster_dimensions(img_src).1,
                cell,
            ) is None,
    ensures
        sample is None,
        or_outside(sample) == color_outside(),
{
}

/// A deformation that moves nothing gives the source raster back, except
/// for the band of two pixels along the far edges, which is black. A pixel
/// is not moved when the deformed position of the pixel lies in the pixel's
/// own cell and the mixture at that position is the pixel itself.
pub proof fn lemma_still_warp_keeps_the_raster<C, V, D, F, M>(
    img_src: Raster,
    controls_src: &[C],
    controls_dst: &[C],
    deform_function: D,
    floor: F,
    mix: M,
    x: u32,
    y: u32,
    out: Color,
) where
    Color: CanLinearInterpolate<V, Color>,
    D: Fn(&[C], &[C], (u64, u64)) -> C,
    F: Fn(&C) -> Option<(i64, i64)>,
    M: Fn(&C, V, V, V, V) -> V,

    requires
        x < raster_dimensions(img_src).0,
        y < raster_dimensions(img_src).1,
        forall|at: C, cell: Option<(i64, i64)>|
            call_ensures(deform_function, (controls_dst, controls_src, (x as u64, y as u64)), at)
                && #[trigger] call_ensures(floor, (&at,), cell) ==> cell == Some(
                (x as i64, y as i64),
            ),
        forall|at: C, color: Color|
            call_ensures(deform_function, (controls_dst, controls_src, (x as u64, y as u64)), at)
                && #[trigger] mixes::<C, V, Color, M>(
                img_src,
                &at,
                mix,
                x,
                y,
                color,
            ) ==> color == raster_pixels(img_src)[(x as int, y as int)],
        dense_pixel_of::<C, V, D, F, M>(
            img_src,
            controls_src,
            controls_dst,
            deform_function,
            floor,
            mix,
            x,
            y,
            out,
        ),
    ensures
        out == if x + 2 < raster_dimensions(img_src).0 && y + 2 < raster_dimensions(img_src).1 {
            raster_pixels(img_src)[(x as int, y as int)]
        } else {
            color_outside()
        },
{
    let (at, sample) = choose|at: C, sample: Option<Color>|
        {
            &&& call_ensures(deform_function, (controls_dst, controls_src, (x as u64, y as u64)), at)
            &&& #[trigger] samples::<C, V, Color, F, M>(img_src, &at, floor, mix, sample)
            &&& out == or_outside(sample)
        };
    let cell = choose|cell: Option<(i64, i64)>| #[trigger]
        call_ensures(floor, (&at,), cell) && samples_cell::<C, V, Color, M>(
            img_src,
            &at,
            cell,
            mix,
            sample,
        );
    assert(cell == Some((x as i64, y as i64)));
}

/// Whether `blend` returns the top left anchor as it is whenever that anchor
/// carries the whole weight.
pub open spec fn exact_at_corner<C, B>(blend: B) -> bool where
    B: Fn(BilinearWeights, Corners<C>) -> C,
 {
    forall|weights: BilinearWeights, corners: Corners<C>, at: C|
        {
            &&& weights.area >= 1
            &&& weights.top_left == weights.area
            &&& weights.top_right == 0
            &&& weights.bottom_left == 0
            &&& weights.bottom_right == 0
            &&& #[trigger] call_ensures(blend, (weights, corners), at)
        } ==> at == corners.top_left
}

/// At a pixel on which an anchor stands, the sparse warper gives a pixel that
/// the dense warper may give too, provided that `blend` returns an anchor as
/// it is when the anchor carries the whole weight.
pub proof fn lemma_sparse_is_dense_at_anchors<C, V, D, B, F, M>(
    img_src: Raster,
    anchors: Seq<Seq<C>>,
    width: u32,
    height: u32,
    subresolution_factor: u32,
    controls_src: &[C],
    controls_dst: &[C],
    deform_function: D,
    blend: B,
    floor: F,
    mix: M,
    x: u32,
    y: u32,
    out: Color,
) where
    Color: CanLinearInterpolate<V, Color>,
    D: Fn(&[C], &[C], (u64, u64)) -> C,
    B: Fn(BilinearWeights, Corners<C>) -> C,
    F: Fn(&C) -> Option<(i64, i64)>,
    M: Fn(&C, V, V, V, V) -> V,

    requires
        subresolution_factor >= 1,
        x < width,
        y < height,
        x % subresolution_factor == 0,
        y % subresolution_factor == 0,
        anchored_by(
            anchors,
            width,
            height,
            subresolution_factor,
            controls_dst,
            controls_src,
            deform_function,
        ),
        exact_at_corner::<C, B>(blend),
        sparse_pixel_of::<C, V, B, F, M>(
            img_src,
            anchors,
            subresolution_factor,
            blend,
            floor,
            mix,
            x,
            y,
            out,
        ),
    ensures
        dense_pixel_of::<C, V, D, F, M>(
            img_src,
            controls_src,
            controls_dst,
            deform_function,
            floor,
            mix,
            x,
            y,
            out,
        ),
{
    let factor = subresolution_factor as int;
    let column = block_index(x as int, factor);
    let row = block_index(y as int, factor);
    lemma_block_in_grid(x as int, width as int, factor);
    lemma_block_in_grid(y as int, height as int, factor);
    lemma_block_encloses(x, y, subresolution_factor);
    vstd::arithmetic::div_mod::lemma_fundamental_div_mod(x as int, factor);
    vstd::arithmetic::div_mod::lemma_fundamental_div_mod(y as int, factor);
    let top_left = block_top_left(x, y, subresolution_factor);
    let bot_right = block_bot_right(x, y, subresolution_factor);
    assert(top_left == (x as u64, y as u64));
    lemma_weights_at_corner(top_left, bot_right);
    let weights = bilinear_weights(top_left, bot_right, (x, y));
    assert(weights.area >= 1) by (nonlinear_arith)
        requires
            weights.area == factor * factor,
            factor >= 1,
    ;
    let corners = corners_at(anchors, column, row);
    let (at, sample) = choose|at: C, sample: Option<Color>|
        {
            &&& call_ensures(blend, (weights, corners), at)
            &&& #[trigger] samples::<C, V, Color, F, M>(img_src, &at, floor, mix, sample)
            &&& out == or_outside(sample)
        };
    assert(at == corners.top_left);
    assert(corners.top_left == anchors[row][column]);
    assert(row_anchored_by(
        anchors[row],
        row,
        subresolution_factor,
        controls_dst,
        controls_src,
        deform_function,
    ));
    assert(call_ensures(
        deform_function,
        (
            controls_dst,
            controls_src,
            (anchor_position(column, factor) as u64, anchor_position(row, factor) as u64),
        ),
        anchors[row][column],
    ));
    assert(samples::<C, V, Color, F, M>(img_src, &at, floor, mix, sample));
}

/// With a subresolution factor of one, an anchor stands on every pixel, and
/// every pixel of the sparse warp is a pixel that the dense warp may give too,
/// provided that `blend` returns an anchor as it is when the anchor carries
/// the whole weight.
pub proof fn lemma_unit_factor_is_dense<C, V, D, B, F, M>(
    img_src: Raster,
    anchors: Seq<Seq<C>>,
    width: u32,
    height: u32,
    controls_src: &[C],
    controls_dst: &[C],
    deform_function: D,
    blend: B,
    floor: F,
    mix: M,
    x: u32,
    y: u32,
    out: Color,
) where
    Color: CanLinearInterpolate<V, Color>,
    D: Fn(&[C], &[C], (u64, u64)) -> C,
    B: Fn(BilinearWeights, Corners<C>) -> C,
    F: Fn(&C) -> Option<(i64, i64)>,
    M: Fn(&C, V, V, V, V) -> V,

    requires
        x < width,
        y < height,
        anchored_by(anchors, width, height, 1, controls_dst, controls_src, deform_function),
        exact_at_corner::<C, B>(blend),
        sparse_pixel_of::<C, V, B, F, M>(img_src, anchors, 1, blend, floor, mix, x, y, out),
    ensures
        dense_pixel_of::<C, V, D, F, M>(
            img_src,
            controls_src,
            controls_dst,
            deform_function,
            floor,
            mix,
            x,
            y,
            out,
        ),
{
    lemma_sparse_is_dense_at_anchors::<C, V, D, B, F, M>(
        img_src,
        anchors,
        width,
        height,
        1,
        controls_src,
        controls_dst,
        deform_function,
        blend,
        floor,
        mix,
        x,
        y,
        out,
    );
}

/// Whether `deform_function` returns one point for a pixel position and the
/// two control sets.
pub open spec fn deformation_is_single_valued<C, D>(
    controls_p: &[C],
    controls_q: &[C],
    deform_function: D,
) -> bool where D: Fn(&[C], &[C], (u64, u64)) -> C {
    forall|at: (u64, u64), a: C, b: C|
        #[trigger] call_ensures(deform_function, (controls_p, controls_q, at), a)
            && #[trigger] call_ensures(deform_function, (controls_p, controls_q, at), b) ==> a
            == b
}

/// With single-valued functions the dense warp has one result: a pixel is
/// painted in one colour.
pub proof fn lemma_dense_pixel_is_unique<C, V, D, F, M>(
    img_src: Raster,
    controls_src: &[C],
    controls_dst: &[C],
    deform_function: D,
    floor: F,
    mix: M,
    x: u32,
    y: u32,
    first: Color,
    second: Color,
) where
    Color: CanLinearInterpolate<V, Color>,
    D: Fn(&[C], &[C], (u64, u64)) -> C,
    F: Fn(&C) -> Option<(i64, i64)>,
    M: Fn(&C, V, V, V, V) -> V,

    requires
        deformation_is_single_valued(controls_dst, controls_src, deform_function),
        sampling_is_single_valued::<C, V, Color, F, M>(floor, mix),
        dense_pixel_of::<C, V, D, F, M>(
            img_src,
            controls_src,
            controls_dst,
            deform_function,
            floor,
            mix,
            x,
            y,
            first,
        ),
        dense_pixel_of::<C, V, D, F, M>(
            img_src,
            controls_src,
            controls_dst,
            deform_function,
            floor,
            mix,
            x,
            y,
            second,
        ),
    ensures
        first == second,
{
    let (at_1, sample_1) = choose|at: C, sample: Option<Color>|
        {
            &&& call_ensures(deform_function, (controls_dst, controls_src, (x as u64, y as u64)), at)
            &&& #[trigger] samples::<C, V, Color, F, M>(img_src, &at, floor, mix, sample)
            &&& first == or_outside(sample)
        };
    let (at_2, sample_2) = choose|at: C, sample: Option<Color>|
        {
            &&& call_ensures(deform_function, (controls_dst, controls_src, (x as u64, y as u64)), at)
            &&& #[trigger] samples::<C, V, Color, F, M>(img_src, &at, floor, mix, sample)
            &&& second == or_outside(sample)
        };
    assert(at_1 == at_2);
    lemma_sample_is_unique::<C, V, Color, F, M>(img_src, at_1, floor, mix, sample_1, sample_2);
}

/// With a subresolution factor of one the sparse warp and the dense warp
/// paint every pixel alike, provided that the functions they are computed
/// with are single-valued and that `blend` returns an anchor as it is when
/// the anchor carries the whole weight.
pub proof fn lemma_unit_factor_equals_dense<C, V, D, B, F, M>(
    img_src: Raster,
    anchors: Seq<Seq<C>>,
    width: u32,
    height: u32,
    controls_src: &[C],
    controls_dst: &[C],
    deform_function: D,
    blend: B,
    floor: F,
    mix: M,
    x: u32,
    y: u32,
    sparse: Color,
    dense: Color,
) where
    Color: CanLinearInterpolate<V, Color>,
    D: Fn(&[C], &[C], (u64, u64)) -> C,
    B: Fn(BilinearWeights, Corners<C>) -> C,
    F: Fn(&C) -> Option<(i64, i64)>,
    M: Fn(&C, V, V, V, V) -> V,

    requires
        x < width,
        y < height,
        deformation_is_single_valued(controls_dst, controls_src, deform_function),
        sampling_is_single_valued::<C, V, Color, F, M>(floor, mix),
        exact_at_corner::<C, B>(blend),
        anchored_by(anchors, width, height, 1, controls_dst, controls_src, deform_function),
        sparse_pixel_of::<C, V, B, F, M>(img_src, anchors, 1, blend, floor, mix, x, y, sparse),
        dense_pixel_of::<C, V, D, F, M>(
            img_src,
            controls_src,
            controls_dst,
            deform_function,
            floor,
            mix,
            x,
            y,
            dense,
        ),
    ensures
        sparse == dense,
{
    lemma_unit_factor_is_dense::<C, V, D, B, F, M>(
        img_src,
        anchors,
        width,
        height,
        controls_src,
        controls_dst,
        deform_function,
        blend,
        floor,
        mix,
        x,
        y,
        sparse,
    );
    lemma_dense_pixel_is_unique::<C, V, D, F, M>(
        img_src,
        controls_src,
        controls_dst,
        deform_function,
        floor,
        mix,
        x,
        y,
        sparse,
        dense,
    );
}

} // verus!
