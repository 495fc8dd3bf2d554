//! Bilinear sampling of a raster at a continuous coordinate.
//!
//! A coordinate is a value of any type `C`. Two functions interpret it: `floor`
//! gives the integer cell that holds it, and `mix` averages the four pixels at
//! the corners of that cell by the coordinate's position inside the cell.

use vstd::prelude::*;
use crate::raster::{Color, Raster, image_get_pixel, raster_dimensions, raster_pixels};

verus! {

/// Pixels that can be averaged: a pixel becomes a vector, vectors are mixed,
/// and the mixture becomes an output value again.
///
/// `Vector` is the intermediate type of the interpolation, `Output` the type
/// obtained from the interpolated vector.
pub trait CanLinearInterpolate<Vector, Output> {
    /// The pixel as a vector.
    fn into_vector(self) -> Vector;

    /// The output value that stands for a vector, clamped and rounded as the
    /// output type needs.
    fn from_vector(v: Vector) -> Output;
}

/// A pixel of three channels is averaged channel by channel: its vector is
/// the triple of the channels' vectors, and the output that stands for a
/// vector is the triple of the outputs that stand for its components.
impl<V, O, T: CanLinearInterpolate<V, O>> CanLinearInterpolate<(V, V, V), (O, O, O)> for (T, T, T) {
    fn into_vector(self) -> (v: (V, V, V))
        ensures
            call_ensures(<T as CanLinearInterpolate<V, O>>::into_vector, (self.0,), v.0),
            call_ensures(<T as CanLinearInterpolate<V, O>>::into_vector, (self.1,), v.1),
            call_ensures(<T as CanLinearInterpolate<V, O>>::into_vector, (self.2,), v.2),
    {
        (self.0.into_vector(), self.1.into_vector(), self.2.into_vector())
    }

    fn from_vector(v: (V, V, V)) -> (out: (O, O, O))
        ensures
            call_ensures(<T as CanLinearInterpolate<V, O>>::from_vector, (v.0,), out.0),
            call_ensures(<T as CanLinearInterpolate<V, O>>::from_vector, (v.1,), out.1),
            call_ensures(<T as CanLinearInterpolate<V, O>>::from_vector, (v.2,), out.2),
    {
        (T::from_vector(v.0), T::from_vector(v.1), T::from_vector(v.2))
    }
}

/// The top left pixel of the four that a sample in `cell` reads, if the raster
/// holds all four with a margin of one pixel towards the far edges.
///
/// `cell` is the integer cell of the sampled coordinate, absent when the
/// coordinate has none. A raster of `width` by `height` pixels is sampled only
/// in the cells `0 <= u < width - 2`, `0 <= v < height - 2`.
pub open spec fn footprint_of(
    width: u32,
    height: u32,
    cell: Option<(i64, i64)>,
) -> Option<(u32, u32)> {
    match cell {
        Some((u, v)) => if 0 <= u < width - 2 && 0 <= v < height - 2 {
            Some((u as u32, v as u32))
        } else {
            None
        },
        None => None,
    }
}

/// Decides whether a sample in `cell` lies inside a raster of `width` by
/// `height` pixels, and if so gives the top left pixel of the four it reads.
/// All four are pixels of the raster.
pub fn footprint(width: u32, height: u32, cell: Option<(i64, i64)>) -> (r: Option<(u32, u32)>)
    ensures
        r == footprint_of(width, height, cell),
        r matches Some((u, v)) ==> u + 1 < width && v + 1 < height,
{
    match cell {
        Some((u, v)) => {
            let inside_columns = width >= 2 && 0 <= u && u < (width - 2) as i64;
            let inside_rows = height >= 2 && 0 <= v && v < (height - 2) as i64;
            if inside_columns && inside_rows {
                Some((u as u32, v as u32))
            } else {
                None
            }
        },
        None => None,
    }
}

/// Whether `out` is mixed, at the coordinate `at`, from the four pixels of
/// `img` whose top left one is `(u, v)` by way of the given vectors: each
/// pixel is turned into its vector, `mix` combines the four vectors in the
/// order top left, top right, bottom left, bottom right into `m`, and `m` is
/// turned into the output value.
pub open spec fn mixes_through<C, V, O, M>(
    img: Raster,
    at: &C,
    mix: M,
    u: u32,
    v: u32,
    v00: V,
    v10: V,
    v01: V,
    v11: V,
    m: V,
    out: O,
) -> bool where Color: CanLinearInterpolate<V, O>, M: Fn(&C, V, V, V, V) -> V {
    &&& call_ensures(
        <Color as CanLinearInterpolate<V, O>>::into_vector,
        (raster_pixels(img)[(u as int, v as int)],),
        v00,
    )
    &&& call_ensures(
        <Color as CanLinearInterpolate<V, O>>::into_vector,
        (raster_pixels(img)[(u + 1, v as int)],),
        v10,
    )
    &&& call_ensures(
        <Color as CanLinearInterpolate<V, O>>::into_vector,
        (raster_pixels(img)[(u as int, v + 1)],),
        v01,
    )
    &&& call_ensures(
        <Color as CanLinearInterpolate<V, O>>::into_vector,
        (raster_pixels(img)[(u + 1, v + 1)],),
        v11,
    )
    &&& call_ensures(mix, (at, v00, v10, v01, v11), m)
    &&& call_ensures(<Color as CanLinearInterpolate<V, O>>::from_vector, (m,), out)
}

/// Whether `out` is a mixture, at the coordinate `at`, of the four pixels of
/// `img` whose top left one is `(u, v)`.
pub open spec fn mixes<C, V, O, M>(
    img: Raster,
    at: &C,
    mix: M,
    u: u32,
    v: u32,
    out: O,
) -> bool where Color: CanLinearInterpolate<V, O>, M: Fn(&C, V, V, V, V) -> V {
    exists|v00: V, v10: V, v01: V, v11: V, m: V| #[trigger]
        mixes_through::<C, V, O, M>(img, at, mix, u, v, v00, v10, v01, v11, m, out)
}

/// Whether `out` is what sampling `img` in `cell` at the coordinate `at`
/// gives: nothing where the footprint of the cell is not inside the raster,
/// and a mixture of the four pixels of the footprint where it is.
pub open spec fn samples_cell<C, V, O, M>(
    img: Raster,
    at: &C,
    cell: Option<(i64, i64)>,
    mix: M,
    out: Option<O>,
) -> bool where Color: CanLinearInterpolate<V, O>, M: Fn(&C, V, V, V, V) -> V {
    match footprint_of(raster_dimensions(img).0, raster_dimensions(img).1, cell) {
        Some((u, v)) => out matches Some(o) && mixes::<C, V, O, M>(img, at, mix, u, v, o),
        None => out is None,
    }
}

/// Whether `out` is what sampling `img` at the coordinate `at` gives, the
/// cell of `at` being one that `floor` returns for it.
pub open spec fn samples<C, V, O, F, M>(
    img: Raster,
    at: &C,
    floor: F,
    mix: M,
    out: Option<O>,
) -> bool where
    Color: CanLinearInterpolate<V, O>,
    F: Fn(&C) -> Option<(i64, i64)>,
    M: Fn(&C, V, V, V, V) -> V,
 {
    exists|cell: Option<(i64, i64)>| #[trigger]
        call_ensures(floor, (at,), cell) && samples_cell::<C, V, O, M>(img, at, cell, mix, out)
}

/// Whether the functions that a sample is computed with are single-valued:
/// `floor`, `mix` and the two conversions of a pixel return one value for
/// given arguments.
pub open spec fn sampling_is_single_valued<C, V, O, F, M>(floor: F, mix: M) -> bool where
    Color: CanLinearInterpolate<V, O>,
    F: Fn(&C) -> Option<(i64, i64)>,
    M: Fn(&C, V, V, V, V) -> V,
 {
    &&& forall|at: C, a: Option<(i64, i64)>, b: Option<(i64, i64)>|
        #[trigger] call_ensures(floor, (&at,), a) && #[trigger] call_ensures(floor, (&at,), b)
            ==> a == b
    &&& forall|at: C, v00: V, v10: V, v01: V, v11: V, a: V, b: V|
        #[trigger] call_ensures(mix, (&at, v00, v10, v01, v11), a) && #[trigger] call_ensures(
            mix,
            (&at, v00, v10, v01, v11),
            b,
        ) ==> a == b
    &&& forall|pixel: Color, a: V, b: V|
        #[trigger] call_ensures(<Color as CanLinearInterpolate<V, O>>::into_vector, (pixel,), a)
            && #[trigger] call_ensures(
            <Color as CanLinearInterpolate<V, O>>::into_vector,
            (pixel,),
            b,
        ) ==> a == b
    &&& forall|m: V, a: O, b: O|
        #[trigger] call_ensures(<Color as CanLinearInterpolate<V, O>>::from_vector, (m,), a)
            && #[trigger] call_ensures(
            <Color as CanLinearInterpolate<V, O>>::from_vector,
            (m,),
            b,
        ) ==> a == b
}

/// With single-valued functions a coordinate has one sample.
pub proof fn lemma_sample_is_unique<C, V, O, F, M>(
    img: Raster,
    at: C,
    floor: F,
    mix: M,
    first: Option<O>,
    second: Option<O>,
) where
    Color: CanLinearInterpolate<V, O>,
    F: Fn(&C) -> Option<(i64, i64)>,
    M: Fn(&C, V, V, V, V) -> V,

    requires
        sampling_is_single_valued::<C, V, O, F, M>(floor, mix),
        samples::<C, V, O, F, M>(img, &at, floor, mix, first),
        samples::<C, V, O, F, M>(img, &at, floor, mix, second),
    ensures
        first == second,
{
    let cell_1 = choose|cell: Option<(i64, i64)>| #[trigger]
        call_ensures(floor, (&at,), cell) && samples_cell::<C, V, O, M>(
            img,
            &at,
            cell,
            mix,
            first,
        );
    let cell_2 = choose|cell: Option<(i64, i64)>| #[trigger]
        call_ensures(floor, (&at,), cell) && samples_cell::<C, V, O, M>(
            img,
            &at,
            cell,
            mix,
            second,
        );
    assert(cell_1 == cell_2);
    match footprint_of(raster_dimensions(img).0, raster_dimensions(img).1, cell_1) {
        Some((u, v)) => {
            let o_1 = first->Some_0;
            let o_2 = second->Some_0;
            let (a00, a10, a01, a11, a) = choose|v00: V, v10: V, v01: V, v11: V, m: V| #[trigger]
                mixes_through::<C, V, O, M>(img, &at, mix, u, v, v00, v10, v01, v11, m, o_1);
            let (b00, b10, b01, b11, b) = choose|v00: V, v10: V, v01: V, v11: V, m: V| #[trigger]
                mixes_through::<C, V, O, M>(img, &at, mix, u, v, v00, v10, v01, v11, m, o_2);
            assert(a00 == b00 && a10 == b10 && a01 == b01 && a11 == b11);
            assert(a == b);
            assert(o_1 == o_2);
        },
        None => {},
    }
}

/// Samples `img` in the given cell: mixes the four pixels of the cell's
/// footprint at the coordinate `at`, or returns nothing when the footprint is
/// not inside the raster. No pixel outside the raster is read.
pub fn bilinear_in_cell<C, V, O, M>(
    img: &Raster,
    at: &C,
    cell: Option<(i64, i64)>,
    mix: &M,
) -> (r: Option<O>) where Color: CanLinearInterpolate<V, O>, M: Fn(&C, V, V, V, V) -> V
    requires
        forall|a: V, b: V, c: V, d: V| call_requires(*mix, (at, a, b, c, d)),
    ensures
        samples_cell::<C, V, O, M>(*img, at, cell, *mix, r),
        r is Some <==> footprint_of(
            raster_dimensions(*img).0,
            raster_dimensions(*img).1,
            cell,
        ) is Some,
{
    let (width, height) = img.dimensions();
    match footprint(width, height, cell) {
        Some((u_0, v_0)) => {
            let u_1 = u_0 + 1;
            let v_1 = v_0 + 1;
            let uv_00 = image_get_pixel(img, u_0, v_0).into_vector();
            let uv_10 = image_get_pixel(img, u_1, v_0).into_vector();
            let uv_01 = image_get_pixel(img, u_0, v_1).into_vector();
            let uv_11 = image_get_pixel(img, u_1, v_1).into_vector();
            let interp = mix(at, uv_00, uv_10, uv_01, uv_11);
            let out = <Color as CanLinearInterpolate<V, O>>::from_vector(interp);
            proof {
                assert(mixes_through::<C, V, O, M>(
                    *img,
                    at,
                    *mix,
                    u_0,
                    v_0,
                    uv_00,
                    uv_10,
                    uv_01,
                    uv_11,
                    interp,
                    out,
                ));
            }
            Some(out)
        },
        None => None,
    }
}

/// Simple bilinear interpolation of a pixel at a continuous coordinate.
///
/// The cell of the coordinate comes from `floor`. Where the footprint of that
/// cell is inside the raster the result is the mixture of its four pixels;
/// elsewhere, and where the coordinate has no cell, there is no result.
pub fn bilinear<C, V, O, F, M>(img: &Raster, at: &C, floor: &F, mix: &M) -> (r: Option<O>) where
    Color: CanLinearInterpolate<V, O>,
    F: Fn(&C) -> Option<(i64, i64)>,
    M: Fn(&C, V, V, V, V) -> V,

    requires
        call_requires(*floor, (at,)),
        forall|a: V, b: V, c: V, d: V| call_requires(*mix, (at, a, b, c, d)),
    ensures
        samples::<C, V, O, F, M>(*img, at, *floor, *mix, r),
{
    let cell = floor(at);
    let r = bilinear_in_cell(img, at, cell, mix);
    proof {
        assert(call_ensures(*floor, (at,), cell));
    }
    r
}

} // verus!
