//! Rasters: RGB images with 8 bits per channel, held in an image buffer of the
//! `image` crate.

use vstd::prelude::*;

verus! {

/// One RGB pixel: red, green, blue.
pub type Color = (u8, u8, u8);

/// An RGB image with 8 bits per channel.
///
/// The pixels live in an `image::RgbImage`, which the verifier does not look
/// into: what it knows of a raster are `raster_dimensions` and
/// `raster_pixels`, and what the functions below state about them.
#[verifier::external_body]
#[derive(Debug, PartialEq, Eq)]
pub struct Raster {
    image: image::RgbImage,
}

/// Width and height of a raster, in pixels.
pub uninterp spec fn raster_dimensions(raster: Raster) -> (u32, u32);

/// The pixels of a raster, by column `x` and row `y`.
pub uninterp spec fn raster_pixels(raster: Raster) -> Map<(int, int), Color>;

/// Whether a buffer of `width` by `height` RGB pixels can be allocated: its
/// three bytes per pixel must not exceed the largest size of an allocation.
pub open spec fn fits_in_memory(width: u32, height: u32) -> bool {
    3 * width * height <= isize::MAX
}

/// `ImageBuffer::dimensions`: the width and height that the buffer was made
/// with.
///
/// The contract adds that a buffer of these dimensions fits in memory. Every
/// raster comes from `rgb_image_from_fn`, where `ImageBuffer::new` allocated a
/// vector of `3 * width * height` bytes for it, and no vector is larger than
/// `isize::MAX` bytes.
#[verifier::external_body]
fn image_dimensions(raster: &Raster) -> (d: (u32, u32))
    ensures
        d == raster_dimensions(*raster),
        fits_in_memory(d.0, d.1),
{
    raster.image.dimensions()
}

/// `ImageBuffer::get_pixel`: the pixel in column `x` of row `y`, its three
/// channels in the order red, green, blue. The method panics outside the
/// image, which the precondition excludes.
#[verifier::external_body]
pub(crate) fn image_get_pixel(raster: &Raster, x: u32, y: u32) -> (p: Color)
    requires
        x < raster_dimensions(*raster).0,
        y < raster_dimensions(*raster).1,
    ensures
        p == raster_pixels(*raster)[(x as int, y as int)],
{
    let p = raster.image.get_pixel(x, y);
    (p.0[0], p.0[1], p.0[2])
}

/// `ImageBuffer::from_fn`: a new image of the given dimensions in which
/// every pixel is a value that `f` returned for the pixel's column and row.
/// The method panics when the buffer would be too large to allocate, which
/// the precondition excludes; it calls `f` for pixels of the image only.
#[verifier::external_body]
pub(crate) fn rgb_image_from_fn<F>(width: u32, height: u32, f: F) -> (raster: Raster) where
    F: Fn(u32, u32) -> Color,

    requires
        fits_in_memory(width, height),
        forall|x: u32, y: u32| x < width && y < height ==> call_requires(f, (x, y)),
    ensures
        raster_dimensions(raster) == (width, height),
        forall|x: u32, y: u32|
            x < width && y < height ==> call_ensures(
                f,
                (x, y),
                #[trigger] raster_pixels(raster)[(x as int, y as int)],
            ),
{
    Raster {
        image: image::RgbImage::from_fn(
            width,
            height,
            |x, y|
                {
                    let (r, g, b) = f(x, y);
                    image::Rgb([r, g, b])
                },
        ),
    }
}

impl Raster {
    /// Builds a raster of the given dimensions whose pixel in column `x` of
    /// row `y` is `f(x, y)`. Returns nothing when a raster of these
    /// dimensions would not fit in memory.
    pub fn from_fn<F>(width: u32, height: u32, f: F) -> (r: Option<Raster>) where
        F: Fn(u32, u32) -> Color,

        requires
            forall|x: u32, y: u32| x < width && y < height ==> call_requires(f, (x, y)),
        ensures
            r is Some <==> fits_in_memory(width, height),
            r matches Some(raster) ==> {
                &&& raster_dimensions(raster) == (width, height)
                &&& forall|x: u32, y: u32|
                    x < width && y < height ==> call_ensures(
                        f,
                        (x, y),
                        #[trigger] raster_pixels(raster)[(x as int, y as int)],
                    )
            },
    {
        let limit: u64 = (isize::MAX as u64) / 3;
        let pixels: u64 = {
            assert(width * height <= u64::MAX) by (nonlinear_arith)
                requires
                    width <= u32::MAX,
                    height <= u32::MAX,
            ;
            width as u64 * height as u64
        };
        if pixels <= limit {
            assert(3 * width * height == 3 * (width * height)) by (nonlinear_arith);
            Some(rgb_image_from_fn(width, height, f))
        } else {
            assert(3 * width * height == 3 * (width * height)) by (nonlinear_arith);
            None
        }
    }

    /// Width and height of the raster. A raster of these dimensions fits in
    /// memory, since this one does.
    pub fn dimensions(&self) -> (d: (u32, u32))
        ensures
            d == raster_dimensions(*self),
            fits_in_memory(d.0, d.1),
    {
        image_dimensions(self)
    }

    /// The pixel in column `x` of row `y`, or nothing when the raster has no
    /// such pixel.
    pub fn get_pixel(&self, x: u32, y: u32) -> (p: Option<Color>)
        ensures
            p == if x < raster_dimensions(*self).0 && y < raster_dimensions(*self).1 {
                Some(raster_pixels(*self)[(x as int, y as int)])
            } else {
                None
            },
    {
        let (width, height) = image_dimensions(self);
        if x < width && y < height {
            Some(image_get_pixel(self, x, y))
        } else {
            None
        }
    }
}

} // verus!
