//! The decoded image: a rectangular grid of RGBA pixels, held by the `image`
//! crate's buffer and read through a small set of contracts.

use vstd::prelude::*;

verus! {

/// One pixel: red, green, blue and alpha intensity.
#[derive(Clone, Copy, Debug, PartialEq, Eq, Structural)]
pub struct Rgba {
    pub red: u8,
    pub green: u8,
    pub blue: u8,
    pub alpha: u8,
}

/// An immutable RGBA image, origin at the top-left corner, stored row by row.
///
/// The pixels live in an `image::RgbaImage`. Verus does not look inside it:
/// what it holds is named by [`raster_width`], [`raster_height`] and
/// [`raster_samples`], and every fact about those names comes from the
/// contracts of the four private functions at the end of this file.
#[verifier::external_body]
pub struct Raster {
    inner: image::RgbaImage,
}

/// The number of pixels in one row of the buffer.
pub uninterp spec fn raster_width(r: Raster) -> nat;

/// The number of rows of the buffer.
pub uninterp spec fn raster_height(r: Raster) -> nat;

/// The channel samples of the buffer's pixels in storage order: row after
/// row, pixel after pixel, and red, green, blue, alpha within each pixel.
pub uninterp spec fn raster_samples(r: Raster) -> Seq<u8>;

/// Where the red sample of pixel `(x, y)` stands in a row-major RGBA buffer
/// of the given width.
pub open spec fn sample_offset(width: nat, x: int, y: int) -> int {
    4 * (y * width + x)
}

/// The pixel that four consecutive samples starting at `at` make up.
pub open spec fn pixel_from(samples: Seq<u8>, at: int) -> Rgba {
    Rgba { red: samples[at], green: samples[at + 1], blue: samples[at + 2], alpha: samples[at + 3] }
}

impl Raster {
    /// Width in pixels.
    pub open spec fn spec_width(&self) -> nat {
        raster_width(*self)
    }

    /// Height in pixels.
    pub open spec fn spec_height(&self) -> nat {
        raster_height(*self)
    }

    /// The pixel in column `x` of row `y`.
    pub open spec fn spec_pixel(&self, x: int, y: int) -> Rgba {
        pixel_from(raster_samples(*self), sample_offset(raster_width(*self), x, y))
    }

    /// Builds an image from its dimensions and its samples in row-major RGBA
    /// order. The buffer must hold at least `4 * width * height` samples, and
    /// the length of one row must fit the machine's address range; samples
    /// beyond the image are not part of it.
    pub fn from_raw(width: u32, height: u32, data: Vec<u8>) -> (r: Option<Raster>)
        ensures
            r is Some <==> (4 * width <= usize::MAX && 4 * width * height <= data@.len()),
            r is Some ==> {
                &&& r->0.spec_width() == width
                &&& r->0.spec_height() == height
                &&& raster_samples(r->0) == data@.take(4 * width * height)
            },
    {
        buffer_from_raw(width, height, data)
    }

    /// Width in pixels.
    pub fn width(&self) -> (w: u32)
        ensures
            w == self.spec_width(),
    {
        buffer_width(self)
    }

    /// Height in pixels.
    pub fn height(&self) -> (h: u32)
        ensures
            h == self.spec_height(),
    {
        buffer_height(self)
    }

    /// The pixel in column `x` of row `y`.
    pub fn pixel(&self, x: u32, y: u32) -> (p: Rgba)
        requires
            x < self.spec_width(),
            y < self.spec_height(),
        ensures
            p == self.spec_pixel(x as int, y as int),
    {
        buffer_pixel(self, x, y)
    }
}

/// `image::ImageBuffer::from_raw`: accepts the buffer exactly when the sample
/// count `4 * width * height` can be computed in `usize`, first times the
/// width and then times the height, and the buffer holds at least that many
/// samples; it then keeps the dimensions as given and the samples in the
/// order given.
#[verifier::external_body]
fn buffer_from_raw(width: u32, height: u32, data: Vec<u8>) -> (r: Option<Raster>)
    ensures
        r is Some <==> (4 * width <= usize::MAX && 4 * width * height <= data@.len()),
        r is Some ==> {
            &&& raster_width(r->0) == width
            &&& raster_height(r->0) == height
            &&& raster_samples(r->0) == data@.take(4 * width * height)
        },
{
    match image::RgbaImage::from_raw(width, height, data) {
        Some(inner) => Some(Raster { inner }),
        None => None,
    }
}

/// `image::ImageBuffer::width`: the width the buffer was made with.
#[verifier::external_body]
fn buffer_width(r: &Raster) -> (w: u32)
    ensures
        w == raster_width(*r),
{
    r.inner.width()
}

/// `image::ImageBuffer::height`: the height the buffer was made with.
#[verifier::external_body]
fn buffer_height(r: &Raster) -> (h: u32)
    ensures
        h == raster_height(*r),
{
    r.inner.height()
}

/// `image::ImageBuffer::get_pixel`: for a position inside the image (outside
/// it the call panics), the four samples that start at offset
/// `4 * (y * width + x)` of the buffer.
#[verifier::external_body]
fn buffer_pixel(r: &Raster, x: u32, y: u32) -> (p: Rgba)
    requires
        x < raster_width(*r),
        y < raster_height(*r),
    ensures
        p == pixel_from(raster_samples(*r), sample_offset(raster_width(*r), x as int, y as int)),
{
    let px = r.inner.get_pixel(x, y).0;
    Rgba { red: px[0], green: px[1], blue: px[2], alpha: px[3] }
}

} // verus!
