//! Decoded images: what this library reads of the `image` crate's types, and
//! the grid of pixels that stands for an image in contracts.

use crate::color::Color;
use vstd::prelude::*;

verus! {

/// `image::Rgba`: one pixel, whose only field is the array of its channels in
/// the order red, green, blue, alpha. The field is public, so the type is
/// declared with it and nothing is assumed of what a pixel holds.
#[verifier::external_type_specification]
#[verifier::reject_recursive_types(T)]
pub struct ExRgba<T>(image::Rgba<T>);

/// `image::DynamicImage`: a decoded image in any of the crate's pixel
/// formats. Nothing inside it is visible here; `decoded_width`,
/// `decoded_height` and `decoded_samples` name what is read of it.
#[verifier::external_type_specification]
#[verifier::external_body]
pub struct ExDynamicImage(image::DynamicImage);

/// An `image::RgbaImage`: rows of pixels from the top, each row from the
/// left, each pixel four samples of eight bits. Nothing inside it is visible
/// here; `buffer_width`, `buffer_height` and `buffer_samples` name what it
/// holds, and only `to_rgba8` makes one.
#[verifier::external_body]
pub struct RgbaBuffer {
    inner: image::RgbaImage,
}

/// The number of pixels in each row of the buffer.
pub uninterp spec fn buffer_width(buffer: RgbaBuffer) -> u32;

/// The number of rows of the buffer.
pub uninterp spec fn buffer_height(buffer: RgbaBuffer) -> u32;

/// The samples of the buffer's pixels, row by row from the top, within a row
/// from the left, within a pixel red, green, blue, alpha.
pub uninterp spec fn buffer_samples(buffer: RgbaBuffer) -> Seq<u8>;

/// The width of a decoded image.
pub uninterp spec fn decoded_width(image: image::DynamicImage) -> u32;

/// The height of a decoded image.
pub uninterp spec fn decoded_height(image: image::DynamicImage) -> u32;

/// The samples of a decoded image once its pixels are converted to RGBA with
/// eight bits for each channel, in the order of `buffer_samples`. The
/// conversion reads the image and nothing else.
pub uninterp spec fn decoded_samples(image: image::DynamicImage) -> Seq<u8>;

/// An image in contracts: its dimensions and its samples, four for each pixel,
/// row by row.
pub struct PixelGrid {
    pub width: nat,
    pub height: nat,
    pub samples: Seq<u8>,
}

impl PixelGrid {
    /// Whether `(x, y)` names a pixel of the grid.
    pub open spec fn contains(self, x: int, y: int) -> bool {
        0 <= x < self.width && 0 <= y < self.height
    }

    /// Where the four samples of pixel `(x, y)` start.
    pub open spec fn offset(self, x: int, y: int) -> int {
        4 * (y * self.width + x)
    }

    /// The color of pixel `(x, y)`.
    pub open spec fn pixel(self, x: int, y: int) -> Color {
        let at = self.offset(x, y);
        Color {
            r: self.samples[at],
            g: self.samples[at + 1],
            b: self.samples[at + 2],
            a: self.samples[at + 3],
        }
    }

    /// Whether pixel `(x, y)` takes part in the output: its alpha reaches the
    /// threshold.
    pub open spec fn opaque_at(self, x: int, y: int, threshold: u8) -> bool {
        self.pixel(x, y).a >= threshold
    }
}

impl View for RgbaBuffer {
    type V = PixelGrid;

    open spec fn view(&self) -> PixelGrid {
        PixelGrid {
            width: buffer_width(*self) as nat,
            height: buffer_height(*self) as nat,
            samples: buffer_samples(*self),
        }
    }
}

/// The grid of a decoded image after conversion to RGBA with eight bits for
/// each channel.
pub open spec fn decoded_grid(image: image::DynamicImage) -> PixelGrid {
    PixelGrid {
        width: decoded_width(image) as nat,
        height: decoded_height(image) as nat,
        samples: decoded_samples(image),
    }
}

/// `DynamicImage::width` returns the width of the image.
#[verifier::external_body]
pub(crate) fn image_width(image: &image::DynamicImage) -> (w: u32)
    ensures
        w == decoded_width(*image),
{
    image.width()
}

/// `DynamicImage::height` returns the height of the image.
#[verifier::external_body]
pub(crate) fn image_height(image: &image::DynamicImage) -> (h: u32)
    ensures
        h == decoded_height(*image),
{
    image.height()
}

/// `DynamicImage::to_rgba8` copies the image into a buffer of RGBA samples of
/// eight bits. The copy has the dimensions of the image, and its samples are
/// those that the conversion gives for the image's pixels.
#[verifier::external_body]
pub(crate) fn to_rgba8(image: &image::DynamicImage) -> (buffer: RgbaBuffer)
    ensures
        buffer_width(buffer) == decoded_width(*image),
        buffer_height(buffer) == decoded_height(*image),
        buffer_samples(buffer) == decoded_samples(*image),
{
    RgbaBuffer { inner: image.to_rgba8() }
}

/// `ImageBuffer::dimensions` returns the buffer's width and height.
#[verifier::external_body]
pub(crate) fn dimensions(buffer: &RgbaBuffer) -> (d: (u32, u32))
    ensures
        d.0 == buffer_width(*buffer),
        d.1 == buffer_height(*buffer),
{
    buffer.inner.dimensions()
}

/// `ImageBuffer::get_pixel` borrows the pixel at `(x, y)`: its channels are
/// the four samples that start at offset `4 * (y * width + x)`. It panics
/// outside the buffer's bounds, which `requires` leaves out.
#[verifier::external_body]
pub(crate) fn get_pixel(buffer: &RgbaBuffer, x: u32, y: u32) -> (pixel: &image::Rgba<u8>)
    requires
        x < buffer_width(*buffer),
        y < buffer_height(*buffer),
    ensures
        pixel.0[0] == buffer_samples(*buffer)[4 * (y * buffer_width(*buffer) + x)],
        pixel.0[1] == buffer_samples(*buffer)[4 * (y * buffer_width(*buffer) + x) + 1],
        pixel.0[2] == buffer_samples(*buffer)[4 * (y * buffer_width(*buffer) + x) + 2],
        pixel.0[3] == buffer_samples(*buffer)[4 * (y * buffer_width(*buffer) + x) + 3],
{
    buffer.inner.get_pixel(x, y)
}

} // verus!
