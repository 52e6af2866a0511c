//! The canvas: the raster of colours that the collector fills in.
//!
//! The pixels live in an `image::RgbImage`, three bytes each. Verified code
//! reaches them only through the few functions at the top of this file, whose
//! contracts say what the `image` crate does and are taken on trust. They are
//! stated over the sequence of pixels of the image, row by row, and over its
//! extents.

use vstd::prelude::*;
use crate::raster::{lemma_pixel_id_roundtrip, pixel_id};

verus! {

/// A raster of 8-bit RGB pixels, kept in an `image::RgbImage`.
#[verifier::external_body]
pub struct Canvas {
    image: image::RgbImage,
}

/// The pixels that the image of a canvas holds, row by row, each as
/// `(red, green, blue)`.
pub uninterp spec fn canvas_pixels(canvas: Canvas) -> Seq<(u8, u8, u8)>;

/// Width and height that the image of a canvas was made with.
pub uninterp spec fn canvas_extent(canvas: Canvas) -> (nat, nat);

/// Calls `image::ImageBuffer::new`, which allocates `3 * width * height`
/// zero bytes for an image of the given extents: every pixel is black. It
/// panics where `3 * width` or `3 * width * height` overflows `usize`, or
/// where the bytes are more than a vector can hold, which the precondition
/// rules out.
#[verifier::external_body]
fn image_new(width: u32, height: u32) -> (canvas: Canvas)
    requires
        3 * width <= usize::MAX,
        3 * (width * height) <= isize::MAX,
    ensures
        canvas_extent(canvas) == (width as nat, height as nat),
        canvas_pixels(canvas) == Seq::new((width * height) as nat, |i: int| (0u8, 0u8, 0u8)),
{
    Canvas { image: image::RgbImage::new(width, height) }
}

/// Calls `image::ImageBuffer::dimensions`, which returns the width and the
/// height that the image was made with.
#[verifier::external_body]
fn image_dimensions(canvas: &Canvas) -> (extent: (u32, u32))
    ensures
        extent.0 == canvas_extent(*canvas).0,
        extent.1 == canvas_extent(*canvas).1,
{
    canvas.image.dimensions()
}

/// Calls `image::ImageBuffer::put_pixel`, which overwrites the pixel in
/// column `x` of row `y`, that is pixel number `y * width + x`, and leaves
/// every other pixel and the extents alone. It panics for a pixel outside
/// the image, which the precondition rules out.
#[verifier::external_body]
fn image_put_pixel(canvas: &mut Canvas, x: u32, y: u32, rgb: (u8, u8, u8))
    requires
        x < canvas_extent(*old(canvas)).0,
        y < canvas_extent(*old(canvas)).1,
    ensures
        canvas_extent(*final(canvas)) == canvas_extent(*old(canvas)),
        canvas_pixels(*final(canvas)) == canvas_pixels(*old(canvas)).update(
            pixel_id(x as nat, y as nat, canvas_extent(*old(canvas)).0) as int,
            rgb,
        ),
{
    canvas.image.put_pixel(x, y, image::Rgb([rgb.0, rgb.1, rgb.2]));
}

/// Calls `image::ImageBuffer::get_pixel`, which returns the pixel in column
/// `x` of row `y`, that is pixel number `y * width + x`. It panics for a
/// pixel outside the image, which the precondition rules out.
#[verifier::external_body]
fn image_get_pixel(canvas: &Canvas, x: u32, y: u32) -> (rgb: (u8, u8, u8))
    requires
        x < canvas_extent(*canvas).0,
        y < canvas_extent(*canvas).1,
    ensures
        rgb == canvas_pixels(*canvas)[pixel_id(x as nat, y as nat, canvas_extent(*canvas).0) as int],
{
    let pixel = canvas.image.get_pixel(x, y);
    (pixel.0[0], pixel.0[1], pixel.0[2])
}

/// Calls `image::ImageBuffer::into_raw`, which returns the bytes of the
/// image: three for each pixel, red, green, blue, pixel after pixel.
#[verifier::external_body]
fn image_into_raw(canvas: Canvas) -> (bytes: Vec<u8>)
    ensures
        bytes@ == subpixels(canvas_pixels(canvas)),
{
    canvas.image.into_raw()
}

/// Channel `k` of a colour: red, green, blue for 0, 1, 2.
pub open spec fn channel(rgb: (u8, u8, u8), k: int) -> u8 {
    if k == 0 {
        rgb.0
    } else if k == 1 {
        rgb.1
    } else {
        rgb.2
    }
}

/// The bytes of a sequence of pixels: three for each pixel, in order.
pub open spec fn subpixels(pixels: Seq<(u8, u8, u8)>) -> Seq<u8> {
    Seq::new(3 * pixels.len(), |i: int| channel(pixels[i / 3], i % 3))
}

/// The raster in which every pixel is black.
pub open spec fn black(width: nat, height: nat) -> Seq<(u8, u8, u8)> {
    Seq::new(width * height, |i: int| (0u8, 0u8, 0u8))
}

impl View for Canvas {
    type V = Seq<(u8, u8, u8)>;

    /// The pixels of the canvas, row by row.
    open spec fn view(&self) -> Seq<(u8, u8, u8)> {
        canvas_pixels(*self)
    }
}

impl Canvas {
    /// Number of pixel columns.
    pub open spec fn width(&self) -> nat {
        canvas_extent(*self).0
    }

    /// Number of pixel rows.
    pub open spec fn height(&self) -> nat {
        canvas_extent(*self).1
    }

    /// The canvas holds one pixel for each place of its raster.
    pub open spec fn wf(&self) -> bool {
        self@.len() == self.width() * self.height()
    }

    /// The colour in column `x` of row `y`.
    pub open spec fn pixel(&self, x: nat, y: nat) -> (u8, u8, u8) {
        self@[pixel_id(x, y, self.width()) as int]
    }

    /// The extents are such that the bytes of a canvas, three for each
    /// pixel, can be counted and held in memory on this machine.
    pub open spec fn fits(width: u32, height: u32) -> bool {
        3 * width <= usize::MAX && 3 * (width * height) <= isize::MAX
    }

    /// A black canvas of the given extents, or `None` where its pixels would
    /// not fit in memory.
    pub fn new(width: u32, height: u32) -> (made: Option<Canvas>)
        ensures
            made is Some <==> Self::fits(width, height),
            made matches Some(canvas) ==> canvas.wf() && canvas.width() == width
                && canvas.height() == height && canvas@ == black(width as nat, height as nat),
    {
        let wide: u64 = width as u64;
        let high: u64 = height as u64;
        assert(wide * high <= 0xFFFF_FFFE_0000_0001) by (nonlinear_arith)
            requires
                wide <= 0xFFFF_FFFF,
                high <= 0xFFFF_FFFF,
        ;
        let pixels: u64 = wide * high;
        let limit: u64 = (isize::MAX as u64) / 3;
        if 3 * wide <= usize::MAX as u64 && pixels <= limit {
            Some(image_new(width, height))
        } else {
            None
        }
    }

    /// Width and height of the canvas.
    pub fn dimensions(&self) -> (extent: (u32, u32))
        ensures
            extent.0 == self.width(),
            extent.1 == self.height(),
    {
        image_dimensions(self)
    }

    /// Sets the colour in column `x` of row `y` and leaves all other pixels
    /// as they are.
    pub fn put_pixel(&mut self, x: u32, y: u32, rgb: (u8, u8, u8))
        requires
            old(self).wf(),
            x < old(self).width(),
            y < old(self).height(),
        ensures
            final(self).wf(),
            final(self).width() == old(self).width(),
            final(self).height() == old(self).height(),
            final(self)@ == old(self)@.update(
                pixel_id(x as nat, y as nat, old(self).width()) as int,
                rgb,
            ),
    {
        proof {
            lemma_pixel_id_roundtrip(x as nat, y as nat, self.width(), self.height());
        }
        image_put_pixel(self, x, y, rgb);
    }

    /// The colour in column `x` of row `y`.
    pub fn get_pixel(&self, x: u32, y: u32) -> (rgb: (u8, u8, u8))
        requires
            x < self.width(),
            y < self.height(),
        ensures
            rgb == self.pixel(x as nat, y as nat),
    {
        image_get_pixel(self, x, y)
    }

    /// The bytes of the canvas, three for each pixel, row by row: what an
    /// encoder of images is handed.
    pub fn into_raw(self) -> (bytes: Vec<u8>)
        ensures
            bytes@ == subpixels(self@),
    {
        image_into_raw(self)
    }
}

} // verus!
