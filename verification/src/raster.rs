use vstd::prelude::*;
use crate::color::Color;
use crate::layout::{lemma_pixel_in_buffer, lemma_with_pixel, spec_pixel_index, with_pixel};

verus! {

/// A raster of pixels, three bytes each, kept in an `image::ImageBuffer`.
///
/// The buffer's pixel type is bound by a trait of the `image` crate, which
/// the verifier cannot name, so the image is held opaquely.  What it holds is
/// described by `frame_bytes`, `frame_width` and `frame_height`; the functions
/// below that call into `image` say in their contracts what is taken on trust.
#[verifier::external_body]
pub struct Frame {
    image: image::ImageBuffer<image::Rgb<u8>, Vec<u8>>,
}

/// The bytes that a frame holds, row by row, three for each pixel.
pub uninterp spec fn frame_bytes(frame: Frame) -> Seq<u8>;

/// The number of columns that a frame was made with.
pub uninterp spec fn frame_width(frame: Frame) -> u32;

/// The number of rows that a frame was made with.
pub uninterp spec fn frame_height(frame: Frame) -> u32;

/// `ImageBuffer::new`: an image of the given size whose bytes are all zero.
/// The call panics where the bytes would not fit a vector, so such sizes are
/// left out.
#[verifier::external_body]
fn blank_image(width: u32, height: u32) -> (frame: Frame)
    requires
        3 * width * height <= isize::MAX,
    ensures
        frame_width(frame) == width,
        frame_height(frame) == height,
        frame_bytes(frame) == Seq::new((3 * width * height) as nat, |i: int| 0u8),
{
    Frame { image: image::ImageBuffer::new(width, height) }
}

/// `ImageBuffer::put_pixel`: overwrites the three bytes of the pixel in
/// column `x` of row `y` and leaves the size and every other byte as they
/// were.  The call panics outside the image, so such positions are left out.
#[verifier::external_body]
fn image_put_pixel(frame: &mut Frame, x: u32, y: u32, color: Color)
    requires
        x < frame_width(*old(frame)),
        y < frame_height(*old(frame)),
    ensures
        frame_width(*final(frame)) == frame_width(*old(frame)),
        frame_height(*final(frame)) == frame_height(*old(frame)),
        frame_bytes(*final(frame)) == with_pixel(
            frame_bytes(*old(frame)),
            spec_pixel_index(x as int, y as int, frame_width(*old(frame)) as int),
            color,
        ),
{
    frame.image.put_pixel(x, y, image::Rgb([color.r, color.g, color.b]));
}

/// `ImageBuffer::width`: the number of columns.
#[verifier::external_body]
fn image_width(frame: &Frame) -> (width: u32)
    ensures
        width == frame_width(*frame),
{
    frame.image.width()
}

/// `ImageBuffer::height`: the number of rows.
#[verifier::external_body]
fn image_height(frame: &Frame) -> (height: u32)
    ensures
        height == frame_height(*frame),
{
    frame.image.height()
}

/// `ImageBuffer::into_raw`: hands out the bytes that the image holds.
#[verifier::external_body]
fn image_into_raw(frame: Frame) -> (bytes: Vec<u8>)
    ensures
        bytes@ == frame_bytes(frame),
{
    frame.image.into_raw()
}

impl Frame {
    /// A frame holds three bytes for each of its pixels.
    pub open spec fn wf(self) -> bool {
        frame_bytes(self).len() == 3 * frame_width(self) * frame_height(self)
    }

    /// A frame of the given size with every pixel black.
    pub fn blank(width: u32, height: u32) -> (frame: Frame)
        requires
            3 * width * height <= isize::MAX,
        ensures
            frame.wf(),
            frame_width(frame) == width,
            frame_height(frame) == height,
            forall|i: int| 0 <= i < 3 * width * height ==> frame_bytes(frame)[i] == 0,
    {
        blank_image(width, height)
    }

    /// Sets the pixel in column `x` of row `y`.
    pub fn put_pixel(&mut self, x: u32, y: u32, color: Color)
        requires
            old(self).wf(),
            x < frame_width(*old(self)),
            y < frame_height(*old(self)),
        ensures
            final(self).wf(),
            frame_width(*final(self)) == frame_width(*old(self)),
            frame_height(*final(self)) == frame_height(*old(self)),
            frame_bytes(*final(self)) == with_pixel(
                frame_bytes(*old(self)),
                spec_pixel_index(x as int, y as int, frame_width(*old(self)) as int),
                color,
            ),
    {
        proof {
            let width = frame_width(*self) as int;
            let height = frame_height(*self) as int;
            lemma_pixel_in_buffer(x as int, y as int, width, height);
            lemma_with_pixel(
                frame_bytes(*self),
                spec_pixel_index(x as int, y as int, width),
                color,
            );
        }
        image_put_pixel(self, x, y, color);
    }

    /// The number of columns.
    pub fn width(&self) -> (width: u32)
        ensures
            width == frame_width(*self),
    {
        image_width(self)
    }

    /// The number of rows.
    pub fn height(&self) -> (height: u32)
        ensures
            height == frame_height(*self),
    {
        image_height(self)
    }

    /// The bytes of the frame, row by row, three for each pixel.
    pub fn into_bytes(self) -> (bytes: Vec<u8>)
        ensures
            bytes@ == frame_bytes(self),
    {
        image_into_raw(self)
    }
}

} // verus!
