use vstd::prelude::*;
use vstd::arithmetic::div_mod::lemma_fundamental_div_mod_converse;
use vstd::arithmetic::div_mod::lemma_fundamental_div_mod;
use crate::color::Color;

verus! {

/// Bytes in a frame buffer: three per pixel.
pub open spec fn spec_frame_len(width: nat, height: nat) -> nat {
    3 * width * height
}

/// Row-major index of the pixel in column `x` of row `y`.
pub open spec fn spec_pixel_index(x: int, y: int, width: int) -> int {
    y * width + x
}

/// Column and row of the pixel with row-major index `idx`.
pub open spec fn spec_pixel_coords(idx: int, width: int) -> (int, int) {
    (idx % width, idx / width)
}

/// The pixel that a buffer holds at row-major index `idx`.
pub open spec fn pixel_at(buf: Seq<u8>, idx: int) -> Color {
    Color { r: buf[3 * idx], g: buf[3 * idx + 1], b: buf[3 * idx + 2] }
}

/// The pixel that a buffer of the given width holds in column `x` of row `y`.
pub open spec fn frame_pixel(buf: Seq<u8>, width: nat, x: int, y: int) -> Color {
    pixel_at(buf, spec_pixel_index(x, y, width as int))
}

/// The buffer with the pixel at row-major index `idx` set to `color`.
pub open spec fn with_pixel(buf: Seq<u8>, idx: int, color: Color) -> Seq<u8> {
    buf.update(3 * idx, color.r).update(3 * idx + 1, color.g).update(3 * idx + 2, color.b)
}

/// The three bytes of a pixel inside the frame lie inside the buffer.
pub proof fn lemma_pixel_in_buffer(x: int, y: int, width: int, height: int)
    requires
        0 <= x < width,
        0 <= y < height,
    ensures
        0 <= spec_pixel_index(x, y, width) < width * height,
        3 * spec_pixel_index(x, y, width) + 2 < 3 * width * height,
{
    assert(0 <= y * width + x < width * height) by (nonlinear_arith)
        requires
            0 <= x < width,
            0 <= y < height,
    ;
    assert(3 * width * height == 3 * (width * height)) by (nonlinear_arith);
}

/// Setting a pixel changes that pixel and no other.
pub proof fn lemma_with_pixel(buf: Seq<u8>, idx: int, color: Color)
    requires
        0 <= idx,
        3 * idx + 2 < buf.len(),
    ensures
        with_pixel(buf, idx, color).len() == buf.len(),
        pixel_at(with_pixel(buf, idx, color), idx) == color,
        forall|other: int|
            0 <= other && other != idx && 3 * other + 2 < buf.len() ==> #[trigger] pixel_at(
                with_pixel(buf, idx, color),
                other,
            ) == pixel_at(buf, other),
{
}

/// Coordinates and index determine each other inside a row.
pub proof fn lemma_coords_of_index(x: int, y: int, width: int)
    requires
        0 <= x < width,
        0 <= y,
    ensures
        spec_pixel_coords(spec_pixel_index(x, y, width), width) == (x, y),
{
    lemma_fundamental_div_mod_converse(y * width + x, width, y, x);
}

/// Every index below `width * height` lies in some column of some row.
pub proof fn lemma_index_of_coords(idx: int, width: int, height: int)
    requires
        0 <= idx < width * height,
        0 < width,
    ensures
        0 <= spec_pixel_coords(idx, width).0 < width,
        0 <= spec_pixel_coords(idx, width).1 < height,
        spec_pixel_index(spec_pixel_coords(idx, width).0, spec_pixel_coords(idx, width).1, width)
            == idx,
{
    lemma_fundamental_div_mod(idx, width);
    let q = idx / width;
    let r = idx % width;
    assert(idx == width * q + r);
    assert(0 <= r < width);
    assert(q >= 0) by (nonlinear_arith)
        requires
            idx == width * q + r,
            0 <= r < width,
            idx >= 0,
            width > 0,
    ;
    assert(q < height) by (nonlinear_arith)
        requires
            idx == width * q + r,
            0 <= r,
            idx < width * height,
            width > 0,
    ;
    assert(q * width == width * q) by (nonlinear_arith);
}

/// Length in bytes of a frame buffer, where a vector can hold that many.
pub fn frame_len(width: u32, height: u32) -> (len: Option<usize>)
    ensures
        len.is_some() <==> spec_frame_len(width as nat, height as nat) <= isize::MAX,
        len.is_some() ==> len.unwrap() == spec_frame_len(width as nat, height as nat),
{
    assert(width * height <= 0xffff_ffff * 0xffff_ffff) by (nonlinear_arith)
        requires
            0 <= width <= 0xffff_ffff,
            0 <= height <= 0xffff_ffff,
    ;
    assert(3 * width * height == 3 * (width * height)) by (nonlinear_arith);
    let pixels: u64 = (width as u64) * (height as u64);
    let bytes: u128 = 3 * (pixels as u128);
    if bytes <= isize::MAX as u128 {
        Some(bytes as usize)
    } else {
        None
    }
}

/// Row-major index of the pixel in column `x` of row `y`.
pub fn pixel_index(x: u32, y: u32, width: u32) -> (idx: usize)
    requires
        spec_pixel_index(x as int, y as int, width as int) <= usize::MAX,
    ensures
        idx == spec_pixel_index(x as int, y as int, width as int),
{
    assert(y * width <= y * width + x);
    (y as usize) * (width as usize) + (x as usize)
}

/// Column and row of the pixel with row-major index `idx`.
pub fn pixel_coords(idx: usize, width: u32) -> (at: (u32, u32))
    requires
        width >= 1,
        idx / (width as usize) <= u32::MAX,
    ensures
        (at.0 as int, at.1 as int) == spec_pixel_coords(idx as int, width as int),
        at.0 < width,
        spec_pixel_index(at.0 as int, at.1 as int, width as int) == idx,
{
    let w: usize = width as usize;
    proof {
        lemma_fundamental_div_mod(idx as int, width as int);
        assert((idx as int / width as int) * width == width * (idx as int / width as int))
            by (nonlinear_arith);
    }
    ((idx % w) as u32, (idx / w) as u32)
}

} // verus!
