use vstd::prelude::*;
use crate::color::Color;
use crate::layout::{
    frame_pixel, lemma_coords_of_index, lemma_index_of_coords, lemma_pixel_in_buffer,
    lemma_with_pixel, pixel_at, pixel_coords, spec_frame_len, spec_pixel_index,
};
use crate::raster::{frame_bytes, frame_height, frame_width, Frame};

verus! {

/// Whether `buf` is the frame of the given size that `shade` paints: three
/// bytes per pixel, rows from the top, columns from the left, and each pixel
/// a colour that `shade` gives for its column and row.
pub open spec fn is_frame_of<F: Fn(u32, u32) -> Color>(
    buf: Seq<u8>,
    width: u32,
    height: u32,
    shade: F,
) -> bool {
    &&& buf.len() == spec_frame_len(width as nat, height as nat)
    &&& forall|x: u32, y: u32|
        x < width && y < height ==> shade.ensures(
            (x, y),
            #[trigger] frame_pixel(buf, width as nat, x as int, y as int),
        )
}

/// Whether `shade` gives one colour only for each pixel.
pub open spec fn is_single_valued<F: Fn(u32, u32) -> Color>(shade: F) -> bool {
    forall|x: u32, y: u32, a: Color, b: Color|
        #[trigger] shade.ensures((x, y), a) && #[trigger] shade.ensures((x, y), b) ==> a == b
}

/// Paints a frame: asks `shade` for the colour of every pixel and stores the
/// colours row by row, three bytes each.
pub fn render_frame<F: Fn(u32, u32) -> Color>(width: u32, height: u32, shade: F) -> (frame: Frame)
    requires
        spec_frame_len(width as nat, height as nat) <= isize::MAX,
        forall|x: u32, y: u32| x < width && y < height ==> shade.requires((x, y)),
    ensures
        frame.wf(),
        frame_width(frame) == width,
        frame_height(frame) == height,
        is_frame_of(frame_bytes(frame), width, height, shade),
{
    assert(width * height <= 3 * width * height) by (nonlinear_arith)
        requires
            0 <= width,
            0 <= height,
    ;
    let count: usize = (width as usize) * (height as usize);
    let mut frame = Frame::blank(width, height);
    let mut idx: usize = 0;
    while idx < count
        invariant
            idx <= count,
            count == width * height,
            frame.wf(),
            frame_width(frame) == width,
            frame_height(frame) == height,
            forall|x: u32, y: u32| x < width && y < height ==> shade.requires((x, y)),
            forall|i: int|
                0 <= i < idx ==> shade.ensures(
                    ((i % width as int) as u32, (i / width as int) as u32),
                    #[trigger] pixel_at(frame_bytes(frame), i),
                ),
        decreases count - idx,
    {
        proof {
            assert(width > 0) by (nonlinear_arith)
                requires
                    idx < width * height,
                    0 <= width,
            ;
            lemma_index_of_coords(idx as int, width as int, height as int);
        }
        let (x, y) = pixel_coords(idx, width);
        let color = shade(x, y);
        let ghost before = frame_bytes(frame);
        frame.put_pixel(x, y, color);
        proof {
            lemma_pixel_in_buffer(x as int, y as int, width as int, height as int);
            lemma_with_pixel(before, idx as int, color);
            assert(x == ((idx as int) % width as int) as u32);
            assert(y == ((idx as int) / width as int) as u32);
            assert forall|i: int| 0 <= i < idx + 1 implies shade.ensures(
                ((i % width as int) as u32, (i / width as int) as u32),
                #[trigger] pixel_at(frame_bytes(frame), i),
            ) by {
                if i < idx {
                    assert(3 * i + 2 < before.len());
                    assert(pixel_at(frame_bytes(frame), i) == pixel_at(before, i));
                }
            }
        }
        idx += 1;
    }
    proof {
        let buf = frame_bytes(frame);
        assert(3 * width * height == 3 * (width * height)) by (nonlinear_arith);
        assert forall|x: u32, y: u32| x < width && y < height implies shade.ensures(
            (x, y),
            #[trigger] frame_pixel(buf, width as nat, x as int, y as int),
        ) by {
            let i = spec_pixel_index(x as int, y as int, width as int);
            lemma_coords_of_index(x as int, y as int, width as int);
            lemma_pixel_in_buffer(x as int, y as int, width as int, height as int);
            assert(shade.ensures(
                ((i % width as int) as u32, (i / width as int) as u32),
                pixel_at(buf, i),
            ));
        }
    }
    frame
}

/// A frame is fixed by its size and by the colour of each pixel: where
/// `shade` gives one colour only for each pixel, any two frames that it
/// paints at one size are byte for byte the same.
pub proof fn lemma_frame_is_determined<F: Fn(u32, u32) -> Color>(
    first: Seq<u8>,
    second: Seq<u8>,
    width: u32,
    height: u32,
    shade: F,
)
    requires
        is_single_valued(shade),
        is_frame_of(first, width, height, shade),
        is_frame_of(second, width, height, shade),
    ensures
        first == second,
{
    assert forall|k: int| 0 <= k < first.len() implies first[k] == second[k] by {
        let i = k / 3;
        assert(3 * width * height == 3 * (width * height)) by (nonlinear_arith);
        assert(width > 0) by (nonlinear_arith)
            requires
                0 <= k < 3 * (width * height),
                0 <= width,
        ;
        lemma_index_of_coords(i, width as int, height as int);
        let x = (i % width as int) as u32;
        let y = (i / width as int) as u32;
        let a = frame_pixel(first, width as nat, x as int, y as int);
        let b = frame_pixel(second, width as nat, x as int, y as int);
        assert(shade.ensures((x, y), a));
        assert(shade.ensures((x, y), b));
        assert(a == b);
        assert(k == 3 * i || k == 3 * i + 1 || k == 3 * i + 2);
    }
    assert(first =~= second);
}

} // verus!
