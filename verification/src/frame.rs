//! The pixel buffer: a flat run of bytes, three per pixel (red, green, blue),
//! rows one after another with the top row first.

use vstd::prelude::*;

verus! {

/// Number of bytes in a frame that is `bounds.0` pixels wide and `bounds.1`
/// pixels high.
pub open spec fn frame_len(bounds: (usize, usize)) -> int {
    bounds.0 * bounds.1 * 3
}

/// Position in the buffer of the first byte of the pixel in column `x` of
/// row `y`, where row 0 is the top row.
pub open spec fn offset_of(bounds: (usize, usize), x: int, y: int) -> int {
    (y * bounds.0 + x) * 3
}

/// The colour that `pixels` holds for the pixel in column `x` of row `y`.
pub open spec fn pixel_at(pixels: Seq<u8>, bounds: (usize, usize), x: int, y: int) -> [u8; 3] {
    [
        pixels[offset_of(bounds, x, y)],
        pixels[offset_of(bounds, x, y) + 1],
        pixels[offset_of(bounds, x, y) + 2],
    ]
}

/// Every pixel inside the bounds has its three bytes inside the frame.
pub proof fn lemma_offset_in_frame(bounds: (usize, usize), x: int, y: int)
    requires
        0 <= x < bounds.0,
        0 <= y < bounds.1,
    ensures
        0 <= offset_of(bounds, x, y),
        offset_of(bounds, x, y) + 3 <= frame_len(bounds),
{
    let w = bounds.0 as int;
    let h = bounds.1 as int;
    assert(0 <= y * w && y * w + w <= w * h) by (nonlinear_arith)
        requires
            0 <= y < h,
            0 <= w,
    ;
}

/// Where the first byte of a pixel lies, computed without overflow.
pub fn pixel_offset(bounds: (usize, usize), x: usize, y: usize) -> (i: usize)
    requires
        x < bounds.0,
        y < bounds.1,
        frame_len(bounds) <= usize::MAX,
    ensures
        i == offset_of(bounds, x as int, y as int),
        i + 3 <= frame_len(bounds),
{
    proof {
        lemma_offset_in_frame(bounds, x as int, y as int);
        assert(0 <= y * bounds.0) by (nonlinear_arith)
            requires
                0 <= y,
                0 <= bounds.0,
        ;
    }
    (y * bounds.0 + x) * 3
}

/// Two different pixels inside the bounds never share a byte.
pub proof fn lemma_pixels_disjoint(bounds: (usize, usize), x1: int, y1: int, x2: int, y2: int)
    requires
        0 <= x1 < bounds.0,
        0 <= x2 < bounds.0,
        0 <= y1,
        0 <= y2,
        x1 != x2 || y1 != y2,
    ensures
        offset_of(bounds, x1, y1) + 3 <= offset_of(bounds, x2, y2) || offset_of(bounds, x2, y2) + 3
            <= offset_of(bounds, x1, y1),
{
    let w = bounds.0 as int;
    if y1 < y2 {
        assert(y1 * w + w <= y2 * w) by (nonlinear_arith)
            requires
                y1 < y2,
                0 <= w,
        ;
    } else if y2 < y1 {
        assert(y2 * w + w <= y1 * w) by (nonlinear_arith)
            requires
                y2 < y1,
                0 <= w,
        ;
    }
}

/// Stores `colour` as the pixel in column `x` of row `y` and leaves every
/// other byte of the buffer as it was.
pub fn put_pixel(pixels: &mut [u8], bounds: (usize, usize), x: usize, y: usize, colour: [u8; 3])
    requires
        old(pixels)@.len() == frame_len(bounds),
        x < bounds.0,
        y < bounds.1,
    ensures
        final(pixels)@.len() == old(pixels)@.len(),
        final(pixels)@ == old(pixels)@.update(
            offset_of(bounds, x as int, y as int),
            colour[0],
        ).update(offset_of(bounds, x as int, y as int) + 1, colour[1]).update(
            offset_of(bounds, x as int, y as int) + 2,
            colour[2],
        ),
        pixel_at(final(pixels)@, bounds, x as int, y as int) == colour,
{
    let i: usize = pixel_offset(bounds, x, y);
    pixels[i] = colour[0];
    pixels[i + 1] = colour[1];
    pixels[i + 2] = colour[2];
    assert(pixel_at(pixels@, bounds, x as int, y as int)@ =~= colour@);
}

/// Fills the whole frame: row by row from the top, and within a row from the
/// left, each pixel is set to what `shade` returns for its column and row.
pub fn render<F: Fn(usize, usize) -> [u8; 3]>(pixels: &mut [u8], bounds: (usize, usize), shade: F)
    requires
        old(pixels)@.len() == frame_len(bounds),
        forall|x: usize, y: usize| x < bounds.0 && y < bounds.1 ==> shade.requires((x, y)),
    ensures
        final(pixels)@.len() == old(pixels)@.len(),
        forall|x: usize, y: usize|
            x < bounds.0 && y < bounds.1 ==> shade.ensures(
                (x, y),
                #[trigger] pixel_at(final(pixels)@, bounds, x as int, y as int),
            ),
{
    let mut y: usize = 0;
    while y < bounds.1
        invariant
            y <= bounds.1,
            pixels@.len() == frame_len(bounds),
            forall|x: usize, y: usize| x < bounds.0 && y < bounds.1 ==> shade.requires((x, y)),
            forall|px: usize, py: usize|
                px < bounds.0 && py < y ==> shade.ensures(
                    (px, py),
                    #[trigger] pixel_at(pixels@, bounds, px as int, py as int),
                ),
        decreases bounds.1 - y,
    {
        let mut x: usize = 0;
        while x < bounds.0
            invariant
                y < bounds.1,
                x <= bounds.0,
                pixels@.len() == frame_len(bounds),
                forall|x: usize, y: usize| x < bounds.0 && y < bounds.1 ==> shade.requires((x, y)),
                forall|px: usize, py: usize|
                    px < bounds.0 && (py < y || (py == y && px < x)) ==> shade.ensures(
                        (px, py),
                        #[trigger] pixel_at(pixels@, bounds, px as int, py as int),
                    ),
            decreases bounds.0 - x,
        {
            let colour: [u8; 3] = shade(x, y);
            let ghost before = pixels@;
            put_pixel(pixels, bounds, x, y, colour);
            proof {
                lemma_offset_in_frame(bounds, x as int, y as int);
                assert forall|px: usize, py: usize|
                    px < bounds.0 && (py < y || (py == y && px <= x)) implies shade.ensures(
                    (px, py),
                    #[trigger] pixel_at(pixels@, bounds, px as int, py as int),
                ) by {
                    if px != x || py != y {
                        lemma_pixels_disjoint(bounds, px as int, py as int, x as int, y as int);
                        lemma_offset_in_frame(bounds, px as int, py as int);
                        assert(pixel_at(pixels@, bounds, px as int, py as int)@ =~= pixel_at(
                            before,
                            bounds,
                            px as int,
                            py as int,
                        )@);
                    }
                }
            }
            x += 1;
        }
        y += 1;
    }
}

} // verus!
