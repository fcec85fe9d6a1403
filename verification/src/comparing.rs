//! What a comparison of two frames tells.

use crate::beauty::{
    changed_in_row, changed_in_rows, delta_at, differ_by, moved, pixel, BeautyFrame, EvidenceDiff,
};
use vstd::prelude::*;

verus! {

/// Channel `c` of a pixel: rows lie one below the other, and a pixel has four bytes.
pub open spec fn channel(f: BeautyFrame, x: int, y: int, c: int) -> u8 {
    f.rgba@[(y * f.width + x) * 4 + c]
}

/// A pixel of a frame that has all its bytes.
pub open spec fn lies_in(f: BeautyFrame, x: int, y: int) -> bool {
    &&& 0 <= x < f.width
    &&& 0 <= y < f.height
    &&& f.rgba.len() == f.width * f.height * 4
}

proof fn bytes_of_a_pixel(f: BeautyFrame, x: int, y: int)
    requires
        lies_in(f, x, y),
    ensures
        0 <= (y * f.width + x) * 4,
        (y * f.width + x) * 4 + 4 <= f.rgba.len(),
        pixel(f, x, y)[0] == channel(f, x, y, 0),
        pixel(f, x, y)[1] == channel(f, x, y, 1),
        pixel(f, x, y)[2] == channel(f, x, y, 2),
{
    let (w, h) = (f.width as int, f.height as int);
    assert(0 <= y * w && y * w + x < w * h) by (nonlinear_arith)
        requires
            0 <= x < w,
            0 <= y < h,
    ;
}

/// A pixel that two frames share has moved exactly where one of its colours differs; how see-through
/// it is does not count.
pub proof fn pixels_move_where_colors_differ(a: BeautyFrame, b: BeautyFrame, x: int, y: int)
    requires
        lies_in(a, x, y),
        lies_in(b, x, y),
    ensures
        moved(a, b, x, y) <==> channel(a, x, y, 0) != channel(b, x, y, 0) || channel(a, x, y, 1)
            != channel(b, x, y, 1) || channel(a, x, y, 2) != channel(b, x, y, 2),
{
    bytes_of_a_pixel(a, x, y);
    bytes_of_a_pixel(b, x, y);
}

/// How far two pixels are apart is the largest distance of a colour.
pub proof fn distance_is_the_largest(a: BeautyFrame, b: BeautyFrame, x: int, y: int, c: int)
    requires
        lies_in(a, x, y),
        lies_in(b, x, y),
        0 <= c < 3,
    ensures
        channel(a, x, y, c) - channel(b, x, y, c) <= delta_at(a, b, x, y),
        channel(b, x, y, c) - channel(a, x, y, c) <= delta_at(a, b, x, y),
        exists|k: int|
            0 <= k < 3 && (delta_at(a, b, x, y) == (#[trigger] channel(a, x, y, k)) - channel(b, x, y, k)
                || delta_at(a, b, x, y) == channel(b, x, y, k) - channel(a, x, y, k)),
{
    bytes_of_a_pixel(a, x, y);
    bytes_of_a_pixel(b, x, y);
    let d = delta_at(a, b, x, y);
    let (p, q, r) = (channel(a, x, y, 0), channel(a, x, y, 1), channel(a, x, y, 2));
    let (s, t, u) = (channel(b, x, y, 0), channel(b, x, y, 1), channel(b, x, y, 2));
    assert(d == p - s || d == s - p || d == q - t || d == t - q || d == r - u || d == u - r);
}

/// Row by row and pixel by pixel, each pixel whose colour differs counts once.
pub proof fn differing_pixels_are_counted(a: BeautyFrame, b: BeautyFrame, x: int, y: int, w: int)
    requires
        lies_in(a, x, y),
        lies_in(b, x, y),
    ensures
        changed_in_row(a, b, y, 0) == 0,
        changed_in_row(a, b, y, x + 1) - changed_in_row(a, b, y, x) == (if channel(a, x, y, 0)
            != channel(b, x, y, 0) || channel(a, x, y, 1) != channel(b, x, y, 1) || channel(
            a,
            x,
            y,
            2,
        ) != channel(b, x, y, 2) {
            1int
        } else {
            0
        }),
        changed_in_rows(a, b, 0, w) == 0,
        changed_in_rows(a, b, y + 1, w) - changed_in_rows(a, b, y, w) == changed_in_row(a, b, y, w),
{
    bytes_of_a_pixel(a, x, y);
    bytes_of_a_pixel(b, x, y);
}

/// The box of a difference holds every pixel whose colour differs, and reaches no further: left and
/// top come first, then right and bottom.
pub proof fn boxes_hold_what_differs(
    a: BeautyFrame,
    b: BeautyFrame,
    d: EvidenceDiff,
    x: int,
    y: int,
)
    requires
        differ_by(a, b, d),
        lies_in(a, x, y),
        lies_in(b, x, y),
        channel(a, x, y, 0) != channel(b, x, y, 0) || channel(a, x, y, 1) != channel(b, x, y, 1)
            || channel(a, x, y, 2) != channel(b, x, y, 2),
    ensures
        d.changed_pixels > 0,
        d.max_delta >= delta_at(a, b, x, y) > 0,
        d.bbox is Some,
        d.bbox->0[0] <= x <= d.bbox->0[2],
        d.bbox->0[1] <= y <= d.bbox->0[3],
{
    pixels_move_where_colors_differ(a, b, x, y);
    assert(moved(a, b, x, y));
    assert(crate::beauty::shared_pixel(a, b, x, y));
}

} // verus!
