//! Where filled rectangles and letters put their colour.

use crate::paint::{
    dot, filled, glyph_rows, inside, shown_as, with_char, with_dots, with_text, Picture,
};
use vstd::prelude::*;

verus! {

/// A filled rectangle colours exactly the pixels from its corner on, as many across as it is wide
/// and as many down as it is high; every other pixel keeps its colour.
pub proof fn rectangles_are_filled(
    p: Picture,
    x: int,
    y: int,
    w: int,
    h: int,
    rgba: [u8; 4],
    col: int,
    row: int,
)
    requires
        0 <= row < p.len(),
        0 <= col < p[row].len(),
    ensures
        filled(p, x, y, w, h, rgba).len() == p.len(),
        filled(p, x, y, w, h, rgba)[row].len() == p[row].len(),
        0 <= col - x < w && 0 <= row - y < h ==> filled(p, x, y, w, h, rgba)[row][col] == rgba,
        !(0 <= col - x < w && 0 <= row - y < h) ==> filled(p, x, y, w, h, rgba)[row][col]
            == p[row][col],
{
}

/// The bit of a byte that counts `2` to the power of `k`.
pub open spec fn bit_of(b: u8, k: int) -> bool {
    if k == 0 {
        b % 2 == 1
    } else if k == 1 {
        (b / 2) % 2 == 1
    } else if k == 2 {
        (b / 4) % 2 == 1
    } else if k == 3 {
        (b / 8) % 2 == 1
    } else {
        (b / 16) % 2 == 1
    }
}

proof fn dots_are_bits(glyph: [u8; 7], row: int, col: int)
    requires
        0 <= row < 7,
        0 <= col < 5,
    ensures
        dot(glyph, row, col) == bit_of(glyph[row], 4 - col),
{
    let b: u8 = glyph[row];
    assert((b & (1u8 << 0u8) != 0) == (b % 2 == 1)) by (bit_vector);
    assert((b & (1u8 << 1u8) != 0) == ((b / 2) % 2 == 1)) by (bit_vector);
    assert((b & (1u8 << 2u8) != 0) == ((b / 4) % 2 == 1)) by (bit_vector);
    assert((b & (1u8 << 3u8) != 0) == ((b / 8) % 2 == 1)) by (bit_vector);
    assert((b & (1u8 << 4u8) != 0) == ((b / 16) % 2 == 1)) by (bit_vector);
}

/// The dot of a letter at `x` and `y` that a pixel belongs to.
pub open spec fn in_dot(x: int, y: int, scale: int, col: int, row: int, dx: int, dy: int) -> bool {
    x + dx * scale <= col < x + dx * scale + scale && y + dy * scale <= row < y + dy * scale + scale
}

proof fn dots_are_apart(a: int, b: int, scale: int, c: int)
    requires
        scale > 0,
        a * scale <= c < a * scale + scale,
        b * scale <= c < b * scale + scale,
    ensures
        a == b,
{
    assert(a == b) by (nonlinear_arith)
        requires
            scale > 0,
            a * scale <= c < a * scale + scale,
            b * scale <= c < b * scale + scale,
    ;
}

proof fn dots_keep_the_frame(
    p: Picture,
    x: int,
    y: int,
    glyph: [u8; 7],
    rgba: [u8; 4],
    scale: int,
    n: int,
    row: int,
)
    requires
        0 <= row < p.len(),
    ensures
        with_dots(p, x, y, glyph, rgba, scale, n).len() == p.len(),
        with_dots(p, x, y, glyph, rgba, scale, n)[row].len() == p[row].len(),
    decreases n,
{
    if n > 0 {
        dots_keep_the_frame(p, x, y, glyph, rgba, scale, n - 1, row);
    }
}

proof fn dot_is_painted(
    p: Picture,
    x: int,
    y: int,
    glyph: [u8; 7],
    rgba: [u8; 4],
    scale: int,
    n: int,
    col: int,
    row: int,
    dx: int,
    dy: int,
)
    requires
        scale > 0,
        0 <= n <= 35,
        0 <= dx < 5,
        0 <= dy < 7,
        0 <= row < p.len(),
        0 <= col < p[row].len(),
        in_dot(x, y, scale, col, row, dx, dy),
    ensures
        with_dots(p, x, y, glyph, rgba, scale, n)[row][col] == (if dy * 5 + dx < n && dot(
            glyph,
            dy,
            dx,
        ) {
            rgba
        } else {
            p[row][col]
        }),
    decreases n,
{
    if n > 0 {
        dot_is_painted(p, x, y, glyph, rgba, scale, n - 1, col, row, dx, dy);
        dots_keep_the_frame(p, x, y, glyph, rgba, scale, n - 1, row);
        let r = (n - 1) / 5;
        let c = (n - 1) % 5;
        assert(n - 1 == r * 5 + c);
        if inside(col, row, x + c * scale, y + r * scale, scale, scale) {
            dots_are_apart(c, dx, scale, col - x);
            dots_are_apart(r, dy, scale, row - y);
        }
    }
}

proof fn nothing_beside_dots(
    p: Picture,
    x: int,
    y: int,
    glyph: [u8; 7],
    rgba: [u8; 4],
    scale: int,
    n: int,
    col: int,
    row: int,
)
    requires
        scale > 0,
        0 <= n <= 35,
        0 <= row < p.len(),
        0 <= col < p[row].len(),
        !(x <= col < x + 5 * scale && y <= row < y + 7 * scale),
    ensures
        with_dots(p, x, y, glyph, rgba, scale, n)[row][col] == p[row][col],
    decreases n,
{
    if n > 0 {
        nothing_beside_dots(p, x, y, glyph, rgba, scale, n - 1, col, row);
        dots_keep_the_frame(p, x, y, glyph, rgba, scale, n - 1, row);
        let r = (n - 1) / 5;
        let c = (n - 1) % 5;
        assert(0 <= r <= 6 && 0 <= c <= 4);
        assert(0 <= c * scale <= 4 * scale) by (nonlinear_arith)
            requires
                0 <= c <= 4,
                scale > 0,
        ;
        assert(0 <= r * scale <= 6 * scale) by (nonlinear_arith)
            requires
                0 <= r <= 6,
                scale > 0,
        ;
    }
}

/// A letter is drawn in a cell of five by seven dots. A dot is coloured where the glyph's row has
/// its bit, the leftmost dot being the highest bit; all else keeps its colour.
pub proof fn letters_show_their_glyphs(
    p: Picture,
    x: int,
    y: int,
    ch: char,
    rgba: [u8; 4],
    scale: int,
    col: int,
    row: int,
    dx: int,
    dy: int,
)
    requires
        scale > 0,
        0 <= row < p.len(),
        0 <= col < p[row].len(),
    ensures
        with_char(p, x, y, ch, rgba, scale).len() == p.len(),
        with_char(p, x, y, ch, rgba, scale)[row].len() == p[row].len(),
        0 <= dx < 5 && 0 <= dy < 7 && in_dot(x, y, scale, col, row, dx, dy) ==> with_char(
            p,
            x,
            y,
            ch,
            rgba,
            scale,
        )[row][col] == (if bit_of(glyph_rows(shown_as(ch))[dy], 4 - dx) {
            rgba
        } else {
            p[row][col]
        }),
        !(x <= col < x + 5 * scale && y <= row < y + 7 * scale) ==> with_char(
            p,
            x,
            y,
            ch,
            rgba,
            scale,
        )[row][col] == p[row][col],
{
    let glyph = glyph_rows(shown_as(ch));
    dots_keep_the_frame(p, x, y, glyph, rgba, scale, 35, row);
    if 0 <= dx < 5 && 0 <= dy < 7 && in_dot(x, y, scale, col, row, dx, dy) {
        dot_is_painted(p, x, y, glyph, rgba, scale, 35, col, row, dx, dy);
        dots_are_bits(glyph, dy, dx);
    }
    if !(x <= col < x + 5 * scale && y <= row < y + 7 * scale) {
        nothing_beside_dots(p, x, y, glyph, rgba, scale, 35, col, row);
    }
}

/// Plain letters stand for themselves, and what there is no glyph for is shown as a question mark.
pub proof fn letters_stand_for_themselves(ch: char)
    ensures
        (ch as u32) < 128 ==> shown_as(ch) == ch,
        ch as u32 == 0x2192 ==> shown_as(ch) == '>',
        ch as u32 == 0x2026 ==> shown_as(ch) == '.',
        (ch as u32) >= 128 && ch as u32 != 0x2192 && ch as u32 != 0x2026 ==> shown_as(ch) == '?',
{
}

/// Whether the letters of a text from `x` on all fit on a line of width `w`.
pub open spec fn all_fit(x: int, len: int, scale: int, w: int) -> bool {
    x + (len * 6 + 5) * scale < w
}

/// The letters of a text that fits stand side by side, six dots from one to the next, and the pen
/// ends behind the last of them. A pixel in a letter's place is coloured as that letter alone
/// would colour it, and no pixel outside of their places changes.
pub proof fn letters_stand_side_by_side(
    p: Picture,
    x: int,
    y: int,
    text: Seq<char>,
    rgba: [u8; 4],
    scale: int,
    w: int,
    i: int,
    col: int,
    row: int,
)
    requires
        scale > 0,
        0 <= row < p.len(),
        0 <= col < p[row].len(),
        all_fit(x, text.len() as int, scale, w),
    ensures
        with_text(p, x, y, text, rgba, scale, w, 0).1 == x + text.len() * 6 * scale,
        0 <= i < text.len() && x + i * 6 * scale <= col < x + i * 6 * scale + 5 * scale
            ==> with_text(p, x, y, text, rgba, scale, w, 0).0[row][col] == with_char(
            p,
            x + i * 6 * scale,
            y,
            text[i],
            rgba,
            scale,
        )[row][col],
        col < x || x + text.len() * 6 * scale <= col || row < y || y + 7 * scale <= row
            ==> with_text(p, x, y, text, rgba, scale, w, 0).0[row][col] == p[row][col],
{
    side_by_side_from(p, x, y, text, rgba, scale, w, 0, i, col, row);
    assert(0 * 6 * scale == 0) by (nonlinear_arith);
}

proof fn side_by_side_from(
    p: Picture,
    x: int,
    y: int,
    text: Seq<char>,
    rgba: [u8; 4],
    scale: int,
    w: int,
    from: int,
    i: int,
    col: int,
    row: int,
)
    requires
        scale > 0,
        0 <= from <= text.len(),
        0 <= row < p.len(),
        0 <= col < p[row].len(),
        all_fit(x, text.len() - from, scale, w),
    ensures
        with_text(p, x, y, text, rgba, scale, w, from).1 == x + (text.len() - from) * 6 * scale,
        from <= i < text.len() && x + (i - from) * 6 * scale <= col < x + (i - from) * 6 * scale + 5
            * scale ==> with_text(p, x, y, text, rgba, scale, w, from).0[row][col] == with_char(
            p,
            x + (i - from) * 6 * scale,
            y,
            text[i],
            rgba,
            scale,
        )[row][col],
        col < x || x + (text.len() - from) * 6 * scale <= col || row < y || y + 7 * scale <= row
            ==> with_text(p, x, y, text, rgba, scale, w, from).0[row][col] == p[row][col],
    decreases text.len() - from,
{
    if from < text.len() {
        let k: int = text.len() - from;
        let next = x + 6 * scale;
        assert((k * 6 + 5) * scale == ((k - 1) * 6 + 5) * scale + 6 * scale) by (nonlinear_arith);
        assert(k * 6 * scale == (k - 1) * 6 * scale + 6 * scale) by (nonlinear_arith);
        assert((k - 1) * 6 * scale >= 0) by (nonlinear_arith)
            requires
                k >= 1,
                scale > 0,
        ;
        assert(((k - 1) * 6 + 5) * scale >= 5 * scale) by (nonlinear_arith)
            requires
                k >= 1,
                scale > 0,
        ;
        letters_show_their_glyphs(p, x, y, text[from], rgba, scale, col, row, 0, 0);
        let q = with_char(p, x, y, text[from], rgba, scale);
        if k == 1 {
            assert(with_text(q, next, y, text, rgba, scale, w, from + 1) == (q, next));
        }
        side_by_side_from(q, next, y, text, rgba, scale, w, from + 1, i, col, row);
        if from < i < text.len() {
            let m: int = i - from;
            assert(m * 6 * scale == (m - 1) * 6 * scale + 6 * scale) by (nonlinear_arith);
            assert((m - 1) * 6 * scale >= 0) by (nonlinear_arith)
                requires
                    m >= 1,
                    scale > 0,
            ;
            assert(x + (i - from) * 6 * scale == next + (i - (from + 1)) * 6 * scale);
            if x + m * 6 * scale <= col < x + m * 6 * scale + 5 * scale {
                same_letter(p, q, next + (m - 1) * 6 * scale, y, text[i], rgba, scale, col, row);
            }
        }
        if from == i {
            assert((i - from) * 6 * scale == 0) by (nonlinear_arith)
                requires
                    i == from,
            ;
        }
    }
}

/// A letter colours a pixel alike on pictures that agree on it.
proof fn same_letter(
    p: Picture,
    q: Picture,
    x: int,
    y: int,
    ch: char,
    rgba: [u8; 4],
    scale: int,
    col: int,
    row: int,
)
    requires
        0 <= row < p.len(),
        p.len() == q.len(),
        p[row].len() == q[row].len(),
        0 <= col < p[row].len(),
        p[row][col] == q[row][col],
    ensures
        with_char(p, x, y, ch, rgba, scale)[row][col] == with_char(q, x, y, ch, rgba, scale)[row][col],
{
    same_dots(p, q, x, y, glyph_rows(shown_as(ch)), rgba, scale, 35, col, row);
}

proof fn same_dots(
    p: Picture,
    q: Picture,
    x: int,
    y: int,
    glyph: [u8; 7],
    rgba: [u8; 4],
    scale: int,
    n: int,
    col: int,
    row: int,
)
    requires
        0 <= row < p.len(),
        p.len() == q.len(),
        p[row].len() == q[row].len(),
        0 <= col < p[row].len(),
        p[row][col] == q[row][col],
    ensures
        with_dots(p, x, y, glyph, rgba, scale, n)[row][col] == with_dots(
            q,
            x,
            y,
            glyph,
            rgba,
            scale,
            n,
        )[row][col],
    decreases n,
{
    if n > 0 {
        same_dots(p, q, x, y, glyph, rgba, scale, n - 1, col, row);
        dots_keep_the_frame(p, x, y, glyph, rgba, scale, n - 1, row);
        dots_keep_the_frame(q, x, y, glyph, rgba, scale, n - 1, row);
    }
}

} // verus!
