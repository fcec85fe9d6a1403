//! Painting on a bitmap: rectangles, and text in a five by seven font.

use crate::text::{chars_of, code};
use vstd::prelude::*;

verus! {

/// Width and height of a glyph.
pub const CHAR_W: usize = 5;

pub const CHAR_H: usize = 7;

/// Width and height of the cell that a glyph stands in.
pub const CELL_W: usize = 6;

pub const CELL_H: usize = 9;

/// Rows of pixels, each of red, green, blue and alpha.
pub type Picture = Seq<Seq<[u8; 4]>>;

#[derive(Debug)]
pub struct Bitmap {
    pub rows: Vec<Vec<[u8; 4]>>,
    pub w: usize,
}

impl View for Bitmap {
    type V = Picture;

    open spec fn view(&self) -> Picture {
        self.rows@.map_values(|r: Vec<[u8; 4]>| r@)
    }
}

/// Every row is `w` pixels wide.
pub open spec fn regular(p: Picture, w: int) -> bool {
    forall|y: int| 0 <= y < p.len() ==> (#[trigger] p[y]).len() == w
}

/// A transparent picture.
pub open spec fn clear(w: int, h: int) -> Picture {
    Seq::new(h as nat, |y: int| Seq::new(w as nat, |x: int| [0u8, 0u8, 0u8, 0u8]))
}

pub open spec fn inside(col: int, row: int, x: int, y: int, w: int, h: int) -> bool {
    x <= col < x + w && y <= row < y + h
}

/// A picture with a rectangle filled, as far as the rectangle lies on it.
pub open spec fn filled(
    p: Picture,
    x: int,
    y: int,
    w: int,
    h: int,
    rgba: [u8; 4],
) -> Picture {
    Seq::new(
        p.len(),
        |row: int|
            Seq::new(
                p[row].len(),
                |col: int|
                    if inside(col, row, x, y, w, h) {
                        rgba
                    } else {
                        p[row][col]
                    },
            ),
    )
}

/// The character whose glyph stands for one: arrows and dots have substitutes, and any other
/// character beyond ASCII is shown as a question mark.
pub open spec fn shown_as(ch: char) -> char {
    if (ch as u32) < 128 {
        ch
    } else if ch as u32 == 0x2192 {
        '>'
    } else if ch as u32 == 0x2026 {
        '.'
    } else {
        '?'
    }
}

/// The rows of an ASCII character's glyph, five bits each; a box where there is none.
#[verifier::allow_in_spec]
pub fn glyph_rows(c: char) -> [u8; 7]
    returns
        (match c {
            ' ' => [0u8, 0u8, 0u8, 0u8, 0u8, 0u8, 0u8],
            '!' => [0x04u8, 0x04u8, 0x04u8, 0x04u8, 0x00u8, 0x04u8, 0x00u8],
            '#' => [0x0Au8, 0x1Fu8, 0x0Au8, 0x0Au8, 0x1Fu8, 0x0Au8, 0x00u8],
            '+' => [0x00u8, 0x04u8, 0x04u8, 0x1Fu8, 0x04u8, 0x04u8, 0x00u8],
            ',' => [0x00u8, 0x00u8, 0x00u8, 0x00u8, 0x04u8, 0x08u8, 0x00u8],
            '-' => [0x00u8, 0x00u8, 0x00u8, 0x1Fu8, 0x00u8, 0x00u8, 0x00u8],
            '.' => [0x00u8, 0x00u8, 0x00u8, 0x00u8, 0x00u8, 0x04u8, 0x00u8],
            '/' => [0x01u8, 0x02u8, 0x04u8, 0x08u8, 0x10u8, 0x00u8, 0x00u8],
            '0' => [0x0Eu8, 0x11u8, 0x13u8, 0x15u8, 0x19u8, 0x0Eu8, 0x00u8],
            '1' => [0x04u8, 0x0Cu8, 0x04u8, 0x04u8, 0x04u8, 0x0Eu8, 0x00u8],
            '2' => [0x0Eu8, 0x11u8, 0x01u8, 0x06u8, 0x08u8, 0x1Fu8, 0x00u8],
            '3' => [0x1Eu8, 0x01u8, 0x0Eu8, 0x01u8, 0x01u8, 0x1Eu8, 0x00u8],
            '4' => [0x02u8, 0x06u8, 0x0Au8, 0x12u8, 0x1Fu8, 0x02u8, 0x00u8],
            '5' => [0x1Fu8, 0x10u8, 0x1Eu8, 0x01u8, 0x01u8, 0x1Eu8, 0x00u8],
            '6' => [0x06u8, 0x08u8, 0x1Eu8, 0x11u8, 0x11u8, 0x0Eu8, 0x00u8],
            '7' => [0x1Fu8, 0x01u8, 0x02u8, 0x04u8, 0x08u8, 0x08u8, 0x00u8],
            '8' => [0x0Eu8, 0x11u8, 0x0Eu8, 0x11u8, 0x11u8, 0x0Eu8, 0x00u8],
            '9' => [0x0Eu8, 0x11u8, 0x11u8, 0x0Fu8, 0x01u8, 0x0Cu8, 0x00u8],
            ':' => [0x00u8, 0x04u8, 0x00u8, 0x00u8, 0x04u8, 0x00u8, 0x00u8],
            ';' => [0x00u8, 0x00u8, 0x1Fu8, 0x00u8, 0x1Fu8, 0x00u8, 0x00u8],
            '?' => [0x0Eu8, 0x11u8, 0x02u8, 0x04u8, 0x00u8, 0x04u8, 0x00u8],
            'A' | 'a' => [0x0Eu8, 0x11u8, 0x11u8, 0x1Fu8, 0x11u8, 0x11u8, 0x00u8],
            'B' | 'b' => [0x1Eu8, 0x11u8, 0x1Eu8, 0x11u8, 0x11u8, 0x1Eu8, 0x00u8],
            'C' | 'c' => [0x0Eu8, 0x11u8, 0x10u8, 0x10u8, 0x11u8, 0x0Eu8, 0x00u8],
            'D' | 'd' => [0x1Eu8, 0x11u8, 0x11u8, 0x11u8, 0x11u8, 0x1Eu8, 0x00u8],
            'E' | 'e' => [0x1Fu8, 0x10u8, 0x1Eu8, 0x10u8, 0x10u8, 0x1Fu8, 0x00u8],
            'F' | 'f' => [0x1Fu8, 0x10u8, 0x1Eu8, 0x10u8, 0x10u8, 0x10u8, 0x00u8],
            'G' | 'g' => [0x0Eu8, 0x11u8, 0x10u8, 0x17u8, 0x11u8, 0x0Fu8, 0x00u8],
            'H' | 'h' => [0x11u8, 0x11u8, 0x1Fu8, 0x11u8, 0x11u8, 0x11u8, 0x00u8],
            'I' | 'i' => [0x0Eu8, 0x04u8, 0x04u8, 0x04u8, 0x04u8, 0x0Eu8, 0x00u8],
            'J' | 'j' => [0x01u8, 0x01u8, 0x01u8, 0x01u8, 0x11u8, 0x0Eu8, 0x00u8],
            'K' | 'k' => [0x11u8, 0x12u8, 0x1Cu8, 0x12u8, 0x11u8, 0x11u8, 0x00u8],
            'L' | 'l' => [0x10u8, 0x10u8, 0x10u8, 0x10u8, 0x10u8, 0x1Fu8, 0x00u8],
            'M' | 'm' => [0x11u8, 0x1Bu8, 0x15u8, 0x11u8, 0x11u8, 0x11u8, 0x00u8],
            'N' | 'n' => [0x11u8, 0x19u8, 0x15u8, 0x13u8, 0x11u8, 0x11u8, 0x00u8],
            'O' | 'o' => [0x0Eu8, 0x11u8, 0x11u8, 0x11u8, 0x11u8, 0x0Eu8, 0x00u8],
            'P' | 'p' => [0x1Eu8, 0x11u8, 0x11u8, 0x1Eu8, 0x10u8, 0x10u8, 0x00u8],
            'Q' | 'q' => [0x0Eu8, 0x11u8, 0x11u8, 0x15u8, 0x12u8, 0x0Du8, 0x00u8],
            'R' | 'r' => [0x1Eu8, 0x11u8, 0x11u8, 0x1Eu8, 0x12u8, 0x11u8, 0x00u8],
            'S' | 's' => [0x0Fu8, 0x10u8, 0x0Eu8, 0x01u8, 0x01u8, 0x1Eu8, 0x00u8],
            'T' | 't' => [0x1Fu8, 0x04u8, 0x04u8, 0x04u8, 0x04u8, 0x04u8, 0x00u8],
            'U' | 'u' => [0x11u8, 0x11u8, 0x11u8, 0x11u8, 0x11u8, 0x0Eu8, 0x00u8],
            'V' | 'v' => [0x11u8, 0x11u8, 0x11u8, 0x11u8, 0x0Au8, 0x04u8, 0x00u8],
            'W' | 'w' => [0x11u8, 0x11u8, 0x11u8, 0x15u8, 0x1Bu8, 0x11u8, 0x00u8],
            'X' | 'x' => [0x11u8, 0x0Au8, 0x04u8, 0x04u8, 0x0Au8, 0x11u8, 0x00u8],
            'Y' | 'y' => [0x11u8, 0x11u8, 0x0Au8, 0x04u8, 0x04u8, 0x04u8, 0x00u8],
            'Z' | 'z' => [0x1Fu8, 0x01u8, 0x02u8, 0x04u8, 0x08u8, 0x1Fu8, 0x00u8],
            '_' => [0x00u8, 0x00u8, 0x00u8, 0x00u8, 0x00u8, 0x1Fu8, 0x00u8],
            '[' => [0x0Eu8, 0x08u8, 0x08u8, 0x08u8, 0x08u8, 0x0Eu8, 0x00u8],
            ']' => [0x0Eu8, 0x02u8, 0x02u8, 0x02u8, 0x02u8, 0x0Eu8, 0x00u8],
            '>' => [0x00u8, 0x04u8, 0x02u8, 0x1Fu8, 0x02u8, 0x04u8, 0x00u8],
            _ => [0x1Fu8, 0x11u8, 0x11u8, 0x11u8, 0x11u8, 0x1Fu8, 0x00u8],
        }),
{
    match c {
        ' ' => [0, 0, 0, 0, 0, 0, 0],
        '!' => [0x04, 0x04, 0x04, 0x04, 0x00, 0x04, 0x00],
        '#' => [0x0A, 0x1F, 0x0A, 0x0A, 0x1F, 0x0A, 0x00],
        '+' => [0x00, 0x04, 0x04, 0x1F, 0x04, 0x04, 0x00],
        ',' => [0x00, 0x00, 0x00, 0x00, 0x04, 0x08, 0x00],
        '-' => [0x00, 0x00, 0x00, 0x1F, 0x00, 0x00, 0x00],
        '.' => [0x00, 0x00, 0x00, 0x00, 0x00, 0x04, 0x00],
        '/' => [0x01, 0x02, 0x04, 0x08, 0x10, 0x00, 0x00],
        '0' => [0x0E, 0x11, 0x13, 0x15, 0x19, 0x0E, 0x00],
        '1' => [0x04, 0x0C, 0x04, 0x04, 0x04, 0x0E, 0x00],
        '2' => [0x0E, 0x11, 0x01, 0x06, 0x08, 0x1F, 0x00],
        '3' => [0x1E, 0x01, 0x0E, 0x01, 0x01, 0x1E, 0x00],
        '4' => [0x02, 0x06, 0x0A, 0x12, 0x1F, 0x02, 0x00],
        '5' => [0x1F, 0x10, 0x1E, 0x01, 0x01, 0x1E, 0x00],
        '6' => [0x06, 0x08, 0x1E, 0x11, 0x11, 0x0E, 0x00],
        '7' => [0x1F, 0x01, 0x02, 0x04, 0x08, 0x08, 0x00],
        '8' => [0x0E, 0x11, 0x0E, 0x11, 0x11, 0x0E, 0x00],
        '9' => [0x0E, 0x11, 0x11, 0x0F, 0x01, 0x0C, 0x00],
        ':' => [0x00, 0x04, 0x00, 0x00, 0x04, 0x00, 0x00],
        ';' => [0x00, 0x00, 0x1F, 0x00, 0x1F, 0x00, 0x00],
        '?' => [0x0E, 0x11, 0x02, 0x04, 0x00, 0x04, 0x00],
        'A' | 'a' => [0x0E, 0x11, 0x11, 0x1F, 0x11, 0x11, 0x00],
        'B' | 'b' => [0x1E, 0x11, 0x1E, 0x11, 0x11, 0x1E, 0x00],
        'C' | 'c' => [0x0E, 0x11, 0x10, 0x10, 0x11, 0x0E, 0x00],
        'D' | 'd' => [0x1E, 0x11, 0x11, 0x11, 0x11, 0x1E, 0x00],
        'E' | 'e' => [0x1F, 0x10, 0x1E, 0x10, 0x10, 0x1F, 0x00],
        'F' | 'f' => [0x1F, 0x10, 0x1E, 0x10, 0x10, 0x10, 0x00],
        'G' | 'g' => [0x0E, 0x11, 0x10, 0x17, 0x11, 0x0F, 0x00],
        'H' | 'h' => [0x11, 0x11, 0x1F, 0x11, 0x11, 0x11, 0x00],
        'I' | 'i' => [0x0E, 0x04, 0x04, 0x04, 0x04, 0x0E, 0x00],
        'J' | 'j' => [0x01, 0x01, 0x01, 0x01, 0x11, 0x0E, 0x00],
        'K' | 'k' => [0x11, 0x12, 0x1C, 0x12, 0x11, 0x11, 0x00],
        'L' | 'l' => [0x10, 0x10, 0x10, 0x10, 0x10, 0x1F, 0x00],
        'M' | 'm' => [0x11, 0x1B, 0x15, 0x11, 0x11, 0x11, 0x00],
        'N' | 'n' => [0x11, 0x19, 0x15, 0x13, 0x11, 0x11, 0x00],
        'O' | 'o' => [0x0E, 0x11, 0x11, 0x11, 0x11, 0x0E, 0x00],
        'P' | 'p' => [0x1E, 0x11, 0x11, 0x1E, 0x10, 0x10, 0x00],
        'Q' | 'q' => [0x0E, 0x11, 0x11, 0x15, 0x12, 0x0D, 0x00],
        'R' | 'r' => [0x1E, 0x11, 0x11, 0x1E, 0x12, 0x11, 0x00],
        'S' | 's' => [0x0F, 0x10, 0x0E, 0x01, 0x01, 0x1E, 0x00],
        'T' | 't' => [0x1F, 0x04, 0x04, 0x04, 0x04, 0x04, 0x00],
        'U' | 'u' => [0x11, 0x11, 0x11, 0x11, 0x11, 0x0E, 0x00],
        'V' | 'v' => [0x11, 0x11, 0x11, 0x11, 0x0A, 0x04, 0x00],
        'W' | 'w' => [0x11, 0x11, 0x11, 0x15, 0x1B, 0x11, 0x00],
        'X' | 'x' => [0x11, 0x0A, 0x04, 0x04, 0x0A, 0x11, 0x00],
        'Y' | 'y' => [0x11, 0x11, 0x0A, 0x04, 0x04, 0x04, 0x00],
        'Z' | 'z' => [0x1F, 0x01, 0x02, 0x04, 0x08, 0x1F, 0x00],
        '_' => [0x00, 0x00, 0x00, 0x00, 0x00, 0x1F, 0x00],
        '[' => [0x0E, 0x08, 0x08, 0x08, 0x08, 0x0E, 0x00],
        ']' => [0x0E, 0x02, 0x02, 0x02, 0x02, 0x0E, 0x00],
        '>' => [0x00, 0x04, 0x02, 0x1F, 0x02, 0x04, 0x00],
        _ => [0x1F, 0x11, 0x11, 0x11, 0x11, 0x1F, 0x00],
    }
}

/// The rows of a character's glyph.
pub fn glyph_for(ch: char) -> (r: [u8; 7])
    ensures
        r == glyph_rows(shown_as(ch)),
{
    let n: u32 = code(ch);
    if n < 128 {
        glyph_rows(ch)
    } else if n == 0x2192 {
        glyph_rows('>')
    } else if n == 0x2026 {
        glyph_rows('.')
    } else {
        glyph_rows('?')
    }
}

fn clear_row(w: usize) -> (r: Vec<[u8; 4]>)
    ensures
        r@ == Seq::new(w as nat, |x: int| [0u8, 0u8, 0u8, 0u8]),
{
    let mut row: Vec<[u8; 4]> = Vec::new();
    while row.len() < w
        invariant
            row.len() <= w,
            forall|k: int| 0 <= k < row.len() ==> #[trigger] row@[k] == [0u8, 0u8, 0u8, 0u8],
        decreases w - row.len(),
    {
        row.push([0u8, 0u8, 0u8, 0u8]);
    }
    row
}

impl Bitmap {
    /// All rows are as wide as the bitmap, and there are `h` of them.
    pub open spec fn sized(self, h: int) -> bool {
        self@.len() == h && regular(self@, self.w as int)
    }

    pub fn new(w: usize, h: usize) -> (r: Self)
        ensures
            r.w == w,
            r.sized(h as int),
            r@ == clear(w as int, h as int),
    {
        let mut rows: Vec<Vec<[u8; 4]>> = Vec::new();
        let mut y: usize = 0;
        while y < h
            invariant
                y <= h,
                rows.len() == y,
                forall|k: int|
                    0 <= k < y ==> (#[trigger] rows@[k])@ == Seq::new(
                        w as nat,
                        |x: int| [0u8, 0u8, 0u8, 0u8],
                    ),
            decreases h - y,
        {
            rows.push(clear_row(w));
            y += 1;
        }
        let r = Bitmap { rows, w };
        assert(r@ =~= clear(w as int, h as int));
        r
    }

    /// Fills a rectangle, as far as it lies on the bitmap.
    pub fn fill_rect(&mut self, x: usize, y: usize, w: usize, h: usize, rgba: [u8; 4])
        requires
            old(self).sized(old(self)@.len() as int),
            x + w <= usize::MAX,
            y + h <= usize::MAX,
        ensures
            final(self).w == old(self).w,
            final(self).sized(old(self)@.len() as int),
            final(self)@ == filled(old(self)@, x as int, y as int, w as int, h as int, rgba),
    {
        let ghost start = self@;
        let ghost goal = filled(start, x as int, y as int, w as int, h as int, rgba);
        let bottom: usize = if y + h < self.rows.len() {
            y + h
        } else {
            self.rows.len()
        };
        let right: usize = if x + w < self.w {
            x + w
        } else {
            self.w
        };
        let mut row: usize = y;
        while row < bottom
            invariant
                y <= row,
                row <= bottom || row == y,
                bottom <= self.rows.len(),
                bottom == y + h || bottom == self.rows.len(),
                bottom <= y + h,
                right <= self.w,
                right == x + w || right == self.w,
                right <= x + w,
                self.w == old(self).w,
                start == old(self)@,
                regular(start, self.w as int),
                goal == filled(start, x as int, y as int, w as int, h as int, rgba),
                self.rows.len() == start.len(),
                forall|k: int|
                    0 <= k < start.len() ==> (#[trigger] self.rows@[k])@ == (if y <= k < row {
                        goal[k]
                    } else {
                        start[k]
                    }),
            decreases bottom - row,
        {
            let ghost before = self.rows@;
            let mut line: Vec<[u8; 4]> = Vec::new();
            std::mem::swap(&mut line, &mut self.rows[row]);
            let mut col: usize = x;
            while col < right
                invariant
                    x <= col,
                    col <= right || col == x,
                    right <= line.len(),
                    right == x + w || right == line.len(),
                    right <= x + w,
                    y <= row < y + h,
                    row < start.len(),
                    line.len() == start[row as int].len(),
                    forall|k: int|
                        0 <= k < line.len() ==> #[trigger] line@[k] == (if x <= k < col {
                            rgba
                        } else {
                            start[row as int][k]
                        }),
                decreases right - col,
            {
                line.set(col, rgba);
                col += 1;
            }
            assert(line@ =~= goal[row as int]);
            self.rows.set(row, line);
            row += 1;
        }
        assert(self@ =~= goal) by {
            assert forall|k: int| 0 <= k < start.len() implies self@[k] =~= goal[k] by {
                assert(self@[k] == self.rows@[k]@);
                if !(y <= k < y + h) {
                    assert(start[k] =~= goal[k]);
                }
            }
        }
    }
}

/// Whether a glyph has a dot at a column of a row.
pub open spec fn dot(glyph: [u8; 7], row: int, col: int) -> bool {
    glyph[row] & (1u8 << ((4 - col) as u8)) != 0
}

/// A picture with the first `n` dots of a glyph painted, row by row.
pub open spec fn with_dots(
    p: Picture,
    x: int,
    y: int,
    glyph: [u8; 7],
    rgba: [u8; 4],
    scale: int,
    n: int,
) -> Picture
    decreases n,
{
    if n <= 0 {
        p
    } else {
        let q = with_dots(p, x, y, glyph, rgba, scale, n - 1);
        let row = (n - 1) / 5;
        let col = (n - 1) % 5;
        if dot(glyph, row, col) {
            filled(q, x + col * scale, y + row * scale, scale, scale, rgba)
        } else {
            q
        }
    }
}

/// A picture with a character on it.
pub open spec fn with_char(
    p: Picture,
    x: int,
    y: int,
    ch: char,
    rgba: [u8; 4],
    scale: int,
) -> Picture {
    with_dots(p, x, y, glyph_rows(shown_as(ch)), rgba, scale, 35)
}

/// Where the pen stands after the first `n` characters of a text and the picture then. A text
/// stops where the next character would not fit.
pub open spec fn with_text(
    p: Picture,
    x: int,
    y: int,
    text: Seq<char>,
    rgba: [u8; 4],
    scale: int,
    w: int,
    from: int,
) -> (Picture, int)
    decreases text.len() - from,
{
    if from >= text.len() {
        (p, x)
    } else {
        let q = with_char(p, x, y, text[from], rgba, scale);
        let next = x + CELL_W * scale;
        if next + CHAR_W * scale >= w {
            (q, next)
        } else {
            with_text(q, next, y, text, rgba, scale, w, from + 1)
        }
    }
}

impl Bitmap {
    pub fn draw_char(&mut self, x: usize, y: usize, ch: char, rgba: [u8; 4], scale: usize)
        requires
            old(self).sized(old(self)@.len() as int),
            1 <= scale <= 2,
            x + CHAR_W * scale <= usize::MAX,
            y + CHAR_H * scale <= usize::MAX,
        ensures
            final(self).w == old(self).w,
            final(self).sized(old(self)@.len() as int),
            final(self)@ == with_char(old(self)@, x as int, y as int, ch, rgba, scale as int),
    {
        let glyph = glyph_for(ch);
        let mut n: usize = 0;
        while n < 35
            invariant
                n <= 35,
                glyph == glyph_rows(shown_as(ch)),
                1 <= scale <= 2,
                x + CHAR_W * scale <= usize::MAX,
                y + CHAR_H * scale <= usize::MAX,
                self.w == old(self).w,
                self.sized(old(self)@.len() as int),
                self@ == with_dots(
                    old(self)@,
                    x as int,
                    y as int,
                    glyph,
                    rgba,
                    scale as int,
                    n as int,
                ),
            decreases 35 - n,
        {
            let row: usize = n / 5;
            let col: usize = n % 5;
            if glyph[row] & (1u8 << ((4 - col) as u8)) != 0 {
                assert(col * scale + scale <= CHAR_W * scale && row * scale + scale <= CHAR_H
                    * scale) by (nonlinear_arith)
                    requires
                        col <= 4,
                        row <= 6,
                        CHAR_W == 5,
                        CHAR_H == 7,
                ;
                self.fill_rect(x + col * scale, y + row * scale, scale, scale, rgba);
            }
            n += 1;
        }
    }

    /// Draws a text and says where the pen stands after it.
    pub fn draw_text(&mut self, x: usize, y: usize, text: &str, rgba: [u8; 4], scale: usize) -> (r:
        usize)
        requires
            old(self).sized(old(self)@.len() as int),
            1 <= scale <= 2,
            x + 2 * CELL_W * scale <= usize::MAX,
            old(self).w + 2 * CELL_W * scale <= usize::MAX,
            y + CHAR_H * scale <= usize::MAX,
        ensures
            final(self).w == old(self).w,
            final(self).sized(old(self)@.len() as int),
            (final(self)@, r as int) == with_text(
                old(self)@,
                x as int,
                y as int,
                text@,
                rgba,
                scale as int,
                old(self).w as int,
                0,
            ),
            x <= r,
            r <= x + CELL_W * scale || r <= old(self).w + CELL_W * scale,
    {
        let c = chars_of(text);
        let advance: usize = CELL_W * scale;
        let mut cx: usize = x;
        let mut i: usize = 0;
        while i < c.len()
            invariant
                i <= c.len(),
                c@ == text@,
                1 <= scale <= 2,
                advance == CELL_W * scale,
                x + 2 * CELL_W * scale <= usize::MAX,
                old(self).w + 2 * CELL_W * scale <= usize::MAX,
                y + CHAR_H * scale <= usize::MAX,
                x <= cx,
                cx == x || cx + CHAR_W * scale < old(self).w,
                self.w == old(self).w,
                self.sized(old(self)@.len() as int),
                with_text(
                    old(self)@,
                    x as int,
                    y as int,
                    text@,
                    rgba,
                    scale as int,
                    self.w as int,
                    0,
                ) == with_text(
                    self@,
                    cx as int,
                    y as int,
                    text@,
                    rgba,
                    scale as int,
                    self.w as int,
                    i as int,
                ),
            decreases c.len() - i,
        {
            self.draw_char(cx, y, c[i], rgba, scale);
            cx += advance;
            if cx + CHAR_W * scale >= self.w {
                return cx;
            }
            i += 1;
        }
        cx
    }
}

/// The bytes of a row, four per pixel.
pub open spec fn row_bytes(row: Seq<[u8; 4]>) -> Seq<u8>
    decreases row.len(),
{
    if row.len() == 0 {
        Seq::empty()
    } else {
        row_bytes(row.drop_last()) + row.last()@
    }
}

/// The bytes of a picture, row by row.
pub open spec fn picture_bytes(p: Picture) -> Seq<u8>
    decreases p.len(),
{
    if p.len() == 0 {
        Seq::empty()
    } else {
        picture_bytes(p.drop_last()) + row_bytes(p.last())
    }
}

proof fn row_holds_pixels(row: Seq<[u8; 4]>)
    ensures
        row_bytes(row).len() == 4 * row.len(),
        forall|x: int, c: int|
            0 <= x < row.len() && 0 <= c < 4 ==> #[trigger] row_bytes(row)[4 * x + c] == (#[trigger] row[x])[c],
    decreases row.len(),
{
    if row.len() > 0 {
        let before = row.drop_last();
        row_holds_pixels(before);
        assert forall|x: int, c: int| 0 <= x < row.len() && 0 <= c < 4 implies #[trigger] row_bytes(
            row,
        )[4 * x + c] == (#[trigger] row[x])[c] by {
            if x < before.len() {
                assert(row_bytes(before)[4 * x + c] == before[x][c]);
            }
        }
    }
}

/// A picture's bytes hold pixel after pixel, row after row.
pub proof fn bytes_hold_pixels(p: Picture, w: int, x: int, y: int, c: int)
    requires
        regular(p, w),
        0 <= x < w,
        0 <= y < p.len(),
        0 <= c < 4,
    ensures
        picture_bytes(p).len() == 4 * (w * p.len()),
        0 <= 4 * (y * w + x) + c < picture_bytes(p).len(),
        picture_bytes(p)[4 * (y * w + x) + c] == p[y][x][c],
    decreases p.len(),
{
    let before = p.drop_last();
    bytes_length(p, w);
    bytes_length(before, w);
    row_holds_pixels(p.last());
    assert(p.last().len() == w);
    assert(y * w + x < w * p.len()) by (nonlinear_arith)
        requires
            0 <= x < w,
            0 <= y < p.len(),
    ;
    assert(0 <= y * w) by (nonlinear_arith)
        requires
            0 <= x < w,
            0 <= y,
    ;
    if y < before.len() {
        bytes_hold_pixels(before, w, x, y, c);
    } else {
        assert(y == before.len());
        assert(y * w == w * before.len()) by (nonlinear_arith)
            requires
                y == before.len(),
        ;
        assert(row_bytes(p.last())[4 * x + c] == p.last()[x][c]);
    }
}

/// A picture has four bytes per pixel.
pub proof fn bytes_length(p: Picture, w: int)
    requires
        regular(p, w),
    ensures
        picture_bytes(p).len() == 4 * (w * p.len()),
    decreases p.len(),
{
    if p.len() > 0 {
        bytes_length(p.drop_last(), w);
        row_holds_pixels(p.last());
        assert(p.last().len() == w);
        assert(w * p.len() == w * (p.len() - 1) + w) by (nonlinear_arith);
    } else {
        assert(w * p.len() == 0) by (nonlinear_arith)
            requires
                p.len() == 0,
        ;
    }
}

impl Bitmap {
    /// The bytes of the bitmap.
    pub fn bytes(&self) -> (r: Vec<u8>)
        ensures
            r@ == picture_bytes(self@),
    {
        let mut out: Vec<u8> = Vec::new();
        let mut y: usize = 0;
        assert(self@.take(0) =~= Seq::empty());
        while y < self.rows.len()
            invariant
                y <= self.rows.len(),
                out@ == picture_bytes(self@.take(y as int)),
            decreases self.rows.len() - y,
        {
            let row = &self.rows[y];
            let ghost done = out@;
            let mut x: usize = 0;
            assert(row@.take(0) =~= Seq::empty());
            assert(out@ =~= done + row_bytes(row@.take(0)));
            while x < row.len()
                invariant
                    x <= row.len(),
                    out@ == done + row_bytes(row@.take(x as int)),
                decreases row.len() - x,
            {
                let ghost now = out@;
                let px: [u8; 4] = row[x];
                out.push(px[0]);
                out.push(px[1]);
                out.push(px[2]);
                out.push(px[3]);
                assert(out@ =~= now + px@);
                assert(row@.take(x + 1).drop_last() =~= row@.take(x as int));
                assert(out@ =~= done + row_bytes(row@.take(x + 1)));
                x += 1;
            }
            assert(row@.take(row@.len() as int) =~= row@);
            assert(self@.take(y + 1).drop_last() =~= self@.take(y as int));
            assert(self@.take(y + 1).last() == row@);
            y += 1;
        }
        assert(self@.take(self@.len() as int) =~= self@);
        out
    }
}

} // verus!
