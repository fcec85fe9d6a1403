//! What is drawn of a document, and what is read out of a picture.

use crate::beauty::{
    black_count, clip_count, draw_list_of, drawn, hex_text, id_color, luma_sum, pixel,
    probe_places, unpacked, BeautyFrame, IdBuffer,
};
use crate::cycles_stream::{
    is_frame, offers_frame, shared_height, shared_row, shared_rows, shared_stride, shared_width,
    Frame, HEADER, MAGIC,
};
use crate::document::{surface_of, world_of, DocumentModel};
use crate::exact::{divides, exact, sums};
use crate::formula::{counted, luma, plus};
use crate::geom::mesh_of;
use crate::numeric::{Answer, Calc, Real};
use crate::worth::{finite, names_say_worth, unit, units};
use vstd::prelude::*;

verus! {

/// An entity that has triangles.
pub open spec fn has_triangles(d: DocumentModel, k: int) -> bool {
    let r = d.entities()[k].recipe;
    r == "box"@ || r == "plane"@ || r == "sphere"@
}

/// How many of the first `n` entities have triangles.
pub open spec fn triangles_before(d: DocumentModel, n: int) -> int
    decreases n,
{
    if n <= 0 {
        0
    } else {
        triangles_before(d, n - 1) + if has_triangles(d, n - 1) {
            1int
        } else {
            0
        }
    }
}

proof fn few_triangles(d: DocumentModel, k: int, n: int)
    requires
        0 <= k < n,
        has_triangles(d, k),
    ensures
        0 <= triangles_before(d, k) < triangles_before(d, n),
    decreases n,
{
    if k < n - 1 {
        few_triangles(d, k, n - 1);
    } else {
        nonnegative(d, k);
    }
}

proof fn nonnegative(d: DocumentModel, n: int)
    ensures
        triangles_before(d, n) >= 0,
    decreases n,
{
    if n > 0 {
        nonnegative(d, n - 1);
    }
}

/// Everything that has triangles is drawn once, in the order of the document: under its name, with
/// its own mesh, where it stands in the world, and with its own surface.
pub proof fn everything_is_drawn_as_it_is(
    d: DocumentModel,
    n: int,
    k: int,
    pack_ids: bool,
    g: spec_fn(Calc) -> Answer,
)
    requires
        0 <= n <= d.entities().len(),
    ensures
        draw_list_of(d, n, pack_ids, g).len() == triangles_before(d, n),
        0 <= k < n && has_triangles(d, k) ==> {
            let e = d.entities()[k];
            let at = triangles_before(d, k);
            let item = draw_list_of(d, n, pack_ids, g)[at];
            &&& item.name == e.id
            &&& mesh_of(e.recipe, e.size, g) matches Ok(m) && item.mesh == m
            &&& world_of(d, e.id, g) matches Some(w) ==> item.model == w
            &&& !pack_ids ==> item.color == surface_of(d, e).color && item.roughness == surface_of(
                d,
                e,
            ).roughness && item.metallic == surface_of(d, e).metallic
            &&& pack_ids ==> item.color == id_color(at, g)
        },
    decreases n,
{
    if n > 0 {
        everything_is_drawn_as_it_is(d, n - 1, k, pack_ids, g);
        nonnegative(d, n - 1);
        crate::scenery::kinds_differ();
        let e = d.entities()[n - 1];
        assert(mesh_of(e.recipe, e.size, g) is Ok <==> has_triangles(d, n - 1));
        if 0 <= k < n - 1 && has_triangles(d, k) {
            few_triangles(d, k, n - 1);
        }
    }
}

/// The colour that stands for a place of the draw list carries its number in two bytes: the
/// lower one as red and the upper one as green, each as a share of 255.
pub proof fn number_colors_carry_the_number(k: int, g: spec_fn(Calc) -> Answer)
    requires
        exact(g),
        0 <= k < 65535,
        finite(id_color(k, g).r),
        finite(id_color(k, g).g),
    ensures
        ({
            let c = id_color(k, g);
            &&& units(c.r) * 255 + 256 * (units(c.g) * 255) == (k + 1) * unit()
            &&& 0 <= units(c.r) * 255 <= 255 * unit()
            &&& 0 <= units(c.g) * 255 <= 255 * unit()
            &&& units(c.b) == 0
            &&& units(c.a) == unit()
        }),
{
    let c = id_color(k, g);
    let lo = ((k + 1) % 256) as u64;
    let hi = ((k + 1) / 256 % 256) as u64;
    let top = Real { bits: 0x437f_0000 };
    names_say_worth();
    crate::worth::full_byte_has_worth();
    assert(divides(c.r, counted(g, lo), top));
    assert(divides(c.g, counted(g, hi), top));
    assert(finite(g(Calc::Count(lo)).value) && finite(g(Calc::Count(hi)).value));
    let (u, x, y) = (unit(), units(c.r), units(c.g));
    assert(x * 255 == lo * u) by (nonlinear_arith)
        requires
            x * (255 * u) == (lo * u) * u,
            u > 0,
    ;
    assert(y * 255 == hi * u) by (nonlinear_arith)
        requires
            y * (255 * u) == (hi * u) * u,
            u > 0,
    ;
    assert(lo + 256 * hi == k + 1);
    assert(lo * u + 256 * (hi * u) == (lo + 256 * hi) * u) by (nonlinear_arith);
    assert(0 <= lo * u <= 255 * u && 0 <= hi * u <= 255 * u) by (nonlinear_arith)
        requires
            0 <= lo <= 255,
            0 <= hi <= 255,
            u > 0,
    ;
}

/// Picking a pixel that carries the number of a name gives that name; the background and numbers
/// beyond the names give none, and neither does a point outside.
pub proof fn picking_gives_the_name(b: IdBuffer, x: int, y: int)
    requires
        b.complete(),
        0 <= x,
        0 <= y,
    ensures
        x >= b.width || y >= b.height ==> b.name_at(x, y) is None,
        x < b.width && y < b.height ==> {
            let id = b.ids@[y * b.width + x] as int;
            &&& id == 0 ==> b.name_at(x, y) is None
            &&& 1 <= id <= b.names.len() ==> b.name_at(x, y) == Some(b.names@[id - 1]@)
            &&& id > b.names.len() ==> b.name_at(x, y) is None
        },
{
}

/// Every number of two bytes comes back from them, the first one the lower.
pub proof fn numbers_come_back(n: int)
    requires
        0 <= n < 65536,
    ensures
        unpacked((n % 256) as u8, (n / 256) as u8) == n,
{
}

/// The pixel at a place of a frame is three of its bytes, rows one after the other from the top
/// and four bytes to a pixel.
pub proof fn pixels_lie_row_by_row(f: BeautyFrame, x: int, y: int)
    requires
        0 <= x < f.width,
        0 <= y < f.height,
        f.rgba.len() == 4 * f.width * f.height,
    ensures
        ({
            let at = 4 * (f.width * y + x);
            pixel(f, x, y) == seq![f.rgba@[at], f.rgba@[at + 1], f.rgba@[at + 2]]
        }),
{
    let (w, h) = (f.width as int, f.height as int);
    assert(w * y + x < w * h) by (nonlinear_arith)
        requires
            0 <= x < w,
            0 <= y < h,
    ;
    assert(4 * w * h == 4 * (w * h)) by (nonlinear_arith);
    assert(y * w == w * y) by (nonlinear_arith);
    assert(0 <= w * y) by (nonlinear_arith)
        requires
            0 <= w,
            0 <= y,
    ;
}

/// A channel at either end of its range.
pub open spec fn at_an_end(c: u8) -> bool {
    c == 0 || c == 255
}

/// One more pixel counts as clipped exactly if one of its first three channels is at an end, and
/// as black if its brightness is below three. A picture has no more of either than pixels.
pub proof fn exposure_counts_pixels(rgba: Seq<u8>, n: int, g: spec_fn(Calc) -> Answer)
    requires
        0 <= n,
        4 * n + 4 <= rgba.len(),
    ensures
        0 <= clip_count(rgba, n) <= n,
        0 <= black_count(rgba, n, g) <= n,
        clip_count(rgba, n + 1) - clip_count(rgba, n) == (if at_an_end(rgba[4 * n]) || at_an_end(
            rgba[4 * n + 1],
        ) || at_an_end(rgba[4 * n + 2]) {
            1int
        } else {
            0
        }),
        black_count(rgba, n + 1, g) - black_count(rgba, n, g) == (if luma(
            g,
            rgba[4 * n],
            rgba[4 * n + 1],
            rgba[4 * n + 2],
        ).less(Real { bits: 0x4040_0000 }) {
            1int
        } else {
            0
        }),
        clip_count(rgba, 0) == 0,
        black_count(rgba, 0, g) == 0,
    decreases n,
{
    if n > 0 {
        exposure_counts_pixels(rgba, n - 1, g);
    }
}

/// The sum of brightness adds the pixels up one by one.
pub proof fn brightness_adds_up(rgba: Seq<u8>, n: int, g: spec_fn(Calc) -> Answer)
    requires
        exact(g),
        n > 0,
        finite(luma_sum(rgba, n, g)),
    ensures
        units(luma_sum(rgba, n, g)) == units(luma_sum(rgba, n - 1, g)) + units(
            luma(g, rgba[4 * n - 4], rgba[4 * n - 3], rgba[4 * n - 2]),
        ),
        units(luma_sum(rgba, 0, g)) == 0,
{
    names_say_worth();
    let a = luma_sum(rgba, n - 1, g);
    let b = luma(g, rgba[4 * n - 4], rgba[4 * n - 3], rgba[4 * n - 2]);
    assert(sums(plus(g, a, b), a, b));
}

/// A frame is probed at four places inside it: its middle, half way to the left and to the right
/// of that, and a third down from its top.
pub proof fn probes_lie_inside(w: u32, h: u32)
    requires
        w > 0,
        h > 0,
    ensures
        ({
            let p = probe_places(w, h);
            &&& p.len() == 4
            &&& forall|k: int| 0 <= k < 4 ==> (#[trigger] p[k]).0 < w && p[k].1 < h
            &&& p[0].0 == w / 2 && p[0].1 == h / 2
            &&& p[1].0 == w / 4 && p[1].1 == p[0].1
            &&& 4 * p[2].0 <= 3 * w < 4 * p[2].0 + 4 && p[2].1 == p[0].1
            &&& p[3].0 == p[0].0 && 3 * p[3].1 <= h < 3 * p[3].1 + 3
        }),
{
    let p = probe_places(w, h);
    assert(p[0].0 < w && p[1].0 < w && p[2].0 < w && p[3].0 < w);
}

/// The value of a hexadecimal digit in lower case.
pub open spec fn digit_value(c: char) -> int {
    if '0' <= c <= '9' {
        c as int - '0' as int
    } else {
        c as int - 'a' as int + 10
    }
}

/// Reading a hexadecimal text two digits at a time gives back its bytes, and it is all in lower
/// case.
pub proof fn hex_reads_back(s: Seq<u8>, k: int)
    requires
        0 <= k < s.len(),
    ensures
        hex_text(s).len() == 2 * s.len(),
        ({
            let hi = hex_text(s)[2 * k];
            let lo = hex_text(s)[2 * k + 1];
            &&& ('0' <= hi <= '9' || 'a' <= hi <= 'f') && ('0' <= lo <= '9' || 'a' <= lo <= 'f')
            &&& 16 * digit_value(hi) + digit_value(lo) == s[k]
        }),
    decreases s.len(),
{
    let front = s.drop_last();
    hex_length(front);
    hex_length(s);
    if k < s.len() - 1 {
        hex_reads_back(front, k);
        assert(hex_text(s)[2 * k] == hex_text(front)[2 * k]);
        assert(hex_text(s)[2 * k + 1] == hex_text(front)[2 * k + 1]);
    } else {
        let b = s.last() as int;
        assert(hex_text(s)[2 * k] == crate::beauty::hex_digit(b / 16));
        assert(hex_text(s)[2 * k + 1] == crate::beauty::hex_digit(b % 16));
    }
}

proof fn hex_length(s: Seq<u8>)
    ensures
        hex_text(s).len() == 2 * s.len(),
    decreases s.len(),
{
    if s.len() > 0 {
        hex_length(s.drop_last());
    }
}

proof fn rows_length(b: Seq<u8>, n: int)
    requires
        0 <= n <= shared_height(b),
        offered(b),
    ensures
        shared_rows(b, n).len() == n * (4 * shared_width(b)),
    decreases n,
{
    let w = 4 * shared_width(b);
    if n > 0 {
        rows_length(b, n - 1);
        row_fits(b, n - 1);
        assert(n * w == (n - 1) * w + w) by (nonlinear_arith);
        assert(shared_row(b, n - 1).len() == w);
    } else {
        assert(n * w == 0) by (nonlinear_arith)
            requires
                n == 0,
        ;
    }
}

/// The rows of the shared pixels lie inside the buffer.
spec fn offered(b: Seq<u8>) -> bool {
    &&& crate::cycles_stream::rows_fit(b)
    &&& shared_stride(b) >= 0
    &&& shared_width(b) >= 0
}

proof fn row_fits(b: Seq<u8>, y: int)
    requires
        0 <= y < shared_height(b),
        offered(b),
    ensures
        0 <= y * shared_stride(b),
        HEADER + y * shared_stride(b) + 4 * shared_width(b) <= b.len(),
{
    let (s, h) = (shared_stride(b), shared_height(b));
    assert(0 <= y * s <= (h - 1) * s) by (nonlinear_arith)
        requires
            0 <= y <= h - 1,
            s >= 0,
    ;
}

proof fn rows_hold_bytes(b: Seq<u8>, n: int, y: int, j: int)
    requires
        0 <= y < n <= shared_height(b),
        0 <= j < 4 * shared_width(b),
        offered(b),
    ensures
        0 <= y * (4 * shared_width(b)) + j < shared_rows(b, n).len(),
        shared_rows(b, n)[y * (4 * shared_width(b)) + j] == b[HEADER + y * shared_stride(b) + j],
    decreases n,
{
    let w = 4 * shared_width(b);
    rows_length(b, n);
    rows_length(b, n - 1);
    row_fits(b, n - 1);
    row_fits(b, y);
    assert(0 <= y * w + j < n * w) by (nonlinear_arith)
        requires
            0 <= y < n,
            0 <= j < w,
    ;
    if y < n - 1 {
        rows_hold_bytes(b, n - 1, y, j);
    } else {
        assert(shared_rows(b, n)[(n - 1) * w + j] == shared_row(b, n - 1)[j]);
    }
}

/// A little-endian number of four bytes.
pub open spec fn four_bytes(b: Seq<u8>, at: int) -> int {
    b[at] + 256 * (b[at + 1] + 256 * (b[at + 2] + 256 * b[at + 3]))
}

/// A frame that the sidecar shares is read as it was laid out: after its mark come its width, its
/// height, its sample, its number, its flags and the distance from row to row, each in four bytes;
/// the pixels of row `y` begin that many distances behind the header.
pub proof fn shared_frames_are_read_as_laid_out(
    f: Frame,
    b: Seq<u8>,
    seq_after: u32,
    last_seq: u32,
    x: int,
    y: int,
    c: int,
)
    requires
        offers_frame(b, seq_after, last_seq),
        is_frame(f, b),
        0 <= x < f.width,
        0 <= y < f.height,
        0 <= c < 4,
    ensures
        four_bytes(b, 0) == MAGIC,
        f.width == four_bytes(b, 4),
        f.height == four_bytes(b, 8),
        f.sample == four_bytes(b, 12),
        f.seq == four_bytes(b, 16),
        f.seq == seq_after && f.seq != last_seq,
        f.flags == four_bytes(b, 20),
        f.rgba.len() == f.height * (4 * f.width),
        f.rgba@[y * (4 * f.width) + (4 * x + c)] == b[HEADER + y * four_bytes(b, 24) + (4 * x + c)],
{
    rows_length(b, shared_height(b));
    rows_hold_bytes(b, shared_height(b), y, 4 * x + c);
}

} // verus!
