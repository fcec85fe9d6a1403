//! Rendered frames as evidence: sizes, digests, differences, object ids and what to draw.

use crate::document::{borrowed, surface_of, world_of, Document, DocumentModel, Entity, EntityModel};
use crate::formula::{brightness, counted, luma, number, over, plus, ratio, sum};
use crate::geom::{mesh, mesh_of, Mesh, MeshModel};
use crate::light::{casts_shadow, is_bit, is_slab};
use crate::lists::map_push;
use crate::numeric::{answers, computes, encoded, one, zero, Answer, Calc, Mat4, Real, Rgba};
use crate::text::{cat2, cat4, decimal, decimal_text};
use sha2::Digest;
use vstd::prelude::*;

verus! {

pub const MAX_WIDTH: u32 = 1920;

pub const MAX_HEIGHT: u32 = 1080;

pub const DEFAULT_WIDTH: u32 = 960;

pub const DEFAULT_HEIGHT: u32 = 640;

/// Where pictures are written unless told otherwise.
pub const DEFAULT_OUT_DIR: &'static str = "renders";

/// Rows of a texture are read back at multiples of this many bytes.
pub const ROW_ALIGNMENT: u32 = 256;

#[derive(Debug, PartialEq)]
pub struct BeautyFrame {
    pub width: u32,
    pub height: u32,
    /// Four bytes per pixel, row by row.
    pub rgba: Vec<u8>,
    pub revision: u64,
    pub camera: String,
}

#[derive(Debug, PartialEq)]
pub struct RenderResult {
    pub ok: bool,
    pub path: String,
    pub width: u32,
    pub height: u32,
    pub revision: u64,
    pub camera: String,
    pub error: Option<String>,
}

#[derive(Clone, Copy, Debug, PartialEq, Eq)]
pub struct PixelForecast {
    pub pixels_will_move: bool,
    pub changed_pixels: u32,
    pub max_delta: u32,
    pub bbox: Option<[u32; 4]>,
}

#[derive(Clone, Copy, Debug, PartialEq, Eq)]
pub struct RgbProbe {
    pub x: u32,
    pub y: u32,
    pub rgb: [u8; 3],
}

#[derive(Clone, Copy, Debug, PartialEq, Eq)]
pub struct EvidenceDiff {
    pub changed_pixels: u32,
    pub max_delta: u32,
    /// Left, top, right and bottom of the changed pixels, all included.
    pub bbox: Option<[u32; 4]>,
}

#[derive(Debug, PartialEq)]
pub struct BeautyDigest {
    pub hash: String,
    pub width: u32,
    pub height: u32,
    pub revision: u64,
    pub camera: String,
    pub clip: u32,
    pub black: u32,
    pub mean_luma: Real,
    pub probes: Vec<RgbProbe>,
    pub diff_from_previous: Option<EvidenceDiff>,
}

/// What a digest says.
#[verifier::ext_equal]
pub struct DigestModel {
    pub hash: Seq<char>,
    pub width: u32,
    pub height: u32,
    pub revision: u64,
    pub camera: Seq<char>,
    pub clip: u32,
    pub black: u32,
    pub mean_luma: Real,
    pub probes: Seq<RgbProbe>,
    pub diff_from_previous: Option<EvidenceDiff>,
}

impl View for BeautyDigest {
    type V = DigestModel;

    open spec fn view(&self) -> DigestModel {
        DigestModel {
            hash: self.hash@,
            width: self.width,
            height: self.height,
            revision: self.revision,
            camera: self.camera@,
            clip: self.clip,
            black: self.black,
            mean_luma: self.mean_luma,
            probes: self.probes@,
            diff_from_previous: self.diff_from_previous,
        }
    }
}

pub open spec fn digest_in(o: Option<BeautyDigest>) -> Option<DigestModel> {
    match o {
        Some(d) => Some(d@),
        None => None,
    }
}

impl Clone for BeautyDigest {
    fn clone(&self) -> (r: Self)
        ensures
            r@ == self@,
    {
        let probes = self.probes.clone();
        assert(probes@ =~= self.probes@);
        BeautyDigest {
            hash: self.hash.clone(),
            width: self.width,
            height: self.height,
            revision: self.revision,
            camera: self.camera.clone(),
            clip: self.clip,
            black: self.black,
            mean_luma: self.mean_luma,
            probes,
            diff_from_previous: self.diff_from_previous,
        }
    }
}

/// A number moved into `lo..=hi`.
pub open spec fn clamped(v: u32, lo: u32, hi: u32) -> u32 {
    if v < lo {
        lo
    } else if v > hi {
        hi
    } else {
        v
    }
}

/// The size that is rendered where another one is asked for.
pub fn clamp_size(width: u32, height: u32) -> (r: (u32, u32))
    ensures
        r == (clamped(width, 1, MAX_WIDTH), clamped(height, 1, MAX_HEIGHT)),
{
    let w: u32 = if width < 1 {
        1
    } else if width > MAX_WIDTH {
        MAX_WIDTH
    } else {
        width
    };
    let h: u32 = if height < 1 {
        1
    } else if height > MAX_HEIGHT {
        MAX_HEIGHT
    } else {
        height
    };
    (w, h)
}

/// Where a frame is written unless told otherwise.
pub fn default_png_path(revision: u64, width: u32, height: u32) -> (r: String)
    ensures
        r@ == "renders/beauty-r"@ + decimal_text(revision as nat) + "-"@ + decimal_text(
            width as nat,
        ) + ("x"@ + decimal_text(height as nat) + ".png"@),
{
    let head = cat4("renders/beauty-r", &decimal(revision), "-", &decimal(width as u64));
    let mut tail = cat2("x", &decimal(height as u64));
    tail.push_str(".png");
    cat2(&head, &tail)
}

/// What the PNG encoder makes of pixels: the bytes of a file, or why there are none.
pub uninterp spec fn png_of(width: u32, height: u32, rgba: Seq<u8>) -> Result<Seq<u8>, Seq<char>>;

/// Bytes of a file, or a message.
pub open spec fn picture(r: Result<Vec<u8>, String>) -> Result<Seq<u8>, Seq<char>> {
    match r {
        Ok(b) => Ok(b@),
        Err(e) => Err(e@),
    }
}

pub open spec fn no_picture(message: Seq<char>) -> Result<Seq<u8>, Seq<char>> {
    Err(message)
}

/// The eight bytes with which every PNG file begins.
pub open spec fn begins_as_png(b: Seq<u8>) -> bool {
    b.len() > 8 && b.take(8) == seq![137u8, 80, 78, 71, 13, 10, 26, 10]
}

/// Calls `png::Encoder` for eight-bit RGBA: `write_header`, then `write_image_data`, and the
/// end mark that dropping the writer adds. The bytes are a function of the size and the pixels.
/// A size of zero is refused with a message, and so is any other number of bytes than four per
/// pixel; a file begins with the PNG signature. The encoder multiplies the row length by the
/// height, which must fit.
#[verifier::external_body]
fn encode_png(width: u32, height: u32, rgba: &Vec<u8>) -> (r: Result<Vec<u8>, String>)
    requires
        4 * width + 1 <= usize::MAX,
        4 * width * height <= usize::MAX,
    ensures
        picture(r) == png_of(width, height, rgba@),
        width == 0 ==> picture(r) == no_picture("Zero width not allowed"@),
        width != 0 && height == 0 ==> picture(r) == no_picture("Zero height not allowed"@),
        rgba.len() != 4 * width * height ==> r is Err,
        r is Ok ==> begins_as_png(r->Ok_0@),
{
    let mut out = Vec::new();
    let mut enc = png::Encoder::new(&mut out, width, height);
    enc.set_color(png::ColorType::Rgba);
    enc.set_depth(png::BitDepth::Eight);
    let mut w = enc.write_header().map_err(|e| e.to_string())?;
    w.write_image_data(rgba).map_err(|e| e.to_string())?;
    drop(w);
    Ok(out)
}

/// What is answered for what the encoder said.
pub open spec fn png_answer(r: Result<Seq<u8>, Seq<char>>) -> Result<Seq<u8>, Seq<char>> {
    match r {
        Ok(b) => Ok(b),
        Err(e) => Err("beauty_png:"@ + e),
    }
}

/// The encoder's answer, its refusal marked as one of the picture.
pub fn png_outcome(r: Result<Vec<u8>, String>) -> (out: Result<Vec<u8>, String>)
    ensures
        picture(out) == png_answer(picture(r)),
{
    match r {
        Ok(b) => Ok(b),
        Err(e) => Err(cat2("beauty_png:", &e)),
    }
}

/// A frame as the bytes of a PNG file.
pub fn png_bytes(frame: &BeautyFrame) -> (r: Result<Vec<u8>, String>)
    requires
        4 * frame.width + 1 <= usize::MAX,
        4 * frame.width * frame.height <= usize::MAX,
    ensures
        picture(r) == png_answer(png_of(frame.width, frame.height, frame.rgba@)),
        frame.width == 0 ==> picture(r) == no_picture("beauty_png:"@ + "Zero width not allowed"@),
        frame.width != 0 && frame.height == 0 ==> picture(r) == no_picture(
            "beauty_png:"@ + "Zero height not allowed"@,
        ),
        frame.rgba.len() != 4 * frame.width * frame.height ==> r is Err,
        r is Ok ==> begins_as_png(r->Ok_0@),
{
    png_outcome(encode_png(frame.width, frame.height, &frame.rgba))
}

/// The first byte of a pixel.
pub open spec fn pixel_start(f: BeautyFrame, x: int, y: int) -> int {
    (y * f.width + x) * 4
}

/// Red, green and blue of a pixel; black where the frame has no such bytes.
pub open spec fn pixel(f: BeautyFrame, x: int, y: int) -> Seq<u8> {
    let i = pixel_start(f, x, y);
    if i + 2 >= f.rgba.len() {
        seq![0u8, 0u8, 0u8]
    } else {
        seq![f.rgba@[i], f.rgba@[i + 1], f.rgba@[i + 2]]
    }
}

pub fn sample_rgb(frame: &BeautyFrame, x: u32, y: u32) -> (r: [u8; 3])
    ensures
        r@ == pixel(*frame, x as int, y as int),
{
    assert(0 <= y * frame.width <= 0xffff_ffff * 0xffff_ffff) by (nonlinear_arith)
        requires
            0 <= y <= 0xffff_ffff,
            0 <= frame.width <= 0xffff_ffff,
    ;
    let i: u128 = (y as u128 * frame.width as u128 + x as u128) * 4;
    let n: u128 = frame.rgba.len() as u128;
    if i + 2 >= n {
        return [0, 0, 0];
    }
    let k: usize = i as usize;
    [frame.rgba[k], frame.rgba[k + 1], frame.rgba[k + 2]]
}

pub open spec fn apart(a: u8, b: u8) -> int {
    if a < b {
        b - a
    } else {
        a - b
    }
}

pub open spec fn greater(a: int, b: int) -> int {
    if a < b {
        b
    } else {
        a
    }
}

/// How far two pixels are apart: the largest difference of a channel.
pub open spec fn delta(p: Seq<u8>, q: Seq<u8>) -> int {
    greater(greater(apart(p[0], q[0]), apart(p[1], q[1])), apart(p[2], q[2]))
}

pub open spec fn delta_at(a: BeautyFrame, b: BeautyFrame, x: int, y: int) -> int {
    delta(pixel(a, x, y), pixel(b, x, y))
}

pub open spec fn common_width(a: BeautyFrame, b: BeautyFrame) -> u32 {
    if a.width < b.width {
        a.width
    } else {
        b.width
    }
}

pub open spec fn common_height(a: BeautyFrame, b: BeautyFrame) -> u32 {
    if a.height < b.height {
        a.height
    } else {
        b.height
    }
}

/// Changed pixels among the first `n` of row `y`.
pub open spec fn changed_in_row(a: BeautyFrame, b: BeautyFrame, y: int, n: int) -> int
    decreases n,
{
    if n <= 0 {
        0
    } else {
        changed_in_row(a, b, y, n - 1) + if delta_at(a, b, n - 1, y) > 0 {
            1int
        } else {
            0
        }
    }
}

/// Changed pixels in the first `m` rows, each `w` wide.
pub open spec fn changed_in_rows(a: BeautyFrame, b: BeautyFrame, m: int, w: int) -> int
    decreases m,
{
    if m <= 0 {
        0
    } else {
        changed_in_rows(a, b, m - 1, w) + changed_in_row(a, b, m - 1, w)
    }
}

/// A pixel of both frames.
pub open spec fn shared_pixel(a: BeautyFrame, b: BeautyFrame, x: int, y: int) -> bool {
    0 <= x < common_width(a, b) && 0 <= y < common_height(a, b)
}

pub open spec fn moved(a: BeautyFrame, b: BeautyFrame, x: int, y: int) -> bool {
    shared_pixel(a, b, x, y) && delta_at(a, b, x, y) > 0
}

/// `m` is the largest difference that any shared pixel shows.
pub open spec fn largest_delta(a: BeautyFrame, b: BeautyFrame, m: int) -> bool {
    &&& forall|x: int, y: int| #[trigger] shared_pixel(a, b, x, y) ==> delta_at(a, b, x, y) <= m
    &&& m == 0 || exists|x: int, y: int| #[trigger]
        shared_pixel(a, b, x, y) && delta_at(a, b, x, y) == m
}

/// `r` is the smallest box around all pixels that moved; there is none where none did.
pub open spec fn tight_box(a: BeautyFrame, b: BeautyFrame, r: Option<[u32; 4]>) -> bool {
    match r {
        None => forall|x: int, y: int| !#[trigger] moved(a, b, x, y),
        Some(c) => {
            &&& forall|x: int, y: int| #[trigger]
                moved(a, b, x, y) ==> c@[0] <= x <= c@[2] && c@[1] <= y <= c@[3]
            &&& exists|x: int, y: int| #[trigger] moved(a, b, x, y) && x == c@[0]
            &&& exists|x: int, y: int| #[trigger] moved(a, b, x, y) && y == c@[1]
            &&& exists|x: int, y: int| #[trigger] moved(a, b, x, y) && x == c@[2]
            &&& exists|x: int, y: int| #[trigger] moved(a, b, x, y) && y == c@[3]
        },
    }
}

/// How two frames differ on the pixels that they share: how many, by how much, and where.
pub open spec fn differ_by(a: BeautyFrame, b: BeautyFrame, d: EvidenceDiff) -> bool {
    &&& d.changed_pixels == changed_in_rows(
        a,
        b,
        common_height(a, b) as int,
        common_width(a, b) as int,
    )
    &&& largest_delta(a, b, d.max_delta as int)
    &&& tight_box(a, b, d.bbox)
    &&& d.bbox is Some <==> d.changed_pixels > 0
}

/// As many pixels as two frames share can be counted.
pub open spec fn countable(a: BeautyFrame, b: BeautyFrame) -> bool {
    common_width(a, b) * common_height(a, b) <= u32::MAX
}

fn diff_byte(a: u8, b: u8) -> (r: u32)
    ensures
        r == apart(a, b),
{
    if a < b {
        (b - a) as u32
    } else {
        (a - b) as u32
    }
}

fn rgb_delta(p: [u8; 3], q: [u8; 3]) -> (r: u32)
    ensures
        r == delta(p@, q@),
{
    let x: u32 = diff_byte(p[0], q[0]);
    let y: u32 = diff_byte(p[1], q[1]);
    let z: u32 = diff_byte(p[2], q[2]);
    let m: u32 = if x < y {
        y
    } else {
        x
    };
    if m < z {
        z
    } else {
        m
    }
}

proof fn row_count_bound(a: BeautyFrame, b: BeautyFrame, y: int, n: int)
    requires
        n >= 0,
    ensures
        0 <= changed_in_row(a, b, y, n) <= n,
    decreases n,
{
    if n > 0 {
        row_count_bound(a, b, y, n - 1);
    }
}

proof fn rows_count_bound(a: BeautyFrame, b: BeautyFrame, m: int, w: int)
    requires
        m >= 0,
        w >= 0,
    ensures
        0 <= changed_in_rows(a, b, m, w) <= m * w,
    decreases m,
{
    if m > 0 {
        rows_count_bound(a, b, m - 1, w);
        row_count_bound(a, b, m - 1, w);
        assert(m * w == (m - 1) * w + w) by (nonlinear_arith);
    } else {
        assert(m * w == 0) by (nonlinear_arith)
            requires
                m == 0,
        ;
    }
}

/// Changed pixels and the box around them so far.
struct Tally {
    changed: u32,
    max_delta: u32,
    left: u32,
    top: u32,
    right: u32,
    bottom: u32,
}

/// A pixel that comes before place `(x, y)` in reading order.
spec fn scanned(a: BeautyFrame, b: BeautyFrame, x: int, y: int, px: int, py: int) -> bool {
    shared_pixel(a, b, px, py) && (py < y || py == y && px < x)
}

impl Tally {
    /// The tally covers the pixels before place `(x, y)`.
    spec fn covers(self, a: BeautyFrame, b: BeautyFrame, x: int, y: int) -> bool {
        &&& self.changed == changed_in_rows(a, b, y, common_width(a, b) as int) + changed_in_row(
            a,
            b,
            y,
            x,
        )
        &&& forall|px: int, py: int| #[trigger]
            scanned(a, b, x, y, px, py) ==> delta_at(a, b, px, py) <= self.max_delta
        &&& self.max_delta == 0 || exists|px: int, py: int| #[trigger]
            shared_pixel(a, b, px, py) && delta_at(a, b, px, py) == self.max_delta
        &&& self.changed == 0 ==> forall|px: int, py: int| #[trigger]
            scanned(a, b, x, y, px, py) ==> delta_at(a, b, px, py) == 0
        &&& forall|px: int, py: int| #[trigger]
            scanned(a, b, x, y, px, py) && delta_at(a, b, px, py) > 0 ==> self.left <= px
                <= self.right && self.top <= py <= self.bottom
        &&& self.changed > 0 ==> {
            &&& exists|px: int, py: int| #[trigger] moved(a, b, px, py) && px == self.left
            &&& exists|px: int, py: int| #[trigger] moved(a, b, px, py) && py == self.top
            &&& exists|px: int, py: int| #[trigger] moved(a, b, px, py) && px == self.right
            &&& exists|px: int, py: int| #[trigger] moved(a, b, px, py) && py == self.bottom
        }
        &&& self.changed == 0 ==> self.left == common_width(a, b) && self.top == common_height(
            a,
            b,
        ) && self.right == 0 && self.bottom == 0
    }

    fn look(&mut self, a: &BeautyFrame, b: &BeautyFrame, x: u32, y: u32)
        requires
            old(self).covers(*a, *b, x as int, y as int),
            shared_pixel(*a, *b, x as int, y as int),
            old(self).changed < u32::MAX,
        ensures
            final(self).covers(*a, *b, x + 1, y as int),
    {
        let p = sample_rgb(a, x, y);
        let q = sample_rgb(b, x, y);
        let d: u32 = rgb_delta(p, q);
        let ghost before = *self;
        assert(d == delta_at(*a, *b, x as int, y as int));
        if d > 0 {
            assert(moved(*a, *b, x as int, y as int));
            self.changed = self.changed + 1;
            if self.max_delta < d {
                self.max_delta = d;
            }
            if x < self.left {
                self.left = x;
            }
            if y < self.top {
                self.top = y;
            }
            if x > self.right {
                self.right = x;
            }
            if y > self.bottom {
                self.bottom = y;
            }
        }
        proof {
            assert forall|px: int, py: int| #[trigger]
                scanned(*a, *b, x + 1, y as int, px, py) implies scanned(
                *a,
                *b,
                x as int,
                y as int,
                px,
                py,
            ) || (px == x && py == y) by {}
        }
    }
}

/// How two frames differ on the pixels that they share.
pub fn diff_frames(a: &BeautyFrame, b: &BeautyFrame) -> (r: EvidenceDiff)
    requires
        countable(*a, *b),
    ensures
        differ_by(*a, *b, r),
{
    let w: u32 = if a.width < b.width {
        a.width
    } else {
        b.width
    };
    let h: u32 = if a.height < b.height {
        a.height
    } else {
        b.height
    };
    let mut t = Tally { changed: 0, max_delta: 0, left: w, top: h, right: 0, bottom: 0 };
    let mut y: u32 = 0;
    while y < h
        invariant
            y <= h,
            w == common_width(*a, *b),
            h == common_height(*a, *b),
            w * h <= u32::MAX,
            t.covers(*a, *b, 0, y as int),
        decreases h - y,
    {
        let mut x: u32 = 0;
        while x < w
            invariant
                y < h,
                x <= w,
                w == common_width(*a, *b),
                h == common_height(*a, *b),
                w * h <= u32::MAX,
                t.covers(*a, *b, x as int, y as int),
            decreases w - x,
        {
            proof {
                rows_count_bound(*a, *b, y as int, w as int);
                row_count_bound(*a, *b, y as int, x as int);
                assert(y * w + w <= h * w) by (nonlinear_arith)
                    requires
                        y < h,
                        w >= 0,
                ;
                assert(h * w == w * h) by (nonlinear_arith);
            }
            t.look(a, b, x, y);
            x += 1;
        }
        proof {
            assert forall|px: int, py: int| #[trigger]
                scanned(*a, *b, 0, y + 1, px, py) implies scanned(
                *a,
                *b,
                w as int,
                y as int,
                px,
                py,
            ) by {}
        }
        y += 1;
    }
    proof {
        assert forall|px: int, py: int| #[trigger] shared_pixel(*a, *b, px, py) implies scanned(
            *a,
            *b,
            0,
            h as int,
            px,
            py,
        ) by {}
        assert forall|px: int, py: int| #[trigger] moved(*a, *b, px, py) implies scanned(
            *a,
            *b,
            0,
            h as int,
            px,
            py,
        ) by {}
        rows_count_bound(*a, *b, h as int, w as int);
    }
    let bbox = if t.changed > 0 {
        Some([t.left, t.top, t.right, t.bottom])
    } else {
        None
    };
    EvidenceDiff { changed_pixels: t.changed, max_delta: t.max_delta, bbox }
}

/// What a change would do to the picture: pixels move where some channel moves by more than
/// two steps.
pub fn forecast_from_frames(before: &BeautyFrame, after: &BeautyFrame) -> (r: PixelForecast)
    requires
        countable(*before, *after),
    ensures
        r.changed_pixels == changed_in_rows(
            *before,
            *after,
            common_height(*before, *after) as int,
            common_width(*before, *after) as int,
        ),
        largest_delta(*before, *after, r.max_delta as int),
        tight_box(*before, *after, r.bbox),
        r.pixels_will_move == (r.max_delta > 2 && r.changed_pixels > 0),
{
    let d = diff_frames(before, after);
    PixelForecast {
        pixels_will_move: d.max_delta > 2 && d.changed_pixels > 0,
        changed_pixels: d.changed_pixels,
        max_delta: d.max_delta,
        bbox: d.bbox,
    }
}

proof fn delta_is_symmetric(a: BeautyFrame, b: BeautyFrame, y: int, n: int)
    ensures
        changed_in_row(a, b, y, n) == changed_in_row(b, a, y, n),
    decreases n,
{
    if n > 0 {
        delta_is_symmetric(a, b, y, n - 1);
    }
}

/// Swapping two frames changes neither how many pixels differ, nor by how much, nor where.
pub proof fn difference_is_symmetric(
    a: BeautyFrame,
    b: BeautyFrame,
    m: int,
    w: int,
    d: int,
    r: Option<[u32; 4]>,
)
    ensures
        changed_in_rows(a, b, m, w) == changed_in_rows(b, a, m, w),
        largest_delta(a, b, d) ==> largest_delta(b, a, d),
        tight_box(a, b, r) ==> tight_box(b, a, r),
    decreases m,
{
    if m > 0 {
        difference_is_symmetric(a, b, m - 1, w, d, r);
        delta_is_symmetric(a, b, m - 1, w);
    }
    assert forall|x: int, y: int| #[trigger] shared_pixel(b, a, x, y) implies shared_pixel(
        a,
        b,
        x,
        y,
    ) && delta_at(a, b, x, y) == delta_at(b, a, x, y) by {}
    assert forall|x: int, y: int| #[trigger] shared_pixel(a, b, x, y) implies shared_pixel(
        b,
        a,
        x,
        y,
    ) && delta_at(a, b, x, y) == delta_at(b, a, x, y) by {}
    assert forall|x: int, y: int| #[trigger] moved(b, a, x, y) implies moved(a, b, x, y) by {
        assert(shared_pixel(b, a, x, y));
    }
    assert forall|x: int, y: int| #[trigger] moved(a, b, x, y) implies moved(b, a, x, y) by {
        assert(shared_pixel(a, b, x, y));
    }
}

proof fn same_frame_row(a: BeautyFrame, y: int, n: int)
    ensures
        changed_in_row(a, a, y, n) == 0,
    decreases n,
{
    if n > 0 {
        same_frame_row(a, y, n - 1);
    }
}

/// A frame does not differ from itself.
pub proof fn frame_equals_itself(a: BeautyFrame, m: int, w: int)
    ensures
        changed_in_rows(a, a, m, w) == 0,
        largest_delta(a, a, 0),
        tight_box(a, a, None),
    decreases m,
{
    if m > 0 {
        frame_equals_itself(a, m - 1, w);
        same_frame_row(a, m - 1, w);
    }
    assert forall|x: int, y: int| !#[trigger] moved(a, a, x, y) by {}
}

proof fn one_box(a: BeautyFrame, b: BeautyFrame, r: Option<[u32; 4]>, s: Option<[u32; 4]>)
    requires
        tight_box(a, b, r),
        tight_box(a, b, s),
    ensures
        r == s,
{
    if let Some(c) = r {
        let (x, y) = choose|x: int, y: int| #[trigger] moved(a, b, x, y) && x == c@[0];
        assert(s is Some);
        let e = s->0;
        assert(c@ =~= e@);
        assert(c =~= e);
    }
}

/// There is one difference between two frames.
pub proof fn difference_is_one(a: BeautyFrame, b: BeautyFrame, d: EvidenceDiff, e: EvidenceDiff)
    requires
        differ_by(a, b, d),
        differ_by(a, b, e),
    ensures
        d == e,
{
    one_box(a, b, d.bbox, e.bbox);
}

/// Swapping two frames gives the same difference.
pub proof fn difference_ignores_order(
    a: BeautyFrame,
    b: BeautyFrame,
    d: EvidenceDiff,
    e: EvidenceDiff,
)
    requires
        differ_by(a, b, d),
        differ_by(b, a, e),
    ensures
        d == e,
{
    difference_is_symmetric(
        b,
        a,
        common_height(a, b) as int,
        common_width(a, b) as int,
        e.max_delta as int,
        e.bbox,
    );
    difference_is_one(a, b, d, e);
}

/// The difference of a frame from itself is none.
pub proof fn no_difference_from_itself(a: BeautyFrame, d: EvidenceDiff)
    requires
        differ_by(a, a, d),
    ensures
        d == (EvidenceDiff { changed_pixels: 0, max_delta: 0, bbox: None }),
{
    frame_equals_itself(a, a.height as int, a.width as int);
    difference_is_one(a, a, d, EvidenceDiff { changed_pixels: 0, max_delta: 0, bbox: None });
}

/// Pixels changed exactly if the largest difference is above zero, and exactly if there is a
/// box around them; no difference is above 255.
pub proof fn difference_is_consistent(a: BeautyFrame, b: BeautyFrame, d: EvidenceDiff)
    requires
        differ_by(a, b, d),
    ensures
        d.changed_pixels > 0 <==> d.max_delta > 0,
        d.changed_pixels > 0 <==> d.bbox is Some,
        d.max_delta <= 255,
{
    if d.max_delta > 0 {
        let (x, y) = choose|x: int, y: int| #[trigger]
            shared_pixel(a, b, x, y) && delta_at(a, b, x, y) == d.max_delta;
        assert(moved(a, b, x, y));
    }
    if let Some(c) = d.bbox {
        let (x, y) = choose|x: int, y: int| #[trigger] moved(a, b, x, y) && x == c@[0];
        assert(shared_pixel(a, b, x, y));
    }
}

/// SHA-256 of some bytes.
pub uninterp spec fn sha256(data: Seq<u8>) -> Seq<u8>;

/// `sha2::Sha256`: the digest of some bytes, thirty-two bytes that depend on them alone.
#[verifier::external_body]
fn sha256_of(data: &Vec<u8>) -> (r: Vec<u8>)
    ensures
        r@ == sha256(data@),
        r.len() == 32,
{
    let mut hasher = sha2::Sha256::new();
    hasher.update(data);
    hasher.finalize().to_vec()
}

pub open spec fn hex_digit(d: int) -> char {
    if d < 10 {
        (48 + d) as char
    } else {
        (87 + d) as char
    }
}

/// Two lower-case hexadecimal digits per byte.
pub open spec fn hex_text(s: Seq<u8>) -> Seq<char>
    decreases s.len(),
{
    if s.len() == 0 {
        Seq::empty()
    } else {
        hex_text(s.drop_last()).push(hex_digit(s.last() as int / 16)).push(
            hex_digit(s.last() as int % 16),
        )
    }
}

pub(crate) fn hex_char(d: u8) -> (r: char)
    requires
        d < 16,
    ensures
        r == hex_digit(d as int),
{
    if d < 10 {
        (48 + d) as char
    } else {
        (87 + d) as char
    }
}

pub fn hex(s: &Vec<u8>) -> (r: String)
    ensures
        r@ == hex_text(s@),
        r@.len() == 2 * s.len(),
{
    let mut out = String::new();
    let mut i: usize = 0;
    while i < s.len()
        invariant
            i <= s.len(),
            out@ == hex_text(s@.take(i as int)),
            out@.len() == 2 * i,
        decreases s.len() - i,
    {
        assert(s@.take(i as int + 1).drop_last() =~= s@.take(i as int));
        out.push(hex_char(s[i] / 16));
        out.push(hex_char(s[i] % 16));
        i += 1;
    }
    assert(s@.take(s@.len() as int) =~= s@);
    out
}

/// A channel at either end of its range.
pub open spec fn clips(r: u8, g: u8, b: u8) -> bool {
    r == 0 || r == 255 || g == 0 || g == 255 || b == 0 || b == 255
}

/// Pixels among the first `n` that have a channel at the end of its range.
pub open spec fn clip_count(rgba: Seq<u8>, n: int) -> int
    decreases n,
{
    if n <= 0 {
        0
    } else {
        let i = 4 * (n - 1);
        clip_count(rgba, n - 1) + if clips(rgba[i], rgba[i + 1], rgba[i + 2]) {
            1int
        } else {
            0
        }
    }
}

/// Sum of the luma of the first `n` pixels.
pub open spec fn luma_sum(rgba: Seq<u8>, n: int, g: spec_fn(Calc) -> Answer) -> Real
    decreases n,
{
    if n <= 0 {
        zero()
    } else {
        let i = 4 * (n - 1);
        plus(g, luma_sum(rgba, n - 1, g), luma(g, rgba[i], rgba[i + 1], rgba[i + 2]))
    }
}

/// Pixels among the first `n` that are as good as black.
pub open spec fn black_count(rgba: Seq<u8>, n: int, g: spec_fn(Calc) -> Answer) -> int
    decreases n,
{
    if n <= 0 {
        0
    } else {
        let i = 4 * (n - 1);
        black_count(rgba, n - 1, g) + if luma(g, rgba[i], rgba[i + 1], rgba[i + 2]).less(
            encoded(0x4040_0000),
        ) {
            1int
        } else {
            0
        }
    }
}

pub open spec fn at_least_one(v: u32) -> u32 {
    if v == 0 {
        1
    } else {
        v
    }
}

/// Where a frame is probed: its middle, left and right of it, and above it.
pub open spec fn probe_places(w: u32, h: u32) -> Seq<(u32, u32)> {
    let w = at_least_one(w);
    let h = at_least_one(h);
    seq![
        ((w / 2) as u32, (h / 2) as u32),
        ((w / 4) as u32, (h / 2) as u32),
        ((3 * w / 4) as u32, (h / 2) as u32),
        ((w / 2) as u32, (h / 3) as u32),
    ]
}

pub fn default_probe_coords(w: u32, h: u32) -> (r: Vec<(u32, u32)>)
    ensures
        r@ == probe_places(w, h),
{
    let w: u32 = if w == 0 {
        1
    } else {
        w
    };
    let h: u32 = if h == 0 {
        1
    } else {
        h
    };
    let right: u32 = (3 * w as u64 / 4) as u32;
    let r = vec![(w / 2, h / 2), (w / 4, h / 2), (right, h / 2), (w / 2, h / 3)];
    assert(r@ =~= probe_places(w, h));
    r
}

/// A frame whose pixels can be counted.
pub open spec fn measurable(f: BeautyFrame) -> bool {
    f.width * f.height <= u32::MAX && f.rgba.len() / 4 <= u32::MAX
}

/// What a digest says of a frame.
pub open spec fn digests(d: BeautyDigest, f: BeautyFrame, g: spec_fn(Calc) -> Answer) -> bool {
    let pixels = (f.rgba.len() / 4) as int;
    &&& d.hash@ == hex_text(sha256(f.rgba@))
    &&& d.width == f.width
    &&& d.height == f.height
    &&& d.revision == f.revision
    &&& d.camera@ == f.camera@
    &&& d.clip == clip_count(f.rgba@, pixels)
    &&& d.black == black_count(f.rgba@, pixels, g)
    &&& d.mean_luma == over(
        g,
        luma_sum(f.rgba@, pixels, g),
        counted(g, at_least_one((f.width * f.height) as u32) as u64),
    )
    &&& d.probes.len() == 4
    &&& forall|k: int|
        0 <= k < 4 ==> (#[trigger] d.probes@[k]).x == probe_places(f.width, f.height)[k].0
            && d.probes@[k].y == probe_places(f.width, f.height)[k].1 && d.probes@[k].rgb@ == pixel(
            f,
            d.probes@[k].x as int,
            d.probes@[k].y as int,
        )
}

/// Hash, size, exposure and probes of a frame.
pub fn digest_frame<F: Fn(Calc) -> Answer>(frame: &BeautyFrame, calc: &F) -> (r: BeautyDigest)
    requires
        answers(*calc),
        measurable(*frame),
    ensures
        r.hash@.len() == 64,
        r.diff_from_previous is None,
        forall|g: spec_fn(Calc) -> Answer| #[trigger] computes(*calc, g) ==> digests(r, *frame, g),
{
    let hash = hex(&sha256_of(&frame.rgba));
    let pixels: usize = frame.rgba.len() / 4;
    let mut clip: u32 = 0;
    let mut black: u32 = 0;
    let mut total = zero();
    let mut k: usize = 0;
    while k < pixels
        invariant
            k <= pixels,
            pixels == frame.rgba.len() / 4,
            pixels <= u32::MAX,
            answers(*calc),
            clip <= k,
            black <= k,
            clip == clip_count(frame.rgba@, k as int),
            forall|g: spec_fn(Calc) -> Answer| #[trigger]
                computes(*calc, g) ==> total == luma_sum(frame.rgba@, k as int, g) && black
                    == black_count(frame.rgba@, k as int, g),
        decreases pixels - k,
    {
        let i: usize = 4 * k;
        let r: u8 = frame.rgba[i];
        let g: u8 = frame.rgba[i + 1];
        let b: u8 = frame.rgba[i + 2];
        if r == 0 || r == 255 || g == 0 || g == 255 || b == 0 || b == 255 {
            clip += 1;
        }
        let light = brightness(r, g, b, calc);
        if light.lt(encoded(0x4040_0000)) {
            black += 1;
        }
        total = sum(total, light, calc);
        k += 1;
    }
    let places = default_probe_coords(frame.width, frame.height);
    let mut probes: Vec<RgbProbe> = Vec::new();
    let mut j: usize = 0;
    while j < places.len()
        invariant
            j <= places.len(),
            probes.len() == j,
            forall|m: int|
                0 <= m < j ==> (#[trigger] probes@[m]).x == places@[m].0 && probes@[m].y
                    == places@[m].1 && probes@[m].rgb@ == pixel(
                    *frame,
                    probes@[m].x as int,
                    probes@[m].y as int,
                ),
        decreases places.len() - j,
    {
        let (x, y) = places[j];
        probes.push(RgbProbe { x, y, rgb: sample_rgb(frame, x, y) });
        j += 1;
    }
    let area: u32 = frame.width * frame.height;
    let n: u32 = if area == 0 {
        1
    } else {
        area
    };
    BeautyDigest {
        hash,
        width: frame.width,
        height: frame.height,
        revision: frame.revision,
        camera: frame.camera.clone(),
        clip,
        black,
        mean_luma: ratio(total, number(n as u64, calc), calc),
        probes,
        diff_from_previous: None,
    }
}

/// The frame that was rendered last, and what was said of it.
#[derive(Debug)]
pub struct Evidence {
    pub frame: Option<BeautyFrame>,
    pub digest: Option<BeautyDigest>,
}

/// A frame became the latest evidence; its digest compares it with the frame before.
pub open spec fn recorded<F: Fn(Calc) -> Answer>(
    before: Evidence,
    after: Evidence,
    frame: BeautyFrame,
    calc: F,
) -> bool {
    &&& after.frame == Some(frame)
    &&& after.digest matches Some(d) && {
        &&& forall|g: spec_fn(Calc) -> Answer| #[trigger]
            computes(calc, g) ==> digests(d, frame, g)
        &&& match before.frame {
            None => d.diff_from_previous is None,
            Some(p) => d.diff_from_previous matches Some(e) && differ_by(p, frame, e),
        }
    }
}

impl Evidence {
    /// The kept frame can be compared with another.
    pub open spec fn usable(self) -> bool {
        self.frame matches Some(f) ==> measurable(f)
    }

    pub fn new() -> (r: Self)
        ensures
            r.frame is None,
            r.digest is None,
            r.usable(),
    {
        Evidence { frame: None, digest: None }
    }

    /// Takes a frame that was written to `path` as the latest evidence, and compares it with
    /// the one before.
    pub fn record<F: Fn(Calc) -> Answer>(
        &mut self,
        frame: BeautyFrame,
        path: String,
        calc: &F,
    ) -> (r: RenderResult)
        requires
            answers(*calc),
            old(self).usable(),
            measurable(frame),
        ensures
            final(self).usable(),
            recorded(*old(self), *final(self), frame, *calc),
            r.ok,
            r.error is None,
            r.path@ == path@,
            r.width == frame.width,
            r.height == frame.height,
            r.revision == frame.revision,
            r.camera@ == frame.camera@,
    {
        let mut digest = digest_frame(&frame, calc);
        if let Some(previous) = &self.frame {
            proof {
                let w = common_width(*previous, frame);
                let h = common_height(*previous, frame);
                assert(w * h <= frame.width * frame.height) by (nonlinear_arith)
                    requires
                        0 <= w <= frame.width,
                        0 <= h <= frame.height,
                ;
            }
            digest.diff_from_previous = Some(diff_frames(previous, &frame));
        }
        let result = RenderResult {
            ok: true,
            path,
            width: frame.width,
            height: frame.height,
            revision: frame.revision,
            camera: frame.camera.clone(),
            error: None,
        };
        self.frame = Some(frame);
        self.digest = Some(digest);
        result
    }
}

/// The frame that was rendered last.
pub fn last_frame(evidence: &Evidence) -> (r: Option<&BeautyFrame>)
    ensures
        match r {
            Some(f) => evidence.frame == Some(*f),
            None => evidence.frame is None,
        },
{
    match &evidence.frame {
        Some(f) => Some(f),
        None => None,
    }
}

/// The digest of the frame that was rendered last.
pub fn last_digest(evidence: &Evidence) -> (r: Option<&BeautyDigest>)
    ensures
        match r {
            Some(d) => evidence.digest == Some(*d),
            None => evidence.digest is None,
        },
{
    match &evidence.digest {
        Some(d) => Some(d),
        None => None,
    }
}

/// Bytes from one row to the next in a texture that was read back.
pub open spec fn row_pitch(width: u32) -> int {
    (4 * width + 255) / 256 * 256
}

pub fn padded_row(width: u32) -> (r: u32)
    requires
        width <= MAX_WIDTH,
    ensures
        r == row_pitch(width),
        r >= 4 * width,
        r % 256 == 0,
        r < 4 * width + 256,
{
    (4 * width + (ROW_ALIGNMENT - 1)) / ROW_ALIGNMENT * ROW_ALIGNMENT
}

/// Row `y` of a table whose rows are `len` items long and start `pitch` items apart.
pub open spec fn row_at<A>(s: Seq<A>, pitch: int, len: int, y: int) -> Seq<A> {
    s.subrange(y * pitch, y * pitch + len)
}

/// Appending a row leaves the rows before it and adds it as the last one.
pub(crate) proof fn row_appended<A>(done: Seq<A>, row: Seq<A>, y: int)
    requires
        y >= 0,
        done.len() == y * row.len(),
    ensures
        (done + row).len() == (y + 1) * row.len(),
        forall|j: int|
            0 <= j < y ==> #[trigger] row_at(
                done + row,
                row.len() as int,
                row.len() as int,
                j,
            ) == row_at(done, row.len() as int, row.len() as int, j),
        row_at(done + row, row.len() as int, row.len() as int, y) == row,
{
    let n = row.len() as int;
    assert((y + 1) * n == y * n + n) by (nonlinear_arith);
    assert forall|j: int| 0 <= j < y implies #[trigger] row_at(done + row, n, n, j) == row_at(
        done,
        n,
        n,
        j,
    ) by {
        assert(0 <= j * n && j * n + n <= y * n) by (nonlinear_arith)
            requires
                0 <= j < y,
                n >= 0,
        ;
        assert(row_at(done + row, n, n, j) =~= row_at(done, n, n, j));
    }
    assert(row_at(done + row, n, n, y) =~= row);
}

/// Where a row of the read-back texture starts, within the bytes that there are.
proof fn row_in_range(y: int, pitch: int, height: int)
    requires
        0 <= y < height <= 1080,
        0 <= pitch <= 8192,
    ensures
        0 <= y * pitch,
        y * pitch + pitch <= pitch * height,
        pitch * height <= 1080 * 8192,
{
    assert(0 <= y * pitch && y * pitch + pitch <= pitch * height && pitch * height <= 1080 * 8192)
        by (nonlinear_arith)
        requires
            0 <= y < height <= 1080,
            0 <= pitch <= 8192,
    ;
}

/// The rows of a texture without the padding behind each.
pub fn strip_padding(data: &[u8], width: u32, height: u32) -> (r: Vec<u8>)
    requires
        width <= MAX_WIDTH,
        height <= MAX_HEIGHT,
        data@.len() == row_pitch(width) * height,
    ensures
        r.len() == height * (4 * width),
        forall|y: int|
            0 <= y < height ==> #[trigger] row_at(r@, 4 * width, 4 * width, y) == row_at(
                data@,
                row_pitch(width),
                4 * width,
                y,
            ),
{
    let pitch: usize = padded_row(width) as usize;
    let row: usize = 4 * width as usize;
    let mut out: Vec<u8> = Vec::new();
    let mut y: usize = 0;
    assert(0 * row == 0) by (nonlinear_arith);
    while y < height as usize
        invariant
            y <= height,
            height <= MAX_HEIGHT,
            row == 4 * width,
            width <= MAX_WIDTH,
            pitch == row_pitch(width),
            row <= pitch < row + 256,
            data@.len() == pitch * height,
            out.len() == y * row,
            forall|j: int|
                0 <= j < y ==> #[trigger] row_at(out@, row as int, row as int, j) == row_at(
                    data@,
                    pitch as int,
                    row as int,
                    j,
                ),
        decreases height - y,
    {
        let ghost done = out@;
        proof {
            row_in_range(y as int, pitch as int, height as int);
        }
        let start: usize = y * pitch;
        let mut k: usize = 0;
        while k < row
            invariant
                k <= row <= pitch,
                start + pitch <= data@.len(),
                start + pitch <= 1080 * 8192,
                out@ == done + data@.subrange(start as int, start + k),
            decreases row - k,
        {
            out.push(data[start + k]);
            k += 1;
            assert(out@ =~= done + data@.subrange(start as int, start + k));
        }
        proof {
            row_appended(done, data@.subrange(start as int, start + row), y as int);
        }
        y += 1;
    }
    out
}

/// The object number that a pixel of the id pass carries; 0 is the background.
pub open spec fn unpacked(r: u8, g: u8) -> int {
    r + 256 * g
}

pub fn unpack_id(rgb: [u8; 3]) -> (r: u32)
    ensures
        r == unpacked(rgb@[0], rgb@[1]),
{
    rgb[0] as u32 + rgb[1] as u32 * 256
}

/// The red and green bytes that stand for the object at place `index` of the draw list.
pub fn pack_id(index: usize) -> (r: (u8, u8))
    requires
        index < usize::MAX,
    ensures
        r.0 == (index + 1) % 256,
        r.1 == (index + 1) / 256 % 256,
{
    let i: usize = index + 1;
    ((i % 256) as u8, (i / 256 % 256) as u8)
}

/// As long as two bytes hold it, an object's number comes back from its colour.
pub proof fn object_number_survives(index: int, r: u8, g: u8)
    requires
        0 <= index < 65535,
        r == (index + 1) % 256,
        g == (index + 1) / 256 % 256,
    ensures
        unpacked(r, g) == index + 1,
{
}

#[derive(Debug, PartialEq)]
pub struct IdBuffer {
    pub width: u32,
    pub height: u32,
    /// One object number per pixel, row by row.
    pub ids: Vec<u32>,
    pub names: Vec<String>,
}

impl IdBuffer {
    /// There is one number for every pixel, and pixels can be counted.
    pub open spec fn complete(self) -> bool {
        self.ids.len() == self.width * self.height && self.width * self.height <= u32::MAX
    }

    /// The name of the object that covers a pixel.
    pub open spec fn name_at(self, x: int, y: int) -> Option<Seq<char>> {
        if x >= self.width || y >= self.height {
            None
        } else {
            let id = self.ids@[y * self.width + x];
            if id == 0 || id > self.names.len() {
                None
            } else {
                Some(self.names@[id - 1]@)
            }
        }
    }

    /// The name of the object that covers a pixel; none outside, on the background, or for a
    /// number without a name.
    pub fn pick(&self, x: u32, y: u32) -> (r: Option<&str>)
        requires
            self.complete(),
        ensures
            match r {
                Some(s) => self.name_at(x as int, y as int) == Some(s@),
                None => self.name_at(x as int, y as int) is None,
            },
    {
        if x >= self.width || y >= self.height {
            return None;
        }
        assert(y * self.width + x < self.width * self.height) by (nonlinear_arith)
            requires
                0 <= x < self.width,
                0 <= y < self.height,
        ;
        assert(0 <= y * self.width) by (nonlinear_arith);
        let id: u32 = self.ids[(y * self.width + x) as usize];
        if id == 0 {
            return None;
        }
        let k: usize = (id - 1) as usize;
        if k < self.names.len() {
            Some(self.names[k].as_str())
        } else {
            None
        }
    }
}

/// The object numbers in row `y` of an id pass that was read back.
pub open spec fn id_row(data: Seq<u8>, pitch: int, width: int, y: int) -> Seq<u32> {
    Seq::new(
        width as nat,
        |x: int| unpacked(data[y * pitch + 4 * x], data[y * pitch + 4 * x + 1]) as u32,
    )
}

/// The object numbers of an id pass that was read back with padded rows.
pub fn read_ids(data: &[u8], width: u32, height: u32, names: Vec<String>) -> (r: IdBuffer)
    requires
        width <= MAX_WIDTH,
        height <= MAX_HEIGHT,
        data@.len() == row_pitch(width) * height,
    ensures
        r.complete(),
        r.width == width,
        r.height == height,
        r.names == names,
        forall|y: int|
            0 <= y < height ==> #[trigger] row_at(r.ids@, width as int, width as int, y) == id_row(
                data@,
                row_pitch(width),
                width as int,
                y,
            ),
{
    let pitch: usize = padded_row(width) as usize;
    let w: usize = width as usize;
    let mut ids: Vec<u32> = Vec::new();
    let mut y: usize = 0;
    assert(0 * w == 0) by (nonlinear_arith);
    while y < height as usize
        invariant
            y <= height,
            height <= MAX_HEIGHT,
            w == width,
            width <= MAX_WIDTH,
            pitch == row_pitch(width),
            4 * w <= pitch < 4 * w + 256,
            data@.len() == pitch * height,
            ids.len() == y * w,
            forall|j: int|
                0 <= j < y ==> #[trigger] row_at(ids@, w as int, w as int, j) == id_row(
                    data@,
                    pitch as int,
                    w as int,
                    j,
                ),
        decreases height - y,
    {
        let ghost done = ids@;
        let ghost row = id_row(data@, pitch as int, w as int, y as int);
        proof {
            row_in_range(y as int, pitch as int, height as int);
        }
        let start: usize = y * pitch;
        let mut x: usize = 0;
        while x < w
            invariant
                x <= w,
                4 * w <= pitch,
                start == y * pitch,
                start + pitch <= data@.len(),
                start + pitch <= 1080 * 8192,
                row == id_row(data@, pitch as int, w as int, y as int),
                ids@ == done + row.take(x as int),
            decreases w - x,
        {
            let i: usize = start + 4 * x;
            let id: u32 = unpack_id([data[i], data[i + 1], data[i + 2]]);
            assert(row[x as int] == id);
            ids.push(id);
            x += 1;
            assert(ids@ =~= done + row.take(x as int));
        }
        proof {
            assert(row.take(w as int) =~= row);
            row_appended(done, row, y as int);
        }
        y += 1;
    }
    assert(height * w == width * height) by (nonlinear_arith)
        requires
            w == width,
    ;
    assert(width * height <= 1920 * 1080) by (nonlinear_arith)
        requires
            0 <= width <= 1920,
            0 <= height <= 1080,
    ;
    IdBuffer { width, height, ids, names }
}

/// One entity as it is drawn.
#[derive(Debug, PartialEq)]
pub struct DrawItem {
    pub name: String,
    pub mesh: Mesh,
    pub model: Mat4,
    pub color: Rgba,
    pub roughness: Real,
    pub metallic: Real,
    pub cast_shadow: bool,
}

/// What is drawn for one entity.
#[verifier::ext_equal]
pub struct DrawModel {
    pub name: Seq<char>,
    pub mesh: MeshModel,
    pub model: Mat4,
    pub color: Rgba,
    pub roughness: Real,
    pub metallic: Real,
    pub cast_shadow: bool,
}

impl View for DrawItem {
    type V = DrawModel;

    open spec fn view(&self) -> DrawModel {
        DrawModel {
            name: self.name@,
            mesh: self.mesh@,
            model: self.model,
            color: self.color,
            roughness: self.roughness,
            metallic: self.metallic,
            cast_shadow: self.cast_shadow,
        }
    }
}

pub open spec fn draw_views(s: Seq<DrawItem>) -> Seq<DrawModel> {
    s.map_values(|i: DrawItem| i@)
}

/// The colour that carries the object number of place `k`.
pub open spec fn id_color(k: int, g: spec_fn(Calc) -> Answer) -> Rgba {
    Rgba {
        r: over(g, counted(g, ((k + 1) % 256) as u64), encoded(0x437f_0000)),
        g: over(g, counted(g, ((k + 1) / 256 % 256) as u64), encoded(0x437f_0000)),
        b: zero(),
        a: one(),
    }
}

/// How an entity is drawn at place `k`: with its surface, or with the colour of its number.
pub open spec fn drawn(
    d: DocumentModel,
    e: EntityModel,
    k: int,
    pack_ids: bool,
    g: spec_fn(Calc) -> Answer,
) -> DrawModel {
    let s = surface_of(d, e);
    DrawModel {
        name: e.id,
        mesh: mesh_of(e.recipe, e.size, g)->Ok_0,
        model: match world_of(d, e.id, g) {
            Some(m) => m,
            None => g(Calc::Compose(e.transform)).matrix,
        },
        color: if pack_ids {
            id_color(k, g)
        } else {
            s.color
        },
        roughness: if pack_ids {
            encoded(0x3f00_0000)
        } else {
            s.roughness
        },
        metallic: if pack_ids {
            zero()
        } else {
            s.metallic
        },
        cast_shadow: e.recipe != "empty"@ && !is_bit(e.size) && !is_slab(e.size),
    }
}

/// What is drawn for the first `n` entities: those that have a mesh.
pub open spec fn draw_list_of(
    d: DocumentModel,
    n: int,
    pack_ids: bool,
    g: spec_fn(Calc) -> Answer,
) -> Seq<DrawModel>
    decreases n,
{
    if n <= 0 {
        Seq::empty()
    } else {
        let e = d.entities()[n - 1];
        let front = draw_list_of(d, n - 1, pack_ids, g);
        if mesh_of(e.recipe, e.size, g) is Ok {
            front.push(drawn(d, e, front.len() as int, pack_ids, g))
        } else {
            front
        }
    }
}

/// Everything that is drawn for a document, in order; the id pass draws each item in the
/// colour of its number.
pub fn draw_list<F: Fn(Calc) -> Answer>(doc: &Document, pack_ids: bool, calc: &F) -> (r: Vec<
    DrawItem,
>)
    requires
        answers(*calc),
    ensures
        forall|g: spec_fn(Calc) -> Answer| #[trigger]
            computes(*calc, g) ==> draw_views(r@) == draw_list_of(
                doc@,
                doc@.entities().len() as int,
                pack_ids,
                g,
            ),
{
    let list = doc.entities();
    assert(borrowed(list@).len() == list.len());
    let mut out: Vec<DrawItem> = Vec::new();
    let mut i: usize = 0;
    assert(draw_views(out@) =~= Seq::<DrawModel>::empty());
    while i < list.len()
        invariant
            i <= list.len(),
            out.len() <= i,
            answers(*calc),
            borrowed(list@) == doc@.entities(),
            forall|g: spec_fn(Calc) -> Answer| #[trigger]
                computes(*calc, g) ==> draw_views(out@) == draw_list_of(
                    doc@,
                    i as int,
                    pack_ids,
                    g,
                ),
        decreases list.len() - i,
    {
        let e: &Entity = list[i];
        assert(doc@.entities()[i as int] == e@) by {
            assert(borrowed(list@)[i as int] == e@);
        }
        if let Ok(m) = mesh(&e.mesh.recipe, e.mesh.size, calc) {
            let model = match doc.world_matrix(&e.id, calc) {
                Some(w) => w,
                None => Document::local_matrix(&e.transform, calc),
            };
            let s = doc.resolved_surface(e);
            let (lo, hi) = pack_id(out.len());
            let color = if pack_ids {
                Rgba {
                    r: ratio(number(lo as u64, calc), encoded(0x437f_0000), calc),
                    g: ratio(number(hi as u64, calc), encoded(0x437f_0000), calc),
                    b: zero(),
                    a: one(),
                }
            } else {
                s.color
            };
            let item = DrawItem {
                name: e.id.clone(),
                mesh: m,
                model,
                color,
                roughness: if pack_ids {
                    encoded(0x3f00_0000)
                } else {
                    s.roughness
                },
                metallic: if pack_ids {
                    zero()
                } else {
                    s.metallic
                },
                cast_shadow: casts_shadow(&e.mesh.recipe, e.mesh.size),
            };
            let ghost before = out@;
            out.push(item);
            proof {
                map_push(before, item, |x: DrawItem| x@);
            }
        }
        i += 1;
    }
    out
}

} // verus!
