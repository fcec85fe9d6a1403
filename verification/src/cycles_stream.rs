//! The Cycles sidecar: what is said to it, what its replies mean, and the frames it shares.

use crate::import::{text_at, whole_at};
use crate::json::JsonModel;
use crate::text::{begins, cat2, cat3, cat4, chars_of, decimal, decimal_text, strip_prefix, text_in};
use crate::value::{member, parse_json, parsed, tree_in};
use vstd::prelude::*;

verus! {

/// First word of the shared frame buffer.
pub const MAGIC: u32 = 0x5446_4359;

/// Bytes before the first pixel.
pub const HEADER: usize = 256;

/// Where the sidecar listens.
pub const CONTROL_ADDR: &'static str = "127.0.0.1:17422";

/// Bits of the flag word.
pub const FLAG_HAS_FRAME: u32 = 1;

pub const FLAG_RUNNING: u32 = 2;

pub const FLAG_PAUSED: u32 = 4;

pub const FLAG_DONE: u32 = 8;

#[derive(Debug, PartialEq)]
pub struct CyclesStatus {
    pub ok: bool,
    pub state: String,
    pub sample: u32,
    pub width: u32,
    pub height: u32,
    pub overlay: bool,
    pub error: Option<String>,
}

/// What a status says.
#[verifier::ext_equal]
pub struct StatusModel {
    pub ok: bool,
    pub state: Seq<char>,
    pub sample: u32,
    pub width: u32,
    pub height: u32,
    pub overlay: bool,
    pub error: Option<Seq<char>>,
}

impl View for CyclesStatus {
    type V = StatusModel;

    open spec fn view(&self) -> StatusModel {
        StatusModel {
            ok: self.ok,
            state: self.state@,
            sample: self.sample,
            width: self.width,
            height: self.height,
            overlay: self.overlay,
            error: text_in(self.error),
        }
    }
}

#[derive(Debug, PartialEq)]
pub struct Frame {
    pub width: u32,
    pub height: u32,
    pub sample: u32,
    pub seq: u32,
    pub flags: u32,
    pub rgba: Vec<u8>,
}

/// The least significant 32 bits of a number.
pub open spec fn low_word(n: nat) -> u32 {
    (n % 0x1_0000_0000) as u32
}

pub open spec fn word_member(v: Result<JsonModel, Seq<char>>, name: Seq<char>) -> u32 {
    match v {
        Ok(j) => match whole_at(j.member(name)) {
            Some(n) => low_word(n),
            None => 0,
        },
        Err(_) => 0,
    }
}

pub open spec fn text_member(v: Result<JsonModel, Seq<char>>, name: Seq<char>) -> Option<
    Seq<char>,
> {
    match v {
        Ok(j) => text_at(j.member(name)),
        Err(_) => None,
    }
}

/// What a parsed reply means; anything missing, or a reply that is no JSON, counts as idle
/// and not well.
pub open spec fn status_in(v: Result<JsonModel, Seq<char>>, overlay: bool) -> StatusModel {
    StatusModel {
        ok: match v {
            Ok(j) => match j.member("ok"@) {
                Some(b) => b.flag() == Some(true),
                None => false,
            },
            Err(_) => false,
        },
        state: match text_member(v, "state"@) {
            Some(s) => s,
            None => "idle"@,
        },
        sample: word_member(v, "sample"@),
        width: word_member(v, "width"@),
        height: word_member(v, "height"@),
        overlay,
        error: text_member(v, "error"@),
    }
}

pub open spec fn down_status(overlay: bool, error: Seq<char>) -> StatusModel {
    StatusModel {
        ok: false,
        state: "error"@,
        sample: 0,
        width: 0,
        height: 0,
        overlay,
        error: Some(error),
    }
}

fn read_word(o: Option<&serde_json::Value>) -> (r: u32)
    ensures
        r == (match whole_at(tree_in(o)) {
            Some(n) => low_word(n),
            None => 0,
        }),
{
    match o {
        Some(v) => match v.as_u64() {
            Some(n) => (n % 0x1_0000_0000) as u32,
            None => 0,
        },
        None => 0,
    }
}

fn read_string(o: Option<&serde_json::Value>) -> (r: Option<String>)
    ensures
        text_in(r) == text_at(tree_in(o)),
{
    match o {
        Some(v) => match v.as_str() {
            Some(s) => Some(s.to_owned()),
            None => None,
        },
        None => None,
    }
}

/// What the sidecar's reply means.
pub fn parse_status(reply: &str, overlay: bool) -> (r: CyclesStatus)
    ensures
        r@ == status_in(parsed(reply@), overlay),
{
    match parse_json(reply) {
        Err(_) => CyclesStatus {
            ok: false,
            state: "idle".to_owned(),
            sample: 0,
            width: 0,
            height: 0,
            overlay,
            error: None,
        },
        Ok(v) => {
            let ok = match member(&v, "ok") {
                Some(b) => match b.as_bool() {
                    Some(t) => t,
                    None => false,
                },
                None => false,
            };
            let state = match read_string(member(&v, "state")) {
                Some(s) => s,
                None => "idle".to_owned(),
            };
            CyclesStatus {
                ok,
                state,
                sample: read_word(member(&v, "sample")),
                width: read_word(member(&v, "width")),
                height: read_word(member(&v, "height")),
                overlay,
                error: read_string(member(&v, "error")),
            }
        },
    }
}

pub open spec fn no_less(v: u32, least: u32) -> u32 {
    if v < least {
        least
    } else {
        v
    }
}

/// What the program knows of the sidecar.
#[derive(Debug)]
pub struct CyclesDesk {
    pub overlay: bool,
    pub last_seq: u32,
    pub last_error: Option<String>,
    pub last_samples: u32,
    pub last_width: u32,
    pub last_height: u32,
}

fn error_status(overlay: bool, error: String) -> (r: CyclesStatus)
    ensures
        r@ == down_status(overlay, error@),
{
    CyclesStatus {
        ok: false,
        state: "error".to_owned(),
        sample: 0,
        width: 0,
        height: 0,
        overlay,
        error: Some(error),
    }
}

impl CyclesDesk {
    pub fn new() -> (r: Self)
        ensures
            !r.overlay,
            r.last_seq == 0,
            r.last_error is None,
            r.last_samples == 64,
            r.last_width == 960,
            r.last_height == 640,
    {
        CyclesDesk {
            overlay: false,
            last_seq: 0,
            last_error: None,
            last_samples: 64,
            last_width: 960,
            last_height: 640,
        }
    }

    /// Notes what a session is started with: at least one sample, at least eight pixels each
    /// way, and no frame seen yet.
    pub fn prepare_start(&mut self, samples: u32, width: u32, height: u32)
        ensures
            final(self).last_samples == no_less(samples, 1),
            final(self).last_width == no_less(width, 8),
            final(self).last_height == no_less(height, 8),
            final(self).last_seq == 0,
            final(self).overlay == old(self).overlay,
            final(self).last_error == old(self).last_error,
    {
        self.last_samples = if samples < 1 {
            1
        } else {
            samples
        };
        self.last_width = if width < 8 {
            8
        } else {
            width
        };
        self.last_height = if height < 8 {
            8
        } else {
            height
        };
        self.last_seq = 0;
    }

    /// The line that starts a session on a scene file.
    pub fn start_line(&self, path: &str) -> (r: String)
        ensures
            r@ == "{\"op\":\"start\",\"xml\":\""@ + path@ + "\",\"samples\":"@ + decimal_text(
                self.last_samples as nat,
            ) + (",\"width\":"@ + decimal_text(self.last_width as nat) + ",\"height\":"@
                + decimal_text(self.last_height as nat)) + "}"@,
    {
        let head = cat4(
            "{\"op\":\"start\",\"xml\":\"",
            path,
            "\",\"samples\":",
            &decimal(self.last_samples as u64),
        );
        let tail = cat4(
            ",\"width\":",
            &decimal(self.last_width as u64),
            ",\"height\":",
            &decimal(self.last_height as u64),
        );
        cat3(&head, &tail, "}")
    }

    /// The outcome of starting: the sidecar's reply, or why there is none.
    pub fn finish_start(&mut self, reply: Result<String, String>) -> (r: CyclesStatus)
        ensures
            final(self).last_seq == old(self).last_seq,
            final(self).last_samples == old(self).last_samples,
            final(self).last_width == old(self).last_width,
            final(self).last_height == old(self).last_height,
            match reply {
                Ok(text) => final(self).overlay && final(self).last_error == old(self).last_error
                    && r@ == status_in(parsed(text@), true),
                Err(e) => final(self).overlay == old(self).overlay && text_in(
                    final(self).last_error,
                ) == Some(e@) && r@ == down_status(old(self).overlay, e@),
            },
    {
        match reply {
            Ok(text) => {
                self.overlay = true;
                parse_status(&text, true)
            },
            Err(e) => {
                self.last_error = Some(e.clone());
                error_status(self.overlay, e)
            },
        }
    }

    /// The outcome of pausing or resuming.
    pub fn finish_command(&self, reply: Result<String, String>) -> (r: CyclesStatus)
        ensures
            r@ == (match reply {
                Ok(text) => status_in(parsed(text@), self.overlay),
                Err(e) => down_status(self.overlay, e@),
            }),
    {
        match reply {
            Ok(text) => parse_status(&text, self.overlay),
            Err(e) => error_status(self.overlay, e),
        }
    }

    /// The outcome of stopping, which takes the overlay away whatever the sidecar says.
    pub fn finish_stop(&mut self, reply: Result<String, String>) -> (r: CyclesStatus)
        ensures
            !final(self).overlay,
            final(self).last_seq == old(self).last_seq,
            final(self).last_error == old(self).last_error,
            final(self).last_samples == old(self).last_samples,
            final(self).last_width == old(self).last_width,
            final(self).last_height == old(self).last_height,
            r@ == (match reply {
                Ok(text) => status_in(parsed(text@), false),
                Err(e) => down_status(false, e@),
            }),
    {
        self.overlay = false;
        self.finish_command(reply)
    }

    /// The status as far as it is known: without a reply, idle if the sidecar runs.
    pub fn snapshot(&self, reply: Result<String, String>, running: bool) -> (r: CyclesStatus)
        ensures
            r@ == (match reply {
                Ok(text) => status_in(parsed(text@), self.overlay),
                Err(_) => StatusModel {
                    ok: running,
                    state: if running {
                        "idle"@
                    } else {
                        "down"@
                    },
                    sample: 0,
                    width: 0,
                    height: 0,
                    overlay: self.overlay,
                    error: None,
                },
            }),
    {
        match reply {
            Ok(text) => parse_status(&text, self.overlay),
            Err(_) => CyclesStatus {
                ok: running,
                state: if running {
                    "idle".to_owned()
                } else {
                    "down".to_owned()
                },
                sample: 0,
                width: 0,
                height: 0,
                overlay: self.overlay,
                error: None,
            },
        }
    }

    pub fn overlay_on(&self) -> (r: bool)
        ensures
            r == self.overlay,
    {
        self.overlay
    }

    /// What to start again with when the document changed under a showing overlay.
    pub fn refresh(&self) -> (r: Option<(u32, u32, u32)>)
        ensures
            r == (if self.overlay {
                Some((self.last_samples, self.last_width, self.last_height))
            } else {
                None
            }),
    {
        if self.overlay {
            Some((self.last_samples, self.last_width, self.last_height))
        } else {
            None
        }
    }

    /// The answer to an action that there is not.
    pub fn unknown_action(&self, action: &str) -> (r: CyclesStatus)
        ensures
            r@ == down_status(self.overlay, "unknown_cycles_action:"@ + action@),
    {
        error_status(self.overlay, cat2("unknown_cycles_action:", action))
    }

    /// Takes the shared frame, if it is a new and whole one.
    pub fn take_frame(&mut self, buffer: &[u8], seq_after: u32) -> (r: Option<Frame>)
        ensures
            match r {
                None => *final(self) == *old(self) && !offers_frame(
                    buffer@,
                    seq_after,
                    old(self).last_seq,
                ),
                Some(f) => {
                    &&& offers_frame(buffer@, seq_after, old(self).last_seq)
                    &&& *final(self) == (CyclesDesk { last_seq: f.seq, ..*old(self) })
                    &&& is_frame(f, buffer@)
                },
            },
    {
        match read_frame(buffer, seq_after, self.last_seq) {
            None => None,
            Some(f) => {
                self.last_seq = f.seq;
                Some(f)
            },
        }
    }
}

/// The line of a command without arguments.
pub fn command_line(op: &str) -> (r: String)
    ensures
        r@ == "{\"op\":\""@ + op@ + "\"}"@,
{
    cat3("{\"op\":\"", op, "\"}")
}

/// A character of a path as the sidecar takes it: with slashes one way.
pub open spec fn forward(c: char) -> char {
    if c == '\\' {
        '/'
    } else {
        c
    }
}

/// A path as the sidecar takes it: without the verbatim prefix, with forward slashes.
pub fn sidecar_path(path: &str) -> (r: String)
    ensures
        r@ == (if begins(path@, "\\\\?\\"@) {
            path@.skip("\\\\?\\"@.len() as int)
        } else {
            path@
        }).map_values(|c: char| forward(c)),
{
    let rest = match strip_prefix(path, "\\\\?\\") {
        Some(s) => s,
        None => path.to_owned(),
    };
    let c = chars_of(&rest);
    let mut out = String::new();
    let mut i: usize = 0;
    while i < c.len()
        invariant
            i <= c.len(),
            out@ == c@.take(i as int).map_values(|c: char| forward(c)),
        decreases c.len() - i,
    {
        let x: char = if c[i] == '\\' {
            '/'
        } else {
            c[i]
        };
        assert(c@.take(i as int + 1).map_values(|c: char| forward(c)) =~= c@.take(
            i as int,
        ).map_values(|c: char| forward(c)).push(forward(c@[i as int])));
        out.push(x);
        i += 1;
    }
    assert(c@.take(c@.len() as int) =~= c@);
    out
}

/// The 32-bit number at a place, least significant byte first.
pub open spec fn word_at(b: Seq<u8>, i: int) -> int {
    b[i] + 256 * b[i + 1] + 65536 * b[i + 2] + 16777216 * b[i + 3]
}

fn read_u32(b: &[u8], i: usize) -> (r: u32)
    requires
        i + 4 <= b@.len(),
    ensures
        r == word_at(b@, i as int),
{
    b[i] as u32 + 256 * b[i + 1] as u32 + 65536 * b[i + 2] as u32 + 16777216 * b[i + 3] as u32
}

pub open spec fn shared_width(b: Seq<u8>) -> int {
    word_at(b, 4)
}

pub open spec fn shared_height(b: Seq<u8>) -> int {
    word_at(b, 8)
}

pub open spec fn shared_stride(b: Seq<u8>) -> int {
    word_at(b, 24)
}

/// Every row, and every pixel of every row, lies within the buffer.
pub open spec fn rows_fit(b: Seq<u8>) -> bool {
    &&& shared_height(b) * shared_stride(b) + HEADER <= b.len()
    &&& (shared_height(b) - 1) * shared_stride(b) + 4 * shared_width(b) + HEADER <= b.len()
}

/// Whether the buffer holds a whole frame that is newer than the last one, and that was not
/// replaced while it was read.
pub open spec fn offers_frame(b: Seq<u8>, seq_after: u32, last_seq: u32) -> bool {
    &&& b.len() >= HEADER
    &&& word_at(b, 0) == MAGIC
    &&& word_at(b, 16) != last_seq
    &&& word_at(b, 16) == seq_after
    &&& shared_width(b) != 0
    &&& shared_height(b) != 0
    &&& word_at(b, 20) % 2 == 1
    &&& shared_stride(b) != 0
    &&& rows_fit(b)
}

/// Row `y` of the shared pixels.
pub open spec fn shared_row(b: Seq<u8>, y: int) -> Seq<u8> {
    b.subrange(
        HEADER + y * shared_stride(b),
        HEADER + y * shared_stride(b) + 4 * shared_width(b),
    )
}

/// The first `n` rows one after the other.
pub open spec fn shared_rows(b: Seq<u8>, n: int) -> Seq<u8>
    decreases n,
{
    if n <= 0 {
        Seq::empty()
    } else {
        shared_rows(b, n - 1) + shared_row(b, n - 1)
    }
}

/// A frame is what the buffer holds.
pub open spec fn is_frame(f: Frame, b: Seq<u8>) -> bool {
    &&& f.width == shared_width(b)
    &&& f.height == shared_height(b)
    &&& f.sample == word_at(b, 12)
    &&& f.seq == word_at(b, 16)
    &&& f.flags == word_at(b, 20)
    &&& f.rgba@ == shared_rows(b, shared_height(b))
}

fn read_frame(b: &[u8], seq_after: u32, last_seq: u32) -> (r: Option<Frame>)
    ensures
        match r {
            None => !offers_frame(b@, seq_after, last_seq),
            Some(f) => offers_frame(b@, seq_after, last_seq) && is_frame(f, b@),
        },
{
    if b.len() < HEADER {
        return None;
    }
    let magic: u32 = read_u32(b, 0);
    let width: u32 = read_u32(b, 4);
    let height: u32 = read_u32(b, 8);
    let sample: u32 = read_u32(b, 12);
    let seq: u32 = read_u32(b, 16);
    let flags: u32 = read_u32(b, 20);
    let stride: u32 = read_u32(b, 24);
    if magic != MAGIC || seq == last_seq || seq != seq_after || width == 0 || height == 0 || flags
        % 2 != 1 || stride == 0 {
        return None;
    }
    let n: u128 = b.len() as u128;
    assert(0 <= height * stride <= 0xffff_ffff * 0xffff_ffff) by (nonlinear_arith)
        requires
            0 <= height <= 0xffff_ffff,
            0 <= stride <= 0xffff_ffff,
    ;
    assert(0 <= (height - 1) * stride <= height * stride) by (nonlinear_arith)
        requires
            1 <= height,
            0 <= stride,
    ;
    let all: u128 = height as u128 * stride as u128;
    let last: u128 = (height as u128 - 1) * stride as u128;
    if all + 256 > n || last + 4 * width as u128 + 256 > n {
        return None;
    }
    let row: usize = 4 * width as usize;
    let mut rgba: Vec<u8> = Vec::new();
    let mut y: u32 = 0;
    while y < height
        invariant
            y <= height,
            height >= 1,
            row == 4 * width,
            width == shared_width(b@),
            height == shared_height(b@),
            stride == shared_stride(b@),
            (height - 1) * stride + 4 * width + HEADER <= b@.len(),
            b@.len() <= usize::MAX,
            rgba@ == shared_rows(b@, y as int),
        decreases height - y,
    {
        assert(0 <= y * stride <= (height - 1) * stride) by (nonlinear_arith)
            requires
                0 <= y <= height - 1,
                0 <= stride,
        ;
        let start: usize = HEADER + y as usize * stride as usize;
        let ghost done = rgba@;
        let mut k: usize = 0;
        while k < row
            invariant
                k <= row,
                start + row <= b@.len(),
                b@.len() <= usize::MAX,
                rgba@ == done + b@.subrange(start as int, start + k),
            decreases row - k,
        {
            rgba.push(b[start + k]);
            k += 1;
            assert(rgba@ =~= done + b@.subrange(start as int, start + k));
        }
        y += 1;
    }
    Some(Frame { width, height, sample, seq, flags, rgba })
}

} // verus!
