//! Drawing the live feed: a title bar and one card per exchange.

use crate::feed::{EventModel, FeedEvent, FeedModel, MailboxFeed, ACTIVE_WINDOW, FEED_HIT_CAP};
use crate::numeric::{encoded, shows, writes, Real};
use crate::paint::{
    clear, filled, picture_bytes, with_text, Bitmap, Picture, CELL_H, CELL_W, CHAR_H, CHAR_W,
};
use crate::text::{cat2, cat3, cat4, chars_of, decimal, decimal_text, same, texts};
use crate::wrap::{shortened, truncate, upper, uppered, wrap_text, wrapped};
use vstd::prelude::*;

verus! {

pub const PAD_X: usize = 10;

pub const PAD_Y: usize = 10;

pub const STRIPE_W: usize = 3;

pub const CARD_PAD_Y: usize = 2;

pub const CARD_GAP: usize = 4;

/// Whole pixels of the title bar, of a control, of the space around it and of the grip.
pub const TITLE_PIXELS: usize = 28;

pub const CTRL_PIXELS: usize = 22;

pub const CTRL_GAP_PIXELS: usize = 4;

pub const GRIP_PIXELS: usize = 18;

/// Pixels of the title bar that the title leaves to its margin and the controls.
pub const TITLE_RESERVE: usize = 80;

pub const COL_APPLY: [u8; 4] = [90, 210, 170, 255];

pub const COL_QUERY: [u8; 4] = [230, 175, 70, 255];

pub const COL_STATUS: [u8; 4] = [150, 170, 200, 255];

pub const COL_INSPECT: [u8; 4] = [200, 160, 90, 255];

pub const COL_FAIL: [u8; 4] = [230, 110, 100, 255];

pub const COL_OK: [u8; 4] = [110, 200, 130, 255];

pub const COL_BODY: [u8; 4] = [230, 234, 240, 255];

pub const COL_MUTED: [u8; 4] = [150, 158, 168, 255];

/// Characters are drawn double size on panels with room for them.
#[verifier::allow_in_spec]
pub fn glyph_scale(panel_h: u32) -> usize
    returns
        (if panel_h > 360 {
            2usize
        } else {
            1usize
        }),
{
    if panel_h > 360 {
        2
    } else {
        1
    }
}

/// The colour of an operation.
pub open spec fn color_of_op(op: Seq<char>) -> [u8; 4] {
    if op == "apply"@ {
        COL_APPLY
    } else if op == "query"@ {
        COL_QUERY
    } else if op == "status"@ {
        COL_STATUS
    } else if op == "inspect"@ {
        COL_INSPECT
    } else {
        COL_MUTED
    }
}

pub fn op_color(op: &str) -> (r: [u8; 4])
    ensures
        r == color_of_op(op@),
{
    if same(op, "apply") {
        COL_APPLY
    } else if same(op, "query") {
        COL_QUERY
    } else if same(op, "status") {
        COL_STATUS
    } else if same(op, "inspect") {
        COL_INSPECT
    } else {
        COL_MUTED
    }
}

/// The name of an operation in capitals.
pub fn op_label(op: &str) -> (r: String)
    ensures
        r@ == uppered(op@),
{
    upper(op)
}

pub open spec fn stripe_of(e: EventModel) -> [u8; 4] {
    if e.ok {
        color_of_op(e.op)
    } else {
        COL_FAIL
    }
}

/// The stripe of a card: red where the exchange failed.
pub fn stripe_color(event: &FeedEvent) -> (r: [u8; 4])
    ensures
        r == stripe_of(event@),
{
    if event.ok {
        op_color(&event.op)
    } else {
        COL_FAIL
    }
}

/// Lines so far, and those of the first `n` hits.
pub open spec fn hit_lines(
    before: Seq<Seq<char>>,
    hits: Seq<Seq<char>>,
    cols: int,
    n: int,
) -> Seq<Seq<char>>
    decreases n,
{
    if n <= 0 {
        before
    } else {
        hit_lines(before, hits, cols, n - 1) + wrapped(hits[n - 1], cols)
    }
}

/// The lines of a card below its header: the summary, then each hit on a line of its own, as
/// many as are shown.
pub open spec fn body_lines(e: EventModel, cols: int) -> Seq<Seq<char>> {
    let n = e.hits.len();
    let shown = if n < FEED_HIT_CAP {
        n as int
    } else {
        FEED_HIT_CAP as int
    };
    let lines = hit_lines(wrapped(e.summary, cols), e.hits, cols, shown);
    if n > FEED_HIT_CAP {
        lines.push("+"@ + decimal_text((n - FEED_HIT_CAP) as nat) + " more"@)
    } else {
        lines
    }
}

pub fn card_body_lines(event: &FeedEvent, cols: usize) -> (r: Vec<String>)
    ensures
        texts(r@) == body_lines(event@, cols as int),
{
    let mut lines = wrap_text(&event.summary, cols);
    let ghost first = texts(lines@);
    let n: usize = event.hits.len();
    let shown: usize = if n < FEED_HIT_CAP {
        n
    } else {
        FEED_HIT_CAP
    };
    let mut i: usize = 0;
    while i < shown
        invariant
            i <= shown,
            shown <= event.hits.len(),
            texts(lines@) == hit_lines(first, texts(event.hits@), cols as int, i as int),
        decreases shown - i,
    {
        let mut more = wrap_text(&event.hits[i], cols);
        let ghost now = texts(lines@);
        let ghost added = texts(more@);
        lines.append(&mut more);
        assert(texts(lines@) =~= now + added);
        assert(texts(event.hits@)[i as int] == event.hits@[i as int]@);
        i += 1;
    }
    if n > FEED_HIT_CAP {
        let ghost now = texts(lines@);
        let more = cat3("+", &decimal((n - FEED_HIT_CAP) as u64), " more");
        lines.push(more);
        assert(texts(lines@) =~= now.push(more@));
    }
    lines
}

/// Under ten milliseconds a decimal is shown.
pub open spec fn timing_text(ms: Real, h: spec_fn(Real, u8) -> Seq<char>) -> Seq<char> {
    if ms.less(encoded(0x4120_0000)) {
        h(ms, 1) + "ms"@
    } else {
        h(ms, 0) + "ms"@
    }
}

fn timing<T: Fn(Real, u8) -> String>(ms: Real, text: &T) -> (r: String)
    requires
        writes(*text),
    ensures
        forall|h: spec_fn(Real, u8) -> Seq<char>| #[trigger]
            shows(*text, h) ==> r@ == timing_text(ms, h),
{
    let t = if ms.lt(encoded(0x4120_0000)) {
        text(ms, 1)
    } else {
        text(ms, 0)
    };
    cat2(&t, "ms")
}

/// A card's header: operation, outcome, revision and timing, a cell apart.
pub open spec fn with_header(
    p: Picture,
    x: int,
    y: int,
    e: EventModel,
    scale: int,
    w: int,
    h: spec_fn(Real, u8) -> Seq<char>,
) -> Picture {
    let gap = CELL_W * scale;
    let a = with_text(p, x, y, uppered(e.op), color_of_op(e.op), scale, w, 0);
    let b = if e.ok {
        with_text(a.0, a.1 + gap, y, "ok"@, COL_OK, scale, w, 0)
    } else {
        with_text(a.0, a.1 + gap, y, "FAIL"@, COL_FAIL, scale, w, 0)
    };
    let c = match e.revision {
        Some(v) => with_text(
            b.0,
            b.1 + gap,
            y,
            "r"@ + decimal_text(v as nat),
            COL_MUTED,
            scale,
            w,
            0,
        ),
        None => b,
    };
    with_text(c.0, c.1 + gap, y, timing_text(e.elapsed_ms, h), COL_MUTED, scale, w, 0).0
}

fn draw_card_header<T: Fn(Real, u8) -> String>(
    bmp: &mut Bitmap,
    x: usize,
    y: usize,
    event: &FeedEvent,
    scale: usize,
    text: &T,
)
    requires
        writes(*text),
        old(bmp).sized(old(bmp)@.len() as int),
        1 <= scale <= 2,
        x <= 64,
        old(bmp).w + 400 <= usize::MAX,
        y + CHAR_H * scale <= usize::MAX,
    ensures
        final(bmp).w == old(bmp).w,
        final(bmp).sized(old(bmp)@.len() as int),
        forall|h: spec_fn(Real, u8) -> Seq<char>| #[trigger]
            shows(*text, h) ==> final(bmp)@ == with_header(
                old(bmp)@,
                x as int,
                y as int,
                event@,
                scale as int,
                old(bmp).w as int,
                h,
            ),
{
    proof {
        double_cell(scale as int);
    }
    let gap: usize = CELL_W * scale;
    let mut cx: usize = bmp.draw_text(x, y, &op_label(&event.op), op_color(&event.op), scale);
    cx += gap;
    if event.ok {
        cx = bmp.draw_text(cx, y, "ok", COL_OK, scale);
    } else {
        cx = bmp.draw_text(cx, y, "FAIL", COL_FAIL, scale);
    }
    if let Some(rev) = event.revision {
        cx += gap;
        cx = bmp.draw_text(cx, y, &cat2("r", &decimal(rev)), COL_MUTED, scale);
    }
    cx += gap;
    let t = timing(event.elapsed_ms, text);
    let _ = bmp.draw_text(cx, y, &t, COL_MUTED, scale);
}

proof fn double_cell(scale: int)
    requires
        scale <= 2,
    ensures
        2 * CELL_W * scale <= 24,
        CELL_H * scale <= 18,
        CHAR_H * scale <= 14,
{
    assert(2 * CELL_W * scale == 12 * scale) by (nonlinear_arith)
        requires
            CELL_W == 6,
    ;
}

/// How a panel is laid out.
pub struct Sheet {
    pub w: int,
    pub scale: int,
    /// Characters that fit on a line of a card.
    pub cols: int,
    /// Where cards end.
    pub limit: int,
}

/// The first `n` lines of a card's body, one below the other.
pub open spec fn with_lines(
    p: Picture,
    x: int,
    y: int,
    lines: Seq<Seq<char>>,
    scale: int,
    w: int,
    n: int,
) -> Picture
    decreases n,
{
    if n <= 0 {
        p
    } else {
        with_text(
            with_lines(p, x, y, lines, scale, w, n - 1),
            x,
            y + (n - 1) * (CELL_H * scale),
            lines[n - 1],
            COL_BODY,
            scale,
            w,
            0,
        ).0
    }
}

/// Lines of a card that there is room for below `y`, header included.
pub open spec fn room(t: Sheet, y: int) -> int {
    if t.limit > y + CARD_PAD_Y {
        (t.limit - (y + CARD_PAD_Y)) / (CELL_H * t.scale)
    } else {
        0
    }
}

pub open spec fn lines_taken(t: Sheet, y: int, body: int) -> int {
    if room(t, y) < 1 + body {
        room(t, y)
    } else {
        1 + body
    }
}

pub open spec fn card_height(t: Sheet, taken: int) -> int {
    CARD_PAD_Y * 2 + taken * (CELL_H * t.scale)
}

pub open spec fn plate_width(w: int) -> int {
    if w > PAD_X * 2 {
        w - PAD_X * 2
    } else {
        0
    }
}

/// A card at `y`, cut to the room that there is, and a rule below it.
pub open spec fn with_card(
    p: Picture,
    e: EventModel,
    y: int,
    t: Sheet,
    h: spec_fn(Real, u8) -> Seq<char>,
) -> Picture {
    let body = body_lines(e, t.cols);
    let taken = lines_taken(t, y, body.len() as int);
    let high = card_height(t, taken);
    let wide = plate_width(t.w);
    let x = PAD_X + STRIPE_W + 4;
    let plate = filled(p, PAD_X as int, y, wide, high, [16u8, 20u8, 26u8, 230u8]);
    let striped = filled(plate, PAD_X as int, y, STRIPE_W as int, high, stripe_of(e));
    let headed = with_header(striped, x, y + CARD_PAD_Y, e, t.scale, t.w, h);
    let written = with_lines(
        headed,
        x,
        y + CARD_PAD_Y + CELL_H * t.scale,
        body,
        t.scale,
        t.w,
        taken - 1,
    );
    filled(written, PAD_X as int, y + high, wide, 1, COL_MUTED)
}

/// Cards from the `i`-th newest event on, as far down as there is room.
pub open spec fn with_cards(
    p: Picture,
    events: Seq<EventModel>,
    i: int,
    y: int,
    t: Sheet,
    h: spec_fn(Real, u8) -> Seq<char>,
) -> Picture
    decreases events.len() - i,
{
    if i >= events.len() || room(t, y) <= 0 {
        p
    } else {
        let e = events[events.len() - 1 - i];
        let high = card_height(t, lines_taken(t, y, body_lines(e, t.cols).len() as int));
        with_cards(with_card(p, e, y, t, h), events, i + 1, y + high + 1 + CARD_GAP, t, h)
    }
}

fn draw_card<T: Fn(Real, u8) -> String>(
    bmp: &mut Bitmap,
    event: &FeedEvent,
    y: usize,
    scale: usize,
    cols: usize,
    limit: usize,
    text: &T,
) -> (r: usize)
    requires
        writes(*text),
        old(bmp).sized(old(bmp)@.len() as int),
        1 <= scale <= 2,
        old(bmp).w + 400 <= usize::MAX,
        limit + 400 <= usize::MAX,
        y + CARD_PAD_Y + CELL_H * scale <= limit,
    ensures
        final(bmp).w == old(bmp).w,
        final(bmp).sized(old(bmp)@.len() as int),
        ({
            let t = Sheet {
                w: old(bmp).w as int,
                scale: scale as int,
                cols: cols as int,
                limit: limit as int,
            };
            &&& r == y + card_height(
                t,
                lines_taken(t, y as int, body_lines(event@, cols as int).len() as int),
            ) + 1 + CARD_GAP
            &&& r <= limit + 7
            &&& forall|h: spec_fn(Real, u8) -> Seq<char>| #[trigger]
                shows(*text, h) ==> final(bmp)@ == with_card(old(bmp)@, event@, y as int, t, h)
        }),
{
    let ghost t = Sheet {
        w: bmp.w as int,
        scale: scale as int,
        cols: cols as int,
        limit: limit as int,
    };
    let body = card_body_lines(event, cols);
    let ghost lines = body_lines(event@, cols as int);
    assert(lines.len() == body.len());
    let line_h: usize = CELL_H * scale;
    let max_lines: usize = (limit - (y + CARD_PAD_Y)) / line_h;
    proof {
        double_cell(scale as int);
        let avail = limit - (y + CARD_PAD_Y);
        assert(max_lines >= 1 && max_lines * line_h <= avail) by (nonlinear_arith)
            requires
                max_lines == avail / line_h as int,
                line_h > 0,
                avail >= line_h,
        ;
    }
    let take: usize = if max_lines - 1 < body.len() {
        max_lines
    } else {
        1 + body.len()
    };
    proof {
        assert(take * line_h <= max_lines * line_h) by (nonlinear_arith)
            requires
                take <= max_lines,
        ;
        assert(take == lines_taken(t, y as int, lines.len() as int));
    }
    let card_h: usize = CARD_PAD_Y * 2 + take * line_h;
    let plate_w: usize = if bmp.w > PAD_X * 2 {
        bmp.w - PAD_X * 2
    } else {
        0
    };
    let text_x: usize = PAD_X + STRIPE_W + 4;
    bmp.fill_rect(PAD_X, y, plate_w, card_h, [16u8, 20u8, 26u8, 230u8]);
    bmp.fill_rect(PAD_X, y, STRIPE_W, card_h, stripe_color(event));
    draw_card_header(bmp, text_x, y + CARD_PAD_Y, event, scale, text);
    let ghost headed = bmp@;
    let top: usize = y + CARD_PAD_Y + line_h;
    let mut k: usize = 1;
    while k < take
        invariant
            1 <= k <= take,
            take <= 1 + body.len(),
            lines == texts(body@),
            bmp.w == old(bmp).w,
            bmp.w + 400 <= usize::MAX,
            bmp.sized(old(bmp)@.len() as int),
            1 <= scale <= 2,
            line_h == CELL_H * scale,
            text_x == PAD_X + STRIPE_W + 4,
            top == y + CARD_PAD_Y + line_h,
            take * line_h <= limit - (y + CARD_PAD_Y),
            limit + 400 <= usize::MAX,
            bmp@ == with_lines(
                headed,
                text_x as int,
                top as int,
                lines,
                scale as int,
                bmp.w as int,
                k - 1,
            ),
        decreases take - k,
    {
        proof {
            double_cell(scale as int);
        }
        assert((k - 1) * line_h + line_h <= take * line_h) by (nonlinear_arith)
            requires
                k <= take,
        ;
        let ly: usize = top + (k - 1) * line_h;
        assert((k - 1) * (CELL_H * scale) == (k - 1) * line_h);
        assert(lines[k - 1] == body@[k - 1]@);
        let _ = bmp.draw_text(text_x, ly, &body[k - 1], COL_BODY, scale);
        k += 1;
    }
    bmp.fill_rect(PAD_X, y + card_h, plate_w, 1, COL_MUTED);
    y + card_h + 1 + CARD_GAP
}

fn draw_cards<T: Fn(Real, u8) -> String>(
    bmp: &mut Bitmap,
    feed: &MailboxFeed,
    top: usize,
    scale: usize,
    cols: usize,
    limit: usize,
    text: &T,
)
    requires
        writes(*text),
        old(bmp).sized(old(bmp)@.len() as int),
        1 <= scale <= 2,
        old(bmp).w + 400 <= usize::MAX,
        limit + 400 <= usize::MAX,
        top <= 64,
    ensures
        final(bmp).w == old(bmp).w,
        final(bmp).sized(old(bmp)@.len() as int),
        forall|h: spec_fn(Real, u8) -> Seq<char>| #[trigger]
            shows(*text, h) ==> final(bmp)@ == with_cards(
                old(bmp)@,
                feed@.events,
                0,
                top as int,
                Sheet {
                    w: old(bmp).w as int,
                    scale: scale as int,
                    cols: cols as int,
                    limit: limit as int,
                },
                h,
            ),
{
    let ghost t = Sheet {
        w: bmp.w as int,
        scale: scale as int,
        cols: cols as int,
        limit: limit as int,
    };
    let ghost start = bmp@;
    let events = feed.newest_first();
    let line_h: usize = CELL_H * scale;
    let mut y: usize = top;
    let mut i: usize = 0;
    while i < events.len()
        invariant
            i <= events.len(),
            events.len() == feed@.events.len(),
            forall|k: int|
                0 <= k < events.len() ==> (#[trigger] events@[k])@ == feed@.events[events.len() - 1
                    - k],
            writes(*text),
            1 <= scale <= 2,
            line_h == CELL_H * scale,
            limit + 400 <= usize::MAX,
            y <= 64 || y <= limit + 7,
            bmp.w == old(bmp).w,
            bmp.w + 400 <= usize::MAX,
            bmp.sized(old(bmp)@.len() as int),
            start == old(bmp)@,
            t == (Sheet {
                w: old(bmp).w as int,
                scale: scale as int,
                cols: cols as int,
                limit: limit as int,
            }),
            forall|h: spec_fn(Real, u8) -> Seq<char>| #[trigger]
                shows(*text, h) ==> with_cards(start, feed@.events, 0, top as int, t, h)
                    == with_cards(bmp@, feed@.events, i as int, y as int, t, h),
        decreases events.len() - i,
    {
        proof {
            double_cell(scale as int);
        }
        if limit < y + CARD_PAD_Y + line_h {
            assert(room(t, y as int) <= 0) by {
                let avail = limit - (y + CARD_PAD_Y);
                if avail > 0 {
                    assert(avail / (CELL_H * scale) == 0) by (nonlinear_arith)
                        requires
                            0 < avail < CELL_H * scale,
                    ;
                }
            }
            return;
        }
        assert(room(t, y as int) >= 1) by {
            let avail = limit - (y + CARD_PAD_Y);
            assert(avail / (CELL_H * scale) >= 1) by (nonlinear_arith)
                requires
                    avail >= CELL_H * scale,
                    CELL_H * scale > 0,
            ;
        }
        assert(events@[i as int]@ == feed@.events[events.len() - 1 - i]);
        y = draw_card(bmp, events[i], y, scale, cols, limit, text);
        i += 1;
    }
}

/// One pixel at least.
pub open spec fn at_least_one(n: u32) -> u32 {
    if n < 1 {
        1
    } else {
        n
    }
}

pub open spec fn less_by(a: int, b: int) -> int {
    if a > b {
        a - b
    } else {
        0
    }
}

/// The words in the title bar.
pub open spec fn title_text(f: FeedModel, active: bool) -> Seq<char> {
    "MAILBOX LIVE FEED   "@ + (if active {
        "ACTIVE"@
    } else {
        "IDLE"@
    }) + "  "@ + decimal_text(f.events.len())
}

/// Characters of the title that fit left of the controls; eight are always shown.
pub open spec fn title_columns(w: int, scale: int) -> int {
    let n = less_by(w, TITLE_RESERVE as int) / (CELL_W * scale);
    if n < 8 {
        8
    } else {
        n
    }
}

/// The top of text that stands in the middle of the title bar.
pub open spec fn title_top(scale: int) -> int {
    (TITLE_PIXELS - CHAR_H * scale) / 2
}

/// An empty panel with its title bar: backdrop, accent, title and controls.
pub open spec fn titled(f: FeedModel, active: bool, w: int, h: int, scale: int, solid: bool) -> Picture {
    let blank = clear(w, h);
    let sheet = if solid {
        filled(blank, 0, 0, w, h, [18u8, 22u8, 28u8, 240u8])
    } else {
        blank
    };
    let bar = filled(sheet, 0, 0, w, TITLE_PIXELS as int, [24u8, 30u8, 38u8, 240u8]);
    let accent = filled(bar, 0, 0, 4, h, [70u8, 150u8, 220u8, 255u8]);
    let named = with_text(
        accent,
        PAD_X + 4,
        title_top(scale),
        shortened(title_text(f, active), title_columns(w, scale)),
        if active {
            [120u8, 210u8, 160u8, 255u8]
        } else {
            [200u8, 205u8, 210u8, 255u8]
        },
        scale,
        w,
        0,
    ).0;
    let fs_x = less_by(w, CTRL_GAP_PIXELS + CTRL_PIXELS);
    let col_x = less_by(fs_x, CTRL_GAP_PIXELS + CTRL_PIXELS);
    let collapse = with_text(
        named,
        col_x + (CTRL_PIXELS - CHAR_W * scale) / 2,
        title_top(scale),
        if h <= TITLE_PIXELS {
            "+"@
        } else {
            "-"@
        },
        [210u8, 218u8, 228u8, 255u8],
        scale,
        w,
        0,
    ).0;
    with_text(
        collapse,
        fs_x + (CTRL_PIXELS - CHAR_W * 2 * scale) / 2,
        title_top(scale),
        "[]"@,
        [210u8, 218u8, 228u8, 255u8],
        scale,
        w,
        0,
    ).0
}

/// The picture of the panel at a time.
pub open spec fn panel_picture(
    f: FeedModel,
    active: bool,
    w: int,
    h: int,
    scale: int,
    solid: bool,
    n: spec_fn(Real, u8) -> Seq<char>,
) -> Picture {
    let base = titled(f, active, w, h, scale, solid);
    if h <= TITLE_PIXELS {
        base
    } else {
        let ruled = filled(
            base,
            PAD_X as int,
            TITLE_PIXELS as int,
            plate_width(w),
            1,
            [60u8, 70u8, 80u8, 255u8],
        );
        let t = Sheet {
            w,
            scale,
            cols: {
                let c = less_by(w, 27) / (CELL_W * scale);
                if c < 1 {
                    1
                } else {
                    c
                }
            },
            limit: if solid {
                less_by(h, GRIP_PIXELS as int)
            } else {
                h
            },
        };
        let carded = with_cards(ruled, f.events, 0, TITLE_PIXELS + 5, t, n);
        let gripped = if solid {
            let gx = less_by(w, GRIP_PIXELS as int);
            let gy = less_by(h, GRIP_PIXELS as int);
            with_text(
                filled(
                    carded,
                    gx,
                    gy,
                    GRIP_PIXELS as int,
                    GRIP_PIXELS as int,
                    [40u8, 48u8, 58u8, 255u8],
                ),
                gx + 4,
                gy + 5,
                "/"@,
                COL_MUTED,
                1,
                w,
                0,
            ).0
        } else {
            carded
        };
        if f.events.len() == 0 {
            with_text(
                gripped,
                PAD_X + 4,
                TITLE_PIXELS + 5,
                "waiting for mailbox traffic..."@,
                COL_MUTED,
                scale,
                w,
                0,
            ).0
        } else {
            gripped
        }
    }
}

/// A drawn panel.
#[derive(Debug)]
pub struct HudFrame {
    /// Red, green, blue and alpha of each pixel, row by row.
    pub pixels: Vec<u8>,
    pub width: u32,
    pub height: u32,
    pub active: bool,
    pub event_count: usize,
}

fn saturating(a: usize, b: usize) -> (r: usize)
    ensures
        r == less_by(a as int, b as int),
{
    if a > b {
        a - b
    } else {
        0
    }
}

fn draw_title(bmp: &mut Bitmap, feed: &MailboxFeed, active: bool, h: usize, scale: usize, solid: bool)
    requires
        old(bmp)@ == clear(old(bmp).w as int, h as int),
        old(bmp).sized(h as int),
        1 <= scale <= 2,
        old(bmp).w + 400 <= usize::MAX,
        h + 400 <= usize::MAX,
    ensures
        final(bmp).w == old(bmp).w,
        final(bmp).sized(h as int),
        final(bmp)@ == titled(feed@, active, old(bmp).w as int, h as int, scale as int, solid),
{
    proof {
        double_cell(scale as int);
    }
    let w: usize = bmp.w;
    if solid {
        bmp.fill_rect(0, 0, w, h, [18u8, 22u8, 28u8, 240u8]);
    }
    bmp.fill_rect(0, 0, w, TITLE_PIXELS, [24u8, 30u8, 38u8, 240u8]);
    bmp.fill_rect(0, 0, 4, h, [70u8, 150u8, 220u8, 255u8]);
    let status = if active {
        "ACTIVE"
    } else {
        "IDLE"
    };
    let header = cat4("MAILBOX LIVE FEED   ", status, "  ", &decimal(feed.len() as u64));
    let cell_w: usize = CELL_W * scale;
    let n: usize = saturating(w, TITLE_RESERVE) / cell_w;
    let cols: usize = if n < 8 {
        8
    } else {
        n
    };
    let title_y: usize = (TITLE_PIXELS - CHAR_H * scale) / 2;
    let shade = if active {
        [120u8, 210u8, 160u8, 255u8]
    } else {
        [200u8, 205u8, 210u8, 255u8]
    };
    let _ = bmp.draw_text(PAD_X + 4, title_y, &truncate(&header, cols), shade, scale);
    let fs_x: usize = saturating(w, CTRL_GAP_PIXELS + CTRL_PIXELS);
    let col_x: usize = saturating(fs_x, CTRL_GAP_PIXELS + CTRL_PIXELS);
    let col_text_x: usize = col_x + (CTRL_PIXELS - CHAR_W * scale) / 2;
    let fs_text_x: usize = fs_x + (CTRL_PIXELS - CHAR_W * 2 * scale) / 2;
    let sign = if h <= TITLE_PIXELS {
        "+"
    } else {
        "-"
    };
    let _ = bmp.draw_text(col_text_x, title_y, sign, [210u8, 218u8, 228u8, 255u8], scale);
    let _ = bmp.draw_text(fs_text_x, title_y, "[]", [210u8, 218u8, 228u8, 255u8], scale);
}

/// Draws the panel: solid where it floats, clear behind the cards where it fills the window.
pub fn rasterize_feed<T: Fn(Real, u8) -> String>(
    feed: &MailboxFeed,
    now: u64,
    width: u32,
    height: u32,
    solid: bool,
    text: &T,
) -> (r: HudFrame)
    requires
        writes(*text),
        at_least_one(width) * at_least_one(height) * 4 <= usize::MAX,
    ensures
        r.width == at_least_one(width),
        r.height == at_least_one(height),
        r.active == (feed@.events.len() > 0 && now - feed@.events.last().at <= ACTIVE_WINDOW),
        r.event_count == feed@.events.len(),
        r.pixels.len() == r.width * r.height * 4,
        forall|n: spec_fn(Real, u8) -> Seq<char>| #[trigger]
            shows(*text, n) ==> r.pixels@ == picture_bytes(
                panel_picture(
                    feed@,
                    r.active,
                    r.width as int,
                    r.height as int,
                    glyph_scale(r.height) as int,
                    solid,
                    n,
                ),
            ),
{
    let width: u32 = if width < 1 {
        1
    } else {
        width
    };
    let height: u32 = if height < 1 {
        1
    } else {
        height
    };
    let w: usize = width as usize;
    let h: usize = height as usize;
    let scale: usize = glyph_scale(height);
    proof {
        double_cell(scale as int);
        assert(w <= w * h && h <= w * h) by (nonlinear_arith)
            requires
                w >= 1,
                h >= 1,
        ;
    }
    let active = feed.is_active(now);
    let mut bmp = Bitmap::new(w, h);
    draw_title(&mut bmp, feed, active, h, scale, solid);
    if h > TITLE_PIXELS {
        let plate_w: usize = saturating(w, PAD_X * 2);
        bmp.fill_rect(PAD_X, TITLE_PIXELS, plate_w, 1, [60u8, 70u8, 80u8, 255u8]);
        let top: usize = TITLE_PIXELS + PAD_Y / 2;
        let cell_w: usize = CELL_W * scale;
        let n: usize = saturating(w, PAD_X + STRIPE_W + 4 + PAD_X) / cell_w;
        let cols: usize = if n < 1 {
            1
        } else {
            n
        };
        let limit: usize = if solid {
            saturating(h, GRIP_PIXELS)
        } else {
            h
        };
        draw_cards(&mut bmp, feed, top, scale, cols, limit, text);
        if solid {
            let gx: usize = saturating(w, GRIP_PIXELS);
            let gy: usize = saturating(h, GRIP_PIXELS);
            bmp.fill_rect(gx, gy, GRIP_PIXELS, GRIP_PIXELS, [40u8, 48u8, 58u8, 255u8]);
            let _ = bmp.draw_text(gx + 4, gy + 5, "/", COL_MUTED, 1);
        }
        if feed.is_empty() {
            let _ = bmp.draw_text(
                PAD_X + 4,
                top,
                "waiting for mailbox traffic...",
                COL_MUTED,
                scale,
            );
        }
    }
    proof {
        crate::paint::bytes_length(bmp@, w as int);
        assert(4 * (w * h) == w * h * 4) by (nonlinear_arith);
    }
    HudFrame { pixels: bmp.bytes(), width, height, active, event_count: feed.len() }
}

/// The length of the longest of the first `n` lines.
pub open spec fn longest(lines: Seq<&str>, n: int) -> int
    decreases n,
{
    if n <= 0 {
        0
    } else {
        let before = longest(lines, n - 1);
        if lines[n - 1]@.len() > before {
            lines[n - 1]@.len() as int
        } else {
            before
        }
    }
}

/// Width and height of a banner; one of no lines is as wide as one character.
pub open spec fn banner_size(lines: Seq<&str>) -> (int, int) {
    let chars = if lines.len() == 0 {
        1
    } else {
        longest(lines, lines.len() as int)
    };
    let w = PAD_X * 2 + chars * 12;
    let h = PAD_Y * 2 + lines.len() * 18 + STRIPE_W;
    (
        if w < 64 {
            64
        } else {
            w
        },
        if h < 28 {
            28
        } else {
            h
        },
    )
}

/// The first `n` lines of a banner on its plate.
pub open spec fn banner_lines(lines: Seq<&str>, w: int, h: int, n: int) -> Picture
    decreases n,
{
    if n <= 0 {
        filled(
            filled(clear(w, h), 0, 0, w, h, [18u8, 22u8, 30u8, 230u8]),
            0,
            0,
            STRIPE_W as int,
            h,
            COL_APPLY,
        )
    } else {
        with_text(
            banner_lines(lines, w, h, n - 1),
            PAD_X + STRIPE_W,
            PAD_Y + (n - 1) * 18,
            lines[n - 1]@,
            COL_BODY,
            2,
            w,
            0,
        ).0
    }
}

/// A small plate with a few lines on it: its width, its height and its bytes.
pub fn rasterize_banner(lines: &[&str]) -> (r: (u32, u32, Vec<u8>))
    requires
        banner_size(lines@).0 <= u32::MAX,
        banner_size(lines@).1 <= u32::MAX,
        banner_size(lines@).0 * banner_size(lines@).1 * 4 <= usize::MAX,
    ensures
        (r.0 as int, r.1 as int) == banner_size(lines@),
        r.2@ == picture_bytes(
            banner_lines(lines@, r.0 as int, r.1 as int, lines@.len() as int),
        ),
        r.2.len() == r.0 * r.1 * 4,
{
    let ghost size = banner_size(lines@);
    proof {
        assert(size.0 <= size.0 * size.1 && size.1 <= size.0 * size.1) by (nonlinear_arith)
            requires
                size.0 >= 1,
                size.1 >= 1,
        ;
    }
    let n: usize = lines.len();
    let mut widest: usize = 0;
    let mut i: usize = 0;
    while i < n
        invariant
            i <= n,
            n == lines@.len(),
            widest == longest(lines@, i as int),
        decreases n - i,
    {
        let len: usize = chars_of(lines[i]).len();
        if len > widest {
            widest = len;
        }
        i += 1;
    }
    let chars: usize = if n == 0 {
        1
    } else {
        widest
    };
    let wide: usize = PAD_X * 2 + chars * 12;
    let w: usize = if wide < 64 {
        64
    } else {
        wide
    };
    let high: usize = PAD_Y * 2 + n * 18 + STRIPE_W;
    let h: usize = if high < 28 {
        28
    } else {
        high
    };
    let mut bmp = Bitmap::new(w, h);
    bmp.fill_rect(0, 0, w, h, [18u8, 22u8, 30u8, 230u8]);
    bmp.fill_rect(0, 0, STRIPE_W, h, COL_APPLY);
    let mut k: usize = 0;
    while k < n
        invariant
            k <= n,
            n == lines@.len(),
            PAD_Y * 2 + n * 18 + STRIPE_W <= h,
            h <= usize::MAX / 4,
            w <= usize::MAX / 4,
            bmp.w == w,
            bmp.sized(h as int),
            bmp@ == banner_lines(lines@, w as int, h as int, k as int),
        decreases n - k,
    {
        let y: usize = PAD_Y + k * 18;
        let _ = bmp.draw_text(PAD_X + STRIPE_W, y, lines[k], COL_BODY, 2);
        k += 1;
    }
    proof {
        crate::paint::bytes_length(bmp@, w as int);
        assert(4 * (w * h) == w * h * 4) by (nonlinear_arith);
    }
    (w as u32, h as u32, bmp.bytes())
}

} // verus!
