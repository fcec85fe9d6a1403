//! The window: pointer and keys on the live-feed panel, titles, and what has to be redrawn.

use crate::beauty::{row_appended, row_at, row_pitch};
use crate::cycles_stream::CyclesStatus;
use crate::feed::{EventModel, FeedEvent};
use crate::hud::{minus, plus, HudHit, HudMode, HudPanel};
use crate::mailbox::CyclesCommand;
use crate::numeric::{answers, computes, encoded, zero, Answer, Calc, Real};
use crate::text::{cat2, cat3, cat4, decimal, decimal_text, lower, lowered, same, texts};
use vstd::prelude::*;

verus! {

/// Longest time between the clicks of a double click, in nanoseconds.
pub const DOUBLE_CLICK: u64 = 350_000_000;

/// The panel and what the pointer does to it.
#[derive(Clone, Copy, Debug, PartialEq, Eq)]
pub struct HudPointer {
    pub panel: HudPanel,
    pub visible: bool,
    pub cursor: (Real, Real),
    pub pressed: bool,
    pub press_pos: (Real, Real),
    pub press_hit: HudHit,
    pub dragging: bool,
    /// Where on the panel the pointer holds it.
    pub grab: (Real, Real),
    /// When the title was clicked last, in nanoseconds.
    pub last_title_click: Option<u64>,
    pub consumed: bool,
}

/// What has to be done after an event.
#[derive(Clone, Copy, Debug, PartialEq, Eq, Structural)]
pub struct Upkeep {
    /// The panel has to be drawn again.
    pub repaint: bool,
    /// The window has to be drawn again.
    pub redraw: bool,
}

#[verifier::allow_in_spec]
pub fn nothing() -> Upkeep
    returns
        (Upkeep { repaint: false, redraw: false }),
{
    Upkeep { repaint: false, redraw: false }
}

#[verifier::allow_in_spec]
pub fn everything() -> Upkeep
    returns
        (Upkeep { repaint: true, redraw: true }),
{
    Upkeep { repaint: true, redraw: true }
}

impl HudPointer {
    pub fn new(panel: HudPanel) -> (r: Self)
        ensures
            r == (HudPointer {
                panel,
                visible: true,
                cursor: (zero(), zero()),
                pressed: false,
                press_pos: (zero(), zero()),
                press_hit: HudHit::Outside,
                dragging: false,
                grab: (zero(), zero()),
                last_title_click: None,
                consumed: false,
            }),
    {
        HudPointer {
            panel,
            visible: true,
            cursor: (zero(), zero()),
            pressed: false,
            press_pos: (zero(), zero()),
            press_hit: HudHit::Outside,
            dragging: false,
            grab: (zero(), zero()),
            last_title_click: None,
            consumed: false,
        }
    }

    /// The pointer has moved four pixels or more from where it was pressed.
    pub open spec fn moved_far(self, x: Real, y: Real, g: spec_fn(Calc) -> Answer) -> bool {
        let dx = minus(x, self.press_pos.0, g);
        let dy = minus(y, self.press_pos.1, g);
        encoded(0x4180_0000).at_most(
            plus(g(Calc::Multiply(dx, dx)).value, g(Calc::Multiply(dy, dy)).value, g),
        )
    }

    /// The place on the panel under a point.
    pub open spec fn hold_at(self, x: Real, y: Real, g: spec_fn(Calc) -> Answer) -> (Real, Real) {
        (minus(x, self.panel.area().0, g), minus(y, self.panel.area().1, g))
    }

    /// The panel follows the pointer that holds it.
    pub open spec fn carried(self, x: Real, y: Real, g: spec_fn(Calc) -> Answer) -> HudPointer {
        HudPointer {
            panel: self.panel.dragged(minus(x, self.grab.0, g), minus(y, self.grab.1, g), g),
            ..self
        }
    }

    /// A drag begins: a panel that fills the window comes off its dock.
    pub open spec fn lifted(self, x: Real, y: Real, g: spec_fn(Calc) -> Answer) -> HudPointer {
        let held = HudPointer { dragging: true, ..self };
        if self.panel.mode == HudMode::Fullscreen {
            let off = HudPointer { panel: self.panel.undocked(x, y, g), ..held };
            HudPointer { grab: off.hold_at(x, y, g), ..off }
        } else {
            held
        }
    }

    /// The state after the pointer moved, and what has to be done.
    pub open spec fn moved(self, x: Real, y: Real, g: spec_fn(Calc) -> Answer) -> (
        HudPointer,
        Upkeep,
    ) {
        let here = HudPointer { cursor: (x, y), ..self };
        if !self.visible || !self.pressed {
            (here, nothing())
        } else if self.press_hit == HudHit::Resize {
            (HudPointer { panel: self.panel.resized(x, y, g), ..here }, everything())
        } else if self.consumed || self.press_hit != HudHit::Title {
            if self.dragging {
                (here.carried(x, y, g), Upkeep { repaint: false, redraw: true })
            } else {
                (here, nothing())
            }
        } else if self.dragging {
            (here.carried(x, y, g), Upkeep { repaint: false, redraw: true })
        } else if self.moved_far(x, y, g) {
            (
                here.lifted(x, y, g).carried(x, y, g),
                Upkeep { repaint: self.panel.mode == HudMode::Fullscreen, redraw: true },
            )
        } else {
            (here, nothing())
        }
    }

    /// The state after the button went down at a time, and what has to be done.
    pub open spec fn pushed(self, now: u64, g: spec_fn(Calc) -> Answer) -> (HudPointer, Upkeep) {
        let x = self.cursor.0;
        let y = self.cursor.1;
        let hit = self.panel.hit_at(x, y, g);
        let down = HudPointer {
            pressed: true,
            press_pos: (x, y),
            press_hit: hit,
            dragging: false,
            consumed: false,
            ..self
        };
        let whole = HudPanel { mode: HudMode::Fullscreen, collapsed: false, ..self.panel };
        if !self.visible {
            (self, nothing())
        } else if hit == HudHit::Collapse {
            (
                HudPointer {
                    panel: HudPanel { collapsed: !self.panel.collapsed, ..self.panel },
                    consumed: true,
                    ..down
                },
                everything(),
            )
        } else if hit == HudHit::Fullscreen {
            (HudPointer { panel: whole, consumed: true, ..down }, everything())
        } else if hit == HudHit::Title {
            if self.last_title_click matches Some(t) && now - t <= DOUBLE_CLICK {
                (
                    HudPointer { panel: whole, last_title_click: None, consumed: true, ..down },
                    everything(),
                )
            } else {
                (
                    HudPointer {
                        grab: self.hold_at(x, y, g),
                        last_title_click: Some(now),
                        ..down
                    },
                    nothing(),
                )
            }
        } else if hit == HudHit::Resize {
            (HudPointer { consumed: true, ..down }, nothing())
        } else {
            (down, nothing())
        }
    }

    /// The state after the button came up: a click on the title that was no drag collapses or
    /// expands the panel.
    pub open spec fn let_go(self) -> (HudPointer, Upkeep) {
        let up = HudPointer { pressed: false, dragging: false, consumed: false, ..self };
        if !self.visible {
            (self, nothing())
        } else if self.pressed && !self.consumed && !self.dragging && self.press_hit
            == HudHit::Title {
            (
                HudPointer {
                    panel: HudPanel { collapsed: !self.panel.collapsed, ..self.panel },
                    ..up
                },
                everything(),
            )
        } else {
            (up, nothing())
        }
    }

    fn carry<F: Fn(Calc) -> Answer>(&mut self, x: Real, y: Real, calc: &F)
        requires
            answers(*calc),
        ensures
            forall|g: spec_fn(Calc) -> Answer| #[trigger]
                computes(*calc, g) ==> *final(self) == old(self).carried(x, y, g),
    {
        let left = calc(Calc::Subtract(x, self.grab.0)).value;
        let top = calc(Calc::Subtract(y, self.grab.1)).value;
        let mut panel = self.panel;
        panel.drag_to(left, top, calc);
        self.panel = panel;
    }

    fn take_hold<F: Fn(Calc) -> Answer>(&self, x: Real, y: Real, calc: &F) -> (r: (Real, Real))
        requires
            answers(*calc),
        ensures
            forall|g: spec_fn(Calc) -> Answer| #[trigger]
                computes(*calc, g) ==> r == self.hold_at(x, y, g),
    {
        let (px, py, _, _) = self.panel.rect();
        let dx = calc(Calc::Subtract(x, px)).value;
        let dy = calc(Calc::Subtract(y, py)).value;
        (dx, dy)
    }

    fn lift<F: Fn(Calc) -> Answer>(&mut self, x: Real, y: Real, calc: &F)
        requires
            answers(*calc),
        ensures
            forall|g: spec_fn(Calc) -> Answer| #[trigger]
                computes(*calc, g) ==> *final(self) == old(self).lifted(x, y, g),
    {
        self.dragging = true;
        if self.panel.mode == HudMode::Fullscreen {
            let mut panel = self.panel;
            panel.undock_and_drag(x, y, calc);
            self.panel = panel;
            let grab = self.take_hold(x, y, calc);
            self.grab = grab;
        }
    }

    fn far_from_press<F: Fn(Calc) -> Answer>(&self, x: Real, y: Real, calc: &F) -> (r: bool)
        requires
            answers(*calc),
        ensures
            forall|g: spec_fn(Calc) -> Answer| #[trigger]
                computes(*calc, g) ==> r == self.moved_far(x, y, g),
    {
        let dx = calc(Calc::Subtract(x, self.press_pos.0)).value;
        let dy = calc(Calc::Subtract(y, self.press_pos.1)).value;
        let xx = calc(Calc::Multiply(dx, dx)).value;
        let yy = calc(Calc::Multiply(dy, dy)).value;
        encoded(0x4180_0000).le(calc(Calc::Add(xx, yy)).value)
    }

    /// The pointer moved.
    pub fn on_cursor<F: Fn(Calc) -> Answer>(&mut self, x: Real, y: Real, calc: &F) -> (r: Upkeep)
        requires
            answers(*calc),
        ensures
            forall|g: spec_fn(Calc) -> Answer| #[trigger]
                computes(*calc, g) ==> (*final(self), r) == old(self).moved(x, y, g),
    {
        self.cursor = (x, y);
        if !self.visible || !self.pressed {
            return nothing();
        }
        if self.press_hit == HudHit::Resize {
            let mut panel = self.panel;
            panel.resize_to(x, y, calc);
            self.panel = panel;
            return everything();
        }
        if self.consumed || self.press_hit != HudHit::Title || self.dragging {
            if self.dragging {
                self.carry(x, y, calc);
                return Upkeep { repaint: false, redraw: true };
            }
            return nothing();
        }
        if self.far_from_press(x, y, calc) {
            let docked = self.panel.mode == HudMode::Fullscreen;
            self.lift(x, y, calc);
            self.carry(x, y, calc);
            return Upkeep { repaint: docked, redraw: true };
        }
        nothing()
    }

    /// The left button went down.
    pub fn on_press<F: Fn(Calc) -> Answer>(&mut self, now: u64, calc: &F) -> (r: Upkeep)
        requires
            answers(*calc),
        ensures
            forall|g: spec_fn(Calc) -> Answer| #[trigger]
                computes(*calc, g) ==> (*final(self), r) == old(self).pushed(now, g),
    {
        if !self.visible {
            return nothing();
        }
        let (x, y) = self.cursor;
        let hit = self.panel.hit(x, y, calc);
        self.pressed = true;
        self.press_pos = (x, y);
        self.press_hit = hit;
        self.dragging = false;
        self.consumed = false;
        match hit {
            HudHit::Collapse => {
                let mut panel = self.panel;
                panel.toggle_collapse();
                self.panel = panel;
                self.consumed = true;
                everything()
            },
            HudHit::Fullscreen => {
                let mut panel = self.panel;
                panel.restore_fullscreen();
                self.panel = panel;
                self.consumed = true;
                everything()
            },
            HudHit::Title => {
                if let Some(t) = self.last_title_click {
                    if t >= now || now - t <= DOUBLE_CLICK {
                        let mut panel = self.panel;
                        panel.restore_fullscreen();
                        self.panel = panel;
                        self.last_title_click = None;
                        self.consumed = true;
                        return everything();
                    }
                }
                let grab = self.take_hold(x, y, calc);
                self.grab = grab;
                self.last_title_click = Some(now);
                nothing()
            },
            HudHit::Resize => {
                self.consumed = true;
                nothing()
            },
            HudHit::Body => nothing(),
            HudHit::Outside => nothing(),
        }
    }

    /// The left button came up.
    pub fn on_release(&mut self) -> (r: Upkeep)
        ensures
            (*final(self), r) == old(self).let_go(),
    {
        if !self.visible {
            return nothing();
        }
        let click = self.pressed && !self.consumed && !self.dragging && self.press_hit
            == HudHit::Title;
        self.pressed = false;
        self.dragging = false;
        self.consumed = false;
        if click {
            let mut panel = self.panel;
            panel.toggle_collapse();
            self.panel = panel;
            everything()
        } else {
            nothing()
        }
    }
}

/// A hidden panel takes no part: neither motion nor button changes it.
pub proof fn hidden_panel_stays(
    p: HudPointer,
    x: Real,
    y: Real,
    now: u64,
    g: spec_fn(Calc) -> Answer,
)
    requires
        !p.visible,
    ensures
        p.moved(x, y, g).0.panel == p.panel,
        p.pushed(now, g) == (p, nothing()),
        p.let_go() == (p, nothing()),
{
}

/// A press on the title bar and a release without moving collapse or expand the panel, unless
/// they make a double click.
pub proof fn title_click_toggles(p: HudPointer, now: u64, g: spec_fn(Calc) -> Answer)
    requires
        p.visible,
        p.panel.hit_at(p.cursor.0, p.cursor.1, g) == HudHit::Title,
        p.last_title_click matches Some(t) ==> now - t > DOUBLE_CLICK,
    ensures
        p.pushed(now, g).0.let_go().0.panel == (HudPanel {
            collapsed: !p.panel.collapsed,
            ..p.panel
        }),
{
}

/// A press on a control acts at once, and its release does nothing more.
pub proof fn controls_act_on_press(p: HudPointer, now: u64, g: spec_fn(Calc) -> Answer)
    requires
        p.visible,
        p.panel.hit_at(p.cursor.0, p.cursor.1, g) == HudHit::Collapse || p.panel.hit_at(
            p.cursor.0,
            p.cursor.1,
            g,
        ) == HudHit::Fullscreen,
    ensures
        p.pushed(now, g).0.let_go().0.panel == p.pushed(now, g).0.panel,
        p.pushed(now, g).0.let_go().1 == nothing(),
{
}

/// What a key asks for.
#[derive(Clone, Copy, Debug, PartialEq, Eq, Structural)]
pub enum Hotkey {
    /// Show or hide the panel.
    ToggleFeed,
    /// Start, pause or resume Cycles.
    ToggleCycles,
    StopCycles,
    Nothing,
}

/// What a key asks for: only control and shift together count, in either case.
pub open spec fn hotkey_of(
    ctrl: bool,
    shift: bool,
    alt: bool,
    meta: bool,
    key: Seq<char>,
) -> Hotkey {
    if !ctrl || !shift || alt || meta {
        Hotkey::Nothing
    } else if lowered(key) == "m"@ {
        Hotkey::ToggleFeed
    } else if lowered(key) == "c"@ {
        Hotkey::ToggleCycles
    } else if lowered(key) == "x"@ {
        Hotkey::StopCycles
    } else {
        Hotkey::Nothing
    }
}

pub fn hotkey(ctrl: bool, shift: bool, alt: bool, meta: bool, key: &str) -> (r: Hotkey)
    ensures
        r == hotkey_of(ctrl, shift, alt, meta, key@),
{
    if !ctrl || !shift || alt || meta {
        return Hotkey::Nothing;
    }
    let k = lower(key);
    if same(&k, "m") {
        Hotkey::ToggleFeed
    } else if same(&k, "c") {
        Hotkey::ToggleCycles
    } else if same(&k, "x") {
        Hotkey::StopCycles
    } else {
        Hotkey::Nothing
    }
}

/// How drawing a picture of the window ended.
#[derive(Clone, Copy, Debug, PartialEq, Eq, Structural)]
pub enum Drawn {
    Done,
    /// The surface is gone or has another size by now.
    Stale,
    OutOfMemory,
    Failed,
}

/// What happened to the window.
#[derive(Debug, PartialEq)]
pub enum Signal {
    CloseRequested,
    Key {
        ctrl: bool,
        shift: bool,
        alt: bool,
        meta: bool,
        pressed: bool,
        repeat: bool,
        /// The character, for a key that has one.
        text: Option<String>,
    },
    Cursor { x: Real, y: Real },
    Button { left: bool, pressed: bool, now: u64 },
    Resized { width: u32, height: u32, w: Real, h: Real },
    Drawn { outcome: Drawn },
}

/// What the window has to do about it.
#[derive(Clone, Copy, Debug, PartialEq, Eq, Structural)]
pub struct Orders {
    /// End the sidecar.
    pub kill_sidecar: bool,
    /// Leave the event loop.
    pub exit: bool,
    /// Take a new size.
    pub resize: bool,
    /// Set the surface up again.
    pub configure: bool,
    /// Do what a Cycles key asks for.
    pub cycles: Hotkey,
    pub upkeep: Upkeep,
}

#[verifier::allow_in_spec]
pub fn no_orders() -> Orders
    returns
        (Orders {
            kill_sidecar: false,
            exit: false,
            resize: false,
            configure: false,
            cycles: Hotkey::Nothing,
            upkeep: Upkeep { repaint: false, redraw: false },
        }),
{
    Orders {
        kill_sidecar: false,
        exit: false,
        resize: false,
        configure: false,
        cycles: Hotkey::Nothing,
        upkeep: Upkeep { repaint: false, redraw: false },
    }
}

impl HudPointer {
    /// The state after a key, and what has to be done. A panel that comes back is painted anew.
    pub open spec fn keyed(self, key: Hotkey) -> (HudPointer, Orders) {
        let redraw = Orders { upkeep: Upkeep { repaint: false, redraw: true }, ..no_orders() };
        match key {
            Hotkey::Nothing => (self, no_orders()),
            Hotkey::ToggleFeed => (
                HudPointer { visible: !self.visible, ..self },
                Orders {
                    upkeep: Upkeep { repaint: !self.visible, redraw: true },
                    ..no_orders()
                },
            ),
            Hotkey::ToggleCycles => (self, Orders { cycles: key, ..redraw }),
            Hotkey::StopCycles => (self, Orders { cycles: key, ..redraw }),
        }
    }

    /// The state after a signal, and what has to be done.
    pub open spec fn signalled(self, signal: Signal, g: spec_fn(Calc) -> Answer) -> (
        HudPointer,
        Orders,
    ) {
        match signal {
            Signal::CloseRequested => (
                self,
                Orders { kill_sidecar: true, exit: true, ..no_orders() },
            ),
            Signal::Key { ctrl, shift, alt, meta, pressed, repeat, text } => match text {
                Some(t) if pressed && !repeat => self.keyed(
                    hotkey_of(ctrl, shift, alt, meta, t@),
                ),
                _ => (self, no_orders()),
            },
            Signal::Cursor { x, y } => {
                let (after, upkeep) = self.moved(x, y, g);
                (after, Orders { upkeep, ..no_orders() })
            },
            Signal::Button { left, pressed, now } => if !left {
                (self, no_orders())
            } else {
                let (after, upkeep) = if pressed {
                    self.pushed(now, g)
                } else {
                    self.let_go()
                };
                (after, Orders { upkeep, ..no_orders() })
            },
            Signal::Resized { width, height, w, h } => if width == 0 || height == 0 {
                (self, no_orders())
            } else {
                (
                    HudPointer { panel: self.panel.windowed(w, h, g), ..self },
                    Orders {
                        resize: true,
                        configure: true,
                        upkeep: everything(),
                        ..no_orders()
                    },
                )
            },
            Signal::Drawn { outcome } => (
                self,
                match outcome {
                    Drawn::Done => no_orders(),
                    Drawn::Stale => Orders { configure: true, ..no_orders() },
                    Drawn::OutOfMemory => Orders { exit: true, ..no_orders() },
                    Drawn::Failed => no_orders(),
                },
            ),
        }
    }

    fn on_hotkey(&mut self, key: Hotkey) -> (r: Orders)
        ensures
            (*final(self), r) == old(self).keyed(key),
    {
        match key {
            Hotkey::Nothing => no_orders(),
            Hotkey::ToggleFeed => {
                self.visible = !self.visible;
                Orders {
                    upkeep: Upkeep { repaint: self.visible, redraw: true },
                    ..no_orders()
                }
            },
            Hotkey::ToggleCycles | Hotkey::StopCycles => Orders {
                cycles: key,
                upkeep: Upkeep { repaint: false, redraw: true },
                ..no_orders()
            },
        }
    }

    /// Something happened to the window.
    pub fn on_signal<F: Fn(Calc) -> Answer>(&mut self, signal: &Signal, calc: &F) -> (r: Orders)
        requires
            answers(*calc),
        ensures
            forall|g: spec_fn(Calc) -> Answer| #[trigger]
                computes(*calc, g) ==> (*final(self), r) == old(self).signalled(*signal, g),
    {
        match signal {
            Signal::CloseRequested => Orders { kill_sidecar: true, exit: true, ..no_orders() },
            Signal::Key { ctrl, shift, alt, meta, pressed, repeat, text } => {
                if !*pressed || *repeat {
                    return no_orders();
                }
                match text {
                    Some(t) => {
                        let key = hotkey(*ctrl, *shift, *alt, *meta, t);
                        self.on_hotkey(key)
                    },
                    None => no_orders(),
                }
            },
            Signal::Cursor { x, y } => {
                let upkeep = self.on_cursor(*x, *y, calc);
                Orders { upkeep, ..no_orders() }
            },
            Signal::Button { left, pressed, now } => {
                if !*left {
                    return no_orders();
                }
                let upkeep = if *pressed {
                    self.on_press(*now, calc)
                } else {
                    self.on_release()
                };
                Orders { upkeep, ..no_orders() }
            },
            Signal::Resized { width, height, w, h } => {
                if *width == 0 || *height == 0 {
                    return no_orders();
                }
                let mut panel = self.panel;
                panel.set_window_size(*w, *h, calc);
                self.panel = panel;
                Orders { resize: true, configure: true, upkeep: everything(), ..no_orders() }
            },
            Signal::Drawn { outcome } => match *outcome {
                Drawn::Done => no_orders(),
                Drawn::Stale => Orders { configure: true, ..no_orders() },
                Drawn::OutOfMemory => Orders { exit: true, ..no_orders() },
                Drawn::Failed => no_orders(),
            },
        }
    }
}

/// The key that hides the panel also brings it back, as it was.
pub proof fn feed_key_is_its_own_inverse(p: HudPointer)
    ensures
        p.keyed(Hotkey::ToggleFeed).0.keyed(Hotkey::ToggleFeed).0 == p,
{
}

/// Only closing the window or running out of memory leaves the event loop, and only closing it
/// ends the sidecar.
pub proof fn only_closing_ends(p: HudPointer, signal: Signal, g: spec_fn(Calc) -> Answer)
    ensures
        p.signalled(signal, g).1.exit <==> signal == Signal::CloseRequested || signal == (
        Signal::Drawn { outcome: Drawn::OutOfMemory }),
        p.signalled(signal, g).1.kill_sidecar <==> signal == Signal::CloseRequested,
{
}

/// How often the document is looked at, in nanoseconds.
pub const POLL: u64 = 50_000_000;

/// What a pause between events is used for.
#[derive(Clone, Copy, Debug, PartialEq, Eq, Structural)]
pub struct Pause {
    /// The document was looked at; the next look is due a while later.
    pub polled: bool,
    pub rebuild: bool,
    pub refresh_panel: bool,
}

/// What to do between events: now and then the scene and the panel are brought up to date.
pub fn between_events(since_poll: u64, revision: u64, drawn: Option<u64>, visible: bool) -> (r:
    Pause)
    ensures
        r.polled <==> since_poll >= POLL,
        r.rebuild <==> r.polled && revision != (match drawn {
            Some(d) => d,
            None => u64::MAX,
        }),
        r.refresh_panel <==> r.polled && visible,
{
    let due = since_poll >= POLL;
    Pause {
        polled: due,
        rebuild: due && needs_rebuild(revision, drawn),
        refresh_panel: due && visible,
    }
}

/// Which layers a picture of the window has, from the back to the front.
#[derive(Clone, Copy, Debug, PartialEq, Eq, Structural)]
pub struct Layers {
    pub scene: bool,
    pub cycles: bool,
    pub banner: bool,
    pub panel: bool,
}

/// The layers of a picture: the scene gives way to a Cycles picture once there is one.
pub fn layers(overlay_on: bool, last_seq: u32, width: u32, panel: bool) -> (r: Layers)
    ensures
        r.cycles <==> overlay_on && last_seq > 0 && width > 8,
        r.scene == !r.cycles,
        r.banner == overlay_on,
        r.panel == panel,
{
    let cycles = overlay_on && has_cycles_frame(last_seq, width);
    Layers { scene: !cycles, cycles, banner: overlay_on, panel }
}

/// The left edge of the plate: in the middle of the window, but eight pixels in at least.
pub fn banner_left<F: Fn(Calc) -> Answer>(window: Real, plate: Real, calc: &F) -> (r: Real)
    requires
        answers(*calc),
    ensures
        forall|g: spec_fn(Calc) -> Answer| #[trigger]
            computes(*calc, g) ==> r == g(
                Calc::Multiply(minus(window, plate, g), encoded(0x3f00_0000)),
            ).value.greater_of(encoded(0x4100_0000)),
{
    let spare = calc(Calc::Subtract(window, plate)).value;
    calc(Calc::Multiply(spare, encoded(0x3f00_0000))).value.max(encoded(0x4100_0000))
}

/// What the Cycles key does, given the state that the sidecar is in.
pub fn toggle_cycles(state: &str) -> (r: CyclesCommand)
    ensures
        r == (if state@ == "running"@ {
            CyclesCommand::Pause
        } else if state@ == "paused"@ {
            CyclesCommand::Resume
        } else {
            CyclesCommand::Start { samples: 64, width: 960, height: 640 }
        }),
{
    if same(state, "running") {
        CyclesCommand::Pause
    } else if same(state, "paused") {
        CyclesCommand::Resume
    } else {
        CyclesCommand::Start { samples: 64, width: 960, height: 640 }
    }
}

/// The card about Cycles being started by key.
pub fn start_card(status: &CyclesStatus, at: u64) -> (r: FeedEvent)
    ensures
        r@ == (EventModel {
            op: "cycles"@,
            ok: status.ok,
            elapsed_ms: zero(),
            revision: None,
            summary: if status.ok {
                "starting \u{2014} first sample can take a few seconds"@
            } else {
                match status.error {
                    Some(e) => e@,
                    None => "start failed"@,
                }
            },
            hits: Seq::empty(),
            at,
        }),
{
    let summary = if status.ok {
        "starting \u{2014} first sample can take a few seconds".to_owned()
    } else {
        match &status.error {
            Some(e) => e.clone(),
            None => "start failed".to_owned(),
        }
    };
    let r = FeedEvent {
        op: "cycles".to_owned(),
        ok: status.ok,
        elapsed_ms: zero(),
        revision: None,
        summary,
        hits: Vec::new(),
        at,
    };
    assert(texts(r.hits@) =~= Seq::empty());
    r
}

/// The title of the window.
pub fn window_title(base: &str, revision: u64, entities: usize) -> (r: String)
    ensures
        r@ == (base@ + " \u{2014} rev "@ + decimal_text(revision as nat) + " \u{2014} "@)
            + decimal_text(entities as nat) + " entities"@,
{
    let head = cat4(base, " \u{2014} rev ", &decimal(revision), " \u{2014} ");
    cat3(&head, &decimal(entities as u64), " entities")
}

/// Whether the drawn scene is out of date. Nothing drawn yet counts as the last revision.
pub fn needs_rebuild(revision: u64, drawn: Option<u64>) -> (r: bool)
    ensures
        r == (revision != (match drawn {
            Some(d) => d,
            None => u64::MAX,
        })),
{
    match drawn {
        Some(d) => revision != d,
        None => revision != u64::MAX,
    }
}

/// What a texture of the panel shows.
#[derive(Clone, Copy, Debug, PartialEq, Eq, Structural)]
pub struct Shown {
    pub seq: u64,
    pub active: bool,
    pub count: usize,
}

/// Whether the panel's texture has to be written again.
pub fn needs_upload(force: bool, size_changed: bool, now: Shown, last: Shown) -> (r: bool)
    ensures
        r == (force || size_changed || now != last),
{
    force || size_changed || now != last
}

/// The two lines of the plate over a Cycles picture.
pub fn banner_text(overlay_has_frame: bool, sample: u32) -> (r: (String, String))
    ensures
        r.0@ == (if overlay_has_frame {
            "CYCLES SAMPLE "@ + decimal_text(sample as nat)
        } else {
            "CYCLES STARTING"@
        }),
        r.1@ == (if overlay_has_frame {
            "CTRL+SHIFT+C PAUSE   CTRL+SHIFT+X STOP"@
        } else {
            "FIRST SAMPLE CAN TAKE A FEW SECONDS"@
        }),
{
    if overlay_has_frame {
        (
            cat2("CYCLES SAMPLE ", &decimal(sample as u64)),
            "CTRL+SHIFT+C PAUSE   CTRL+SHIFT+X STOP".to_owned(),
        )
    } else {
        ("CYCLES STARTING".to_owned(), "FIRST SAMPLE CAN TAKE A FEW SECONDS".to_owned())
    }
}

/// Whether a Cycles picture has been taken over: one with a number, and wide enough.
pub fn has_cycles_frame(last_seq: u32, width: u32) -> (r: bool)
    ensures
        r == (last_seq > 0 && width > 8),
{
    last_seq > 0 && width > 8
}

/// Rows of a picture with padding behind each, so that they start at multiples of 256, and
/// how many bytes a row then takes.
pub fn pad_rgba_rows(pixels: &Vec<u8>, width: u32, height: u32) -> (r: (Vec<u8>, u32))
    requires
        4 * width + 255 <= u32::MAX,
        pixels.len() == height * (4 * width),
        row_pitch(width) * height <= u32::MAX,
    ensures
        r.1 == row_pitch(width),
        r.0.len() == height * row_pitch(width),
        forall|y: int|
            0 <= y < height ==> #[trigger] row_at(r.0@, row_pitch(width), row_pitch(width), y)
                == row_at(pixels@, 4 * width, 4 * width, y) + Seq::new(
                (row_pitch(width) - 4 * width) as nat,
                |i: int| 0u8,
            ),
{
    let row: usize = 4 * width as usize;
    let pitch: u32 = (4 * width + 255) / 256 * 256;
    let pad: usize = pitch as usize - row;
    let ghost zeros = Seq::new(pad as nat, |i: int| 0u8);
    let mut out: Vec<u8> = Vec::new();
    let mut y: usize = 0;
    assert(0 * pitch == 0) by (nonlinear_arith);
    while y < height as usize
        invariant
            y <= height,
            row == 4 * width,
            pitch == row_pitch(width),
            pad == pitch - row,
            zeros == Seq::new(pad as nat, |i: int| 0u8),
            pixels.len() == height * row,
            pixels.len() <= usize::MAX,
            out.len() == y * pitch,
            forall|j: int|
                0 <= j < y ==> #[trigger] row_at(out@, pitch as int, pitch as int, j) == row_at(
                    pixels@,
                    row as int,
                    row as int,
                    j,
                ) + zeros,
        decreases height - y,
    {
        let ghost done = out@;
        assert(y * row + row <= height * row) by (nonlinear_arith)
            requires
                y < height,
        ;
        assert(0 <= y * row) by (nonlinear_arith)
            requires
                0 <= y,
                0 <= row,
        ;
        let start: usize = y * row;
        let mut x: usize = 0;
        assert(out@ =~= done + pixels@.subrange(start as int, start as int));
        while x < row
            invariant
                x <= row,
                start + row <= pixels.len(),
                out@ == done + pixels@.subrange(start as int, start + x),
            decreases row - x,
        {
            out.push(pixels[start + x]);
            assert(out@ =~= done + pixels@.subrange(start as int, start + x + 1));
            x += 1;
        }
        let ghost line = pixels@.subrange(start as int, start + row);
        let mut z: usize = 0;
        assert(out@ =~= done + line + zeros.take(0));
        while z < pad
            invariant
                z <= pad,
                zeros == Seq::new(pad as nat, |i: int| 0u8),
                out@ == done + line + zeros.take(z as int),
            decreases pad - z,
        {
            out.push(0);
            assert(out@ =~= done + line + zeros.take(z + 1));
            z += 1;
        }
        proof {
            assert(zeros.take(pad as int) =~= zeros);
            assert(out@ =~= done + (line + zeros));
            row_appended(done, line + zeros, y as int);
            assert(row_at(pixels@, row as int, row as int, y as int) =~= line);
        }
        y += 1;
    }
    (out, pitch)
}

} // verus!
