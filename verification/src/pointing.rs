//! What keys, clicks and drags do to the live-feed panel.

use crate::exact::{differs, exact, multiplies, sums};
use crate::hud::{minus, plus, HudHit, HudMode};
use crate::numeric::{encoded, Answer, Calc, Real};
use crate::text::lowered;
use crate::viewport::{hotkey_of, Drawn, Hotkey, HudPointer, Signal};
use crate::worth::{finite, names_say_worth, order_is_by_worth, small_counts_have_worth, unit, units};
use vstd::prelude::*;

verus! {

/// Control, shift and a letter, in either case: `m` shows or hides the panel, `c` starts or pauses
/// path tracing and `x` stops it. With another modifier, or without these two, a key does nothing.
pub proof fn keys_do_what_they_stand_for(ctrl: bool, shift: bool, alt: bool, meta: bool)
    ensures
        hotkey_of(true, true, false, false, seq!['m']) == Hotkey::ToggleFeed,
        hotkey_of(true, true, false, false, seq!['M']) == Hotkey::ToggleFeed,
        hotkey_of(true, true, false, false, seq!['c']) == Hotkey::ToggleCycles,
        hotkey_of(true, true, false, false, seq!['C']) == Hotkey::ToggleCycles,
        hotkey_of(true, true, false, false, seq!['x']) == Hotkey::StopCycles,
        hotkey_of(true, true, false, false, seq!['X']) == Hotkey::StopCycles,
        !ctrl || !shift || alt || meta ==> forall|key: Seq<char>| #[trigger]
            hotkey_of(ctrl, shift, alt, meta, key) == Hotkey::Nothing,
{
    reveal_strlit("m");
    reveal_strlit("c");
    reveal_strlit("x");
    assert(lowered(seq!['m']) =~= "m"@);
    assert(lowered(seq!['M']) =~= "m"@);
    assert(lowered(seq!['c']) =~= "c"@);
    assert(lowered(seq!['C']) =~= "c"@);
    assert(lowered(seq!['x']) =~= "x"@);
    assert(lowered(seq!['X']) =~= "x"@);
    assert("m"@[0] == 'm' && "c"@[0] == 'c' && "x"@[0] == 'x');
}

/// Only the key that goes down counts, and it counts once: a release or a repetition changes
/// nothing.
pub proof fn keys_count_once(
    p: HudPointer,
    ctrl: bool,
    shift: bool,
    alt: bool,
    meta: bool,
    pressed: bool,
    repeat: bool,
    text: Option<String>,
    g: spec_fn(Calc) -> Answer,
)
    requires
        !pressed || repeat,
    ensures
        ({
            let after = p.signalled(
                Signal::Key { ctrl, shift, alt, meta, pressed, repeat, text },
                g,
            );
            &&& after.0 == p
            &&& !after.1.exit && !after.1.upkeep.redraw && after.1.cycles == Hotkey::Nothing
        }),
{
}

/// A pressed pointer has moved far once it is four pixels or more from where it went down.
pub proof fn drags_begin_at_four_pixels(
    p: HudPointer,
    x: Real,
    y: Real,
    g: spec_fn(Calc) -> Answer,
)
    requires
        exact(g),
        finite(
            plus(
                g(
                    Calc::Multiply(minus(x, p.press_pos.0, g), minus(x, p.press_pos.0, g)),
                ).value,
                g(
                    Calc::Multiply(minus(y, p.press_pos.1, g), minus(y, p.press_pos.1, g)),
                ).value,
                g,
            ),
        ),
    ensures
        ({
            let dx = units(x) - units(p.press_pos.0);
            let dy = units(y) - units(p.press_pos.1);
            p.moved_far(x, y, g) <==> dx * dx + dy * dy >= 16 * unit() * unit()
        }),
{
    let a = minus(x, p.press_pos.0, g);
    let b = minus(y, p.press_pos.1, g);
    let aa = g(Calc::Multiply(a, a)).value;
    let bb = g(Calc::Multiply(b, b)).value;
    let s = plus(aa, bb, g);
    assert(sums(g(Calc::Add(aa, bb)).value, aa, bb));
    assert(multiplies(g(Calc::Multiply(a, a)).value, a, a));
    assert(multiplies(g(Calc::Multiply(b, b)).value, b, b));
    assert(differs(g(Calc::Subtract(x, p.press_pos.0)).value, x, p.press_pos.0));
    assert(differs(g(Calc::Subtract(y, p.press_pos.1)).value, y, p.press_pos.1));
    small_counts_have_worth();
    order_is_by_worth(encoded(0x4180_0000), s);
    names_say_worth();
    let u = unit();
    let (w, dx, dy) = (units(s), units(a), units(b));
    assert((units(aa) + units(bb)) * u == units(aa) * u + units(bb) * u) by (nonlinear_arith);
    assert(w >= 16 * u <==> dx * dx + dy * dy >= 16 * u * u) by (nonlinear_arith)
        requires
            w * u == dx * dx + dy * dy,
            u > 0,
    ;
}

/// A second click on the title within 350 milliseconds docks the panel and opens it; a later one
/// is a click of its own.
pub proof fn double_clicks_dock(p: HudPointer, t: u64, now: u64, g: spec_fn(Calc) -> Answer)
    requires
        p.visible,
        p.panel.hit_at(p.cursor.0, p.cursor.1, g) == HudHit::Title,
        p.last_title_click == Some(t),
    ensures
        now <= t + 350_000_000 ==> p.pushed(now, g).0.panel.mode == HudMode::Fullscreen
            && !p.pushed(now, g).0.panel.collapsed && p.pushed(now, g).0.let_go().0.panel
            == p.pushed(now, g).0.panel,
        now > t + 350_000_000 ==> p.pushed(now, g).0.panel == p.panel,
{
}

/// The controls of the panel: one opens or collapses it, the other docks it. A press anywhere else
/// moves nothing.
pub proof fn controls_do_what_they_show(p: HudPointer, now: u64, g: spec_fn(Calc) -> Answer)
    requires
        p.visible,
    ensures
        ({
            let hit = p.panel.hit_at(p.cursor.0, p.cursor.1, g);
            let q = p.pushed(now, g).0.panel;
            &&& hit == HudHit::Collapse ==> q.collapsed == !p.panel.collapsed && q.mode
                == p.panel.mode
            &&& hit == HudHit::Fullscreen ==> q.mode == HudMode::Fullscreen && !q.collapsed
            &&& hit == HudHit::Resize || hit == HudHit::Outside || hit == HudHit::Body ==> q
                == p.panel
        }),
{
}

/// A floating panel that is held by its title goes with the pointer: it goes where its corner keeps
/// its distance from the pointer. A grip that is held sizes the panel instead, and a pointer that
/// is not pressed leaves the panel as it is.
pub proof fn held_panel_goes_along(p: HudPointer, x: Real, y: Real, g: spec_fn(Calc) -> Answer)
    ensures
        p.visible && p.pressed && p.dragging && !p.consumed && p.press_hit == HudHit::Title
            ==> p.moved(x, y, g).0.panel == p.panel.dragged(
            minus(x, p.grab.0, g),
            minus(y, p.grab.1, g),
            g,
        ) && p.moved(x, y, g).1.redraw,
        p.visible && p.pressed && p.press_hit == HudHit::Resize ==> p.moved(x, y, g).0.panel
            == p.panel.resized(x, y, g) && p.moved(x, y, g).1.repaint,
        !p.pressed ==> p.moved(x, y, g).0.panel == p.panel && !p.moved(x, y, g).1.redraw,
        p.moved(x, y, g).0.cursor == (x, y),
{
}

/// A surface that no longer fits is set up anew, and one that was drawn needs nothing.
pub proof fn stale_surfaces_are_set_up(
    p: HudPointer,
    outcome: Drawn,
    g: spec_fn(Calc) -> Answer,
)
    ensures
        p.signalled(Signal::Drawn { outcome }, g).1.configure <==> outcome == Drawn::Stale,
        p.signalled(Signal::Drawn { outcome }, g).0 == p,
{
}

/// A window that got a new size is set up and drawn anew, and its panel knows the new size; a
/// window without any area changes nothing.
pub proof fn resized_windows_are_set_up(
    p: HudPointer,
    width: u32,
    height: u32,
    w: Real,
    h: Real,
    g: spec_fn(Calc) -> Answer,
)
    ensures
        ({
            let after = p.signalled(Signal::Resized { width, height, w, h }, g);
            &&& width > 0 && height > 0 ==> after.1.resize && after.1.configure
                && after.1.upkeep.repaint && after.1.upkeep.redraw && after.0.panel.window_w
                == p.panel.windowed(w, h, g).window_w
            &&& width == 0 || height == 0 ==> after.0 == p && !after.1.resize
                && !after.1.configure
        }),
{
}

} // verus!
