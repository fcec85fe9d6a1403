//! The panel, its cards and the pointer.

#![allow(dead_code, unused_imports)]

use glam::{Mat4, Quat, Vec3};
use thinner_floor::numeric::{self, Answer, Calc, Real, Transform};
use thinner_floor::apply::{ApplyRequest, ApplyResult};
use thinner_floor::beauty::{forecast_from_frames, BeautyFrame, PixelForecast};
use thinner_floor::change::ApplyChange;
use thinner_floor::document::{Document, Entity, Material, MeshRecipe, Scene};
use thinner_floor::light::SceneLight;
use thinner_floor::numeric::Rgba;
use thinner_floor::cards::{
    card_body_lines, glyph_scale, op_color, op_label, rasterize_banner, rasterize_feed, stripe_color,
    COL_APPLY, COL_FAIL, COL_INSPECT, COL_MUTED, COL_QUERY, COL_STATUS, PAD_X, STRIPE_W, TITLE_PIXELS,
};
use thinner_floor::feed::{FeedEvent, MailboxFeed, FEED_HIT_CAP};
use thinner_floor::hud::{
    ctrl_gap, ctrl_size, float_default_h, float_default_w, title_bar_h, HudHit, HudMode, HudPanel,
};
use thinner_floor::paint::{glyph_for, Bitmap};
use thinner_floor::viewport::{
    banner_left, banner_text, between_events, everything, has_cycles_frame, hotkey, layers,
    needs_rebuild, needs_upload, no_orders, pad_rgba_rows, start_card, toggle_cycles,
    window_title, Drawn, Hotkey, HudPointer, Layers, Orders, Pause, Shown, Signal, Upkeep,
};
use thinner_floor::wrap::{truncate, wrap_text};
use thinner_floor::cycles_stream::CyclesStatus;
use thinner_floor::mailbox::CyclesCommand;

fn panel(w: f32, h: f32) -> HudPanel {
    HudPanel::new(single(w), single(h))
}

fn area(p: &HudPanel) -> (f32, f32, f32, f32) {
    let (x, y, w, h) = p.rect();
    (float(x), float(y), float(w), float(h))
}

fn hit(p: &HudPanel, x: f32, y: f32) -> HudHit {
    p.hit(single(x), single(y), &calc)
}

#[test]
fn default_is_collapsed_title_bar() {
    let p = panel(800.0, 600.0);
    assert_eq!(p.mode, HudMode::Fullscreen);
    assert!(p.collapsed);
    let bar = float(title_bar_h());
    assert_eq!(area(&p), (0.0, 0.0, 800.0, bar));
    assert_eq!(p.pixel_size(&calc), (800, bar.round() as u32));
}

#[test]
fn collapse_button_hit_in_fullscreen() {
    let p = panel(800.0, 600.0);
    let (bar, gap, size) = (float(title_bar_h()), float(ctrl_gap()), float(ctrl_size()));
    let cy = bar * 0.5;
    let collapse_cx = 800.0 - gap - size - gap - size * 0.5;
    let fs_cx = 800.0 - gap - size * 0.5;
    assert_eq!(hit(&p, collapse_cx, cy), HudHit::Collapse);
    assert_eq!(hit(&p, fs_cx, cy), HudHit::Fullscreen);
    assert_eq!(hit(&p, collapse_cx - size, cy), HudHit::Title);
}

#[test]
fn hit_fullscreen_title_body_outside() {
    let mut p = panel(800.0, 600.0);
    p.toggle_collapse();
    assert_eq!(hit(&p, 20.0, 8.0), HudHit::Title);
    assert_eq!(hit(&p, 400.0, 300.0), HudHit::Body);
    assert_eq!(hit(&p, -1.0, 10.0), HudHit::Outside);
    assert_eq!(hit(&p, 400.0, 700.0), HudHit::Outside);
    assert_eq!(hit(&p, 800.0, 10.0), HudHit::Outside);
}

#[test]
fn hit_collapsed_is_title_only() {
    let p = panel(800.0, 600.0);
    let (bar, gap, size) = (float(title_bar_h()), float(ctrl_gap()), float(ctrl_size()));
    assert!(p.collapsed);
    assert_eq!(area(&p), (0.0, 0.0, 800.0, bar));
    assert_eq!(hit(&p, 400.0, bar * 0.5), HudHit::Title);
    assert_eq!(hit(&p, 400.0, bar + 8.0), HudHit::Outside);
    assert_eq!(hit(&p, 400.0, 300.0), HudHit::Outside);
    let collapse_cx = 800.0 - gap - size - gap - size * 0.5;
    assert_eq!(hit(&p, collapse_cx, bar * 0.5), HudHit::Collapse);
}

#[test]
fn undock_and_restore_fullscreen() {
    let mut p = panel(800.0, 600.0);
    p.toggle_collapse();
    p.undock_and_drag(single(100.0), single(10.0), &calc);
    assert_eq!(p.mode, HudMode::Floating);
    let (x, y, w, h) = area(&p);
    assert!(x >= 0.0 && y >= 0.0);
    assert!((w - float(float_default_w())).abs() < 0.5, "float w={w}");
    assert!((h - float(float_default_h())).abs() < 0.5, "float h={h}");
    assert!(w < 800.0 && h < 600.0);
    p.restore_fullscreen();
    assert_eq!(p.mode, HudMode::Fullscreen);
    assert!(!p.collapsed);
    assert_eq!(area(&p), (0.0, 0.0, 800.0, 600.0));
}

#[test]
fn hit_floating_panel_regions() {
    let mut p = panel(800.0, 600.0);
    p.toggle_collapse();
    p.undock_and_drag(single(100.0), single(10.0), &calc);
    let (x, y, w, h) = area(&p);
    let (bar, gap, size) = (float(title_bar_h()), float(ctrl_gap()), float(ctrl_size()));
    assert_eq!(hit(&p, x - 1.0, y + 4.0), HudHit::Outside);
    assert_eq!(hit(&p, x + 16.0, y + 6.0), HudHit::Title);
    assert_eq!(hit(&p, x + 16.0, y + bar + 12.0), HudHit::Body);
    assert_eq!(hit(&p, x + w + 1.0, y + 4.0), HudHit::Outside);
    assert_eq!(hit(&p, x + 16.0, y + h + 1.0), HudHit::Outside);
    let cy = y + bar * 0.5;
    let collapse_cx = x + w - gap - size - gap - size * 0.5;
    let fs_cx = x + w - gap - size * 0.5;
    assert_eq!(hit(&p, collapse_cx, cy), HudHit::Collapse);
    assert_eq!(hit(&p, fs_cx, cy), HudHit::Fullscreen);
}

fn event(op: &str, ok: bool, summary: &str, hits: Vec<String>) -> FeedEvent {
    FeedEvent {
        op: op.to_string(),
        ok,
        elapsed_ms: single(1.2),
        revision: None,
        summary: summary.to_string(),
        hits,
        at: 0,
    }
}

fn sample_query_event() -> FeedEvent {
    let hits = ["box-1", "box-1-hat-brim", "box-1-eye-l", "box-1-eye-r", "a", "b", "c", "d"];
    event("query", true, "assembly_of box-1", hits.iter().map(|s| s.to_string()).collect())
}

#[test]
fn wrap_text_does_not_panic() {
    let _ = wrap_text("", 0);
    let _ = wrap_text("", 8);
    let _ = wrap_text("hello", 0);
    let _ = wrap_text("hello world from the feed", 1);
    let _ = wrap_text(&"x".repeat(200), 3);
    let _ = wrap_text("assembly_of box-1", 64);
    let lines = wrap_text("yellow assembly step right", 10);
    assert!(lines.len() >= 2);
    assert!(lines.iter().all(|l| l.chars().count() <= 10));
}

#[test]
fn wrapping_keeps_words_and_chops_long_ones() {
    assert_eq!(wrap_text("yellow assembly step right", 10), ["yellow", "assembly", "step right"]);
    assert_eq!(wrap_text("abcdefg hi", 3), ["abc", "def", "g", "hi"]);
    assert_eq!(wrap_text("abcdefgh i", 3), ["abc", "def", "gh", "i"]);
    assert_eq!(wrap_text("abcd e", 3), ["abc", "d e"]);
    assert_eq!(wrap_text("  a\t b \n", 3), ["a b"]);
    assert_eq!(wrap_text("hello", 0), [""]);
    assert!(wrap_text(" \t", 4).is_empty());
}

#[test]
fn truncation_marks_what_it_leaves_out() {
    assert_eq!(truncate("abcdef", 6), "abcdef");
    assert_eq!(truncate("abcdefg", 6), "abc...");
    assert_eq!(truncate("abcdefg", 2), "..");
    assert_eq!(truncate("abcdefg", 0), "");
}

#[test]
fn op_color_mapping() {
    assert_eq!(op_color("apply"), COL_APPLY);
    assert_eq!(op_color("query"), COL_QUERY);
    assert_eq!(op_color("status"), COL_STATUS);
    assert_eq!(op_color("inspect"), COL_INSPECT);
    assert_eq!(op_color("ping"), COL_MUTED);
    assert_eq!(stripe_color(&event("apply", false, "nope", vec![])), COL_FAIL);
    assert_eq!(stripe_color(&event("query", true, "on_screen", vec![])), COL_QUERY);
    assert_eq!(op_label("apply"), "APPLY");
    assert_eq!(op_label("camera"), "CAMERA");
}

#[test]
fn glyph_scale_doubles_when_tall() {
    assert_eq!(glyph_scale(200), 1);
    assert_eq!(glyph_scale(360), 1);
    assert_eq!(glyph_scale(361), 2);
    assert_eq!(glyph_scale(600), 2);
    assert_eq!(glyph_scale(28), 1);
}

#[test]
fn assembly_card_lists_ids_without_comma_jam() {
    let lines = card_body_lines(&sample_query_event(), 40);
    assert_eq!(lines[0], "assembly_of box-1");
    assert!(lines.iter().any(|l| l == "box-1"));
    assert!(lines.iter().any(|l| l == "box-1-hat-brim"));
    assert!(lines.iter().any(|l| l == "box-1-eye-l"));
    for line in &lines {
        assert!(!line.contains("box-1,box-1-hat"), "comma-jammed ids: {line}");
        assert_ne!(line, "assembly_of box-1 -> a,b,c,d...(8)");
    }
}

#[test]
fn hit_cap_adds_more_suffix() {
    let e = event("query", true, "on_screen", (0..15).map(|i| format!("id-{i}")).collect());
    let lines = card_body_lines(&e, 20);
    assert!(lines.iter().any(|l| l == "+3 more"), "{lines:?}");
    assert_eq!(lines.iter().filter(|l| l.starts_with("id-")).count(), FEED_HIT_CAP);
}

#[test]
fn rasterize_cards_do_not_panic() {
    let mut feed = MailboxFeed::new();
    feed.push(sample_query_event());
    feed.push(FeedEvent {
        elapsed_ms: single(12.0),
        revision: Some(16),
        ..event("apply", true, "yellow assembly step right", vec![])
    });
    feed.push(FeedEvent {
        elapsed_ms: single(0.4),
        revision: Some(16),
        ..event("status", true, "rev=16 entities=40", vec![])
    });
    let tiny = rasterize_feed(&feed, 0, 80, 50, true, &show);
    assert_eq!(tiny.width, 80);
    let tall = rasterize_feed(&feed, 0, 800, 600, false, &show);
    assert_eq!(tall.height, 600);
    assert_eq!(glyph_scale(600), 2);
    let mut found_2x = false;
    let stride = 800usize;
    for y in 0..(600 - 1) {
        for x in (PAD_X + STRIPE_W + 4)..(800 - 1) {
            let i = (y * stride + x) * 4;
            let px = &tall.pixels[i..i + 4];
            if px == COL_QUERY {
                let right = &tall.pixels[i + 4..i + 8];
                let down = &tall.pixels[((y + 1) * stride + x) * 4..][..4];
                if right == COL_QUERY && down == COL_QUERY {
                    found_2x = true;
                }
            }
        }
    }
    assert!(found_2x, "expected 2x2 amber query pixels on a tall panel");
}

#[test]
fn floating_default_fits_a_query_card() {
    let mut p = panel(800.0, 600.0);
    p.toggle_collapse();
    p.undock_and_drag(single(100.0), single(10.0), &calc);
    let (_, _, w, h) = area(&p);
    assert!(h >= 300.0, "float h={h}");
    let mut feed = MailboxFeed::new();
    feed.push(sample_query_event());
    let frame = rasterize_feed(&feed, 0, w as u32, h as u32, true, &show);
    assert!(
        frame.pixels.chunks(4).any(|px| px == COL_QUERY),
        "floating panel should show the query card"
    );
}

#[test]
fn fullscreen_backdrop_is_clear() {
    let feed = MailboxFeed::new();
    let frame = rasterize_feed(&feed, 0, 200, 200, false, &show);
    let x = 40usize;
    let y = TITLE_PIXELS + 20;
    let i = (y * 200 + x) * 4;
    assert_eq!(&frame.pixels[i..i + 4], [0, 0, 0, 0]);
    let ti = (8 * 200 + 8) * 4;
    assert!(frame.pixels[ti + 3] > 200);
    assert_eq!(frame.pixels.len(), 200 * 200 * 4);
    assert!(!frame.active);
    assert_eq!(frame.event_count, 0);
}

#[test]
fn resize_grip_changes_float_size() {
    let mut p = panel(800.0, 600.0);
    p.toggle_collapse();
    p.undock_and_drag(single(40.0), single(20.0), &calc);
    let (x, y, w, h) = area(&p);
    assert_eq!(hit(&p, x + w - 4.0, y + h - 4.0), HudHit::Resize);
    p.resize_to(single(x + 700.0), single(y + 500.0), &calc);
    let (_, _, w2, h2) = area(&p);
    assert!(w2 > w && h2 > h, "w {w}->{w2} h {h}->{h2}");
}

#[test]
fn a_floating_panel_cannot_leave_the_window() {
    let mut p = panel(800.0, 600.0);
    p.toggle_collapse();
    p.undock_and_drag(single(40.0), single(20.0), &calc);
    p.drag_to(single(5000.0), single(-50.0), &calc);
    let (x, y, _, _) = area(&p);
    assert_eq!((x, y), (752.0, 0.0));
    p.resize_to(single(0.0), single(0.0), &calc);
    let (_, _, w, h) = area(&p);
    assert_eq!((w, h), (160.0, 76.0));
    p.set_window_size(single(100.0), single(50.0), &calc);
    let (x, y, w, h) = area(&p);
    assert_eq!((x, y, w, h), (52.0, 0.0, 160.0, 76.0));
}

#[test]
fn glyphs_have_substitutes() {
    assert_eq!(glyph_for('A'), glyph_for('a'));
    assert_eq!(glyph_for('\u{2192}'), glyph_for('>'));
    assert_eq!(glyph_for('\u{2026}'), glyph_for('.'));
    assert_eq!(glyph_for('\u{e9}'), glyph_for('?'));
    assert_eq!(glyph_for('~'), [0x1F, 0x11, 0x11, 0x11, 0x11, 0x1F, 0x00]);
}

#[test]
fn painting_is_cut_at_the_edges() {
    let mut b = Bitmap::new(3, 2);
    b.fill_rect(1, 1, 50, 50, [9, 8, 7, 6]);
    let bytes = b.bytes();
    assert_eq!(bytes.len(), 24);
    assert_eq!(&bytes[12..24], [0, 0, 0, 0, 9, 8, 7, 6, 9, 8, 7, 6]);
    assert!(bytes[..12].iter().all(|x| *x == 0));
    let end = b.draw_text(0, 0, "ab", [1, 1, 1, 1], 1);
    assert_eq!(end, 6);
}

#[test]
fn banners_fit_their_longest_line() {
    let (w, h, pixels) = rasterize_banner(&["CYCLES STARTING", "FIRST"]);
    assert_eq!(w, 20 + 15 * 12);
    assert_eq!(h, 20 + 2 * 18 + 3);
    assert_eq!(pixels.len(), (w * h * 4) as usize);
    assert_eq!(&pixels[..4], COL_APPLY);
    let (w, h, _) = rasterize_banner(&[]);
    assert_eq!((w, h), (64, 28));
}

#[test]
fn clicks_toggle_and_double_clicks_restore() {
    let mut p = HudPointer::new(panel(800.0, 600.0));
    let _ = p.on_cursor(single(100.0), single(10.0), &calc);
    assert_eq!(p.on_press(1_000, &calc), Upkeep { repaint: false, redraw: false });
    assert_eq!(p.on_release(), Upkeep { repaint: true, redraw: true });
    assert!(!p.panel.collapsed);
    assert!(p.on_press(200_000_000, &calc).repaint);
    assert_eq!(p.panel.mode, HudMode::Fullscreen);
    assert!(!p.panel.collapsed);
    let _ = p.on_release();
    assert!(!p.panel.collapsed);
}

#[test]
fn dragging_the_title_undocks_the_panel() {
    let mut p = HudPointer::new(panel(800.0, 600.0));
    let _ = p.on_cursor(single(100.0), single(10.0), &calc);
    let _ = p.on_press(0, &calc);
    assert!(!p.on_cursor(single(101.0), single(10.0), &calc).redraw);
    assert_eq!(p.panel.mode, HudMode::Fullscreen);
    assert!(p.on_cursor(single(140.0), single(60.0), &calc).redraw);
    assert_eq!(p.panel.mode, HudMode::Floating);
    let before = area(&p.panel);
    let _ = p.on_cursor(single(150.0), single(80.0), &calc);
    let after = area(&p.panel);
    assert_eq!((after.0 - before.0, after.1 - before.1), (10.0, 20.0));
    let _ = p.on_release();
    assert!(!p.dragging);
}

#[test]
fn a_hidden_panel_takes_no_clicks() {
    let mut p = HudPointer::new(panel(800.0, 600.0));
    p.visible = false;
    let before = p.panel;
    let _ = p.on_cursor(single(100.0), single(10.0), &calc);
    let _ = p.on_press(0, &calc);
    let _ = p.on_release();
    assert_eq!(p.panel, before);
}

#[test]
fn only_control_and_shift_make_a_hotkey() {
    assert_eq!(hotkey(true, true, false, false, "M"), Hotkey::ToggleFeed);
    assert_eq!(hotkey(true, true, false, false, "c"), Hotkey::ToggleCycles);
    assert_eq!(hotkey(true, true, false, false, "x"), Hotkey::StopCycles);
    assert_eq!(hotkey(true, true, true, false, "x"), Hotkey::Nothing);
    assert_eq!(hotkey(true, false, false, false, "m"), Hotkey::Nothing);
    assert_eq!(hotkey(true, true, false, false, "q"), Hotkey::Nothing);
}

#[test]
fn the_cycles_key_follows_the_state() {
    assert_eq!(toggle_cycles("running"), CyclesCommand::Pause);
    assert_eq!(toggle_cycles("paused"), CyclesCommand::Resume);
    assert_eq!(
        toggle_cycles("idle"),
        CyclesCommand::Start {
            samples: 64,
            width: 960,
            height: 640
        }
    );
    let failed = CyclesStatus {
        ok: false,
        state: "error".to_string(),
        sample: 0,
        width: 0,
        height: 0,
        overlay: false,
        error: None,
    };
    assert_eq!(start_card(&failed, 5).summary, "start failed");
    assert_eq!(banner_text(true, 12).0, "CYCLES SAMPLE 12");
    assert_eq!(banner_text(false, 0).1, "FIRST SAMPLE CAN TAKE A FEW SECONDS");
    assert!(has_cycles_frame(1, 9) && !has_cycles_frame(0, 9) && !has_cycles_frame(1, 8));
}

#[test]
fn titles_and_upkeep() {
    assert_eq!(
        window_title("Thinner Floor", 3, 12),
        "Thinner Floor \u{2014} rev 3 \u{2014} 12 entities"
    );
    assert!(needs_rebuild(3, Some(2)) && !needs_rebuild(3, Some(3)) && needs_rebuild(3, None));
    let a = Shown {
        seq: 1,
        active: false,
        count: 2,
    };
    assert!(!needs_upload(false, false, a, a));
    assert!(needs_upload(true, false, a, a));
    assert!(needs_upload(false, false, Shown { active: true, ..a }, a));
}

#[test]
fn rows_are_padded_to_the_copy_alignment() {
    let pixels: Vec<u8> = (0..16).collect();
    let (out, pitch) = pad_rgba_rows(&pixels, 2, 2);
    assert_eq!(pitch, 256);
    assert_eq!(out.len(), 512);
    assert_eq!(&out[..8], [0, 1, 2, 3, 4, 5, 6, 7]);
    assert_eq!(&out[256..264], [8, 9, 10, 11, 12, 13, 14, 15]);
    assert_eq!(out[8], 0);
    let exact: Vec<u8> = vec![7; 256];
    assert_eq!(pad_rgba_rows(&exact, 64, 1), (exact, 256));
}

fn key(text: &str, pressed: bool, repeat: bool) -> Signal {
    Signal::Key {
        ctrl: true,
        shift: true,
        alt: false,
        meta: false,
        pressed,
        repeat,
        text: Some(text.to_string()),
    }
}

fn resized(width: u32, height: u32) -> Signal {
    Signal::Resized {
        width,
        height,
        w: single(width as f32),
        h: single(height as f32),
    }
}

#[test]
fn signals_are_answered_with_orders() {
    let mut p = HudPointer::new(HudPanel::new(single(960.0), single(640.0)));
    let start = p;
    let closed = p.on_signal(&Signal::CloseRequested, &calc);
    assert!(closed.exit && closed.kill_sidecar);
    let hidden = p.on_signal(&key("M", true, false), &calc);
    assert_eq!(hidden.upkeep, Upkeep { repaint: false, redraw: true });
    assert!(!p.visible);
    assert_eq!(p.on_signal(&key("m", true, true), &calc), no_orders());
    assert_eq!(p.on_signal(&key("m", false, false), &calc), no_orders());
    assert_eq!(p.on_signal(&key("m", true, false), &calc).upkeep, everything());
    assert_eq!(p, start);
    assert_eq!(p.on_signal(&key("c", true, false), &calc).cycles, Hotkey::ToggleCycles);
    assert_eq!(p.on_signal(&key("X", true, false), &calc).cycles, Hotkey::StopCycles);
    assert_eq!(p.on_signal(&key("q", true, false), &calc), no_orders());
    assert_eq!(p.on_signal(&resized(0, 300), &calc), no_orders());
    let r = p.on_signal(&resized(400, 300), &calc);
    assert!(r.resize && r.configure);
    assert_eq!(float(p.panel.window_w), 400.0);
    let right = Signal::Button { left: false, pressed: true, now: 1 };
    assert_eq!(p.on_signal(&right, &calc), no_orders());
    assert!(!p.pressed);
    p.on_signal(&Signal::Cursor { x: single(20.0), y: single(8.0) }, &calc);
    p.on_signal(&Signal::Button { left: true, pressed: true, now: 1 }, &calc);
    assert!(p.pressed && p.press_hit == HudHit::Title);
    let folded = p.panel.collapsed;
    let up = p.on_signal(&Signal::Button { left: true, pressed: false, now: 2 }, &calc);
    assert_eq!(up.upkeep, everything());
    assert_eq!(p.panel.collapsed, !folded);
}

#[test]
fn failed_pictures_set_the_surface_up_again_or_end() {
    let mut p = HudPointer::new(HudPanel::new(single(960.0), single(640.0)));
    let mut after = |outcome| p.on_signal(&Signal::Drawn { outcome }, &calc);
    assert_eq!(after(Drawn::Done), no_orders());
    assert_eq!(after(Drawn::Failed), no_orders());
    assert_eq!(after(Drawn::Stale), Orders { configure: true, ..no_orders() });
    assert_eq!(after(Drawn::OutOfMemory), Orders { exit: true, ..no_orders() });
}

#[test]
fn pauses_and_pictures_follow_the_state() {
    let idle = Pause { polled: false, rebuild: false, refresh_panel: false };
    assert_eq!(between_events(49_999_999, 3, Some(2), true), idle);
    let due = Pause { polled: true, rebuild: true, refresh_panel: false };
    assert_eq!(between_events(50_000_000, 3, Some(2), false), due);
    let plain = Layers { scene: true, cycles: false, banner: false, panel: true };
    assert_eq!(layers(false, 5, 960, true), plain);
    let early = Layers { scene: true, cycles: false, banner: true, panel: false };
    assert_eq!(layers(true, 0, 960, false), early);
    let covered = Layers { scene: false, cycles: true, banner: true, panel: true };
    assert_eq!(layers(true, 5, 960, true), covered);
    assert_eq!(float(banner_left(single(960.0), single(300.0), &calc)), 330.0);
    assert_eq!(float(banner_left(single(300.0), single(300.0), &calc)), 8.0);
}

#[test]
fn a_folded_panel_is_as_high_as_its_title() {
    let panel = HudPanel::new(single(960.0), single(640.0));
    assert!(panel.collapsed);
    assert_eq!(panel.rect().3, panel.title_height());
}

fn v3(a: [f32; 3]) -> numeric::Vec3 {
    numeric::Vec3 {
        x: single(a[0]),
        y: single(a[1]),
        z: single(a[2]),
    }
}

fn rgba(a: [f32; 4]) -> Rgba {
    Rgba {
        r: single(a[0]),
        g: single(a[1]),
        b: single(a[2]),
        a: single(a[3]),
    }
}

fn floats(v: numeric::Vec3) -> [f32; 3] {
    [float(v.x), float(v.y), float(v.z)]
}

fn color_of(doc: &Document, id: &str) -> [f32; 4] {
    let c = doc.find_entity(id).unwrap().material.color;
    [float(c.r), float(c.g), float(c.b), float(c.a)]
}

fn boxed(id: &str, t: [f32; 3], size: [f32; 3], color: [f32; 4]) -> Entity {
    Entity {
        id: id.to_string(),
        kind: "mesh".to_string(),
        transform: numeric::at(v3(t)),
        mesh: MeshRecipe {
            recipe: "box".to_string(),
            size: v3(size),
        },
        material: Material { color: rgba(color) },
        parent: None,
        graph_id: None,
    }
}

fn document(revision: u64, entities: Vec<Entity>) -> Document {
    Document {
        revision,
        scenes: vec![Scene {
            id: "main".to_string(),
            entities,
        }],
        idempotency_log: vec![],
        graphs: vec![],
        light: SceneLight::default(),
    }
}

fn request(base_revision: u64, key: &str, label: &str, changes: Vec<ApplyChange>) -> ApplyRequest {
    ApplyRequest {
        base_revision,
        idempotency_key: key.to_string(),
        label: label.to_string(),
        changes,
        dry_run: false,
    }
}

fn paint(id: &str, color: [f32; 4]) -> ApplyChange {
    ApplyChange::PatchColor {
        entity_id: id.to_string(),
        color: rgba(color),
    }
}

/// A picture of one row: the colours of the entities in order.
fn swatches(doc: &Document) -> BeautyFrame {
    let mut bytes = Vec::new();
    for e in doc.entities() {
        let c = e.material.color;
        for x in [c.r, c.g, c.b, c.a] {
            bytes.push((float(x) * 255.0) as u8);
        }
    }
    BeautyFrame {
        width: (bytes.len() / 4) as u32,
        height: 1,
        rgba: bytes,
        revision: doc.revision,
        camera: "authored".to_string(),
    }
}

fn forecast(before: &Document, after: &Document) -> Option<PixelForecast> {
    Some(forecast_from_frames(&swatches(before), &swatches(after)))
}

fn apply(doc: &mut Document, req: &ApplyRequest) -> ApplyResult {
    doc.apply(req, &calc, &forecast)
}

fn single(x: f32) -> Real {
    Real { bits: x.to_bits() }
}

fn float(r: Real) -> f32 {
    f32::from_bits(r.bits)
}

fn vec3(v: numeric::Vec3) -> Vec3 {
    Vec3::new(float(v.x), float(v.y), float(v.z))
}

fn point(v: Vec3) -> numeric::Vec3 {
    numeric::Vec3 {
        x: single(v.x),
        y: single(v.y),
        z: single(v.z),
    }
}

fn quat(q: numeric::Quat) -> Quat {
    Quat::from_xyzw(float(q.x), float(q.y), float(q.z), float(q.w))
}

fn four(x: f32, y: f32, z: f32, w: f32) -> numeric::Quat {
    numeric::Quat {
        x: single(x),
        y: single(y),
        z: single(z),
        w: single(w),
    }
}

fn mat4(m: numeric::Mat4) -> Mat4 {
    let col = |c: numeric::Quat| [float(c.x), float(c.y), float(c.z), float(c.w)];
    Mat4::from_cols_array_2d(&[col(m.c0), col(m.c1), col(m.c2), col(m.c3)])
}

fn matrix(m: Mat4) -> numeric::Mat4 {
    let c = m.to_cols_array_2d();
    let col = |a: [f32; 4]| four(a[0], a[1], a[2], a[3]);
    numeric::Mat4 {
        c0: col(c[0]),
        c1: col(c[1]),
        c2: col(c[2]),
        c3: col(c[3]),
    }
}

fn compose(t: Transform) -> Mat4 {
    Mat4::from_scale_rotation_translation(vec3(t.scale), quat(t.rotation), vec3(t.translation))
}

fn decompose(m: Mat4) -> Transform {
    let (scale, rot, trans) = m.to_scale_rotation_translation();
    Transform {
        translation: point(trans),
        rotation: four(rot.x, rot.y, rot.z, rot.w),
        scale: point(scale),
    }
}

fn at_value(x: f32) -> Answer {
    Answer {
        value: single(x),
        ..Answer::blank()
    }
}

fn at_point(v: Vec3) -> Answer {
    Answer {
        point: point(v),
        ..Answer::blank()
    }
}

fn at_matrix(m: Mat4) -> Answer {
    Answer {
        matrix: matrix(m),
        ..Answer::blank()
    }
}

fn at_pose(pose: Transform) -> Answer {
    Answer {
        pose,
        ..Answer::blank()
    }
}

/// Floating point: every computation that the library asks for.
fn calc(op: Calc) -> Answer {
    match op {
        Calc::Compose(t) => at_matrix(compose(t)),
        Calc::Product(a, b) => at_matrix(mat4(a) * mat4(b)),
        Calc::Invert(m) => at_matrix(mat4(m).inverse()),
        Calc::Decompose(m) => at_pose(decompose(mat4(m))),
        Calc::Shift(t) => at_matrix(Mat4::from_translation(vec3(t))),
        Calc::Sum(a, b) => at_point(vec3(a) + vec3(b)),
        Calc::Shrink(a, n) => at_point(vec3(a) / n as f32),
        Calc::Stretch(a, b) => at_point(vec3(a) * vec3(b)),
        Calc::LengthSquared(a) => at_value(vec3(a).length_squared()),
        Calc::Distance(a, b) => at_value((vec3(a) - vec3(b)).length()),
        Calc::Add(a, b) => at_value(float(a) + float(b)),
        Calc::Subtract(a, b) => at_value(float(a) - float(b)),
        Calc::Multiply(a, b) => at_value(float(a) * float(b)),
        Calc::Divide(a, b) => at_value(float(a) / float(b)),
        Calc::Count(n) => at_value(n as f32),
        Calc::Round(a) => Answer {
            count: float(a).round() as u32,
            ..Answer::blank()
        },
        Calc::Floor(a) => at_value(float(a).floor()),
        Calc::Root(a) => at_value(float(a).sqrt()),
        Calc::Sine(a) => at_value(float(a).sin()),
        Calc::Cosine(a) => at_value(float(a).cos()),
        Calc::Tangent(a) => at_value(float(a).tan()),
        Calc::ArcSine(a) => at_value(float(a).asin()),
        Calc::ArcTangent(y, x) => at_value(float(y).atan2(float(x))),
        Calc::Degrees(a) => at_value(float(a).to_degrees()),
        Calc::Radians(a) => at_value(float(a).to_radians()),
        Calc::Gap(a, b) => at_point(vec3(a) - vec3(b)),
        Calc::Scale(a, k) => at_point(vec3(a) * float(k)),
        Calc::Cross(a, b) => at_point(vec3(a).cross(vec3(b))),
        Calc::Unit(a) => {
            let way = vec3(a).try_normalize();
            let mut r = at_point(way.unwrap_or(Vec3::NAN));
            r.holds = way.is_some();
            r
        }
        Calc::View(eye, target, up) => at_matrix(Mat4::look_at_rh(vec3(eye), vec3(target), vec3(up))),
        Calc::Perspective(fov, aspect, near, far) => at_matrix(Mat4::perspective_rh(
            float(fov),
            float(aspect),
            float(near),
            float(far),
        )),
        Calc::Parallel(half, near, far) => {
            let h = float(half);
            at_matrix(Mat4::orthographic_rh(-h, h, -h, h, float(near), float(far)))
        }
        Calc::Move(m, p) => at_point(mat4(m).transform_point3(vec3(p))),
        Calc::Clip(m, p) => {
            let c = mat4(m) * vec3(p).extend(1.0);
            let mut a = Answer::blank();
            a.pose.rotation = four(c.x, c.y, c.z, c.w);
            a
        }
    }
}

/// A number with so many decimals, or in its shortest form.
fn show(x: Real, decimals: u8) -> String {
    if decimals == numeric::SHORTEST {
        format!("{}", float(x))
    } else {
        format!("{:.*}", decimals as usize, float(x))
    }
}

/// The number that a JSON notation stands for.
fn read_number(notation: &str) -> Real {
    single(notation.parse::<f64>().unwrap_or(0.0) as f32)
}

/// The number that a socket's notation stands for. Whole numbers are rounded once.
fn read_socket(notation: &str) -> Real {
    if let Ok(n) = notation.parse::<u64>() {
        return single(n as f32);
    }
    match notation.parse::<i64>() {
        Ok(n) => single(n as f32),
        Err(_) => read_number(notation),
    }
}

/// The number that an argument stands for, if it is one.
fn parse_number(text: &str) -> Option<Real> {
    text.parse::<f32>().ok().map(single)
}
