//! Capabilities, catalog, cameras, play, meshes.

#![allow(dead_code, unused_imports)]

use glam::{Mat4, Quat, Vec3};
use thinner_floor::numeric::{self, Answer, Calc, Real, Transform};
use thinner_floor::apply::{ApplyRequest, ApplyResult};
use thinner_floor::beauty::{forecast_from_frames, BeautyFrame, PixelForecast};
use thinner_floor::change::ApplyChange;
use thinner_floor::document::{Document, Entity, Material, MeshRecipe, Scene};
use thinner_floor::light::SceneLight;
use thinner_floor::numeric::Rgba;
use thinner_floor::camera::{
    camera_basis, frame_authored, proj_matrix, view_matrix, view_proj_matrix, window_view_proj_matrix,
    LookAt, ViewMode, ViewportCameras,
};
use thinner_floor::capabilities::{self, mcp_tool_names};
use thinner_floor::catalog;
use thinner_floor::geom::mesh;
use thinner_floor::json::Json;
use thinner_floor::light::{casts_shadow, direction_vec, light_view_proj, pack_frame, SHADOW_MAP_SIZE};
use thinner_floor::play::{self, PlayState};
use thinner_floor::rtx::{self, RtxState};

#[test]
fn nine_tool_names() {
    assert_eq!(mcp_tool_names().len(), 9);
}

#[test]
fn live_flags_are_honest() {
    let c = capabilities::live(false, &RtxState::default());
    assert!(c.mcp);
    assert!(c.render);
    assert!(!c.jobs);
    assert!(c.play);
    assert!(!c.behavior_runtime);
    assert!(!c.rtx);
    assert!(c.graphs);
    assert!(c.export);
    assert!(c.import);
    assert!(c.lighting);
    assert!(c.shadows);
    assert!(!c.rtx);
    assert!(c.apply.graph_bind);
    assert!(c.apply.patch_light);
    assert!(!c.behavior_runtime);
    assert!(c.history);
    assert!(c.apply.create_mesh);
    assert!(c.apply.aliases);
    assert!(c.project.create);
    assert!(c.apply.layout_pattern);
    assert!(c.apply.group);
    assert!(c.apply.ungroup);
    assert!(c.query.elements);
    assert!(!c.rtx_lifecycle.active);
    assert_eq!(c.apply.max_ops, 128);
}

fn member<'a>(j: &'a Json, a: &str, b: &str) -> &'a Json {
    j.get(a).unwrap().get(b).unwrap()
}

#[test]
fn catalog_does_not_advertise_rtx_active_or_whole_replace() {
    let c = catalog::live();
    let not: Vec<&str> = c
        .get("not")
        .unwrap()
        .as_array()
        .unwrap()
        .iter()
        .map(|v| v.as_str().unwrap())
        .collect();
    assert!(not.contains(&"rtx.active"));
    assert!(not.contains(&"whole_document_replace"));
    assert!(member(&c, "rtx", "active").as_bool() == Some(false));
    assert!(member(&c, "graphs", "compiledToGpu").as_bool() == Some(false));
    assert!(member(&c, "graphs", "evaluatedAtDraw").as_bool() == Some(true));
    assert!(member(&c, "export", "gltf").as_bool() == Some(true));
    assert!(member(&c, "import", "gltf").as_bool() == Some(true));
    assert!(member(&c, "lighting", "rtx").as_bool() == Some(false));
    assert_eq!(member(&c, "lighting", "shadows").as_str(), Some("directionalMap"));
    assert!(member(&c, "export", "animation").as_bool() == Some(false));
    assert!(c
        .get("apply")
        .unwrap()
        .as_array()
        .unwrap()
        .iter()
        .any(|v| v.as_str() == Some("graph_patch")));
}

#[test]
fn request_does_not_activate() {
    let mut state = RtxState::default();
    let s = rtx::set_requested(&mut state, true);
    assert!(s.requested);
    assert!(!s.active);
    assert!(!s.supported);
    let off = rtx::set_requested(&mut state, false);
    assert!(!off.requested);
    assert_eq!(rtx::snapshot(&state), off);
}

#[test]
fn play_stop_resets_time() {
    let mut s = PlayState::default();
    let _ = play::apply(&mut s, "stop", None, &calc);
    assert!(play::apply(&mut s, "enter", None, &calc).unwrap().playing);
    assert_eq!(float(play::apply(&mut s, "stop", None, &calc).unwrap().time), 0.0);
}

#[test]
fn playhead_stays_in_its_range() {
    let mut s = PlayState::default();
    assert_eq!(play::apply(&mut s, "seek", None, &calc).unwrap_err(), "seek_needs_time");
    assert_eq!(play::apply(&mut s, "fly", None, &calc).unwrap_err(), "unknown_play_action:fly");
    let far = play::apply(&mut s, "seek", Some(single(99.0)), &calc).unwrap();
    assert_eq!(float(far.time), 10.0);
    let back = play::apply(&mut s, "seek", Some(single(-3.0)), &calc).unwrap();
    assert_eq!(float(back.time), 0.0);
    let step = play::apply(&mut s, "step", None, &calc).unwrap();
    assert_eq!(float(step.time), 1.0 / 24.0);
    assert!(step.paused && !step.playing);
    assert_eq!(play::snapshot(&s), step);
}

#[test]
fn evidence_stays_authored_when_review_is_active() {
    let mut r = ViewportCameras::new();
    r.mode = ViewMode::Review;
    r.review.eye = v3([0.0, 3.0, 12.0]);
    let aspect = single(1.5);
    let authored = view_proj_matrix(aspect, &calc);
    let window = window_view_proj_matrix(&r, aspect, &calc);
    assert_ne!(authored, window);
    assert_eq!(r.effective_name(), "review");
    r = ViewportCameras::new();
    assert_eq!(
        view_proj_matrix(aspect, &calc),
        LookAt::authored_default().view_proj_matrix(aspect, &calc)
    );
    assert_eq!(window_view_proj_matrix(&r, aspect, &calc), authored);
    assert_eq!(r.effective_name(), "authored");
}

#[test]
fn the_authored_camera_has_exact_matrices() {
    let eye = Vec3::new(0.35, 1.75, 7.8);
    let target = Vec3::new(0.0, 0.55, 0.0);
    let view = Mat4::look_at_rh(eye, target, Vec3::Y);
    assert_eq!(mat4(view_matrix(&calc)), view);
    let lens = Mat4::perspective_rh(45.0_f32.to_radians(), 1.5, 0.1, 100.0);
    assert_eq!(mat4(proj_matrix(single(1.5), &calc)), lens);
    assert_eq!(mat4(view_proj_matrix(single(1.5), &calc)), lens * view);
    assert_eq!(proj_matrix(single(-3.0), &calc), proj_matrix(single(0.01), &calc));
    let (right, up, forward) = camera_basis(&calc);
    assert_eq!(vec3(forward), (target - eye).normalize());
    assert!(vec3(right).dot(vec3(up)).abs() < 1e-6);
}

#[test]
fn the_sun_sees_whole_texels() {
    let light = SceneLight::default();
    let d = Vec3::new(-0.35, -0.85, -0.25).normalize();
    assert_eq!(vec3(direction_vec(&light, &calc)), d);
    let dark = SceneLight {
        direction: v3([0.0, 0.0, 0.0]),
        shadows: false,
    };
    assert_eq!(floats(direction_vec(&dark, &calc)), [0.0, -1.0, 0.0]);
    let texel = 16.0 / SHADOW_MAP_SIZE as f32;
    let snap = |v: f32| (v / texel).floor() * texel;
    let c = Vec3::new(snap(0.3), snap(0.7), snap(-0.2));
    let view = Mat4::look_at_rh(c - d * (8.0 * 2.2), c, Vec3::Y);
    let flat = Mat4::orthographic_rh(-8.0, 8.0, -8.0, 8.0, 0.5, 40.0);
    let seen = light_view_proj(&light, v3([0.3, 0.7, -0.2]), single(8.0), &calc);
    assert_eq!(mat4(seen), flat * view);
    let wide = light_view_proj(&light, v3([0.0; 3]), single(100.0), &calc);
    assert_eq!(wide, light_view_proj(&light, v3([0.0; 3]), single(24.0), &calc));
    let vp = view_proj_matrix(single(1.5), &calc);
    let u = pack_frame(vp, &dark, v3([0.0; 3]), single(1.0), &calc);
    assert_eq!(u.view_proj, vp);
    assert_eq!([u.shadow.x, u.shadow.y, u.shadow.z, u.shadow.w].map(float), [0.0004, 0.0, 1.0 / 2048.0, 8.0 / 2048.0]);
    assert_eq!(float(pack_frame(vp, &light, v3([0.0; 3]), single(1.0), &calc).shadow.y), 1.0);
}

#[test]
fn framing_backs_the_authored_camera_off() {
    let mut r = ViewportCameras::new();
    frame_authored(&mut r, v3([1.0, 2.0, 3.0]), single(2.0), &calc);
    assert_eq!(floats(r.authored.target), [1.0, 2.0, 3.0]);
    let eye = vec3(r.authored.eye);
    let dist = (eye - Vec3::new(1.0, 2.0, 3.0)).length();
    let half = (45.0_f32.to_radians() * 0.5).tan();
    assert!((dist - 2.0 / half * 1.35).abs() < 1e-4);
    assert_eq!(r.review, ViewportCameras::new().review);
}

#[test]
fn plane_has_two_tris() {
    let m = mesh("plane", v3([2.0, 0.0, 2.0]), &calc).unwrap();
    assert_eq!(m.indices.len(), 6);
}

#[test]
fn plane_winding_faces_plus_y() {
    let m = mesh("plane", v3([2.0, 0.0, 2.0]), &calc).unwrap();
    assert!(float(m.normals[0].y) > 0.0);
    let a = floats(m.positions[m.indices[0] as usize]);
    let b = floats(m.positions[m.indices[1] as usize]);
    let c = floats(m.positions[m.indices[2] as usize]);
    let ux = b[0] - a[0];
    let uz = b[2] - a[2];
    let vx = c[0] - a[0];
    let vz = c[2] - a[2];
    let ny = uz * vx - ux * vz;
    assert!(ny > 0.0, "plane first tri must face +Y (got ny={ny}); authored cam looks from above");
}

#[test]
fn sphere_has_many_tris() {
    let m = mesh("sphere", v3([1.0, 1.0, 1.0]), &calc).unwrap();
    assert_eq!(m.positions.len(), m.normals.len());
    assert!(m.indices.len() > 24);
}

#[test]
fn some_recipes_have_no_triangles() {
    let s = v3([1.0, 1.0, 1.0]);
    assert_eq!(mesh("empty", s, &calc).unwrap_err(), "empty_has_no_triangles");
    assert_eq!(mesh("cone", s, &calc).unwrap_err(), "unsupported_mesh_recipe:cone");
    let m = mesh("box", v3([2.0, 4.0, 6.0]), &calc).unwrap();
    assert_eq!(m.indices.len(), 36);
    assert_eq!(floats(m.positions[0]), [-1.0, -2.0, 3.0]);
}

#[test]
fn ground_and_bits_do_not_cast() {
    assert!(!casts_shadow("empty", v3([0.0, 0.0, 0.0])));
    assert!(!casts_shadow("box", v3([8.0, 0.1, 8.0])));
    assert!(!casts_shadow("plane", v3([2.0, 0.0, 2.0])));
    assert!(!casts_shadow("box", v3([0.12, 0.12, 0.08])));
    assert!(casts_shadow("box", v3([1.0, 1.0, 1.0])));
    assert!(casts_shadow("sphere", v3([0.9, 0.9, 0.9])));
}

#[test]
fn numbers_are_ordered_by_their_bits() {
    assert!(single(-2.0).lt(single(-1.0)));
    assert!(single(-1.0).lt(single(0.5)));
    assert!(!single(f32::NAN).lt(single(0.5)));
    assert!(single(-0.0).le(single(0.0)) && single(0.0).le(single(-0.0)));
    assert_eq!(float(single(f32::NAN).max(single(3.0))), 3.0);
    assert_eq!(float(single(7.0).clamp(single(0.0), single(5.0))), 5.0);
    assert_eq!(float(single(-7.5).abs()), 7.5);
}

#[test]
fn the_clock_never_plays_and_pauses_at_once() {
    let mut s = PlayState::default();
    for action in ["pause", "play", "pause", "pause", "enter", "step", "seek", "play", "step", "stop"] {
        let now = play::apply(&mut s, action, Some(single(9.99)), &calc).unwrap();
        assert!(!(now.playing && now.paused));
        assert!(float(now.time) >= 0.0 && float(now.time) <= float(now.duration));
        assert_eq!(float(now.duration), 10.0);
        assert_eq!(play::snapshot(&s), now);
    }
    assert_eq!(s, PlayState::default());
}

fn v3(a: [f32; 3]) -> numeric::Vec3 {
    numeric::Vec3 {
        x: single(a[0]),
        y: single(a[1]),
        z: single(a[2]),
    }
}

fn rgba(a: [f32; 4]) -> Rgba {
    Rgba {
        r: single(a[0]),
        g: single(a[1]),
        b: single(a[2]),
        a: single(a[3]),
    }
}

fn floats(v: numeric::Vec3) -> [f32; 3] {
    [float(v.x), float(v.y), float(v.z)]
}

fn color_of(doc: &Document, id: &str) -> [f32; 4] {
    let c = doc.find_entity(id).unwrap().material.color;
    [float(c.r), float(c.g), float(c.b), float(c.a)]
}

fn boxed(id: &str, t: [f32; 3], size: [f32; 3], color: [f32; 4]) -> Entity {
    Entity {
        id: id.to_string(),
        kind: "mesh".to_string(),
        transform: numeric::at(v3(t)),
        mesh: MeshRecipe {
            recipe: "box".to_string(),
            size: v3(size),
        },
        material: Material { color: rgba(color) },
        parent: None,
        graph_id: None,
    }
}

fn document(revision: u64, entities: Vec<Entity>) -> Document {
    Document {
        revision,
        scenes: vec![Scene {
            id: "main".to_string(),
            entities,
        }],
        idempotency_log: vec![],
        graphs: vec![],
        light: SceneLight::default(),
    }
}

fn request(base_revision: u64, key: &str, label: &str, changes: Vec<ApplyChange>) -> ApplyRequest {
    ApplyRequest {
        base_revision,
        idempotency_key: key.to_string(),
        label: label.to_string(),
        changes,
        dry_run: false,
    }
}

fn paint(id: &str, color: [f32; 4]) -> ApplyChange {
    ApplyChange::PatchColor {
        entity_id: id.to_string(),
        color: rgba(color),
    }
}

/// A picture of one row: the colours of the entities in order.
fn swatches(doc: &Document) -> BeautyFrame {
    let mut bytes = Vec::new();
    for e in doc.entities() {
        let c = e.material.color;
        for x in [c.r, c.g, c.b, c.a] {
            bytes.push((float(x) * 255.0) as u8);
        }
    }
    BeautyFrame {
        width: (bytes.len() / 4) as u32,
        height: 1,
        rgba: bytes,
        revision: doc.revision,
        camera: "authored".to_string(),
    }
}

fn forecast(before: &Document, after: &Document) -> Option<PixelForecast> {
    Some(forecast_from_frames(&swatches(before), &swatches(after)))
}

fn apply(doc: &mut Document, req: &ApplyRequest) -> ApplyResult {
    doc.apply(req, &calc, &forecast)
}

fn single(x: f32) -> Real {
    Real { bits: x.to_bits() }
}

fn float(r: Real) -> f32 {
    f32::from_bits(r.bits)
}

fn vec3(v: numeric::Vec3) -> Vec3 {
    Vec3::new(float(v.x), float(v.y), float(v.z))
}

fn point(v: Vec3) -> numeric::Vec3 {
    numeric::Vec3 {
        x: single(v.x),
        y: single(v.y),
        z: single(v.z),
    }
}

fn quat(q: numeric::Quat) -> Quat {
    Quat::from_xyzw(float(q.x), float(q.y), float(q.z), float(q.w))
}

fn four(x: f32, y: f32, z: f32, w: f32) -> numeric::Quat {
    numeric::Quat {
        x: single(x),
        y: single(y),
        z: single(z),
        w: single(w),
    }
}

fn mat4(m: numeric::Mat4) -> Mat4 {
    let col = |c: numeric::Quat| [float(c.x), float(c.y), float(c.z), float(c.w)];
    Mat4::from_cols_array_2d(&[col(m.c0), col(m.c1), col(m.c2), col(m.c3)])
}

fn matrix(m: Mat4) -> numeric::Mat4 {
    let c = m.to_cols_array_2d();
    let col = |a: [f32; 4]| four(a[0], a[1], a[2], a[3]);
    numeric::Mat4 {
        c0: col(c[0]),
        c1: col(c[1]),
        c2: col(c[2]),
        c3: col(c[3]),
    }
}

fn compose(t: Transform) -> Mat4 {
    Mat4::from_scale_rotation_translation(vec3(t.scale), quat(t.rotation), vec3(t.translation))
}

fn decompose(m: Mat4) -> Transform {
    let (scale, rot, trans) = m.to_scale_rotation_translation();
    Transform {
        translation: point(trans),
        rotation: four(rot.x, rot.y, rot.z, rot.w),
        scale: point(scale),
    }
}

fn at_value(x: f32) -> Answer {
    Answer {
        value: single(x),
        ..Answer::blank()
    }
}

fn at_point(v: Vec3) -> Answer {
    Answer {
        point: point(v),
        ..Answer::blank()
    }
}

fn at_matrix(m: Mat4) -> Answer {
    Answer {
        matrix: matrix(m),
        ..Answer::blank()
    }
}

fn at_pose(pose: Transform) -> Answer {
    Answer {
        pose,
        ..Answer::blank()
    }
}

/// Floating point: every computation that the library asks for.
fn calc(op: Calc) -> Answer {
    match op {
        Calc::Compose(t) => at_matrix(compose(t)),
        Calc::Product(a, b) => at_matrix(mat4(a) * mat4(b)),
        Calc::Invert(m) => at_matrix(mat4(m).inverse()),
        Calc::Decompose(m) => at_pose(decompose(mat4(m))),
        Calc::Shift(t) => at_matrix(Mat4::from_translation(vec3(t))),
        Calc::Sum(a, b) => at_point(vec3(a) + vec3(b)),
        Calc::Shrink(a, n) => at_point(vec3(a) / n as f32),
        Calc::Stretch(a, b) => at_point(vec3(a) * vec3(b)),
        Calc::LengthSquared(a) => at_value(vec3(a).length_squared()),
        Calc::Distance(a, b) => at_value((vec3(a) - vec3(b)).length()),
        Calc::Add(a, b) => at_value(float(a) + float(b)),
        Calc::Subtract(a, b) => at_value(float(a) - float(b)),
        Calc::Multiply(a, b) => at_value(float(a) * float(b)),
        Calc::Divide(a, b) => at_value(float(a) / float(b)),
        Calc::Count(n) => at_value(n as f32),
        Calc::Round(a) => Answer {
            count: float(a).round() as u32,
            ..Answer::blank()
        },
        Calc::Floor(a) => at_value(float(a).floor()),
        Calc::Root(a) => at_value(float(a).sqrt()),
        Calc::Sine(a) => at_value(float(a).sin()),
        Calc::Cosine(a) => at_value(float(a).cos()),
        Calc::Tangent(a) => at_value(float(a).tan()),
        Calc::ArcSine(a) => at_value(float(a).asin()),
        Calc::ArcTangent(y, x) => at_value(float(y).atan2(float(x))),
        Calc::Degrees(a) => at_value(float(a).to_degrees()),
        Calc::Radians(a) => at_value(float(a).to_radians()),
        Calc::Gap(a, b) => at_point(vec3(a) - vec3(b)),
        Calc::Scale(a, k) => at_point(vec3(a) * float(k)),
        Calc::Cross(a, b) => at_point(vec3(a).cross(vec3(b))),
        Calc::Unit(a) => {
            let way = vec3(a).try_normalize();
            let mut r = at_point(way.unwrap_or(Vec3::NAN));
            r.holds = way.is_some();
            r
        }
        Calc::View(eye, target, up) => at_matrix(Mat4::look_at_rh(vec3(eye), vec3(target), vec3(up))),
        Calc::Perspective(fov, aspect, near, far) => at_matrix(Mat4::perspective_rh(
            float(fov),
            float(aspect),
            float(near),
            float(far),
        )),
        Calc::Parallel(half, near, far) => {
            let h = float(half);
            at_matrix(Mat4::orthographic_rh(-h, h, -h, h, float(near), float(far)))
        }
        Calc::Move(m, p) => at_point(mat4(m).transform_point3(vec3(p))),
        Calc::Clip(m, p) => {
            let c = mat4(m) * vec3(p).extend(1.0);
            let mut a = Answer::blank();
            a.pose.rotation = four(c.x, c.y, c.z, c.w);
            a
        }
    }
}

/// A number with so many decimals, or in its shortest form.
fn show(x: Real, decimals: u8) -> String {
    if decimals == numeric::SHORTEST {
        format!("{}", float(x))
    } else {
        format!("{:.*}", decimals as usize, float(x))
    }
}

/// The number that a JSON notation stands for.
fn read_number(notation: &str) -> Real {
    single(notation.parse::<f64>().unwrap_or(0.0) as f32)
}

/// The number that a socket's notation stands for. Whole numbers are rounded once.
fn read_socket(notation: &str) -> Real {
    if let Ok(n) = notation.parse::<u64>() {
        return single(n as f32);
    }
    match notation.parse::<i64>() {
        Ok(n) => single(n as f32),
        Err(_) => read_number(notation),
    }
}

/// The number that an argument stands for, if it is one.
fn parse_number(text: &str) -> Option<Real> {
    text.parse::<f32>().ok().map(single)
}
