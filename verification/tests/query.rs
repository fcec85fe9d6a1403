//! Queries over a document.

#![allow(dead_code, unused_imports)]

use glam::{Mat4, Quat, Vec3};
use thinner_floor::numeric::{self, Answer, Calc, Real, Transform};
use thinner_floor::apply::{ApplyRequest, ApplyResult};
use thinner_floor::beauty::{forecast_from_frames, BeautyFrame, PixelForecast};
use thinner_floor::change::ApplyChange;
use thinner_floor::document::{Document, Entity, Material, MeshRecipe, Scene};
use thinner_floor::light::SceneLight;
use thinner_floor::numeric::Rgba;
use thinner_floor::beauty::IdBuffer;
use thinner_floor::camera::{default_aspect, view_matrix};
use thinner_floor::query::{
    default_min_extent, default_tolerance, entity_extent, run_query, ColorQuery, QueryResult, QuerySpec,
};

fn no_ids(_: &Document, _: u32, _: u32) -> Result<IdBuffer, String> {
    Err("no_gpu".to_string())
}

fn ask(doc: &Document, spec: QuerySpec) -> QueryResult {
    run_query(doc, &spec, &calc, &show, &no_ids)
}

fn sit_rev6() -> Document {
    let yellow = [0.88, 0.68, 0.14, 1.0];
    let red = [0.78, 0.18, 0.14, 1.0];
    let blue = [0.50, 0.70, 0.92, 1.0];
    let dark = [0.22, 0.22, 0.24, 1.0];
    let mut entities = vec![
        boxed("ground", [0.0, -0.05, 0.0], [8.0, 0.1, 8.0], blue),
        boxed("box-1", [0.0, 0.5, 0.0], [1.0, 1.0, 1.0], yellow),
        boxed("box-2", [-2.0, 0.5, 0.0], [1.0, 1.0, 1.0], red),
    ];
    for (cube, origin) in [("box-1", [0.0_f32, 0.5, 0.0]), ("box-2", [-2.0, 0.5, 0.0])] {
        let bits = [
            ("eye-l", [origin[0] - 0.18, origin[1] + 0.18, origin[2] + 0.51]),
            ("eye-r", [origin[0] + 0.18, origin[1] + 0.18, origin[2] + 0.51]),
            ("mouth-0", [origin[0] - 0.18, origin[1] - 0.15, origin[2] + 0.51]),
            ("mouth-1", [origin[0], origin[1] - 0.18, origin[2] + 0.51]),
            ("mouth-2", [origin[0] + 0.18, origin[1] - 0.15, origin[2] + 0.51]),
        ];
        for (name, t) in bits {
            entities.push(boxed(&format!("{cube}-{name}"), t, [0.12, 0.12, 0.08], dark));
        }
    }
    document(6, entities)
}

fn left_of(id: &str) -> QuerySpec {
    QuerySpec::LeftOf {
        entity_id: id.to_string(),
        min_extent: default_min_extent(),
    }
}

fn on_screen() -> QuerySpec {
    QuerySpec::OnScreen {
        min_extent: default_min_extent(),
        aspect: default_aspect(),
    }
}

fn named(name: &str) -> QuerySpec {
    QuerySpec::ColorOf {
        color: ColorQuery::Name(name.to_string()),
        min_extent: default_min_extent(),
        tolerance: default_tolerance(),
    }
}

#[test]
fn yellow_is_in_front_and_right_of_red() {
    let doc = sit_rev6();
    let view = mat4(view_matrix(&calc));
    let yellow = vec3(doc.standing_place(doc.find_entity("box-1").unwrap(), &calc));
    let red = vec3(doc.standing_place(doc.find_entity("box-2").unwrap(), &calc));
    let y = view.transform_point3(yellow);
    let r = view.transform_point3(red);
    assert!(y.x > r.x, "yellow should be camera-right of red: y.x={:.3} r.x={:.3}", y.x, r.x);
    assert!(y.z > r.z, "yellow should be in front of red: y.z={:.3} r.z={:.3}", y.z, r.z);
}

#[test]
fn left_of_yellow_returns_red_cube() {
    let result = ask(&sit_rev6(), left_of("box-1"));
    assert!(result.ok, "{result:?}");
    assert_eq!(result.hits.first().map(|h| h.id.as_str()), Some("box-2"), "{:?}", result.hits);
    assert!(
        !result.hits.iter().any(|h| h.id.contains("eye") || h.id.contains("mouth")),
        "smiley bits should be filtered by min_extent: {:?}",
        result.hits
    );
}

#[test]
fn color_of_red_yellow_blue_match_ids() {
    let doc = sit_rev6();
    assert_eq!(ask(&doc, named("red")).hits[0].id, "box-2");
    assert_eq!(ask(&doc, named("yellow")).hits[0].id, "box-1");
    assert_eq!(ask(&doc, named("blue")).hits[0].id, "ground");
}

#[test]
fn on_screen_hits_include_screen_depth_occlusion() {
    let result = ask(&sit_rev6(), on_screen());
    let box1 = result.hits.iter().find(|h| h.id == "box-1").unwrap();
    assert!(box1.screen.is_some());
    assert!(box1.depth.is_some());
    assert_eq!(box1.occluded, Some(false));
}

#[test]
fn on_screen_includes_both_cubes() {
    let result = ask(&sit_rev6(), on_screen());
    assert!(result.ok);
    let ids: Vec<_> = result.hits.iter().map(|h| h.id.as_str()).collect();
    assert!(ids.contains(&"box-1"), "{ids:?}");
    assert!(ids.contains(&"box-2"), "{ids:?}");
    assert!(ids.contains(&"ground"), "{ids:?}");
}

#[test]
fn move_the_one_left_of_yellow_via_query_ids() {
    let mut doc = sit_rev6();
    let left = ask(&doc, left_of("box-1"));
    let target_id = left.hits[0].id.clone();
    assert_eq!(target_id, "box-2");
    let before = doc.revision;
    let r = apply(
        &mut doc,
        &request(
            before,
            "nudge-left-of-yellow",
            "move the one left of yellow",
            vec![ApplyChange::PatchTranslation {
                entity_id: target_id.clone(),
                translation: v3([-2.0, 0.5, 1.0]),
            }],
        ),
    );
    assert!(r.ok, "{r:?}");
    assert_eq!(doc.revision, before + 1);
    assert_eq!(
        floats(doc.find_entity(&target_id).unwrap().transform.translation),
        [-2.0, 0.5, 1.0]
    );
}

fn sit_assembly() -> Document {
    let yellow = [0.88, 0.68, 0.14, 1.0];
    let red = [0.78, 0.18, 0.14, 1.0];
    let blue = [0.50, 0.70, 0.92, 1.0];
    let dark = [0.22, 0.22, 0.24, 1.0];
    let spike = [0.20, 0.45, 0.90, 1.0];
    document(
        15,
        vec![
            boxed("ground", [0.0, -0.05, 0.0], [8.0, 0.1, 8.0], blue),
            boxed("box-1", [0.0, 0.5, 0.0], [1.0, 1.0, 1.0], yellow),
            boxed("box-1-hat-brim", [0.0, 1.12, 0.0], [1.2, 0.08, 1.2], yellow),
            boxed("box-1-eye-l", [-0.18, 0.68, 0.51], [0.12, 0.12, 0.08], dark),
            boxed("box-2", [-2.0, 0.5, 0.0], [1.0, 1.0, 1.0], red),
            boxed("box-2-hair-0", [-2.0, -20.0, 0.0], [0.2, 0.4, 0.2], dark),
            boxed("box-2-hair-1", [-1.85, -20.0, 0.1], [0.2, 0.4, 0.2], dark),
            boxed("box-3", [2.0, 0.5, 0.0], [1.0, 1.0, 1.0], spike),
            boxed("box-3-spike-0", [2.0, 1.3, 0.0], [0.15, 0.4, 0.15], spike),
        ],
    )
}

fn assembly(id: &str) -> QuerySpec {
    QuerySpec::AssemblyOf {
        entity_id: id.to_string(),
    }
}

fn assembly_ids(doc: &Document, entity_id: &str) -> Vec<String> {
    let result = ask(doc, assembly(entity_id));
    assert!(result.ok, "{result:?}");
    result.hits.into_iter().map(|h| h.id).collect()
}

#[test]
fn assembly_of_box_1_includes_hat_and_eye_not_box_2() {
    let doc = sit_assembly();
    let ids = assembly_ids(&doc, "box-1");
    assert!(ids.contains(&"box-1".to_string()), "{ids:?}");
    assert!(ids.contains(&"box-1-hat-brim".to_string()), "{ids:?}");
    assert!(ids.contains(&"box-1-eye-l".to_string()), "{ids:?}");
    assert!(!ids.iter().any(|id| id == "box-2" || id.starts_with("box-2-")), "{ids:?}");
}

#[test]
fn assembly_of_missing_id_fails_clearly() {
    let result = ask(&sit_assembly(), assembly("no-such"));
    assert!(!result.ok, "{result:?}");
    assert!(result.hits.is_empty());
    let err = result.error.expect("missing id must error");
    assert!(err.contains("unknown_entity:no-such"), "expected unknown_entity:no-such, got {err}");
}

#[test]
fn assembly_of_ground_is_just_ground() {
    assert_eq!(assembly_ids(&sit_assembly(), "ground"), vec!["ground".to_string()]);
}

#[test]
fn assembly_of_includes_parked_hair_by_name() {
    let doc = sit_assembly();
    let ids = assembly_ids(&doc, "box-2");
    assert!(ids.contains(&"box-2".to_string()), "{ids:?}");
    assert!(ids.contains(&"box-2-hair-0".to_string()), "{ids:?}");
    assert!(ids.contains(&"box-2-hair-1".to_string()), "{ids:?}");
    let parked = doc.find_entity("box-2-hair-0").unwrap();
    assert!(float(parked.transform.translation.y) < -10.0);
    assert!(!ids.iter().any(|id| id.starts_with("box-1")), "{ids:?}");
}

#[test]
fn assembly_of_box_3_includes_spikes() {
    let doc = sit_assembly();
    let ids = assembly_ids(&doc, "box-3");
    assert!(ids.contains(&"box-3".to_string()), "{ids:?}");
    assert!(ids.contains(&"box-3-spike-0".to_string()), "{ids:?}");
}

#[test]
fn unknown_names_are_refused() {
    let doc = sit_rev6();
    assert_eq!(ask(&doc, left_of("ghost")).error.as_deref(), Some("unknown_entity:ghost"));
    assert_eq!(ask(&doc, named("puce")).error.as_deref(), Some("unknown_color_name:puce"));
}

#[test]
fn a_pixel_query_reports_the_covering_object() {
    let doc = sit_rev6();
    let ids = |_: &Document, w: u32, h: u32| -> Result<IdBuffer, String> {
        Ok(IdBuffer {
            width: w,
            height: h,
            ids: (0..w * h).map(|i| if i == 5 { 2 } else { 0 }).collect(),
            names: vec!["ground".to_string(), "box-1".to_string()],
        })
    };
    let at = |x: u32, y: u32| QuerySpec::Pixel {
        x,
        y,
        width: Some(4),
        height: Some(3),
    };
    let hit = run_query(&doc, &at(1, 1), &calc, &show, &ids);
    assert!(hit.ok);
    assert_eq!(hit.hits[0].id, "box-1");
    assert_eq!(hit.hits[0].reason, "objectId@(1,1)");
    assert!(run_query(&doc, &at(0, 0), &calc, &show, &ids).hits.is_empty());
    assert!(run_query(&doc, &at(9, 9), &calc, &show, &ids).hits.is_empty());
    let failed = ask(&doc, at(0, 0));
    assert!(!failed.ok);
    assert_eq!(failed.error.as_deref(), Some("no_gpu"));
}

#[test]
fn elements_are_filtered_by_place_and_distance() {
    let doc = sit_rev6();
    let within = |y_min: Option<f32>, near: Option<&str>| QuerySpec::Elements {
        bbox_min: None,
        bbox_max: None,
        y_min: y_min.map(single),
        y_max: None,
        not_adjacent_to: near.map(|s| s.to_string()),
        min_extent: default_min_extent(),
    };
    let ids = |r: QueryResult| r.hits.into_iter().map(|h| h.id).collect::<Vec<_>>();
    assert_eq!(ids(ask(&doc, within(None, None))), vec!["ground", "box-1", "box-2"]);
    assert_eq!(ids(ask(&doc, within(Some(0.0), None))), vec!["box-1", "box-2"]);
    assert_eq!(ids(ask(&doc, within(Some(0.0), Some("box-1")))), Vec::<String>::new());
    let hit = ask(&doc, within(Some(0.0), None));
    assert_eq!(hit.hits[0].reason, "elements;world=[0.00,0.50,0.00]");
}

#[test]
fn extent_is_the_largest_scaled_side() {
    let e = boxed("e", [0.0, 0.0, 0.0], [1.0, 3.0, 2.0], [0.0, 0.0, 0.0, 1.0]);
    assert_eq!(float(entity_extent(&e, &calc)), 3.0);
}

#[test]
fn larger_bodies_come_first_and_ties_keep_their_order() {
    let doc = document(
        1,
        vec![
            boxed("small", [0.0, 0.5, 0.0], [0.5, 0.5, 0.5], [0.5, 0.5, 0.5, 1.0]),
            boxed("one", [0.5, 0.5, 0.0], [1.0, 1.0, 1.0], [0.5, 0.5, 0.5, 1.0]),
            boxed("two", [-0.5, 0.5, 0.0], [1.0, 1.0, 1.0], [0.5, 0.5, 0.5, 1.0]),
        ],
    );
    let ids: Vec<String> = ask(&doc, on_screen()).hits.into_iter().map(|h| h.id).collect();
    assert_eq!(ids, vec!["one", "two", "small"]);
}

fn v3(a: [f32; 3]) -> numeric::Vec3 {
    numeric::Vec3 {
        x: single(a[0]),
        y: single(a[1]),
        z: single(a[2]),
    }
}

fn rgba(a: [f32; 4]) -> Rgba {
    Rgba {
        r: single(a[0]),
        g: single(a[1]),
        b: single(a[2]),
        a: single(a[3]),
    }
}

fn floats(v: numeric::Vec3) -> [f32; 3] {
    [float(v.x), float(v.y), float(v.z)]
}

fn color_of(doc: &Document, id: &str) -> [f32; 4] {
    let c = doc.find_entity(id).unwrap().material.color;
    [float(c.r), float(c.g), float(c.b), float(c.a)]
}

fn boxed(id: &str, t: [f32; 3], size: [f32; 3], color: [f32; 4]) -> Entity {
    Entity {
        id: id.to_string(),
        kind: "mesh".to_string(),
        transform: numeric::at(v3(t)),
        mesh: MeshRecipe {
            recipe: "box".to_string(),
            size: v3(size),
        },
        material: Material { color: rgba(color) },
        parent: None,
        graph_id: None,
    }
}

fn document(revision: u64, entities: Vec<Entity>) -> Document {
    Document {
        revision,
        scenes: vec![Scene {
            id: "main".to_string(),
            entities,
        }],
        idempotency_log: vec![],
        graphs: vec![],
        light: SceneLight::default(),
    }
}

fn request(base_revision: u64, key: &str, label: &str, changes: Vec<ApplyChange>) -> ApplyRequest {
    ApplyRequest {
        base_revision,
        idempotency_key: key.to_string(),
        label: label.to_string(),
        changes,
        dry_run: false,
    }
}

fn paint(id: &str, color: [f32; 4]) -> ApplyChange {
    ApplyChange::PatchColor {
        entity_id: id.to_string(),
        color: rgba(color),
    }
}

/// A picture of one row: the colours of the entities in order.
fn swatches(doc: &Document) -> BeautyFrame {
    let mut bytes = Vec::new();
    for e in doc.entities() {
        let c = e.material.color;
        for x in [c.r, c.g, c.b, c.a] {
            bytes.push((float(x) * 255.0) as u8);
        }
    }
    BeautyFrame {
        width: (bytes.len() / 4) as u32,
        height: 1,
        rgba: bytes,
        revision: doc.revision,
        camera: "authored".to_string(),
    }
}

fn forecast(before: &Document, after: &Document) -> Option<PixelForecast> {
    Some(forecast_from_frames(&swatches(before), &swatches(after)))
}

fn apply(doc: &mut Document, req: &ApplyRequest) -> ApplyResult {
    doc.apply(req, &calc, &forecast)
}

fn single(x: f32) -> Real {
    Real { bits: x.to_bits() }
}

fn float(r: Real) -> f32 {
    f32::from_bits(r.bits)
}

fn vec3(v: numeric::Vec3) -> Vec3 {
    Vec3::new(float(v.x), float(v.y), float(v.z))
}

fn point(v: Vec3) -> numeric::Vec3 {
    numeric::Vec3 {
        x: single(v.x),
        y: single(v.y),
        z: single(v.z),
    }
}

fn quat(q: numeric::Quat) -> Quat {
    Quat::from_xyzw(float(q.x), float(q.y), float(q.z), float(q.w))
}

fn four(x: f32, y: f32, z: f32, w: f32) -> numeric::Quat {
    numeric::Quat {
        x: single(x),
        y: single(y),
        z: single(z),
        w: single(w),
    }
}

fn mat4(m: numeric::Mat4) -> Mat4 {
    let col = |c: numeric::Quat| [float(c.x), float(c.y), float(c.z), float(c.w)];
    Mat4::from_cols_array_2d(&[col(m.c0), col(m.c1), col(m.c2), col(m.c3)])
}

fn matrix(m: Mat4) -> numeric::Mat4 {
    let c = m.to_cols_array_2d();
    let col = |a: [f32; 4]| four(a[0], a[1], a[2], a[3]);
    numeric::Mat4 {
        c0: col(c[0]),
        c1: col(c[1]),
        c2: col(c[2]),
        c3: col(c[3]),
    }
}

fn compose(t: Transform) -> Mat4 {
    Mat4::from_scale_rotation_translation(vec3(t.scale), quat(t.rotation), vec3(t.translation))
}

fn decompose(m: Mat4) -> Transform {
    let (scale, rot, trans) = m.to_scale_rotation_translation();
    Transform {
        translation: point(trans),
        rotation: four(rot.x, rot.y, rot.z, rot.w),
        scale: point(scale),
    }
}

fn at_value(x: f32) -> Answer {
    Answer {
        value: single(x),
        ..Answer::blank()
    }
}

fn at_point(v: Vec3) -> Answer {
    Answer {
        point: point(v),
        ..Answer::blank()
    }
}

fn at_matrix(m: Mat4) -> Answer {
    Answer {
        matrix: matrix(m),
        ..Answer::blank()
    }
}

fn at_pose(pose: Transform) -> Answer {
    Answer {
        pose,
        ..Answer::blank()
    }
}

/// Floating point: every computation that the library asks for.
fn calc(op: Calc) -> Answer {
    match op {
        Calc::Compose(t) => at_matrix(compose(t)),
        Calc::Product(a, b) => at_matrix(mat4(a) * mat4(b)),
        Calc::Invert(m) => at_matrix(mat4(m).inverse()),
        Calc::Decompose(m) => at_pose(decompose(mat4(m))),
        Calc::Shift(t) => at_matrix(Mat4::from_translation(vec3(t))),
        Calc::Sum(a, b) => at_point(vec3(a) + vec3(b)),
        Calc::Shrink(a, n) => at_point(vec3(a) / n as f32),
        Calc::Stretch(a, b) => at_point(vec3(a) * vec3(b)),
        Calc::LengthSquared(a) => at_value(vec3(a).length_squared()),
        Calc::Distance(a, b) => at_value((vec3(a) - vec3(b)).length()),
        Calc::Add(a, b) => at_value(float(a) + float(b)),
        Calc::Subtract(a, b) => at_value(float(a) - float(b)),
        Calc::Multiply(a, b) => at_value(float(a) * float(b)),
        Calc::Divide(a, b) => at_value(float(a) / float(b)),
        Calc::Count(n) => at_value(n as f32),
        Calc::Round(a) => Answer {
            count: float(a).round() as u32,
            ..Answer::blank()
        },
        Calc::Floor(a) => at_value(float(a).floor()),
        Calc::Root(a) => at_value(float(a).sqrt()),
        Calc::Sine(a) => at_value(float(a).sin()),
        Calc::Cosine(a) => at_value(float(a).cos()),
        Calc::Tangent(a) => at_value(float(a).tan()),
        Calc::ArcSine(a) => at_value(float(a).asin()),
        Calc::ArcTangent(y, x) => at_value(float(y).atan2(float(x))),
        Calc::Degrees(a) => at_value(float(a).to_degrees()),
        Calc::Radians(a) => at_value(float(a).to_radians()),
        Calc::Gap(a, b) => at_point(vec3(a) - vec3(b)),
        Calc::Scale(a, k) => at_point(vec3(a) * float(k)),
        Calc::Cross(a, b) => at_point(vec3(a).cross(vec3(b))),
        Calc::Unit(a) => {
            let way = vec3(a).try_normalize();
            let mut r = at_point(way.unwrap_or(Vec3::NAN));
            r.holds = way.is_some();
            r
        }
        Calc::View(eye, target, up) => at_matrix(Mat4::look_at_rh(vec3(eye), vec3(target), vec3(up))),
        Calc::Perspective(fov, aspect, near, far) => at_matrix(Mat4::perspective_rh(
            float(fov),
            float(aspect),
            float(near),
            float(far),
        )),
        Calc::Parallel(half, near, far) => {
            let h = float(half);
            at_matrix(Mat4::orthographic_rh(-h, h, -h, h, float(near), float(far)))
        }
        Calc::Move(m, p) => at_point(mat4(m).transform_point3(vec3(p))),
        Calc::Clip(m, p) => {
            let c = mat4(m) * vec3(p).extend(1.0);
            let mut a = Answer::blank();
            a.pose.rotation = four(c.x, c.y, c.z, c.w);
            a
        }
    }
}

/// A number with so many decimals, or in its shortest form.
fn show(x: Real, decimals: u8) -> String {
    if decimals == numeric::SHORTEST {
        format!("{}", float(x))
    } else {
        format!("{:.*}", decimals as usize, float(x))
    }
}

/// The number that a JSON notation stands for.
fn read_number(notation: &str) -> Real {
    single(notation.parse::<f64>().unwrap_or(0.0) as f32)
}

/// The number that a socket's notation stands for. Whole numbers are rounded once.
fn read_socket(notation: &str) -> Real {
    if let Ok(n) = notation.parse::<u64>() {
        return single(n as f32);
    }
    match notation.parse::<i64>() {
        Ok(n) => single(n as f32),
        Err(_) => read_number(notation),
    }
}

/// The number that an argument stands for, if it is one.
fn parse_number(text: &str) -> Option<Real> {
    text.parse::<f32>().ok().map(single)
}
