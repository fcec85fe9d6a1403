//! The activity feed.

#![allow(dead_code, unused_imports)]

use glam::{Mat4, Quat, Vec3};
use thinner_floor::numeric::{self, Answer, Calc, Real, Transform};
use thinner_floor::apply::{ApplyRequest, ApplyResult};
use thinner_floor::beauty::{forecast_from_frames, BeautyFrame, PixelForecast};
use thinner_floor::change::ApplyChange;
use thinner_floor::document::{Document, Entity, Material, MeshRecipe, Scene};
use thinner_floor::light::SceneLight;
use thinner_floor::numeric::Rgba;
use thinner_floor::feed::{summarize, FeedEvent, MailboxFeed, FEED_CAPACITY};
use thinner_floor::mailbox::{
    empty_ok, HistoryAction, MailboxRequest, MailboxResponse, ProjectAction,
};
use thinner_floor::query::{default_min_extent, ColorQuery, QueryResult, QuerySpec};
use thinner_floor::ranking::QueryHit;
use thinner_floor::store::{HistoryResult, ProjectResult};

fn event(op: &str, rev: Option<u64>) -> FeedEvent {
    FeedEvent {
        op: op.to_string(),
        ok: true,
        elapsed_ms: single(1.0),
        revision: rev,
        summary: "n".to_string(),
        hits: Vec::new(),
        at: 1_000,
    }
}

fn hit(id: &str, reason: &str) -> QueryHit {
    QueryHit::new(id, reason)
}

fn found(query: &str, hits: Vec<QueryHit>) -> MailboxResponse {
    let mut r = empty_ok();
    r.query = Some(QueryResult {
        ok: true,
        query: query.to_string(),
        hits,
        error: None,
    });
    r
}

#[test]
fn ping_is_excluded_from_feed() {
    let mut feed = MailboxFeed::new();
    feed.push(event("ping", None));
    assert!(feed.is_empty());
    assert_eq!(feed.seq, 0);
}

#[test]
fn ring_keeps_last_capacity() {
    let mut feed = MailboxFeed::new();
    for i in 0..(FEED_CAPACITY + 10) {
        feed.push(event("status", Some(i as u64)));
    }
    assert_eq!(feed.len(), FEED_CAPACITY);
    let all = feed.newest_first();
    assert_eq!(all[FEED_CAPACITY - 1].revision, Some(10));
    assert_eq!(all.len(), FEED_CAPACITY);
    assert_eq!(all[0].revision, Some((FEED_CAPACITY + 9) as u64));
    assert_eq!(feed.seq, (FEED_CAPACITY + 10) as u64);
}

#[test]
fn activity_lasts_two_seconds() {
    let mut feed = MailboxFeed::new();
    assert!(!feed.is_active(0));
    feed.push(event("status", None));
    assert!(feed.is_active(500));
    assert!(feed.is_active(2_000_001_000));
    assert!(!feed.is_active(2_000_001_001));
}

#[test]
fn summarize_query_left_of_is_compact() {
    let req = MailboxRequest::Query {
        query: QuerySpec::LeftOf {
            entity_id: "box-1".to_string(),
            min_extent: default_min_extent(),
        },
    };
    let s = summarize(&req, &found("left_of", vec![hit("box-2", "camera_left")]), &show);
    assert_eq!(s.op, "query");
    assert_eq!(s.summary, "left_of box-1");
    assert_eq!(s.hits, vec!["box-2".to_string()]);
    assert!(!s.summary.contains('{'));
    assert!(!s.summary.contains(','));
}

#[test]
fn summarize_apply_mentions_label_not_json() {
    let req = MailboxRequest::Apply {
        request: request(
            6,
            "k",
            "nudge left",
            vec![ApplyChange::PatchTranslation {
                entity_id: "box-2".to_string(),
                translation: v3([-2.0, 0.5, 1.0]),
            }],
        ),
    };
    let mut resp = empty_ok();
    resp.apply = Some(ApplyResult {
        ok: true,
        revision: 7,
        label: "nudge left".to_string(),
        idempotent: false,
        error: None,
        code: None,
        current_revision: None,
        dry_run: false,
        pixel_forecast: None,
    });
    let s = summarize(&req, &resp, &show);
    assert_eq!(s.op, "apply");
    assert_eq!(s.revision, Some(7));
    assert!(s.hits.is_empty());
    assert!(s.summary.contains("nudge left"));
    assert!(s.summary.contains("box-2"));
    assert!(!s.summary.contains("idempotency"));
    assert!(!s.summary.contains('{'));
    assert_eq!(s.summary, "nudge left; move box-2 [-2.0,0.5,1.0]");
}

#[test]
fn summarize_inspect_does_not_dump_document() {
    let doc = document(
        6,
        vec![boxed("box-1", [0.0, 0.0, 0.0], [1.0, 1.0, 1.0], [1.0, 0.0, 0.0, 1.0])],
    );
    let mut resp = empty_ok();
    resp.document = Some(doc);
    let s = summarize(&MailboxRequest::Inspect { slice: None }, &resp, &show);
    assert_eq!(s.summary, "rev=6 entities=1");
    assert!(s.hits.is_empty());
    assert!(!s.summary.contains("box-1"));
}

#[test]
fn summarize_query_assembly_of_lists_ids_not_comma_jam() {
    let req = MailboxRequest::Query {
        query: QuerySpec::AssemblyOf {
            entity_id: "box-1".to_string(),
        },
    };
    let resp = found(
        "assembly_of",
        vec![
            hit("box-1", "name_prefix:box-1"),
            hit("box-1-hat-brim", "name_prefix:box-1"),
            hit("box-1-eye-l", "name_prefix:box-1"),
            hit("box-1-eye-r", "name_prefix:box-1"),
        ],
    );
    let s = summarize(&req, &resp, &show);
    assert_eq!(s.op, "query");
    assert_eq!(s.summary, "assembly_of box-1");
    assert!(!s.summary.contains(','));
    assert!(!s.summary.contains("box-1-hat-brim"));
    assert_eq!(
        s.hits,
        vec![
            "box-1".to_string(),
            "box-1-hat-brim".to_string(),
            "box-1-eye-l".to_string(),
            "box-1-eye-r".to_string(),
        ]
    );
    let jammed = format!("assembly_of box-1 -> {}", s.hits.join(","));
    assert_ne!(s.summary, jammed);
}

#[test]
fn long_changesets_are_cut_short() {
    let changes = vec![
        paint("a", [0.1, 0.25, 0.5, 1.0]),
        ApplyChange::GraphPatch {
            graph_id: "g".to_string(),
            node_id: "principled".to_string(),
            socket: "roughness".to_string(),
            value: single(0.2),
        },
        ApplyChange::PatchLight {
            direction: Some(v3([0.0, -1.0, 0.0])),
            shadows: Some(true),
        },
        ApplyChange::GraphCreate {
            graph_id: "h".to_string(),
        },
        ApplyChange::Ungroup {
            group_id: "u".to_string(),
        },
    ];
    let req = MailboxRequest::Apply {
        request: request(1, "k", "", changes),
    };
    let s = summarize(&req, &empty_ok(), &show);
    assert_eq!(
        s.summary,
        "color a [0.10,0.25,0.50]; socket g.roughness=0.2; light dir[0.00,-1.00,0.00] shadows on; +2 more"
    );
}

#[test]
fn failures_are_summarized_by_their_message() {
    let bad = MailboxResponse::bad("revision_conflict".to_string());
    let req = MailboxRequest::Apply {
        request: request(1, "k", "l", vec![]),
    };
    assert_eq!(summarize(&req, &bad, &show).summary, "revision_conflict");
    let plain = MailboxRequest::Render {
        width: None,
        height: None,
    };
    assert_eq!(summarize(&plain, &empty_ok(), &show).summary, "render");
    let color = MailboxRequest::Query {
        query: QuerySpec::ColorOf {
            color: ColorQuery::Rgba(rgba([0.5, 0.25, 1.0, 1.0])),
            min_extent: default_min_extent(),
            tolerance: single(0.1),
        },
    };
    assert_eq!(summarize(&color, &empty_ok(), &show).summary, "color_of rgba(0.50,0.25,1.00)");
}

#[test]
fn history_and_project_cards_name_the_action() {
    let mut h = empty_ok();
    h.history = Some(HistoryResult {
        ok: true,
        revision: 4,
        label: "undo".to_string(),
        kind: "undo".to_string(),
        undo_depth: 2,
        redo_depth: 1,
        entries: vec![],
        error: None,
    });
    let req = MailboxRequest::History {
        action: HistoryAction::Undo,
    };
    assert_eq!(summarize(&req, &h, &show).summary, "Undo rev=4 undo=2 redo=1");
    let mut p = empty_ok();
    p.project = Some(ProjectResult {
        ok: true,
        action: "save".to_string(),
        path: "a.json".to_string(),
        revision: 4,
        entity_count: 2,
        error: None,
    });
    let req = MailboxRequest::Project {
        action: ProjectAction::Save,
        path: None,
    };
    assert_eq!(summarize(&req, &p, &show).summary, "Save a.json");
    assert_eq!(
        summarize(&MailboxRequest::Validate, &empty_ok(), &show).summary,
        "ok=true diags=0"
    );
    assert_eq!(
        summarize(&MailboxRequest::Export { path: None }, &empty_ok(), &show).summary,
        "sits/export.gltf"
    );
}

#[test]
fn exchanges_are_recorded() {
    let mut feed = MailboxFeed::new();
    feed.record_exchange(&MailboxRequest::Catalog, &empty_ok(), single(2.5), 77, &show);
    let e = &feed.newest_first()[0];
    assert_eq!(e.op, "catalog");
    assert_eq!(e.summary, "live_ops");
    assert_eq!(e.at, 77);
    assert_eq!(float(e.elapsed_ms), 2.5);
}

fn v3(a: [f32; 3]) -> numeric::Vec3 {
    numeric::Vec3 {
        x: single(a[0]),
        y: single(a[1]),
        z: single(a[2]),
    }
}

fn rgba(a: [f32; 4]) -> Rgba {
    Rgba {
        r: single(a[0]),
        g: single(a[1]),
        b: single(a[2]),
        a: single(a[3]),
    }
}

fn floats(v: numeric::Vec3) -> [f32; 3] {
    [float(v.x), float(v.y), float(v.z)]
}

fn color_of(doc: &Document, id: &str) -> [f32; 4] {
    let c = doc.find_entity(id).unwrap().material.color;
    [float(c.r), float(c.g), float(c.b), float(c.a)]
}

fn boxed(id: &str, t: [f32; 3], size: [f32; 3], color: [f32; 4]) -> Entity {
    Entity {
        id: id.to_string(),
        kind: "mesh".to_string(),
        transform: numeric::at(v3(t)),
        mesh: MeshRecipe {
            recipe: "box".to_string(),
            size: v3(size),
        },
        material: Material { color: rgba(color) },
        parent: None,
        graph_id: None,
    }
}

fn document(revision: u64, entities: Vec<Entity>) -> Document {
    Document {
        revision,
        scenes: vec![Scene {
            id: "main".to_string(),
            entities,
        }],
        idempotency_log: vec![],
        graphs: vec![],
        light: SceneLight::default(),
    }
}

fn request(base_revision: u64, key: &str, label: &str, changes: Vec<ApplyChange>) -> ApplyRequest {
    ApplyRequest {
        base_revision,
        idempotency_key: key.to_string(),
        label: label.to_string(),
        changes,
        dry_run: false,
    }
}

fn paint(id: &str, color: [f32; 4]) -> ApplyChange {
    ApplyChange::PatchColor {
        entity_id: id.to_string(),
        color: rgba(color),
    }
}

/// A picture of one row: the colours of the entities in order.
fn swatches(doc: &Document) -> BeautyFrame {
    let mut bytes = Vec::new();
    for e in doc.entities() {
        let c = e.material.color;
        for x in [c.r, c.g, c.b, c.a] {
            bytes.push((float(x) * 255.0) as u8);
        }
    }
    BeautyFrame {
        width: (bytes.len() / 4) as u32,
        height: 1,
        rgba: bytes,
        revision: doc.revision,
        camera: "authored".to_string(),
    }
}

fn forecast(before: &Document, after: &Document) -> Option<PixelForecast> {
    Some(forecast_from_frames(&swatches(before), &swatches(after)))
}

fn apply(doc: &mut Document, req: &ApplyRequest) -> ApplyResult {
    doc.apply(req, &calc, &forecast)
}

fn single(x: f32) -> Real {
    Real { bits: x.to_bits() }
}

fn float(r: Real) -> f32 {
    f32::from_bits(r.bits)
}

fn vec3(v: numeric::Vec3) -> Vec3 {
    Vec3::new(float(v.x), float(v.y), float(v.z))
}

fn point(v: Vec3) -> numeric::Vec3 {
    numeric::Vec3 {
        x: single(v.x),
        y: single(v.y),
        z: single(v.z),
    }
}

fn quat(q: numeric::Quat) -> Quat {
    Quat::from_xyzw(float(q.x), float(q.y), float(q.z), float(q.w))
}

fn four(x: f32, y: f32, z: f32, w: f32) -> numeric::Quat {
    numeric::Quat {
        x: single(x),
        y: single(y),
        z: single(z),
        w: single(w),
    }
}

fn mat4(m: numeric::Mat4) -> Mat4 {
    let col = |c: numeric::Quat| [float(c.x), float(c.y), float(c.z), float(c.w)];
    Mat4::from_cols_array_2d(&[col(m.c0), col(m.c1), col(m.c2), col(m.c3)])
}

fn matrix(m: Mat4) -> numeric::Mat4 {
    let c = m.to_cols_array_2d();
    let col = |a: [f32; 4]| four(a[0], a[1], a[2], a[3]);
    numeric::Mat4 {
        c0: col(c[0]),
        c1: col(c[1]),
        c2: col(c[2]),
        c3: col(c[3]),
    }
}

fn compose(t: Transform) -> Mat4 {
    Mat4::from_scale_rotation_translation(vec3(t.scale), quat(t.rotation), vec3(t.translation))
}

fn decompose(m: Mat4) -> Transform {
    let (scale, rot, trans) = m.to_scale_rotation_translation();
    Transform {
        translation: point(trans),
        rotation: four(rot.x, rot.y, rot.z, rot.w),
        scale: point(scale),
    }
}

fn at_value(x: f32) -> Answer {
    Answer {
        value: single(x),
        ..Answer::blank()
    }
}

fn at_point(v: Vec3) -> Answer {
    Answer {
        point: point(v),
        ..Answer::blank()
    }
}

fn at_matrix(m: Mat4) -> Answer {
    Answer {
        matrix: matrix(m),
        ..Answer::blank()
    }
}

fn at_pose(pose: Transform) -> Answer {
    Answer {
        pose,
        ..Answer::blank()
    }
}

/// Floating point: every computation that the library asks for.
fn calc(op: Calc) -> Answer {
    match op {
        Calc::Compose(t) => at_matrix(compose(t)),
        Calc::Product(a, b) => at_matrix(mat4(a) * mat4(b)),
        Calc::Invert(m) => at_matrix(mat4(m).inverse()),
        Calc::Decompose(m) => at_pose(decompose(mat4(m))),
        Calc::Shift(t) => at_matrix(Mat4::from_translation(vec3(t))),
        Calc::Sum(a, b) => at_point(vec3(a) + vec3(b)),
        Calc::Shrink(a, n) => at_point(vec3(a) / n as f32),
        Calc::Stretch(a, b) => at_point(vec3(a) * vec3(b)),
        Calc::LengthSquared(a) => at_value(vec3(a).length_squared()),
        Calc::Distance(a, b) => at_value((vec3(a) - vec3(b)).length()),
        Calc::Add(a, b) => at_value(float(a) + float(b)),
        Calc::Subtract(a, b) => at_value(float(a) - float(b)),
        Calc::Multiply(a, b) => at_value(float(a) * float(b)),
        Calc::Divide(a, b) => at_value(float(a) / float(b)),
        Calc::Count(n) => at_value(n as f32),
        Calc::Round(a) => Answer {
            count: float(a).round() as u32,
            ..Answer::blank()
        },
        Calc::Floor(a) => at_value(float(a).floor()),
        Calc::Root(a) => at_value(float(a).sqrt()),
        Calc::Sine(a) => at_value(float(a).sin()),
        Calc::Cosine(a) => at_value(float(a).cos()),
        Calc::Tangent(a) => at_value(float(a).tan()),
        Calc::ArcSine(a) => at_value(float(a).asin()),
        Calc::ArcTangent(y, x) => at_value(float(y).atan2(float(x))),
        Calc::Degrees(a) => at_value(float(a).to_degrees()),
        Calc::Radians(a) => at_value(float(a).to_radians()),
        Calc::Gap(a, b) => at_point(vec3(a) - vec3(b)),
        Calc::Scale(a, k) => at_point(vec3(a) * float(k)),
        Calc::Cross(a, b) => at_point(vec3(a).cross(vec3(b))),
        Calc::Unit(a) => {
            let way = vec3(a).try_normalize();
            let mut r = at_point(way.unwrap_or(Vec3::NAN));
            r.holds = way.is_some();
            r
        }
        Calc::View(eye, target, up) => at_matrix(Mat4::look_at_rh(vec3(eye), vec3(target), vec3(up))),
        Calc::Perspective(fov, aspect, near, far) => at_matrix(Mat4::perspective_rh(
            float(fov),
            float(aspect),
            float(near),
            float(far),
        )),
        Calc::Parallel(half, near, far) => {
            let h = float(half);
            at_matrix(Mat4::orthographic_rh(-h, h, -h, h, float(near), float(far)))
        }
        Calc::Move(m, p) => at_point(mat4(m).transform_point3(vec3(p))),
        Calc::Clip(m, p) => {
            let c = mat4(m) * vec3(p).extend(1.0);
            let mut a = Answer::blank();
            a.pose.rotation = four(c.x, c.y, c.z, c.w);
            a
        }
    }
}

/// A number with so many decimals, or in its shortest form.
fn show(x: Real, decimals: u8) -> String {
    if decimals == numeric::SHORTEST {
        format!("{}", float(x))
    } else {
        format!("{:.*}", decimals as usize, float(x))
    }
}

/// The number that a JSON notation stands for.
fn read_number(notation: &str) -> Real {
    single(notation.parse::<f64>().unwrap_or(0.0) as f32)
}

/// The number that a socket's notation stands for. Whole numbers are rounded once.
fn read_socket(notation: &str) -> Real {
    if let Ok(n) = notation.parse::<u64>() {
        return single(n as f32);
    }
    match notation.parse::<i64>() {
        Ok(n) => single(n as f32),
        Err(_) => read_number(notation),
    }
}

/// The number that an argument stands for, if it is one.
fn parse_number(text: &str) -> Option<Real> {
    text.parse::<f32>().ok().map(single)
}
