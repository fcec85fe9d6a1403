//! The command line and the stdio adapter.

#![allow(dead_code, unused_imports)]

use glam::{Mat4, Quat, Vec3};
use thinner_floor::numeric::{self, Answer, Calc, Real, Transform};
use thinner_floor::apply::{ApplyRequest, ApplyResult};
use thinner_floor::beauty::{forecast_from_frames, BeautyFrame, PixelForecast};
use thinner_floor::change::ApplyChange;
use thinner_floor::document::{Document, Entity, Material, MeshRecipe, Scene};
use thinner_floor::light::SceneLight;
use thinner_floor::numeric::Rgba;
use thinner_floor::args::{flag_or_nth, flag_value, parse_triple, parse_vec3, parse_whole, split_names};
use thinner_floor::cli::{
    apply_outcome, light_request, outcome, parse_apply_args, parse_command, parse_launch,
    parse_query_args, query_outcome, Command, Launch,
};
use thinner_floor::json::Json;
use thinner_floor::mailbox::{empty_ok, HistoryAction, MailboxRequest, MailboxResponse, ProjectAction};
use thinner_floor::mcp::{
    call_tool, initialize_result, message_head, parse_failure, route, tool_answer, tool_defs, tool_result,
    tools_result, unknown_method, Framed, Framing, MAX_REQUEST_BYTES, PROTOCOL, Route, ToolStep,
};
use thinner_floor::query::{default_min_extent, default_tolerance, ColorQuery, QuerySpec};
use serde_json::Value;

#[test]
fn initialize_lists_protocol() {
    let v = initialize_result();
    assert_eq!(v.get("protocolVersion").unwrap().as_str(), Some(PROTOCOL));
    let server = v.get("serverInfo").unwrap();
    assert_eq!(server.get("name").unwrap().as_str(), Some("thinner-floor"));
    assert_eq!(server.get("version").unwrap().as_str(), Some("0.1.0"));
    let tools = v.get("capabilities").unwrap().get("tools").unwrap();
    assert_eq!(tools.get("listChanged").unwrap().as_bool(), Some(false));
}

#[test]
fn tools_list_has_nine() {
    let defs = tool_defs();
    assert_eq!(defs.len(), 9);
    let names: Vec<_> = defs.iter().filter_map(|t| t.get("name").and_then(|n| n.as_str())).collect();
    assert!(names.contains(&"three_studio_status"));
    assert!(names.contains(&"three_studio_job"));
    assert_eq!(tools_result().get("tools").unwrap().as_array().unwrap().len(), 9);
}

#[test]
fn reads_json_line_and_content_length() {
    let mut f = Framing::new();
    let line = "{\"jsonrpc\":\"2.0\",\"id\":1,\"method\":\"initialize\"}\n";
    match f.read_line(line) {
        Framed::Message { text } => assert!(text.contains("initialize")),
        other => panic!("{other:?}"),
    }

    let payload = "{\"jsonrpc\":\"2.0\",\"id\":2,\"method\":\"ping\"}";
    let mut f = Framing::new();
    assert_eq!(f.read_line(&format!("Content-Length: {}\r\n", payload.len())), Framed::More);
    assert_eq!(
        f.read_line("\r\n"),
        Framed::Body {
            length: payload.len()
        }
    );
}

#[test]
fn frames_are_checked() {
    let mut f = Framing::new();
    assert_eq!(f.read_line("X-Other: 1\r\n"), Framed::More);
    assert_eq!(
        f.read_line("\r\n"),
        Framed::Failed {
            message: "mcp: missing Content-Length".to_string()
        }
    );
    let mut f = Framing::new();
    assert_eq!(f.read_line(&format!("\u{feff}Content-Length: {}\n", MAX_REQUEST_BYTES + 1)), Framed::More);
    assert_eq!(
        f.read_line("\n"),
        Framed::Failed {
            message: "mcp: request over 1 MiB".to_string()
        }
    );
    let mut f = Framing::new();
    assert!(matches!(f.read_line("Content-Length: many\n"), Framed::Failed { .. }));
}

#[test]
fn methods_are_routed() {
    assert_eq!(route("initialize", true), Route::Initialize);
    assert_eq!(route("tools/list", true), Route::ListTools);
    assert_eq!(route("tools/call", true), Route::CallTool);
    assert_eq!(route("ping", true), Route::Ping);
    assert_eq!(route("notifications/initialized", false), Route::Ignore);
    let failed = tool_result("no", true);
    assert_eq!(failed.get("isError").unwrap().as_bool(), Some(true));
    let said = &failed.get("content").unwrap().as_array().unwrap()[0];
    assert_eq!(said.get("text").unwrap().as_str(), Some("no"));
}

fn query_of(v: Option<&Value>) -> Result<QuerySpec, String> {
    match v {
        Some(_) => Ok(QuerySpec::AssemblyOf {
            entity_id: "box-1".to_string(),
        }),
        None => Err("no query".to_string()),
    }
}

fn apply_of(v: Option<&Value>) -> Result<ApplyRequest, String> {
    match v {
        Some(_) => Ok(request(1, "k", "l", vec![])),
        None => Err("no apply".to_string()),
    }
}

fn call(text: &str) -> Result<ToolStep, String> {
    let params: Value = serde_json::from_str(text).unwrap();
    call_tool(&params, &query_of, &apply_of, &read_number)
}

fn asked(text: &str) -> MailboxRequest {
    match call(text) {
        Ok(ToolStep::Ask { request }) => request,
        other => panic!("{other:?}"),
    }
}

#[test]
fn tools_ask_the_mailbox() {
    assert_eq!(asked("{\"name\":\"three_studio_status\"}"), MailboxRequest::Status);
    assert_eq!(asked("{\"name\":\"three_studio_validate\"}"), MailboxRequest::Validate);
    assert_eq!(
        asked("{\"name\":\"three_studio_render\",\"arguments\":{\"width\":320}}"),
        MailboxRequest::Render {
            width: Some(320),
            height: None
        }
    );
    assert_eq!(
        asked("{\"name\":\"three_studio_history\",\"arguments\":{\"action\":\"undo\"}}"),
        MailboxRequest::History {
            action: HistoryAction::Undo
        }
    );
    assert_eq!(
        asked("{\"name\":\"three_studio_project\",\"arguments\":{\"action\":\"open\",\"path\":\"p\"}}"),
        MailboxRequest::Project {
            action: ProjectAction::Open,
            path: Some("p".to_string())
        }
    );
    assert_eq!(
        asked("{\"name\":\"three_studio_play\",\"arguments\":{\"action\":\"seek\",\"time\":1.5}}"),
        MailboxRequest::Play {
            action: "seek".to_string(),
            time: Some(single(1.5))
        }
    );
    assert_eq!(call("{\"name\":\"three_studio_apply\"}"), Err("bad apply: no apply".to_string()));
    assert_eq!(call("{}"), Err("tools/call needs name".to_string()));
    let unknown = call("{\"name\":\"x\"}").unwrap_err();
    assert!(unknown.starts_with("tool_contract_mismatch: unknown tool x; live tools are [\"three_studio_status\""));
    assert!(matches!(call("{\"name\":\"three_studio_job\"}"), Ok(ToolStep::Reply { .. })));
    assert_eq!(
        call("{\"name\":\"three_studio_project\",\"arguments\":{\"action\":\"burn\"}}"),
        Err("unknown project action: burn".to_string())
    );
}

fn words(list: &[&str]) -> Vec<String> {
    list.iter().map(|s| s.to_string()).collect()
}

#[test]
fn launch_flags_may_stand_anywhere() {
    let l = parse_launch(&words(&["render", "--document", "d.json", "--width", "4", "--mailbox", "pipe:x"])).unwrap();
    assert_eq!((l.document.as_str(), l.mailbox.as_str(), l.mcp), ("d.json", "pipe:x", false));
    assert_eq!(l.rest, ["render", "--width", "4"]);
    let plain = parse_launch(&vec![]).unwrap();
    assert_eq!(plain.document, "thinner-floor.json");
    assert_eq!(plain.mailbox, "127.0.0.1:17421");
    assert_eq!(parse_launch(&words(&["--document"])).unwrap_err(), "--document needs a path");
    assert_eq!(parse_launch(&words(&["--mailbox"])).unwrap_err(), "--mailbox needs host:port");
}

fn command(list: &[&str]) -> Result<Command, String> {
    parse_command(&parse_launch(&words(list)).unwrap(), &parse_number)
}

fn sent(list: &[&str]) -> MailboxRequest {
    match command(list) {
        Ok(Command::Send { request, .. }) => request,
        other => panic!("{other:?}"),
    }
}

#[test]
fn commands_become_requests() {
    assert!(matches!(command(&[]), Ok(Command::Viewport)));
    assert!(matches!(command(&["--mcp"]), Ok(Command::Mcp)));
    assert!(matches!(command(&["mcp"]), Ok(Command::Mcp)));
    assert!(matches!(command(&["help"]), Ok(Command::Help)));
    assert_eq!(sent(&["status"]), MailboxRequest::Status);
    assert_eq!(
        sent(&["render", "--width", "320", "--height", "x"]),
        MailboxRequest::Render {
            width: Some(320),
            height: None
        }
    );
    assert_eq!(
        sent(&["camera", "--mode", "review", "--review-eye", "1,2,3", "--frame", "a, b"]),
        MailboxRequest::Camera {
            mode: Some("review".to_string()),
            review_eye: Some(v3([1.0, 2.0, 3.0])),
            review_target: None,
            frame: Some(words(&["a", "b"]))
        }
    );
    assert_eq!(
        sent(&["project", "open", "p.json"]),
        MailboxRequest::Project {
            action: ProjectAction::Open,
            path: Some("p.json".to_string())
        }
    );
    assert_eq!(sent(&["rtx", "--requested", "true"]), MailboxRequest::Rtx { requested: Some(true) });
    assert_eq!(command(&["fly"]).unwrap_err(), "unknown command: fly");
    assert_eq!(command(&["history", "jump"]).unwrap_err(), "history needs list|undo|redo, got jump");
    assert_eq!(
        command(&["light", "--dir", "0,-1,0", "--shadows", "off"]),
        Ok(Command::Light {
            direction: Some(v3([0.0, -1.0, 0.0])),
            shadows: Some(false)
        })
    );
}

fn no_query(_: &str) -> Result<QuerySpec, String> {
    Err("bad query".to_string())
}

fn no_color(_: &str) -> Result<Rgba, String> {
    Err("bad color".to_string())
}

fn query(list: &[&str]) -> Result<QuerySpec, String> {
    parse_query_args(&words(list), &parse_number, &no_query, &no_color)
}

#[test]
fn query_arguments_are_read() {
    assert_eq!(
        query(&["left-of", "box-2"]).unwrap(),
        QuerySpec::LeftOf {
            entity_id: "box-2".to_string(),
            min_extent: default_min_extent()
        }
    );
    assert_eq!(
        query(&["color-of", "--color", "red", "--min-extent", "0.5"]).unwrap(),
        QuerySpec::ColorOf {
            color: ColorQuery::Name("red".to_string()),
            min_extent: single(0.5),
            tolerance: default_tolerance()
        }
    );
    assert_eq!(query(&["pixel", "--x", "3"]).unwrap_err(), "pixel needs --y");
    assert_eq!(query(&["{}"]).unwrap_err(), "bad query");
    assert_eq!(query(&["color-of", "[1"]).unwrap_err(), "bad color");
    assert_eq!(query(&["above"]).unwrap_err(), "unknown query kind: above");
    assert_eq!(
        query(&[]).unwrap_err(),
        "query needs a kind: left-of | on-screen | color-of | assembly-of | pixel"
    );
}

fn change_of(text: &str) -> Result<ApplyChange, String> {
    if text == "red" {
        Ok(paint("box-1", [1.0, 0.0, 0.0, 1.0]))
    } else {
        Err(format!("bad change {text}"))
    }
}

#[test]
fn apply_arguments_are_read() {
    let ok = parse_apply_args(
        &words(&["--base-revision", "4", "--idempotency-key", "k", "--label", "l", "--change", "red"]),
        &change_of,
    )
    .unwrap();
    assert_eq!(ok, request(4, "k", "l", vec![paint("box-1", [1.0, 0.0, 0.0, 1.0])]));
    let bad = parse_apply_args(
        &words(&["--base-revision", "4", "--idempotency-key", "k", "--label", "l", "--change", "blue"]),
        &change_of,
    );
    assert_eq!(bad.unwrap_err(), "bad change blue");
    assert!(parse_apply_args(&words(&["--label", "l"]), &change_of).is_err());
    assert!(parse_apply_args(&words(&["--base-revision", "-1"]), &change_of).is_err());
    let told = |args: &[&str]| parse_apply_args(&words(args), &change_of).unwrap_err();
    assert_eq!(
        told(&["--change", "red", "--change", "blue", "--change", "green", "--base-revision", "-1"]),
        "bad change blue"
    );
    assert_eq!(told(&["--change", "blue", "--label", "l"]), "bad change blue");
    assert_eq!(
        told(&["--change", "red", "--base-revision", "-1", "--change", "blue"]),
        told(&["--base-revision", "-1"])
    );
}

#[test]
fn outcomes_carry_the_message() {
    let good = empty_ok();
    assert_eq!(outcome(&good, &Some("status failed".to_string())), Ok(()));
    let bad = MailboxResponse::bad("no".to_string());
    assert_eq!(outcome(&bad, &Some("status failed".to_string())), Err("no".to_string()));
    assert_eq!(outcome(&bad, &None), Ok(()));
    let silent = MailboxResponse {
        ok: false,
        ..empty_ok()
    };
    assert_eq!(outcome(&silent, &Some("status failed".to_string())), Err("status failed".to_string()));
    assert_eq!(query_outcome(&bad), Err("no".to_string()));
    assert_eq!(apply_outcome(&bad), Err("no".to_string()));
    let light = light_request(&good, 17, None, Some(true));
    assert_eq!((light.base_revision, light.idempotency_key.as_str()), (0, "light-17"));
    assert_eq!(
        light.changes,
        [ApplyChange::PatchLight {
            direction: None,
            shadows: Some(true)
        }]
    );
}

#[test]
fn arguments_are_read_one_by_one() {
    let args = words(&["a", "--path", "p", "--path"]);
    assert_eq!(flag_value(&args, "--path"), Some("p".to_string()));
    assert_eq!(flag_or_nth(&args, "--x", 0), Some("a".to_string()));
    assert_eq!(parse_whole("12", 20), Ok(12));
    assert!(parse_whole("21", 20).is_err());
    assert!(parse_whole("", 20).is_err());
    assert!(parse_whole("1x", 20).is_err());
    assert_eq!(parse_triple("1,2,3", &parse_number), Some(v3([1.0, 2.0, 3.0])));
    assert_eq!(parse_triple("1,2", &parse_number), None);
    assert_eq!(parse_vec3("[1, 2, 3]", &parse_number), Some(v3([1.0, 2.0, 3.0])));
    assert_eq!(split_names("a, b,,"), words(&["a", "b"]));
}

#[test]
fn written_headers_are_read_back() {
    assert_eq!(message_head(0), "Content-Length: 0\r\n\r\n");
    assert_eq!(message_head(1234), "Content-Length: 1234\r\n\r\n");
    let mut f = Framing::new();
    assert_eq!(f.read_line("Content-Length: 1234\r\n"), Framed::More);
    assert_eq!(f.read_line("\r\n"), Framed::Body { length: 1234 });
}

#[test]
fn errors_carry_their_code() {
    let said = |j: Json| match j {
        Json::Object(members) => members,
        _ => panic!("an object"),
    };
    assert_eq!(
        said(parse_failure("EOF")),
        vec![
            ("code".to_string(), Json::Number("-32700".to_string())),
            ("message".to_string(), Json::Text("parse error: EOF".to_string())),
        ]
    );
    assert_eq!(said(unknown_method("no"))[0].1, Json::Number("-32601".to_string()));
}

#[test]
fn a_payload_that_is_not_well_is_an_error() {
    let failed = |text: &str| {
        let payload: Value = serde_json::from_str(text).unwrap();
        tool_answer(&payload, text) == tool_result(text, true)
    };
    assert!(failed("{\"ok\":false}"));
    assert!(!failed("{\"ok\":true}"));
    assert!(!failed("{\"ok\":0}"));
    assert!(!failed("[false]"));
}

fn v3(a: [f32; 3]) -> numeric::Vec3 {
    numeric::Vec3 {
        x: single(a[0]),
        y: single(a[1]),
        z: single(a[2]),
    }
}

fn rgba(a: [f32; 4]) -> Rgba {
    Rgba {
        r: single(a[0]),
        g: single(a[1]),
        b: single(a[2]),
        a: single(a[3]),
    }
}

fn floats(v: numeric::Vec3) -> [f32; 3] {
    [float(v.x), float(v.y), float(v.z)]
}

fn color_of(doc: &Document, id: &str) -> [f32; 4] {
    let c = doc.find_entity(id).unwrap().material.color;
    [float(c.r), float(c.g), float(c.b), float(c.a)]
}

fn boxed(id: &str, t: [f32; 3], size: [f32; 3], color: [f32; 4]) -> Entity {
    Entity {
        id: id.to_string(),
        kind: "mesh".to_string(),
        transform: numeric::at(v3(t)),
        mesh: MeshRecipe {
            recipe: "box".to_string(),
            size: v3(size),
        },
        material: Material { color: rgba(color) },
        parent: None,
        graph_id: None,
    }
}

fn document(revision: u64, entities: Vec<Entity>) -> Document {
    Document {
        revision,
        scenes: vec![Scene {
            id: "main".to_string(),
            entities,
        }],
        idempotency_log: vec![],
        graphs: vec![],
        light: SceneLight::default(),
    }
}

fn request(base_revision: u64, key: &str, label: &str, changes: Vec<ApplyChange>) -> ApplyRequest {
    ApplyRequest {
        base_revision,
        idempotency_key: key.to_string(),
        label: label.to_string(),
        changes,
        dry_run: false,
    }
}

fn paint(id: &str, color: [f32; 4]) -> ApplyChange {
    ApplyChange::PatchColor {
        entity_id: id.to_string(),
        color: rgba(color),
    }
}

/// A picture of one row: the colours of the entities in order.
fn swatches(doc: &Document) -> BeautyFrame {
    let mut bytes = Vec::new();
    for e in doc.entities() {
        let c = e.material.color;
        for x in [c.r, c.g, c.b, c.a] {
            bytes.push((float(x) * 255.0) as u8);
        }
    }
    BeautyFrame {
        width: (bytes.len() / 4) as u32,
        height: 1,
        rgba: bytes,
        revision: doc.revision,
        camera: "authored".to_string(),
    }
}

fn forecast(before: &Document, after: &Document) -> Option<PixelForecast> {
    Some(forecast_from_frames(&swatches(before), &swatches(after)))
}

fn apply(doc: &mut Document, req: &ApplyRequest) -> ApplyResult {
    doc.apply(req, &calc, &forecast)
}

fn single(x: f32) -> Real {
    Real { bits: x.to_bits() }
}

fn float(r: Real) -> f32 {
    f32::from_bits(r.bits)
}

fn vec3(v: numeric::Vec3) -> Vec3 {
    Vec3::new(float(v.x), float(v.y), float(v.z))
}

fn point(v: Vec3) -> numeric::Vec3 {
    numeric::Vec3 {
        x: single(v.x),
        y: single(v.y),
        z: single(v.z),
    }
}

fn quat(q: numeric::Quat) -> Quat {
    Quat::from_xyzw(float(q.x), float(q.y), float(q.z), float(q.w))
}

fn four(x: f32, y: f32, z: f32, w: f32) -> numeric::Quat {
    numeric::Quat {
        x: single(x),
        y: single(y),
        z: single(z),
        w: single(w),
    }
}

fn mat4(m: numeric::Mat4) -> Mat4 {
    let col = |c: numeric::Quat| [float(c.x), float(c.y), float(c.z), float(c.w)];
    Mat4::from_cols_array_2d(&[col(m.c0), col(m.c1), col(m.c2), col(m.c3)])
}

fn matrix(m: Mat4) -> numeric::Mat4 {
    let c = m.to_cols_array_2d();
    let col = |a: [f32; 4]| four(a[0], a[1], a[2], a[3]);
    numeric::Mat4 {
        c0: col(c[0]),
        c1: col(c[1]),
        c2: col(c[2]),
        c3: col(c[3]),
    }
}

fn compose(t: Transform) -> Mat4 {
    Mat4::from_scale_rotation_translation(vec3(t.scale), quat(t.rotation), vec3(t.translation))
}

fn decompose(m: Mat4) -> Transform {
    let (scale, rot, trans) = m.to_scale_rotation_translation();
    Transform {
        translation: point(trans),
        rotation: four(rot.x, rot.y, rot.z, rot.w),
        scale: point(scale),
    }
}

fn at_value(x: f32) -> Answer {
    Answer {
        value: single(x),
        ..Answer::blank()
    }
}

fn at_point(v: Vec3) -> Answer {
    Answer {
        point: point(v),
        ..Answer::blank()
    }
}

fn at_matrix(m: Mat4) -> Answer {
    Answer {
        matrix: matrix(m),
        ..Answer::blank()
    }
}

fn at_pose(pose: Transform) -> Answer {
    Answer {
        pose,
        ..Answer::blank()
    }
}

/// Floating point: every computation that the library asks for.
fn calc(op: Calc) -> Answer {
    match op {
        Calc::Compose(t) => at_matrix(compose(t)),
        Calc::Product(a, b) => at_matrix(mat4(a) * mat4(b)),
        Calc::Invert(m) => at_matrix(mat4(m).inverse()),
        Calc::Decompose(m) => at_pose(decompose(mat4(m))),
        Calc::Shift(t) => at_matrix(Mat4::from_translation(vec3(t))),
        Calc::Sum(a, b) => at_point(vec3(a) + vec3(b)),
        Calc::Shrink(a, n) => at_point(vec3(a) / n as f32),
        Calc::Stretch(a, b) => at_point(vec3(a) * vec3(b)),
        Calc::LengthSquared(a) => at_value(vec3(a).length_squared()),
        Calc::Distance(a, b) => at_value((vec3(a) - vec3(b)).length()),
        Calc::Add(a, b) => at_value(float(a) + float(b)),
        Calc::Subtract(a, b) => at_value(float(a) - float(b)),
        Calc::Multiply(a, b) => at_value(float(a) * float(b)),
        Calc::Divide(a, b) => at_value(float(a) / float(b)),
        Calc::Count(n) => at_value(n as f32),
        Calc::Round(a) => Answer {
            count: float(a).round() as u32,
            ..Answer::blank()
        },
        Calc::Floor(a) => at_value(float(a).floor()),
        Calc::Root(a) => at_value(float(a).sqrt()),
        Calc::Sine(a) => at_value(float(a).sin()),
        Calc::Cosine(a) => at_value(float(a).cos()),
        Calc::Tangent(a) => at_value(float(a).tan()),
        Calc::ArcSine(a) => at_value(float(a).asin()),
        Calc::ArcTangent(y, x) => at_value(float(y).atan2(float(x))),
        Calc::Degrees(a) => at_value(float(a).to_degrees()),
        Calc::Radians(a) => at_value(float(a).to_radians()),
        Calc::Gap(a, b) => at_point(vec3(a) - vec3(b)),
        Calc::Scale(a, k) => at_point(vec3(a) * float(k)),
        Calc::Cross(a, b) => at_point(vec3(a).cross(vec3(b))),
        Calc::Unit(a) => {
            let way = vec3(a).try_normalize();
            let mut r = at_point(way.unwrap_or(Vec3::NAN));
            r.holds = way.is_some();
            r
        }
        Calc::View(eye, target, up) => at_matrix(Mat4::look_at_rh(vec3(eye), vec3(target), vec3(up))),
        Calc::Perspective(fov, aspect, near, far) => at_matrix(Mat4::perspective_rh(
            float(fov),
            float(aspect),
            float(near),
            float(far),
        )),
        Calc::Parallel(half, near, far) => {
            let h = float(half);
            at_matrix(Mat4::orthographic_rh(-h, h, -h, h, float(near), float(far)))
        }
        Calc::Move(m, p) => at_point(mat4(m).transform_point3(vec3(p))),
        Calc::Clip(m, p) => {
            let c = mat4(m) * vec3(p).extend(1.0);
            let mut a = Answer::blank();
            a.pose.rotation = four(c.x, c.y, c.z, c.w);
            a
        }
    }
}

/// A number with so many decimals, or in its shortest form.
fn show(x: Real, decimals: u8) -> String {
    if decimals == numeric::SHORTEST {
        format!("{}", float(x))
    } else {
        format!("{:.*}", decimals as usize, float(x))
    }
}

/// The number that a JSON notation stands for.
fn read_number(notation: &str) -> Real {
    single(notation.parse::<f64>().unwrap_or(0.0) as f32)
}

/// The number that a socket's notation stands for. Whole numbers are rounded once.
fn read_socket(notation: &str) -> Real {
    if let Ok(n) = notation.parse::<u64>() {
        return single(n as f32);
    }
    match notation.parse::<i64>() {
        Ok(n) => single(n as f32),
        Err(_) => read_number(notation),
    }
}

/// The number that an argument stands for, if it is one.
fn parse_number(text: &str) -> Option<Real> {
    text.parse::<f32>().ok().map(single)
}
