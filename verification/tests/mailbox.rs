//! The mailbox: requests, tasks, tokens and lines.

#![allow(dead_code, unused_imports)]

use glam::{Mat4, Quat, Vec3};
use thinner_floor::numeric::{self, Answer, Calc, Real, Transform};
use thinner_floor::apply::{ApplyRequest, ApplyResult};
use thinner_floor::beauty::{forecast_from_frames, BeautyFrame, PixelForecast};
use thinner_floor::change::ApplyChange;
use thinner_floor::document::{Document, Entity, Material, MeshRecipe, Scene};
use thinner_floor::light::SceneLight;
use thinner_floor::numeric::Rgba;
use thinner_floor::beauty::{last_digest, last_frame, IdBuffer};
use thinner_floor::camera::{default_aspect, ViewMode};
use thinner_floor::export::{export_result, to_gltf};
use thinner_floor::feed::MailboxFeed;
use thinner_floor::mailbox::{
    dispatch, finish_create, finish_cycles, finish_export, finish_import, finish_open, finish_render,
    finish_save, CyclesCommand, HistoryAction, MailboxRequest, MailboxResponse, ProjectAction, Step,
    Studio, Task, DEFAULT_LOCAL_NAME,
};
use thinner_floor::query::{default_min_extent, QuerySpec};
use thinner_floor::store::DocumentStore;
use thinner_floor::wire::{
    client_token, is_tcp_addr, local_name, note_malformed, push_byte, receive, token_from,
    token_in_file, Admission, LineState, MAX_LINE,
};
use thinner_floor::cycles_stream::CyclesStatus;
use thinner_floor::camera::ViewportCameras;
use thinner_floor::play::PlayState;
use thinner_floor::rtx::RtxState;

fn no_ids(_: &Document, _: u32, _: u32) -> Result<IdBuffer, String> {
    Err("no_gpu".to_string())
}

fn studio() -> Studio {
    Studio::new(DocumentStore::with_document("scene.json".to_string(), Document::bootstrap()))
}

fn step(s: &mut Studio, req: &MailboxRequest) -> Step {
    dispatch(s, req, "127.0.0.1:1", false, &calc, &show, &no_ids, &forecast)
}

/// Carries a request through, with every save a success.
fn ask(s: &mut Studio, req: &MailboxRequest) -> MailboxResponse {
    match step(s, req) {
        Step::Done { response } => response,
        Step::Todo {
            task:
                Task::Save {
                    response,
                    refresh,
                    failure,
                },
        } => finish_save(response, refresh, failure, Ok(())).response,
        Step::Todo {
            task: Task::Open { path },
        } => {
            let doc = s.store.document.clone();
            finish_open(s, path, Ok(doc)).response
        }
        other => panic!("{other:?}"),
    }
}

fn history(action: HistoryAction) -> MailboxRequest {
    MailboxRequest::History { action }
}

fn project(action: ProjectAction, path: Option<&str>) -> MailboxRequest {
    MailboxRequest::Project {
        action,
        path: path.map(|p| p.to_string()),
    }
}

#[test]
fn b_acceptance_two_boxes_query_undo_save_reopen() {
    let mut s = studio();
    let yellow = [0.88, 0.68, 0.14, 1.0];
    let red = [0.78, 0.18, 0.14, 1.0];
    let left = boxed("$left", [-2.0, 0.5, 0.0], [1.0, 1.0, 1.0], yellow);
    let right = boxed("$right", [2.0, 0.5, 0.0], [1.0, 1.0, 1.0], red);
    let created = ask(
        &mut s,
        &MailboxRequest::Apply {
            request: request(
                1,
                "b-two-boxes",
                "create left and right",
                vec![
                    ApplyChange::CreateMesh { entity: left },
                    ApplyChange::CreateMesh { entity: right },
                ],
            ),
        },
    );
    assert!(created.ok, "{created:?}");
    assert_eq!(created.apply.as_ref().unwrap().revision, 2);

    let painted = ask(
        &mut s,
        &MailboxRequest::Apply {
            request: request(
                2,
                "b-color",
                "color both blue",
                vec![paint("$left", [0.2, 0.45, 0.9, 1.0]), paint("$right", [0.2, 0.45, 0.9, 1.0])],
            ),
        },
    );
    assert!(painted.ok, "{painted:?}");
    assert_eq!(painted.apply.as_ref().unwrap().revision, 3);

    let left_of = ask(
        &mut s,
        &MailboxRequest::Query {
            query: QuerySpec::LeftOf {
                entity_id: "right".to_string(),
                min_extent: default_min_extent(),
            },
        },
    );
    assert!(left_of.ok, "{left_of:?}");
    let ids: Vec<_> = left_of.query.as_ref().unwrap().hits.iter().map(|h| h.id.as_str()).collect();
    assert!(ids.contains(&"left"), "{ids:?}");

    let on_screen = ask(
        &mut s,
        &MailboxRequest::Query {
            query: QuerySpec::OnScreen {
                min_extent: default_min_extent(),
                aspect: default_aspect(),
            },
        },
    );
    assert!(on_screen.ok, "{on_screen:?}");
    let screen: Vec<_> = on_screen.query.as_ref().unwrap().hits.iter().map(|h| h.id.as_str()).collect();
    assert!(screen.contains(&"left") && screen.contains(&"right"), "{screen:?}");

    let undid = ask(&mut s, &history(HistoryAction::Undo));
    assert!(undid.ok, "{undid:?}");
    assert_eq!(undid.history.as_ref().unwrap().revision, 4);

    let saved = ask(&mut s, &project(ProjectAction::Save, None));
    assert!(saved.ok, "{saved:?}");
    assert_eq!(saved.project.as_ref().unwrap().revision, 4);

    let opened = ask(&mut s, &project(ProjectAction::Open, Some("scene.json")));
    assert!(opened.ok, "{opened:?}");
    assert_eq!(opened.project.as_ref().unwrap().revision, 4);

    let st = ask(&mut s, &MailboxRequest::Status);
    assert_eq!(st.status.as_ref().unwrap().revision, 4);
    let doc = ask(&mut s, &MailboxRequest::Inspect { slice: None }).document.unwrap();
    assert_eq!(color_of(&doc, "left"), yellow);
    assert_eq!(color_of(&doc, "right"), red);
}

#[test]
fn export_writes_gltf_via_mailbox() {
    let mut s = studio();
    let todo = step(
        &mut s,
        &MailboxRequest::Export {
            path: Some("out.gltf".to_string()),
        },
    );
    assert_eq!(
        todo,
        Step::Todo {
            task: Task::Export {
                path: "out.gltf".to_string()
            }
        }
    );
    let gltf = to_gltf(&s.store.document, &calc).unwrap();
    let resp = finish_export(Ok(export_result("out.gltf".to_string(), &gltf)));
    assert!(resp.ok, "{resp:?}");
    let ex = resp.export.as_ref().unwrap();
    assert_eq!(ex.mesh_count, 2);
    assert!(ex.byte_length > 0);
}

#[test]
fn status_tells_how_the_studio_stands() {
    let mut s = studio();
    let st = ask(&mut s, &MailboxRequest::Status).status.unwrap();
    assert_eq!(st.auth, "token");
    assert_eq!(st.local_mailbox, DEFAULT_LOCAL_NAME);
    assert_eq!(st.mailbox, "127.0.0.1:1");
    assert_eq!(st.document_path, "scene.json");
    assert_eq!((st.revision, st.entity_count, st.scene_count), (1, 2, 1));
    assert_eq!(st.viewport.mode, ViewMode::Authored);
    assert!(st.latest_evidence.is_none());
}

#[test]
fn inspection_has_slices() {
    let mut s = studio();
    let slice = |k: &str| MailboxRequest::Inspect {
        slice: Some(k.to_string()),
    };
    let summary = ask(&mut s, &slice("SUMMARY"));
    assert_eq!(summary.inspect_summary.as_ref().unwrap().entities.len(), 2);
    assert!(summary.document.is_none());
    assert!(ask(&mut s, &slice("catalog")).catalog.is_some());
    let none = ask(&mut s, &slice("evidence"));
    assert_eq!(none.error.as_deref(), Some("no_evidence"));
    assert!(ask(&mut s, &slice("anything")).document.is_some());
}

#[test]
fn a_failed_save_is_reported() {
    let mut s = studio();
    let req = MailboxRequest::Apply {
        request: request(1, "k", "paint", vec![paint("box-1", [0.0, 0.0, 1.0, 1.0])]),
    };
    let Step::Todo {
        task: Task::Save {
            response,
            refresh,
            failure,
        },
    } = step(&mut s, &req)
    else {
        panic!("a commit has to be saved");
    };
    assert!(refresh);
    let closing = finish_save(response, refresh, failure, Err("disk full".to_string()));
    assert_eq!(closing.response.error.as_deref(), Some("io:disk full"));
    assert!(!closing.response.ok && !closing.refresh);
    let replay = step(&mut s, &req);
    assert!(matches!(replay, Step::Done { response } if response.apply.as_ref().unwrap().idempotent));
}

#[test]
fn projects_need_paths() {
    let mut s = studio();
    let open = ask(&mut s, &project(ProjectAction::Open, None));
    assert_eq!(open.error.as_deref(), Some("project_open_needs_path"));
    let create = ask(&mut s, &project(ProjectAction::Create, None));
    assert_eq!(create.error.as_deref(), Some("project_create_needs_path"));
    let taken = finish_create(&mut s, "x.json".to_string(), Ok(true));
    assert_eq!(taken.response.error.as_deref(), Some("project_exists"));
    assert!(!taken.refresh);
    let failed = finish_create(&mut s, "x.json".to_string(), Err("denied".to_string()));
    assert_eq!(failed.response.error.as_deref(), Some("io:denied"));
    let made = finish_create(&mut s, "x.json".to_string(), Ok(false));
    assert!(made.refresh && made.response.ok);
    assert_eq!(s.store.path, "x.json");
    let lost = finish_open(&mut s, "y.json".to_string(), Err("gone".to_string()));
    assert_eq!(lost.response.error.as_deref(), Some("io:gone"));
    assert_eq!(s.store.path, "x.json");
}

#[test]
fn cameras_are_framed_and_switched() {
    let mut s = studio();
    let camera = |mode: Option<&str>, frame: Option<Vec<String>>| MailboxRequest::Camera {
        mode: mode.map(|m| m.to_string()),
        review_eye: Some(v3([1.0, 2.0, 3.0])),
        review_target: None,
        frame,
    };
    let r = ask(&mut s, &camera(Some("review"), None));
    assert_eq!(r.status.unwrap().viewport.mode, ViewMode::Review);
    assert_eq!(floats(s.cameras.review.eye), [1.0, 2.0, 3.0]);
    let bad = ask(&mut s, &camera(Some("fly"), Some(vec!["box-1".to_string()])));
    assert_eq!(bad.error.as_deref(), Some("unknown_view_mode:fly"));
    let place = floats(s.store.document.world_translation("box-1", &calc).unwrap());
    assert_eq!(floats(s.cameras.authored.target), place);
    let before = s.cameras;
    let _ = ask(&mut s, &camera(None, Some(vec!["ghost".to_string()])));
    assert_eq!(s.cameras.authored, before.authored);
}

#[test]
fn play_and_rtx_answer_their_state() {
    let mut s = studio();
    let p = ask(
        &mut s,
        &MailboxRequest::Play {
            action: "enter".to_string(),
            time: None,
        },
    );
    assert!(p.play.unwrap().playing);
    let bad = ask(
        &mut s,
        &MailboxRequest::Play {
            action: "seek".to_string(),
            time: None,
        },
    );
    assert_eq!(bad.error.as_deref(), Some("seek_needs_time"));
    let r = ask(&mut s, &MailboxRequest::Rtx { requested: Some(true) });
    assert!(r.rtx.unwrap().requested && !r.rtx.unwrap().active);
    let r = ask(&mut s, &MailboxRequest::Rtx { requested: None });
    assert!(r.rtx.unwrap().requested);
}

#[test]
fn validation_and_import_go_through_the_mailbox() {
    let mut s = studio();
    assert!(ask(&mut s, &MailboxRequest::Validate).ok);
    let mut bad = Document::bootstrap();
    bad.find_entity_mut("box-1").unwrap().graph_id = Some("nope".to_string());
    let refused = finish_import(&mut s, "in.gltf".to_string(), Ok(bad));
    assert!(
        matches!(&refused, Step::Done { response } if response.error.as_deref() == Some("import_invalid:missing_graph"))
    );
    let taken = finish_import(&mut s, "in.gltf".to_string(), Ok(Document::bootstrap()));
    let Step::Todo {
        task: Task::Save {
            response, failure, ..
        },
    } = taken
    else {
        panic!("an import has to be saved");
    };
    assert_eq!(failure, "import_save:");
    assert_eq!(response.import.unwrap().revision, 2);
    s.store.document.find_entity_mut("box-1").unwrap().graph_id = Some("nope".to_string());
    let v = ask(&mut s, &MailboxRequest::Validate);
    assert_eq!(v.error.as_deref(), Some("validate_failed"));
    let read = finish_import(&mut s, "in.gltf".to_string(), Err("import_read:x".to_string()));
    assert!(matches!(&read, Step::Done { response } if response.error.as_deref() == Some("import_read:x")));
}

#[test]
fn a_render_becomes_the_latest_evidence() {
    let mut s = studio();
    assert_eq!(
        step(
            &mut s,
            &MailboxRequest::Render {
                width: Some(32),
                height: None
            }
        ),
        Step::Todo {
            task: Task::Render {
                width: 32,
                height: 640
            }
        }
    );
    let frame = swatches(&s.store.document);
    let r = finish_render(&mut s, Ok((frame, "a.png".to_string())), &calc);
    assert_eq!(r.render.unwrap().path, "a.png");
    assert!(last_digest(&s.evidence).unwrap().diff_from_previous.is_none());
    s.store.document.find_entity_mut("box-1").unwrap().material.color = rgba([0.0, 0.0, 1.0, 1.0]);
    let frame = swatches(&s.store.document);
    let _ = finish_render(&mut s, Ok((frame, "b.png".to_string())), &calc);
    let d = last_digest(&s.evidence).unwrap();
    assert_eq!(d.diff_from_previous.unwrap().changed_pixels, 1);
    assert_eq!(d.camera, "authored");
    assert_eq!(last_frame(&s.evidence).unwrap().width, 2);
    let st = ask(&mut s, &MailboxRequest::Status).status.unwrap();
    assert_eq!(st.latest_evidence.unwrap().hash.len(), 64);
    let failed = finish_render(&mut s, Err("no_gpu".to_string()), &calc);
    assert_eq!(failed.error.as_deref(), Some("no_gpu"));
}

#[test]
fn cycles_commands_have_defaults() {
    let mut s = studio();
    let cycles = |a: &str, n: Option<u32>| MailboxRequest::Cycles {
        action: a.to_string(),
        samples: n,
        width: None,
        height: None,
    };
    assert_eq!(
        step(&mut s, &cycles("start", Some(8))),
        Step::Todo {
            task: Task::Cycles {
                command: CyclesCommand::Start {
                    samples: 8,
                    width: 960,
                    height: 640
                }
            }
        }
    );
    assert_eq!(
        step(&mut s, &cycles("dance", None)),
        Step::Todo {
            task: Task::Cycles {
                command: CyclesCommand::Unknown {
                    action: "dance".to_string()
                }
            }
        }
    );
    let r = finish_cycles(CyclesStatus {
        ok: false,
        state: "error".to_string(),
        sample: 0,
        width: 0,
        height: 0,
        overlay: false,
        error: Some("down".to_string()),
    });
    assert_eq!(r.error.as_deref(), Some("down"));
    assert!(!r.ok && r.cycles.is_some());
}

fn decode(text: &str) -> Result<MailboxRequest, String> {
    if text.contains("\"op\":\"status\"") {
        Ok(MailboxRequest::Status)
    } else {
        Err("unknown variant".to_string())
    }
}

#[test]
fn only_the_token_lets_a_line_in() {
    assert_eq!(receive("  \n", "t", &decode), Admission::Silent);
    assert_eq!(
        receive("{\"op\":\"status\",\"token\":\"t\"}\n", "t", &decode),
        Admission::Accepted {
            request: MailboxRequest::Status
        }
    );
    let refusal = |a: Admission| match a {
        Admission::Refused { response } => response.error.unwrap(),
        other => panic!("{other:?}"),
    };
    assert_eq!(refusal(receive("{\"op\":\"status\",\"token\":\"x\"}", "t", &decode)), "unauthorized");
    assert_eq!(refusal(receive("{\"op\":\"status\"}", "t", &decode)), "unauthorized");
    assert_eq!(refusal(receive("{\"op\":\"status\",\"token\":7}", "t", &decode)), "unauthorized");
    assert_eq!(
        refusal(receive("{\"op\":\"jump\",\"token\":\"t\"}", "t", &decode)),
        "bad_request:unknown variant"
    );
    match receive("{nonsense", "t", &decode) {
        Admission::Malformed { response } => {
            assert!(response.error.unwrap().starts_with("bad_request:"));
        }
        other => panic!("{other:?}"),
    }
    let mut feed = MailboxFeed::new();
    note_malformed(&mut feed, single(0.5), 9);
    assert_eq!(feed.newest_first()[0].op, "error");
    assert_eq!(feed.newest_first()[0].summary, "bad_request");
}

#[test]
fn lines_end_at_a_newline_or_are_too_long() {
    let mut line = Vec::new();
    assert_eq!(push_byte(&mut line, b'a'), LineState::Open);
    assert_eq!(push_byte(&mut line, b'\n'), LineState::Complete);
    assert_eq!(line, b"a\n");
    let mut long = vec![b'x'; MAX_LINE];
    assert_eq!(push_byte(&mut long, b'x'), LineState::TooLong);
    let mut full = vec![b'x'; MAX_LINE];
    assert_eq!(push_byte(&mut full, b'\n'), LineState::Complete);
}

#[test]
fn tokens_are_mixed_and_trimmed() {
    let t = token_from(0x1234_5678_9abc_def0, 42);
    let n: u128 = 0x1234_5678_9abc_def0;
    assert_eq!(t, format!("{:032x}", n ^ (42u128 << 48) ^ n.rotate_left(23)));
    assert_eq!(token_from(u128::MAX - 5, 7), {
        let n = u128::MAX - 5;
        format!("{:032x}", n ^ (7u128 << 48) ^ n.rotate_left(23))
    });
    assert_eq!(token_in_file("  abc\n"), Some("abc".to_string()));
    assert_eq!(token_in_file(" \u{a0}\n"), None);
    assert_eq!(client_token(Some("g".to_string()), Some("f".to_string())), "g");
    assert_eq!(client_token(Some(String::new()), Some(" f ".to_string())), "f");
    assert_eq!(client_token(None, None), "");
}

#[test]
fn addresses_tell_hosts_from_sockets() {
    assert!(is_tcp_addr("127.0.0.1:17421"));
    assert!(!is_tcp_addr("localhost"));
    assert!(!is_tcp_addr("pipe:tf-1:2"));
    assert!(!is_tcp_addr("\\\\.\\pipe\\tf:1"));
    assert!(!is_tcp_addr("host:port"));
    assert_eq!(local_name("pipe:tf"), "tf");
    assert_eq!(local_name("thinner-floor"), "thinner-floor");
}

#[test]
fn a_studio_starts_at_rest() {
    let s = studio();
    assert_eq!(s.cameras, ViewportCameras::new());
    assert_eq!(s.cameras.effective_name(), "authored");
    assert_eq!(s.play, PlayState::default());
    assert_eq!(s.rtx, RtxState::default());
    assert!(s.evidence.frame.is_none() && s.evidence.digest.is_none());
}

fn v3(a: [f32; 3]) -> numeric::Vec3 {
    numeric::Vec3 {
        x: single(a[0]),
        y: single(a[1]),
        z: single(a[2]),
    }
}

fn rgba(a: [f32; 4]) -> Rgba {
    Rgba {
        r: single(a[0]),
        g: single(a[1]),
        b: single(a[2]),
        a: single(a[3]),
    }
}

fn floats(v: numeric::Vec3) -> [f32; 3] {
    [float(v.x), float(v.y), float(v.z)]
}

fn color_of(doc: &Document, id: &str) -> [f32; 4] {
    let c = doc.find_entity(id).unwrap().material.color;
    [float(c.r), float(c.g), float(c.b), float(c.a)]
}

fn boxed(id: &str, t: [f32; 3], size: [f32; 3], color: [f32; 4]) -> Entity {
    Entity {
        id: id.to_string(),
        kind: "mesh".to_string(),
        transform: numeric::at(v3(t)),
        mesh: MeshRecipe {
            recipe: "box".to_string(),
            size: v3(size),
        },
        material: Material { color: rgba(color) },
        parent: None,
        graph_id: None,
    }
}

fn document(revision: u64, entities: Vec<Entity>) -> Document {
    Document {
        revision,
        scenes: vec![Scene {
            id: "main".to_string(),
            entities,
        }],
        idempotency_log: vec![],
        graphs: vec![],
        light: SceneLight::default(),
    }
}

fn request(base_revision: u64, key: &str, label: &str, changes: Vec<ApplyChange>) -> ApplyRequest {
    ApplyRequest {
        base_revision,
        idempotency_key: key.to_string(),
        label: label.to_string(),
        changes,
        dry_run: false,
    }
}

fn paint(id: &str, color: [f32; 4]) -> ApplyChange {
    ApplyChange::PatchColor {
        entity_id: id.to_string(),
        color: rgba(color),
    }
}

/// A picture of one row: the colours of the entities in order.
fn swatches(doc: &Document) -> BeautyFrame {
    let mut bytes = Vec::new();
    for e in doc.entities() {
        let c = e.material.color;
        for x in [c.r, c.g, c.b, c.a] {
            bytes.push((float(x) * 255.0) as u8);
        }
    }
    BeautyFrame {
        width: (bytes.len() / 4) as u32,
        height: 1,
        rgba: bytes,
        revision: doc.revision,
        camera: "authored".to_string(),
    }
}

fn forecast(before: &Document, after: &Document) -> Option<PixelForecast> {
    Some(forecast_from_frames(&swatches(before), &swatches(after)))
}

fn apply(doc: &mut Document, req: &ApplyRequest) -> ApplyResult {
    doc.apply(req, &calc, &forecast)
}

fn single(x: f32) -> Real {
    Real { bits: x.to_bits() }
}

fn float(r: Real) -> f32 {
    f32::from_bits(r.bits)
}

fn vec3(v: numeric::Vec3) -> Vec3 {
    Vec3::new(float(v.x), float(v.y), float(v.z))
}

fn point(v: Vec3) -> numeric::Vec3 {
    numeric::Vec3 {
        x: single(v.x),
        y: single(v.y),
        z: single(v.z),
    }
}

fn quat(q: numeric::Quat) -> Quat {
    Quat::from_xyzw(float(q.x), float(q.y), float(q.z), float(q.w))
}

fn four(x: f32, y: f32, z: f32, w: f32) -> numeric::Quat {
    numeric::Quat {
        x: single(x),
        y: single(y),
        z: single(z),
        w: single(w),
    }
}

fn mat4(m: numeric::Mat4) -> Mat4 {
    let col = |c: numeric::Quat| [float(c.x), float(c.y), float(c.z), float(c.w)];
    Mat4::from_cols_array_2d(&[col(m.c0), col(m.c1), col(m.c2), col(m.c3)])
}

fn matrix(m: Mat4) -> numeric::Mat4 {
    let c = m.to_cols_array_2d();
    let col = |a: [f32; 4]| four(a[0], a[1], a[2], a[3]);
    numeric::Mat4 {
        c0: col(c[0]),
        c1: col(c[1]),
        c2: col(c[2]),
        c3: col(c[3]),
    }
}

fn compose(t: Transform) -> Mat4 {
    Mat4::from_scale_rotation_translation(vec3(t.scale), quat(t.rotation), vec3(t.translation))
}

fn decompose(m: Mat4) -> Transform {
    let (scale, rot, trans) = m.to_scale_rotation_translation();
    Transform {
        translation: point(trans),
        rotation: four(rot.x, rot.y, rot.z, rot.w),
        scale: point(scale),
    }
}

fn at_value(x: f32) -> Answer {
    Answer {
        value: single(x),
        ..Answer::blank()
    }
}

fn at_point(v: Vec3) -> Answer {
    Answer {
        point: point(v),
        ..Answer::blank()
    }
}

fn at_matrix(m: Mat4) -> Answer {
    Answer {
        matrix: matrix(m),
        ..Answer::blank()
    }
}

fn at_pose(pose: Transform) -> Answer {
    Answer {
        pose,
        ..Answer::blank()
    }
}

/// Floating point: every computation that the library asks for.
fn calc(op: Calc) -> Answer {
    match op {
        Calc::Compose(t) => at_matrix(compose(t)),
        Calc::Product(a, b) => at_matrix(mat4(a) * mat4(b)),
        Calc::Invert(m) => at_matrix(mat4(m).inverse()),
        Calc::Decompose(m) => at_pose(decompose(mat4(m))),
        Calc::Shift(t) => at_matrix(Mat4::from_translation(vec3(t))),
        Calc::Sum(a, b) => at_point(vec3(a) + vec3(b)),
        Calc::Shrink(a, n) => at_point(vec3(a) / n as f32),
        Calc::Stretch(a, b) => at_point(vec3(a) * vec3(b)),
        Calc::LengthSquared(a) => at_value(vec3(a).length_squared()),
        Calc::Distance(a, b) => at_value((vec3(a) - vec3(b)).length()),
        Calc::Add(a, b) => at_value(float(a) + float(b)),
        Calc::Subtract(a, b) => at_value(float(a) - float(b)),
        Calc::Multiply(a, b) => at_value(float(a) * float(b)),
        Calc::Divide(a, b) => at_value(float(a) / float(b)),
        Calc::Count(n) => at_value(n as f32),
        Calc::Round(a) => Answer {
            count: float(a).round() as u32,
            ..Answer::blank()
        },
        Calc::Floor(a) => at_value(float(a).floor()),
        Calc::Root(a) => at_value(float(a).sqrt()),
        Calc::Sine(a) => at_value(float(a).sin()),
        Calc::Cosine(a) => at_value(float(a).cos()),
        Calc::Tangent(a) => at_value(float(a).tan()),
        Calc::ArcSine(a) => at_value(float(a).asin()),
        Calc::ArcTangent(y, x) => at_value(float(y).atan2(float(x))),
        Calc::Degrees(a) => at_value(float(a).to_degrees()),
        Calc::Radians(a) => at_value(float(a).to_radians()),
        Calc::Gap(a, b) => at_point(vec3(a) - vec3(b)),
        Calc::Scale(a, k) => at_point(vec3(a) * float(k)),
        Calc::Cross(a, b) => at_point(vec3(a).cross(vec3(b))),
        Calc::Unit(a) => {
            let way = vec3(a).try_normalize();
            let mut r = at_point(way.unwrap_or(Vec3::NAN));
            r.holds = way.is_some();
            r
        }
        Calc::View(eye, target, up) => at_matrix(Mat4::look_at_rh(vec3(eye), vec3(target), vec3(up))),
        Calc::Perspective(fov, aspect, near, far) => at_matrix(Mat4::perspective_rh(
            float(fov),
            float(aspect),
            float(near),
            float(far),
        )),
        Calc::Parallel(half, near, far) => {
            let h = float(half);
            at_matrix(Mat4::orthographic_rh(-h, h, -h, h, float(near), float(far)))
        }
        Calc::Move(m, p) => at_point(mat4(m).transform_point3(vec3(p))),
        Calc::Clip(m, p) => {
            let c = mat4(m) * vec3(p).extend(1.0);
            let mut a = Answer::blank();
            a.pose.rotation = four(c.x, c.y, c.z, c.w);
            a
        }
    }
}

/// A number with so many decimals, or in its shortest form.
fn show(x: Real, decimals: u8) -> String {
    if decimals == numeric::SHORTEST {
        format!("{}", float(x))
    } else {
        format!("{:.*}", decimals as usize, float(x))
    }
}

/// The number that a JSON notation stands for.
fn read_number(notation: &str) -> Real {
    single(notation.parse::<f64>().unwrap_or(0.0) as f32)
}

/// The number that a socket's notation stands for. Whole numbers are rounded once.
fn read_socket(notation: &str) -> Real {
    if let Ok(n) = notation.parse::<u64>() {
        return single(n as f32);
    }
    match notation.parse::<i64>() {
        Ok(n) => single(n as f32),
        Err(_) => read_number(notation),
    }
}

/// The number that an argument stands for, if it is one.
fn parse_number(text: &str) -> Option<Real> {
    text.parse::<f32>().ok().map(single)
}
