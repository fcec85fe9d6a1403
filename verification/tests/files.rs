//! Files and frames: glTF, Cycles scenes, pictures and their digests.

#![allow(dead_code, unused_imports)]

use glam::{Mat4, Quat, Vec3};
use thinner_floor::numeric::{self, Answer, Calc, Real, Transform};
use thinner_floor::apply::{ApplyRequest, ApplyResult};
use thinner_floor::beauty::{forecast_from_frames, BeautyFrame, PixelForecast};
use thinner_floor::change::ApplyChange;
use thinner_floor::document::{Document, Entity, Material, MeshRecipe, Scene};
use thinner_floor::light::SceneLight;
use thinner_floor::numeric::Rgba;
use thinner_floor::base64::base64_encode;
use thinner_floor::beauty::{
    clamp_size, default_png_path, default_probe_coords, diff_frames, digest_frame, draw_list, hex,
    pack_id, padded_row, png_bytes, png_outcome, read_ids, sample_rgb, strip_padding, unpack_id, Evidence, IdBuffer,
};
use thinner_floor::cycles_stream::{
    command_line, parse_status, sidecar_path, CyclesDesk, FLAG_HAS_FRAME, HEADER, MAGIC,
};
use thinner_floor::cycles_xml::document_xml;
use thinner_floor::export::{export_result, to_gltf};
use thinner_floor::import::from_gltf;
use thinner_floor::json::Json;
use serde_json::Value;

fn value(j: &Json) -> Value {
    match j {
        Json::Null => Value::Null,
        Json::Bool(b) => Value::Bool(*b),
        Json::Number(s) => serde_json::from_str(s).unwrap(),
        Json::Single(r) => Value::from(float(*r)),
        Json::Text(s) => Value::String(s.clone()),
        Json::List(items) => Value::Array(items.iter().map(value).collect()),
        Json::Object(members) => Value::Object(members.iter().map(|(k, v)| (k.clone(), value(v))).collect()),
    }
}

fn shaded() -> Document {
    let mut doc = Document::bootstrap();
    let done = apply(
        &mut doc,
        &request(
            1,
            "gc",
            "g",
            vec![
                ApplyChange::GraphCreate {
                    graph_id: "mat-1".to_string(),
                },
                ApplyChange::GraphBind {
                    graph_id: "mat-1".to_string(),
                    entity_id: "box-1".to_string(),
                },
            ],
        ),
    );
    assert!(done.ok);
    doc
}

#[test]
fn bootstrap_gltf_has_two_meshes_and_scene() {
    let doc = Document::bootstrap();
    let g = value(&to_gltf(&doc, &calc).unwrap());
    assert_eq!(g["asset"]["version"], "2.0");
    assert_eq!(g["meshes"].as_array().unwrap().len(), 2);
    assert!(!g["scenes"][0]["nodes"].as_array().unwrap().is_empty());
    assert!(g["buffers"][0]["uri"].as_str().unwrap().starts_with("data:"));
}

#[test]
fn gltf_roundtrip_preserves_ids_and_graphs() {
    let doc = shaded();
    let g = value(&to_gltf(&doc, &calc).unwrap());
    let text = serde_json::to_string(&g).unwrap();
    let kept = &g["asset"]["extras"]["thinnerFloor"]["graphs"];
    assert_eq!(kept.as_array().unwrap().len(), 1);
    assert_eq!(kept[0]["id"], "mat-1");
    let back = from_gltf(&text, &read_number, &read_socket).unwrap();
    assert_eq!(back.entity_count(), 2);
    assert_eq!(back.find_entity("box-1").unwrap().graph_id.as_deref(), Some("mat-1"));
    assert_eq!(back.graphs.len(), 1);
    assert_eq!(back.graphs[0].id, "mat-1");
    let s = back.resolved_surface(back.find_entity("box-1").unwrap());
    assert!((float(s.color.r) - 0.86).abs() < 1e-4);
}

#[test]
fn an_exported_group_keeps_its_members() {
    let mut doc = Document::bootstrap();
    doc.find_entity_mut("box-1").unwrap().parent = Some("ground".to_string());
    let g = to_gltf(&doc, &calc).unwrap();
    let r = export_result("x.gltf".to_string(), &g);
    assert_eq!((r.mesh_count, r.node_count), (2, 2));
    let text = serde_json::to_string(&value(&g)).unwrap();
    assert!(text.contains("\"POSITION\""));
    assert!(text.contains("thinnerFloor"));
    let back = from_gltf(&text, &read_number, &read_socket).unwrap();
    assert_eq!(back.find_entity("box-1").unwrap().parent.as_deref(), Some("ground"));
    assert_eq!(back.scenes[0].entities, doc.scenes[0].entities);
    assert_eq!(back.revision, 1);
}

#[test]
fn foreign_files_are_refused() {
    let read = |t: &str| from_gltf(t, &read_number, &read_socket).unwrap_err();
    assert!(read("{").starts_with("import_json:"));
    assert_eq!(read("{\"asset\":{\"generator\":\"other\"}}"), "import_not_thinner_floor");
    let own = "{\"asset\":{\"generator\":\"thinner-floor\"},\"nodes\":[{}]}";
    assert_eq!(read(own), "import_missing_extras:node_0");
    let child = "{\"asset\":{\"generator\":\"thinner-floor\"},\"nodes\":[{\"children\":[-1],\"extras\":{\"thinnerFloor\":{\"id\":\"a\"}}}]}";
    assert_eq!(read(child), "import_bad_child");
    let bare = "{\"asset\":{\"generator\":\"thinner-floor\"}}";
    assert_eq!(from_gltf(bare, &read_number, &read_socket).unwrap().entity_count(), 0);
}

#[test]
fn base64_matches_the_known_vectors() {
    let pairs = [
        ("", ""),
        ("f", "Zg=="),
        ("fo", "Zm8="),
        ("foo", "Zm9v"),
        ("foob", "Zm9vYg=="),
        ("fooba", "Zm9vYmE="),
        ("foobar", "Zm9vYmFy"),
    ];
    for (plain, coded) in pairs {
        assert_eq!(base64_encode(&plain.as_bytes().to_vec()), coded);
    }
    assert_eq!(base64_encode(&vec![0xfb, 0xff, 0xfe]), "+//+");
}

fn frame(width: u32, height: u32, rgba: Vec<u8>) -> BeautyFrame {
    BeautyFrame {
        width,
        height,
        rgba,
        revision: 1,
        camera: "authored".to_string(),
    }
}

#[test]
fn digest_has_hash_probes_and_stable_hash() {
    let f = frame(96, 64, (0..96 * 64 * 4).map(|i| (i % 251) as u8).collect());
    let a = digest_frame(&f, &calc);
    let b = digest_frame(&f, &calc);
    assert_eq!(a.hash, b.hash);
    assert_eq!(a.hash.len(), 64);
    assert_eq!(a.probes.len(), 4);
    assert!(float(a.mean_luma) > 8.0);
    assert_eq!(a.revision, 1);
    assert_eq!(a.camera, "authored");
}

#[test]
fn digests_hold_exact_values() {
    let f = frame(1, 1, b"abc\xff".to_vec());
    let d = digest_frame(&frame(1, 1, vec![10, 20, 30, 255]), &calc);
    assert!((float(d.mean_luma) - (0.2126 * 10.0 + 0.7152 * 20.0 + 0.0722 * 30.0)).abs() < 1e-3);
    assert_eq!(sample_rgb(&f, 0, 0), [97, 98, 99]);
    assert_eq!(sample_rgb(&f, 5, 9), [0, 0, 0]);
    assert_eq!(
        d.hash,
        "85b0134ceffc9fbba06039e7645b449c566f4379bd4a1770e1beefeb919e9e8d"
    );
    assert_eq!((d.clip, d.black), (0, 0));
    assert_eq!(hex(&vec![0, 0xab, 0xff]), "00abff");
}

#[test]
fn differences_are_counted_and_boxed() {
    let a = frame(3, 2, vec![0; 24]);
    let mut b = frame(3, 2, vec![0; 24]);
    b.rgba[4] = 9;
    b.rgba[16] = 200;
    let d = diff_frames(&a, &b);
    assert_eq!(d.changed_pixels, 2);
    assert_eq!(d.max_delta, 200);
    assert_eq!(d.bbox, Some([1, 0, 1, 1]));
    assert_eq!(diff_frames(&b, &a).changed_pixels, 2);
    let none = diff_frames(&a, &a);
    assert_eq!((none.changed_pixels, none.max_delta, none.bbox), (0, 0, None));
}

#[test]
fn rendering_sizes_are_clamped() {
    assert_eq!(clamp_size(0, 5000), (1, 1080));
    assert_eq!(clamp_size(5000, 640), (1920, 640));
    assert_eq!(default_png_path(7, 960, 640), "renders/beauty-r7-960x640.png");
    assert_eq!(default_probe_coords(96, 64).len(), 4);
}

#[test]
fn padding_is_stripped_from_rows() {
    assert_eq!(padded_row(1), 256);
    assert_eq!(padded_row(64), 256);
    assert_eq!(padded_row(65), 512);
    let mut data = vec![0u8; 512];
    data[..4].copy_from_slice(&[1, 2, 3, 4]);
    data[256..260].copy_from_slice(&[5, 6, 7, 8]);
    assert_eq!(strip_padding(&data, 1, 2), [1, 2, 3, 4, 5, 6, 7, 8]);
}

#[test]
fn object_numbers_survive_their_colour() {
    for i in [0usize, 1, 254, 255, 256, 65534] {
        let (r, g) = pack_id(i);
        assert_eq!(unpack_id([r, g, 0]) as usize, i + 1);
    }
    let mut data = vec![0u8; 256];
    data[4..6].copy_from_slice(&[2, 0]);
    data[8..10].copy_from_slice(&[9, 0]);
    let buf = read_ids(&data, 3, 1, vec!["a".to_string(), "b".to_string()]);
    assert_eq!(buf.pick(0, 0), None);
    assert_eq!(buf.pick(1, 0), Some("b"));
    assert_eq!(buf.pick(2, 0), None);
    assert_eq!(buf.pick(3, 0), None);
    assert_eq!(buf.pick(0, 1), None);
}

#[test]
fn the_draw_list_follows_the_entities() {
    let doc = Document::bootstrap();
    let plain = draw_list(&doc, false, &calc);
    assert_eq!(plain.len(), 2);
    assert_eq!(plain[0].name, doc.entities()[0].id);
    let packed = draw_list(&doc, true, &calc);
    assert_eq!(float(packed[1].color.r), 2.0 / 255.0);
}

#[test]
fn evidence_compares_with_the_frame_before() {
    let mut e = Evidence::new();
    let _ = e.record(frame(1, 1, vec![1, 2, 3, 4]), "a.png".to_string(), &calc);
    assert!(e.digest.as_ref().unwrap().diff_from_previous.is_none());
    let r = e.record(frame(1, 1, vec![1, 2, 9, 4]), "b.png".to_string(), &calc);
    assert_eq!((r.path.as_str(), r.width, r.ok), ("b.png", 1, true));
    let d = e.digest.as_ref().unwrap().diff_from_previous.as_ref().unwrap();
    assert_eq!((d.changed_pixels, d.max_delta), (1, 6));
}

#[test]
fn sidecar_replies_are_read_leniently() {
    let s = parse_status("{\"ok\":true,\"state\":\"running\",\"sample\":7,\"width\":64,\"height\":32}", true);
    assert!(s.ok && s.overlay);
    assert_eq!((s.state.as_str(), s.sample, s.width, s.height), ("running", 7, 64, 32));
    let none = parse_status("not json", false);
    assert_eq!((none.ok, none.state.as_str(), none.sample), (false, "idle", 0));
    let odd = parse_status("{\"sample\":-1,\"error\":\"x\"}", false);
    assert_eq!((odd.sample, odd.error.as_deref()), (0, Some("x")));
    assert_eq!(command_line("pause"), "{\"op\":\"pause\"}");
    assert_eq!(sidecar_path("\\\\?\\C:\\a\\b.xml"), "C:/a/b.xml");
}

#[test]
fn the_desk_remembers_the_last_session() {
    let mut desk = CyclesDesk::new();
    assert_eq!(desk.refresh(), None);
    desk.prepare_start(0, 4, 480);
    assert_eq!(
        desk.start_line("/tmp/s.xml"),
        "{\"op\":\"start\",\"xml\":\"/tmp/s.xml\",\"samples\":1,\"width\":8,\"height\":480}"
    );
    let down = desk.finish_start(Err("no sidecar".to_string()));
    assert_eq!((down.ok, down.state.as_str()), (false, "error"));
    assert_eq!(desk.last_error.as_deref(), Some("no sidecar"));
    let up = desk.finish_start(Ok("{\"ok\":true,\"state\":\"running\"}".to_string()));
    assert!(up.ok && up.overlay && desk.overlay_on());
    assert_eq!(desk.refresh(), Some((1, 8, 480)));
    assert_eq!(desk.snapshot(Err("down".to_string()), true).state, "idle");
    assert_eq!(desk.snapshot(Err("down".to_string()), false).state, "down");
    assert_eq!(desk.unknown_action("dance").error.as_deref(), Some("unknown_cycles_action:dance"));
    let stopped = desk.finish_stop(Err("gone".to_string()));
    assert_eq!(stopped.error.as_deref(), Some("gone"));
    assert!(!desk.overlay_on());
    assert!(!desk.finish_command(Ok("{}".to_string())).ok);
}

/// Two pixels side by side in rows of twelve bytes.
fn shared(seq: u32, flags: u32) -> Vec<u8> {
    let mut b = vec![0u8; HEADER + 12];
    for (i, word) in [MAGIC, 2, 1, 5, seq, flags, 12].iter().enumerate() {
        b[i * 4..i * 4 + 4].copy_from_slice(&word.to_le_bytes());
    }
    for i in 0..12 {
        b[HEADER + i] = i as u8;
    }
    b
}

#[test]
fn frames_are_taken_once_and_whole() {
    let mut desk = CyclesDesk::new();
    assert!(desk.take_frame(&[], 0).is_none());
    assert!(desk.take_frame(&shared(0, FLAG_HAS_FRAME), 0).is_none());
    assert!(desk.take_frame(&shared(4, 0), 4).is_none());
    assert!(desk.take_frame(&shared(4, FLAG_HAS_FRAME), 5).is_none());
    assert!(desk.take_frame(&shared(4, FLAG_HAS_FRAME)[..HEADER + 11], 4).is_none());
    desk.prepare_start(7, 100, 50);
    let f = desk.take_frame(&shared(4, FLAG_HAS_FRAME), 4).unwrap();
    assert_eq!((desk.last_samples, desk.last_width, desk.last_height), (7, 100, 50));
    assert_eq!(desk.last_seq, 4);
    assert_eq!((f.width, f.height, f.sample, f.seq), (2, 1, 5, 4));
    assert_eq!(f.rgba, [0, 1, 2, 3, 4, 5, 6, 7]);
    assert!(desk.take_frame(&shared(4, FLAG_HAS_FRAME), 4).is_none());
}

#[test]
fn scenes_are_written_for_the_sidecar() {
    let doc = Document::bootstrap();
    let xml = document_xml(&doc, 320, 200, &calc, &show);
    assert!(xml.starts_with("<cycles>"));
    assert!(xml.trim_end().ends_with("</cycles>"));
    assert!(xml.contains("width=\"320\" height=\"200\""));
    assert!(xml.matches("<shader name=").count() >= 2);
    assert!(xml.contains("<transform translate=\"0.35 1.75 7.8\">"));
    let look = Vec3::new(-0.35, 0.55 - 1.75, -7.8).normalize();
    let yaw = (-look.x).atan2(-look.z).to_degrees();
    assert!(xml.contains(&format!("<transform rotate=\"{yaw:.5} 0 1 0\">")));
    assert!(xml.contains(&format!("fov=\"{:.6}\"", 45.0_f32.to_radians())));
}

#[test]
fn scene_placements_follow_their_parents() {
    let mut doc = Document::bootstrap();
    let turn = Quat::from_axis_angle(Vec3::Y, 90.0_f32.to_radians());
    {
        let ground = doc.find_entity_mut("ground").unwrap();
        ground.transform.translation = v3([1.0, 0.0, 0.0]);
        ground.transform.rotation = four(turn.x, turn.y, turn.z, turn.w);
        ground.transform.scale = v3([2.0, 2.0, 2.0]);
    }
    {
        let child = doc.find_entity_mut("box-1").unwrap();
        child.parent = Some("ground".to_string());
        child.transform = numeric::at(v3([0.0, 0.5, 3.0]));
    }
    let xml = document_xml(&doc, 320, 200, &calc, &show);
    assert!(xml.contains("translate=\"7.00000 1.00000 "), "{xml}");
    assert!(xml.contains("rotate=\"90.0000 0.00000 1.00000 0.00000\""), "{xml}");
}

#[test]
fn circles_of_empty_entities_are_not_drawn() {
    let mut doc = Document::bootstrap();
    let plain = document_xml(&doc, 320, 200, &calc, &show);
    for (id, parent) in [("a", "b"), ("b", "a")] {
        let mut e = boxed(id, [1.0, 0.0, 0.0], [1.0; 3], [1.0; 4]);
        e.mesh.recipe = "empty".to_string();
        e.parent = Some(parent.to_string());
        doc.scenes[0].entities.push(e);
    }
    assert!(doc.is_drawable());
    let shapes = |xml: &str| xml.matches("<transform translate=").count();
    assert_eq!(shapes(&document_xml(&doc, 320, 200, &calc, &show)), shapes(&plain));
    doc.find_entity_mut("box-1").unwrap().parent = Some("b".to_string());
    assert!(!doc.is_drawable());
}

#[test]
fn frames_become_png_files() {
    let pixels: Vec<u8> = (0..3 * 2 * 4).map(|i| (i * 7) as u8).collect();
    let bytes = png_bytes(&frame(3, 2, pixels.clone())).unwrap();
    assert_eq!(bytes[..8], [137, 80, 78, 71, 13, 10, 26, 10]);
    let mut reader = png::Decoder::new(&bytes[..]).read_info().unwrap();
    let mut back = vec![0; reader.output_buffer_size()];
    let info = reader.next_frame(&mut back).unwrap();
    assert_eq!((info.width, info.height), (3, 2));
    assert_eq!(back, pixels);
}

#[test]
fn sizes_that_do_not_fit_make_no_png() {
    let said = |width, height, n| png_bytes(&frame(width, height, vec![0; n])).unwrap_err();
    assert_eq!(said(0, 0, 0), "beauty_png:Zero width not allowed");
    assert_eq!(said(1, 0, 0), "beauty_png:Zero height not allowed");
    assert_eq!(said(2, 1, 4), "beauty_png:wrong data size, expected 8 got 4");
    assert_eq!(png_outcome(Ok(vec![1, 2])).unwrap(), [1, 2]);
    assert_eq!(png_outcome(Err("x".to_string())).unwrap_err(), "beauty_png:x");
}

#[test]
fn exported_views_lie_inside_the_buffer() {
    let mut doc = shaded();
    let mut ball = boxed("ball", [0.0, 2.0, 0.0], [1.0, 1.0, 1.0], [1.0; 4]);
    ball.mesh.recipe = "sphere".to_string();
    assert!(apply(&mut doc, &request(2, "k", "ball", vec![ApplyChange::CreateMesh { entity: ball }])).ok);
    let g = value(&to_gltf(&doc, &calc).unwrap());
    let size = g["buffers"][0]["byteLength"].as_u64().unwrap();
    let views = g["bufferViews"].as_array().unwrap();
    let meshes = g["meshes"].as_array().unwrap();
    assert_eq!(views.len(), 3 * meshes.len());
    assert_eq!(g["accessors"].as_array().unwrap().len(), views.len());
    assert_eq!(g["materials"].as_array().unwrap().len(), meshes.len());
    for v in views {
        let offset = v["byteOffset"].as_u64().unwrap();
        assert_eq!(offset % 4, 0);
        assert!(offset + v["byteLength"].as_u64().unwrap() <= size);
    }
    for (k, m) in meshes.iter().enumerate() {
        let p = &m["primitives"][0];
        assert_eq!(p["attributes"]["POSITION"], 3 * k);
        assert_eq!(p["attributes"]["NORMAL"], 3 * k + 1);
        assert_eq!(p["indices"], 3 * k + 2);
        assert_eq!(p["material"], k);
    }
}

#[test]
fn graphs_come_out_of_the_text() {
    let graphs = |list: &str| {
        let text = format!(
            "{{\"asset\":{{\"extras\":{{\"thinnerFloor\":{{\"graphs\":{list}}}}}}}}}"
        );
        from_gltf(&text, &read_number, &read_socket).unwrap().graphs
    };
    let one = graphs(
        "[{\"nodes\":[{\"sockets\":{\"b\":2,\"a\":-0.5},\"type\":\"principled\",\"id\":\"n\"}],\"id\":\"g\",\"x\":1}]",
    );
    assert_eq!(one.len(), 1);
    assert_eq!((one[0].id.as_str(), one[0].nodes.len()), ("g", 1));
    let node = &one[0].nodes[0];
    assert_eq!((node.id.as_str(), node.node_type.as_str()), ("n", "principled"));
    assert_eq!(node.sockets.get("a").map(|r| float(*r)), Some(-0.5));
    assert_eq!(node.sockets.get("b").map(|r| float(*r)), Some(2.0));
    assert_eq!(graphs("[[\"g\",[[\"n\",\"t\",{}]]]]")[0].nodes[0].node_type, "t");
    for broken in [
        "null",
        "{}",
        "[{\"id\":\"g\"}]",
        "[{\"id\":1,\"nodes\":[]}]",
        "[[\"g\",[],0]]",
        "[{\"id\":\"g\",\"nodes\":[]},7]",
        "[{\"id\":\"g\",\"nodes\":[{\"id\":\"n\",\"type\":\"t\",\"sockets\":{\"a\":null}}]}]",
        "[{\"id\":\"g\",\"nodes\":[{\"id\":\"n\",\"type\":\"t\",\"sockets\":[]}]}]",
    ] {
        assert!(graphs(broken).is_empty());
    }
    assert_eq!(float(read_socket("9007199791611905")), 9007199791611905u64 as f32);
}

#[test]
fn swapped_frames_differ_in_the_same_way() {
    let a = frame(2, 2, vec![0; 16]);
    let mut b = frame(3, 2, vec![0; 24]);
    b.rgba[5] = 77;
    assert_eq!(diff_frames(&a, &b), diff_frames(&b, &a));
    assert_eq!(diff_frames(&a, &b).max_delta, 77);
}

fn v3(a: [f32; 3]) -> numeric::Vec3 {
    numeric::Vec3 {
        x: single(a[0]),
        y: single(a[1]),
        z: single(a[2]),
    }
}

fn rgba(a: [f32; 4]) -> Rgba {
    Rgba {
        r: single(a[0]),
        g: single(a[1]),
        b: single(a[2]),
        a: single(a[3]),
    }
}

fn floats(v: numeric::Vec3) -> [f32; 3] {
    [float(v.x), float(v.y), float(v.z)]
}

fn color_of(doc: &Document, id: &str) -> [f32; 4] {
    let c = doc.find_entity(id).unwrap().material.color;
    [float(c.r), float(c.g), float(c.b), float(c.a)]
}

fn boxed(id: &str, t: [f32; 3], size: [f32; 3], color: [f32; 4]) -> Entity {
    Entity {
        id: id.to_string(),
        kind: "mesh".to_string(),
        transform: numeric::at(v3(t)),
        mesh: MeshRecipe {
            recipe: "box".to_string(),
            size: v3(size),
        },
        material: Material { color: rgba(color) },
        parent: None,
        graph_id: None,
    }
}

fn document(revision: u64, entities: Vec<Entity>) -> Document {
    Document {
        revision,
        scenes: vec![Scene {
            id: "main".to_string(),
            entities,
        }],
        idempotency_log: vec![],
        graphs: vec![],
        light: SceneLight::default(),
    }
}

fn request(base_revision: u64, key: &str, label: &str, changes: Vec<ApplyChange>) -> ApplyRequest {
    ApplyRequest {
        base_revision,
        idempotency_key: key.to_string(),
        label: label.to_string(),
        changes,
        dry_run: false,
    }
}

fn paint(id: &str, color: [f32; 4]) -> ApplyChange {
    ApplyChange::PatchColor {
        entity_id: id.to_string(),
        color: rgba(color),
    }
}

/// A picture of one row: the colours of the entities in order.
fn swatches(doc: &Document) -> BeautyFrame {
    let mut bytes = Vec::new();
    for e in doc.entities() {
        let c = e.material.color;
        for x in [c.r, c.g, c.b, c.a] {
            bytes.push((float(x) * 255.0) as u8);
        }
    }
    BeautyFrame {
        width: (bytes.len() / 4) as u32,
        height: 1,
        rgba: bytes,
        revision: doc.revision,
        camera: "authored".to_string(),
    }
}

fn forecast(before: &Document, after: &Document) -> Option<PixelForecast> {
    Some(forecast_from_frames(&swatches(before), &swatches(after)))
}

fn apply(doc: &mut Document, req: &ApplyRequest) -> ApplyResult {
    doc.apply(req, &calc, &forecast)
}

fn single(x: f32) -> Real {
    Real { bits: x.to_bits() }
}

fn float(r: Real) -> f32 {
    f32::from_bits(r.bits)
}

fn vec3(v: numeric::Vec3) -> Vec3 {
    Vec3::new(float(v.x), float(v.y), float(v.z))
}

fn point(v: Vec3) -> numeric::Vec3 {
    numeric::Vec3 {
        x: single(v.x),
        y: single(v.y),
        z: single(v.z),
    }
}

fn quat(q: numeric::Quat) -> Quat {
    Quat::from_xyzw(float(q.x), float(q.y), float(q.z), float(q.w))
}

fn four(x: f32, y: f32, z: f32, w: f32) -> numeric::Quat {
    numeric::Quat {
        x: single(x),
        y: single(y),
        z: single(z),
        w: single(w),
    }
}

fn mat4(m: numeric::Mat4) -> Mat4 {
    let col = |c: numeric::Quat| [float(c.x), float(c.y), float(c.z), float(c.w)];
    Mat4::from_cols_array_2d(&[col(m.c0), col(m.c1), col(m.c2), col(m.c3)])
}

fn matrix(m: Mat4) -> numeric::Mat4 {
    let c = m.to_cols_array_2d();
    let col = |a: [f32; 4]| four(a[0], a[1], a[2], a[3]);
    numeric::Mat4 {
        c0: col(c[0]),
        c1: col(c[1]),
        c2: col(c[2]),
        c3: col(c[3]),
    }
}

fn compose(t: Transform) -> Mat4 {
    Mat4::from_scale_rotation_translation(vec3(t.scale), quat(t.rotation), vec3(t.translation))
}

fn decompose(m: Mat4) -> Transform {
    let (scale, rot, trans) = m.to_scale_rotation_translation();
    Transform {
        translation: point(trans),
        rotation: four(rot.x, rot.y, rot.z, rot.w),
        scale: point(scale),
    }
}

fn at_value(x: f32) -> Answer {
    Answer {
        value: single(x),
        ..Answer::blank()
    }
}

fn at_point(v: Vec3) -> Answer {
    Answer {
        point: point(v),
        ..Answer::blank()
    }
}

fn at_matrix(m: Mat4) -> Answer {
    Answer {
        matrix: matrix(m),
        ..Answer::blank()
    }
}

fn at_pose(pose: Transform) -> Answer {
    Answer {
        pose,
        ..Answer::blank()
    }
}

/// Floating point: every computation that the library asks for.
fn calc(op: Calc) -> Answer {
    match op {
        Calc::Compose(t) => at_matrix(compose(t)),
        Calc::Product(a, b) => at_matrix(mat4(a) * mat4(b)),
        Calc::Invert(m) => at_matrix(mat4(m).inverse()),
        Calc::Decompose(m) => at_pose(decompose(mat4(m))),
        Calc::Shift(t) => at_matrix(Mat4::from_translation(vec3(t))),
        Calc::Sum(a, b) => at_point(vec3(a) + vec3(b)),
        Calc::Shrink(a, n) => at_point(vec3(a) / n as f32),
        Calc::Stretch(a, b) => at_point(vec3(a) * vec3(b)),
        Calc::LengthSquared(a) => at_value(vec3(a).length_squared()),
        Calc::Distance(a, b) => at_value((vec3(a) - vec3(b)).length()),
        Calc::Add(a, b) => at_value(float(a) + float(b)),
        Calc::Subtract(a, b) => at_value(float(a) - float(b)),
        Calc::Multiply(a, b) => at_value(float(a) * float(b)),
        Calc::Divide(a, b) => at_value(float(a) / float(b)),
        Calc::Count(n) => at_value(n as f32),
        Calc::Round(a) => Answer {
            count: float(a).round() as u32,
            ..Answer::blank()
        },
        Calc::Floor(a) => at_value(float(a).floor()),
        Calc::Root(a) => at_value(float(a).sqrt()),
        Calc::Sine(a) => at_value(float(a).sin()),
        Calc::Cosine(a) => at_value(float(a).cos()),
        Calc::Tangent(a) => at_value(float(a).tan()),
        Calc::ArcSine(a) => at_value(float(a).asin()),
        Calc::ArcTangent(y, x) => at_value(float(y).atan2(float(x))),
        Calc::Degrees(a) => at_value(float(a).to_degrees()),
        Calc::Radians(a) => at_value(float(a).to_radians()),
        Calc::Gap(a, b) => at_point(vec3(a) - vec3(b)),
        Calc::Scale(a, k) => at_point(vec3(a) * float(k)),
        Calc::Cross(a, b) => at_point(vec3(a).cross(vec3(b))),
        Calc::Unit(a) => {
            let way = vec3(a).try_normalize();
            let mut r = at_point(way.unwrap_or(Vec3::NAN));
            r.holds = way.is_some();
            r
        }
        Calc::View(eye, target, up) => at_matrix(Mat4::look_at_rh(vec3(eye), vec3(target), vec3(up))),
        Calc::Perspective(fov, aspect, near, far) => at_matrix(Mat4::perspective_rh(
            float(fov),
            float(aspect),
            float(near),
            float(far),
        )),
        Calc::Parallel(half, near, far) => {
            let h = float(half);
            at_matrix(Mat4::orthographic_rh(-h, h, -h, h, float(near), float(far)))
        }
        Calc::Move(m, p) => at_point(mat4(m).transform_point3(vec3(p))),
        Calc::Clip(m, p) => {
            let c = mat4(m) * vec3(p).extend(1.0);
            let mut a = Answer::blank();
            a.pose.rotation = four(c.x, c.y, c.z, c.w);
            a
        }
    }
}

/// A number with so many decimals, or in its shortest form.
fn show(x: Real, decimals: u8) -> String {
    if decimals == numeric::SHORTEST {
        format!("{}", float(x))
    } else {
        format!("{:.*}", decimals as usize, float(x))
    }
}

/// The number that a JSON notation stands for.
fn read_number(notation: &str) -> Real {
    single(notation.parse::<f64>().unwrap_or(0.0) as f32)
}

/// The number that a socket's notation stands for. Whole numbers are rounded once.
fn read_socket(notation: &str) -> Real {
    if let Ok(n) = notation.parse::<u64>() {
        return single(n as f32);
    }
    match notation.parse::<i64>() {
        Ok(n) => single(n as f32),
        Err(_) => read_number(notation),
    }
}

/// The number that an argument stands for, if it is one.
fn parse_number(text: &str) -> Option<Real> {
    text.parse::<f32>().ok().map(single)
}
