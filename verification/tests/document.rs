//! The document: changes, history, layout, graphs and validation.

#![allow(dead_code, unused_imports)]

use glam::{Mat4, Quat, Vec3};
use thinner_floor::numeric::{self, Answer, Calc, Real, Transform};
use thinner_floor::apply::{ApplyRequest, ApplyResult};
use thinner_floor::beauty::{forecast_from_frames, BeautyFrame, PixelForecast};
use thinner_floor::change::ApplyChange;
use thinner_floor::document::{Document, Entity, Material, MeshRecipe, Scene};
use thinner_floor::light::SceneLight;
use thinner_floor::numeric::Rgba;
use thinner_floor::layout::{hash_u64, positions};
use thinner_floor::store::DocumentStore;
use thinner_floor::validate::ValidateDiag;
use thinner_floor::table::Table;

fn sample_box(id: &str, color: [f32; 4]) -> Entity {
    boxed(id, [0.0, 0.0, 0.0], [1.0, 1.0, 1.0], color)
}

#[test]
fn apply_create_then_patch_color_increments_revision() {
    let mut doc = document(0, vec![]);
    let create = request(
        0,
        "create-box",
        "create mesh",
        vec![ApplyChange::CreateMesh {
            entity: sample_box("box-1", [1.0, 0.0, 0.0, 1.0]),
        }],
    );
    let r1 = apply(&mut doc, &create);
    assert!(r1.ok);
    assert!(!r1.idempotent);
    assert_eq!(r1.revision, 1);
    assert_eq!(doc.revision, 1);
    assert_eq!(color_of(&doc, "box-1"), [1.0, 0.0, 0.0, 1.0]);

    let patch = request(1, "paint-blue", "patch color", vec![paint("box-1", [0.2, 0.4, 0.9, 1.0])]);
    let r2 = apply(&mut doc, &patch);
    assert!(r2.ok);
    assert_eq!(r2.revision, 2);
    assert_eq!(color_of(&doc, "box-1"), [0.2, 0.4, 0.9, 1.0]);
}

#[test]
fn reject_stale_base_revision() {
    let mut doc = Document::bootstrap();
    assert_eq!(doc.revision, 1);
    let bad = request(0, "stale", "too old", vec![paint("box-1", [0.0, 1.0, 0.0, 1.0])]);
    let r = apply(&mut doc, &bad);
    assert!(!r.ok);
    assert_eq!(r.error.as_deref(), Some("revision_conflict"));
    assert_eq!(r.code.as_deref(), Some("revision_conflict"));
    assert_eq!(r.current_revision, Some(1));
    assert_eq!(doc.revision, 1);
    assert_eq!(color_of(&doc, "box-1"), [0.86, 0.34, 0.22, 1.0]);
}

#[test]
fn idempotency_key_replay_is_noop() {
    let mut doc = Document::bootstrap();
    let req = request(1, "once", "paint", vec![paint("box-1", [0.1, 0.8, 0.3, 1.0])]);
    let first = apply(&mut doc, &req);
    assert!(first.ok && !first.idempotent);
    assert_eq!(doc.revision, 2);
    let second = apply(&mut doc, &req);
    assert!(second.ok && second.idempotent);
    assert_eq!(second.code.as_deref(), Some("idempotency_reused"));
    assert_eq!(second.revision, 2);
    assert_eq!(doc.revision, 2);
}

#[test]
fn dry_run_does_not_commit() {
    let mut doc = Document::bootstrap();
    let mut req = request(1, "dry-blue", "dry paint", vec![paint("box-1", [0.2, 0.45, 0.9, 1.0])]);
    req.dry_run = true;
    let r = apply(&mut doc, &req);
    assert!(r.ok);
    assert!(r.dry_run);
    assert_eq!(doc.revision, 1);
    assert_eq!(color_of(&doc, "box-1"), [0.86, 0.34, 0.22, 1.0]);
    assert!(!doc.idempotency_log.contains(&"dry-blue".to_string()));
    let f = r.pixel_forecast.expect("pixelForecast on dry-run");
    assert!(f.pixels_will_move);
    assert!(f.changed_pixels > 0);
}

#[test]
fn dry_run_same_color_forecasts_no_move() {
    let mut doc = Document::bootstrap();
    let terracotta = color_of(&doc, "box-1");
    let mut req = request(1, "dry-same", "same color", vec![paint("box-1", terracotta)]);
    req.dry_run = true;
    let r = apply(&mut doc, &req);
    assert!(r.ok);
    let f = r.pixel_forecast.expect("forecast");
    assert!(!f.pixels_will_move);
}

#[test]
fn dollar_alias_create_then_patch_stores_canonical_id() {
    let mut doc = document(0, vec![]);
    let req = request(
        0,
        "alias-1",
        "create $hero then paint",
        vec![
            ApplyChange::CreateMesh {
                entity: sample_box("$hero", [1.0, 0.0, 0.0, 1.0]),
            },
            paint("$hero", [0.1, 0.8, 0.2, 1.0]),
        ],
    );
    let r = apply(&mut doc, &req);
    assert!(r.ok, "{r:?}");
    assert!(doc.find_entity("$hero").is_none());
    assert!(doc.find_entity("hero").is_some());
    assert_eq!(color_of(&doc, "hero"), [0.1, 0.8, 0.2, 1.0]);
}

#[test]
fn undo_redo_are_new_revisions() {
    let mut store = DocumentStore::with_document("doc.json".to_string(), Document::bootstrap());
    assert_eq!(store.document.revision, 1);
    let req = request(1, "u1", "paint", vec![paint("box-1", [0.0, 1.0, 0.0, 1.0])]);
    assert!(store.apply(&req, &calc, &forecast).ok);
    assert_eq!(store.document.revision, 2);
    assert_eq!(color_of(&store.document, "box-1")[1], 1.0);

    let u = store.undo();
    assert!(u.ok);
    assert_eq!(u.revision, 3);
    assert_eq!(store.document.revision, 3);
    assert_eq!(color_of(&store.document, "box-1"), [0.86, 0.34, 0.22, 1.0]);

    let r = store.redo();
    assert!(r.ok);
    assert_eq!(r.revision, 4);
    assert_eq!(store.document.revision, 4);
    assert_eq!(color_of(&store.document, "box-1")[1], 1.0);
}

#[test]
fn project_create_writes_bootstrap_and_refuses_existing() {
    let mut store = DocumentStore::with_document("old.json".to_string(), Document::bootstrap());
    let refused = store.project_create("old.json".to_string(), true);
    assert_eq!(refused.error.as_deref(), Some("project_exists"));
    let created = store.project_create("new.json".to_string(), false);
    assert!(created.ok, "{created:?}");
    assert_eq!(created.revision, 1);
    assert_eq!(created.entity_count, 2);
    assert_eq!(store.document.revision, 1);
    assert_eq!(store.undo_depth(), 0);
    assert_eq!(store.path, "new.json");
}

#[test]
fn layout_linear_then_group_preserves_world() {
    let mut doc = Document::bootstrap();
    let req = request(
        1,
        "lay",
        "row",
        vec![ApplyChange::LayoutPattern {
            pattern: "linear".to_string(),
            count: 3,
            origin: v3([3.0, 0.5, 0.0]),
            spacing: single(1.5),
            columns: 0,
            seed: 0,
            id_prefix: "row".to_string(),
            color: rgba([0.1, 0.8, 0.2, 1.0]),
            size: None,
        }],
    );
    assert!(apply(&mut doc, &req).ok);
    let w0 = floats(doc.world_translation("row-0", &calc).unwrap());
    let grp = request(
        2,
        "g",
        "group row",
        vec![ApplyChange::Group {
            group_id: "row-g".to_string(),
            member_ids: vec!["row-0".to_string(), "row-1".to_string(), "row-2".to_string()],
        }],
    );
    assert!(apply(&mut doc, &grp).ok);
    assert_eq!(doc.find_entity("row-0").unwrap().parent.as_deref(), Some("row-g"));
    let w1 = floats(doc.world_translation("row-0", &calc).unwrap());
    assert!((w0[0] - w1[0]).abs() < 1e-4);
    let un = request(
        3,
        "u",
        "ungroup",
        vec![ApplyChange::Ungroup {
            group_id: "row-g".to_string(),
        }],
    );
    assert!(apply(&mut doc, &un).ok);
    assert!(doc.find_entity("row-g").is_none());
    assert!(doc.find_entity("row-0").unwrap().parent.is_none());
    let w2 = floats(doc.world_translation("row-0", &calc).unwrap());
    assert!((w0[0] - w2[0]).abs() < 1e-4);
}

#[test]
fn group_rotation_orbits_children() {
    let mut doc = Document::bootstrap();
    let mut a = sample_box("a", [1.0, 0.0, 0.0, 1.0]);
    a.transform.translation = v3([1.0, 0.5, 0.0]);
    let mut b = sample_box("b", [0.0, 1.0, 0.0, 1.0]);
    b.transform.translation = v3([-1.0, 0.5, 0.0]);
    let two = request(
        1,
        "ab",
        "two",
        vec![
            ApplyChange::CreateMesh { entity: a },
            ApplyChange::CreateMesh { entity: b },
        ],
    );
    assert!(apply(&mut doc, &two).ok);
    let grp = request(
        2,
        "g",
        "g",
        vec![ApplyChange::Group {
            group_id: "spin".to_string(),
            member_ids: vec!["a".to_string(), "b".to_string()],
        }],
    );
    assert!(apply(&mut doc, &grp).ok);
    let q = Quat::from_rotation_y(std::f32::consts::FRAC_PI_2);
    let spin = request(
        3,
        "r",
        "spin 90",
        vec![ApplyChange::PatchRotation {
            entity_id: "spin".to_string(),
            rotation: four(q.x, q.y, q.z, q.w),
        }],
    );
    assert!(apply(&mut doc, &spin).ok);
    let wa = floats(doc.world_translation("a", &calc).unwrap());
    assert!(wa[1] > 0.4 && wa[1] < 0.6);
    assert!(wa[0].abs() < 0.2 || wa[2].abs() > 0.7);
}

#[test]
fn create_plane_and_sphere() {
    let mut doc = Document::bootstrap();
    let mut plane = sample_box("pad", [0.2, 0.5, 0.3, 1.0]);
    plane.mesh.recipe = "plane".to_string();
    plane.mesh.size = v3([3.0, 0.0, 3.0]);
    plane.transform.translation = v3([0.0, 0.0, 3.0]);
    let mut sph = sample_box("ball", [0.9, 0.2, 0.2, 1.0]);
    sph.mesh.recipe = "sphere".to_string();
    sph.transform.translation = v3([2.0, 0.8, 0.0]);
    let r = apply(
        &mut doc,
        &request(
            1,
            "ps",
            "plane sphere",
            vec![
                ApplyChange::CreateMesh { entity: plane },
                ApplyChange::CreateMesh { entity: sph },
            ],
        ),
    );
    assert!(r.ok, "{r:?}");
    assert_eq!(doc.find_entity("pad").unwrap().mesh.recipe, "plane");
    assert_eq!(doc.find_entity("ball").unwrap().mesh.recipe, "sphere");
}

fn graph_create(id: &str) -> ApplyChange {
    ApplyChange::GraphCreate {
        graph_id: id.to_string(),
    }
}

fn graph_patch(id: &str, socket: &str, value: f32) -> ApplyChange {
    ApplyChange::GraphPatch {
        graph_id: id.to_string(),
        node_id: "principled".to_string(),
        socket: socket.to_string(),
        value: single(value),
    }
}

fn graph_bind(id: &str, entity: &str) -> ApplyChange {
    ApplyChange::GraphBind {
        graph_id: id.to_string(),
        entity_id: entity.to_string(),
    }
}

#[test]
fn graph_patch_is_socket_level() {
    let mut doc = Document::bootstrap();
    assert!(apply(&mut doc, &request(1, "gc", "graph", vec![graph_create("mat-1")])).ok);
    let rough = request(2, "gp", "rough", vec![graph_patch("mat-1", "roughness", 0.2)]);
    assert!(apply(&mut doc, &rough).ok);
    let n = &doc.graphs[0].nodes[0];
    assert!((float(*n.sockets.get("roughness").unwrap()) - 0.2).abs() < 1e-6);
    assert!((float(*n.sockets.get("transmission").unwrap()) - 0.0).abs() < 1e-6);
    let bad = request(3, "bad", "bad socket", vec![graph_patch("mat-1", "nope", 1.0)]);
    assert!(apply(&mut doc, &bad).error.unwrap().contains("unknown_socket"));
}

#[test]
fn graph_bind_evaluates_principled_color() {
    let mut doc = Document::bootstrap();
    assert!(apply(&mut doc, &request(1, "gc", "graph", vec![graph_create("mat-1")])).ok);
    assert!(apply(&mut doc, &request(2, "gb", "bind", vec![graph_bind("mat-1", "box-1")])).ok);
    let s0 = doc.resolved_surface(doc.find_entity("box-1").unwrap());
    assert!((float(s0.color.r) - 0.86).abs() < 1e-5);
    let green = request(3, "gp", "green", vec![graph_patch("mat-1", "base_color_g", 0.9)]);
    assert!(apply(&mut doc, &green).ok);
    let s = doc.resolved_surface(doc.find_entity("box-1").unwrap());
    assert!((float(s.color.g) - 0.9).abs() < 1e-5);
    assert!(doc.validate().ok);
}

#[test]
fn validate_flags_dangling_graph() {
    let mut doc = Document::bootstrap();
    doc.find_entity_mut("box-1").unwrap().graph_id = Some("nope".to_string());
    let v = doc.validate();
    assert!(!v.ok);
    assert!(v.diagnostics.iter().any(|d| d.code == "missing_graph"));
}

#[test]
fn patch_light_toggles_shadows() {
    let mut doc = Document::bootstrap();
    assert!(doc.light.shadows);
    let off = request(
        1,
        "sh-off",
        "shadows off",
        vec![ApplyChange::PatchLight {
            direction: None,
            shadows: Some(false),
        }],
    );
    assert!(apply(&mut doc, &off).ok);
    assert!(!doc.light.shadows);
    assert_eq!(doc.revision, 2);
}

#[test]
fn linear_is_evenly_spaced() {
    let p = positions("linear", 3, v3([0.0, 0.5, 0.0]), single(2.0), 0, 0, &calc).unwrap();
    assert_eq!(floats(p[0]), [0.0, 0.5, 0.0]);
    assert_eq!(floats(p[2]), [4.0, 0.5, 0.0]);
}

#[test]
fn layout_refuses_what_it_cannot_lay_out() {
    let o = v3([0.0, 0.0, 0.0]);
    assert_eq!(positions("linear", 0, o, single(1.0), 0, 0, &calc).unwrap_err(), "layout_count");
    assert_eq!(positions("linear", 129, o, single(1.0), 0, 0, &calc).unwrap_err(), "layout_count");
    assert_eq!(
        positions("spiral", 3, o, single(1.0), 0, 0, &calc).unwrap_err(),
        "unknown_layout_pattern:spiral"
    );
    let grid = positions("grid", 5, o, single(2.0), 2, 0, &calc).unwrap();
    assert_eq!(floats(grid[4]), [0.0, 0.0, 4.0]);
    assert_eq!(floats(grid[3]), [2.0, 0.0, 2.0]);
    let close = positions("linear", 2, o, single(0.0), 0, 0, &calc).unwrap();
    assert_eq!(floats(close[1]), [0.05, 0.0, 0.0]);
    let a = positions("seeded_scatter", 4, o, single(3.0), 0, 7, &calc).unwrap();
    let b = positions("seeded_scatter", 4, o, single(3.0), 0, 7, &calc).unwrap();
    assert_eq!(a, b);
    let h = hash_u64(7 ^ 2u64.wrapping_mul(0x9E37_79B9_7F4A_7C15));
    let x = (h as f32 / u64::MAX as f32) * 2.0 - 1.0;
    let z = ((h >> 32) as f32 / u32::MAX as f32) * 2.0 - 1.0;
    assert_eq!(floats(a[2]), [x * 3.0, 0.0, z * 3.0]);
    let ring = positions("radial", 4, o, single(1.0), 0, 0, &calc).unwrap();
    assert!((float(ring[0].x) - 4.0 / std::f32::consts::TAU).abs() < 1e-6);
}

#[test]
fn requests_are_refused_with_a_code() {
    let mut doc = Document::bootstrap();
    let many: Vec<ApplyChange> = (0..129).map(|_| paint("box-1", [0.0, 0.0, 0.0, 1.0])).collect();
    let r = apply(&mut doc, &request(1, "k", "many", many));
    assert_eq!(r.error.as_deref(), Some("too_many_ops:129"));
    assert_eq!(r.code.as_deref(), Some("too_many_ops"));
    let r = apply(&mut doc, &request(1, "", "no key", vec![]));
    assert_eq!(r.code.as_deref(), Some("empty_idempotency_key"));
    let r = apply(&mut doc, &request(1, "k", "ghost", vec![paint("ghost", [0.0, 0.0, 0.0, 1.0])]));
    assert_eq!(r.code.as_deref(), Some("apply_failed"));
    assert_eq!(r.error.as_deref(), Some("unknown_entity:ghost"));
    assert_eq!(doc.revision, 1);
}

#[test]
fn a_failing_change_leaves_nothing_behind() {
    let mut doc = Document::bootstrap();
    let before = doc.clone();
    let half = request(
        1,
        "half",
        "half",
        vec![paint("box-1", [0.0, 0.0, 0.0, 1.0]), paint("ghost", [0.0, 0.0, 0.0, 1.0])],
    );
    assert!(!apply(&mut doc, &half).ok);
    assert_eq!(doc, before);
}

#[test]
fn zero_light_direction_is_refused() {
    let mut doc = Document::bootstrap();
    let dark = request(
        1,
        "z",
        "zero",
        vec![ApplyChange::PatchLight {
            direction: Some(v3([0.0, 0.0, 0.0])),
            shadows: None,
        }],
    );
    assert_eq!(apply(&mut doc, &dark).error.as_deref(), Some("light_direction_zero"));
}

#[test]
fn the_key_log_forgets_the_oldest() {
    let mut doc = Document::bootstrap();
    for i in 0..300u64 {
        let req = request(1 + i, &format!("k{i}"), "paint", vec![paint("box-1", [0.5, 0.5, 0.5, 1.0])]);
        assert!(apply(&mut doc, &req).ok);
    }
    assert_eq!(doc.idempotency_log.len(), 256);
    assert_eq!(doc.idempotency_log[0], "k44");
    let forgotten = request(301, "k0", "paint", vec![paint("box-1", [0.1, 0.5, 0.5, 1.0])]);
    assert!(!apply(&mut doc, &forgotten).idempotent);
}

#[test]
fn history_is_capped_and_commits_end_redo() {
    let mut store = DocumentStore::with_document("doc.json".to_string(), Document::bootstrap());
    assert_eq!(store.undo().error.as_deref(), Some("empty_undo"));
    assert_eq!(store.redo().error.as_deref(), Some("empty_redo"));
    for i in 0..70u64 {
        let req = request(1 + i, &format!("k{i}"), "paint", vec![paint("box-1", [0.5, 0.5, 0.5, 1.0])]);
        assert!(store.apply(&req, &calc, &forecast).ok);
    }
    assert_eq!(store.undo_depth(), 64);
    assert_eq!(store.history_list().entries.len(), 64);
    assert!(store.undo().ok);
    assert_eq!(store.redo_depth(), 1);
    let next = request(store.document.revision, "new", "new", vec![paint("box-1", [0.1, 0.5, 0.5, 1.0])]);
    assert!(store.apply(&next, &calc, &forecast).ok);
    assert_eq!(store.redo_depth(), 0);
}

#[test]
fn an_invalid_import_is_refused() {
    let mut store = DocumentStore::with_document("doc.json".to_string(), Document::bootstrap());
    let mut bad = Document::bootstrap();
    bad.find_entity_mut("box-1").unwrap().parent = Some("nobody".to_string());
    let err = store.import_document("x.gltf".to_string(), bad).unwrap_err();
    assert_eq!(err, "import_invalid:missing_parent");
    let ok = store.import_document("x.gltf".to_string(), Document::bootstrap()).unwrap();
    assert_eq!(ok.revision, 2);
    assert_eq!(ok.entity_count, 2);
    assert_eq!(store.undo_depth(), 1);
}

#[test]
fn parent_cycles_are_found() {
    let mut a = sample_box("a", [1.0, 0.0, 0.0, 1.0]);
    a.parent = Some("b".to_string());
    let mut b = sample_box("b", [1.0, 0.0, 0.0, 1.0]);
    b.parent = Some("a".to_string());
    let doc = document(1, vec![a, b]);
    assert!(!doc.is_drawable());
    assert!(doc.validate().diagnostics.iter().any(|d: &ValidateDiag| d.code == "parent_cycle"));
    assert!(Document::bootstrap().is_drawable());
}

#[test]
fn validate_names_each_fault() {
    let mut odd = sample_box("odd", [1.0, 0.0, 0.0, 1.0]);
    odd.mesh.recipe = "cone".to_string();
    let twice = sample_box("odd", [1.0, 0.0, 0.0, 1.0]);
    let doc = document(1, vec![odd, twice]);
    let codes: Vec<String> = doc.validate().diagnostics.iter().map(|d| d.code.clone()).collect();
    assert!(codes.contains(&"duplicate_entity_id".to_string()), "{codes:?}");
    assert!(codes.contains(&"unknown_recipe".to_string()), "{codes:?}");
}

#[test]
fn an_import_can_be_undone() {
    let mut store = DocumentStore::with_document("project.json".to_string(), Document::bootstrap());
    let fresh = document(9, vec![sample_box("only", [1.0; 4])]);
    assert!(store.import_document("x.gltf".to_string(), fresh).is_ok());
    assert_eq!(store.document.entity_count(), 1);
    let after = store.document.revision;
    assert!(store.undo().ok);
    assert_eq!(store.document.revision, after + 1);
    assert_eq!(store.document.scenes, Document::bootstrap().scenes);
}

#[test]
fn reloading_keeps_the_history() {
    let mut store = DocumentStore::with_document("project.json".to_string(), Document::bootstrap());
    let req = request(1, "k", "paint", vec![paint("box-1", [0.5; 4])]);
    assert!(store.apply(&req, &calc, &forecast).ok);
    store.reload(document(7, vec![]));
    assert_eq!((store.document.revision, store.document.entity_count()), (7, 0));
    assert_eq!(store.undo_depth(), 1);
}

#[test]
fn world_matrices_follow_long_chains() {
    let mut entities = Vec::new();
    for i in 0..40 {
        let mut e = boxed(&format!("e{i}"), [1.0, 0.0, 0.0], [1.0; 3], [1.0; 4]);
        if i > 0 {
            e.parent = Some(format!("e{}", i - 1));
        }
        entities.push(e);
    }
    let mut doc = document(1, entities);
    assert!(doc.validate().ok);
    for i in [0, 31, 32, 33, 39] {
        let place = doc.world_translation(&format!("e{i}"), &calc).unwrap();
        assert_eq!(floats(place), [i as f32 + 1.0, 0.0, 0.0]);
    }
    let child = doc.world_matrix("e39", &calc).unwrap();
    let parent = doc.world_matrix("e38", &calc).unwrap();
    let local = Document::local_matrix(&doc.find_entity("e39").unwrap().transform, &calc);
    assert_eq!(child, calc(Calc::Product(parent, local)).matrix);
    assert_eq!(doc.world_matrix("nobody", &calc), None);
    doc.find_entity_mut("e0").unwrap().parent = Some("gone".to_string());
    assert_eq!(doc.world_matrix("e39", &calc), None);
    doc.find_entity_mut("e0").unwrap().parent = Some("e1".to_string());
    let round = doc.world_translation("e1", &calc).unwrap();
    assert_eq!(floats(round), [32.0, 0.0, 0.0]);
}

#[test]
fn ungrouping_gives_back_what_was_grouped() {
    let mut doc = document(
        1,
        vec![
            boxed("a", [1.0, 0.0, 2.0], [1.0; 3], [1.0; 4]),
            boxed("b", [3.0, 4.0, 0.0], [1.0; 3], [1.0; 4]),
            boxed("c", [5.0, 0.0, 0.0], [1.0; 3], [1.0; 4]),
        ],
    );
    let ids = |d: &Document| d.entities().iter().map(|e| e.id.clone()).collect::<Vec<_>>();
    let before = ids(&doc);
    let places: Vec<_> = ["a", "b", "c"].map(|i| floats(doc.world_translation(i, &calc).unwrap())).to_vec();
    let group = ApplyChange::Group {
        group_id: "$g".to_string(),
        member_ids: vec!["a".to_string(), "b".to_string(), "a".to_string()],
    };
    assert!(apply(&mut doc, &request(1, "k1", "group", vec![group])).ok);
    assert_eq!(doc.find_entity("a").unwrap().parent.as_deref(), Some("g"));
    let ungroup = ApplyChange::Ungroup {
        group_id: "g".to_string(),
    };
    assert!(apply(&mut doc, &request(2, "k2", "ungroup", vec![ungroup])).ok);
    assert_eq!(ids(&doc), before);
    assert!(doc.find_entity("g").is_none());
    for (i, id) in ["a", "b", "c"].iter().enumerate() {
        assert_eq!(doc.find_entity(id).unwrap().parent, None);
        let now = floats(doc.world_translation(id, &calc).unwrap());
        for axis in 0..3 {
            assert!((now[axis] - places[i][axis]).abs() < 1e-4);
        }
    }
}

fn stand(id: &str) -> Entity {
    let turn = Quat::from_rotation_y(0.5);
    let mut e = boxed(id, [3.0, 1.0, -2.0], [1.0; 3], [1.0; 4]);
    e.transform.rotation = four(turn.x, turn.y, turn.z, turn.w);
    e.transform.scale = v3([2.0, 2.0, 2.0]);
    e
}

fn world_pose(doc: &Document, id: &str) -> numeric::Transform {
    calc(numeric::Calc::Decompose(doc.world_matrix(id, &calc).unwrap())).pose
}

fn near(a: [f32; 3], b: [f32; 3]) -> bool {
    (0..3).all(|i| (a[i] - b[i]).abs() < 1e-4)
}

#[test]
fn members_stay_where_they_are_when_grouped() {
    let mut child = boxed("a", [1.0, 0.0, 2.0], [1.0; 3], [1.0; 4]);
    child.parent = Some("stand".to_string());
    let mut doc = document(1, vec![stand("stand"), child, boxed("b", [3.0, 4.0, 0.0], [1.0; 3], [1.0; 4])]);
    let before = ["a", "b"].map(|i| world_pose(&doc, i));
    let group = ApplyChange::Group {
        group_id: "g".to_string(),
        member_ids: vec!["a".to_string(), "b".to_string()],
    };
    assert!(apply(&mut doc, &request(1, "k", "group", vec![group])).ok);
    for (i, id) in ["a", "b"].iter().enumerate() {
        assert_eq!(doc.find_entity(id).unwrap().parent.as_deref(), Some("g"));
        let now = world_pose(&doc, id);
        assert!(near(floats(now.translation), floats(before[i].translation)));
        assert!(near(floats(now.scale), floats(before[i].scale)));
        assert!((float(now.rotation.y) - float(before[i].rotation.y)).abs() < 1e-4);
    }
}

#[test]
fn entities_move_and_turn_in_the_world() {
    let mut child = boxed("child", [1.0, 0.0, 2.0], [1.0; 3], [1.0; 4]);
    child.parent = Some("stand".to_string());
    let mut doc = document(1, vec![stand("stand"), child]);
    let shift = ApplyChange::PatchTranslation {
        entity_id: "child".to_string(),
        translation: v3([-4.0, 6.0, 0.5]),
    };
    assert!(apply(&mut doc, &request(1, "m", "move", vec![shift])).ok);
    assert!(near(floats(world_pose(&doc, "child").translation), [-4.0, 6.0, 0.5]));
    assert!(!near(floats(doc.find_entity("child").unwrap().transform.translation), [-4.0, 6.0, 0.5]));
    let turn = Quat::from_rotation_y(1.25);
    let spin = ApplyChange::PatchRotation {
        entity_id: "child".to_string(),
        rotation: four(turn.x, turn.y, turn.z, turn.w),
    };
    assert!(apply(&mut doc, &request(2, "t", "turn", vec![spin])).ok);
    let now = world_pose(&doc, "child");
    assert!((float(now.rotation.y) - turn.y).abs() < 1e-4);
    assert!((float(now.rotation.w) - turn.w).abs() < 1e-4);
    assert!(near(floats(now.translation), [-4.0, 6.0, 0.5]));
    let own = doc.find_entity("child").unwrap().transform.rotation;
    assert!((float(own.y) - Quat::from_rotation_y(0.75).y).abs() < 1e-4);
}

#[test]
fn a_replayed_dry_run_has_no_forecast() {
    let mut doc = Document::bootstrap();
    let mut req = request(1, "k", "paint", vec![paint("box-1", [0.5; 4])]);
    assert!(apply(&mut doc, &req).ok);
    req.dry_run = true;
    let again = apply(&mut doc, &req);
    assert!(again.ok && again.idempotent && again.dry_run);
    assert_eq!(again.pixel_forecast, None);
}

#[test]
fn tables_keep_their_keys_in_order() {
    let mut t = Table::new();
    for (key, x) in [("roughness", 0.5), ("base", 1.0), ("b", 2.0), ("base", 3.0), ("\u{e9}", 4.0)] {
        t.insert(key, single(x));
    }
    let keys: Vec<_> = t.rows.iter().map(|r| r.0.as_str()).collect();
    assert_eq!(keys, ["b", "base", "roughness", "\u{e9}"]);
    assert_eq!(t.get("base").map(|x| float(*x)), Some(3.0));
    assert!(t.get("metallic").is_none());
    let mut u = Table::new();
    for (key, x) in [("\u{e9}", 4.0), ("b", 2.0), ("base", 3.0), ("roughness", 0.5)] {
        u.insert(key, single(x));
    }
    assert_eq!(t, u);
}

fn v3(a: [f32; 3]) -> numeric::Vec3 {
    numeric::Vec3 {
        x: single(a[0]),
        y: single(a[1]),
        z: single(a[2]),
    }
}

fn rgba(a: [f32; 4]) -> Rgba {
    Rgba {
        r: single(a[0]),
        g: single(a[1]),
        b: single(a[2]),
        a: single(a[3]),
    }
}

fn floats(v: numeric::Vec3) -> [f32; 3] {
    [float(v.x), float(v.y), float(v.z)]
}

fn color_of(doc: &Document, id: &str) -> [f32; 4] {
    let c = doc.find_entity(id).unwrap().material.color;
    [float(c.r), float(c.g), float(c.b), float(c.a)]
}

fn boxed(id: &str, t: [f32; 3], size: [f32; 3], color: [f32; 4]) -> Entity {
    Entity {
        id: id.to_string(),
        kind: "mesh".to_string(),
        transform: numeric::at(v3(t)),
        mesh: MeshRecipe {
            recipe: "box".to_string(),
            size: v3(size),
        },
        material: Material { color: rgba(color) },
        parent: None,
        graph_id: None,
    }
}

fn document(revision: u64, entities: Vec<Entity>) -> Document {
    Document {
        revision,
        scenes: vec![Scene {
            id: "main".to_string(),
            entities,
        }],
        idempotency_log: vec![],
        graphs: vec![],
        light: SceneLight::default(),
    }
}

fn request(base_revision: u64, key: &str, label: &str, changes: Vec<ApplyChange>) -> ApplyRequest {
    ApplyRequest {
        base_revision,
        idempotency_key: key.to_string(),
        label: label.to_string(),
        changes,
        dry_run: false,
    }
}

fn paint(id: &str, color: [f32; 4]) -> ApplyChange {
    ApplyChange::PatchColor {
        entity_id: id.to_string(),
        color: rgba(color),
    }
}

/// A picture of one row: the colours of the entities in order.
fn swatches(doc: &Document) -> BeautyFrame {
    let mut bytes = Vec::new();
    for e in doc.entities() {
        let c = e.material.color;
        for x in [c.r, c.g, c.b, c.a] {
            bytes.push((float(x) * 255.0) as u8);
        }
    }
    BeautyFrame {
        width: (bytes.len() / 4) as u32,
        height: 1,
        rgba: bytes,
        revision: doc.revision,
        camera: "authored".to_string(),
    }
}

fn forecast(before: &Document, after: &Document) -> Option<PixelForecast> {
    Some(forecast_from_frames(&swatches(before), &swatches(after)))
}

fn apply(doc: &mut Document, req: &ApplyRequest) -> ApplyResult {
    doc.apply(req, &calc, &forecast)
}

fn single(x: f32) -> Real {
    Real { bits: x.to_bits() }
}

fn float(r: Real) -> f32 {
    f32::from_bits(r.bits)
}

fn vec3(v: numeric::Vec3) -> Vec3 {
    Vec3::new(float(v.x), float(v.y), float(v.z))
}

fn point(v: Vec3) -> numeric::Vec3 {
    numeric::Vec3 {
        x: single(v.x),
        y: single(v.y),
        z: single(v.z),
    }
}

fn quat(q: numeric::Quat) -> Quat {
    Quat::from_xyzw(float(q.x), float(q.y), float(q.z), float(q.w))
}

fn four(x: f32, y: f32, z: f32, w: f32) -> numeric::Quat {
    numeric::Quat {
        x: single(x),
        y: single(y),
        z: single(z),
        w: single(w),
    }
}

fn mat4(m: numeric::Mat4) -> Mat4 {
    let col = |c: numeric::Quat| [float(c.x), float(c.y), float(c.z), float(c.w)];
    Mat4::from_cols_array_2d(&[col(m.c0), col(m.c1), col(m.c2), col(m.c3)])
}

fn matrix(m: Mat4) -> numeric::Mat4 {
    let c = m.to_cols_array_2d();
    let col = |a: [f32; 4]| four(a[0], a[1], a[2], a[3]);
    numeric::Mat4 {
        c0: col(c[0]),
        c1: col(c[1]),
        c2: col(c[2]),
        c3: col(c[3]),
    }
}

fn compose(t: Transform) -> Mat4 {
    Mat4::from_scale_rotation_translation(vec3(t.scale), quat(t.rotation), vec3(t.translation))
}

fn decompose(m: Mat4) -> Transform {
    let (scale, rot, trans) = m.to_scale_rotation_translation();
    Transform {
        translation: point(trans),
        rotation: four(rot.x, rot.y, rot.z, rot.w),
        scale: point(scale),
    }
}

fn at_value(x: f32) -> Answer {
    Answer {
        value: single(x),
        ..Answer::blank()
    }
}

fn at_point(v: Vec3) -> Answer {
    Answer {
        point: point(v),
        ..Answer::blank()
    }
}

fn at_matrix(m: Mat4) -> Answer {
    Answer {
        matrix: matrix(m),
        ..Answer::blank()
    }
}

fn at_pose(pose: Transform) -> Answer {
    Answer {
        pose,
        ..Answer::blank()
    }
}

/// Floating point: every computation that the library asks for.
fn calc(op: Calc) -> Answer {
    match op {
        Calc::Compose(t) => at_matrix(compose(t)),
        Calc::Product(a, b) => at_matrix(mat4(a) * mat4(b)),
        Calc::Invert(m) => at_matrix(mat4(m).inverse()),
        Calc::Decompose(m) => at_pose(decompose(mat4(m))),
        Calc::Shift(t) => at_matrix(Mat4::from_translation(vec3(t))),
        Calc::Sum(a, b) => at_point(vec3(a) + vec3(b)),
        Calc::Shrink(a, n) => at_point(vec3(a) / n as f32),
        Calc::Stretch(a, b) => at_point(vec3(a) * vec3(b)),
        Calc::LengthSquared(a) => at_value(vec3(a).length_squared()),
        Calc::Distance(a, b) => at_value((vec3(a) - vec3(b)).length()),
        Calc::Add(a, b) => at_value(float(a) + float(b)),
        Calc::Subtract(a, b) => at_value(float(a) - float(b)),
        Calc::Multiply(a, b) => at_value(float(a) * float(b)),
        Calc::Divide(a, b) => at_value(float(a) / float(b)),
        Calc::Count(n) => at_value(n as f32),
        Calc::Round(a) => Answer {
            count: float(a).round() as u32,
            ..Answer::blank()
        },
        Calc::Floor(a) => at_value(float(a).floor()),
        Calc::Root(a) => at_value(float(a).sqrt()),
        Calc::Sine(a) => at_value(float(a).sin()),
        Calc::Cosine(a) => at_value(float(a).cos()),
        Calc::Tangent(a) => at_value(float(a).tan()),
        Calc::ArcSine(a) => at_value(float(a).asin()),
        Calc::ArcTangent(y, x) => at_value(float(y).atan2(float(x))),
        Calc::Degrees(a) => at_value(float(a).to_degrees()),
        Calc::Radians(a) => at_value(float(a).to_radians()),
        Calc::Gap(a, b) => at_point(vec3(a) - vec3(b)),
        Calc::Scale(a, k) => at_point(vec3(a) * float(k)),
        Calc::Cross(a, b) => at_point(vec3(a).cross(vec3(b))),
        Calc::Unit(a) => {
            let way = vec3(a).try_normalize();
            let mut r = at_point(way.unwrap_or(Vec3::NAN));
            r.holds = way.is_some();
            r
        }
        Calc::View(eye, target, up) => at_matrix(Mat4::look_at_rh(vec3(eye), vec3(target), vec3(up))),
        Calc::Perspective(fov, aspect, near, far) => at_matrix(Mat4::perspective_rh(
            float(fov),
            float(aspect),
            float(near),
            float(far),
        )),
        Calc::Parallel(half, near, far) => {
            let h = float(half);
            at_matrix(Mat4::orthographic_rh(-h, h, -h, h, float(near), float(far)))
        }
        Calc::Move(m, p) => at_point(mat4(m).transform_point3(vec3(p))),
        Calc::Clip(m, p) => {
            let c = mat4(m) * vec3(p).extend(1.0);
            let mut a = Answer::blank();
            a.pose.rotation = four(c.x, c.y, c.z, c.w);
            a
        }
    }
}

/// A number with so many decimals, or in its shortest form.
fn show(x: Real, decimals: u8) -> String {
    if decimals == numeric::SHORTEST {
        format!("{}", float(x))
    } else {
        format!("{:.*}", decimals as usize, float(x))
    }
}

/// The number that a JSON notation stands for.
fn read_number(notation: &str) -> Real {
    single(notation.parse::<f64>().unwrap_or(0.0) as f32)
}

/// The number that a socket's notation stands for. Whole numbers are rounded once.
fn read_socket(notation: &str) -> Real {
    if let Ok(n) = notation.parse::<u64>() {
        return single(n as f32);
    }
    match notation.parse::<i64>() {
        Ok(n) => single(n as f32),
        Err(_) => read_number(notation),
    }
}

/// The number that an argument stands for, if it is one.
fn parse_number(text: &str) -> Option<Real> {
    text.parse::<f32>().ok().map(single)
}
