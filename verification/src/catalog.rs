//! A compact index of the live operations.

use crate::json::{item_views, member_views, put, Json, JsonModel};
use vstd::prelude::*;

verus! {

/// A list of texts as JSON.
pub open spec fn text_list(names: Seq<Seq<char>>) -> JsonModel {
    JsonModel::List(names.map_values(|n: Seq<char>| JsonModel::Text(n)))
}

pub open spec fn apply_ops() -> Seq<Seq<char>> {
    seq![
        "create_mesh"@,
        "patch_color"@,
        "patch_translation"@,
        "patch_rotation"@,
        "layout_pattern"@,
        "group"@,
        "ungroup"@,
        "graph_create"@,
        "graph_patch"@,
        "graph_bind"@,
        "patch_light"@,
    ]
}

pub open spec fn query_ops() -> Seq<Seq<char>> {
    seq![
        "left_of"@,
        "on_screen"@,
        "color_of"@,
        "assembly_of"@,
        "pixel"@,
        "elements"@,
    ]
}

pub open spec fn project_ops() -> Seq<Seq<char>> {
    seq!["list"@, "save"@, "open"@, "create"@]
}

pub open spec fn principled_sockets() -> Seq<Seq<char>> {
    seq![
        "base_color_r"@,
        "base_color_g"@,
        "base_color_b"@,
        "roughness"@,
        "metallic"@,
        "transmission"@,
    ]
}

/// What is not offered.
pub open spec fn absent_ops() -> Seq<Seq<char>> {
    seq![
        "rtx.active"@,
        "play.gameplay"@,
        "jobs"@,
        "eval"@,
        "whole_document_replace"@,
        "vertex_meshElements"@,
        "gltf.animation"@,
    ]
}

pub open spec fn flag_of(b: bool) -> JsonModel {
    JsonModel::Bool(b)
}

pub open spec fn catalog_model() -> JsonModel {
    JsonModel::Object(
        seq![
            ("apply"@, text_list(apply_ops())),
            ("query"@, text_list(query_ops())),
            ("project"@, text_list(project_ops())),
            (
                "graphs"@,
                JsonModel::Object(
                    seq![
                        ("compiledToGpu"@, flag_of(false)),
                        ("evaluatedAtDraw"@, flag_of(true)),
                        (
                            "nodeTypes"@,
                            JsonModel::Object(
                                seq![("principled"@, text_list(principled_sockets()))],
                            ),
                        ),
                    ],
                ),
            ),
            ("not"@, text_list(absent_ops())),
            (
                "export"@,
                JsonModel::Object(
                    seq![
                        ("gltf"@, flag_of(true)),
                        ("animation"@, flag_of(false)),
                        ("rtx"@, flag_of(false)),
                    ],
                ),
            ),
            (
                "import"@,
                JsonModel::Object(
                    seq![("gltf"@, flag_of(true)), ("requiresExtras"@, flag_of(true))],
                ),
            ),
            (
                "lighting"@,
                JsonModel::Object(
                    seq![
                        ("model"@, JsonModel::Text("lambert+spec"@)),
                        ("shadows"@, JsonModel::Text("directionalMap"@)),
                        ("rtx"@, flag_of(false)),
                    ],
                ),
            ),
            (
                "rtx"@,
                JsonModel::Object(
                    seq![
                        ("supported"@, flag_of(false)),
                        ("requested"@, flag_of(false)),
                        ("configured"@, flag_of(false)),
                        ("building"@, flag_of(false)),
                        ("active"@, flag_of(false)),
                        ("stale"@, flag_of(false)),
                        ("failed"@, flag_of(false)),
                    ],
                ),
            ),
            (
                "notes"@,
                JsonModel::Text(
                    "directional shadow map (not RTX); graph sockets evaluate at draw; Cycles stream is a sidecar (Ctrl+Shift+C)"@,
                ),
            ),
        ],
    )
}

fn names(list: Vec<&str>) -> (r: Json)
    ensures
        r@ == text_list(list@.map_values(|s: &str| s@)),
{
    let mut items: Vec<Json> = Vec::new();
    let mut i: usize = 0;
    while i < list.len()
        invariant
            i <= list.len(),
            items.len() == i,
            forall|k: int| 0 <= k < i ==> items@[k]@ == JsonModel::Text(list@[k]@),
        decreases list.len() - i,
    {
        items.push(Json::string(list[i]));
        i += 1;
    }
    assert(item_views(items@) =~= text_list(list@.map_values(|s: &str| s@))->List_0);
    Json::list(items)
}

fn graphs_entry() -> (r: Json)
    ensures
        r@ == catalog_model()->Object_0[3].1,
{
    let sockets = vec![
        "base_color_r",
        "base_color_g",
        "base_color_b",
        "roughness",
        "metallic",
        "transmission",
    ];
    assert(sockets@.map_values(|s: &str| s@) =~= principled_sockets());
    let mut types: Vec<(String, Json)> = Vec::new();
    put(&mut types, "principled", names(sockets));
    assert(member_views(types@) =~= seq![("principled"@, text_list(principled_sockets()))]);
    let mut graphs: Vec<(String, Json)> = Vec::new();
    put(&mut graphs, "compiledToGpu", Json::Bool(false));
    put(&mut graphs, "evaluatedAtDraw", Json::Bool(true));
    put(&mut graphs, "nodeTypes", Json::object(types));
    assert(member_views(graphs@) =~= catalog_model()->Object_0[3].1->Object_0);
    Json::object(graphs)
}

fn rtx_entry() -> (r: Json)
    ensures
        r@ == catalog_model()->Object_0[8].1,
{
    let mut rtx: Vec<(String, Json)> = Vec::new();
    put(&mut rtx, "supported", Json::Bool(false));
    put(&mut rtx, "requested", Json::Bool(false));
    put(&mut rtx, "configured", Json::Bool(false));
    put(&mut rtx, "building", Json::Bool(false));
    put(&mut rtx, "active", Json::Bool(false));
    put(&mut rtx, "stale", Json::Bool(false));
    put(&mut rtx, "failed", Json::Bool(false));
    assert(member_views(rtx@) =~= catalog_model()->Object_0[8].1->Object_0);
    Json::object(rtx)
}

/// The catalog: every operation that works, and those that do not.
pub fn live() -> (r: Json)
    ensures
        r@ == catalog_model(),
{
    let apply = vec![
        "create_mesh",
        "patch_color",
        "patch_translation",
        "patch_rotation",
        "layout_pattern",
        "group",
        "ungroup",
        "graph_create",
        "graph_patch",
        "graph_bind",
        "patch_light",
    ];
    assert(apply@.map_values(|s: &str| s@) =~= apply_ops());
    let query = vec!["left_of", "on_screen", "color_of", "assembly_of", "pixel", "elements"];
    assert(query@.map_values(|s: &str| s@) =~= query_ops());
    let project = vec!["list", "save", "open", "create"];
    assert(project@.map_values(|s: &str| s@) =~= project_ops());
    let absent = vec![
        "rtx.active",
        "play.gameplay",
        "jobs",
        "eval",
        "whole_document_replace",
        "vertex_meshElements",
        "gltf.animation",
    ];
    assert(absent@.map_values(|s: &str| s@) =~= absent_ops());
    let mut export: Vec<(String, Json)> = Vec::new();
    put(&mut export, "gltf", Json::Bool(true));
    put(&mut export, "animation", Json::Bool(false));
    put(&mut export, "rtx", Json::Bool(false));
    assert(member_views(export@) =~= catalog_model()->Object_0[5].1->Object_0);
    let mut import: Vec<(String, Json)> = Vec::new();
    put(&mut import, "gltf", Json::Bool(true));
    put(&mut import, "requiresExtras", Json::Bool(true));
    assert(member_views(import@) =~= catalog_model()->Object_0[6].1->Object_0);
    let mut lighting: Vec<(String, Json)> = Vec::new();
    put(&mut lighting, "model", Json::string("lambert+spec"));
    put(&mut lighting, "shadows", Json::string("directionalMap"));
    put(&mut lighting, "rtx", Json::Bool(false));
    assert(member_views(lighting@) =~= catalog_model()->Object_0[7].1->Object_0);
    let mut all: Vec<(String, Json)> = Vec::new();
    put(&mut all, "apply", names(apply));
    put(&mut all, "query", names(query));
    put(&mut all, "project", names(project));
    put(&mut all, "graphs", graphs_entry());
    put(&mut all, "not", names(absent));
    put(&mut all, "export", Json::object(export));
    put(&mut all, "import", Json::object(import));
    put(&mut all, "lighting", Json::object(lighting));
    put(&mut all, "rtx", rtx_entry());
    put(
        &mut all,
        "notes",
        Json::string(
            "directional shadow map (not RTX); graph sockets evaluate at draw; Cycles stream is a sidecar (Ctrl+Shift+C)",
        ),
    );
    assert(member_views(all@) =~= catalog_model()->Object_0);
    Json::object(all)
}

} // verus!
