//! Static glTF 2.0: boxes, planes, spheres and group nodes. No animation.

use crate::base64::{base64_encode, base64_text};
use crate::document::{
    borrowed, surface_of, Document, DocumentModel, Entity, EntityModel, GraphNode, MaterialGraph,
    Surface,
};
use crate::geom::{mesh, mesh_of, Mesh, MeshModel};
use crate::json::{item_views, member_views, put, put_item, Json, JsonModel};
use crate::lists::take_all;
use crate::numeric::{answers, computes, encoded, Answer, Calc, Real, Vec3};
use crate::table::Table;
use crate::text::{cat2, decimal_text, same};
use vstd::prelude::*;

verus! {

/// Where a glTF file is written and read unless told otherwise.
pub const DEFAULT_PATH: &'static str = "sits/export.gltf";

#[derive(Debug, PartialEq)]
pub struct ExportResult {
    pub path: String,
    pub mesh_count: usize,
    pub node_count: usize,
    pub byte_length: usize,
}

/// Least significant byte first.
pub open spec fn le32(bits: u32) -> Seq<u8> {
    seq![
        (bits % 256) as u8,
        (bits / 256 % 256) as u8,
        (bits / 65536 % 256) as u8,
        (bits / 16777216) as u8,
    ]
}

pub open spec fn le16(v: u16) -> Seq<u8> {
    seq![(v % 256) as u8, (v / 256) as u8]
}

pub open spec fn vec3_bytes(v: Vec3) -> Seq<u8> {
    le32(v.x.bits) + le32(v.y.bits) + le32(v.z.bits)
}

/// The bytes of vectors one after the other.
pub open spec fn vectors_bytes(s: Seq<Vec3>) -> Seq<u8>
    decreases s.len(),
{
    if s.len() == 0 {
        Seq::empty()
    } else {
        vectors_bytes(s.drop_last()) + vec3_bytes(s.last())
    }
}

/// The bytes of indices one after the other.
pub open spec fn indices_bytes(s: Seq<u16>) -> Seq<u8>
    decreases s.len(),
{
    if s.len() == 0 {
        Seq::empty()
    } else {
        indices_bytes(s.drop_last()) + le16(s.last())
    }
}

/// How many bytes bring a length to the next multiple of four.
pub open spec fn padding(n: int) -> int {
    (4 - n % 4) % 4
}

/// Bytes filled up with zeros to a multiple of four.
pub open spec fn padded(s: Seq<u8>) -> Seq<u8> {
    s + Seq::new(padding(s.len() as int) as nat, |i: int| 0u8)
}

/// Fills up with zeros to a multiple of four bytes.
pub fn pad4(buf: &mut Vec<u8>)
    ensures
        final(buf)@ == padded(old(buf)@),
        final(buf).len() % 4 == 0,
{
    let ghost start = buf@;
    let ghost mut k: int = 0;
    assert(start + Seq::new(0, |i: int| 0u8) =~= start);
    while buf.len() % 4 != 0
        invariant
            start == old(buf)@,
            0 <= k <= padding(start.len() as int),
            buf@ == start + Seq::new(k as nat, |i: int| 0u8),
        decreases padding(start.len() as int) - k,
    {
        buf.push(0);
        proof {
            k = k + 1;
            assert(buf@ =~= start + Seq::new(k as nat, |i: int| 0u8));
        }
    }
}

fn push_le32(buf: &mut Vec<u8>, bits: u32)
    ensures
        final(buf)@ == old(buf)@ + le32(bits),
{
    buf.push((bits % 256) as u8);
    buf.push((bits / 256 % 256) as u8);
    buf.push((bits / 65536 % 256) as u8);
    buf.push((bits / 16777216) as u8);
    assert(buf@ =~= old(buf)@ + le32(bits));
}

fn push_vectors(buf: &mut Vec<u8>, list: &Vec<Vec3>)
    ensures
        final(buf)@ == old(buf)@ + vectors_bytes(list@),
{
    let ghost start = buf@;
    let mut i: usize = 0;
    assert(buf@ =~= start + vectors_bytes(list@.take(0)));
    while i < list.len()
        invariant
            i <= list.len(),
            start == old(buf)@,
            buf@ == start + vectors_bytes(list@.take(i as int)),
        decreases list.len() - i,
    {
        let v = list[i];
        push_le32(buf, v.x.bits);
        push_le32(buf, v.y.bits);
        push_le32(buf, v.z.bits);
        i += 1;
        proof {
            assert(list@.take(i as int).drop_last() =~= list@.take(i - 1));
            assert(buf@ =~= start + vectors_bytes(list@.take(i as int)));
        }
    }
    proof {
        take_all(list@);
    }
}

fn push_indices(buf: &mut Vec<u8>, list: &Vec<u16>)
    ensures
        final(buf)@ == old(buf)@ + indices_bytes(list@),
{
    let ghost start = buf@;
    let mut i: usize = 0;
    assert(buf@ =~= start + indices_bytes(list@.take(0)));
    while i < list.len()
        invariant
            i <= list.len(),
            start == old(buf)@,
            buf@ == start + indices_bytes(list@.take(i as int)),
        decreases list.len() - i,
    {
        buf.push((list[i] % 256) as u8);
        buf.push((list[i] / 256) as u8);
        i += 1;
        proof {
            assert(list@.take(i as int).drop_last() =~= list@.take(i - 1));
            assert(buf@ =~= start + indices_bytes(list@.take(i as int)));
        }
    }
    proof {
        take_all(list@);
    }
}

pub open spec fn whole(n: int) -> JsonModel {
    JsonModel::Number(decimal_text(n as nat))
}

pub open spec fn word(s: Seq<char>) -> JsonModel {
    JsonModel::Text(s)
}

pub open spec fn vec3_json(v: Vec3) -> JsonModel {
    JsonModel::List(
        seq![JsonModel::Single(v.x), JsonModel::Single(v.y), JsonModel::Single(v.z)],
    )
}

pub open spec fn four_json(x: Real, y: Real, z: Real, w: Real) -> JsonModel {
    JsonModel::List(
        seq![
            JsonModel::Single(x),
            JsonModel::Single(y),
            JsonModel::Single(z),
            JsonModel::Single(w),
        ],
    )
}

/// Target of vertex data.
pub const ARRAY_BUFFER: u64 = 34962;

/// Target of index data.
pub const ELEMENT_BUFFER: u64 = 34963;

/// Component type of single-precision numbers.
pub const FLOAT: u64 = 5126;

/// Component type of 16-bit indices.
pub const UNSIGNED_SHORT: u64 = 5123;

pub open spec fn view_json(offset: int, length: int, target: int) -> JsonModel {
    JsonModel::Object(
        seq![
            ("buffer"@, whole(0)),
            ("byteOffset"@, whole(offset)),
            ("byteLength"@, whole(length)),
            ("target"@, whole(target)),
        ],
    )
}

pub open spec fn accessor_members(view: int, component: int, count: int, kind: Seq<char>) -> Seq<
    (Seq<char>, JsonModel),
> {
    seq![
        ("bufferView"@, whole(view)),
        ("componentType"@, whole(component)),
        ("count"@, whole(count)),
        ("type"@, word(kind)),
    ]
}

/// The smallest coordinates among the first `n` points.
pub open spec fn lowest(s: Seq<Vec3>, n: int) -> Vec3
    decreases n,
{
    if n <= 0 {
        Vec3 { x: encoded(0x7f7f_ffff), y: encoded(0x7f7f_ffff), z: encoded(0x7f7f_ffff) }
    } else {
        let v = lowest(s, n - 1);
        Vec3 {
            x: v.x.smaller_of(s[n - 1].x),
            y: v.y.smaller_of(s[n - 1].y),
            z: v.z.smaller_of(s[n - 1].z),
        }
    }
}

/// The largest coordinates among the first `n` points.
pub open spec fn highest(s: Seq<Vec3>, n: int) -> Vec3
    decreases n,
{
    if n <= 0 {
        Vec3 { x: encoded(0xff7f_ffff), y: encoded(0xff7f_ffff), z: encoded(0xff7f_ffff) }
    } else {
        let v = highest(s, n - 1);
        Vec3 {
            x: v.x.greater_of(s[n - 1].x),
            y: v.y.greater_of(s[n - 1].y),
            z: v.z.greater_of(s[n - 1].z),
        }
    }
}

fn bounds(pos: &Vec<Vec3>) -> (r: (Vec3, Vec3))
    ensures
        r.0 == lowest(pos@, pos.len() as int),
        r.1 == highest(pos@, pos.len() as int),
{
    let mut min = Vec3 {
        x: encoded(0x7f7f_ffff),
        y: encoded(0x7f7f_ffff),
        z: encoded(0x7f7f_ffff),
    };
    let mut max = Vec3 {
        x: encoded(0xff7f_ffff),
        y: encoded(0xff7f_ffff),
        z: encoded(0xff7f_ffff),
    };
    let mut i: usize = 0;
    while i < pos.len()
        invariant
            i <= pos.len(),
            min == lowest(pos@, i as int),
            max == highest(pos@, i as int),
        decreases pos.len() - i,
    {
        let p = pos[i];
        min = Vec3 { x: min.x.min(p.x), y: min.y.min(p.y), z: min.z.min(p.z) };
        max = Vec3 { x: max.x.max(p.x), y: max.y.max(p.y), z: max.z.max(p.z) };
        i += 1;
    }
    (min, max)
}

pub open spec fn material_json(id: Seq<char>, s: Surface) -> JsonModel {
    JsonModel::Object(
        seq![
            ("name"@, word(id)),
            (
                "pbrMetallicRoughness"@,
                JsonModel::Object(
                    seq![
                        (
                            "baseColorFactor"@,
                            four_json(s.color.r, s.color.g, s.color.b, s.color.a),
                        ),
                        ("metallicFactor"@, JsonModel::Single(s.metallic)),
                        ("roughnessFactor"@, JsonModel::Single(s.roughness)),
                    ],
                ),
            ),
        ],
    )
}

pub open spec fn mesh_json(id: Seq<char>, first_accessor: int, material: int) -> JsonModel {
    JsonModel::Object(
        seq![
            ("name"@, word(id)),
            (
                "primitives"@,
                JsonModel::List(
                    seq![
                        JsonModel::Object(
                            seq![
                                (
                                    "attributes"@,
                                    JsonModel::Object(
                                        seq![
                                            ("POSITION"@, whole(first_accessor)),
                                            ("NORMAL"@, whole(first_accessor + 1)),
                                        ],
                                    ),
                                ),
                                ("indices"@, whole(first_accessor + 2)),
                                ("material"@, whole(material)),
                            ],
                        ),
                    ],
                ),
            ),
        ],
    )
}

/// The tables of a glTF file while meshes are added.
#[verifier::ext_equal]
pub struct Parts {
    pub bin: Seq<u8>,
    pub views: Seq<JsonModel>,
    pub accessors: Seq<JsonModel>,
    pub materials: Seq<JsonModel>,
    pub meshes: Seq<JsonModel>,
    /// For each entity so far, its mesh if it has one.
    pub mesh_for: Seq<Option<usize>>,
}

pub open spec fn no_parts() -> Parts {
    Parts {
        bin: Seq::empty(),
        views: Seq::empty(),
        accessors: Seq::empty(),
        materials: Seq::empty(),
        meshes: Seq::empty(),
        mesh_for: Seq::empty(),
    }
}

/// Groups and empties have no mesh of their own.
pub open spec fn has_no_mesh(e: EntityModel) -> bool {
    e.recipe == "empty"@ || e.kind == "group"@
}

pub open spec fn with_mesh(p: Parts, id: Seq<char>, m: MeshModel, s: Surface) -> Parts {
    let with_positions = padded(p.bin + vectors_bytes(m.positions));
    let with_normals = padded(with_positions + vectors_bytes(m.normals));
    let v = p.views.len() as int;
    Parts {
        bin: padded(with_normals + indices_bytes(m.indices)),
        views: p.views.push(
            view_json(p.bin.len() as int, 12 * m.positions.len() as int, ARRAY_BUFFER as int),
        ).push(
            view_json(
                with_positions.len() as int,
                12 * m.normals.len() as int,
                ARRAY_BUFFER as int,
            ),
        ).push(
            view_json(with_normals.len() as int, 2 * m.indices.len() as int, ELEMENT_BUFFER as int),
        ),
        accessors: p.accessors.push(
            JsonModel::Object(
                accessor_members(v, FLOAT as int, m.positions.len() as int, "VEC3"@).push(
                    ("min"@, vec3_json(lowest(m.positions, m.positions.len() as int))),
                ).push(("max"@, vec3_json(highest(m.positions, m.positions.len() as int)))),
            ),
        ).push(
            JsonModel::Object(
                accessor_members(v + 1, FLOAT as int, m.normals.len() as int, "VEC3"@),
            ),
        ).push(
            JsonModel::Object(
                accessor_members(
                    v + 2,
                    UNSIGNED_SHORT as int,
                    m.indices.len() as int,
                    "SCALAR"@,
                ),
            ),
        ),
        materials: p.materials.push(material_json(id, s)),
        meshes: p.meshes.push(
            mesh_json(id, p.accessors.len() as int, p.materials.len() as int),
        ),
        mesh_for: p.mesh_for.push(Some(p.meshes.len() as usize)),
    }
}

/// The tables for the first `n` entities, or why they cannot be written.
pub open spec fn parts_of(d: DocumentModel, n: int, g: spec_fn(Calc) -> Answer) -> Result<
    Parts,
    Seq<char>,
>
    decreases n,
{
    if n <= 0 {
        Ok(no_parts())
    } else {
        let e = d.entities()[n - 1];
        match parts_of(d, n - 1, g) {
            Err(x) => Err(x),
            Ok(p) => if has_no_mesh(e) {
                Ok(Parts { mesh_for: p.mesh_for.push(None), ..p })
            } else {
                match mesh_of(e.recipe, e.size, g) {
                    Err(x) => Err(x),
                    Ok(m) => Ok(with_mesh(p, e.id, m, surface_of(d, e))),
                }
            },
        }
    }
}

/// The last of the first `n` entities that carries an id.
pub open spec fn last_index(es: Seq<EntityModel>, id: Seq<char>, n: int) -> Option<int>
    decreases n,
{
    if n <= 0 {
        None
    } else if es[n - 1].id == id {
        Some(n - 1)
    } else {
        last_index(es, id, n - 1)
    }
}

/// The entity that carries an entity's parent id.
pub open spec fn parent_index(es: Seq<EntityModel>, i: int) -> Option<int> {
    match es[i].parent {
        None => None,
        Some(p) => last_index(es, p, es.len() as int),
    }
}

/// Which of the first `n` entities have this parent (none for the roots), in order.
pub open spec fn under(es: Seq<EntityModel>, parent: Option<int>, n: int) -> Seq<JsonModel>
    decreases n,
{
    if n <= 0 {
        Seq::empty()
    } else if parent_index(es, n - 1) == parent {
        under(es, parent, n - 1).push(whole(n - 1))
    } else {
        under(es, parent, n - 1)
    }
}

pub open spec fn extras_json(e: EntityModel) -> JsonModel {
    JsonModel::Object(
        seq![
            (
                "thinnerFloor"@,
                JsonModel::Object(
                    seq![
                        ("recipe"@, word(e.recipe)),
                        ("size"@, vec3_json(e.size)),
                        ("kind"@, word(e.kind)),
                        (
                            "graphId"@,
                            match e.graph_id {
                                Some(id) => word(id),
                                None => JsonModel::Null,
                            },
                        ),
                    ],
                ),
            ),
        ],
    )
}

/// A node: name and placement, then mesh and children where it has them, then extras.
pub open spec fn node_json(
    e: EntityModel,
    mesh: Option<usize>,
    children: Seq<JsonModel>,
) -> JsonModel {
    let t = e.transform;
    let head = seq![
        ("name"@, word(e.id)),
        ("translation"@, vec3_json(t.translation)),
        (
            "rotation"@,
            four_json(t.rotation.x, t.rotation.y, t.rotation.z, t.rotation.w),
        ),
        ("scale"@, vec3_json(t.scale)),
    ];
    let meshed = match mesh {
        Some(m) => head.push(("mesh"@, whole(m as int))),
        None => head,
    };
    let full = if children.len() > 0 {
        meshed.push(("children"@, JsonModel::List(children)))
    } else {
        meshed
    };
    JsonModel::Object(full.push(("extras"@, extras_json(e))))
}

/// The nodes of the first `n` entities.
pub open spec fn nodes_json(es: Seq<EntityModel>, mesh_for: Seq<Option<usize>>, n: int) -> Seq<
    JsonModel,
>
    decreases n,
{
    if n <= 0 {
        Seq::empty()
    } else {
        nodes_json(es, mesh_for, n - 1).push(
            node_json(es[n - 1], mesh_for[n - 1], under(es, Some(n - 1), es.len() as int)),
        )
    }
}

pub open spec fn socket_members(rows: Seq<(String, Real)>) -> Seq<(Seq<char>, JsonModel)> {
    rows.map_values(|r: (String, Real)| (r.0@, JsonModel::Single(r.1)))
}

pub open spec fn graph_node_json(n: GraphNode) -> JsonModel {
    JsonModel::Object(
        seq![
            ("id"@, word(n.id@)),
            ("type"@, word(n.node_type@)),
            ("sockets"@, JsonModel::Object(socket_members(n.sockets.rows@))),
        ],
    )
}

pub open spec fn graph_json(g: MaterialGraph) -> JsonModel {
    JsonModel::Object(
        seq![
            ("id"@, word(g.id@)),
            ("nodes"@, JsonModel::List(g.nodes@.map_values(|n: GraphNode| graph_node_json(n)))),
        ],
    )
}

pub open spec fn graphs_json(graphs: Seq<MaterialGraph>) -> JsonModel {
    JsonModel::List(graphs.map_values(|g: MaterialGraph| graph_json(g)))
}

pub open spec fn asset_json(graphs: Seq<MaterialGraph>) -> JsonModel {
    JsonModel::Object(
        seq![
            ("version"@, word("2.0"@)),
            ("generator"@, word("thinner-floor"@)),
            (
                "extras"@,
                JsonModel::Object(
                    seq![
                        (
                            "thinnerFloor"@,
                            JsonModel::Object(seq![("graphs"@, graphs_json(graphs))]),
                        ),
                    ],
                ),
            ),
        ],
    )
}

/// The whole file.
pub open spec fn gltf_json(d: DocumentModel, graphs: Seq<MaterialGraph>, p: Parts) -> JsonModel {
    let es = d.entities();
    let n = es.len() as int;
    JsonModel::Object(
        seq![
            ("asset"@, asset_json(graphs)),
            ("scene"@, whole(0)),
            (
                "scenes"@,
                JsonModel::List(
                    seq![
                        JsonModel::Object(seq![("nodes"@, JsonModel::List(under(es, None, n)))]),
                    ],
                ),
            ),
            ("nodes"@, JsonModel::List(nodes_json(es, p.mesh_for, n))),
            ("meshes"@, JsonModel::List(p.meshes)),
            ("materials"@, JsonModel::List(p.materials)),
            ("accessors"@, JsonModel::List(p.accessors)),
            ("bufferViews"@, JsonModel::List(p.views)),
            (
                "buffers"@,
                JsonModel::List(
                    seq![
                        JsonModel::Object(
                            seq![
                                ("byteLength"@, whole(p.bin.len() as int)),
                                (
                                    "uri"@,
                                    word(
                                        "data:application/octet-stream;base64,"@ + base64_text(p.bin),
                                    ),
                                ),
                            ],
                        ),
                    ],
                ),
            ),
        ],
    )
}

fn write_vec3(v: Vec3) -> (r: Json)
    ensures
        r@ == vec3_json(v),
{
    let items = vec![Json::Single(v.x), Json::Single(v.y), Json::Single(v.z)];
    assert(item_views(items@) =~= vec3_json(v)->List_0);
    Json::list(items)
}

fn write_four(x: Real, y: Real, z: Real, w: Real) -> (r: Json)
    ensures
        r@ == four_json(x, y, z, w),
{
    let items = vec![Json::Single(x), Json::Single(y), Json::Single(z), Json::Single(w)];
    assert(item_views(items@) =~= four_json(x, y, z, w)->List_0);
    Json::list(items)
}

fn write_view(offset: usize, length: usize, target: u64) -> (r: Json)
    ensures
        r@ == view_json(offset as int, length as int, target as int),
{
    let mut m: Vec<(String, Json)> = Vec::new();
    put(&mut m, "buffer", Json::whole(0));
    put(&mut m, "byteOffset", Json::whole(offset as u64));
    put(&mut m, "byteLength", Json::whole(length as u64));
    put(&mut m, "target", Json::whole(target));
    assert(member_views(m@) =~= view_json(offset as int, length as int, target as int)->Object_0);
    Json::object(m)
}

fn write_accessor(view: u128, component: u64, count: usize, kind: &str) -> (m: Vec<(String, Json)>)
    ensures
        member_views(m@) == accessor_members(view as int, component as int, count as int, kind@),
{
    let mut m: Vec<(String, Json)> = Vec::new();
    put(&mut m, "bufferView", Json::count(view));
    put(&mut m, "componentType", Json::whole(component));
    put(&mut m, "count", Json::whole(count as u64));
    put(&mut m, "type", Json::string(kind));
    assert(member_views(m@) =~= accessor_members(
        view as int,
        component as int,
        count as int,
        kind@,
    ));
    m
}

fn write_material(id: &str, s: Surface) -> (r: Json)
    ensures
        r@ == material_json(id@, s),
{
    let mut pbr: Vec<(String, Json)> = Vec::new();
    put(&mut pbr, "baseColorFactor", write_four(s.color.r, s.color.g, s.color.b, s.color.a));
    put(&mut pbr, "metallicFactor", Json::Single(s.metallic));
    put(&mut pbr, "roughnessFactor", Json::Single(s.roughness));
    assert(member_views(pbr@) =~= material_json(id@, s)->Object_0[1].1->Object_0);
    let mut m: Vec<(String, Json)> = Vec::new();
    put(&mut m, "name", Json::string(id));
    put(&mut m, "pbrMetallicRoughness", Json::object(pbr));
    assert(member_views(m@) =~= material_json(id@, s)->Object_0);
    Json::object(m)
}

fn write_mesh(id: &str, first: usize, material: usize) -> (r: Json)
    ensures
        r@ == mesh_json(id@, first as int, material as int),
{
    let ghost primitive = mesh_json(
        id@,
        first as int,
        material as int,
    )->Object_0[1].1->List_0[0]->Object_0;
    let mut attributes: Vec<(String, Json)> = Vec::new();
    put(&mut attributes, "POSITION", Json::whole(first as u64));
    put(&mut attributes, "NORMAL", Json::count(first as u128 + 1));
    assert(member_views(attributes@) =~= primitive[0].1->Object_0);
    let mut p: Vec<(String, Json)> = Vec::new();
    put(&mut p, "attributes", Json::object(attributes));
    put(&mut p, "indices", Json::count(first as u128 + 2));
    put(&mut p, "material", Json::whole(material as u64));
    assert(member_views(p@) =~= primitive);
    let mut list: Vec<Json> = Vec::new();
    put_item(&mut list, Json::object(p));
    assert(item_views(list@) =~= mesh_json(
        id@,
        first as int,
        material as int,
    )->Object_0[1].1->List_0);
    let mut m: Vec<(String, Json)> = Vec::new();
    put(&mut m, "name", Json::string(id));
    put(&mut m, "primitives", Json::list(list));
    assert(member_views(m@) =~= mesh_json(id@, first as int, material as int)->Object_0);
    Json::object(m)
}

/// The tables of a glTF file under construction.
struct Tables {
    bin: Vec<u8>,
    views: Vec<Json>,
    accessors: Vec<Json>,
    materials: Vec<Json>,
    meshes: Vec<Json>,
    mesh_for: Vec<Option<usize>>,
}

impl View for Tables {
    type V = Parts;

    closed spec fn view(&self) -> Parts {
        Parts {
            bin: self.bin@,
            views: item_views(self.views@),
            accessors: item_views(self.accessors@),
            materials: item_views(self.materials@),
            meshes: item_views(self.meshes@),
            mesh_for: self.mesh_for@,
        }
    }
}

impl Tables {
    fn new() -> (r: Self)
        ensures
            r@ == no_parts(),
            r.mesh_for.len() == 0,
    {
        let r = Tables {
            bin: Vec::new(),
            views: Vec::new(),
            accessors: Vec::new(),
            materials: Vec::new(),
            meshes: Vec::new(),
            mesh_for: Vec::new(),
        };
        assert(r@ =~= no_parts());
        r
    }

    fn add_mesh(&mut self, id: &str, m: &Mesh, s: Surface)
        requires
            m.positions.len() <= 117,
            m.normals.len() <= 117,
            m.indices.len() <= 576,
        ensures
            final(self)@ == with_mesh(old(self)@, id@, m@, s),
            final(self).mesh_for.len() == old(self).mesh_for.len() + 1,
    {
        let ghost before = self@;
        let v: u128 = self.views.len() as u128;
        let a: usize = self.accessors.len();
        let mat: usize = self.materials.len();
        let k: usize = self.meshes.len();
        let pos_off: usize = self.bin.len();
        push_vectors(&mut self.bin, &m.positions);
        pad4(&mut self.bin);
        let nrm_off: usize = self.bin.len();
        push_vectors(&mut self.bin, &m.normals);
        pad4(&mut self.bin);
        let idx_off: usize = self.bin.len();
        push_indices(&mut self.bin, &m.indices);
        pad4(&mut self.bin);
        put_item(&mut self.views, write_view(pos_off, 12 * m.positions.len(), ARRAY_BUFFER));
        put_item(&mut self.views, write_view(nrm_off, 12 * m.normals.len(), ARRAY_BUFFER));
        put_item(&mut self.views, write_view(idx_off, 2 * m.indices.len(), ELEMENT_BUFFER));
        let (low, high) = bounds(&m.positions);
        let mut first = write_accessor(v, FLOAT, m.positions.len(), "VEC3");
        put(&mut first, "min", write_vec3(low));
        put(&mut first, "max", write_vec3(high));
        put_item(&mut self.accessors, Json::object(first));
        let second = write_accessor(v + 1, FLOAT, m.normals.len(), "VEC3");
        put_item(&mut self.accessors, Json::object(second));
        let third = write_accessor(v + 2, UNSIGNED_SHORT, m.indices.len(), "SCALAR");
        put_item(&mut self.accessors, Json::object(third));
        put_item(&mut self.materials, write_material(id, s));
        put_item(&mut self.meshes, write_mesh(id, a, mat));
        self.mesh_for.push(Some(k));
        assert(self@ =~= with_mesh(before, id@, m@, s));
    }
}

fn gather<F: Fn(Calc) -> Answer>(doc: &Document, list: &Vec<&Entity>, calc: &F) -> (r: Result<
    Tables,
    String,
>)
    requires
        answers(*calc),
        borrowed(list@) == doc@.entities(),
    ensures
        r matches Ok(t) ==> t.mesh_for.len() == list.len(),
        forall|g: spec_fn(Calc) -> Answer| #[trigger]
            computes(*calc, g) ==> match r {
                Ok(t) => parts_of(doc@, list.len() as int, g) == Ok::<Parts, Seq<char>>(t@),
                Err(e) => parts_of(doc@, list.len() as int, g) == Err::<Parts, Seq<char>>(e@),
            },
{
    let mut t = Tables::new();
    let mut i: usize = 0;
    while i < list.len()
        invariant
            i <= list.len(),
            answers(*calc),
            borrowed(list@) == doc@.entities(),
            t.mesh_for.len() == i,
            forall|g: spec_fn(Calc) -> Answer| #[trigger]
                computes(*calc, g) ==> parts_of(doc@, i as int, g) == Ok::<Parts, Seq<char>>(t@),
        decreases list.len() - i,
    {
        let e: &Entity = list[i];
        assert(doc@.entities()[i as int] == e@) by {
            assert(borrowed(list@)[i as int] == e@);
        }
        if same(&e.mesh.recipe, "empty") || same(&e.kind, "group") {
            t.mesh_for.push(None);
        } else {
            match mesh(&e.mesh.recipe, e.mesh.size, calc) {
                Err(x) => {
                    assert forall|g: spec_fn(Calc) -> Answer| #[trigger]
                        computes(*calc, g) implies parts_of(doc@, list.len() as int, g) == Err::<
                        Parts,
                        Seq<char>,
                    >(x@) by {
                        failure_stays(doc@, i + 1, list.len() as int, g);
                    }
                    return Err(x);
                },
                Ok(m) => {
                    t.add_mesh(&e.id, &m, doc.resolved_surface(e));
                },
            }
        }
        i += 1;
    }
    Ok(t)
}

/// Once an entity cannot be written, the file cannot.
proof fn failure_stays(d: DocumentModel, i: int, n: int, g: spec_fn(Calc) -> Answer)
    requires
        i <= n,
        parts_of(d, i, g) is Err,
    ensures
        parts_of(d, n, g) == parts_of(d, i, g),
    decreases n,
{
    if i < n && n > 0 {
        failure_stays(d, i, n - 1, g);
    }
}

fn find_last(list: &Vec<&Entity>, id: &str) -> (r: Option<usize>)
    ensures
        match r {
            Some(i) => last_index(borrowed(list@), id@, list.len() as int) == Some(i as int),
            None => last_index(borrowed(list@), id@, list.len() as int) is None,
        },
{
    let ghost es = borrowed(list@);
    let mut i: usize = list.len();
    while i > 0
        invariant
            i <= list.len(),
            es == borrowed(list@),
            last_index(es, id@, list.len() as int) == last_index(es, id@, i as int),
        decreases i,
    {
        i -= 1;
        assert(es[i as int] == list@[i as int]@);
        if same(&list[i].id, id) {
            return Some(i);
        }
    }
    None
}

fn parents(list: &Vec<&Entity>) -> (r: Vec<Option<usize>>)
    ensures
        r.len() == list.len(),
        forall|i: int|
            0 <= i < list.len() ==> match #[trigger] r@[i] {
                Some(p) => parent_index(borrowed(list@), i) == Some(p as int),
                None => parent_index(borrowed(list@), i) is None,
            },
{
    let ghost es = borrowed(list@);
    let mut out: Vec<Option<usize>> = Vec::new();
    let mut i: usize = 0;
    while i < list.len()
        invariant
            i <= list.len(),
            es == borrowed(list@),
            out.len() == i,
            forall|k: int|
                0 <= k < i ==> match #[trigger] out@[k] {
                    Some(p) => parent_index(es, k) == Some(p as int),
                    None => parent_index(es, k) is None,
                },
        decreases list.len() - i,
    {
        let e: &Entity = list[i];
        assert(es[i as int] == e@);
        let p: Option<usize> = match &e.parent {
            None => None,
            Some(id) => find_last(list, id),
        };
        out.push(p);
        i += 1;
    }
    out
}

fn write_under(
    list: &Vec<&Entity>,
    above: &Vec<Option<usize>>,
    parent: Option<usize>,
) -> (r: Vec<Json>)
    requires
        above.len() == list.len(),
        forall|i: int|
            0 <= i < list.len() ==> match #[trigger] above@[i] {
                Some(p) => parent_index(borrowed(list@), i) == Some(p as int),
                None => parent_index(borrowed(list@), i) is None,
            },
    ensures
        item_views(r@) == under(
            borrowed(list@),
            match parent {
                Some(p) => Some(p as int),
                None => None,
            },
            list.len() as int,
        ),
{
    let ghost es = borrowed(list@);
    let ghost wanted: Option<int> = match parent {
        Some(p) => Some(p as int),
        None => None,
    };
    let mut out: Vec<Json> = Vec::new();
    let mut i: usize = 0;
    assert(item_views(out@) =~= Seq::<JsonModel>::empty());
    while i < above.len()
        invariant
            i <= above.len(),
            above.len() == list.len(),
            es == borrowed(list@),
            wanted == (match parent {
                Some(p) => Some(p as int),
                None => None,
            }),
            forall|i: int|
                0 <= i < list.len() ==> match #[trigger] above@[i] {
                    Some(p) => parent_index(borrowed(list@), i) == Some(p as int),
                    None => parent_index(borrowed(list@), i) is None,
                },
            item_views(out@) == under(es, wanted, i as int),
        decreases above.len() - i,
    {
        let here = match (above[i], parent) {
            (Some(a), Some(b)) => a == b,
            (None, None) => true,
            _ => false,
        };
        if here {
            put_item(&mut out, Json::whole(i as u64));
        }
        i += 1;
    }
    out
}

fn write_extras(e: &Entity) -> (r: Json)
    ensures
        r@ == extras_json(e@),
{
    let mut floor: Vec<(String, Json)> = Vec::new();
    put(&mut floor, "recipe", Json::string(&e.mesh.recipe));
    put(&mut floor, "size", write_vec3(e.mesh.size));
    put(&mut floor, "kind", Json::string(&e.kind));
    let graph = match &e.graph_id {
        Some(id) => Json::string(id),
        None => Json::Null,
    };
    put(&mut floor, "graphId", graph);
    assert(member_views(floor@) =~= extras_json(e@)->Object_0[0].1->Object_0);
    let mut m: Vec<(String, Json)> = Vec::new();
    put(&mut m, "thinnerFloor", Json::object(floor));
    assert(member_views(m@) =~= extras_json(e@)->Object_0);
    Json::object(m)
}

fn write_node(e: &Entity, mesh: Option<usize>, children: Vec<Json>) -> (r: Json)
    ensures
        r@ == node_json(e@, mesh, item_views(children@)),
{
    let t = e.transform;
    let mut m: Vec<(String, Json)> = Vec::new();
    put(&mut m, "name", Json::string(&e.id));
    put(&mut m, "translation", write_vec3(t.translation));
    put(
        &mut m,
        "rotation",
        write_four(t.rotation.x, t.rotation.y, t.rotation.z, t.rotation.w),
    );
    put(&mut m, "scale", write_vec3(t.scale));
    assert(member_views(m@) =~= seq![
        ("name"@, word(e@.id)),
        ("translation"@, vec3_json(t.translation)),
        ("rotation"@, four_json(t.rotation.x, t.rotation.y, t.rotation.z, t.rotation.w)),
        ("scale"@, vec3_json(t.scale)),
    ]);
    if let Some(k) = mesh {
        put(&mut m, "mesh", Json::whole(k as u64));
    }
    assert(item_views(children@).len() == children.len());
    if children.len() > 0 {
        put(&mut m, "children", Json::list(children));
    }
    put(&mut m, "extras", write_extras(e));
    Json::object(m)
}

fn write_sockets(t: &Table<Real>) -> (r: Json)
    ensures
        r@ == JsonModel::Object(socket_members(t.rows@)),
{
    let mut m: Vec<(String, Json)> = Vec::new();
    let mut i: usize = 0;
    while i < t.rows.len()
        invariant
            i <= t.rows.len(),
            m.len() == i,
            forall|k: int|
                0 <= k < i ==> (#[trigger] m@[k]).0@ == t.rows@[k].0@ && m@[k].1@
                    == JsonModel::Single(t.rows@[k].1),
        decreases t.rows.len() - i,
    {
        m.push((t.rows[i].0.clone(), Json::Single(t.rows[i].1)));
        i += 1;
    }
    assert(member_views(m@) =~= socket_members(t.rows@));
    Json::object(m)
}

fn write_graph_node(n: &GraphNode) -> (r: Json)
    ensures
        r@ == graph_node_json(*n),
{
    let mut m: Vec<(String, Json)> = Vec::new();
    put(&mut m, "id", Json::string(&n.id));
    put(&mut m, "type", Json::string(&n.node_type));
    put(&mut m, "sockets", write_sockets(&n.sockets));
    assert(member_views(m@) =~= graph_node_json(*n)->Object_0);
    Json::object(m)
}

fn write_graph(g: &MaterialGraph) -> (r: Json)
    ensures
        r@ == graph_json(*g),
{
    let mut nodes: Vec<Json> = Vec::new();
    let mut i: usize = 0;
    while i < g.nodes.len()
        invariant
            i <= g.nodes.len(),
            nodes.len() == i,
            forall|k: int| 0 <= k < i ==> (#[trigger] nodes@[k])@ == graph_node_json(g.nodes@[k]),
        decreases g.nodes.len() - i,
    {
        nodes.push(write_graph_node(&g.nodes[i]));
        i += 1;
    }
    assert(item_views(nodes@) =~= graph_json(*g)->Object_0[1].1->List_0);
    let mut m: Vec<(String, Json)> = Vec::new();
    put(&mut m, "id", Json::string(&g.id));
    put(&mut m, "nodes", Json::list(nodes));
    assert(member_views(m@) =~= graph_json(*g)->Object_0);
    Json::object(m)
}

fn write_asset(graphs: &Vec<MaterialGraph>) -> (r: Json)
    ensures
        r@ == asset_json(graphs@),
{
    let mut list: Vec<Json> = Vec::new();
    let mut i: usize = 0;
    while i < graphs.len()
        invariant
            i <= graphs.len(),
            list.len() == i,
            forall|k: int| 0 <= k < i ==> (#[trigger] list@[k])@ == graph_json(graphs@[k]),
        decreases graphs.len() - i,
    {
        list.push(write_graph(&graphs[i]));
        i += 1;
    }
    assert(item_views(list@) =~= graphs_json(graphs@)->List_0);
    let ghost wanted = asset_json(graphs@)->Object_0;
    let mut floor: Vec<(String, Json)> = Vec::new();
    put(&mut floor, "graphs", Json::list(list));
    assert(member_views(floor@) =~= wanted[2].1->Object_0[0].1->Object_0);
    let mut extras: Vec<(String, Json)> = Vec::new();
    put(&mut extras, "thinnerFloor", Json::object(floor));
    assert(member_views(extras@) =~= wanted[2].1->Object_0);
    let mut m: Vec<(String, Json)> = Vec::new();
    put(&mut m, "version", Json::string("2.0"));
    put(&mut m, "generator", Json::string("thinner-floor"));
    put(&mut m, "extras", Json::object(extras));
    assert(member_views(m@) =~= wanted);
    Json::object(m)
}

fn write_nodes(list: &Vec<&Entity>, above: &Vec<Option<usize>>, mesh_for: &Vec<Option<usize>>) -> (r:
    Vec<Json>)
    requires
        above.len() == list.len(),
        mesh_for.len() == list.len(),
        forall|i: int|
            0 <= i < list.len() ==> match #[trigger] above@[i] {
                Some(p) => parent_index(borrowed(list@), i) == Some(p as int),
                None => parent_index(borrowed(list@), i) is None,
            },
    ensures
        item_views(r@) == nodes_json(borrowed(list@), mesh_for@, list.len() as int),
{
    let ghost es = borrowed(list@);
    let mut out: Vec<Json> = Vec::new();
    let mut i: usize = 0;
    assert(item_views(out@) =~= Seq::<JsonModel>::empty());
    while i < list.len()
        invariant
            i <= list.len(),
            above.len() == list.len(),
            mesh_for.len() == list.len(),
            es == borrowed(list@),
            es.len() == list.len(),
            forall|i: int|
                0 <= i < list.len() ==> match #[trigger] above@[i] {
                    Some(p) => parent_index(borrowed(list@), i) == Some(p as int),
                    None => parent_index(borrowed(list@), i) is None,
                },
            item_views(out@) == nodes_json(es, mesh_for@, i as int),
        decreases list.len() - i,
    {
        let e: &Entity = list[i];
        assert(es[i as int] == e@);
        let children = write_under(list, above, Some(i));
        put_item(&mut out, write_node(e, mesh_for[i], children));
        i += 1;
    }
    out
}

/// What a document comes to as a glTF file, or why it cannot be written.
pub open spec fn exported(
    d: DocumentModel,
    graphs: Seq<MaterialGraph>,
    g: spec_fn(Calc) -> Answer,
) -> Result<JsonModel, Seq<char>> {
    match parts_of(d, d.entities().len() as int, g) {
        Err(e) => Err(e),
        Ok(p) => Ok(gltf_json(d, graphs, p)),
    }
}

fn write_buffer(bin: &Vec<u8>) -> (r: Json)
    ensures
        r@ == JsonModel::List(
            seq![
                JsonModel::Object(
                    seq![
                        ("byteLength"@, whole(bin@.len() as int)),
                        (
                            "uri"@,
                            word("data:application/octet-stream;base64,"@ + base64_text(bin@)),
                        ),
                    ],
                ),
            ],
        ),
{
    let text = base64_encode(bin);
    let uri = cat2("data:application/octet-stream;base64,", &text);
    let mut m: Vec<(String, Json)> = Vec::new();
    put(&mut m, "byteLength", Json::whole(bin.len() as u64));
    put(&mut m, "uri", Json::string(&uri));
    assert(member_views(m@) =~= seq![
        ("byteLength"@, whole(bin@.len() as int)),
        ("uri"@, word(uri@)),
    ]);
    let mut list: Vec<Json> = Vec::new();
    put_item(&mut list, Json::object(m));
    assert(item_views(list@) =~= seq![
        JsonModel::Object(
            seq![("byteLength"@, whole(bin@.len() as int)), ("uri"@, word(uri@))],
        ),
    ]);
    Json::list(list)
}

fn write_scenes(roots: Vec<Json>) -> (r: Json)
    ensures
        r@ == JsonModel::List(
            seq![
                JsonModel::Object(seq![("nodes"@, JsonModel::List(item_views(roots@)))]),
            ],
        ),
{
    let ghost wanted = JsonModel::List(item_views(roots@));
    let mut m: Vec<(String, Json)> = Vec::new();
    put(&mut m, "nodes", Json::list(roots));
    assert(member_views(m@) =~= seq![("nodes"@, wanted)]);
    let mut list: Vec<Json> = Vec::new();
    put_item(&mut list, Json::object(m));
    assert(item_views(list@) =~= seq![JsonModel::Object(seq![("nodes"@, wanted)])]);
    Json::list(list)
}

/// A document as a self-contained glTF file.
pub fn to_gltf<F: Fn(Calc) -> Answer>(doc: &Document, calc: &F) -> (r: Result<Json, String>)
    requires
        answers(*calc),
    ensures
        forall|g: spec_fn(Calc) -> Answer| #[trigger]
            computes(*calc, g) ==> match r {
                Ok(j) => exported(doc@, doc.graphs@, g) == Ok::<JsonModel, Seq<char>>(j@),
                Err(e) => exported(doc@, doc.graphs@, g) == Err::<JsonModel, Seq<char>>(e@),
            },
{
    let list = doc.entities();
    assert(borrowed(list@).len() == list.len());
    let t = match gather(doc, &list, calc) {
        Err(e) => return Err(e),
        Ok(t) => t,
    };
    let ghost p = t@;
    let above = parents(&list);
    let roots = write_under(&list, &above, None);
    let nodes = write_nodes(&list, &above, &t.mesh_for);
    let mut m: Vec<(String, Json)> = Vec::new();
    put(&mut m, "asset", write_asset(&doc.graphs));
    put(&mut m, "scene", Json::whole(0));
    put(&mut m, "scenes", write_scenes(roots));
    put(&mut m, "nodes", Json::list(nodes));
    put(&mut m, "meshes", Json::list(t.meshes));
    put(&mut m, "materials", Json::list(t.materials));
    put(&mut m, "accessors", Json::list(t.accessors));
    put(&mut m, "bufferViews", Json::list(t.views));
    put(&mut m, "buffers", write_buffer(&t.bin));
    assert(member_views(m@) =~= gltf_json(doc@, doc.graphs@, p)->Object_0);
    Ok(Json::object(m))
}

/// Length of the list that a member holds; zero without one.
pub open spec fn list_length(j: JsonModel, name: Seq<char>) -> int {
    match j.member(name) {
        Some(JsonModel::List(s)) => s.len() as int,
        _ => 0,
    }
}

fn count_items(j: &Json, name: &str) -> (r: usize)
    ensures
        r == list_length(j@, name@),
{
    match j.get(name) {
        Some(m) => match m.as_array() {
            Some(a) => {
                assert(item_views(a@).len() == a.len());
                a.len()
            },
            None => 0,
        },
        None => 0,
    }
}

/// Declared length of the first buffer of a file; zero without one that a machine word holds.
pub open spec fn buffer_length(j: JsonModel) -> int {
    match j.member("buffers"@) {
        Some(JsonModel::List(s)) => if s.len() == 0 {
            0
        } else {
            match s[0].member("byteLength"@) {
                Some(b) => match b.whole() {
                    Some(n) => if n <= usize::MAX {
                        n as int
                    } else {
                        0
                    },
                    None => 0,
                },
                None => 0,
            }
        },
        _ => 0,
    }
}

fn declared_length(j: &Json) -> (r: usize)
    ensures
        r == buffer_length(j@),
{
    let list = match j.get("buffers") {
        None => return 0,
        Some(b) => match b.as_array() {
            None => return 0,
            Some(a) => a,
        },
    };
    if list.len() == 0 {
        return 0;
    }
    assert(item_views(list@)[0] == list@[0]@);
    match list[0].get("byteLength") {
        None => 0,
        Some(b) => match b.as_u64() {
            None => 0,
            Some(n) => if n <= usize::MAX as u64 {
                n as usize
            } else {
                0
            },
        },
    }
}

/// What to say of a file that was written to a path.
pub fn export_result(path: String, gltf: &Json) -> (r: ExportResult)
    ensures
        r.path@ == path@,
        r.mesh_count == list_length(gltf@, "meshes"@),
        r.node_count == list_length(gltf@, "nodes"@),
        r.byte_length == buffer_length(gltf@),
{
    ExportResult {
        path,
        mesh_count: count_items(gltf, "meshes"),
        node_count: count_items(gltf, "nodes"),
        byte_length: declared_length(gltf),
    }
}

/// A view that begins at a multiple of four bytes and ends inside a buffer of `n` bytes.
#[verifier::opaque]
pub open spec fn view_fits(v: JsonModel, n: int) -> bool {
    exists|offset: int, length: int, target: int| #[trigger]
        view_json(offset, length, target) == v && offset % 4 == 0 && 0 <= offset && 0 <= length
            && offset + length <= n
}

/// A mesh whose primitive names three accessors from `first` on and a material.
#[verifier::opaque]
pub open spec fn mesh_fits(m: JsonModel, first: int, material: int) -> bool {
    exists|id: Seq<char>| #[trigger] mesh_json(id, first, material) == m
}

/// The tables belong together: three views and accessors and one material for each mesh, whose
/// primitive names them, and every view lies inside the buffer.
pub open spec fn tables_fit(p: Parts) -> bool {
    &&& p.bin.len() % 4 == 0
    &&& p.views.len() == 3 * p.meshes.len()
    &&& p.accessors.len() == p.views.len()
    &&& p.materials.len() == p.meshes.len()
    &&& forall|k: int|
        0 <= k < p.views.len() ==> view_fits(#[trigger] p.views[k], p.bin.len() as int)
    &&& forall|k: int| 0 <= k < p.meshes.len() ==> mesh_fits(#[trigger] p.meshes[k], 3 * k, k)
}

proof fn vectors_bytes_length(s: Seq<Vec3>)
    ensures
        vectors_bytes(s).len() == 12 * s.len(),
    decreases s.len(),
{
    if s.len() > 0 {
        vectors_bytes_length(s.drop_last());
    }
}

proof fn indices_bytes_length(s: Seq<u16>)
    ensures
        indices_bytes(s).len() == 2 * s.len(),
    decreases s.len(),
{
    if s.len() > 0 {
        indices_bytes_length(s.drop_last());
    }
}

proof fn padded_length(s: Seq<u8>)
    ensures
        padded(s).len() % 4 == 0,
        padded(s).len() >= s.len(),
{
}

proof fn view_inside_fits(offset: int, length: int, target: int, n: int)
    requires
        offset % 4 == 0,
        0 <= offset,
        0 <= length,
        offset + length <= n,
    ensures
        view_fits(view_json(offset, length, target), n),
{
    reveal(view_fits);
}

proof fn larger_buffer_fits(v: JsonModel, n: int, m: int)
    requires
        view_fits(v, n),
        n <= m,
    ensures
        view_fits(v, m),
{
    reveal(view_fits);
    let (offset, length, target) = choose|offset: int, length: int, target: int| #[trigger]
        view_json(offset, length, target) == v && offset % 4 == 0 && 0 <= offset && 0 <= length
            && offset + length <= n;
    view_inside_fits(offset, length, target, m);
}

proof fn next_mesh_fits(id: Seq<char>, first: int, material: int)
    ensures
        mesh_fits(mesh_json(id, first, material), first, material),
{
    reveal(mesh_fits);
}

proof fn mesh_keeps_tables(p: Parts, id: Seq<char>, m: MeshModel, s: Surface)
    requires
        tables_fit(p),
    ensures
        tables_fit(with_mesh(p, id, m, s)),
{
    let q = with_mesh(p, id, m, s);
    let start = p.bin + vectors_bytes(m.positions);
    let a = padded(start);
    let b = padded(a + vectors_bytes(m.normals));
    let n = p.views.len() as int;
    let size = q.bin.len() as int;
    vectors_bytes_length(m.positions);
    vectors_bytes_length(m.normals);
    indices_bytes_length(m.indices);
    padded_length(start);
    padded_length(a + vectors_bytes(m.normals));
    padded_length(b + indices_bytes(m.indices));
    view_inside_fits(
        p.bin.len() as int,
        12 * m.positions.len() as int,
        ARRAY_BUFFER as int,
        size,
    );
    view_inside_fits(a.len() as int, 12 * m.normals.len() as int, ARRAY_BUFFER as int, size);
    view_inside_fits(b.len() as int, 2 * m.indices.len() as int, ELEMENT_BUFFER as int, size);
    next_mesh_fits(id, p.accessors.len() as int, p.materials.len() as int);
    assert forall|k: int| 0 <= k < q.views.len() implies view_fits(#[trigger] q.views[k], size) by {
        if k < n {
            assert(q.views[k] == p.views[k]);
            larger_buffer_fits(p.views[k], p.bin.len() as int, size);
        }
    }
    assert forall|k: int| 0 <= k < q.meshes.len() implies mesh_fits(
        #[trigger] q.meshes[k],
        3 * k,
        k,
    ) by {
        if k < p.meshes.len() {
            assert(q.meshes[k] == p.meshes[k]);
        }
    }
}

/// Whatever document is exported, the tables of the file belong together.
pub proof fn exported_tables_fit(d: DocumentModel, n: int, g: spec_fn(Calc) -> Answer)
    requires
        0 <= n <= d.entities().len(),
    ensures
        parts_of(d, n, g) matches Ok(p) ==> tables_fit(p) && p.mesh_for.len() == n,
    decreases n,
{
    if n > 0 {
        exported_tables_fit(d, n - 1, g);
        let e = d.entities()[n - 1];
        if let Ok(p) = parts_of(d, n - 1, g) {
            if !has_no_mesh(e) {
                if let Ok(m) = mesh_of(e.recipe, e.size, g) {
                    mesh_keeps_tables(p, e.id, m, surface_of(d, e));
                }
            }
        }
    }
}

} // verus!
