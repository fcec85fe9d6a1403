//! What a reader finds in the tables and the buffer of an exported file.

use crate::base64::{decoded, notation_carries_the_bytes};
use crate::document::{surface_of, DocumentModel, EntityModel, MaterialGraph, Surface};
use crate::export::{
    accessor_members, exported, has_no_mesh, highest, indices_bytes, le16, le32, lowest,
    material_json, mesh_json, padded, parts_of, vec3_bytes, vec3_json, vectors_bytes, view_json,
    with_mesh, Parts,
};
use crate::geom::{mesh_of, meshes_are_well_formed, MeshModel};
use crate::json::JsonModel;
use crate::numeric::{Answer, Calc, Vec3};
use crate::text::decimal_text;
use vstd::prelude::*;

verus! {

/// The 16-bit number at a place, least significant byte first.
pub open spec fn short_at(b: Seq<u8>, at: int) -> int {
    b[at] + 256 * b[at + 1]
}

/// The 32-bit number at a place, least significant byte first.
pub open spec fn long_at(b: Seq<u8>, at: int) -> int {
    b[at] + 256 * b[at + 1] + 65536 * b[at + 2] + 16777216 * b[at + 3]
}

/// The vector whose three single-precision coordinates are at a place.
#[verifier::opaque]
pub open spec fn vector_at(b: Seq<u8>, at: int, v: Vec3) -> bool {
    &&& long_at(b, at) == v.x.bits
    &&& long_at(b, at + 4) == v.y.bits
    &&& long_at(b, at + 8) == v.z.bits
}

proof fn moved_vector(block: Seq<u8>, all: Seq<u8>, at: int, by: int, v: Vec3)
    requires
        0 <= at,
        at + 12 <= block.len(),
        forall|j: int| 0 <= j < block.len() ==> all[by + j] == #[trigger] block[j],
        vector_at(block, at, v),
    ensures
        vector_at(all, by + at, v),
{
    reveal(vector_at);
    assert(all[by + at] == block[at]);
    assert(all[by + (at + 1)] == block[at + 1]);
    assert(all[by + (at + 2)] == block[at + 2]);
    assert(all[by + (at + 3)] == block[at + 3]);
    assert(all[by + (at + 4)] == block[at + 4]);
    assert(all[by + (at + 5)] == block[at + 5]);
    assert(all[by + (at + 6)] == block[at + 6]);
    assert(all[by + (at + 7)] == block[at + 7]);
    assert(all[by + (at + 8)] == block[at + 8]);
    assert(all[by + (at + 9)] == block[at + 9]);
    assert(all[by + (at + 10)] == block[at + 10]);
    assert(all[by + (at + 11)] == block[at + 11]);
}

proof fn long_reads_back(bits: u32)
    ensures
        le32(bits).len() == 4,
        long_at(le32(bits), 0) == bits,
{
    let a = bits / 256;
    let b = bits / 65536;
    let c = bits / 16777216;
    assert(a / 256 == b && b / 256 == c);
    assert(bits == 256 * a + bits % 256);
    assert(a == 256 * b + a % 256);
    assert(b == 256 * c + b % 256);
    assert(c < 256);
}

proof fn vector_reads_back(v: Vec3)
    ensures
        vec3_bytes(v).len() == 12,
        vector_at(vec3_bytes(v), 0, v),
{
    reveal(vector_at);
    let b = vec3_bytes(v);
    long_reads_back(v.x.bits);
    long_reads_back(v.y.bits);
    long_reads_back(v.z.bits);
    let x = le32(v.x.bits);
    let y = le32(v.y.bits);
    let z = le32(v.z.bits);
    assert(b == x + y + z);
    assert(long_at(b, 0) == long_at(x, 0));
    assert(b[4] == y[0] && b[5] == y[1] && b[6] == y[2] && b[7] == y[3]);
    assert(long_at(b, 4) == long_at(y, 0));
    assert(b[8] == z[0] && b[9] == z[1] && b[10] == z[2] && b[11] == z[3]);
    assert(long_at(b, 8) == long_at(z, 0));
}

proof fn vectors_read_back(s: Seq<Vec3>)
    ensures
        vectors_bytes(s).len() == 12 * s.len(),
        forall|k: int|
            0 <= k < s.len() ==> vector_at(vectors_bytes(s), 12 * k, #[trigger] s[k]),
    decreases s.len(),
{
    if s.len() > 0 {
        let front = vectors_bytes(s.drop_last());
        let all = vectors_bytes(s);
        let last = vec3_bytes(s.last());
        vectors_read_back(s.drop_last());
        vector_reads_back(s.last());
        assert(all == front + last);
        assert forall|k: int| 0 <= k < s.len() implies vector_at(all, 12 * k, #[trigger] s[k]) by {
            if k < s.len() - 1 {
                assert(s.drop_last()[k] == s[k]);
                moved_vector(front, all, 12 * k, 0, s[k]);
            } else {
                moved_vector(last, all, 0, front.len() as int, s[k]);
            }
        }
    }
}

proof fn indices_read_back(s: Seq<u16>)
    ensures
        indices_bytes(s).len() == 2 * s.len(),
        forall|k: int|
            0 <= k < s.len() ==> short_at(indices_bytes(s), 2 * k) == #[trigger] s[k],
    decreases s.len(),
{
    if s.len() > 0 {
        let front = indices_bytes(s.drop_last());
        let all = indices_bytes(s);
        indices_read_back(s.drop_last());
        assert(all == front + le16(s.last()));
        assert forall|k: int| 0 <= k < s.len() implies short_at(all, 2 * k)
            == #[trigger] s[k] by {
            if k < s.len() - 1 {
                assert(s.drop_last()[k] == s[k]);
                assert(all[2 * k] == front[2 * k] && all[2 * k + 1] == front[2 * k + 1]);
            } else {
                assert(all[2 * k] == le16(s.last())[0] && all[2 * k + 1] == le16(s.last())[1]);
            }
        }
    }
}

/// A whole number as a file writes it.
pub open spec fn number(n: int) -> JsonModel {
    JsonModel::Number(decimal_text(n as nat))
}

/// A view of a file's buffer.
#[verifier::opaque]
pub open spec fn is_view(v: JsonModel, offset: int, length: int, target: int) -> bool {
    v == JsonModel::Object(
        seq![
            ("buffer"@, number(0)),
            ("byteOffset"@, number(offset)),
            ("byteLength"@, number(length)),
            ("target"@, number(target)),
        ],
    )
}

/// An accessor begins with its view, the kind of its numbers, their count and their shape.
#[verifier::opaque]
pub open spec fn is_accessor(
    v: JsonModel,
    view: int,
    component: int,
    count: int,
    shape: Seq<char>,
) -> bool {
    v matches JsonModel::Object(ms) && ms.len() >= 4 && ms[0] == ("bufferView"@, number(view))
        && ms[1] == ("componentType"@, number(component)) && ms[2] == ("count"@, number(count))
        && ms[3] == ("type"@, JsonModel::Text(shape))
}

/// Three numbers as a file writes them.
pub open spec fn numbers(v: Vec3) -> JsonModel {
    JsonModel::List(
        seq![JsonModel::Single(v.x), JsonModel::Single(v.y), JsonModel::Single(v.z)],
    )
}

/// A material of a name has a colour, a metalness and a roughness.
#[verifier::opaque]
pub open spec fn is_material(v: JsonModel, name: Seq<char>, s: Surface) -> bool {
    v == JsonModel::Object(
        seq![
            ("name"@, JsonModel::Text(name)),
            (
                "pbrMetallicRoughness"@,
                JsonModel::Object(
                    seq![
                        (
                            "baseColorFactor"@,
                            JsonModel::List(
                                seq![
                                    JsonModel::Single(s.color.r),
                                    JsonModel::Single(s.color.g),
                                    JsonModel::Single(s.color.b),
                                    JsonModel::Single(s.color.a),
                                ],
                            ),
                        ),
                        ("metallicFactor"@, JsonModel::Single(s.metallic)),
                        ("roughnessFactor"@, JsonModel::Single(s.roughness)),
                    ],
                ),
            ),
        ],
    )
}

/// The only primitive of a mesh names the accessors of its positions, its normals and its
/// indices, and its material.
#[verifier::opaque]
pub open spec fn is_mesh(
    v: JsonModel,
    name: Seq<char>,
    positions: int,
    normals: int,
    indices: int,
    material: int,
) -> bool {
    v == JsonModel::Object(
        seq![
            ("name"@, JsonModel::Text(name)),
            (
                "primitives"@,
                JsonModel::List(
                    seq![
                        JsonModel::Object(
                            seq![
                                (
                                    "attributes"@,
                                    JsonModel::Object(
                                        seq![
                                            ("POSITION"@, number(positions)),
                                            ("NORMAL"@, number(normals)),
                                        ],
                                    ),
                                ),
                                ("indices"@, number(indices)),
                                ("material"@, number(material)),
                            ],
                        ),
                    ],
                ),
            ),
        ],
    )
}

/// A mesh lies in a buffer: its positions from byte `a` on, its normals from `b` on and its
/// indices from `c` on.
#[verifier::opaque]
pub open spec fn mesh_at(bin: Seq<u8>, a: int, b: int, c: int, m: MeshModel) -> bool {
    &&& 0 <= a
    &&& a + 12 * m.positions.len() <= b
    &&& b + 12 * m.normals.len() <= c
    &&& c + 2 * m.indices.len() <= bin.len()
    &&& forall|k: int| 0 <= k < m.positions.len() ==> vector_at(bin, a + 12 * k, #[trigger] m.positions[k])
    &&& forall|k: int| 0 <= k < m.normals.len() ==> vector_at(bin, b + 12 * k, #[trigger] m.normals[k])
    &&& forall|k: int| 0 <= k < m.indices.len() ==> short_at(bin, c + 2 * k) == #[trigger] m.indices[k]
}

/// Mesh number `i` of the tables is a given one, with a given surface, and every table leads to
/// its part of the buffer.
#[verifier::opaque]
pub open spec fn tells(
    p: Parts,
    i: int,
    name: Seq<char>,
    m: MeshModel,
    s: Surface,
    a: int,
    b: int,
    c: int,
) -> bool {
    &&& 0 <= i < p.meshes.len()
    &&& i < p.materials.len()
    &&& 3 * i + 2 < p.views.len()
    &&& 3 * i + 2 < p.accessors.len()
    &&& mesh_at(p.bin, a, b, c, m)
    &&& is_view(p.views[3 * i], a, 12 * m.positions.len() as int, 34962)
    &&& is_view(p.views[3 * i + 1], b, 12 * m.normals.len() as int, 34962)
    &&& is_view(p.views[3 * i + 2], c, 2 * m.indices.len() as int, 34963)
    &&& is_accessor(p.accessors[3 * i], 3 * i, 5126, m.positions.len() as int, "VEC3"@)
    &&& is_accessor(p.accessors[3 * i + 1], 3 * i + 1, 5126, m.normals.len() as int, "VEC3"@)
    &&& is_accessor(p.accessors[3 * i + 2], 3 * i + 2, 5123, m.indices.len() as int, "SCALAR"@)
    &&& is_mesh(p.meshes[i], name, 3 * i, 3 * i + 1, 3 * i + 2, i)
    &&& is_material(p.materials[i], name, s)
}

/// The longer tables begin with the shorter ones.
#[verifier::opaque]
spec fn grows(p: Parts, q: Parts) -> bool {
    &&& p.bin.is_prefix_of(q.bin)
    &&& p.views.is_prefix_of(q.views)
    &&& p.accessors.is_prefix_of(q.accessors)
    &&& p.materials.is_prefix_of(q.materials)
    &&& p.meshes.is_prefix_of(q.meshes)
    &&& p.mesh_for.is_prefix_of(q.mesh_for)
}

proof fn longer_buffer_holds(x: Seq<u8>, y: Seq<u8>, a: int, b: int, c: int, m: MeshModel)
    requires
        mesh_at(x, a, b, c, m),
        x.is_prefix_of(y),
    ensures
        mesh_at(y, a, b, c, m),
{
    reveal(mesh_at);
    assert(forall|j: int| 0 <= j < x.len() ==> y[0 + j] == #[trigger] x[j]);
    assert forall|k: int| 0 <= k < m.positions.len() implies vector_at(
        y,
        a + 12 * k,
        #[trigger] m.positions[k],
    ) by {
        moved_vector(x, y, a + 12 * k, 0, m.positions[k]);
    }
    assert forall|k: int| 0 <= k < m.normals.len() implies vector_at(
        y,
        b + 12 * k,
        #[trigger] m.normals[k],
    ) by {
        moved_vector(x, y, b + 12 * k, 0, m.normals[k]);
    }
    assert forall|k: int| 0 <= k < m.indices.len() implies short_at(y, c + 2 * k)
        == #[trigger] m.indices[k] by {
        assert(short_at(x, c + 2 * k) == m.indices[k]);
        assert(y[c + 2 * k] == x[c + 2 * k] && y[c + 2 * k + 1] == x[c + 2 * k + 1]);
    }
}

proof fn longer_tables_tell(
    p: Parts,
    q: Parts,
    i: int,
    name: Seq<char>,
    m: MeshModel,
    s: Surface,
    a: int,
    b: int,
    c: int,
)
    requires
        tells(p, i, name, m, s, a, b, c),
        grows(p, q),
    ensures
        tells(q, i, name, m, s, a, b, c),
{
    reveal(tells);
    reveal(grows);
    longer_buffer_holds(p.bin, q.bin, a, b, c, m);
    assert(p.views[3 * i] == q.views[3 * i]);
    assert(p.views[3 * i + 1] == q.views[3 * i + 1]);
    assert(p.views[3 * i + 2] == q.views[3 * i + 2]);
    assert(p.accessors[3 * i] == q.accessors[3 * i]);
    assert(p.accessors[3 * i + 1] == q.accessors[3 * i + 1]);
    assert(p.accessors[3 * i + 2] == q.accessors[3 * i + 2]);
    assert(p.meshes[i] == q.meshes[i]);
    assert(p.materials[i] == q.materials[i]);
}

/// A block written behind others is found where they end.
proof fn block_is_found(before: Seq<u8>, block: Seq<u8>, after: Seq<u8>)
    requires
        (before + block).is_prefix_of(after),
    ensures
        before.is_prefix_of(after),
        forall|j: int| 0 <= j < block.len() ==> after[before.len() + j] == #[trigger] block[j],
{
    let both = before + block;
    assert forall|j: int| 0 <= j < block.len() implies after[before.len() + j]
        == #[trigger] block[j] by {
        assert(both[before.len() + j] == block[j]);
        assert(after[before.len() + j] == both[before.len() + j]);
    }
    assert forall|j: int| 0 <= j < before.len() implies before[j] == after[j] by {
        assert(both[j] == before[j]);
    }
    assert(before =~= after.take(before.len() as int));
}

/// Blocks of bytes one behind the other hold a mesh.
proof fn blocks_hold_mesh(bin: Seq<u8>, m: MeshModel) -> (r: (int, int, int))
    ensures
        ({
            let one = padded(bin + vectors_bytes(m.positions));
            let two = padded(one + vectors_bytes(m.normals));
            let all = padded(two + indices_bytes(m.indices));
            &&& mesh_at(all, r.0, r.1, r.2, m)
            &&& r.0 == bin.len()
            &&& r.1 == one.len()
            &&& r.2 == two.len()
            &&& bin.is_prefix_of(all)
        }),
{
    reveal(mesh_at);
    let vs = vectors_bytes(m.positions);
    let ns = vectors_bytes(m.normals);
    let xs = indices_bytes(m.indices);
    let one = padded(bin + vs);
    let two = padded(one + ns);
    let all = padded(two + xs);
    let a = bin.len() as int;
    let b = one.len() as int;
    let c = two.len() as int;
    vectors_read_back(m.positions);
    vectors_read_back(m.normals);
    indices_read_back(m.indices);
    assert((two + xs).is_prefix_of(all));
    block_is_found(two, xs, all);
    assert((one + ns).is_prefix_of(two));
    assert((one + ns).is_prefix_of(all));
    block_is_found(one, ns, all);
    assert((bin + vs).is_prefix_of(one));
    assert((bin + vs).is_prefix_of(all));
    block_is_found(bin, vs, all);
    assert forall|k: int| 0 <= k < m.positions.len() implies vector_at(
        all,
        a + 12 * k,
        #[trigger] m.positions[k],
    ) by {
        moved_vector(vs, all, 12 * k, a, m.positions[k]);
    }
    assert forall|k: int| 0 <= k < m.normals.len() implies vector_at(
        all,
        b + 12 * k,
        #[trigger] m.normals[k],
    ) by {
        moved_vector(ns, all, 12 * k, b, m.normals[k]);
    }
    assert forall|k: int| 0 <= k < m.indices.len() implies short_at(all, c + 2 * k)
        == #[trigger] m.indices[k] by {
        assert(short_at(xs, 2 * k) == m.indices[k]);
        assert(all[c + 2 * k] == xs[2 * k] && all[c + (2 * k + 1)] == xs[2 * k + 1]);
    }
    (a, b, c)
}

proof fn written_view(offset: int, length: int, target: int)
    ensures
        is_view(view_json(offset, length, target), offset, length, target),
{
    reveal(is_view);
}

proof fn written_accessor(
    view: int,
    component: int,
    count: int,
    shape: Seq<char>,
    more: Seq<(Seq<char>, JsonModel)>,
)
    ensures
        is_accessor(
            JsonModel::Object(accessor_members(view, component, count, shape) + more),
            view,
            component,
            count,
            shape,
        ),
{
    reveal(is_accessor);
}

proof fn written_mesh(name: Seq<char>, first: int, material: int)
    ensures
        is_mesh(mesh_json(name, first, material), name, first, first + 1, first + 2, material),
{
    reveal(is_mesh);
}

proof fn written_material(name: Seq<char>, s: Surface)
    ensures
        is_material(material_json(name, s), name, s),
{
    reveal(is_material);
}

#[verifier::rlimit(40)]
proof fn next_mesh_tells(p: Parts, name: Seq<char>, m: MeshModel, s: Surface) -> (r: (
    int,
    int,
    int,
))
    requires
        p.views.len() == 3 * p.meshes.len(),
        p.accessors.len() == p.views.len(),
        p.materials.len() == p.meshes.len(),
    ensures
        tells(with_mesh(p, name, m, s), p.meshes.len() as int, name, m, s, r.0, r.1, r.2),
        grows(p, with_mesh(p, name, m, s)),
        with_mesh(p, name, m, s).mesh_for == p.mesh_for.push(Some(p.meshes.len() as usize)),
{
    let q = with_mesh(p, name, m, s);
    let n = p.views.len() as int;
    let i = p.meshes.len() as int;
    let (a, b, c) = blocks_hold_mesh(p.bin, m);
    let np = m.positions.len() as int;
    let nn = m.normals.len() as int;
    let ni = m.indices.len() as int;
    written_view(a, 12 * np, 34962);
    written_view(b, 12 * nn, 34962);
    written_view(c, 2 * ni, 34963);
    assert(q.views[n] == view_json(a, 12 * np, 34962));
    assert(q.views[n + 1] == view_json(b, 12 * nn, 34962));
    assert(q.views[n + 2] == view_json(c, 2 * ni, 34963));
    let more = seq![
        ("min"@, vec3_json(lowest(m.positions, np))),
        ("max"@, vec3_json(highest(m.positions, np))),
    ];
    written_accessor(n, 5126, np, "VEC3"@, more);
    written_accessor(n + 1, 5126, nn, "VEC3"@, Seq::empty());
    written_accessor(n + 2, 5123, ni, "SCALAR"@, Seq::empty());
    let pos = accessor_members(n, 5126, np, "VEC3"@);
    assert(pos.push(more[0]).push(more[1]) =~= pos + more);
    assert(q.accessors[n] == JsonModel::Object(pos + more));
    let nor = accessor_members(n + 1, 5126, nn, "VEC3"@);
    assert(nor + Seq::empty() =~= nor);
    assert(q.accessors[n + 1] == JsonModel::Object(nor));
    let ind = accessor_members(n + 2, 5123, ni, "SCALAR"@);
    assert(ind + Seq::empty() =~= ind);
    assert(q.accessors[n + 2] == JsonModel::Object(ind));
    written_mesh(name, n, i);
    assert(q.meshes[i] == mesh_json(name, n, i));
    written_material(name, s);
    assert(q.materials[i] == material_json(name, s));
    assert(grows(p, q)) by {
        reveal(grows);
    }
    reveal(tells);
    (a, b, c)
}

proof fn meshes_are_few(d: DocumentModel, n: int, g: spec_fn(Calc) -> Answer)
    requires
        0 <= n <= d.entities().len(),
    ensures
        parts_of(d, n, g) matches Ok(p) ==> p.meshes.len() <= n,
    decreases n,
{
    if n > 0 {
        meshes_are_few(d, n - 1, g);
    }
}

/// What tables say of entity `j`: its mesh and its surface where it has one.
#[verifier::opaque]
pub open spec fn told(
    p: Parts,
    j: int,
    e: EntityModel,
    s: Surface,
    g: spec_fn(Calc) -> Answer,
) -> bool {
    &&& 0 <= j < p.mesh_for.len()
    &&& has_no_mesh(e) ==> p.mesh_for[j] is None
    &&& !has_no_mesh(e) ==> {
        &&& p.mesh_for[j] matches Some(i)
        &&& mesh_of(e.recipe, e.size, g) matches Ok(m)
        &&& exists|a: int, b: int, c: int| #[trigger] tells(p, i as int, e.id, m, s, a, b, c)
    }
}

proof fn tables_count(d: DocumentModel, n: int, g: spec_fn(Calc) -> Answer)
    requires
        0 <= n <= d.entities().len(),
        parts_of(d, n, g) is Ok,
    ensures
        ({
            let p = parts_of(d, n, g)->Ok_0;
            &&& p.views.len() == 3 * p.meshes.len()
            &&& p.accessors.len() == p.views.len()
            &&& p.materials.len() == p.meshes.len()
            &&& p.mesh_for.len() == n
            &&& p.meshes.len() <= n
        }),
{
    crate::export::exported_tables_fit(d, n, g);
    meshes_are_few(d, n, g);
}

/// Tables with one more mesh.
#[verifier::opaque]
spec fn follows(p: Parts, q: Parts, name: Seq<char>, m: MeshModel, s: Surface) -> bool {
    q == with_mesh(p, name, m, s)
}

proof fn following_tables_tell(p: Parts, q: Parts, name: Seq<char>, m: MeshModel, s: Surface)
    requires
        follows(p, q, name, m, s),
        p.views.len() == 3 * p.meshes.len(),
        p.accessors.len() == p.views.len(),
        p.materials.len() == p.meshes.len(),
    ensures
        exists|a: int, b: int, c: int|
            #[trigger] tells(q, p.meshes.len() as int, name, m, s, a, b, c),
        grows(p, q),
        q.mesh_for == p.mesh_for.push(Some(p.meshes.len() as usize)),
{
    reveal(follows);
    let (a, b, c) = next_mesh_tells(p, name, m, s);
    assert(tells(q, p.meshes.len() as int, name, m, s, a, b, c));
}

proof fn next_tables_follow(d: DocumentModel, n: int, g: spec_fn(Calc) -> Answer)
    requires
        0 < n <= d.entities().len(),
        parts_of(d, n, g) is Ok,
        !has_no_mesh(d.entities()[n - 1]),
    ensures
        ({
            let e = d.entities()[n - 1];
            &&& parts_of(d, n - 1, g) is Ok
            &&& mesh_of(e.recipe, e.size, g) matches Ok(m)
            &&& follows(
                parts_of(d, n - 1, g)->Ok_0,
                parts_of(d, n, g)->Ok_0,
                e.id,
                m,
                surface_of(d, e),
            )
        }),
{
    reveal(follows);
}

proof fn newest_is_told(
    p: Parts,
    q: Parts,
    e: EntityModel,
    m: MeshModel,
    s: Surface,
    g: spec_fn(Calc) -> Answer,
)
    requires
        !has_no_mesh(e),
        mesh_of(e.recipe, e.size, g) == Ok::<MeshModel, Seq<char>>(m),
        p.meshes.len() <= usize::MAX,
        exists|a: int, b: int, c: int|
            #[trigger] tells(q, p.meshes.len() as int, e.id, m, s, a, b, c),
        q.mesh_for == p.mesh_for.push(Some(p.meshes.len() as usize)),
    ensures
        told(q, p.mesh_for.len() as int, e, s, g),
{
    let (a, b, c) = choose|a: int, b: int, c: int|
        #[trigger] tells(q, p.meshes.len() as int, e.id, m, s, a, b, c);
    let j = p.mesh_for.len() as int;
    let i = q.mesh_for[j]->0;
    assert(q.mesh_for[j] == Some(p.meshes.len() as usize));
    assert(i as int == p.meshes.len());
    let n = mesh_of(e.recipe, e.size, g)->Ok_0;
    assert(tells(q, i as int, e.id, n, s, a, b, c));
    assert(told(q, j, e, s, g)) by {
        reveal(told);
        assert(q.mesh_for[j] matches Some(x) && x == i);
        assert(exists|a: int, b: int, c: int|
            #[trigger] tells(q, i as int, e.id, n, s, a, b, c));
    }
}

proof fn older_is_told(
    p: Parts,
    q: Parts,
    j: int,
    e: EntityModel,
    s: Surface,
    g: spec_fn(Calc) -> Answer,
)
    requires
        told(p, j, e, s, g),
        grows(p, q),
    ensures
        told(q, j, e, s, g),
{
    reveal(told);
    assert(q.mesh_for[j] == p.mesh_for[j] && j < q.mesh_for.len()) by {
        reveal(grows);
    }
    if !has_no_mesh(e) {
        let i = p.mesh_for[j]->0;
        let m = mesh_of(e.recipe, e.size, g)->Ok_0;
        let (a, b, c) = choose|a: int, b: int, c: int|
            #[trigger] tells(p, i as int, e.id, m, s, a, b, c);
        longer_tables_tell(p, q, i as int, e.id, m, s, a, b, c);
    }
}

proof fn without_mesh_is_told(p: Parts, q: Parts, e: EntityModel, s: Surface, g: spec_fn(Calc) -> Answer)
    requires
        has_no_mesh(e),
        q == (Parts { mesh_for: p.mesh_for.push(None), ..p }),
    ensures
        told(q, p.mesh_for.len() as int, e, s, g),
        grows(p, q),
{
    reveal(told);
    reveal(grows);
}

proof fn all_are_told(d: DocumentModel, n: int, j: int, g: spec_fn(Calc) -> Answer)
    requires
        0 <= j < n <= d.entities().len(),
        n <= usize::MAX,
        parts_of(d, n, g) is Ok,
    ensures
        told(parts_of(d, n, g)->Ok_0, j, d.entities()[j], surface_of(d, d.entities()[j]), g),
    decreases n,
{
    let e = d.entities()[n - 1];
    let p = parts_of(d, n - 1, g)->Ok_0;
    let q = parts_of(d, n, g)->Ok_0;
    let s = surface_of(d, e);
    tables_count(d, n - 1, g);
    if has_no_mesh(e) {
        without_mesh_is_told(p, q, e, s, g);
    } else {
        next_tables_follow(d, n, g);
        let m = mesh_of(e.recipe, e.size, g)->Ok_0;
        following_tables_tell(p, q, e.id, m, s);
        newest_is_told(p, q, e, m, s, g);
    }
    if j < n - 1 {
        all_are_told(d, n - 1, j, g);
        older_is_told(p, q, j, d.entities()[j], surface_of(d, d.entities()[j]), g);
    }
}

/// Reading the tables of an exported file gives back the mesh and the surface of every entity
/// that has one: the positions and normals number for number, and indices that all name one of
/// its positions.
pub proof fn exported_meshes_read_back(d: DocumentModel, j: int, g: spec_fn(Calc) -> Answer)
    requires
        0 <= j < d.entities().len() <= usize::MAX,
        parts_of(d, d.entities().len() as int, g) is Ok,
    ensures
        ({
            let p = parts_of(d, d.entities().len() as int, g)->Ok_0;
            let e = d.entities()[j];
            &&& p.mesh_for.len() == d.entities().len()
            &&& has_no_mesh(e) ==> p.mesh_for[j] is None
            &&& !has_no_mesh(e) ==> {
                &&& p.mesh_for[j] matches Some(i)
                &&& mesh_of(e.recipe, e.size, g) matches Ok(m)
                &&& exists|a: int, b: int, c: int|
                    #[trigger] tells(p, i as int, e.id, m, surface_of(d, e), a, b, c)
                &&& forall|k: int|
                    0 <= k < m.indices.len() ==> 0 <= #[trigger] m.indices[k] < m.positions.len()
            }
        }),
{
    let e = d.entities()[j];
    all_are_told(d, d.entities().len() as int, j, g);
    tables_count(d, d.entities().len() as int, g);
    reveal(told);
    if !has_no_mesh(e) {
        meshes_are_well_formed(e.recipe, e.size, g);
    }
}

/// The least corner of points: no point is smaller in any coordinate, and in each coordinate
/// some point is as small.
pub open spec fn is_least(s: Seq<Vec3>, v: Vec3) -> bool {
    &&& forall|k: int|
        0 <= k < s.len() ==> v.x.rank() <= (#[trigger] s[k]).x.rank() && v.y.rank()
            <= s[k].y.rank() && v.z.rank() <= s[k].z.rank()
    &&& exists|k: int| 0 <= k < s.len() && (#[trigger] s[k]).x.rank() == v.x.rank()
    &&& exists|k: int| 0 <= k < s.len() && (#[trigger] s[k]).y.rank() == v.y.rank()
    &&& exists|k: int| 0 <= k < s.len() && (#[trigger] s[k]).z.rank() == v.z.rank()
}

/// The greatest corner of points.
pub open spec fn is_greatest(s: Seq<Vec3>, v: Vec3) -> bool {
    &&& forall|k: int|
        0 <= k < s.len() ==> (#[trigger] s[k]).x.rank() <= v.x.rank() && s[k].y.rank()
            <= v.y.rank() && s[k].z.rank() <= v.z.rank()
    &&& exists|k: int| 0 <= k < s.len() && (#[trigger] s[k]).x.rank() == v.x.rank()
    &&& exists|k: int| 0 <= k < s.len() && (#[trigger] s[k]).y.rank() == v.y.rank()
    &&& exists|k: int| 0 <= k < s.len() && (#[trigger] s[k]).z.rank() == v.z.rank()
}

/// Every coordinate is a finite number.
pub open spec fn all_finite(s: Seq<Vec3>) -> bool {
    forall|k: int|
        0 <= k < s.len() ==> (#[trigger] s[k]).x.magnitude() < 0x7f80_0000 && s[k].y.magnitude()
            < 0x7f80_0000 && s[k].z.magnitude() < 0x7f80_0000
}

/// The bounds that a file gives for positions fit them as tightly as can be.
pub proof fn bounds_are_tight(s: Seq<Vec3>, n: int)
    requires
        0 < n <= s.len(),
        all_finite(s),
    ensures
        is_least(s.take(n), lowest(s, n)),
        is_greatest(s.take(n), highest(s, n)),
        lowest(s, n).x.magnitude() < 0x7f80_0000 && lowest(s, n).y.magnitude() < 0x7f80_0000
            && lowest(s, n).z.magnitude() < 0x7f80_0000,
        highest(s, n).x.magnitude() < 0x7f80_0000 && highest(s, n).y.magnitude() < 0x7f80_0000
            && highest(s, n).z.magnitude() < 0x7f80_0000,
    decreases n,
{
    reveal_with_fuel(lowest, 2);
    reveal_with_fuel(highest, 2);
    let t = s.take(n);
    let p = s[n - 1];
    assert(t[n - 1] == p);
    if n > 1 {
        bounds_are_tight(s, n - 1);
        let u = s.take(n - 1);
        assert forall|k: int| 0 <= k < n - 1 implies #[trigger] t[k] == u[k] by {}
        let l = lowest(s, n - 1);
        let h = highest(s, n - 1);
        let a = choose|k: int| 0 <= k < u.len() && (#[trigger] u[k]).x.rank() == l.x.rank();
        let b = choose|k: int| 0 <= k < u.len() && (#[trigger] u[k]).y.rank() == l.y.rank();
        let c = choose|k: int| 0 <= k < u.len() && (#[trigger] u[k]).z.rank() == l.z.rank();
        assert(t[a] == u[a] && t[b] == u[b] && t[c] == u[c]);
        let x = choose|k: int| 0 <= k < u.len() && (#[trigger] u[k]).x.rank() == h.x.rank();
        let y = choose|k: int| 0 <= k < u.len() && (#[trigger] u[k]).y.rank() == h.y.rank();
        let z = choose|k: int| 0 <= k < u.len() && (#[trigger] u[k]).z.rank() == h.z.rank();
        assert(t[x] == u[x] && t[y] == u[y] && t[z] == u[z]);
    }
}

/// An exported file holds its buffer as a data URI that decodes to the bytes its views speak of,
/// and says how many they are.
pub proof fn exported_file_carries_its_buffer(
    d: DocumentModel,
    graphs: Seq<MaterialGraph>,
    g: spec_fn(Calc) -> Answer,
) -> (text: Seq<char>)
    requires
        exported(d, graphs, g) is Ok,
    ensures
        ({
            let p = parts_of(d, d.entities().len() as int, g)->Ok_0;
            &&& exported(d, graphs, g)->Ok_0 matches JsonModel::Object(ms)
            &&& decoded(text) == p.bin
            &&& ms.contains(
                (
                    "buffers"@,
                    JsonModel::List(
                        seq![
                            JsonModel::Object(
                                seq![
                                    ("byteLength"@, number(p.bin.len() as int)),
                                    (
                                        "uri"@,
                                        JsonModel::Text(
                                            "data:application/octet-stream;base64,"@ + text,
                                        ),
                                    ),
                                ],
                            ),
                        ],
                    ),
                ),
            )
            &&& ms.contains(("bufferViews"@, JsonModel::List(p.views)))
            &&& ms.contains(("accessors"@, JsonModel::List(p.accessors)))
            &&& ms.contains(("meshes"@, JsonModel::List(p.meshes)))
            &&& ms.contains(("materials"@, JsonModel::List(p.materials)))
        }),
{
    let p = parts_of(d, d.entities().len() as int, g)->Ok_0;
    notation_carries_the_bytes(p.bin);
    let ms = exported(d, graphs, g)->Ok_0->Object_0;
    assert(ms[8].0 == "buffers"@);
    assert(ms[7] == ("bufferViews"@, JsonModel::List(p.views)));
    assert(ms[6] == ("accessors"@, JsonModel::List(p.accessors)));
    assert(ms[5] == ("materials"@, JsonModel::List(p.materials)));
    assert(ms[4] == ("meshes"@, JsonModel::List(p.meshes)));
    crate::base64::base64_text(p.bin)
}

} // verus!
