//! What stands where in an exported file, and where an import looks for it.

use crate::document::{DocumentModel, EntityModel, GraphModel, MaterialGraph, Surface};
use crate::export::{
    asset_json, gltf_json, last_index, material_json, node_json, parent_index, under, Parts,
};
use crate::import::{floor_extras, imported_document, is_ours, nothing, read_node, text_at};
use crate::json::{member_of, JsonModel};
use crate::numeric::Real;
use crate::roundtrip::{extras_members, file_members, member_found, node_members};
use crate::text::decimal_text;
use vstd::prelude::*;

verus! {

/// A list of three numbers.
pub open spec fn three(a: JsonModel, b: JsonModel, c: JsonModel) -> JsonModel {
    JsonModel::List(seq![a, b, c])
}

/// A list of four numbers.
pub open spec fn four(a: JsonModel, b: JsonModel, c: JsonModel, d: JsonModel) -> JsonModel {
    JsonModel::List(seq![a, b, c, d])
}

/// The node of an entity carries its id as its name and its placement under the names that glTF has
/// for them, and in its extras what glTF has no names for.
pub proof fn nodes_carry_their_entities(
    e: EntityModel,
    mesh: Option<usize>,
    children: Seq<JsonModel>,
)
    ensures
        ({
            let j = node_json(e, mesh, children);
            let t = e.transform.translation;
            let q = e.transform.rotation;
            let s = e.transform.scale;
            let x = member_of(j.member("extras"@), "thinnerFloor"@);
            &&& j.member("name"@) == Some(JsonModel::Text(e.id))
            &&& j.member("translation"@) == Some(
                three(JsonModel::Single(t.x), JsonModel::Single(t.y), JsonModel::Single(t.z)),
            )
            &&& j.member("rotation"@) == Some(
                four(
                    JsonModel::Single(q.x),
                    JsonModel::Single(q.y),
                    JsonModel::Single(q.z),
                    JsonModel::Single(q.w),
                ),
            )
            &&& j.member("scale"@) == Some(
                three(JsonModel::Single(s.x), JsonModel::Single(s.y), JsonModel::Single(s.z)),
            )
            &&& mesh matches Some(m) ==> j.member("mesh"@) == Some(
                JsonModel::Number(decimal_text(m as nat)),
            )
            &&& mesh is None ==> j.member("mesh"@) is None
            &&& children.len() > 0 ==> j.member("children"@) == Some(JsonModel::List(children))
            &&& children.len() == 0 ==> j.member("children"@) is None
            &&& member_of(x, "recipe"@) == Some(JsonModel::Text(e.recipe))
            &&& member_of(x, "kind"@) == Some(JsonModel::Text(e.kind))
            &&& member_of(x, "size"@) == Some(
                three(
                    JsonModel::Single(e.size.x),
                    JsonModel::Single(e.size.y),
                    JsonModel::Single(e.size.z),
                ),
            )
            &&& text_at(member_of(x, "graphId"@)) == e.graph_id
        }),
{
    node_members(e, mesh, children);
    extras_members(e);
}

/// A material carries the colour, the metallic share and the roughness of its surface under their
/// own names.
pub proof fn materials_carry_their_surfaces(id: Seq<char>, s: Surface)
    ensures
        ({
            let j = material_json(id, s);
            let m = j.member("pbrMetallicRoughness"@);
            &&& j.member("name"@) == Some(JsonModel::Text(id))
            &&& member_of(m, "baseColorFactor"@) == Some(
                four(
                    JsonModel::Single(s.color.r),
                    JsonModel::Single(s.color.g),
                    JsonModel::Single(s.color.b),
                    JsonModel::Single(s.color.a),
                ),
            )
            &&& member_of(m, "metallicFactor"@) == Some(JsonModel::Single(s.metallic))
            &&& member_of(m, "roughnessFactor"@) == Some(JsonModel::Single(s.roughness))
        }),
{
    reveal_strlit("name");
    reveal_strlit("pbrMetallicRoughness");
    reveal_strlit("baseColorFactor");
    reveal_strlit("metallicFactor");
    reveal_strlit("roughnessFactor");
    assert("name"@[0] == 'n');
    assert("pbrMetallicRoughness"@[0] == 'p');
    assert("baseColorFactor"@[0] == 'b');
    assert("metallicFactor"@[0] == 'm');
    assert("roughnessFactor"@[0] == 'r');
    let ms = material_json(id, s)->Object_0;
    member_found(ms, 0, "name"@);
    member_found(ms, 1, "pbrMetallicRoughness"@);
    let inner = ms[1].1->Object_0;
    member_found(inner, 0, "baseColorFactor"@);
    member_found(inner, 1, "metallicFactor"@);
    member_found(inner, 2, "roughnessFactor"@);
}

/// A file says which version of glTF it is and what wrote it.
pub proof fn files_name_their_version(d: DocumentModel, graphs: Seq<MaterialGraph>, p: Parts)
    ensures
        member_of(gltf_json(d, graphs, p).member("asset"@), "version"@) == Some(
            JsonModel::Text("2.0"@),
        ),
        member_of(gltf_json(d, graphs, p).member("asset"@), "generator"@) == Some(
            JsonModel::Text("thinner-floor"@),
        ),
        is_ours(gltf_json(d, graphs, p)),
{
    reveal_strlit("version");
    reveal_strlit("generator");
    reveal_strlit("extras");
    assert("version"@[0] == 'v' && "generator"@[0] == 'g' && "extras"@[0] == 'e');
    file_members(d, graphs, p);
    let ms = asset_json(graphs)->Object_0;
    member_found(ms, 0, "version"@);
    member_found(ms, 1, "generator"@);
}

/// The children of a node are exactly the entities whose parent it is, and the roots of the scene
/// are exactly those that have no parent in the file.
pub proof fn children_hang_under_their_parents(
    es: Seq<EntityModel>,
    parent: Option<int>,
    n: int,
    i: int,
)
    requires
        0 <= n <= es.len(),
    ensures
        0 <= i < n && parent_index(es, i) == parent ==> under(es, parent, n).contains(
            JsonModel::Number(decimal_text(i as nat)),
        ),
        forall|j: int|
            0 <= j < under(es, parent, n).len() ==> exists|c: int|
                0 <= c < n && parent_index(es, c) == parent && #[trigger] under(es, parent, n)[j]
                    == JsonModel::Number(#[trigger] decimal_text(c as nat)),
    decreases n,
{
    if n > 0 {
        children_hang_under_their_parents(es, parent, n - 1, i);
        let before = under(es, parent, n - 1);
        let now = under(es, parent, n);
        assert forall|j: int| 0 <= j < now.len() implies exists|c: int|
            0 <= c < n && parent_index(es, c) == parent && #[trigger] now[j] == JsonModel::Number(
                #[trigger] decimal_text(c as nat),
            ) by {
            if j < before.len() {
                assert(now[j] == before[j]);
            } else {
                assert(now[j] == JsonModel::Number(decimal_text((n - 1) as nat)));
            }
        }
        if 0 <= i < n && parent_index(es, i) == parent {
            if i == n - 1 {
                assert(now[now.len() - 1] == JsonModel::Number(decimal_text(i as nat)));
            } else {
                let w = JsonModel::Number(decimal_text(i as nat));
                let j = choose|j: int| 0 <= j < before.len() && before[j] == w;
                assert(now[j] == w);
            }
        }
    }
}

/// An import takes each part of an entity from the member that carries it. A part that is missing is
/// at the origin, unturned, of unit scale and of unit size.
pub proof fn nodes_are_read_by_their_names(
    v: JsonModel,
    n: JsonModel,
    i: int,
    k: spec_fn(Seq<char>) -> Real,
    a: Seq<char>,
    b: Seq<char>,
    c: Seq<char>,
    d: Seq<char>,
)
    requires
        !nothing(floor_extras(n)),
    ensures
        read_node(v, n, i, k) is Ok,
        ({
            let e = read_node(v, n, i, k)->Ok_0;
            let x = member_of(n.member("extras"@), "thinnerFloor"@);
            let abc = three(JsonModel::Number(a), JsonModel::Number(b), JsonModel::Number(c));
            let abcd = four(
                JsonModel::Number(a),
                JsonModel::Number(b),
                JsonModel::Number(c),
                JsonModel::Number(d),
            );
            &&& e.parent is None
            &&& n.member("name"@) == Some(JsonModel::Text(a)) && a.len() > 0 ==> e.id == a
            &&& n.member("name"@) is None ==> e.id == "node-"@ + decimal_text(i as nat)
            &&& n.member("translation"@) == Some(abc) ==> e.transform.translation.x == k(a)
                && e.transform.translation.y == k(b) && e.transform.translation.z == k(c)
            &&& n.member("translation"@) is None ==> e.transform.translation.x.bits == 0
                && e.transform.translation.y.bits == 0 && e.transform.translation.z.bits == 0
            &&& n.member("rotation"@) == Some(abcd) ==> e.transform.rotation.x == k(a)
                && e.transform.rotation.y == k(b) && e.transform.rotation.z == k(c)
                && e.transform.rotation.w == k(d)
            &&& n.member("rotation"@) is None ==> e.transform.rotation.x.bits == 0
                && e.transform.rotation.y.bits == 0 && e.transform.rotation.z.bits == 0
                && e.transform.rotation.w.bits == 0x3f80_0000
            &&& n.member("scale"@) == Some(abc) ==> e.transform.scale.x == k(a)
                && e.transform.scale.y == k(b) && e.transform.scale.z == k(c)
            &&& n.member("scale"@) is None ==> e.transform.scale.x.bits == 0x3f80_0000
                && e.transform.scale.y.bits == 0x3f80_0000 && e.transform.scale.z.bits
                == 0x3f80_0000
            &&& member_of(x, "recipe"@) == Some(JsonModel::Text(a)) ==> e.recipe == a
            &&& member_of(x, "recipe"@) is None ==> e.recipe == "box"@
            &&& member_of(x, "kind"@) == Some(JsonModel::Text(a)) ==> e.kind == a
            &&& member_of(x, "kind"@) is None && e.recipe == "empty"@ ==> e.kind == "group"@
            &&& member_of(x, "kind"@) is None && e.recipe != "empty"@ ==> e.kind == "mesh"@
            &&& member_of(x, "size"@) == Some(abc) ==> e.size.x == k(a) && e.size.y == k(b)
                && e.size.z == k(c)
            &&& member_of(x, "size"@) is None ==> e.size.x.bits == 0x3f80_0000 && e.size.y.bits
                == 0x3f80_0000 && e.size.z.bits == 0x3f80_0000
            &&& member_of(x, "graphId"@) == Some(JsonModel::Text(a)) ==> e.graph_id == Some(a)
            &&& member_of(x, "graphId"@) is None ==> e.graph_id is None
        }),
{
}

/// An imported document has one scene with the entities of the file and starts anew: at its first
/// revision, without a log, under the usual sun.
pub proof fn imported_documents_start_anew(es: Seq<EntityModel>, graphs: Seq<GraphModel>)
    ensures
        imported_document(es, graphs).revision == 1,
        imported_document(es, graphs).log.len() == 0,
        imported_document(es, graphs).graphs == graphs,
        imported_document(es, graphs).scenes.len() == 1,
        imported_document(es, graphs).scenes[0].id == "main"@,
        imported_document(es, graphs).scenes[0].entities == es,
        imported_document(es, graphs).light.shadows,
{
}

/// The parent of a node is an entity that carries the parent id; there is none where no entity does,
/// nor for an entity that has no parent.
pub proof fn parents_carry_the_id(es: Seq<EntityModel>, i: int, k: int)
    requires
        0 <= i < es.len(),
    ensures
        es[i].parent is None ==> parent_index(es, i) is None,
        parent_index(es, i) matches Some(p) ==> 0 <= p < es.len() && es[i].parent == Some(es[p].id),
        0 <= k < es.len() && es[i].parent == Some(es[k].id) ==> parent_index(es, i) is Some,
{
    if let Some(id) = es[i].parent {
        last_carries_the_id(es, id, es.len() as int, k);
    }
}

proof fn last_carries_the_id(es: Seq<EntityModel>, id: Seq<char>, n: int, k: int)
    requires
        0 <= n <= es.len(),
    ensures
        last_index(es, id, n) matches Some(p) ==> 0 <= p < n && es[p].id == id,
        0 <= k < n && es[k].id == id ==> last_index(es, id, n) is Some,
    decreases n,
{
    if n > 0 {
        last_carries_the_id(es, id, n - 1, k);
    }
}

} // verus!
