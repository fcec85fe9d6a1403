//! What an exported file gives back when it is read.

use crate::document::{
    graph_views, node_views, surface_of, DocumentModel, EntityModel, GraphNode, MaterialGraph,
    Surface,
};
use crate::export::{
    asset_json, exported, extras_json, four_json, gltf_json, graph_json, graph_node_json,
    graphs_json, has_no_mesh, last_index, material_json, mesh_json, node_json, nodes_json,
    parent_index, parts_of, socket_members, under, vec3_json, whole, word, Parts,
};
use crate::graphs::{
    all_numbers, field_of, graph_in, graphs_at, graphs_in, node_in, nodes_in, numbers_in,
    sockets_of,
};
use crate::import::{
    adopted, default_color, floor_extras, graph_list, imported, imported_document, is_ours,
    item_at, items_at, node_color, nothing, quadruple, read_file, read_node, read_nodes, single,
    text_at, tied, triple, whole_at,
};
use crate::json::{last_member, member_of, JsonModel};
use crate::numeric::{Answer, Calc, Quat, Real, Vec3};
use crate::table::{entries, Table};
use crate::text::{decimal_text, digit, digits_value};
use crate::value::parsed;
use vstd::prelude::*;

verus! {

proof fn digits_of_decimal(n: nat)
    ensures
        digits_value(decimal_text(n)) == Some(n),
        decimal_text(n).len() > 0,
    decreases n,
{
    let s = decimal_text(n);
    if n < 10 {
        assert(s.drop_last() =~= Seq::<char>::empty());
        assert(s.last() == digit(n as int));
        assert(digits_value(s.drop_last()) == Some(0nat));
    } else {
        digits_of_decimal(n / 10);
        assert(s.drop_last() =~= decimal_text(n / 10));
        assert(s.last() == digit((n % 10) as int));
    }
}

/// A count that was written reads back as itself.
pub proof fn counts_read_back(n: int)
    requires
        0 <= n <= u64::MAX,
    ensures
        whole(n).whole() == Some(n as nat),
{
    digits_of_decimal(n as nat);
}

/// The last member with a name is the one that counts.
pub(crate) proof fn member_found(ms: Seq<(Seq<char>, JsonModel)>, i: int, name: Seq<char>)
    requires
        0 <= i < ms.len(),
        ms[i].0 == name,
        forall|k: int| i < k < ms.len() ==> (#[trigger] ms[k]).0 != name,
    ensures
        last_member(ms, name) == Some(ms[i].1),
    decreases ms.len(),
{
    if i < ms.len() - 1 {
        assert(ms[ms.len() - 1].0 != name);
        let rest = ms.drop_last();
        assert forall|k: int| i < k < rest.len() implies (#[trigger] rest[k]).0 != name by {
            assert(rest[k] == ms[k]);
        }
        member_found(rest, i, name);
    }
}

pub(crate) proof fn member_missing(ms: Seq<(Seq<char>, JsonModel)>, name: Seq<char>)
    requires
        forall|k: int| 0 <= k < ms.len() ==> (#[trigger] ms[k]).0 != name,
    ensures
        last_member(ms, name) is None,
    decreases ms.len(),
{
    if ms.len() > 0 {
        assert(ms[ms.len() - 1].0 != name);
        let rest = ms.drop_last();
        assert forall|k: int| 0 <= k < rest.len() implies (#[trigger] rest[k]).0 != name by {
            assert(rest[k] == ms[k]);
        }
        member_missing(rest, name);
    }
}

proof fn vec3_reads_back(v: Vec3, k: spec_fn(Seq<char>) -> Real)
    ensures
        triple(Some(vec3_json(v)), k) == Some(v),
{
}

proof fn four_reads_back(x: Real, y: Real, z: Real, w: Real, k: spec_fn(Seq<char>) -> Real)
    ensures
        quadruple(Some(four_json(x, y, z, w)), k) == Some(Quat { x, y, z, w }),
{
}

pub(crate) proof fn extras_members(e: EntityModel)
    ensures
        extras_json(e).member("thinnerFloor"@) is Some,
        !nothing(extras_json(e).member("thinnerFloor"@)),
        member_of(extras_json(e).member("thinnerFloor"@), "recipe"@) == Some(word(e.recipe)),
        member_of(extras_json(e).member("thinnerFloor"@), "size"@) == Some(vec3_json(e.size)),
        member_of(extras_json(e).member("thinnerFloor"@), "kind"@) == Some(word(e.kind)),
        text_at(member_of(extras_json(e).member("thinnerFloor"@), "graphId"@)) == e.graph_id,
{
    reveal_strlit("recipe");
    reveal_strlit("size");
    reveal_strlit("kind");
    reveal_strlit("graphId");
    assert("recipe"@[0] == 'r');
    assert("size"@[0] == 's');
    assert("kind"@[0] == 'k');
    assert("graphId"@[0] == 'g');
    let outer = extras_json(e)->Object_0;
    let ms = outer[0].1->Object_0;
    member_found(outer, 0, "thinnerFloor"@);
    member_found(ms, 0, "recipe"@);
    member_found(ms, 1, "size"@);
    member_found(ms, 2, "kind"@);
    member_found(ms, 3, "graphId"@);
}

pub(crate) proof fn node_members(e: EntityModel, mesh: Option<usize>, children: Seq<JsonModel>)
    ensures
        ({
            let j = node_json(e, mesh, children);
            &&& j.member("name"@) == Some(word(e.id))
            &&& j.member("translation"@) == Some(vec3_json(e.transform.translation))
            &&& j.member("rotation"@) == Some(
                four_json(
                    e.transform.rotation.x,
                    e.transform.rotation.y,
                    e.transform.rotation.z,
                    e.transform.rotation.w,
                ),
            )
            &&& j.member("scale"@) == Some(vec3_json(e.transform.scale))
            &&& j.member("mesh"@) == (match mesh {
                Some(m) => Some(whole(m as int)),
                None => None,
            })
            &&& j.member("children"@) == (if children.len() > 0 {
                Some(JsonModel::List(children))
            } else {
                None
            })
            &&& j.member("extras"@) == Some(extras_json(e))
        }),
{
    reveal_strlit("name");
    reveal_strlit("translation");
    reveal_strlit("rotation");
    reveal_strlit("scale");
    reveal_strlit("mesh");
    reveal_strlit("children");
    reveal_strlit("extras");
    assert("name"@[0] == 'n');
    assert("translation"@[0] == 't');
    assert("rotation"@[0] == 'r');
    assert("scale"@[0] == 's');
    assert("mesh"@[0] == 'm');
    assert("children"@[0] == 'c');
    assert("extras"@[0] == 'e');
    let ms = node_json(e, mesh, children)->Object_0;
    member_found(ms, 0, "name"@);
    member_found(ms, 1, "translation"@);
    member_found(ms, 2, "rotation"@);
    member_found(ms, 3, "scale"@);
    member_found(ms, ms.len() - 1, "extras"@);
    if mesh is Some {
        member_found(ms, 4, "mesh"@);
    } else {
        member_missing(ms, "mesh"@);
    }
    if children.len() > 0 {
        member_found(ms, ms.len() - 2, "children"@);
    } else {
        member_missing(ms, "children"@);
    }
}

pub(crate) proof fn file_members(d: DocumentModel, graphs: Seq<MaterialGraph>, p: Parts)
    ensures
        ({
            let j = gltf_json(d, graphs, p);
            let n = d.entities().len() as int;
            &&& j.member("asset"@) == Some(asset_json(graphs))
            &&& j.member("nodes"@) == Some(
                JsonModel::List(nodes_json(d.entities(), p.mesh_for, n)),
            )
            &&& j.member("meshes"@) == Some(JsonModel::List(p.meshes))
            &&& j.member("materials"@) == Some(JsonModel::List(p.materials))
            &&& is_ours(j)
        }),
{
    reveal_strlit("asset");
    reveal_strlit("scene");
    reveal_strlit("scenes");
    reveal_strlit("nodes");
    reveal_strlit("meshes");
    reveal_strlit("materials");
    reveal_strlit("accessors");
    reveal_strlit("bufferViews");
    reveal_strlit("buffers");
    reveal_strlit("version");
    reveal_strlit("generator");
    reveal_strlit("extras");
    assert("asset"@[0] == 'a');
    assert("scene"@[0] == 's');
    assert("scenes"@[0] == 's');
    assert("nodes"@[0] == 'n');
    assert("meshes"@[0] == 'm');
    assert("materials"@[0] == 'm');
    assert("accessors"@[0] == 'a');
    assert("bufferViews"@[0] == 'b');
    assert("buffers"@[0] == 'b');
    assert("version"@[0] == 'v');
    assert("generator"@[0] == 'g');
    assert("extras"@[0] == 'e');
    assert("asset"@.len() == 5 && "accessors"@.len() == 9);
    assert("meshes"@.len() == 6 && "materials"@.len() == 9);
    let ms = gltf_json(d, graphs, p)->Object_0;
    member_found(ms, 0, "asset"@);
    member_found(ms, 3, "nodes"@);
    member_found(ms, 4, "meshes"@);
    member_found(ms, 5, "materials"@);
    member_found(asset_json(graphs)->Object_0, 1, "generator"@);
}

proof fn mesh_members(id: Seq<char>, first: int, material: int)
    requires
        0 <= material <= u64::MAX,
    ensures
        ({
            let primitive = item_at(items_at(mesh_json(id, first, material).member("primitives"@)), 0);
            primitive is Some && whole_at((primitive->0).member("material"@)) == Some(
                material as nat,
            )
        }),
{
    reveal_strlit("name");
    reveal_strlit("primitives");
    reveal_strlit("attributes");
    reveal_strlit("indices");
    reveal_strlit("material");
    assert("name"@[0] == 'n');
    assert("primitives"@[0] == 'p');
    assert("attributes"@[0] == 'a');
    assert("indices"@[0] == 'i');
    assert("material"@[0] == 'm');
    counts_read_back(material);
    let ms = mesh_json(id, first, material)->Object_0;
    member_found(ms, 1, "primitives"@);
    member_found(ms[1].1->List_0[0]->Object_0, 2, "material"@);
}

pub(crate) proof fn material_members(id: Seq<char>, s: Surface, k: spec_fn(Seq<char>) -> Real)
    ensures
        quadruple(
            member_of(
                material_json(id, s).member("pbrMetallicRoughness"@),
                "baseColorFactor"@,
            ),
            k,
        ) == Some(Quat { x: s.color.r, y: s.color.g, z: s.color.b, w: s.color.a }),
{
    reveal_strlit("name");
    reveal_strlit("pbrMetallicRoughness");
    reveal_strlit("baseColorFactor");
    reveal_strlit("metallicFactor");
    reveal_strlit("roughnessFactor");
    assert("name"@[0] == 'n');
    assert("pbrMetallicRoughness"@[0] == 'p');
    assert("baseColorFactor"@[0] == 'b');
    assert("metallicFactor"@[0] == 'm');
    assert("roughnessFactor"@[0] == 'r');
    let ms = material_json(id, s)->Object_0;
    member_found(ms, 1, "pbrMetallicRoughness"@);
    member_found(ms[1].1->Object_0, 0, "baseColorFactor"@);
}

/// The tables agree: there is a material for every mesh, and an entity's mesh and material
/// are its own.
proof fn tables_agree(d: DocumentModel, n: int, g: spec_fn(Calc) -> Answer)
    requires
        0 <= n <= d.entities().len() <= usize::MAX,
    ensures
        parts_of(d, n, g) matches Ok(p) ==> {
            &&& p.mesh_for.len() == n
            &&& p.meshes.len() == p.materials.len()
            &&& p.meshes.len() <= n
            &&& forall|i: int|
                0 <= i < n ==> match #[trigger] p.mesh_for[i] {
                    None => has_no_mesh(d.entities()[i]),
                    Some(m) => !has_no_mesh(d.entities()[i]) && m < p.meshes.len() && (exists|
                        first: int,
                    | p.meshes[m as int] == #[trigger] mesh_json(
                        d.entities()[i].id,
                        first,
                        m as int,
                    )) && p.materials[m as int] == material_json(
                        d.entities()[i].id,
                        surface_of(d, d.entities()[i]),
                    ),
                }
        },
    decreases n,
{
    if n > 0 {
        tables_agree(d, n - 1, g);
        if let Ok(p) = parts_of(d, n, g) {
            let q = parts_of(d, n - 1, g)->Ok_0;
            let e = d.entities()[n - 1];
            assert forall|i: int| 0 <= i < n implies match #[trigger] p.mesh_for[i] {
                None => has_no_mesh(d.entities()[i]),
                Some(m) => !has_no_mesh(d.entities()[i]) && m < p.meshes.len() && (exists|
                    first: int,
                | p.meshes[m as int] == #[trigger] mesh_json(d.entities()[i].id, first, m as int))
                    && p.materials[m as int] == material_json(
                    d.entities()[i].id,
                    surface_of(d, d.entities()[i]),
                ),
            } by {
                if i < n - 1 {
                    assert(p.mesh_for[i] == q.mesh_for[i]);
                    if let Some(m) = q.mesh_for[i] {
                        assert(p.meshes[m as int] == q.meshes[m as int]);
                        assert(p.materials[m as int] == q.materials[m as int]);
                        let first = choose|first: int|
                            q.meshes[m as int] == #[trigger] mesh_json(
                                d.entities()[i].id,
                                first,
                                m as int,
                            );
                        assert(p.meshes[m as int] == mesh_json(
                            d.entities()[i].id,
                            first,
                            m as int,
                        ));
                    }
                } else {
                    if !has_no_mesh(e) {
                        let m = q.meshes.len() as int;
                        assert(p.meshes[m] == mesh_json(e.id, q.accessors.len() as int, m));
                    }
                }
            }
        }
    }
}

/// What of an entity comes back, its parent left open.
pub open spec fn without_parent(d: DocumentModel, e: EntityModel) -> EntityModel {
    let c = surface_of(d, e).color;
    EntityModel {
        color: if has_no_mesh(e) {
            default_color()
        } else {
            c
        },
        parent: None,
        ..e
    }
}

/// What of entity number `i` comes back: all but the material behind a bound colour, the
/// colour of what has no mesh, and a parent that is not there.
pub open spec fn given_back(d: DocumentModel, i: int) -> EntityModel {
    let e = d.entities()[i];
    EntityModel {
        parent: if parent_index(d.entities(), i) is Some {
            e.parent
        } else {
            None
        },
        ..without_parent(d, e)
    }
}

proof fn node_reads_back(
    d: DocumentModel,
    graphs: Seq<MaterialGraph>,
    p: Parts,
    i: int,
    g: spec_fn(Calc) -> Answer,
    k: spec_fn(Seq<char>) -> Real,
)
    requires
        d.entities().len() <= usize::MAX,
        parts_of(d, d.entities().len() as int, g) == Ok::<Parts, Seq<char>>(p),
        0 <= i < d.entities().len(),
        d.entities()[i].id.len() > 0,
    ensures
        ({
            let es = d.entities();
            let n = node_json(es[i], p.mesh_for[i], under(es, Some(i), es.len() as int));
            read_node(gltf_json(d, graphs, p), n, i, k) == Ok::<EntityModel, Seq<char>>(
                without_parent(d, es[i]),
            )
        }),
{
    let es = d.entities();
    let e = es[i];
    let v = gltf_json(d, graphs, p);
    let kids = under(es, Some(i), es.len() as int);
    let n = node_json(e, p.mesh_for[i], kids);
    tables_agree(d, es.len() as int, g);
    file_members(d, graphs, p);
    node_members(e, p.mesh_for[i], kids);
    extras_members(e);
    vec3_reads_back(e.size, k);
    vec3_reads_back(e.transform.translation, k);
    vec3_reads_back(e.transform.scale, k);
    four_reads_back(
        e.transform.rotation.x,
        e.transform.rotation.y,
        e.transform.rotation.z,
        e.transform.rotation.w,
        k,
    );
    match p.mesh_for[i] {
        None => {
            assert(node_color(v, n, k) is None);
        },
        Some(m) => {
            counts_read_back(m as int);
            let first = choose|first: int|
                p.meshes[m as int] == #[trigger] mesh_json(e.id, first, m as int);
            mesh_members(e.id, first, m as int);
            material_members(e.id, surface_of(d, e), k);
            let c = surface_of(d, e).color;
            assert(node_color(v, n, k) == Some(Quat { x: c.r, y: c.g, z: c.b, w: c.a }));
        },
    }
    assert(read_node(v, n, i, k)->Ok_0 =~= without_parent(d, e));
}

proof fn node_at(es: Seq<EntityModel>, mesh_for: Seq<Option<usize>>, n: int, i: int)
    requires
        0 <= i < n,
    ensures
        nodes_json(es, mesh_for, n).len() == n,
        nodes_json(es, mesh_for, n)[i] == node_json(
            es[i],
            mesh_for[i],
            under(es, Some(i), es.len() as int),
        ),
    decreases n,
{
    if n > 1 {
        if i < n - 1 {
            node_at(es, mesh_for, n - 1, i);
        } else {
            node_at(es, mesh_for, n - 1, 0);
        }
    } else {
        assert(nodes_json(es, mesh_for, 0) =~= Seq::<JsonModel>::empty());
    }
}

proof fn nodes_read_back(
    d: DocumentModel,
    graphs: Seq<MaterialGraph>,
    p: Parts,
    n: int,
    g: spec_fn(Calc) -> Answer,
    k: spec_fn(Seq<char>) -> Real,
)
    requires
        d.entities().len() <= usize::MAX,
        parts_of(d, d.entities().len() as int, g) == Ok::<Parts, Seq<char>>(p),
        0 <= n <= d.entities().len(),
        forall|i: int| 0 <= i < d.entities().len() ==> (#[trigger] d.entities()[i]).id.len() > 0,
    ensures
        read_nodes(
            gltf_json(d, graphs, p),
            nodes_json(d.entities(), p.mesh_for, d.entities().len() as int),
            n,
            k,
        ) == Ok::<Seq<EntityModel>, Seq<char>>(
            Seq::new(n as nat, |i: int| without_parent(d, d.entities()[i])),
        ),
    decreases n,
{
    let es = d.entities();
    let all = Seq::new(n as nat, |i: int| without_parent(d, es[i]));
    if n > 0 {
        nodes_read_back(d, graphs, p, n - 1, g, k);
        node_at(es, p.mesh_for, es.len() as int, n - 1);
        node_reads_back(d, graphs, p, n - 1, g, k);
        let front = Seq::new((n - 1) as nat, |i: int| without_parent(d, es[i]));
        assert(front.push(without_parent(d, es[n - 1])) =~= all);
    } else {
        assert(all =~= Seq::<EntityModel>::empty());
    }
}

proof fn last_index_in_range(es: Seq<EntityModel>, id: Seq<char>, n: int)
    requires
        0 <= n <= es.len(),
    ensures
        last_index(es, id, n) matches Some(i) ==> 0 <= i < n && es[i].id == id,
    decreases n,
{
    if n > 0 && es[n - 1].id != id {
        last_index_in_range(es, id, n - 1);
    }
}

/// Entities whose parents stand before `done` are tied, and no others.
spec fn partly(d: DocumentModel, done: int, now: Seq<EntityModel>) -> bool {
    let es = d.entities();
    &&& now.len() == es.len()
    &&& forall|i: int|
        0 <= i < es.len() ==> #[trigger] now[i] == (EntityModel {
            parent: match parent_index(es, i) {
                Some(q) => if q < done {
                    es[i].parent
                } else {
                    None
                },
                None => None,
            },
            ..without_parent(d, es[i])
        })
}

/// Children among the first `m` of parent `q` are tied besides those of earlier parents.
spec fn adopting(d: DocumentModel, q: int, m: int, now: Seq<EntityModel>) -> bool {
    let es = d.entities();
    &&& now.len() == es.len()
    &&& forall|i: int|
        0 <= i < es.len() ==> #[trigger] now[i] == (EntityModel {
            parent: match parent_index(es, i) {
                Some(r) => if r < q || (r == q && i < m) {
                    es[i].parent
                } else {
                    None
                },
                None => None,
            },
            ..without_parent(d, es[i])
        })
}

/// Adopting a longer list goes on from where a shorter one ends.
proof fn adopted_further(
    es: Seq<EntityModel>,
    parent: Seq<char>,
    kids: Seq<JsonModel>,
    last: JsonModel,
    j: int,
)
    requires
        0 <= j <= kids.len(),
    ensures
        adopted(es, parent, kids.push(last), j) == (match adopted(es, parent, kids, j) {
            Err(e) => Err::<Seq<EntityModel>, Seq<char>>(e),
            Ok(mid) => match last.whole() {
                None => Err::<Seq<EntityModel>, Seq<char>>("import_bad_child"@),
                Some(c) => Ok::<Seq<EntityModel>, Seq<char>>(
                    if c < mid.len() {
                        mid.update(c as int, EntityModel { parent: Some(parent), ..mid[c as int] })
                    } else {
                        mid
                    },
                ),
            },
        }),
    decreases kids.len() - j,
{
    let all = kids.push(last);
    if j < kids.len() {
        assert(all[j] == kids[j]);
        if let Some(c) = kids[j].whole() {
            let next = if c < es.len() {
                es.update(c as int, EntityModel { parent: Some(parent), ..es[c as int] })
            } else {
                es
            };
            adopted_further(next, parent, kids, last, j + 1);
        }
    } else {
        assert(all[j] == last);
        if let Some(c) = last.whole() {
            let next = if c < es.len() {
                es.update(c as int, EntityModel { parent: Some(parent), ..es[c as int] })
            } else {
                es
            };
            assert(adopted(next, parent, all, j + 1) == Ok::<Seq<EntityModel>, Seq<char>>(next));
        }
    }
}

proof fn children_adopted(d: DocumentModel, q: int, m: int, start: Seq<EntityModel>)
    requires
        d.entities().len() <= usize::MAX,
        0 <= q < d.entities().len(),
        0 <= m <= d.entities().len(),
        partly(d, q, start),
    ensures
        ({
            let es = d.entities();
            adopted(start, es[q].id, under(es, Some(q), m), 0) matches Ok(now) && adopting(
                d,
                q,
                m,
                now,
            )
        }),
    decreases m,
{
    let es = d.entities();
    if m == 0 {
        assert(adopted(start, es[q].id, under(es, Some(q), 0), 0) == Ok::<
            Seq<EntityModel>,
            Seq<char>,
        >(start));
        assert(adopting(d, q, 0, start));
    } else {
        children_adopted(d, q, m - 1, start);
        let kids = under(es, Some(q), m - 1);
        let before = adopted(start, es[q].id, kids, 0)->Ok_0;
        if parent_index(es, m - 1) == Some(q) {
            adopted_further(start, es[q].id, kids, whole(m - 1), 0);
            counts_read_back(m - 1);
            last_index_in_range(es, es[m - 1].parent->0, es.len() as int);
            assert(es[m - 1].parent == Some(es[q].id));
            let now = before.update(
                m - 1,
                EntityModel { parent: Some(es[q].id), ..before[m - 1] },
            );
            assert(adopted(start, es[q].id, under(es, Some(q), m), 0) == Ok::<
                Seq<EntityModel>,
                Seq<char>,
            >(now));
            assert(adopting(d, q, m, now)) by {
                assert forall|i: int| 0 <= i < es.len() implies #[trigger] now[i] == (EntityModel {
                    parent: match parent_index(es, i) {
                        Some(r) => if r < q || (r == q && i < m) {
                            es[i].parent
                        } else {
                            None
                        },
                        None => None,
                    },
                    ..without_parent(d, es[i])
                }) by {
                    assert(before[i] == before[i]);
                }
            }
        } else {
            assert(adopting(d, q, m, before)) by {
                assert forall|i: int| 0 <= i < es.len() implies #[trigger] before[i] == (
                EntityModel {
                    parent: match parent_index(es, i) {
                        Some(r) => if r < q || (r == q && i < m) {
                            es[i].parent
                        } else {
                            None
                        },
                        None => None,
                    },
                    ..without_parent(d, es[i])
                }) by {}
            }
        }
    }
}

proof fn no_children(es: Seq<EntityModel>, q: int, m: int)
    requires
        under(es, Some(q), m).len() == 0,
        0 <= m,
    ensures
        forall|i: int| 0 <= i < m ==> #[trigger] parent_index(es, i) != Some(q),
    decreases m,
{
    if m > 0 {
        no_children(es, q, m - 1);
    }
}

proof fn parents_read_back(
    d: DocumentModel,
    mesh_for: Seq<Option<usize>>,
    q: int,
    now: Seq<EntityModel>,
)
    requires
        d.entities().len() <= usize::MAX,
        0 <= q <= d.entities().len(),
        partly(d, q, now),
    ensures
        ({
            let es = d.entities();
            let nodes = nodes_json(es, mesh_for, es.len() as int);
            tied(now, nodes, q) matches Ok(end) && partly(d, es.len() as int, end)
        }),
    decreases d.entities().len() - q,
{
    let es = d.entities();
    let n = es.len() as int;
    let nodes = nodes_json(es, mesh_for, n);
    if n > 0 {
        node_at(es, mesh_for, n, 0);
    }
    if q < n {
        node_at(es, mesh_for, n, q);
        let kids = under(es, Some(q), n);
        node_members(es[q], mesh_for[q], kids);
        if kids.len() > 0 {
            children_adopted(d, q, n, now);
            let next = adopted(now, now[q].id, kids, 0)->Ok_0;
            assert(now[q].id == es[q].id);
            assert(partly(d, q + 1, next));
            parents_read_back(d, mesh_for, q + 1, next);
        } else {
            no_children(es, q, n);
            assert(partly(d, q + 1, now)) by {
                assert forall|i: int| 0 <= i < n implies #[trigger] now[i] == (EntityModel {
                    parent: match parent_index(es, i) {
                        Some(r) => if r < q + 1 {
                            es[i].parent
                        } else {
                            None
                        },
                        None => None,
                    },
                    ..without_parent(d, es[i])
                }) by {
                    assert(parent_index(es, i) != Some(q));
                }
            }
            parents_read_back(d, mesh_for, q + 1, now);
        }
    }
}

/// An exported file reads back as the entities that were exported, in order: with their ids,
/// kinds, placements, recipes, sizes, graphs and visible colours, and with every parent that
/// exists. Entities without an id are left out of this: a file names them anew.
pub proof fn export_reads_back(
    d: DocumentModel,
    graphs: Seq<MaterialGraph>,
    g: spec_fn(Calc) -> Answer,
    k: spec_fn(Seq<char>) -> Real,
)
    requires
        d.entities().len() <= usize::MAX,
        forall|i: int| 0 <= i < d.entities().len() ==> (#[trigger] d.entities()[i]).id.len() > 0,
    ensures
        exported(d, graphs, g) matches Ok(j) ==> read_file(j, k) == Ok::<
            Seq<EntityModel>,
            Seq<char>,
        >(Seq::new(d.entities().len(), |i: int| given_back(d, i))),
{
    let es = d.entities();
    let n = es.len() as int;
    if let Ok(p) = parts_of(d, n, g) {
        let j = gltf_json(d, graphs, p);
        file_members(d, graphs, p);
        nodes_read_back(d, graphs, p, n, g, k);
        if n > 0 {
            node_at(es, p.mesh_for, n, 0);
        }
        let start = Seq::new(n as nat, |i: int| without_parent(d, es[i]));
        assert(partly(d, 0, start)) by {
            assert forall|i: int| 0 <= i < n implies #[trigger] start[i] == (EntityModel {
                parent: match parent_index(es, i) {
                    Some(r) => if r < 0 {
                        es[i].parent
                    } else {
                        None
                    },
                    None => None,
                },
                ..without_parent(d, es[i])
            }) by {
                if es[i].parent is Some {
                    last_index_in_range(es, es[i].parent->0, n);
                }
            }
        }
        parents_read_back(d, p.mesh_for, 0, start);
        let end = tied(start, nodes_json(es, p.mesh_for, n), 0)->Ok_0;
        let wanted = Seq::new(es.len(), |i: int| given_back(d, i));
        assert forall|i: int| 0 <= i < n implies end[i] == wanted[i] by {
            if es[i].parent is Some {
                last_index_in_range(es, es[i].parent->0, n);
            }
        }
        assert(end =~= wanted);
    }
}

/// One JSON value stands for another: the members of an object may come in any order, and a
/// single-precision number may be noted in any way that reads as that number and is no whole
/// number. `depth` bounds the nesting.
pub open spec fn stands_for(
    v: JsonModel,
    j: JsonModel,
    k: spec_fn(Seq<char>) -> Real,
    depth: nat,
) -> bool
    decreases depth,
{
    match (v, j) {
        (JsonModel::Number(t), JsonModel::Single(x)) => k(t) == x && v.whole() is None,
        (JsonModel::List(a), JsonModel::List(b)) => depth > 0 && a.len() == b.len() && forall|i: int|
            0 <= i < a.len() ==> stands_for(#[trigger] a[i], b[i], k, (depth - 1) as nat),
        (JsonModel::Object(a), JsonModel::Object(b)) => depth > 0 && forall|name: Seq<char>|
            match (#[trigger] last_member(a, name), last_member(b, name)) {
                (None, None) => true,
                (Some(x), Some(y)) => stands_for(x, y, k, (depth - 1) as nat),
                _ => false,
            },
        (JsonModel::Object(_), _) | (JsonModel::List(_), _) | (JsonModel::Single(_), _) => false,
        _ => v == j,
    }
}

/// Both are missing, or one stands for the other.
pub open spec fn stand_alike(
    v: Option<JsonModel>,
    j: Option<JsonModel>,
    k: spec_fn(Seq<char>) -> Real,
    depth: nat,
) -> bool {
    match (v, j) {
        (None, None) => true,
        (Some(x), Some(y)) => stands_for(x, y, k, depth),
        _ => false,
    }
}

proof fn members_alike(
    v: Option<JsonModel>,
    j: Option<JsonModel>,
    k: spec_fn(Seq<char>) -> Real,
    depth: nat,
    name: Seq<char>,
)
    requires
        stand_alike(v, j, k, depth),
    ensures
        stand_alike(
            member_of(v, name),
            member_of(j, name),
            k,
            if depth > 0 {
                (depth - 1) as nat
            } else {
                0
            },
        ),
{
    if let Some(JsonModel::Object(a)) = v {
        let x = last_member(a, name);
    }
}

proof fn values_alike(
    v: Option<JsonModel>,
    j: Option<JsonModel>,
    k: spec_fn(Seq<char>) -> Real,
    depth: nat,
)
    requires
        stand_alike(v, j, k, depth),
    ensures
        text_at(v) == text_at(j),
        whole_at(v) == whole_at(j),
        nothing(v) == nothing(j),
        triple(v, k) == triple(j, k),
        quadruple(v, k) == quadruple(j, k),
        items_at(v).len() == items_at(j).len(),
        v matches Some(JsonModel::List(_)) <==> j matches Some(JsonModel::List(_)),
        forall|i: int|
            0 <= i < items_at(v).len() ==> depth > 0 && stands_for(
                #[trigger] items_at(v)[i],
                items_at(j)[i],
                k,
                (depth - 1) as nat,
            ),
{
    if let Some(JsonModel::List(a)) = v {
        let b = j->0->List_0;
        assert forall|i: int| 0 <= i < a.len() implies single(#[trigger] a[i], k)
            == single(b[i], k) by {
            assert(stands_for(a[i], b[i], k, (depth - 1) as nat));
        }
        if a.len() >= 3 {
            assert(single(a[0], k) == single(b[0], k));
            assert(single(a[1], k) == single(b[1], k));
            assert(single(a[2], k) == single(b[2], k));
        }
        if a.len() == 4 {
            assert(single(a[3], k) == single(b[3], k));
        }
    }
}

proof fn item_alike(
    v: Option<JsonModel>,
    j: Option<JsonModel>,
    k: spec_fn(Seq<char>) -> Real,
    depth: nat,
    i: nat,
)
    requires
        stand_alike(v, j, k, depth),
    ensures
        stand_alike(
            item_at(items_at(v), i),
            item_at(items_at(j), i),
            k,
            if depth > 0 {
                (depth - 1) as nat
            } else {
                0
            },
        ),
{
    values_alike(v, j, k, depth);
    if i < items_at(v).len() {
        assert(stands_for(items_at(v)[i as int], items_at(j)[i as int], k, (depth - 1) as nat));
    }
}

/// One level down.
spec fn below(depth: nat) -> nat {
    if depth > 0 {
        (depth - 1) as nat
    } else {
        0
    }
}

proof fn node_color_alike(
    v: JsonModel,
    j: JsonModel,
    n: JsonModel,
    m: JsonModel,
    k: spec_fn(Seq<char>) -> Real,
    depth: nat,
    deep: nat,
)
    requires
        stands_for(v, j, k, depth),
        stands_for(n, m, k, deep),
    ensures
        node_color(v, n, k) == node_color(j, m, k),
{
    members_alike(Some(n), Some(m), k, deep, "mesh"@);
    values_alike(n.member("mesh"@), m.member("mesh"@), k, below(deep));
    if let Some(mi) = whole_at(n.member("mesh"@)) {
        members_alike(Some(v), Some(j), k, depth, "meshes"@);
        item_alike(v.member("meshes"@), j.member("meshes"@), k, below(depth), mi);
        let mv = item_at(items_at(v.member("meshes"@)), mi);
        let mj = item_at(items_at(j.member("meshes"@)), mi);
        let d2 = below(below(depth));
        if let Some(mesh) = mv {
            members_alike(mv, mj, k, d2, "primitives"@);
            item_alike(
                mesh.member("primitives"@),
                (mj->0).member("primitives"@),
                k,
                below(d2),
                0,
            );
            let pv = item_at(items_at(mesh.member("primitives"@)), 0);
            let pj = item_at(items_at((mj->0).member("primitives"@)), 0);
            let d4 = below(below(d2));
            if let Some(primitive) = pv {
                members_alike(pv, pj, k, d4, "material"@);
                values_alike(
                    primitive.member("material"@),
                    (pj->0).member("material"@),
                    k,
                    below(d4),
                );
                if let Some(i) = whole_at(primitive.member("material"@)) {
                    members_alike(Some(v), Some(j), k, depth, "materials"@);
                    item_alike(v.member("materials"@), j.member("materials"@), k, below(depth), i);
                    let av = item_at(items_at(v.member("materials"@)), i);
                    let aj = item_at(items_at(j.member("materials"@)), i);
                    if let Some(material) = av {
                        members_alike(av, aj, k, d2, "pbrMetallicRoughness"@);
                        let bv = material.member("pbrMetallicRoughness"@);
                        let bj = (aj->0).member("pbrMetallicRoughness"@);
                        members_alike(bv, bj, k, below(d2), "baseColorFactor"@);
                        values_alike(
                            member_of(bv, "baseColorFactor"@),
                            member_of(bj, "baseColorFactor"@),
                            k,
                            below(below(d2)),
                        );
                    }
                }
            }
        }
    }
}

proof fn node_alike(
    v: JsonModel,
    j: JsonModel,
    n: JsonModel,
    m: JsonModel,
    i: int,
    k: spec_fn(Seq<char>) -> Real,
    depth: nat,
    deep: nat,
)
    requires
        stands_for(v, j, k, depth),
        stands_for(n, m, k, deep),
    ensures
        read_node(v, n, i, k) == read_node(j, m, i, k),
{
    members_alike(Some(n), Some(m), k, deep, "extras"@);
    let e = below(deep);
    members_alike(n.member("extras"@), m.member("extras"@), k, e, "thinnerFloor"@);
    let x = floor_extras(n);
    let y = floor_extras(m);
    let d = below(e);
    values_alike(x, y, k, d);
    members_alike(x, y, k, d, "recipe"@);
    values_alike(member_of(x, "recipe"@), member_of(y, "recipe"@), k, below(d));
    members_alike(x, y, k, d, "kind"@);
    values_alike(member_of(x, "kind"@), member_of(y, "kind"@), k, below(d));
    members_alike(x, y, k, d, "size"@);
    values_alike(member_of(x, "size"@), member_of(y, "size"@), k, below(d));
    members_alike(x, y, k, d, "graphId"@);
    values_alike(member_of(x, "graphId"@), member_of(y, "graphId"@), k, below(d));
    members_alike(Some(n), Some(m), k, deep, "name"@);
    values_alike(n.member("name"@), m.member("name"@), k, e);
    members_alike(Some(n), Some(m), k, deep, "translation"@);
    values_alike(n.member("translation"@), m.member("translation"@), k, e);
    members_alike(Some(n), Some(m), k, deep, "rotation"@);
    values_alike(n.member("rotation"@), m.member("rotation"@), k, e);
    members_alike(Some(n), Some(m), k, deep, "scale"@);
    values_alike(n.member("scale"@), m.member("scale"@), k, e);
    node_color_alike(v, j, n, m, k, depth, deep);
}

proof fn nodes_alike(
    v: JsonModel,
    j: JsonModel,
    ns: Seq<JsonModel>,
    ms: Seq<JsonModel>,
    c: int,
    k: spec_fn(Seq<char>) -> Real,
    depth: nat,
    deep: nat,
)
    requires
        stands_for(v, j, k, depth),
        ns.len() == ms.len(),
        c <= ns.len(),
        forall|i: int| 0 <= i < ns.len() ==> stands_for(#[trigger] ns[i], ms[i], k, deep),
    ensures
        read_nodes(v, ns, c, k) == read_nodes(j, ms, c, k),
    decreases c,
{
    if c > 0 {
        nodes_alike(v, j, ns, ms, c - 1, k, depth, deep);
        assert(stands_for(ns[c - 1], ms[c - 1], k, deep));
        node_alike(v, j, ns[c - 1], ms[c - 1], c - 1, k, depth, deep);
    }
}

proof fn adopted_alike(
    es: Seq<EntityModel>,
    parent: Seq<char>,
    a: Seq<JsonModel>,
    b: Seq<JsonModel>,
    i: int,
    k: spec_fn(Seq<char>) -> Real,
    depth: nat,
)
    requires
        a.len() == b.len(),
        forall|i: int| 0 <= i < a.len() ==> stands_for(#[trigger] a[i], b[i], k, depth),
    ensures
        adopted(es, parent, a, i) == adopted(es, parent, b, i),
    decreases a.len() - i,
{
    if 0 <= i < a.len() {
        assert(stands_for(a[i], b[i], k, depth));
        values_alike(Some(a[i]), Some(b[i]), k, depth);
        if let Some(c) = a[i].whole() {
            let next = if c < es.len() {
                es.update(c as int, EntityModel { parent: Some(parent), ..es[c as int] })
            } else {
                es
            };
            adopted_alike(next, parent, a, b, i + 1, k, depth);
        }
    }
}

proof fn tied_alike(
    es: Seq<EntityModel>,
    ns: Seq<JsonModel>,
    ms: Seq<JsonModel>,
    i: int,
    k: spec_fn(Seq<char>) -> Real,
    deep: nat,
)
    requires
        ns.len() == ms.len(),
        forall|i: int| 0 <= i < ns.len() ==> stands_for(#[trigger] ns[i], ms[i], k, deep),
    ensures
        tied(es, ns, i) == tied(es, ms, i),
    decreases ns.len() - i,
{
    if 0 <= i < ns.len() {
        assert(stands_for(ns[i], ms[i], k, deep));
        members_alike(Some(ns[i]), Some(ms[i]), k, deep, "children"@);
        let a = ns[i].member("children"@);
        let b = ms[i].member("children"@);
        values_alike(a, b, k, below(deep));
        if let Some(JsonModel::List(kids)) = a {
            let others = b->0->List_0;
            assert forall|x: int| 0 <= x < kids.len() implies stands_for(
                #[trigger] kids[x],
                others[x],
                k,
                below(below(deep)),
            ) by {
                assert(items_at(a)[x] == kids[x]);
            }
            adopted_alike(es, es[i].id, kids, others, 0, k, below(below(deep)));
            if let Ok(next) = adopted(es, es[i].id, kids, 0) {
                tied_alike(next, ns, ms, i + 1, k, deep);
            }
        } else {
            tied_alike(es, ns, ms, i + 1, k, deep);
        }
    }
}

/// Reading a file goes by what it says: neither the order of members nor the notation of
/// numbers matters.
pub proof fn reading_ignores_notation(
    v: JsonModel,
    j: JsonModel,
    k: spec_fn(Seq<char>) -> Real,
    depth: nat,
)
    requires
        stands_for(v, j, k, depth),
    ensures
        read_file(v, k) == read_file(j, k),
{
    members_alike(Some(v), Some(j), k, depth, "asset"@);
    let d = below(depth);
    let a = v.member("asset"@);
    let b = j.member("asset"@);
    members_alike(a, b, k, d, "generator"@);
    values_alike(member_of(a, "generator"@), member_of(b, "generator"@), k, below(d));
    members_alike(a, b, k, d, "extras"@);
    let c = member_of(a, "extras"@);
    let e = member_of(b, "extras"@);
    members_alike(c, e, k, below(d), "thinnerFloor"@);
    values_alike(
        member_of(c, "thinnerFloor"@),
        member_of(e, "thinnerFloor"@),
        k,
        below(below(d)),
    );
    members_alike(Some(v), Some(j), k, depth, "nodes"@);
    values_alike(v.member("nodes"@), j.member("nodes"@), k, d);
    let ns = items_at(v.member("nodes"@));
    let ms = items_at(j.member("nodes"@));
    nodes_alike(v, j, ns, ms, ns.len() as int, k, depth, below(d));
    if let Ok(es) = read_nodes(v, ns, ns.len() as int, k) {
        tied_alike(es, ns, ms, 0, k, below(d));
    }
}

/// However an exported file is noted, it reads back as the entities that were exported.
/// Numbers that are not finite are left out of this: JSON has no notation for them.
pub proof fn noted_export_reads_back(
    d: DocumentModel,
    graphs: Seq<MaterialGraph>,
    v: JsonModel,
    depth: nat,
    g: spec_fn(Calc) -> Answer,
    k: spec_fn(Seq<char>) -> Real,
)
    requires
        d.entities().len() <= usize::MAX,
        forall|i: int| 0 <= i < d.entities().len() ==> (#[trigger] d.entities()[i]).id.len() > 0,
        exported(d, graphs, g) matches Ok(j) && stands_for(v, j, k, depth),
    ensures
        read_file(v, k) == Ok::<Seq<EntityModel>, Seq<char>>(
            Seq::new(d.entities().len(), |i: int| given_back(d, i)),
        ),
{
    export_reads_back(d, graphs, g, k);
    reading_ignores_notation(v, exported(d, graphs, g)->Ok_0, k, depth);
}

/// An exported file holds the graphs that it was given.
pub proof fn exported_graphs_are_kept(
    d: DocumentModel,
    graphs: Seq<MaterialGraph>,
    g: spec_fn(Calc) -> Answer,
)
    ensures
        exported(d, graphs, g) matches Ok(j) ==> graph_list(j) == Some(graphs_json(graphs)),
{
    if let Ok(p) = parts_of(d, d.entities().len() as int, g) {
        file_members(d, graphs, p);
        reveal_strlit("version");
        reveal_strlit("generator");
        reveal_strlit("extras");
        let asset = asset_json(graphs)->Object_0;
        assert("version"@[0] == 'v' && "generator"@[0] == 'g' && "extras"@[0] == 'e');
        member_found(asset, 2, "extras"@);
        let extras = asset[2].1->Object_0;
        member_found(extras, 0, "thinnerFloor"@);
        member_found(extras[0].1->Object_0, 0, "graphs"@);
    }
}

/// The sockets of a table are written so that every key has its value.
proof fn socket_read_back(rows: Seq<(String, Real)>, name: Seq<char>)
    ensures
        last_member(socket_members(rows), name) == (if entries(rows).dom().contains(name) {
            Some(JsonModel::Single(entries(rows)[name]))
        } else {
            None
        }),
    decreases rows.len(),
{
    let ms = socket_members(rows);
    if rows.len() > 0 {
        let rest = rows.drop_last();
        socket_read_back(rest, name);
        assert(ms.drop_last() =~= socket_members(rest));
        assert(ms.last() == (rows.last().0@, JsonModel::Single(rows.last().1)));
    }
}

proof fn sockets_read_back(t: Table<Real>, q: spec_fn(Seq<char>) -> Real)
    ensures
        sockets_of(Some(JsonModel::Object(socket_members(t.rows@))), q) == Some(t@),
{
    let ms = socket_members(t.rows@);
    assert forall|name: Seq<char>| #[trigger] last_member(ms, name) is Some implies single(
        last_member(ms, name)->0,
        q,
    ) is Some by {
        socket_read_back(t.rows@, name);
    }
    assert forall|name: Seq<char>| #[trigger]
        numbers_in(ms, q).dom().contains(name) <==> t@.dom().contains(name) by {
        socket_read_back(t.rows@, name);
    }
    assert forall|name: Seq<char>| t@.dom().contains(name) implies #[trigger] numbers_in(ms, q)[name]
        == t@[name] by {
        socket_read_back(t.rows@, name);
    }
    assert(numbers_in(ms, q) =~= t@);
}

proof fn graph_node_reads_back(n: GraphNode, q: spec_fn(Seq<char>) -> Real)
    ensures
        node_in(graph_node_json(n), q) == Some(n@),
{
    reveal_strlit("id");
    reveal_strlit("type");
    reveal_strlit("sockets");
    assert("id"@[0] == 'i' && "type"@[0] == 't' && "sockets"@[0] == 's');
    let ms = graph_node_json(n)->Object_0;
    member_found(ms, 0, "id"@);
    member_found(ms, 1, "type"@);
    member_found(ms, 2, "sockets"@);
    sockets_read_back(n.sockets, q);
}

proof fn graph_nodes_read_back(ns: Seq<GraphNode>, i: int, q: spec_fn(Seq<char>) -> Real)
    requires
        0 <= i <= ns.len(),
    ensures
        nodes_in(ns.map_values(|n: GraphNode| graph_node_json(n)), i, q) == Some(
            node_views(ns).take(i),
        ),
    decreases i,
{
    if i > 0 {
        graph_nodes_read_back(ns, i - 1, q);
        graph_node_reads_back(ns[i - 1], q);
        assert(node_views(ns).take(i) =~= node_views(ns).take(i - 1).push(ns[i - 1]@));
    } else {
        assert(node_views(ns).take(0) =~= Seq::empty());
    }
}

proof fn graph_reads_back(x: MaterialGraph, q: spec_fn(Seq<char>) -> Real)
    ensures
        graph_in(graph_json(x), q) == Some(x@),
{
    reveal_strlit("id");
    reveal_strlit("nodes");
    assert("id"@[0] == 'i' && "nodes"@[0] == 'n');
    let ms = graph_json(x)->Object_0;
    member_found(ms, 0, "id"@);
    member_found(ms, 1, "nodes"@);
    let n = x.nodes.len() as int;
    graph_nodes_read_back(x.nodes@, n, q);
    assert(node_views(x.nodes@).take(n) =~= node_views(x.nodes@));
}

proof fn graphs_read_back(graphs: Seq<MaterialGraph>, i: int, q: spec_fn(Seq<char>) -> Real)
    requires
        0 <= i <= graphs.len(),
    ensures
        graphs_in(graphs.map_values(|x: MaterialGraph| graph_json(x)), i, q) == Some(
            graph_views(graphs).take(i),
        ),
    decreases i,
{
    if i > 0 {
        graphs_read_back(graphs, i - 1, q);
        graph_reads_back(graphs[i - 1], q);
        assert(graph_views(graphs).take(i) =~= graph_views(graphs).take(i - 1).push(
            graphs[i - 1]@,
        ));
    } else {
        assert(graph_views(graphs).take(0) =~= Seq::empty());
    }
}

proof fn field_alike(
    v: JsonModel,
    j: JsonModel,
    i: int,
    n: int,
    name: Seq<char>,
    q: spec_fn(Seq<char>) -> Real,
    depth: nat,
)
    requires
        stands_for(v, j, q, depth),
        0 <= i < n,
    ensures
        stand_alike(field_of(v, i, n, name), field_of(j, i, n, name), q, below(depth)),
{
    members_alike(Some(v), Some(j), q, depth, name);
    values_alike(Some(v), Some(j), q, depth);
    if let JsonModel::List(a) = v {
        if a.len() == n {
            assert(items_at(Some(v))[i] == a[i]);
        }
    }
}

proof fn sockets_alike(
    v: Option<JsonModel>,
    j: Option<JsonModel>,
    q: spec_fn(Seq<char>) -> Real,
    depth: nat,
)
    requires
        stand_alike(v, j, q, depth),
    ensures
        sockets_of(v, q) == sockets_of(j, q),
{
    if let Some(JsonModel::Object(a)) = v {
        let b = j->0->Object_0;
        assert forall|name: Seq<char>| (#[trigger] last_member(a, name) is Some <==> last_member(
            b,
            name,
        ) is Some) && (last_member(a, name) is Some ==> single(last_member(a, name)->0, q)
            == single(last_member(b, name)->0, q)) by {
            members_alike(v, j, q, depth, name);
        }
        assert(all_numbers(a, q) == all_numbers(b, q)) by {
            if all_numbers(a, q) {
                assert forall|name: Seq<char>| #[trigger] last_member(
                    b,
                    name,
                ) is Some implies single(last_member(b, name)->0, q) is Some by {
                    let x = last_member(a, name);
                }
            }
        }
        assert(numbers_in(a, q) =~= numbers_in(b, q)) by {
            assert forall|name: Seq<char>| #[trigger]
                numbers_in(a, q).dom().contains(name) <==> numbers_in(b, q).dom().contains(
                    name,
                ) by {
                let x = last_member(a, name);
            }
            assert forall|name: Seq<char>|
                numbers_in(a, q).dom().contains(name) implies #[trigger] numbers_in(a, q)[name]
                == numbers_in(b, q)[name] by {
                let x = last_member(a, name);
            }
        }
    }
}

proof fn graph_node_alike(
    v: JsonModel,
    j: JsonModel,
    q: spec_fn(Seq<char>) -> Real,
    depth: nat,
)
    requires
        stands_for(v, j, q, depth),
    ensures
        node_in(v, q) == node_in(j, q),
{
    field_alike(v, j, 0, 3, "id"@, q, depth);
    values_alike(field_of(v, 0, 3, "id"@), field_of(j, 0, 3, "id"@), q, below(depth));
    field_alike(v, j, 1, 3, "type"@, q, depth);
    values_alike(field_of(v, 1, 3, "type"@), field_of(j, 1, 3, "type"@), q, below(depth));
    field_alike(v, j, 2, 3, "sockets"@, q, depth);
    sockets_alike(field_of(v, 2, 3, "sockets"@), field_of(j, 2, 3, "sockets"@), q, below(depth));
}

proof fn graph_nodes_alike(
    a: Seq<JsonModel>,
    b: Seq<JsonModel>,
    i: int,
    q: spec_fn(Seq<char>) -> Real,
    depth: nat,
)
    requires
        a.len() == b.len(),
        i <= a.len(),
        forall|i: int| 0 <= i < a.len() ==> stands_for(#[trigger] a[i], b[i], q, depth),
    ensures
        nodes_in(a, i, q) == nodes_in(b, i, q),
    decreases i,
{
    if i > 0 {
        graph_nodes_alike(a, b, i - 1, q, depth);
        assert(stands_for(a[i - 1], b[i - 1], q, depth));
        graph_node_alike(a[i - 1], b[i - 1], q, depth);
    }
}

proof fn graph_alike(v: JsonModel, j: JsonModel, q: spec_fn(Seq<char>) -> Real, depth: nat)
    requires
        stands_for(v, j, q, depth),
    ensures
        graph_in(v, q) == graph_in(j, q),
{
    let d = below(depth);
    field_alike(v, j, 0, 2, "id"@, q, depth);
    values_alike(field_of(v, 0, 2, "id"@), field_of(j, 0, 2, "id"@), q, d);
    field_alike(v, j, 1, 2, "nodes"@, q, depth);
    let x = field_of(v, 1, 2, "nodes"@);
    let y = field_of(j, 1, 2, "nodes"@);
    values_alike(x, y, q, d);
    if let Some(JsonModel::List(a)) = x {
        let b = y->0->List_0;
        assert forall|i: int| 0 <= i < a.len() implies stands_for(
            #[trigger] a[i],
            b[i],
            q,
            below(d),
        ) by {
            assert(items_at(x)[i] == a[i]);
        }
        graph_nodes_alike(a, b, a.len() as int, q, below(d));
    }
}

proof fn graphs_alike(
    a: Seq<JsonModel>,
    b: Seq<JsonModel>,
    i: int,
    q: spec_fn(Seq<char>) -> Real,
    depth: nat,
)
    requires
        a.len() == b.len(),
        i <= a.len(),
        forall|i: int| 0 <= i < a.len() ==> stands_for(#[trigger] a[i], b[i], q, depth),
    ensures
        graphs_in(a, i, q) == graphs_in(b, i, q),
    decreases i,
{
    if i > 0 {
        graphs_alike(a, b, i - 1, q, depth);
        assert(stands_for(a[i - 1], b[i - 1], q, depth));
        graph_alike(a[i - 1], b[i - 1], q, depth);
    }
}

/// However an exported file is noted, the graphs that were exported read back from it, in
/// order: with their ids, nodes, types and sockets. Numbers that are not finite are left out of
/// this: JSON has no notation for them.
pub proof fn noted_graphs_read_back(
    d: DocumentModel,
    graphs: Seq<MaterialGraph>,
    v: JsonModel,
    depth: nat,
    g: spec_fn(Calc) -> Answer,
    q: spec_fn(Seq<char>) -> Real,
)
    requires
        exported(d, graphs, g) matches Ok(j) && stands_for(v, j, q, depth),
    ensures
        graphs_at(graph_list(v), q) == graph_views(graphs),
{
    let j = exported(d, graphs, g)->Ok_0;
    exported_graphs_are_kept(d, graphs, g);
    let n = graphs.len() as int;
    graphs_read_back(graphs, n, q);
    assert(graph_views(graphs).take(n) =~= graph_views(graphs));
    members_alike(Some(v), Some(j), q, depth, "asset"@);
    let d1 = below(depth);
    members_alike(v.member("asset"@), j.member("asset"@), q, d1, "extras"@);
    let x = member_of(v.member("asset"@), "extras"@);
    let y = member_of(j.member("asset"@), "extras"@);
    members_alike(x, y, q, below(d1), "thinnerFloor"@);
    let d3 = below(below(d1));
    members_alike(member_of(x, "thinnerFloor"@), member_of(y, "thinnerFloor"@), q, d3, "graphs"@);
    values_alike(graph_list(v), graph_list(j), q, below(d3));
    let a = graph_list(v)->0->List_0;
    let b = graph_list(j)->0->List_0;
    assert forall|i: int| 0 <= i < a.len() implies stands_for(
        #[trigger] a[i],
        b[i],
        q,
        below(below(d3)),
    ) by {
        assert(items_at(graph_list(v))[i] == a[i]);
    }
    graphs_alike(a, b, n, q, below(below(d3)));
}

/// A text that parses to an exported file, however it is noted, imports to the document that
/// was exported: its entities as they read back, its graphs, at revision 1 and without history.
pub proof fn exported_text_imports(
    d: DocumentModel,
    graphs: Seq<MaterialGraph>,
    text: Seq<char>,
    depth: nat,
    g: spec_fn(Calc) -> Answer,
    k: spec_fn(Seq<char>) -> Real,
    q: spec_fn(Seq<char>) -> Real,
)
    requires
        d.entities().len() <= usize::MAX,
        forall|i: int| 0 <= i < d.entities().len() ==> (#[trigger] d.entities()[i]).id.len() > 0,
        exported(d, graphs, g) matches Ok(j) && parsed(text) matches Ok(v) && stands_for(
            v,
            j,
            k,
            depth,
        ) && stands_for(v, j, q, depth),
    ensures
        imported(text, k, q) == Ok::<DocumentModel, Seq<char>>(
            imported_document(
                Seq::new(d.entities().len(), |i: int| given_back(d, i)),
                graph_views(graphs),
            ),
        ),
{
    let v = parsed(text)->Ok_0;
    noted_export_reads_back(d, graphs, v, depth, g, k);
    noted_graphs_read_back(d, graphs, v, depth, g, q);
}

} // verus!
