//! Reading back the glTF files that [`crate::export`] writes.

use crate::document::{
    entity_views, graph_views, Document, DocumentModel, Entity, EntityModel, GraphModel, Material,
    MeshRecipe, Scene, SceneModel,
};
use crate::graphs::{graphs_at, read_graphs};
use crate::json::{member_of, JsonModel};
use crate::light::{default_direction, SceneLight};
use crate::lists::{map_push, map_update};
use crate::numeric::{
    encoded, no_rotation, one, origin, unit_scale, Quat, Real, Rgba, Transform, Vec3,
};
use crate::text::{cat2, decimal, decimal_text, same, text_in};
use crate::value::{absent, member, member_in, numeral, parse_json, parsed, tree_in, tree_of, trees};
use vstd::prelude::*;

verus! {

/// The number reader `n` may be asked to read any notation.
pub open spec fn readable<N: Fn(&str) -> Real>(n: N) -> bool {
    forall|s: &str| #[trigger] call_requires(n, (s,))
}

/// `k` gives the number that the number reader `n` makes of a notation.
pub open spec fn reads<N: Fn(&str) -> Real>(n: N, k: spec_fn(Seq<char>) -> Real) -> bool {
    forall|s: &str, r: Real| #[trigger] call_ensures(n, (s,), r) ==> r == k(s@)
}

pub open spec fn single(j: JsonModel, k: spec_fn(Seq<char>) -> Real) -> Option<Real> {
    match j {
        JsonModel::Number(t) => Some(k(t)),
        JsonModel::Single(x) => Some(x),
        _ => None,
    }
}

/// A list of exactly three numbers.
pub open spec fn triple(o: Option<JsonModel>, k: spec_fn(Seq<char>) -> Real) -> Option<Vec3> {
    match o {
        Some(JsonModel::List(s)) => if s.len() == 3 && single(s[0], k) is Some && single(
            s[1],
            k,
        ) is Some && single(s[2], k) is Some {
            Some(Vec3 { x: single(s[0], k)->0, y: single(s[1], k)->0, z: single(s[2], k)->0 })
        } else {
            None
        },
        _ => None,
    }
}

/// A list of exactly four numbers.
pub open spec fn quadruple(o: Option<JsonModel>, k: spec_fn(Seq<char>) -> Real) -> Option<Quat> {
    match o {
        Some(JsonModel::List(s)) => if s.len() == 4 && single(s[0], k) is Some && single(
            s[1],
            k,
        ) is Some && single(s[2], k) is Some && single(s[3], k) is Some {
            Some(
                Quat {
                    x: single(s[0], k)->0,
                    y: single(s[1], k)->0,
                    z: single(s[2], k)->0,
                    w: single(s[3], k)->0,
                },
            )
        } else {
            None
        },
        _ => None,
    }
}

pub open spec fn text_at(o: Option<JsonModel>) -> Option<Seq<char>> {
    match o {
        Some(j) => j.text(),
        None => None,
    }
}

pub open spec fn whole_at(o: Option<JsonModel>) -> Option<nat> {
    match o {
        Some(j) => j.whole(),
        None => None,
    }
}

pub open spec fn items_at(o: Option<JsonModel>) -> Seq<JsonModel> {
    match o {
        Some(JsonModel::List(s)) => s,
        _ => Seq::empty(),
    }
}

/// Item `i` of a list, where there is one.
pub open spec fn item_at(s: Seq<JsonModel>, i: nat) -> Option<JsonModel> {
    if i < s.len() {
        Some(s[i as int])
    } else {
        None
    }
}

/// Missing, or `null`.
pub open spec fn nothing(o: Option<JsonModel>) -> bool {
    o is None || o->0 is Null
}

pub open spec fn floor_extras(j: JsonModel) -> Option<JsonModel> {
    member_of(j.member("extras"@), "thinnerFloor"@)
}

/// Whether a file says that it comes from here.
pub open spec fn is_ours(v: JsonModel) -> bool {
    text_at(member_of(v.member("asset"@), "generator"@)) == Some("thinner-floor"@) || !nothing(
        member_of(member_of(v.member("asset"@), "extras"@), "thinnerFloor"@),
    )
}

/// The base colour that a node's mesh refers to.
pub open spec fn node_color(v: JsonModel, n: JsonModel, k: spec_fn(Seq<char>) -> Real) -> Option<
    Quat,
> {
    match whole_at(n.member("mesh"@)) {
        None => None,
        Some(m) => match item_at(items_at(v.member("meshes"@)), m) {
            None => None,
            Some(mesh) => match item_at(items_at(mesh.member("primitives"@)), 0) {
                None => None,
                Some(primitive) => match whole_at(primitive.member("material"@)) {
                    None => None,
                    Some(i) => match item_at(items_at(v.member("materials"@)), i) {
                        None => None,
                        Some(material) => quadruple(
                            member_of(
                                material.member("pbrMetallicRoughness"@),
                                "baseColorFactor"@,
                            ),
                            k,
                        ),
                    },
                },
            },
        },
    }
}

pub open spec fn or_vec3(o: Option<Vec3>, d: Vec3) -> Vec3 {
    match o {
        Some(v) => v,
        None => d,
    }
}

pub open spec fn or_text(o: Option<Seq<char>>, d: Seq<char>) -> Seq<char> {
    match o {
        Some(t) => t,
        None => d,
    }
}

/// The entity that node number `i` describes, its parent left open.
pub open spec fn read_node(
    v: JsonModel,
    n: JsonModel,
    i: int,
    k: spec_fn(Seq<char>) -> Real,
) -> Result<EntityModel, Seq<char>> {
    let x = floor_extras(n);
    if nothing(x) {
        Err("import_missing_extras:node_"@ + decimal_text(i as nat))
    } else {
        let name = text_at(n.member("name"@));
        let recipe = or_text(text_at(member_of(x, "recipe"@)), "box"@);
        Ok(
            EntityModel {
                id: if name is Some && (name->0).len() > 0 {
                    name->0
                } else {
                    "node-"@ + decimal_text(i as nat)
                },
                kind: or_text(
                    text_at(member_of(x, "kind"@)),
                    if recipe == "empty"@ {
                        "group"@
                    } else {
                        "mesh"@
                    },
                ),
                transform: Transform {
                    translation: or_vec3(triple(n.member("translation"@), k), origin()),
                    rotation: match quadruple(n.member("rotation"@), k) {
                        Some(q) => q,
                        None => no_rotation(),
                    },
                    scale: or_vec3(triple(n.member("scale"@), k), unit_scale()),
                },
                recipe,
                size: or_vec3(triple(member_of(x, "size"@), k), unit_scale()),
                color: match node_color(v, n, k) {
                    Some(q) => Rgba { r: q.x, g: q.y, b: q.z, a: q.w },
                    None => default_color(),
                },
                parent: None,
                graph_id: text_at(member_of(x, "graphId"@)),
            },
        )
    }
}

/// The colour of a node without a material: a light grey.
#[verifier::allow_in_spec]
pub fn default_color() -> Rgba
    returns
        (Rgba {
            r: encoded(0x3f4c_cccd),
            g: encoded(0x3f4c_cccd),
            b: encoded(0x3f4c_cccd),
            a: one(),
        }),
{
    Rgba {
        r: encoded(0x3f4c_cccd),
        g: encoded(0x3f4c_cccd),
        b: encoded(0x3f4c_cccd),
        a: one(),
    }
}

/// The entities of the first `n` nodes, or the first failure.
pub open spec fn read_nodes(
    v: JsonModel,
    nodes: Seq<JsonModel>,
    n: int,
    k: spec_fn(Seq<char>) -> Real,
) -> Result<Seq<EntityModel>, Seq<char>>
    decreases n,
{
    if n <= 0 {
        Ok(Seq::empty())
    } else {
        match read_nodes(v, nodes, n - 1, k) {
            Err(e) => Err(e),
            Ok(es) => match read_node(v, nodes[n - 1], n - 1, k) {
                Err(e) => Err(e),
                Ok(x) => Ok(es.push(x)),
            },
        }
    }
}

/// Giving children number `j` and up a parent.
pub open spec fn adopted(
    es: Seq<EntityModel>,
    parent: Seq<char>,
    kids: Seq<JsonModel>,
    j: int,
) -> Result<Seq<EntityModel>, Seq<char>>
    decreases kids.len() - j,
{
    if j < 0 || j >= kids.len() {
        Ok(es)
    } else {
        match kids[j].whole() {
            None => Err("import_bad_child"@),
            Some(c) => adopted(
                if c < es.len() {
                    es.update(c as int, EntityModel { parent: Some(parent), ..es[c as int] })
                } else {
                    es
                },
                parent,
                kids,
                j + 1,
            ),
        }
    }
}

/// Tying the children of nodes number `i` and up to their parents.
pub open spec fn tied(es: Seq<EntityModel>, nodes: Seq<JsonModel>, i: int) -> Result<
    Seq<EntityModel>,
    Seq<char>,
>
    decreases nodes.len() - i,
{
    if i < 0 || i >= nodes.len() {
        Ok(es)
    } else {
        match nodes[i].member("children"@) {
            Some(JsonModel::List(kids)) => match adopted(es, es[i].id, kids, 0) {
                Err(e) => Err(e),
                Ok(next) => tied(next, nodes, i + 1),
            },
            _ => tied(es, nodes, i + 1),
        }
    }
}

/// The entities that a file describes, or why it cannot be read.
pub open spec fn read_file(v: JsonModel, k: spec_fn(Seq<char>) -> Real) -> Result<
    Seq<EntityModel>,
    Seq<char>,
> {
    let nodes = items_at(v.member("nodes"@));
    if !is_ours(v) {
        Err("import_not_thinner_floor"@)
    } else {
        match read_nodes(v, nodes, nodes.len() as int, k) {
            Err(e) => Err(e),
            Ok(es) => tied(es, nodes, 0),
        }
    }
}

/// The document that a file with these graphs makes.
pub open spec fn imported_document(
    es: Seq<EntityModel>,
    graphs: Seq<GraphModel>,
) -> DocumentModel {
    DocumentModel {
        revision: 1,
        scenes: seq![SceneModel { id: "main"@, entities: es }],
        log: Seq::empty(),
        graphs,
        light: SceneLight { direction: default_direction(), shadows: true },
    }
}

/// Where a file keeps its graphs.
pub open spec fn graph_list(v: JsonModel) -> Option<JsonModel> {
    member_of(
        member_of(member_of(v.member("asset"@), "extras"@), "thinnerFloor"@),
        "graphs"@,
    )
}

/// What a text imports to, given how it reads the numbers of nodes and those of sockets.
pub open spec fn imported(
    text: Seq<char>,
    k: spec_fn(Seq<char>) -> Real,
    q: spec_fn(Seq<char>) -> Real,
) -> Result<DocumentModel, Seq<char>> {
    match parsed(text) {
        Err(e) => Err("import_json:"@ + e),
        Ok(v) => match read_file(v, k) {
            Err(e) => Err(e),
            Ok(es) => Ok(imported_document(es, graphs_at(graph_list(v), q))),
        },
    }
}

pub(crate) fn read_single<N: Fn(&str) -> Real>(v: &serde_json::Value, reader: &N) -> (r: Option<Real>)
    requires
        readable(*reader),
    ensures
        forall|k: spec_fn(Seq<char>) -> Real| #[trigger]
            reads(*reader, k) ==> r == single(tree_of(*v), k),
{
    match numeral(v) {
        Some(t) => Some(reader(t.as_str())),
        None => None,
    }
}

pub(crate) fn items<'a>(o: Option<&'a serde_json::Value>) -> (r: Option<&'a Vec<serde_json::Value>>)
    ensures
        match r {
            Some(a) => tree_in(o) == Some(JsonModel::List(trees(a@))),
            None => !(tree_in(o) matches Some(JsonModel::List(_))),
        },
{
    match o {
        Some(v) => v.as_array(),
        None => None,
    }
}

fn read_triple<N: Fn(&str) -> Real>(o: Option<&serde_json::Value>, reader: &N) -> (r: Option<Vec3>)
    requires
        readable(*reader),
    ensures
        forall|k: spec_fn(Seq<char>) -> Real| #[trigger]
            reads(*reader, k) ==> r == triple(tree_in(o), k),
{
    let a = match items(o) {
        None => return None,
        Some(a) => a,
    };
    if a.len() != 3 {
        return None;
    }
    assert(trees(a@)[0] == tree_of(a@[0]) && trees(a@)[1] == tree_of(a@[1]) && trees(a@)[2]
        == tree_of(a@[2]));
    let x = read_single(&a[0], reader);
    let y = read_single(&a[1], reader);
    let z = read_single(&a[2], reader);
    match (x, y, z) {
        (Some(x), Some(y), Some(z)) => Some(Vec3 { x, y, z }),
        _ => None,
    }
}

fn read_four<N: Fn(&str) -> Real>(o: Option<&serde_json::Value>, reader: &N) -> (r: Option<Quat>)
    requires
        readable(*reader),
    ensures
        forall|k: spec_fn(Seq<char>) -> Real| #[trigger]
            reads(*reader, k) ==> r == quadruple(tree_in(o), k),
{
    let a = match items(o) {
        None => return None,
        Some(a) => a,
    };
    if a.len() != 4 {
        return None;
    }
    assert(trees(a@)[0] == tree_of(a@[0]) && trees(a@)[1] == tree_of(a@[1]) && trees(a@)[2]
        == tree_of(a@[2]) && trees(a@)[3] == tree_of(a@[3]));
    let x = read_single(&a[0], reader);
    let y = read_single(&a[1], reader);
    let z = read_single(&a[2], reader);
    let w = read_single(&a[3], reader);
    match (x, y, z, w) {
        (Some(x), Some(y), Some(z), Some(w)) => Some(Quat { x, y, z, w }),
        _ => None,
    }
}

pub(crate) fn read_text(o: Option<&serde_json::Value>) -> (r: Option<String>)
    ensures
        text_in(r) == text_at(tree_in(o)),
{
    match o {
        Some(v) => match v.as_str() {
            Some(s) => Some(s.to_owned()),
            None => None,
        },
        None => None,
    }
}

fn read_whole(o: Option<&serde_json::Value>) -> (r: Option<u64>)
    ensures
        match r {
            Some(n) => whole_at(tree_in(o)) == Some(n as nat),
            None => whole_at(tree_in(o)) is None,
        },
{
    match o {
        Some(v) => v.as_u64(),
        None => None,
    }
}

/// Item `i` of a list that may be missing.
fn read_item<'a>(o: Option<&'a serde_json::Value>, i: u64) -> (r: Option<&'a serde_json::Value>)
    ensures
        tree_in(r) == item_at(items_at(tree_in(o)), i as nat),
{
    match items(o) {
        Some(a) => {
            assert(trees(a@).len() == a.len());
            if i < a.len() as u64 {
                assert(trees(a@)[i as int] == tree_of(a@[i as int]));
                Some(&a[i as usize])
            } else {
                None
            }
        },
        None => None,
    }
}

fn read_color<N: Fn(&str) -> Real>(
    v: &serde_json::Value,
    n: &serde_json::Value,
    reader: &N,
) -> (r: Option<Quat>)
    requires
        readable(*reader),
    ensures
        forall|k: spec_fn(Seq<char>) -> Real| #[trigger]
            reads(*reader, k) ==> r == node_color(tree_of(*v), tree_of(*n), k),
{
    let m: u64 = match read_whole(member(n, "mesh")) {
        None => return None,
        Some(m) => m,
    };
    let mesh = match read_item(member(v, "meshes"), m) {
        None => return None,
        Some(x) => x,
    };
    let primitive = match read_item(member(mesh, "primitives"), 0) {
        None => return None,
        Some(x) => x,
    };
    let i: u64 = match read_whole(member(primitive, "material")) {
        None => return None,
        Some(i) => i,
    };
    let material = match read_item(member(v, "materials"), i) {
        None => return None,
        Some(x) => x,
    };
    let pbr = member(material, "pbrMetallicRoughness");
    read_four(member_in(pbr, "baseColorFactor"), reader)
}

fn read_entity<N: Fn(&str) -> Real>(
    v: &serde_json::Value,
    n: &serde_json::Value,
    i: usize,
    reader: &N,
) -> (r: Result<Entity, String>)
    requires
        readable(*reader),
    ensures
        forall|k: spec_fn(Seq<char>) -> Real| #[trigger]
            reads(*reader, k) ==> match r {
                Ok(e) => read_node(tree_of(*v), tree_of(*n), i as int, k) == Ok::<
                    EntityModel,
                    Seq<char>,
                >(e@),
                Err(x) => read_node(tree_of(*v), tree_of(*n), i as int, k) == Err::<
                    EntityModel,
                    Seq<char>,
                >(x@),
            },
{
    let extras = member_in(member(n, "extras"), "thinnerFloor");
    if absent(extras) {
        return Err(cat2("import_missing_extras:node_", &decimal(i as u64)));
    }
    let id = match read_text(member(n, "name")) {
        Some(s) => if s.as_str().is_empty() {
            cat2("node-", &decimal(i as u64))
        } else {
            s
        },
        None => cat2("node-", &decimal(i as u64)),
    };
    let recipe = match read_text(member_in(extras, "recipe")) {
        Some(s) => s,
        None => "box".to_owned(),
    };
    let kind = match read_text(member_in(extras, "kind")) {
        Some(s) => s,
        None => if same(&recipe, "empty") {
            "group".to_owned()
        } else {
            "mesh".to_owned()
        },
    };
    let size = match read_triple(member_in(extras, "size"), reader) {
        Some(s) => s,
        None => unit_scale(),
    };
    let translation = match read_triple(member(n, "translation"), reader) {
        Some(t) => t,
        None => origin(),
    };
    let rotation = match read_four(member(n, "rotation"), reader) {
        Some(q) => q,
        None => no_rotation(),
    };
    let scale = match read_triple(member(n, "scale"), reader) {
        Some(s) => s,
        None => unit_scale(),
    };
    let color = match read_color(v, n, reader) {
        Some(q) => Rgba { r: q.x, g: q.y, b: q.z, a: q.w },
        None => default_color(),
    };
    let graph_id = read_text(member_in(extras, "graphId"));
    Ok(
        Entity {
            id,
            kind,
            transform: Transform { translation, rotation, scale },
            mesh: MeshRecipe { recipe, size },
            material: Material { color },
            parent: None,
            graph_id,
        },
    )
}

proof fn read_failure_stays(
    v: JsonModel,
    nodes: Seq<JsonModel>,
    i: int,
    n: int,
    k: spec_fn(Seq<char>) -> Real,
)
    requires
        i <= n,
        read_nodes(v, nodes, i, k) is Err,
    ensures
        read_nodes(v, nodes, n, k) == read_nodes(v, nodes, i, k),
    decreases n,
{
    if i < n && n > 0 {
        read_failure_stays(v, nodes, i, n - 1, k);
    }
}

fn read_entities<N: Fn(&str) -> Real>(
    v: &serde_json::Value,
    nodes: &Vec<serde_json::Value>,
    reader: &N,
) -> (r: Result<Vec<Entity>, String>)
    requires
        readable(*reader),
    ensures
        r matches Ok(es) ==> es.len() == nodes.len(),
        forall|k: spec_fn(Seq<char>) -> Real| #[trigger]
            reads(*reader, k) ==> match r {
                Ok(es) => read_nodes(tree_of(*v), trees(nodes@), nodes.len() as int, k) == Ok::<
                    Seq<EntityModel>,
                    Seq<char>,
                >(entity_views(es@)),
                Err(x) => read_nodes(tree_of(*v), trees(nodes@), nodes.len() as int, k) == Err::<
                    Seq<EntityModel>,
                    Seq<char>,
                >(x@),
            },
{
    let mut out: Vec<Entity> = Vec::new();
    let mut i: usize = 0;
    assert(entity_views(out@) =~= Seq::<EntityModel>::empty());
    while i < nodes.len()
        invariant
            i <= nodes.len(),
            readable(*reader),
            out.len() == i,
            forall|k: spec_fn(Seq<char>) -> Real| #[trigger]
                reads(*reader, k) ==> read_nodes(tree_of(*v), trees(nodes@), i as int, k) == Ok::<
                    Seq<EntityModel>,
                    Seq<char>,
                >(entity_views(out@)),
        decreases nodes.len() - i,
    {
        assert(trees(nodes@)[i as int] == tree_of(nodes@[i as int]));
        match read_entity(v, &nodes[i], i, reader) {
            Err(x) => {
                assert forall|k: spec_fn(Seq<char>) -> Real| #[trigger]
                    reads(*reader, k) implies read_nodes(
                    tree_of(*v),
                    trees(nodes@),
                    nodes.len() as int,
                    k,
                ) == Err::<Seq<EntityModel>, Seq<char>>(x@) by {
                    read_failure_stays(
                        tree_of(*v),
                        trees(nodes@),
                        i + 1,
                        nodes.len() as int,
                        k,
                    );
                }
                return Err(x);
            },
            Ok(e) => {
                proof {
                    map_push(out@, e, |x: Entity| x@);
                }
                out.push(e);
            },
        }
        i += 1;
    }
    Ok(out)
}

fn adopt(es: &mut Vec<Entity>, parent: &str, kids: &Vec<serde_json::Value>) -> (r: Result<
    (),
    String,
>)
    ensures
        final(es).len() == old(es).len(),
        match r {
            Ok(_) => adopted(entity_views(old(es)@), parent@, trees(kids@), 0) == Ok::<
                Seq<EntityModel>,
                Seq<char>,
            >(entity_views(final(es)@)),
            Err(x) => adopted(entity_views(old(es)@), parent@, trees(kids@), 0) == Err::<
                Seq<EntityModel>,
                Seq<char>,
            >(x@),
        },
{
    let ghost start = entity_views(es@);
    let mut j: usize = 0;
    while j < kids.len()
        invariant
            j <= kids.len(),
            start == entity_views(old(es)@),
            es.len() == old(es).len(),
            adopted(start, parent@, trees(kids@), 0) == adopted(
                entity_views(es@),
                parent@,
                trees(kids@),
                j as int,
            ),
        decreases kids.len() - j,
    {
        assert(trees(kids@)[j as int] == tree_of(kids@[j as int]));
        let c: u64 = match kids[j].as_u64() {
            None => return Err("import_bad_child".to_owned()),
            Some(c) => c,
        };
        if c < es.len() as u64 {
            let ghost before = es@;
            es[c as usize].parent = Some(parent.to_owned());
            proof {
                map_update(before, c as int, es@[c as int], |x: Entity| x@);
                assert(es@ =~= before.update(c as int, es@[c as int]));
                assert(entity_views(es@) =~= entity_views(before).update(
                    c as int,
                    EntityModel {
                        parent: Some(parent@),
                        ..entity_views(before)[c as int]
                    },
                ));
            }
        }
        j += 1;
    }
    Ok(())
}

fn tie(es: &mut Vec<Entity>, nodes: &Vec<serde_json::Value>) -> (r: Result<(), String>)
    requires
        old(es).len() == nodes.len(),
    ensures
        match r {
            Ok(_) => tied(entity_views(old(es)@), trees(nodes@), 0) == Ok::<
                Seq<EntityModel>,
                Seq<char>,
            >(entity_views(final(es)@)),
            Err(x) => tied(entity_views(old(es)@), trees(nodes@), 0) == Err::<
                Seq<EntityModel>,
                Seq<char>,
            >(x@),
        },
{
    let ghost start = entity_views(es@);
    let mut i: usize = 0;
    while i < nodes.len()
        invariant
            i <= nodes.len(),
            start == entity_views(old(es)@),
            es.len() == nodes.len(),
            tied(start, trees(nodes@), 0) == tied(entity_views(es@), trees(nodes@), i as int),
        decreases nodes.len() - i,
    {
        assert(trees(nodes@)[i as int] == tree_of(nodes@[i as int]));
        assert(entity_views(es@)[i as int] == es@[i as int]@);
        if let Some(kids) = items(member(&nodes[i], "children")) {
            let parent = es[i].id.clone();
            if let Err(x) = adopt(es, &parent, kids) {
                return Err(x);
            }
        }
        i += 1;
    }
    Ok(())
}

/// The document that a glTF text describes. Revision 1; no history. One reader makes numbers of
/// the notations in nodes and materials, the other of those in sockets.
pub fn from_gltf<N: Fn(&str) -> Real, S: Fn(&str) -> Real>(
    text: &str,
    reader: &N,
    socket_reader: &S,
) -> (r: Result<Document, String>)
    requires
        readable(*reader),
        readable(*socket_reader),
    ensures
        forall|k: spec_fn(Seq<char>) -> Real, q: spec_fn(Seq<char>) -> Real|
            #![trigger reads(*reader, k), reads(*socket_reader, q)]
            reads(*reader, k) && reads(*socket_reader, q) ==> imported(text@, k, q) == (match r {
                Ok(d) => Ok::<DocumentModel, Seq<char>>(d@),
                Err(e) => Err(e@),
            }),
{
    let v = match parse_json(text) {
        Err(e) => return Err(cat2("import_json:", &e)),
        Ok(v) => v,
    };
    let asset = member(&v, "asset");
    let generator = read_text(member_in(asset, "generator"));
    let named = match &generator {
        Some(s) => same(s, "thinner-floor"),
        None => false,
    };
    if !named && absent(member_in(member_in(asset, "extras"), "thinnerFloor")) {
        return Err("import_not_thinner_floor".to_owned());
    }
    let none: Vec<serde_json::Value> = Vec::new();
    assert(trees(none@) =~= Seq::<JsonModel>::empty());
    let nodes = match items(member(&v, "nodes")) {
        Some(a) => a,
        None => &none,
    };
    assert(trees(nodes@) == items_at(tree_of(v).member("nodes"@)));
    assert(trees(nodes@).len() == nodes.len());
    let mut entities = match read_entities(&v, nodes, reader) {
        Err(e) => return Err(e),
        Ok(es) => es,
    };
    if let Err(e) = tie(&mut entities, nodes) {
        return Err(e);
    }
    let extras = member_in(member_in(asset, "extras"), "thinnerFloor");
    let graphs = read_graphs(member_in(extras, "graphs"), socket_reader);
    let ghost es = entity_views(entities@);
    let mut scenes: Vec<Scene> = Vec::new();
    scenes.push(Scene { id: "main".to_owned(), entities });
    let d = Document {
        revision: 1,
        scenes,
        idempotency_log: Vec::new(),
        graphs,
        light: SceneLight::default(),
    };
    assert(d@.scenes =~= imported_document(es, graph_views(graphs@)).scenes);
    assert(d@.log =~= Seq::<Seq<char>>::empty());
    Ok(d)
}

} // verus!
