//! The changes that a request can ask for, and what each does to a working copy.

use crate::document::{
    bound_node, canonical, canonical_id, default_sockets, entity_views, graph_position,
    known_recipe, located, node_position, node_views, principled_defaults, recipe_known, world_of,
    Document, DocumentModel, Entity, EntityModel, GraphModel, GraphNode, Material, MaterialGraph,
    MeshRecipe, NodeModel, Scene, SceneModel,
};
use crate::layout::{laid_out, positions};
use crate::light::SceneLight;
use crate::lists::{filter_step, map_push, map_update, take_all};
use crate::numeric::{
    answers, at, computes, encoded, one, origin, Answer, Calc, Mat4, Quat, Real, Rgba, Transform,
    Vec3,
};
use crate::table::Table;
use crate::text::{cat2, cat3, decimal, decimal_text, holds, same, texts};
use vstd::prelude::*;

verus! {

#[derive(Debug, PartialEq)]
pub enum ApplyChange {
    CreateMesh { entity: Entity },
    PatchColor { entity_id: String, color: Rgba },
    /// Absolute world translation for an existing entity.
    PatchTranslation { entity_id: String, translation: Vec3 },
    /// Spawn `count` boxes in a pattern.
    LayoutPattern {
        pattern: String,
        count: u32,
        origin: Vec3,
        spacing: Real,
        columns: u32,
        seed: u64,
        id_prefix: String,
        color: Rgba,
        size: Option<Vec3>,
    },
    /// Absolute world rotation for an existing entity.
    PatchRotation { entity_id: String, rotation: Quat },
    /// Put members under a new empty entity. They keep their places in the world.
    Group { group_id: String, member_ids: Vec<String> },
    Ungroup { group_id: String },
    GraphCreate { graph_id: String },
    /// Set one socket. Never a whole-graph replace.
    GraphPatch { graph_id: String, node_id: String, socket: String, value: Real },
    /// Bind a graph to one entity, or unbind it with an empty graph id.
    GraphBind { graph_id: String, entity_id: String },
    PatchLight { direction: Option<Vec3>, shadows: Option<bool> },
}

/// A working copy in the middle of a changeset: the document so far, the names under which
/// entities may be addressed, and the ids that the changeset took.
#[verifier::ext_equal]
pub struct Session {
    pub doc: DocumentModel,
    pub aliases: Map<Seq<char>, Seq<char>>,
    pub fresh: Seq<Seq<char>>,
}

/// The names of one existing entity: its id, and its canonical id with and without `$`.
pub open spec fn enrolled(
    m: Map<Seq<char>, Seq<char>>,
    id: Seq<char>,
) -> Map<Seq<char>, Seq<char>> {
    let c = canonical(id);
    m.insert(id, c).insert("$"@ + c, c).insert(c, id)
}

/// The names of all existing entities, in order.
pub open spec fn existing_names(ids: Seq<Seq<char>>) -> Map<Seq<char>, Seq<char>>
    decreases ids.len(),
{
    if ids.len() == 0 {
        Map::empty()
    } else {
        enrolled(existing_names(ids.drop_last()), ids.last())
    }
}

pub open spec fn ids_of(es: Seq<EntityModel>) -> Seq<Seq<char>> {
    es.map_values(|e: EntityModel| e.id)
}

/// A working copy before the first change.
pub open spec fn opened(d: DocumentModel) -> Session {
    Session { doc: d, aliases: existing_names(ids_of(d.entities())), fresh: Seq::empty() }
}

/// The id that a raw id stands for.
pub open spec fn resolved(st: Session, raw: Seq<char>) -> Seq<char> {
    if st.aliases.dom().contains(raw) {
        st.aliases[raw]
    } else {
        canonical(raw)
    }
}

pub open spec fn taken(st: Session, id: Seq<char>) -> bool {
    st.doc.has(id) || st.fresh.contains(id)
}

pub open spec fn created(st: Session, e: EntityModel) -> Result<Session, Seq<char>> {
    let id = canonical(e.id);
    if e.id.len() == 0 || id.len() == 0 {
        Err("empty_entity_id"@)
    } else if !known_recipe(e.recipe) {
        Err("unsupported_mesh_recipe:"@ + e.recipe)
    } else if taken(st, id) {
        Err("duplicate_entity_id:"@ + id)
    } else if st.doc.scenes.len() == 0 {
        Err("no_scene"@)
    } else {
        Ok(
            Session {
                doc: st.doc.with_new(EntityModel { id, ..e }),
                aliases: st.aliases.insert(e.id, id).insert("$"@ + id, id).insert(id, id),
                fresh: st.fresh.push(id),
            },
        )
    }
}

/// Painting an entity paints the principled node that it is bound to as well.
pub open spec fn painted(d: DocumentModel, s: int, i: int, color: Rgba) -> DocumentModel {
    let e = d.scenes[s].entities[i];
    let d1 = d.with_entity(s, i, EntityModel { color, ..e });
    match bound_node(d1, e) {
        None => d1,
        Some((p, n)) => d1.with_socket(p, n, "base_color_r"@, color.r).with_socket(
            p,
            n,
            "base_color_g"@,
            color.g,
        ).with_socket(p, n, "base_color_b"@, color.b),
    }
}

pub open spec fn color_patched(st: Session, raw: Seq<char>, color: Rgba) -> Result<
    Session,
    Seq<char>,
> {
    match located(st.doc.scenes, resolved(st, raw), 0) {
        None => Err("unknown_entity:"@ + raw),
        Some((s, i)) => Ok(Session { doc: painted(st.doc, s, i, color), ..st }),
    }
}

/// Giving an entity a world matrix sets its local placement under its parent.
pub open spec fn placed_in_world(
    d: DocumentModel,
    id: Seq<char>,
    world: Mat4,
    g: spec_fn(Calc) -> Answer,
) -> Result<DocumentModel, Seq<char>> {
    match located(d.scenes, id, 0) {
        None => Err("unknown_entity:"@ + id),
        Some((s, i)) => {
            let e = d.scenes[s].entities[i];
            match e.parent {
                None => Ok(
                    d.with_entity(
                        s,
                        i,
                        EntityModel { transform: g(Calc::Decompose(world)).pose, ..e },
                    ),
                ),
                Some(p) => match world_of(d, p, g) {
                    None => Err("unknown_entity:"@ + p),
                    Some(pw) => {
                        let local = g(Calc::Product(g(Calc::Invert(pw)).matrix, world)).matrix;
                        Ok(
                            d.with_entity(
                                s,
                                i,
                                EntityModel { transform: g(Calc::Decompose(local)).pose, ..e },
                            ),
                        )
                    },
                },
            }
        },
    }
}

/// Moving an entity keeps its world scale and rotation.
pub open spec fn moved(
    st: Session,
    raw: Seq<char>,
    translation: Vec3,
    g: spec_fn(Calc) -> Answer,
) -> Result<Session, Seq<char>> {
    let id = resolved(st, raw);
    match world_of(st.doc, id, g) {
        None => Err("unknown_entity:"@ + raw),
        Some(w) => {
            let pose = Transform { translation, ..g(Calc::Decompose(w)).pose };
            match placed_in_world(st.doc, id, g(Calc::Compose(pose)).matrix, g) {
                Err(e) => Err(e),
                Ok(d) => Ok(Session { doc: d, ..st }),
            }
        },
    }
}

/// Turning an entity keeps its world scale and translation.
pub open spec fn turned(
    st: Session,
    raw: Seq<char>,
    rotation: Quat,
    g: spec_fn(Calc) -> Answer,
) -> Result<Session, Seq<char>> {
    let id = resolved(st, raw);
    match world_of(st.doc, id, g) {
        None => Err("unknown_entity:"@ + raw),
        Some(w) => {
            let pose = Transform { rotation, ..g(Calc::Decompose(w)).pose };
            match placed_in_world(st.doc, id, g(Calc::Compose(pose)).matrix, g) {
                Err(e) => Err(e),
                Ok(d) => Ok(Session { doc: d, ..st }),
            }
        },
    }
}

pub open spec fn spawned_box(id: Seq<char>, t: Vec3, size: Vec3, color: Rgba) -> EntityModel {
    EntityModel {
        id,
        kind: "mesh"@,
        transform: at(t),
        recipe: "box"@,
        size,
        color,
        parent: None,
        graph_id: None,
    }
}

/// Spawning boxes number `from` and up, each named by the prefix and its number.
pub open spec fn spawned(
    st: Session,
    prefix: Seq<char>,
    points: Seq<Vec3>,
    from: int,
    size: Vec3,
    color: Rgba,
) -> Result<Session, Seq<char>>
    decreases points.len() - from,
{
    if from < 0 || from >= points.len() {
        Ok(st)
    } else {
        let id = prefix + "-"@ + decimal_text(from as nat);
        if taken(st, id) {
            Err("duplicate_entity_id:"@ + id)
        } else if st.doc.scenes.len() == 0 {
            Err("no_scene"@)
        } else {
            spawned(
                Session {
                    doc: st.doc.with_new(spawned_box(id, points[from], size, color)),
                    aliases: st.aliases.insert(id, id).insert("$"@ + id, id),
                    fresh: st.fresh.push(id),
                },
                prefix,
                points,
                from + 1,
                size,
                color,
            )
        }
    }
}

/// The world matrices of members number `from` and up, each with its resolved id.
pub open spec fn member_worlds(
    st: Session,
    raws: Seq<Seq<char>>,
    from: int,
    g: spec_fn(Calc) -> Answer,
) -> Result<Seq<(Seq<char>, Mat4)>, Seq<char>>
    decreases raws.len() - from,
{
    if from < 0 || from >= raws.len() {
        Ok(Seq::empty())
    } else {
        let id = resolved(st, raws[from]);
        match world_of(st.doc, id, g) {
            None => Err("unknown_entity:"@ + id),
            Some(w) => match member_worlds(st, raws, from + 1, g) {
                Err(e) => Err(e),
                Ok(rest) => Ok(seq![(id, w)] + rest),
            },
        }
    }
}

/// Sum of the translations of the first `n` worlds.
pub open spec fn translation_sum(
    worlds: Seq<(Seq<char>, Mat4)>,
    n: int,
    g: spec_fn(Calc) -> Answer,
) -> Vec3
    decreases n,
{
    if n <= 0 {
        origin()
    } else {
        g(
            Calc::Sum(
                translation_sum(worlds, n - 1, g),
                g(Calc::Decompose(worlds[n - 1].1)).pose.translation,
            ),
        ).point
    }
}

pub open spec fn group_entity(id: Seq<char>, centroid: Vec3) -> EntityModel {
    EntityModel {
        id,
        kind: "group"@,
        transform: at(centroid),
        recipe: "empty"@,
        size: origin(),
        color: Rgba { r: one(), g: one(), b: one(), a: one() },
        parent: None,
        graph_id: None,
    }
}

/// Putting members number `from` and up under a group that stands at `centroid`.
pub open spec fn attached(
    d: DocumentModel,
    gid: Seq<char>,
    centroid: Vec3,
    worlds: Seq<(Seq<char>, Mat4)>,
    from: int,
    g: spec_fn(Calc) -> Answer,
) -> Result<DocumentModel, Seq<char>>
    decreases worlds.len() - from,
{
    if from < 0 || from >= worlds.len() {
        Ok(d)
    } else {
        let id = worlds[from].0;
        let inverse = g(Calc::Invert(g(Calc::Shift(centroid)).matrix)).matrix;
        let local = g(Calc::Product(inverse, worlds[from].1)).matrix;
        match located(d.scenes, id, 0) {
            None => Err("unknown_entity:"@ + id),
            Some((s, i)) => attached(
                d.with_entity(
                    s,
                    i,
                    EntityModel {
                        parent: Some(gid),
                        transform: g(Calc::Decompose(local)).pose,
                        ..d.scenes[s].entities[i]
                    },
                ),
                gid,
                centroid,
                worlds,
                from + 1,
                g,
            ),
        }
    }
}

pub open spec fn grouped(
    st: Session,
    group_id: Seq<char>,
    raws: Seq<Seq<char>>,
    g: spec_fn(Calc) -> Answer,
) -> Result<Session, Seq<char>> {
    let gid = canonical(group_id);
    if taken(st, gid) {
        Err("duplicate_entity_id:"@ + gid)
    } else {
        match member_worlds(st, raws, 0, g) {
            Err(e) => Err(e),
            Ok(worlds) => if worlds.len() == 0 {
                Err("group_empty"@)
            } else if st.doc.scenes.len() == 0 {
                Err("no_scene"@)
            } else {
                let n = worlds.len() as int;
                let centroid = g(Calc::Shrink(translation_sum(worlds, n, g), n as u64)).point;
                match attached(
                    st.doc.with_new(group_entity(gid, centroid)),
                    gid,
                    centroid,
                    worlds,
                    0,
                    g,
                ) {
                    Err(e) => Err(e),
                    Ok(d) => Ok(
                        Session { doc: d, aliases: st.aliases, fresh: st.fresh.push(gid) },
                    ),
                }
            },
        }
    }
}

/// The ids of an entity's children, in order.
pub open spec fn children_of(es: Seq<EntityModel>, gid: Seq<char>) -> Seq<Seq<char>> {
    ids_of(es.filter(|e: EntityModel| e.parent == Some(gid)))
}

/// Taking children number `from` and up out of a group whose world matrix is `gw`.
pub open spec fn detached(
    d: DocumentModel,
    gw: Mat4,
    kids: Seq<Seq<char>>,
    from: int,
    g: spec_fn(Calc) -> Answer,
) -> DocumentModel
    decreases kids.len() - from,
{
    if from < 0 || from >= kids.len() {
        d
    } else {
        match located(d.scenes, kids[from], 0) {
            None => detached(d, gw, kids, from + 1, g),
            Some((s, i)) => {
                let e = d.scenes[s].entities[i];
                let world = g(Calc::Product(gw, g(Calc::Compose(e.transform)).matrix)).matrix;
                detached(
                    d.with_entity(
                        s,
                        i,
                        EntityModel {
                            parent: None,
                            transform: g(Calc::Decompose(world)).pose,
                            ..e
                        },
                    ),
                    gw,
                    kids,
                    from + 1,
                    g,
                )
            },
        }
    }
}

/// The first scene without the entities that carry an id.
pub open spec fn removed(d: DocumentModel, id: Seq<char>) -> DocumentModel {
    if d.scenes.len() == 0 {
        d
    } else {
        DocumentModel {
            scenes: d.scenes.update(
                0,
                SceneModel {
                    id: d.scenes[0].id,
                    entities: d.scenes[0].entities.filter(|e: EntityModel| e.id != id),
                },
            ),
            ..d
        }
    }
}

pub open spec fn ungrouped(
    st: Session,
    group_id: Seq<char>,
    g: spec_fn(Calc) -> Answer,
) -> Result<Session, Seq<char>> {
    let gid = canonical(group_id);
    match world_of(st.doc, gid, g) {
        None => Err("unknown_entity:"@ + gid),
        Some(gw) => Ok(
            Session {
                doc: removed(
                    detached(st.doc, gw, children_of(st.doc.entities(), gid), 0, g),
                    gid,
                ),
                ..st
            },
        ),
    }
}

pub open spec fn fresh_graph(id: Seq<char>) -> GraphModel {
    GraphModel {
        id,
        nodes: seq![
            NodeModel {
                id: "principled"@,
                node_type: "principled"@,
                sockets: default_sockets(),
            },
        ],
    }
}

pub open spec fn graph_created(st: Session, raw: Seq<char>) -> Result<Session, Seq<char>> {
    let gid = canonical(raw);
    if st.doc.has_graph(gid) {
        Err("duplicate_graph_id:"@ + gid)
    } else {
        Ok(
            Session {
                doc: DocumentModel { graphs: st.doc.graphs.push(fresh_graph(gid)), ..st.doc },
                ..st
            },
        )
    }
}

pub open spec fn graph_patched(
    st: Session,
    graph_raw: Seq<char>,
    node_raw: Seq<char>,
    socket: Seq<char>,
    value: Real,
) -> Result<Session, Seq<char>> {
    let p = graph_position(st.doc.graphs, canonical(graph_raw), 0);
    if p < 0 {
        Err("unknown_graph:"@ + canonical(graph_raw))
    } else {
        let n = node_position(st.doc.graphs[p].nodes, canonical(node_raw), 0);
        if n < 0 {
            Err("unknown_node:"@ + canonical(node_raw))
        } else if !st.doc.graphs[p].nodes[n].sockets.dom().contains(socket) {
            Err("unknown_socket:"@ + socket)
        } else {
            Ok(Session { doc: st.doc.with_socket(p, n, socket, value), ..st })
        }
    }
}

pub open spec fn graph_bound(st: Session, graph_raw: Seq<char>, raw: Seq<char>) -> Result<
    Session,
    Seq<char>,
> {
    let gid = canonical(graph_raw);
    if gid.len() > 0 && !st.doc.has_graph(gid) {
        Err("unknown_graph:"@ + gid)
    } else {
        match located(st.doc.scenes, resolved(st, raw), 0) {
            None => Err("unknown_entity:"@ + raw),
            Some((s, i)) => Ok(
                Session {
                    doc: st.doc.with_entity(
                        s,
                        i,
                        EntityModel {
                            graph_id: if gid.len() == 0 {
                                None
                            } else {
                                Some(gid)
                            },
                            ..st.doc.scenes[s].entities[i]
                        },
                    ),
                    ..st
                },
            ),
        }
    }
}

/// A direction this short (squared length below 1e-8) points nowhere.
pub open spec fn points_nowhere(d: Vec3, g: spec_fn(Calc) -> Answer) -> bool {
    g(Calc::LengthSquared(d)).value.less(encoded(0x322b_cc77))
}

pub open spec fn light_patched(
    st: Session,
    direction: Option<Vec3>,
    shadows: Option<bool>,
    g: spec_fn(Calc) -> Answer,
) -> Result<Session, Seq<char>> {
    if direction is Some && points_nowhere(direction->0, g) {
        Err("light_direction_zero"@)
    } else {
        Ok(
            Session {
                doc: DocumentModel {
                    light: SceneLight {
                        direction: match direction {
                            Some(d) => d,
                            None => st.doc.light.direction,
                        },
                        shadows: match shadows {
                            Some(s) => s,
                            None => st.doc.light.shadows,
                        },
                    },
                    ..st.doc
                },
                ..st
            },
        )
    }
}

/// What one change does to a working copy, or why it fails.
pub open spec fn changed(st: Session, c: ApplyChange, g: spec_fn(Calc) -> Answer) -> Result<
    Session,
    Seq<char>,
> {
    match c {
        ApplyChange::CreateMesh { entity } => created(st, entity@),
        ApplyChange::PatchColor { entity_id, color } => color_patched(st, entity_id@, color),
        ApplyChange::PatchTranslation { entity_id, translation } => moved(
            st,
            entity_id@,
            translation,
            g,
        ),
        ApplyChange::PatchRotation { entity_id, rotation } => turned(st, entity_id@, rotation, g),
        ApplyChange::LayoutPattern {
            pattern,
            count,
            origin,
            spacing,
            columns,
            seed,
            id_prefix,
            color,
            size,
        } => match laid_out(pattern@, count, origin, spacing, columns, seed, g) {
            Err(e) => Err(e),
            Ok(points) => spawned(
                st,
                canonical(id_prefix@),
                points,
                0,
                match size {
                    Some(s) => s,
                    None => default_box_size(),
                },
                color,
            ),
        },
        ApplyChange::Group { group_id, member_ids } => grouped(
            st,
            group_id@,
            texts(member_ids@),
            g,
        ),
        ApplyChange::Ungroup { group_id } => ungrouped(st, group_id@, g),
        ApplyChange::GraphCreate { graph_id } => graph_created(st, graph_id@),
        ApplyChange::GraphPatch { graph_id, node_id, socket, value } => graph_patched(
            st,
            graph_id@,
            node_id@,
            socket@,
            value,
        ),
        ApplyChange::GraphBind { graph_id, entity_id } => graph_bound(st, graph_id@, entity_id@),
        ApplyChange::PatchLight { direction, shadows } => light_patched(st, direction, shadows, g),
    }
}

/// What changes number `from` and up do, the first failure ending them all.
pub open spec fn all_changed(
    st: Session,
    cs: Seq<ApplyChange>,
    from: int,
    g: spec_fn(Calc) -> Answer,
) -> Result<Session, Seq<char>>
    decreases cs.len() - from,
{
    if from < 0 || from >= cs.len() {
        Ok(st)
    } else {
        match changed(st, cs[from], g) {
            Err(e) => Err(e),
            Ok(next) => all_changed(next, cs, from + 1, g),
        }
    }
}

/// Edge lengths of a layout box that asks for none: 0.8 each.
#[verifier::allow_in_spec]
pub fn default_box_size() -> Vec3
    returns
        (Vec3 { x: encoded(0x3f4c_cccd), y: encoded(0x3f4c_cccd), z: encoded(0x3f4c_cccd) }),
{
    Vec3 { x: encoded(0x3f4c_cccd), y: encoded(0x3f4c_cccd), z: encoded(0x3f4c_cccd) }
}

/// Distance between layout boxes where a request asks for none: 1.5.
#[verifier::allow_in_spec]
pub fn default_spacing() -> Real
    returns
        encoded(0x3fc0_0000),
{
    encoded(0x3fc0_0000)
}

/// The names under which a changeset addresses entities.
pub struct Names {
    /// Ids of the entities that were there before.
    existing: Vec<String>,
    /// Names that the changeset added.
    added: Table<String>,
}

impl View for Names {
    type V = Map<Seq<char>, Seq<char>>;

    closed spec fn view(&self) -> Map<Seq<char>, Seq<char>> {
        existing_names(texts(self.existing@)).union_prefer_right(self.added@)
    }
}

impl Names {
    fn of(d: &Document) -> (r: Self)
        ensures
            r@ == existing_names(ids_of(d@.entities())),
    {
        let list = d.entities();
        let mut existing: Vec<String> = Vec::new();
        let mut i: usize = 0;
        while i < list.len()
            invariant
                i <= list.len(),
                existing.len() == i,
                forall|k: int| 0 <= k < i ==> existing@[k]@ == list@[k]@.id,
            decreases list.len() - i,
        {
            existing.push(list[i].id.clone());
            i += 1;
        }
        let r = Names { existing, added: Table::new() };
        proof {
            assert forall|k: int| 0 <= k < list.len() implies list@[k]@ == d@.entities()[k] by {
                assert(crate::document::borrowed(list@)[k] == list@[k]@);
            }
            assert(list.len() == crate::document::borrowed(list@).len());
            assert(texts(existing@) =~= ids_of(d@.entities()));
            assert(r@ =~= existing_names(ids_of(d@.entities())));
        }
        r
    }

    fn insert(&mut self, name: &str, id: &str)
        ensures
            final(self)@ == old(self)@.insert(name@, id@),
    {
        self.added.insert(name, id.to_owned());
        assert(self@ =~= old(self)@.insert(name@, id@));
    }

    /// The id that a raw id stands for.
    fn resolve(&self, raw: &str) -> (r: String)
        ensures
            r@ == (if self@.dom().contains(raw@) {
                self@[raw@]
            } else {
                canonical(raw@)
            }),
    {
        if let Some(id) = self.added.get(raw) {
            return id.clone();
        }
        let ghost all = texts(self.existing@);
        let mut i: usize = self.existing.len();
        proof {
            take_all(all);
        }
        while i > 0
            invariant
                i <= self.existing.len(),
                all == texts(self.existing@),
                !self.added@.dom().contains(raw@),
                existing_names(all).dom().contains(raw@) == existing_names(
                    all.take(i as int),
                ).dom().contains(raw@),
                existing_names(all).dom().contains(raw@) ==> existing_names(all)[raw@]
                    == existing_names(all.take(i as int))[raw@],
            decreases i,
        {
            i -= 1;
            let id = &self.existing[i];
            let c = canonical_id(id);
            proof {
                let t = all.take(i as int + 1);
                assert(t.drop_last() =~= all.take(i as int));
                assert(t.last() == id@);
            }
            if same(&c, raw) {
                return id.clone();
            }
            let marked = cat2("$", &c);
            if same(&marked, raw) || same(id, raw) {
                return c;
            }
        }
        assert(all.take(0) =~= Seq::<Seq<char>>::empty());
        canonical_id(raw)
    }
}

/// A working copy in the middle of a changeset.
pub struct Working {
    pub doc: Document,
    names: Names,
    fresh: Vec<String>,
}

impl View for Working {
    type V = Session;

    closed spec fn view(&self) -> Session {
        Session { doc: self.doc@, aliases: self.names@, fresh: texts(self.fresh@) }
    }
}

/// The two outcomes agree: both fail with one text, or both leave one working copy.
pub open spec fn agrees(
    r: Result<(), String>,
    after: Session,
    wanted: Result<Session, Seq<char>>,
) -> bool {
    match r {
        Ok(_) => wanted == Ok::<Session, Seq<char>>(after),
        Err(e) => wanted == Err::<Session, Seq<char>>(e@),
    }
}

proof fn texts_push(list: Seq<String>, s: String)
    ensures
        texts(list.push(s)) == texts(list).push(s@),
{
    map_push(list, s, |x: String| x@);
}

fn unknown_entity(id: &str) -> (r: String)
    ensures
        r@ == "unknown_entity:"@ + id@,
{
    cat2("unknown_entity:", id)
}

impl Document {
    /// Adds an entity at the end of the first scene.
    fn add_entity(&mut self, e: Entity)
        requires
            old(self).scenes.len() > 0,
        ensures
            final(self)@ == old(self)@.with_new(e@),
    {
        let ghost before = *self;
        self.scenes[0].entities.push(e);
        proof {
            map_push(before.scenes@[0].entities@, e, |x: Entity| x@);
            map_update(before.scenes@, 0, self.scenes@[0], |x: Scene| x@);
            assert(self.scenes@ =~= before.scenes@.update(0, self.scenes@[0]));
            assert(self@.scenes =~= before@.with_new(e@).scenes);
        }
    }

    /// Sets one socket of a node.
    fn set_socket(&mut self, p: usize, n: usize, name: &str, value: Real)
        requires
            p < old(self).graphs.len(),
            n < old(self).graphs@[p as int].nodes.len(),
        ensures
            final(self)@ == old(self)@.with_socket(p as int, n as int, name@, value),
            final(self).graphs.len() == old(self).graphs.len(),
            final(self).graphs@[p as int].nodes.len() == old(self).graphs@[p as int].nodes.len(),
    {
        let ghost before = *self;
        self.graphs[p].nodes[n].sockets.insert(name, value);
        proof {
            let node = self.graphs@[p as int].nodes@[n as int];
            map_update(before.graphs@[p as int].nodes@, n as int, node, |x: GraphNode| x@);
            map_update(
                before.graphs@,
                p as int,
                self.graphs@[p as int],
                |x: MaterialGraph| x@,
            );
            assert(self.graphs@ =~= before.graphs@.update(p as int, self.graphs@[p as int]));
            assert(self.graphs@[p as int].nodes@ =~= before.graphs@[p as int].nodes@.update(
                n as int,
                node,
            ));
            assert(self@.graphs[p as int].nodes[n as int] == node@);
            assert(self@.graphs =~= before@.with_socket(p as int, n as int, name@, value).graphs);
        }
    }

    /// Gives an entity a world matrix, by way of its local placement.
    fn set_local_from_world<F: Fn(Calc) -> Answer>(
        &mut self,
        entity_id: &str,
        world: Mat4,
        calc: &F,
    ) -> (r: Result<(), String>)
        requires
            answers(*calc),
        ensures
            forall|g: spec_fn(Calc) -> Answer| #[trigger]
                computes(*calc, g) ==> match r {
                    Ok(_) => placed_in_world(old(self)@, entity_id@, world, g) == Ok::<
                        DocumentModel,
                        Seq<char>,
                    >(final(self)@),
                    Err(e) => placed_in_world(old(self)@, entity_id@, world, g) == Err::<
                        DocumentModel,
                        Seq<char>,
                    >(e@),
                },
    {
        let parent = match self.find_entity(entity_id) {
            None => return Err(unknown_entity(entity_id)),
            Some(e) => crate::text::copy_text(&e.parent),
        };
        let local = match &parent {
            None => world,
            Some(p) => match self.world_matrix(p, calc) {
                None => return Err(unknown_entity(p)),
                Some(pw) => {
                    let inverse = calc(Calc::Invert(pw)).matrix;
                    calc(Calc::Product(inverse, world)).matrix
                },
            },
        };
        let pose = calc(Calc::Decompose(local)).pose;
        match self.find_entity_mut(entity_id) {
            None => Err(unknown_entity(entity_id)),
            Some(e) => {
                e.transform = pose;
                Ok(())
            },
        }
    }
}

impl Working {
    fn open(d: &Document) -> (r: Self)
        ensures
            r@ == opened(d@),
            r.doc@ == d@,
    {
        let r = Working { doc: d.clone(), names: Names::of(d), fresh: Vec::new() };
        assert(texts(r.fresh@) =~= Seq::<Seq<char>>::empty());
        r
    }

    fn is_taken(&self, id: &str) -> (r: bool)
        ensures
            r == taken(self@, id@),
    {
        self.doc.find_entity(id).is_some() || holds(&self.fresh, id)
    }

    fn take(&mut self, id: &str)
        ensures
            final(self)@ == (Session { fresh: old(self)@.fresh.push(id@), ..old(self)@ }),
            final(self).doc == old(self).doc,
    {
        let s = id.to_owned();
        proof {
            texts_push(self.fresh@, s);
        }
        self.fresh.push(s);
    }

    fn create_mesh(&mut self, entity: &Entity) -> (r: Result<(), String>)
        ensures
            agrees(r, final(self)@, created(old(self)@, entity@)),
    {
        let stored = canonical_id(&entity.id);
        if entity.id.as_str().is_empty() || stored.as_str().is_empty() {
            return Err("empty_entity_id".to_owned());
        }
        if !recipe_known(&entity.mesh.recipe) {
            return Err(cat2("unsupported_mesh_recipe:", &entity.mesh.recipe));
        }
        if self.is_taken(&stored) {
            return Err(cat2("duplicate_entity_id:", &stored));
        }
        if self.doc.scenes.len() == 0 {
            return Err("no_scene".to_owned());
        }
        self.take(&stored);
        self.names.insert(&entity.id, &stored);
        self.names.insert(&cat2("$", &stored), &stored);
        self.names.insert(&stored, &stored);
        let mut made = entity.clone();
        made.id = stored;
        self.doc.add_entity(made);
        Ok(())
    }

    fn patch_color(&mut self, entity_id: &str, color: Rgba) -> (r: Result<(), String>)
        ensures
            agrees(r, final(self)@, color_patched(old(self)@, entity_id@, color)),
    {
        let id = self.names.resolve(entity_id);
        let bound = match self.doc.find_entity_mut(&id) {
            None => return Err(unknown_entity(entity_id)),
            Some(e) => {
                e.material.color = color;
                crate::text::copy_text(&e.graph_id)
            },
        };
        if let Some(gid) = &bound {
            if let Some(p) = self.doc.locate_graph(gid) {
                if let Some(n) = self.doc.locate_principled(p) {
                    self.doc.set_socket(p, n, "base_color_r", color.r);
                    self.doc.set_socket(p, n, "base_color_g", color.g);
                    self.doc.set_socket(p, n, "base_color_b", color.b);
                }
            }
        }
        Ok(())
    }

    fn patch_translation<F: Fn(Calc) -> Answer>(
        &mut self,
        entity_id: &str,
        translation: Vec3,
        calc: &F,
    ) -> (r: Result<(), String>)
        requires
            answers(*calc),
        ensures
            forall|g: spec_fn(Calc) -> Answer| #[trigger]
                computes(*calc, g) ==> agrees(
                    r,
                    final(self)@,
                    moved(old(self)@, entity_id@, translation, g),
                ),
    {
        let id = self.names.resolve(entity_id);
        match self.doc.world_matrix(&id, calc) {
            None => Err(unknown_entity(entity_id)),
            Some(w) => {
                let now = calc(Calc::Decompose(w)).pose;
                let pose = Transform { translation, rotation: now.rotation, scale: now.scale };
                let world = calc(Calc::Compose(pose)).matrix;
                self.doc.set_local_from_world(&id, world, calc)
            },
        }
    }

    fn patch_rotation<F: Fn(Calc) -> Answer>(
        &mut self,
        entity_id: &str,
        rotation: Quat,
        calc: &F,
    ) -> (r: Result<(), String>)
        requires
            answers(*calc),
        ensures
            forall|g: spec_fn(Calc) -> Answer| #[trigger]
                computes(*calc, g) ==> agrees(
                    r,
                    final(self)@,
                    turned(old(self)@, entity_id@, rotation, g),
                ),
    {
        let id = self.names.resolve(entity_id);
        match self.doc.world_matrix(&id, calc) {
            None => Err(unknown_entity(entity_id)),
            Some(w) => {
                let now = calc(Calc::Decompose(w)).pose;
                let pose = Transform { translation: now.translation, rotation, scale: now.scale };
                let world = calc(Calc::Compose(pose)).matrix;
                self.doc.set_local_from_world(&id, world, calc)
            },
        }
    }
}

/// What a list of placed members holds.
pub open spec fn placed(list: Seq<(String, Mat4)>) -> Seq<(Seq<char>, Mat4)> {
    list.map_values(|m: (String, Mat4)| (m.0@, m.1))
}

impl Document {
    /// Puts members under a group that stands at `centroid`, keeping their world matrices.
    fn attach<F: Fn(Calc) -> Answer>(
        &mut self,
        gid: &str,
        centroid: Vec3,
        worlds: &Vec<(String, Mat4)>,
        calc: &F,
    ) -> (r: Result<(), String>)
        requires
            answers(*calc),
        ensures
            forall|g: spec_fn(Calc) -> Answer| #[trigger]
                computes(*calc, g) ==> match r {
                    Ok(_) => attached(old(self)@, gid@, centroid, placed(worlds@), 0, g) == Ok::<
                        DocumentModel,
                        Seq<char>,
                    >(final(self)@),
                    Err(e) => attached(old(self)@, gid@, centroid, placed(worlds@), 0, g) == Err::<
                        DocumentModel,
                        Seq<char>,
                    >(e@),
                },
    {
        let there = calc(Calc::Shift(centroid)).matrix;
        let inverse = calc(Calc::Invert(there)).matrix;
        let ghost ready = self@;
        let mut i: usize = 0;
        while i < worlds.len()
            invariant
                i <= worlds.len(),
                answers(*calc),
                ready == old(self)@,
                forall|g: spec_fn(Calc) -> Answer| #[trigger]
                    computes(*calc, g) ==> inverse == g(
                        Calc::Invert(g(Calc::Shift(centroid)).matrix),
                    ).matrix && attached(ready, gid@, centroid, placed(worlds@), 0, g) == attached(
                        self@,
                        gid@,
                        centroid,
                        placed(worlds@),
                        i as int,
                        g,
                    ),
            decreases worlds.len() - i,
        {
            assert(placed(worlds@)[i as int] == (worlds@[i as int].0@, worlds@[i as int].1));
            let local = calc(Calc::Product(inverse, worlds[i].1)).matrix;
            let pose = calc(Calc::Decompose(local)).pose;
            match self.find_entity_mut(&worlds[i].0) {
                None => return Err(unknown_entity(&worlds[i].0)),
                Some(e) => {
                    e.parent = Some(gid.to_owned());
                    e.transform = pose;
                },
            }
            i += 1;
        }
        Ok(())
    }

    /// Takes children out of a group, keeping their world matrices.
    fn detach<F: Fn(Calc) -> Answer>(&mut self, gw: Mat4, kids: &Vec<String>, calc: &F)
        requires
            answers(*calc),
        ensures
            forall|g: spec_fn(Calc) -> Answer| #[trigger]
                computes(*calc, g) ==> final(self)@ == detached(
                    old(self)@,
                    gw,
                    texts(kids@),
                    0,
                    g,
                ),
    {
        let ghost ready = self@;
        let mut i: usize = 0;
        while i < kids.len()
            invariant
                i <= kids.len(),
                answers(*calc),
                ready == old(self)@,
                forall|g: spec_fn(Calc) -> Answer| #[trigger]
                    computes(*calc, g) ==> detached(ready, gw, texts(kids@), 0, g) == detached(
                        self@,
                        gw,
                        texts(kids@),
                        i as int,
                        g,
                    ),
            decreases kids.len() - i,
        {
            assert(texts(kids@)[i as int] == kids@[i as int]@);
            if let Some(e) = self.find_entity_mut(&kids[i]) {
                let local = calc(Calc::Compose(e.transform)).matrix;
                let world = calc(Calc::Product(gw, local)).matrix;
                e.parent = None;
                e.transform = calc(Calc::Decompose(world)).pose;
            }
            i += 1;
        }
    }

    /// The ids of an entity's children, in order.
    fn children(&self, gid: &str) -> (r: Vec<String>)
        ensures
            texts(r@) == children_of(self@.entities(), gid@),
    {
        let list = self.entities();
        let ghost es = self@.entities();
        let ghost p = |e: EntityModel| e.parent == Some(gid@);
        let mut out: Vec<String> = Vec::new();
        let mut i: usize = 0;
        assert(texts(out@) =~= ids_of(es.take(0).filter(p)));
        while i < list.len()
            invariant
                i <= list.len(),
                es == self@.entities(),
                es == crate::document::borrowed(list@),
                p == (|e: EntityModel| e.parent == Some(gid@)),
                texts(out@) == ids_of(es.take(i as int).filter(p)),
            decreases list.len() - i,
        {
            let e: &Entity = list[i];
            assert(es[i as int] == e@);
            proof {
                filter_step(es, i as int, p);
                map_push(es.take(i as int).filter(p), es[i as int], |x: EntityModel| x.id);
            }
            if let Some(parent) = &e.parent {
                if same(parent, gid) {
                    let id = e.id.clone();
                    proof {
                        texts_push(out@, id);
                    }
                    out.push(id);
                }
            }
            i += 1;
        }
        proof {
            take_all(es);
        }
        out
    }

    /// Removes the entities with an id from the first scene.
    fn remove_from_first_scene(&mut self, gid: &str)
        ensures
            final(self)@ == removed(old(self)@, gid@),
    {
        if self.scenes.len() == 0 {
            return;
        }
        let ghost before = *self;
        let ghost es = entity_views(self.scenes@[0].entities@);
        let ghost p = |e: EntityModel| e.id != gid@;
        let ghost mut seen: int = 0;
        let mut i: usize = 0;
        assert(es.take(0).filter(p) + es.skip(0) =~= es) by {
            reveal(Seq::filter);
            assert(es.take(0).filter(p) =~= Seq::empty());
        }
        reveal(Seq::filter);
        while i < self.scenes[0].entities.len()
            invariant
                self.scenes.len() > 0,
                self.scenes.len() == before.scenes.len(),
                0 <= seen <= es.len(),
                i == es.take(seen).filter(p).len(),
                p == (|e: EntityModel| e.id != gid@),
                entity_views(self.scenes@[0].entities@) == es.take(seen).filter(p) + es.skip(seen),
                before == *old(self),
                es == entity_views(before.scenes@[0].entities@),
                self.scenes@ == before.scenes@.update(0, self.scenes@[0]),
                self.scenes@[0].id == before.scenes@[0].id,
                self.revision == before.revision,
                self.idempotency_log == before.idempotency_log,
                self.graphs == before.graphs,
                self.light == before.light,
            decreases es.len() - seen,
        {
            let ghost now = self.scenes@[0].entities@;
            let ghost kept = es.take(seen).filter(p);
            proof {
                assert(entity_views(now).len() == now.len());
                assert(entity_views(now)[i as int] == es.skip(seen)[0]);
                assert(es[seen] == now[i as int]@);
                filter_step(es, seen, p);
            }
            if same(&self.scenes[0].entities[i].id, gid) {
                let gone = self.scenes[0].entities.remove(i);
                proof {
                    assert(self.scenes@[0].entities@ =~= now.remove(i as int));
                    assert(entity_views(now.remove(i as int)) =~= kept + es.skip(seen + 1)) by {
                        assert forall|k: int| 0 <= k < now.len() - 1 implies #[trigger] entity_views(
                            now.remove(i as int),
                        )[k] == (kept + es.skip(seen + 1))[k] by {
                            if k < i {
                                assert(entity_views(now)[k] == now[k]@);
                            } else {
                                assert(entity_views(now)[k + 1] == now[k + 1]@);
                            }
                        }
                    }
                }
            } else {
                proof {
                    assert(kept + es.skip(seen) =~= kept.push(es[seen]) + es.skip(seen + 1));
                }
                i += 1;
            }
            proof {
                seen = seen + 1;
            }
        }
        proof {
            assert(entity_views(self.scenes@[0].entities@).len() == i);
            assert(seen == es.len());
            take_all(es);
            assert(es.skip(seen) =~= Seq::empty());
            assert(es.filter(p) + es.skip(seen) =~= es.filter(p));
            map_update(before.scenes@, 0, self.scenes@[0], |x: Scene| x@);
            assert(self@.scenes =~= removed(before@, gid@).scenes);
        }
    }
}

impl Working {
    fn spawn_boxes(
        &mut self,
        prefix: &str,
        points: &Vec<Vec3>,
        size: Vec3,
        color: Rgba,
    ) -> (r: Result<(), String>)
        ensures
            agrees(r, final(self)@, spawned(old(self)@, prefix@, points@, 0, size, color)),
    {
        let ghost start = self@;
        let mut i: usize = 0;
        while i < points.len()
            invariant
                i <= points.len(),
                start == old(self)@,
                spawned(start, prefix@, points@, 0, size, color) == spawned(
                    self@,
                    prefix@,
                    points@,
                    i as int,
                    size,
                    color,
                ),
            decreases points.len() - i,
        {
            let number = decimal(i as u64);
            let id = cat3(prefix, "-", &number);
            if self.is_taken(&id) {
                return Err(cat2("duplicate_entity_id:", &id));
            }
            if self.doc.scenes.len() == 0 {
                return Err("no_scene".to_owned());
            }
            self.take(&id);
            self.names.insert(&id, &id);
            self.names.insert(&cat2("$", &id), &id);
            self.doc.add_entity(
                Entity {
                    id,
                    kind: "mesh".to_owned(),
                    transform: at(points[i]),
                    mesh: MeshRecipe { recipe: "box".to_owned(), size },
                    material: Material { color },
                    parent: None,
                    graph_id: None,
                },
            );
            i += 1;
        }
        Ok(())
    }

    fn member_places<F: Fn(Calc) -> Answer>(&self, raws: &Vec<String>, calc: &F) -> (r: Result<
        Vec<(String, Mat4)>,
        String,
    >)
        requires
            answers(*calc),
        ensures
            forall|g: spec_fn(Calc) -> Answer| #[trigger]
                computes(*calc, g) ==> match r {
                    Ok(v) => member_worlds(self@, texts(raws@), 0, g) == Ok::<
                        Seq<(Seq<char>, Mat4)>,
                        Seq<char>,
                    >(placed(v@)),
                    Err(e) => member_worlds(self@, texts(raws@), 0, g) == Err::<
                        Seq<(Seq<char>, Mat4)>,
                        Seq<char>,
                    >(e@),
                },
    {
        let mut out: Vec<(String, Mat4)> = Vec::new();
        let mut i: usize = 0;
        proof {
            assert forall|g: spec_fn(Calc) -> Answer| #[trigger] computes(*calc, g) implies (
            match member_worlds(self@, texts(raws@), 0, g) {
                Ok(rest) => member_worlds(self@, texts(raws@), 0, g) == Ok::<
                    Seq<(Seq<char>, Mat4)>,
                    Seq<char>,
                >(placed(out@) + rest),
                Err(e) => true,
            }) by {
                if let Ok(rest) = member_worlds(self@, texts(raws@), 0, g) {
                    assert(placed(out@) + rest =~= rest);
                }
            }
        }
        while i < raws.len()
            invariant
                i <= raws.len(),
                answers(*calc),
                forall|g: spec_fn(Calc) -> Answer| #[trigger]
                    computes(*calc, g) ==> match member_worlds(
                        self@,
                        texts(raws@),
                        i as int,
                        g,
                    ) {
                        Ok(rest) => member_worlds(self@, texts(raws@), 0, g) == Ok::<
                            Seq<(Seq<char>, Mat4)>,
                            Seq<char>,
                        >(placed(out@) + rest),
                        Err(e) => member_worlds(self@, texts(raws@), 0, g) == Err::<
                            Seq<(Seq<char>, Mat4)>,
                            Seq<char>,
                        >(e),
                    },
            decreases raws.len() - i,
        {
            let id = self.names.resolve(&raws[i]);
            let w = match self.doc.world_matrix(&id, calc) {
                None => return Err(unknown_entity(&id)),
                Some(w) => w,
            };
            let ghost before = out@;
            let ghost now = i as int;
            out.push((id, w));
            i += 1;
            proof {
                map_push(before, (id, w), |m: (String, Mat4)| (m.0@, m.1));
                assert forall|g: spec_fn(Calc) -> Answer| #[trigger] computes(*calc, g) implies (
                match member_worlds(self@, texts(raws@), i as int, g) {
                    Ok(rest) => member_worlds(self@, texts(raws@), 0, g) == Ok::<
                        Seq<(Seq<char>, Mat4)>,
                        Seq<char>,
                    >(placed(out@) + rest),
                    Err(e) => member_worlds(self@, texts(raws@), 0, g) == Err::<
                        Seq<(Seq<char>, Mat4)>,
                        Seq<char>,
                    >(e),
                }) by {
                    assert(texts(raws@)[now] == raws@[now]@);
                    assert(member_worlds(self@, texts(raws@), now, g) == (match member_worlds(
                        self@,
                        texts(raws@),
                        now + 1,
                        g,
                    ) {
                        Ok(rest) => Ok::<Seq<(Seq<char>, Mat4)>, Seq<char>>(seq![(id@, w)] + rest),
                        Err(e) => Err::<Seq<(Seq<char>, Mat4)>, Seq<char>>(e),
                    }));
                    if let Ok(rest) = member_worlds(self@, texts(raws@), i as int, g) {
                        assert(placed(before) + (seq![(id@, w)] + rest) =~= placed(out@) + rest);
                    }
                }
            }
        }
        proof {
            assert(placed(out@) + Seq::empty() =~= placed(out@));
        }
        Ok(out)
    }

    fn group<F: Fn(Calc) -> Answer>(&mut self, group_id: &str, raws: &Vec<String>, calc: &F) -> (r:
        Result<(), String>)
        requires
            answers(*calc),
        ensures
            forall|g: spec_fn(Calc) -> Answer| #[trigger]
                computes(*calc, g) ==> agrees(
                    r,
                    final(self)@,
                    grouped(old(self)@, group_id@, texts(raws@), g),
                ),
    {
        let gid = canonical_id(group_id);
        if self.is_taken(&gid) {
            return Err(cat2("duplicate_entity_id:", &gid));
        }
        let worlds = match self.member_places(raws, calc) {
            Err(e) => return Err(e),
            Ok(w) => w,
        };
        assert(placed(worlds@).len() == worlds.len());
        if worlds.len() == 0 {
            return Err("group_empty".to_owned());
        }
        if self.doc.scenes.len() == 0 {
            return Err("no_scene".to_owned());
        }
        let mut sum = origin();
        let mut k: usize = 0;
        while k < worlds.len()
            invariant
                k <= worlds.len(),
                answers(*calc),
                forall|g: spec_fn(Calc) -> Answer| #[trigger]
                    computes(*calc, g) ==> sum == translation_sum(placed(worlds@), k as int, g),
            decreases worlds.len() - k,
        {
            assert(placed(worlds@)[k as int].1 == worlds@[k as int].1);
            let t = calc(Calc::Decompose(worlds[k].1)).pose.translation;
            sum = calc(Calc::Sum(sum, t)).point;
            k += 1;
        }
        let centroid = calc(Calc::Shrink(sum, worlds.len() as u64)).point;
        self.take(&gid);
        self.doc.add_entity(
            Entity {
                id: gid.clone(),
                kind: "group".to_owned(),
                transform: at(centroid),
                mesh: MeshRecipe { recipe: "empty".to_owned(), size: origin() },
                material: Material { color: Rgba { r: one(), g: one(), b: one(), a: one() } },
                parent: None,
                graph_id: None,
            },
        );
        self.doc.attach(&gid, centroid, &worlds, calc)
    }
}

impl Working {
    fn ungroup<F: Fn(Calc) -> Answer>(&mut self, group_id: &str, calc: &F) -> (r: Result<
        (),
        String,
    >)
        requires
            answers(*calc),
        ensures
            forall|g: spec_fn(Calc) -> Answer| #[trigger]
                computes(*calc, g) ==> agrees(r, final(self)@, ungrouped(old(self)@, group_id@, g)),
    {
        let gid = canonical_id(group_id);
        match self.doc.world_matrix(&gid, calc) {
            None => Err(unknown_entity(&gid)),
            Some(gw) => {
                let kids = self.doc.children(&gid);
                self.doc.detach(gw, &kids, calc);
                self.doc.remove_from_first_scene(&gid);
                Ok(())
            },
        }
    }

    fn graph_create(&mut self, graph_id: &str) -> (r: Result<(), String>)
        ensures
            agrees(r, final(self)@, graph_created(old(self)@, graph_id@)),
    {
        let gid = canonical_id(graph_id);
        if self.doc.locate_graph(&gid).is_some() {
            return Err(cat2("duplicate_graph_id:", &gid));
        }
        let mut nodes: Vec<GraphNode> = Vec::new();
        nodes.push(
            GraphNode {
                id: "principled".to_owned(),
                node_type: "principled".to_owned(),
                sockets: principled_defaults(),
            },
        );
        let graph = MaterialGraph { id: gid, nodes };
        proof {
            assert(node_views(nodes@) =~= fresh_graph(gid@).nodes);
            map_push(self.doc.graphs@, graph, |x: MaterialGraph| x@);
        }
        self.doc.graphs.push(graph);
        Ok(())
    }

    fn graph_patch(&mut self, graph_id: &str, node_id: &str, socket: &str, value: Real) -> (r:
        Result<(), String>)
        ensures
            agrees(
                r,
                final(self)@,
                graph_patched(old(self)@, graph_id@, node_id@, socket@, value),
            ),
    {
        let gid = canonical_id(graph_id);
        let nid = canonical_id(node_id);
        let p: usize = match self.doc.locate_graph(&gid) {
            None => return Err(cat2("unknown_graph:", &gid)),
            Some(p) => p,
        };
        let n: usize = match self.doc.locate_node(p, &nid) {
            None => return Err(cat2("unknown_node:", &nid)),
            Some(n) => n,
        };
        assert(self.doc@.graphs[p as int].nodes[n as int]
            == self.doc.graphs@[p as int].nodes@[n as int]@);
        if self.doc.graphs[p].nodes[n].sockets.get(socket).is_none() {
            return Err(cat2("unknown_socket:", socket));
        }
        self.doc.set_socket(p, n, socket, value);
        Ok(())
    }

    fn graph_bind(&mut self, graph_id: &str, entity_id: &str) -> (r: Result<(), String>)
        ensures
            agrees(r, final(self)@, graph_bound(old(self)@, graph_id@, entity_id@)),
    {
        let eid = self.names.resolve(entity_id);
        let gid = canonical_id(graph_id);
        let unbind = gid.as_str().is_empty();
        if !unbind && self.doc.locate_graph(&gid).is_none() {
            return Err(cat2("unknown_graph:", &gid));
        }
        match self.doc.find_entity_mut(&eid) {
            None => Err(unknown_entity(entity_id)),
            Some(e) => {
                e.graph_id = if unbind {
                    None
                } else {
                    Some(gid)
                };
                Ok(())
            },
        }
    }

    fn patch_light<F: Fn(Calc) -> Answer>(
        &mut self,
        direction: Option<Vec3>,
        shadows: Option<bool>,
        calc: &F,
    ) -> (r: Result<(), String>)
        requires
            answers(*calc),
        ensures
            forall|g: spec_fn(Calc) -> Answer| #[trigger]
                computes(*calc, g) ==> agrees(
                    r,
                    final(self)@,
                    light_patched(old(self)@, direction, shadows, g),
                ),
    {
        if let Some(d) = direction {
            if calc(Calc::LengthSquared(d)).value.lt(encoded(0x322b_cc77)) {
                return Err("light_direction_zero".to_owned());
            }
            self.doc.light.direction = d;
        }
        if let Some(s) = shadows {
            self.doc.light.shadows = s;
        }
        Ok(())
    }

    fn change<F: Fn(Calc) -> Answer>(&mut self, c: &ApplyChange, calc: &F) -> (r: Result<
        (),
        String,
    >)
        requires
            answers(*calc),
        ensures
            forall|g: spec_fn(Calc) -> Answer| #[trigger]
                computes(*calc, g) ==> agrees(r, final(self)@, changed(old(self)@, *c, g)),
    {
        match c {
            ApplyChange::CreateMesh { entity } => self.create_mesh(entity),
            ApplyChange::PatchColor { entity_id, color } => self.patch_color(entity_id, *color),
            ApplyChange::PatchTranslation { entity_id, translation } => self.patch_translation(
                entity_id,
                *translation,
                calc,
            ),
            ApplyChange::PatchRotation { entity_id, rotation } => self.patch_rotation(
                entity_id,
                *rotation,
                calc,
            ),
            ApplyChange::LayoutPattern {
                pattern,
                count,
                origin,
                spacing,
                columns,
                seed,
                id_prefix,
                color,
                size,
            } => {
                let points = match positions(
                    pattern,
                    *count,
                    *origin,
                    *spacing,
                    *columns,
                    *seed,
                    calc,
                ) {
                    Err(e) => return Err(e),
                    Ok(p) => p,
                };
                let edges = match size {
                    Some(s) => *s,
                    None => default_box_size(),
                };
                let prefix = canonical_id(id_prefix);
                self.spawn_boxes(&prefix, &points, edges, *color)
            },
            ApplyChange::Group { group_id, member_ids } => self.group(group_id, member_ids, calc),
            ApplyChange::Ungroup { group_id } => self.ungroup(group_id, calc),
            ApplyChange::GraphCreate { graph_id } => self.graph_create(graph_id),
            ApplyChange::GraphPatch { graph_id, node_id, socket, value } => self.graph_patch(
                graph_id,
                node_id,
                socket,
                *value,
            ),
            ApplyChange::GraphBind { graph_id, entity_id } => self.graph_bind(graph_id, entity_id),
            ApplyChange::PatchLight { direction, shadows } => self.patch_light(
                *direction,
                *shadows,
                calc,
            ),
        }
    }
}

impl Document {
    /// The document after a changeset, or the first failure. This one stays as it is.
    pub fn apply_changes<F: Fn(Calc) -> Answer>(&self, changes: &Vec<ApplyChange>, calc: &F) -> (r:
        Result<Document, String>)
        requires
            answers(*calc),
        ensures
            forall|g: spec_fn(Calc) -> Answer| #[trigger]
                computes(*calc, g) ==> match r {
                    Ok(d) => all_changed(opened(self@), changes@, 0, g) matches Ok(st) && st.doc
                        == d@,
                    Err(e) => all_changed(opened(self@), changes@, 0, g) == Err::<
                        Session,
                        Seq<char>,
                    >(e@),
                },
    {
        let mut w = Working::open(self);
        let mut i: usize = 0;
        while i < changes.len()
            invariant
                i <= changes.len(),
                answers(*calc),
                forall|g: spec_fn(Calc) -> Answer| #[trigger]
                    computes(*calc, g) ==> all_changed(opened(self@), changes@, 0, g)
                        == all_changed(w@, changes@, i as int, g),
            decreases changes.len() - i,
        {
            if let Err(e) = w.change(&changes[i], calc) {
                return Err(e);
            }
            i += 1;
        }
        Ok(w.doc)
    }
}

} // verus!
