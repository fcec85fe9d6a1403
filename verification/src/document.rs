//! The versioned scene document: what it holds, how to look things up in it, and what is
//! wrong with it.

use crate::chain::{
    ancestors_exist, broken_chain_has_no_matrix, chain_has_ended, circles_do_not_end,
    ended_chain_is_short,
};
use crate::formula::{fit_radius, middle, middle_of, radius_of};
use crate::light::SceneLight;
use crate::lists::{map_push, map_update, take_all};
use crate::numeric::{
    answers, at, computes, encoded, identity, one, zero, Answer, Calc, Mat4, Real, Rgba, Transform,
    Vec3,
};
use crate::table::Table;
use crate::text::{chars_of, copy_text, copy_texts, same, text_between, text_in, texts};
use crate::validate::{ancestor, cyclic};
use vstd::prelude::*;

verus! {

/// Where the document is kept unless told otherwise.
pub const DEFAULT_DOCUMENT_PATH: &'static str = "thinner-floor.json";

/// Where the mailbox listens unless told otherwise.
pub const DEFAULT_MAILBOX_ADDR: &'static str = "127.0.0.1:17421";

/// Where a server leaves its token for clients.
pub const DEFAULT_TOKEN_PATH: &'static str = "thinner-floor.token";

/// Most entities that a document may hold.
pub const MAX_ENTITIES: usize = 20_000;

/// How many placements make a world matrix where the chain of parents runs in a circle.
pub const CIRCLE_STEPS: usize = 32;

#[derive(Debug, PartialEq)]
pub struct MeshRecipe {
    pub recipe: String,
    pub size: Vec3,
}

#[derive(Clone, Copy, Debug, PartialEq, Eq, Structural)]
pub struct Material {
    pub color: Rgba,
}

#[derive(Debug, PartialEq)]
pub struct Entity {
    pub id: String,
    pub kind: String,
    pub transform: Transform,
    pub mesh: MeshRecipe,
    pub material: Material,
    /// Parent id. World matrix = parent world x local matrix.
    pub parent: Option<String>,
    /// Bound principled graph. When set, its sockets give the surface.
    pub graph_id: Option<String>,
}

#[derive(Debug, PartialEq)]
pub struct Scene {
    pub id: String,
    pub entities: Vec<Entity>,
}

#[derive(Debug, PartialEq)]
pub struct GraphNode {
    pub id: String,
    pub node_type: String,
    pub sockets: Table<Real>,
}

#[derive(Debug, PartialEq)]
pub struct MaterialGraph {
    pub id: String,
    pub nodes: Vec<GraphNode>,
}

#[derive(Debug, PartialEq)]
pub struct Document {
    pub revision: u64,
    pub scenes: Vec<Scene>,
    /// Keys already applied; replaying one is a no-op success.
    pub idempotency_log: Vec<String>,
    pub graphs: Vec<MaterialGraph>,
    pub light: SceneLight,
}

/// What an entity holds.
#[verifier::ext_equal]
pub struct EntityModel {
    pub id: Seq<char>,
    pub kind: Seq<char>,
    pub transform: Transform,
    pub recipe: Seq<char>,
    pub size: Vec3,
    pub color: Rgba,
    pub parent: Option<Seq<char>>,
    pub graph_id: Option<Seq<char>>,
}

#[verifier::ext_equal]
pub struct SceneModel {
    pub id: Seq<char>,
    pub entities: Seq<EntityModel>,
}

#[verifier::ext_equal]
pub struct NodeModel {
    pub id: Seq<char>,
    pub node_type: Seq<char>,
    pub sockets: Map<Seq<char>, Real>,
}

#[verifier::ext_equal]
pub struct GraphModel {
    pub id: Seq<char>,
    pub nodes: Seq<NodeModel>,
}

/// What a document holds.
#[verifier::ext_equal]
pub struct DocumentModel {
    pub revision: u64,
    pub scenes: Seq<SceneModel>,
    pub log: Seq<Seq<char>>,
    pub graphs: Seq<GraphModel>,
    pub light: SceneLight,
}

impl View for Entity {
    type V = EntityModel;

    open spec fn view(&self) -> EntityModel {
        EntityModel {
            id: self.id@,
            kind: self.kind@,
            transform: self.transform,
            recipe: self.mesh.recipe@,
            size: self.mesh.size,
            color: self.material.color,
            parent: text_in(self.parent),
            graph_id: text_in(self.graph_id),
        }
    }
}

pub open spec fn entity_views(s: Seq<Entity>) -> Seq<EntityModel> {
    s.map_values(|e: Entity| e@)
}

impl View for Scene {
    type V = SceneModel;

    open spec fn view(&self) -> SceneModel {
        SceneModel { id: self.id@, entities: entity_views(self.entities@) }
    }
}

impl View for GraphNode {
    type V = NodeModel;

    open spec fn view(&self) -> NodeModel {
        NodeModel { id: self.id@, node_type: self.node_type@, sockets: self.sockets@ }
    }
}

pub open spec fn node_views(s: Seq<GraphNode>) -> Seq<NodeModel> {
    s.map_values(|n: GraphNode| n@)
}

impl View for MaterialGraph {
    type V = GraphModel;

    open spec fn view(&self) -> GraphModel {
        GraphModel { id: self.id@, nodes: node_views(self.nodes@) }
    }
}

pub open spec fn scene_views(s: Seq<Scene>) -> Seq<SceneModel> {
    s.map_values(|x: Scene| x@)
}

pub open spec fn graph_views(s: Seq<MaterialGraph>) -> Seq<GraphModel> {
    s.map_values(|x: MaterialGraph| x@)
}

impl View for Document {
    type V = DocumentModel;

    open spec fn view(&self) -> DocumentModel {
        DocumentModel {
            revision: self.revision,
            scenes: scene_views(self.scenes@),
            log: texts(self.idempotency_log@),
            graphs: graph_views(self.graphs@),
            light: self.light,
        }
    }
}

impl Clone for MeshRecipe {
    fn clone(&self) -> (r: Self)
        ensures
            r.recipe@ == self.recipe@,
            r.size == self.size,
    {
        MeshRecipe { recipe: self.recipe.clone(), size: self.size }
    }
}

impl Clone for Entity {
    fn clone(&self) -> (r: Self)
        ensures
            r@ == self@,
    {
        Entity {
            id: self.id.clone(),
            kind: self.kind.clone(),
            transform: self.transform,
            mesh: self.mesh.clone(),
            material: self.material,
            parent: copy_text(&self.parent),
            graph_id: copy_text(&self.graph_id),
        }
    }
}

impl Clone for Scene {
    fn clone(&self) -> (r: Self)
        ensures
            r@ == self@,
    {
        let entities = self.entities.clone();
        assert(entity_views(entities@) == entity_views(self.entities@));
        Scene { id: self.id.clone(), entities }
    }
}

impl Clone for GraphNode {
    fn clone(&self) -> (r: Self)
        ensures
            r@ == self@,
    {
        GraphNode {
            id: self.id.clone(),
            node_type: self.node_type.clone(),
            sockets: self.sockets.clone(),
        }
    }
}

impl Clone for MaterialGraph {
    fn clone(&self) -> (r: Self)
        ensures
            r@ == self@,
    {
        let nodes = self.nodes.clone();
        assert(node_views(nodes@) == node_views(self.nodes@));
        MaterialGraph { id: self.id.clone(), nodes }
    }
}

impl Clone for Document {
    fn clone(&self) -> (r: Self)
        ensures
            r@ == self@,
    {
        let scenes = self.scenes.clone();
        let graphs = self.graphs.clone();
        assert(scene_views(scenes@) == scene_views(self.scenes@));
        assert(graph_views(graphs@) == graph_views(self.graphs@));
        Document {
            revision: self.revision,
            scenes,
            idempotency_log: copy_texts(&self.idempotency_log),
            graphs,
            light: self.light,
        }
    }
}

/// An id without one leading `$`.
pub open spec fn canonical(raw: Seq<char>) -> Seq<char> {
    if raw.len() > 0 && raw[0] == '$' {
        raw.skip(1)
    } else {
        raw
    }
}

/// `$lamp` and `lamp` are the same id. `$` is a same-transaction alias prefix.
pub fn canonical_id(raw: &str) -> (r: String)
    ensures
        r@ == canonical(raw@),
{
    let c = chars_of(raw);
    if c.len() > 0 && c[0] == '$' {
        text_between(&c, 1, c.len())
    } else {
        raw.to_owned()
    }
}

/// A recipe that has a mesh or is known to have none.
pub open spec fn known_recipe(recipe: Seq<char>) -> bool {
    recipe == "box"@ || recipe == "plane"@ || recipe == "sphere"@ || recipe == "empty"@
}

pub fn recipe_known(recipe: &str) -> (r: bool)
    ensures
        r == known_recipe(recipe@),
{
    same(recipe, "box") || same(recipe, "plane") || same(recipe, "sphere") || same(recipe, "empty")
}

/// Index of the first entity with an id, from `from` on, or -1.
pub open spec fn position(es: Seq<EntityModel>, id: Seq<char>, from: int) -> int
    decreases es.len() - from,
{
    if from < 0 || from >= es.len() {
        -1
    } else if es[from].id == id {
        from
    } else {
        position(es, id, from + 1)
    }
}

/// Scene and index of the first entity with an id, from scene `from` on.
pub open spec fn located(scenes: Seq<SceneModel>, id: Seq<char>, from: int) -> Option<(int, int)>
    decreases scenes.len() - from,
{
    if from < 0 || from >= scenes.len() {
        None
    } else if position(scenes[from].entities, id, 0) >= 0 {
        Some((from, position(scenes[from].entities, id, 0)))
    } else {
        located(scenes, id, from + 1)
    }
}

/// All entities, scene by scene.
pub open spec fn flat(scenes: Seq<SceneModel>) -> Seq<EntityModel>
    decreases scenes.len(),
{
    if scenes.len() == 0 {
        Seq::empty()
    } else {
        flat(scenes.drop_last()) + scenes.last().entities
    }
}

/// Index of the first graph with an id, from `from` on, or -1.
pub open spec fn graph_position(gs: Seq<GraphModel>, id: Seq<char>, from: int) -> int
    decreases gs.len() - from,
{
    if from < 0 || from >= gs.len() {
        -1
    } else if gs[from].id == id {
        from
    } else {
        graph_position(gs, id, from + 1)
    }
}

/// Index of the first principled node, from `from` on, or -1.
pub open spec fn principled_position(ns: Seq<NodeModel>, from: int) -> int
    decreases ns.len() - from,
{
    if from < 0 || from >= ns.len() {
        -1
    } else if ns[from].node_type == "principled"@ {
        from
    } else {
        principled_position(ns, from + 1)
    }
}

/// Index of the first node with an id, from `from` on, or -1.
pub open spec fn node_position(ns: Seq<NodeModel>, id: Seq<char>, from: int) -> int
    decreases ns.len() - from,
{
    if from < 0 || from >= ns.len() {
        -1
    } else if ns[from].id == id {
        from
    } else {
        node_position(ns, id, from + 1)
    }
}

pub proof fn position_in_range(es: Seq<EntityModel>, id: Seq<char>, from: int)
    requires
        from >= 0,
    ensures
        position(es, id, from) == -1 || (from <= position(es, id, from) < es.len() && es[position(
            es,
            id,
            from,
        )].id == id),
        position(es, id, from) == -1 ==> forall|k: int|
            from <= k < es.len() ==> (#[trigger] es[k]).id != id,
        forall|k: int| from <= k < position(es, id, from) ==> (#[trigger] es[k]).id != id,
    decreases es.len() - from,
{
    if from < es.len() && es[from].id != id {
        position_in_range(es, id, from + 1);
    }
}

pub proof fn located_in_range(scenes: Seq<SceneModel>, id: Seq<char>, from: int)
    requires
        from >= 0,
    ensures
        match located(scenes, id, from) {
            Some((s, i)) => from <= s < scenes.len() && 0 <= i < scenes[s].entities.len()
                && scenes[s].entities[i].id == id && i == position(scenes[s].entities, id, 0),
            None => forall|s: int, i: int|
                #![trigger scenes[s].entities[i]]
                from <= s < scenes.len() && 0 <= i < scenes[s].entities.len()
                    ==> scenes[s].entities[i].id != id,
        },
    decreases scenes.len() - from,
{
    if from < scenes.len() {
        position_in_range(scenes[from].entities, id, 0);
        if position(scenes[from].entities, id, 0) < 0 {
            located_in_range(scenes, id, from + 1);
        }
    }
}

pub proof fn graph_position_in_range(gs: Seq<GraphModel>, id: Seq<char>, from: int)
    requires
        from >= 0,
    ensures
        graph_position(gs, id, from) == -1 || (from <= graph_position(gs, id, from) < gs.len()
            && gs[graph_position(gs, id, from)].id == id),
        graph_position(gs, id, from) == -1 ==> forall|k: int|
            from <= k < gs.len() ==> (#[trigger] gs[k]).id != id,
    decreases gs.len() - from,
{
    if from < gs.len() && gs[from].id != id {
        graph_position_in_range(gs, id, from + 1);
    }
}

impl DocumentModel {
    /// The first entity with an id.
    pub open spec fn find(self, id: Seq<char>) -> Option<EntityModel> {
        match located(self.scenes, id, 0) {
            Some((s, i)) => Some(self.scenes[s].entities[i]),
            None => None,
        }
    }

    pub open spec fn has(self, id: Seq<char>) -> bool {
        located(self.scenes, id, 0) is Some
    }

    pub open spec fn has_graph(self, id: Seq<char>) -> bool {
        graph_position(self.graphs, id, 0) >= 0
    }

    pub open spec fn entities(self) -> Seq<EntityModel> {
        flat(self.scenes)
    }

    /// Number of entities, as far as a machine word counts.
    pub open spec fn count(self) -> usize {
        if flat(self.scenes).len() <= usize::MAX {
            flat(self.scenes).len() as usize
        } else {
            usize::MAX
        }
    }

    /// The same document with entity `i` of scene `s` replaced.
    pub open spec fn with_entity(self, s: int, i: int, e: EntityModel) -> DocumentModel {
        DocumentModel {
            scenes: self.scenes.update(
                s,
                SceneModel {
                    id: self.scenes[s].id,
                    entities: self.scenes[s].entities.update(i, e),
                },
            ),
            ..self
        }
    }

    /// The same document with one more entity at the end of the first scene.
    pub open spec fn with_new(self, e: EntityModel) -> DocumentModel {
        DocumentModel {
            scenes: self.scenes.update(
                0,
                SceneModel { id: self.scenes[0].id, entities: self.scenes[0].entities.push(e) },
            ),
            ..self
        }
    }

    /// The same document with one socket of a node set.
    pub open spec fn with_socket(
        self,
        g: int,
        n: int,
        name: Seq<char>,
        value: Real,
    ) -> DocumentModel {
        let node = self.graphs[g].nodes[n];
        DocumentModel {
            graphs: self.graphs.update(
                g,
                GraphModel {
                    id: self.graphs[g].id,
                    nodes: self.graphs[g].nodes.update(
                        n,
                        NodeModel { sockets: node.sockets.insert(name, value), ..node },
                    ),
                },
            ),
            ..self
        }
    }
}

/// The product of the local matrices of an entity's chain, root first. Follows at most
/// `fuel` entities; there is none where the chain names a missing entity.
pub open spec fn chain_matrix(
    d: DocumentModel,
    cur: Option<Seq<char>>,
    fuel: nat,
    g: spec_fn(Calc) -> Answer,
) -> Option<Mat4>
    decreases fuel,
{
    match cur {
        None => Some(identity()),
        Some(id) => if fuel == 0 {
            Some(identity())
        } else {
            match d.find(id) {
                None => None,
                Some(e) => match chain_matrix(d, e.parent, (fuel - 1) as nat, g) {
                    None => None,
                    Some(m) => Some(
                        g(Calc::Product(m, g(Calc::Compose(e.transform)).matrix)).matrix,
                    ),
                },
            }
        },
    }
}

/// The `j`-th of some matrices is the local one of the entity `j` steps up a chain.
pub open spec fn climbs(
    d: DocumentModel,
    id: Seq<char>,
    locals: Seq<Mat4>,
    j: int,
    g: spec_fn(Calc) -> Answer,
) -> bool {
    &&& ancestor(d, id, j as nat) matches Some(a)
    &&& d.find(a) matches Some(e)
    &&& locals[j] == g(Calc::Compose(e.transform)).matrix
}

/// A matrix is that of the chain from the entity `i` steps up, which is followed to `count`
/// steps, or any further where it ends there.
pub open spec fn multiplied(
    d: DocumentModel,
    id: Seq<char>,
    count: nat,
    i: nat,
    m: Mat4,
    g: spec_fn(Calc) -> Answer,
) -> bool {
    forall|rest: nat|
        rest + i == count || (rest + i > count && ancestor(d, id, count) is None)
            ==> #[trigger] chain_matrix(d, ancestor(d, id, i), rest, g) == Some(m)
}

proof fn one_more_product(
    d: DocumentModel,
    id: Seq<char>,
    count: nat,
    i: nat,
    up: Mat4,
    locals: Seq<Mat4>,
    g: spec_fn(Calc) -> Answer,
)
    requires
        i < count,
        climbs(d, id, locals, i as int, g),
        multiplied(d, id, count, i + 1, up, g),
    ensures
        multiplied(d, id, count, i, g(Calc::Product(up, locals[i as int])).matrix, g),
{
    let e = d.find(ancestor(d, id, i)->0)->0;
    assert(ancestor(d, id, i + 1) == e.parent);
    assert forall|rest: nat|
        rest + i == count || (rest + i > count && ancestor(d, id, count) is None) implies #[trigger]
        chain_matrix(d, ancestor(d, id, i), rest, g) == Some(
        g(Calc::Product(up, locals[i as int])).matrix,
    ) by {
        assert(chain_matrix(d, ancestor(d, id, i + 1), (rest - 1) as nat, g) == Some(up));
    }
}

/// How far a chain of parents is followed: to its end, which comes after the last entity at the
/// latest, or a fixed number of steps where it runs in a circle and has none.
pub open spec fn chain_steps(d: DocumentModel, id: Seq<char>) -> nat {
    if cyclic(d, id) {
        CIRCLE_STEPS as nat
    } else {
        d.entities().len() + 1
    }
}

/// World matrix of the entity with an id.
pub open spec fn world_of(
    d: DocumentModel,
    id: Seq<char>,
    g: spec_fn(Calc) -> Answer,
) -> Option<Mat4> {
    chain_matrix(d, Some(id), chain_steps(d, id), g)
}

/// World translation of the entity with an id.
pub open spec fn world_place(
    d: DocumentModel,
    id: Seq<char>,
    g: spec_fn(Calc) -> Answer,
) -> Option<Vec3> {
    match world_of(d, id, g) {
        Some(m) => Some(g(Calc::Decompose(m)).pose.translation),
        None => None,
    }
}

/// Replacing one entity in place replaces it in what the document holds.
pub proof fn entity_replaced(a: Document, b: Document, s: int, i: int)
    requires
        0 <= s < a.scenes.len(),
        0 <= i < a.scenes@[s].entities.len(),
        b.scenes@ == a.scenes@.update(s, b.scenes@[s]),
        b.scenes@[s].id == a.scenes@[s].id,
        b.scenes@[s].entities@ == a.scenes@[s].entities@.update(i, b.scenes@[s].entities@[i]),
        b.revision == a.revision,
        b.idempotency_log == a.idempotency_log,
        b.graphs == a.graphs,
        b.light == a.light,
    ensures
        b@ == a@.with_entity(s, i, b.scenes@[s].entities@[i]@),
{
    map_update(a.scenes@[s].entities@, i, b.scenes@[s].entities@[i], |e: Entity| e@);
    map_update(a.scenes@, s, b.scenes@[s], |x: Scene| x@);
    assert(b@.scenes =~= a@.with_entity(s, i, b.scenes@[s].entities@[i]@).scenes);
}

impl Document {
    pub(crate) fn locate(&self, id: &str) -> (r: Option<(usize, usize)>)
        ensures
            match r {
                Some((s, i)) => s < self.scenes.len() && i < self.scenes@[s as int].entities.len()
                    && located(self@.scenes, id@, 0) == Some((s as int, i as int))
                    && self@.scenes[s as int].entities[i as int]
                    == self.scenes@[s as int].entities@[i as int]@
                    && self.scenes@[s as int].entities@[i as int].id@ == id@,
                None => located(self@.scenes, id@, 0) is None,
            },
    {
        let mut s: usize = 0;
        while s < self.scenes.len()
            invariant
                s <= self.scenes.len(),
                located(self@.scenes, id@, 0) == located(self@.scenes, id@, s as int),
            decreases self.scenes.len() - s,
        {
            let entities = &self.scenes[s].entities;
            let ghost es = self@.scenes[s as int].entities;
            assert(es == entity_views(entities@));
            let mut i: usize = 0;
            while i < entities.len()
                invariant
                    i <= entities.len(),
                    es == entity_views(entities@),
                    es.len() == entities.len(),
                    s < self.scenes.len(),
                    es == self@.scenes[s as int].entities,
                    entities == self.scenes@[s as int].entities,
                    located(self@.scenes, id@, 0) == located(self@.scenes, id@, s as int),
                    position(es, id@, 0) == position(es, id@, i as int),
                decreases entities.len() - i,
            {
                assert(es[i as int] == entities@[i as int]@);
                if same(&entities[i].id, id) {
                    return Some((s, i));
                }
                i += 1;
            }
            s += 1;
        }
        None
    }

    /// The first entity with an id.
    pub fn find_entity(&self, entity_id: &str) -> (r: Option<&Entity>)
        ensures
            match r {
                Some(e) => self@.find(entity_id@) == Some(e@),
                None => self@.find(entity_id@) is None,
            },
    {
        match self.locate(entity_id) {
            Some((s, i)) => Some(&self.scenes[s].entities[i]),
            None => None,
        }
    }

    /// The first entity with an id, to be changed in place.
    pub fn find_entity_mut(&mut self, entity_id: &str) -> (r: Option<&mut Entity>)
        ensures
            match r {
                Some(e) => match located(old(self)@.scenes, entity_id@, 0) {
                    Some((s, i)) => (*e)@ == old(self)@.scenes[s].entities[i] && final(self)@
                        == old(self)@.with_entity(s, i, (*final(e))@),
                    None => false,
                },
                None => old(self)@.find(entity_id@) is None && *final(self) == *old(self),
            },
    {
        match self.locate(entity_id) {
            Some((s, i)) => {
                let ghost before = *self;
                let ghost after = *final(self);
                let e = &mut self.scenes[s].entities[i];
                proof {
                    entity_replaced(before, after, s as int, i as int);
                }
                Some(e)
            },
            None => None,
        }
    }
}

/// What a surface looks like once a bound graph is evaluated.
#[derive(Clone, Copy, Debug, PartialEq, Eq, Structural)]
pub struct Surface {
    pub color: Rgba,
    pub roughness: Real,
    pub metallic: Real,
}

/// The value of a socket, or a default where the node lacks it.
pub open spec fn socket_or(n: NodeModel, name: Seq<char>, default: Real) -> Real {
    if n.sockets.dom().contains(name) {
        n.sockets[name]
    } else {
        default
    }
}

/// The surface that a principled node describes.
pub open spec fn principled_surface(n: NodeModel) -> Surface {
    Surface {
        color: Rgba {
            r: socket_or(n, "base_color_r"@, encoded(0x3f5c_28f6)),
            g: socket_or(n, "base_color_g"@, encoded(0x3eae_147b)),
            b: socket_or(n, "base_color_b"@, encoded(0x3e61_47ae)),
            a: one(),
        },
        roughness: socket_or(n, "roughness"@, encoded(0x3f00_0000)).held_within(
            encoded(0x3d23_d70a),
            one(),
        ),
        metallic: socket_or(n, "metallic"@, zero()).held_within(zero(), one()),
    }
}

/// The first principled node of the graph that an entity is bound to.
pub open spec fn bound_node(d: DocumentModel, e: EntityModel) -> Option<(int, int)> {
    match e.graph_id {
        None => None,
        Some(gid) => {
            let p = graph_position(d.graphs, gid, 0);
            if p < 0 {
                None
            } else {
                let n = principled_position(d.graphs[p].nodes, 0);
                if n < 0 {
                    None
                } else {
                    Some((p, n))
                }
            }
        },
    }
}

/// The surface of an entity: its bound graph's, or its own colour.
pub open spec fn surface_of(d: DocumentModel, e: EntityModel) -> Surface {
    match bound_node(d, e) {
        Some((p, n)) => principled_surface(d.graphs[p].nodes[n]),
        None => Surface {
            color: e.color,
            roughness: encoded(0x3f00_0000),
            metallic: zero(),
        },
    }
}

/// The sockets of a new principled node.
pub open spec fn default_sockets() -> Map<Seq<char>, Real> {
    Map::empty().insert("base_color_r"@, encoded(0x3f5c_28f6)).insert(
        "base_color_g"@,
        encoded(0x3eae_147b),
    ).insert("base_color_b"@, encoded(0x3e61_47ae)).insert("roughness"@, encoded(0x3f00_0000)).insert(
        "metallic"@,
        zero(),
    ).insert("transmission"@, zero())
}

pub fn principled_defaults() -> (r: Table<Real>)
    ensures
        r@ == default_sockets(),
{
    let mut m: Table<Real> = Table::new();
    m.insert("base_color_r", encoded(0x3f5c_28f6));
    m.insert("base_color_g", encoded(0x3eae_147b));
    m.insert("base_color_b", encoded(0x3e61_47ae));
    m.insert("roughness", encoded(0x3f00_0000));
    m.insert("metallic", zero());
    m.insert("transmission", zero());
    m
}

fn socket_value(n: &GraphNode, name: &str, default: Real) -> (r: Real)
    ensures
        r == socket_or(n@, name@, default),
{
    match n.sockets.get(name) {
        Some(v) => *v,
        None => default,
    }
}

fn surface_from_principled(n: &GraphNode) -> (r: Surface)
    ensures
        r == principled_surface(n@),
{
    Surface {
        color: Rgba {
            r: socket_value(n, "base_color_r", encoded(0x3f5c_28f6)),
            g: socket_value(n, "base_color_g", encoded(0x3eae_147b)),
            b: socket_value(n, "base_color_b", encoded(0x3e61_47ae)),
            a: one(),
        },
        roughness: socket_value(n, "roughness", encoded(0x3f00_0000)).clamp(
            encoded(0x3d23_d70a),
            one(),
        ),
        metallic: socket_value(n, "metallic", zero()).clamp(zero(), one()),
    }
}

#[derive(Debug, PartialEq)]
pub struct InspectEntity {
    pub id: String,
    pub translation: Vec3,
    pub color: Rgba,
    pub graph_id: Option<String>,
}

#[derive(Debug, PartialEq)]
pub struct InspectSummary {
    pub revision: u64,
    pub entity_count: usize,
    pub entities: Vec<InspectEntity>,
}

/// What an inspection says of one entity.
#[verifier::ext_equal]
pub struct InspectModel {
    pub id: Seq<char>,
    pub translation: Vec3,
    pub color: Rgba,
    pub graph_id: Option<Seq<char>>,
}

impl View for InspectEntity {
    type V = InspectModel;

    open spec fn view(&self) -> InspectModel {
        InspectModel {
            id: self.id@,
            translation: self.translation,
            color: self.color,
            graph_id: text_in(self.graph_id),
        }
    }
}

pub open spec fn inspected(
    d: DocumentModel,
    e: EntityModel,
    g: spec_fn(Calc) -> Answer,
) -> InspectModel {
    InspectModel {
        id: e.id,
        translation: match world_place(d, e.id, g) {
            Some(t) => t,
            None => e.transform.translation,
        },
        color: surface_of(d, e).color,
        graph_id: e.graph_id,
    }
}

/// What a list of borrowed entities holds.
pub open spec fn borrowed(s: Seq<&Entity>) -> Seq<EntityModel> {
    s.map_values(|e: &Entity| e@)
}

proof fn flat_step(scenes: Seq<SceneModel>, s: int)
    requires
        0 <= s < scenes.len(),
    ensures
        flat(scenes.take(s + 1)) == flat(scenes.take(s)) + scenes[s].entities,
{
    assert(scenes.take(s + 1).drop_last() == scenes.take(s));
    assert(scenes.take(s + 1).last() == scenes[s]);
}

/// A box of the shadow frustum while entities are added to it.
pub struct Bounds {
    pub min: Vec3,
    pub max: Vec3,
    pub any: bool,
}

/// The box around nothing.
#[verifier::allow_in_spec]
pub fn unbounded() -> Bounds
    returns
        (Bounds {
            min: Vec3 {
                x: encoded(0x7f7f_ffff),
                y: encoded(0x7f7f_ffff),
                z: encoded(0x7f7f_ffff),
            },
            max: Vec3 {
                x: encoded(0xff7f_ffff),
                y: encoded(0xff7f_ffff),
                z: encoded(0xff7f_ffff),
            },
            any: false,
        }),
{
    Bounds {
        min: Vec3 { x: encoded(0x7f7f_ffff), y: encoded(0x7f7f_ffff), z: encoded(0x7f7f_ffff) },
        max: Vec3 { x: encoded(0xff7f_ffff), y: encoded(0xff7f_ffff), z: encoded(0xff7f_ffff) },
        any: false,
    }
}

/// A box grown by one entity of the given size at the given place.
pub open spec fn grown(b: Bounds, t: Vec3, size: Vec3, g: spec_fn(Calc) -> Answer) -> Bounds {
    let reach = encoded(0x3dcc_cccd).greater_of(size.x).greater_of(size.y).greater_of(size.z);
    let r = g(Calc::Multiply(reach, encoded(0x3f00_0000))).value;
    Bounds {
        min: Vec3 {
            x: b.min.x.smaller_of(g(Calc::Subtract(t.x, r)).value),
            y: b.min.y.smaller_of(g(Calc::Subtract(t.y, r)).value),
            z: b.min.z.smaller_of(g(Calc::Subtract(t.z, r)).value),
        },
        max: Vec3 {
            x: b.max.x.greater_of(g(Calc::Add(t.x, r)).value),
            y: b.max.y.greater_of(g(Calc::Add(t.y, r)).value),
            z: b.max.z.greater_of(g(Calc::Add(t.z, r)).value),
        },
        any: true,
    }
}

/// Whether an entity counts for the shadow frustum.
pub open spec fn fits_light(e: EntityModel) -> bool {
    e.recipe != "empty"@ && !crate::light::is_bit(e.size)
}

/// Where an entity stands: in the world, or locally where its chain is broken.
pub open spec fn stands_at(d: DocumentModel, e: EntityModel, g: spec_fn(Calc) -> Answer) -> Vec3 {
    match world_place(d, e.id, g) {
        Some(t) => t,
        None => e.transform.translation,
    }
}

/// The box around the first `n` entities that count.
pub open spec fn light_bounds(d: DocumentModel, n: int, g: spec_fn(Calc) -> Answer) -> Bounds
    decreases n,
{
    if n <= 0 {
        unbounded()
    } else {
        let e = d.entities()[n - 1];
        let b = light_bounds(d, n - 1, g);
        if fits_light(e) {
            grown(b, stands_at(d, e, g), e.size, g)
        } else {
            b
        }
    }
}

pub open spec fn all_finite(v: Vec3) -> bool {
    v.x.magnitude() < 0x7f80_0000 && v.y.magnitude() < 0x7f80_0000 && v.z.magnitude() < 0x7f80_0000
}

/// Centre and radius of the shadow frustum.
pub open spec fn fitted_light(d: DocumentModel, g: spec_fn(Calc) -> Answer) -> (Vec3, Real) {
    let b = light_bounds(d, d.entities().len() as int, g);
    if !b.any || !all_finite(b.min) {
        (Vec3 { x: zero(), y: encoded(0x3f00_0000), z: zero() }, encoded(0x4100_0000))
    } else {
        (middle(g, b.min, b.max), fit_radius(g, b.min, b.max))
    }
}

/// The document that a fresh project starts from: a ground slab and one box.
pub open spec fn bootstrap_model() -> DocumentModel {
    DocumentModel {
        revision: 1,
        scenes: seq![
            SceneModel {
                id: "main"@,
                entities: seq![
                    EntityModel {
                        id: "ground"@,
                        kind: "mesh"@,
                        transform: at(Vec3 { x: zero(), y: encoded(0xbd4c_cccd), z: zero() }),
                        recipe: "box"@,
                        size: Vec3 {
                            x: encoded(0x4100_0000),
                            y: encoded(0x3dcc_cccd),
                            z: encoded(0x4100_0000),
                        },
                        color: Rgba {
                            r: encoded(0x3ea3_d70a),
                            g: encoded(0x3eae_147b),
                            b: encoded(0x3ec2_8f5c),
                            a: one(),
                        },
                        parent: None,
                        graph_id: None,
                    },
                    EntityModel {
                        id: "box-1"@,
                        kind: "mesh"@,
                        transform: at(Vec3 { x: zero(), y: encoded(0x3f00_0000), z: zero() }),
                        recipe: "box"@,
                        size: Vec3 { x: one(), y: one(), z: one() },
                        color: Rgba {
                            r: encoded(0x3f5c_28f6),
                            g: encoded(0x3eae_147b),
                            b: encoded(0x3e61_47ae),
                            a: one(),
                        },
                        parent: None,
                        graph_id: None,
                    },
                ],
            },
        ],
        log: Seq::empty(),
        graphs: Seq::empty(),
        light: SceneLight { direction: crate::light::default_direction(), shadows: true },
    }
}

fn box_entity(id: &str, place: Vec3, size: Vec3, color: Rgba) -> (r: Entity)
    ensures
        r@ == (EntityModel {
            id: id@,
            kind: "mesh"@,
            transform: at(place),
            recipe: "box"@,
            size,
            color,
            parent: None,
            graph_id: None,
        }),
{
    Entity {
        id: id.to_owned(),
        kind: "mesh".to_owned(),
        transform: at(place),
        mesh: MeshRecipe { recipe: "box".to_owned(), size },
        material: Material { color },
        parent: None,
        graph_id: None,
    }
}

impl Document {
    pub fn bootstrap() -> (r: Self)
        ensures
            r@ == bootstrap_model(),
    {
        let ground = box_entity(
            "ground",
            Vec3 { x: zero(), y: encoded(0xbd4c_cccd), z: zero() },
            Vec3 { x: encoded(0x4100_0000), y: encoded(0x3dcc_cccd), z: encoded(0x4100_0000) },
            Rgba {
                r: encoded(0x3ea3_d70a),
                g: encoded(0x3eae_147b),
                b: encoded(0x3ec2_8f5c),
                a: one(),
            },
        );
        let first = box_entity(
            "box-1",
            Vec3 { x: zero(), y: encoded(0x3f00_0000), z: zero() },
            Vec3 { x: one(), y: one(), z: one() },
            Rgba {
                r: encoded(0x3f5c_28f6),
                g: encoded(0x3eae_147b),
                b: encoded(0x3e61_47ae),
                a: one(),
            },
        );
        let mut entities: Vec<Entity> = Vec::new();
        entities.push(ground);
        entities.push(first);
        assert(entity_views(entities@) =~= bootstrap_model().scenes[0].entities);
        let mut scenes: Vec<Scene> = Vec::new();
        scenes.push(Scene { id: "main".to_owned(), entities });
        let r = Document {
            revision: 1,
            scenes,
            idempotency_log: Vec::new(),
            graphs: Vec::new(),
            light: SceneLight::default(),
        };
        assert(r@.scenes =~= bootstrap_model().scenes);
        assert(r@.log =~= bootstrap_model().log);
        assert(r@.graphs =~= bootstrap_model().graphs);
        r
    }

    /// All entities, scene by scene.
    pub fn entities(&self) -> (r: Vec<&Entity>)
        ensures
            borrowed(r@) == self@.entities(),
    {
        let mut out: Vec<&Entity> = Vec::new();
        let mut s: usize = 0;
        while s < self.scenes.len()
            invariant
                s <= self.scenes.len(),
                borrowed(out@) == flat(self@.scenes.take(s as int)),
            decreases self.scenes.len() - s,
        {
            let list = &self.scenes[s].entities;
            let ghost start = borrowed(out@);
            let ghost es = entity_views(list@);
            let mut i: usize = 0;
            while i < list.len()
                invariant
                    i <= list.len(),
                    es == entity_views(list@),
                    borrowed(out@) == start + es.take(i as int),
                decreases list.len() - i,
            {
                let ghost before = out@;
                out.push(&list[i]);
                proof {
                    map_push(before, out@.last(), |e: &Entity| e@);
                    assert(es.take(i as int + 1) == es.take(i as int).push(es[i as int]));
                    assert(borrowed(out@) == start + es.take(i as int + 1));
                }
                i += 1;
            }
            proof {
                take_all(es);
                assert(self@.scenes[s as int].entities == es);
                flat_step(self@.scenes, s as int);
            }
            s += 1;
        }
        proof {
            take_all(self@.scenes);
        }
        out
    }

    /// Number of entities.
    pub fn entity_count(&self) -> (r: usize)
        ensures
            r == self@.count(),
    {
        let mut n: usize = 0;
        let mut s: usize = 0;
        while s < self.scenes.len()
            invariant
                s <= self.scenes.len(),
                n == (if flat(self@.scenes.take(s as int)).len() <= usize::MAX {
                    flat(self@.scenes.take(s as int)).len()
                } else {
                    usize::MAX as nat
                }),
            decreases self.scenes.len() - s,
        {
            let k: usize = self.scenes[s].entities.len();
            proof {
                flat_step(self@.scenes, s as int);
                assert(self@.scenes[s as int].entities.len() == k);
            }
            n = if n > usize::MAX - k {
                usize::MAX
            } else {
                n + k
            };
            s += 1;
        }
        proof {
            take_all(self@.scenes);
        }
        n
    }

    /// The local matrix of a placement.
    pub fn local_matrix<F: Fn(Calc) -> Answer>(t: &Transform, calc: &F) -> (r: Mat4)
        requires
            answers(*calc),
        ensures
            forall|g: spec_fn(Calc) -> Answer| #[trigger]
                computes(*calc, g) ==> r == g(Calc::Compose(*t)).matrix,
    {
        calc(Calc::Compose(*t)).matrix
    }

    /// Where a chain names a missing entity there is no world matrix.
    proof fn no_matrix(&self, id: Seq<char>, k: nat)
        requires
            ancestor(self@, id, k) matches Some(a) && !self@.has(a),
        ensures
            forall|g: spec_fn(Calc) -> Answer| #[trigger] world_of(self@, id, g) is None,
    {
        let d = self@;
        if cyclic(d, id) {
            circles_do_not_end(d, id, k + 1);
        }
        if k > 0 {
            ancestors_exist(d, id, (k - 1) as nat, k);
        }
        ended_chain_is_short(d, id, k);
        assert forall|g: spec_fn(Calc) -> Answer| #[trigger] world_of(d, id, g) is None by {
            broken_chain_has_no_matrix(d, id, k, d.entities().len() + 1, g);
        }
    }

    /// The matrix of locals along a chain, the root's last: the product from the root down.
    fn multiply_down<F: Fn(Calc) -> Answer>(
        &self,
        id: &str,
        locals: &Vec<Mat4>,
        count: usize,
        calc: &F,
    ) -> (r: Mat4)
        requires
            answers(*calc),
            count <= locals.len(),
            forall|g: spec_fn(Calc) -> Answer, j: int|
                computes(*calc, g) && 0 <= j < count ==> #[trigger] climbs(
                    self@,
                    id@,
                    locals@,
                    j,
                    g,
                ),
        ensures
            forall|g: spec_fn(Calc) -> Answer| #[trigger]
                computes(*calc, g) ==> multiplied(self@, id@, count as nat, 0, r, g),
    {
        let mut m = identity();
        let mut i: usize = count;
        while i > 0
            invariant
                i <= count <= locals.len(),
                answers(*calc),
                forall|g: spec_fn(Calc) -> Answer, j: int|
                    computes(*calc, g) && 0 <= j < count ==> #[trigger] climbs(
                        self@,
                        id@,
                        locals@,
                        j,
                        g,
                    ),
                forall|g: spec_fn(Calc) -> Answer| #[trigger]
                    computes(*calc, g) ==> multiplied(
                        self@,
                        id@,
                        count as nat,
                        i as nat,
                        m,
                        g,
                    ),
            decreases i,
        {
            i -= 1;
            let local = locals[i];
            let ghost up = m;
            m = calc(Calc::Product(m, local)).matrix;
            assert forall|g: spec_fn(Calc) -> Answer| #[trigger] computes(*calc, g) implies multiplied(
                self@,
                id@,
                count as nat,
                i as nat,
                m,
                g,
            ) by {
                assert(climbs(self@, id@, locals@, i as int, g));
                assert(multiplied(self@, id@, count as nat, (i + 1) as nat, up, g));
                one_more_product(self@, id@, count as nat, i as nat, up, locals@, g);
            }
        }
        m
    }

    /// World matrix of the entity with an id: the product of its chain of parents, root first.
    pub fn world_matrix<F: Fn(Calc) -> Answer>(&self, entity_id: &str, calc: &F) -> (r: Option<
        Mat4,
    >)
        requires
            answers(*calc),
        ensures
            !self@.has(entity_id@) ==> r is None,
            forall|g: spec_fn(Calc) -> Answer| #[trigger]
                computes(*calc, g) ==> r == world_of(self@, entity_id@, g),
    {
        let ghost d = self@;
        let list = self.entities();
        assert(borrowed(list@).len() == list.len());
        let count = list.len();
        let limit: usize = if count < CIRCLE_STEPS {
            CIRCLE_STEPS
        } else {
            count
        };
        let mut locals: Vec<Mat4> = Vec::new();
        let mut cur = Some(entity_id.to_owned());
        while cur.is_some() && locals.len() <= limit
            invariant
                d == self@,
                count == d.entities().len(),
                limit >= count,
                limit >= CIRCLE_STEPS,
                limit == count || limit == CIRCLE_STEPS,
                answers(*calc),
                locals.len() <= limit + 1,
                text_in(cur) == ancestor(d, entity_id@, locals.len() as nat),
                locals.len() > 0 ==> d.has(entity_id@) && ancestor(
                    d,
                    entity_id@,
                    (locals.len() - 1) as nat,
                ) is Some && d.has(ancestor(d, entity_id@, (locals.len() - 1) as nat)->0),
                forall|g: spec_fn(Calc) -> Answer, j: int|
                    computes(*calc, g) && 0 <= j < locals.len() ==> #[trigger] climbs(
                        d,
                        entity_id@,
                        locals@,
                        j,
                        g,
                    ),
            decreases limit + 1 - locals.len(),
        {
            if let Some(id) = &cur {
                let (local, next) = match self.find_entity(id) {
                    None => {
                        proof {
                            self.no_matrix(entity_id@, locals.len() as nat);
                        }
                        return None;
                    },
                    Some(e) => (Self::local_matrix(&e.transform, calc), copy_text(&e.parent)),
                };
                let ghost before = locals@;
                locals.push(local);
                cur = next;
                assert forall|g: spec_fn(Calc) -> Answer, j: int|
                    computes(*calc, g) && 0 <= j < locals.len() implies #[trigger] climbs(
                    d,
                    entity_id@,
                    locals@,
                    j,
                    g,
                ) by {
                    if j < before.len() {
                        assert(climbs(d, entity_id@, before, j, g));
                    }
                }
            }
        }
        proof {
            let k = locals.len() as nat;
            if cur is Some {
                if !cyclic(d, entity_id@) {
                    chain_has_ended(d, entity_id@);
                    if count + 1 < k {
                        ancestors_exist(d, entity_id@, (count + 1) as nat, k);
                    }
                }
            } else {
                if cyclic(d, entity_id@) {
                    circles_do_not_end(d, entity_id@, k);
                }
                ended_chain_is_short(d, entity_id@, k);
            }
        }
        let steps = if cur.is_some() {
            CIRCLE_STEPS
        } else {
            locals.len()
        };
        let m = self.multiply_down(entity_id, &locals, steps, calc);
        proof {
            let whole = chain_steps(d, entity_id@);
            assert(ancestor(d, entity_id@, 0) == Some(entity_id@));
            assert forall|g: spec_fn(Calc) -> Answer| #[trigger] computes(*calc, g) implies Some(m)
                == world_of(d, entity_id@, g) by {
                assert(chain_matrix(d, ancestor(d, entity_id@, 0), whole, g) == Some(m));
            }
        }
        Some(m)
    }

    pub fn world_translation<F: Fn(Calc) -> Answer>(&self, entity_id: &str, calc: &F) -> (r: Option<
        Vec3,
    >)
        requires
            answers(*calc),
        ensures
            forall|g: spec_fn(Calc) -> Answer| #[trigger]
                computes(*calc, g) ==> r == world_place(self@, entity_id@, g),
    {
        match self.world_matrix(entity_id, calc) {
            Some(m) => Some(calc(Calc::Decompose(m)).pose.translation),
            None => None,
        }
    }

    /// Where an entity stands: in the world, or locally where its chain is broken.
    pub fn standing_place<F: Fn(Calc) -> Answer>(&self, e: &Entity, calc: &F) -> (r: Vec3)
        requires
            answers(*calc),
        ensures
            forall|g: spec_fn(Calc) -> Answer| #[trigger]
                computes(*calc, g) ==> r == stands_at(self@, e@, g),
    {
        match self.world_translation(&e.id, calc) {
            Some(t) => t,
            None => e.transform.translation,
        }
    }

    pub(crate) fn locate_graph(&self, id: &str) -> (r: Option<usize>)
        ensures
            match r {
                Some(p) => p < self.graphs.len() && graph_position(self@.graphs, id@, 0) == p,
                None => graph_position(self@.graphs, id@, 0) == -1,
            },
    {
        let mut p: usize = 0;
        while p < self.graphs.len()
            invariant
                p <= self.graphs.len(),
                graph_position(self@.graphs, id@, 0) == graph_position(self@.graphs, id@, p as int),
            decreases self.graphs.len() - p,
        {
            if same(&self.graphs[p].id, id) {
                return Some(p);
            }
            p += 1;
        }
        None
    }

    pub(crate) fn locate_principled(&self, p: usize) -> (r: Option<usize>)
        requires
            p < self.graphs.len(),
        ensures
            match r {
                Some(n) => n < self.graphs@[p as int].nodes.len() && principled_position(
                    self@.graphs[p as int].nodes,
                    0,
                ) == n,
                None => principled_position(self@.graphs[p as int].nodes, 0) == -1,
            },
    {
        let nodes = &self.graphs[p].nodes;
        let ghost ns = self@.graphs[p as int].nodes;
        let mut n: usize = 0;
        while n < nodes.len()
            invariant
                n <= nodes.len(),
                p < self.graphs.len(),
                *nodes == self.graphs@[p as int].nodes,
                ns == self@.graphs[p as int].nodes,
                ns == node_views(nodes@),
                principled_position(ns, 0) == principled_position(ns, n as int),
            decreases nodes.len() - n,
        {
            assert(ns[n as int] == nodes@[n as int]@);
            if same(&nodes[n].node_type, "principled") {
                return Some(n);
            }
            n += 1;
        }
        None
    }

    pub(crate) fn locate_node(&self, p: usize, id: &str) -> (r: Option<usize>)
        requires
            p < self.graphs.len(),
        ensures
            match r {
                Some(n) => n < self.graphs@[p as int].nodes.len() && node_position(
                    self@.graphs[p as int].nodes,
                    id@,
                    0,
                ) == n,
                None => node_position(self@.graphs[p as int].nodes, id@, 0) == -1,
            },
    {
        let nodes = &self.graphs[p].nodes;
        let ghost ns = self@.graphs[p as int].nodes;
        let mut n: usize = 0;
        while n < nodes.len()
            invariant
                n <= nodes.len(),
                p < self.graphs.len(),
                *nodes == self.graphs@[p as int].nodes,
                ns == self@.graphs[p as int].nodes,
                ns == node_views(nodes@),
                node_position(ns, id@, 0) == node_position(ns, id@, n as int),
            decreases nodes.len() - n,
        {
            assert(ns[n as int] == nodes@[n as int]@);
            if same(&nodes[n].id, id) {
                return Some(n);
            }
            n += 1;
        }
        None
    }

    /// The surface of an entity: its bound graph's, or its own colour.
    pub fn resolved_surface(&self, entity: &Entity) -> (r: Surface)
        ensures
            r == surface_of(self@, entity@),
    {
        if let Some(gid) = &entity.graph_id {
            if let Some(p) = self.locate_graph(gid) {
                if let Some(n) = self.locate_principled(p) {
                    assert(self@.graphs[p as int].nodes[n as int]
                        == self.graphs@[p as int].nodes@[n as int]@);
                    return surface_from_principled(&self.graphs[p].nodes[n]);
                }
            }
        }
        Surface {
            color: entity.material.color,
            roughness: encoded(0x3f00_0000),
            metallic: zero(),
        }
    }

    /// Id, world place, visible colour and bound graph of every entity.
    pub fn inspect_summary<F: Fn(Calc) -> Answer>(&self, calc: &F) -> (r: InspectSummary)
        requires
            answers(*calc),
        ensures
            r.revision == self.revision,
            r.entity_count == self@.count(),
            r.entities.len() == self@.entities().len(),
            forall|g: spec_fn(Calc) -> Answer, i: int|
                #![trigger computes(*calc, g), r.entities@[i]]
                computes(*calc, g) && 0 <= i < r.entities.len() ==> r.entities@[i]@ == inspected(
                    self@,
                    self@.entities()[i],
                    g,
                ),
    {
        let list = self.entities();
        let mut out: Vec<InspectEntity> = Vec::new();
        let mut i: usize = 0;
        while i < list.len()
            invariant
                i <= list.len(),
                answers(*calc),
                borrowed(list@) == self@.entities(),
                out.len() == i,
                forall|g: spec_fn(Calc) -> Answer, k: int|
                    #![trigger computes(*calc, g), out@[k]]
                    computes(*calc, g) && 0 <= k < i ==> out@[k]@ == inspected(
                        self@,
                        self@.entities()[k],
                        g,
                    ),
            decreases list.len() - i,
        {
            let e: &Entity = list[i];
            assert(borrowed(list@)[i as int] == e@);
            out.push(
                InspectEntity {
                    id: e.id.clone(),
                    translation: self.standing_place(e, calc),
                    color: self.resolved_surface(e).color,
                    graph_id: copy_text(&e.graph_id),
                },
            );
            i += 1;
        }
        InspectSummary { revision: self.revision, entity_count: self.entity_count(), entities: out }
    }

    /// Centre and radius of the directional shadow frustum.
    pub fn light_fit<F: Fn(Calc) -> Answer>(&self, calc: &F) -> (r: (Vec3, Real))
        requires
            answers(*calc),
        ensures
            forall|g: spec_fn(Calc) -> Answer| #[trigger]
                computes(*calc, g) ==> r == fitted_light(self@, g),
    {
        let list = self.entities();
        let mut b = unbounded();
        let mut i: usize = 0;
        while i < list.len()
            invariant
                i <= list.len(),
                answers(*calc),
                borrowed(list@) == self@.entities(),
                forall|g: spec_fn(Calc) -> Answer| #[trigger]
                    computes(*calc, g) ==> b == light_bounds(self@, i as int, g),
            decreases list.len() - i,
        {
            let e: &Entity = list[i];
            assert(borrowed(list@)[i as int] == e@);
            if !same(&e.mesh.recipe, "empty") && !crate::light::small_bit(e.mesh.size) {
                let t = self.standing_place(e, calc);
                let size = e.mesh.size;
                let reach = encoded(0x3dcc_cccd).max(size.x).max(size.y).max(size.z);
                let r = calc(Calc::Multiply(reach, encoded(0x3f00_0000))).value;
                b = Bounds {
                    min: Vec3 {
                        x: b.min.x.min(calc(Calc::Subtract(t.x, r)).value),
                        y: b.min.y.min(calc(Calc::Subtract(t.y, r)).value),
                        z: b.min.z.min(calc(Calc::Subtract(t.z, r)).value),
                    },
                    max: Vec3 {
                        x: b.max.x.max(calc(Calc::Add(t.x, r)).value),
                        y: b.max.y.max(calc(Calc::Add(t.y, r)).value),
                        z: b.max.z.max(calc(Calc::Add(t.z, r)).value),
                    },
                    any: true,
                };
            }
            i += 1;
        }
        if !b.any || !b.min.x.finite() || !b.min.y.finite() || !b.min.z.finite() {
            return (Vec3 { x: zero(), y: encoded(0x3f00_0000), z: zero() }, encoded(0x4100_0000));
        }
        (middle_of(b.min, b.max, calc), radius_of(b.min, b.max, calc))
    }
}

} // verus!
