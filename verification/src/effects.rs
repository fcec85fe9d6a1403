//! What each change does to a document, seen from outside.

use crate::change::{
    all_changed, attached, changed, created, fresh_graph, graph_bound, graph_created, graph_patched,
    group_entity, grouped, member_worlds, painted, resolved, spawned, spawned_box, taken,
    ApplyChange, Session,
};
use crate::cycles_xml::shade_of;
use crate::document::{
    bound_node, canonical, default_sockets, flat, graph_position, graph_position_in_range,
    known_recipe, located, located_in_range, node_position, position, position_in_range,
    principled_position, surface_of, DocumentModel, Entity, EntityModel, GraphModel, NodeModel,
    SceneModel,
};
use crate::laws::{
    created_entity_answers_to_its_names, location_survives, member_ids, pushed_entity_is_found,
};
use crate::layout::laid_out;
use crate::numeric::{
    no_rotation, one, unit_scale, zero, Answer, Calc, Mat4, Real, Rgba, Vec3,
};
use crate::text::decimal_text;
use vstd::prelude::*;

verus! {

/// The sockets that hold the base colour of a principled node are three different ones.
proof fn color_sockets_differ()
    ensures
        "base_color_r"@ != "base_color_g"@,
        "base_color_r"@ != "base_color_b"@,
        "base_color_g"@ != "base_color_b"@,
{
    reveal_strlit("base_color_r");
    reveal_strlit("base_color_g");
    reveal_strlit("base_color_b");
    assert("base_color_r"@[11] == 'r');
    assert("base_color_g"@[11] == 'g');
    assert("base_color_b"@[11] == 'b');
}

proof fn principled_in_range(ns: Seq<NodeModel>, from: int)
    requires
        from >= 0,
    ensures
        principled_position(ns, from) == -1 || (from <= principled_position(ns, from) < ns.len()
            && ns[principled_position(ns, from)].node_type == "principled"@),
    decreases ns.len() - from,
{
    if from < ns.len() && ns[from].node_type != "principled"@ {
        principled_in_range(ns, from + 1);
    }
}

/// Nodes of the same types have their first principled one at the same place.
proof fn principled_survives(ns: Seq<NodeModel>, ms: Seq<NodeModel>, from: int)
    requires
        ns.len() == ms.len(),
        forall|k: int| 0 <= k < ns.len() ==> (#[trigger] ns[k]).node_type == ms[k].node_type,
        from >= 0,
    ensures
        principled_position(ns, from) == principled_position(ms, from),
    decreases ns.len() - from,
{
    if from < ns.len() {
        assert(ns[from].node_type == ms[from].node_type);
        principled_survives(ns, ms, from + 1);
    }
}

/// Graphs of the same ids are found at the same place.
proof fn graph_survives(gs: Seq<GraphModel>, hs: Seq<GraphModel>, id: Seq<char>, from: int)
    requires
        gs.len() == hs.len(),
        forall|k: int| 0 <= k < gs.len() ==> (#[trigger] gs[k]).id == hs[k].id,
        from >= 0,
    ensures
        graph_position(gs, id, from) == graph_position(hs, id, from),
    decreases gs.len() - from,
{
    if from < gs.len() {
        assert(gs[from].id == hs[from].id);
        graph_survives(gs, hs, id, from + 1);
    }
}

/// Two documents have the same graphs with the same nodes, whatever their sockets hold.
pub open spec fn same_nodes(a: DocumentModel, b: DocumentModel) -> bool {
    &&& a.graphs.len() == b.graphs.len()
    &&& forall|p: int|
        #![trigger b.graphs[p]]
        0 <= p < a.graphs.len() ==> a.graphs[p].id == b.graphs[p].id && a.graphs[p].nodes.len()
            == b.graphs[p].nodes.len()
    &&& forall|p: int, n: int|
        #![trigger b.graphs[p].nodes[n]]
        0 <= p < a.graphs.len() && 0 <= n < a.graphs[p].nodes.len() ==> a.graphs[p].nodes[n].id
            == b.graphs[p].nodes[n].id && a.graphs[p].nodes[n].node_type
            == b.graphs[p].nodes[n].node_type
}

/// A binding leads to the same node whatever the sockets hold.
proof fn binding_survives(a: DocumentModel, b: DocumentModel, e: EntityModel)
    requires
        same_nodes(a, b),
    ensures
        bound_node(a, e) == bound_node(b, e),
{
    if let Some(id) = e.graph_id {
        assert forall|k: int| 0 <= k < a.graphs.len() implies (#[trigger] a.graphs[k]).id
            == b.graphs[k].id by {
            assert(a.graphs[k].id == b.graphs[k].id);
        }
        graph_survives(a.graphs, b.graphs, id, 0);
        graph_position_in_range(a.graphs, id, 0);
        let p = graph_position(a.graphs, id, 0);
        if p >= 0 {
            assert forall|k: int| 0 <= k < a.graphs[p].nodes.len() implies (
            #[trigger] a.graphs[p].nodes[k]).node_type == b.graphs[p].nodes[k].node_type by {
                assert(a.graphs[p].nodes[k].node_type == b.graphs[p].nodes[k].node_type);
            }
            assert(b.graphs[p].nodes.len() == a.graphs[p].nodes.len());
            principled_survives(a.graphs[p].nodes, b.graphs[p].nodes, 0);
        }
    }
}

/// Names of the sockets that hold a base colour.
pub open spec fn holds_color(name: Seq<char>) -> bool {
    name == "base_color_r"@ || name == "base_color_g"@ || name == "base_color_b"@
}

/// A painted entity is seen in the colour it was given, by the window, the exported file and
/// the Cycles scene alike, whether it is bound to a graph or not. An entity that is not there
/// cannot be painted.
pub proof fn painted_entity_shows_its_color(
    st: Session,
    entity_id: String,
    color: Rgba,
    g: spec_fn(Calc) -> Answer,
)
    ensures
        changed(st, ApplyChange::PatchColor { entity_id, color }, g) is Ok <==> st.doc.has(
            resolved(st, entity_id@),
        ),
        changed(st, ApplyChange::PatchColor { entity_id, color }, g) matches Ok(b) ==> {
            &&& b.doc.find(resolved(st, entity_id@)) matches Some(e)
            &&& e.color == color
            &&& surface_of(b.doc, e).color.r == color.r
            &&& surface_of(b.doc, e).color.g == color.g
            &&& surface_of(b.doc, e).color.b == color.b
            &&& shade_of(b.doc, e).r == color.r
            &&& shade_of(b.doc, e).g == color.g
            &&& shade_of(b.doc, e).b == color.b
        },
{
    let id = resolved(st, entity_id@);
    let d = st.doc;
    if let Some((s, i)) = located(d.scenes, id, 0) {
        painting_keeps_the_rest(st, entity_id, color, g);
        located_in_range(d.scenes, id, 0);
        let e = d.scenes[s].entities[i];
        let f = EntityModel { color, ..e };
        let b = painted(d, s, i, color);
        location_survives(d, s, i, f, id, 0);
        assert(b.scenes =~= d.with_entity(s, i, f).scenes);
        assert(b.find(id) == Some(f));
        binding_survives(d, b, f);
        binding_survives(d, d.with_entity(s, i, f), e);
        assert(bound_node(d, e) == bound_node(d, f));
        color_sockets_differ();
        if let Some((p, n)) = bound_node(b, f) {
            graph_position_in_range(d.graphs, e.graph_id->0, 0);
            principled_in_range(d.graphs[p].nodes, 0);
        }
    }
}

/// Painting touches nothing but the colour of that entity and the colour sockets of the
/// principled node that it is bound to.
pub proof fn painting_keeps_the_rest(
    st: Session,
    entity_id: String,
    color: Rgba,
    g: spec_fn(Calc) -> Answer,
)
    ensures
        changed(st, ApplyChange::PatchColor { entity_id, color }, g) matches Ok(b) ==> {
            let id = resolved(st, entity_id@);
            &&& b.aliases == st.aliases
            &&& b.fresh == st.fresh
            &&& b.doc.revision == st.doc.revision
            &&& b.doc.log == st.doc.log
            &&& b.doc.light == st.doc.light
            &&& b.doc.scenes.len() == st.doc.scenes.len()
            &&& forall|s: int|
                0 <= s < st.doc.scenes.len() ==> (#[trigger] b.doc.scenes[s]).id
                    == st.doc.scenes[s].id && b.doc.scenes[s].entities.len()
                    == st.doc.scenes[s].entities.len()
            &&& forall|s: int, i: int|
                #![trigger b.doc.scenes[s].entities[i]]
                0 <= s < st.doc.scenes.len() && 0 <= i < st.doc.scenes[s].entities.len() ==> {
                    let old = st.doc.scenes[s].entities[i];
                    let new = b.doc.scenes[s].entities[i];
                    new == old || (old.id == id && new == EntityModel { color, ..old })
                }
            &&& same_nodes(st.doc, b.doc)
            &&& forall|p: int, n: int, name: Seq<char>|
                #![trigger b.doc.graphs[p].nodes[n].sockets[name]]
                #![trigger b.doc.graphs[p].nodes[n].sockets.dom().contains(name)]
                0 <= p < st.doc.graphs.len() && 0 <= n < st.doc.graphs[p].nodes.len()
                    && !holds_color(name) ==> {
                    let old = st.doc.graphs[p].nodes[n].sockets;
                    let new = b.doc.graphs[p].nodes[n].sockets;
                    new.dom().contains(name) == old.dom().contains(name) && new[name] == old[name]
                }
            &&& forall|p: int, n: int|
                #![trigger b.doc.graphs[p].nodes[n]]
                0 <= p < st.doc.graphs.len() && 0 <= n < st.doc.graphs[p].nodes.len()
                    && b.doc.graphs[p].nodes[n] != st.doc.graphs[p].nodes[n]
                    ==> st.doc.find(id)->0.graph_id == Some(st.doc.graphs[p].id)
                    && st.doc.graphs[p].nodes[n].node_type == "principled"@
        },
{
    let id = resolved(st, entity_id@);
    let d = st.doc;
    if let Some((s, i)) = located(d.scenes, id, 0) {
        located_in_range(d.scenes, id, 0);
        let e = d.scenes[s].entities[i];
        let d1 = d.with_entity(s, i, EntityModel { color, ..e });
        let b = painted(d, s, i, color);
        assert(d1.graphs == d.graphs);
        if let Some((p, n)) = bound_node(d1, e) {
            graph_position_in_range(d.graphs, e.graph_id->0, 0);
            principled_in_range(d.graphs[p].nodes, 0);
            assert(b.scenes == d1.scenes);
            assert forall|q: int, m: int|
                #![trigger b.graphs[q].nodes[m]]
                0 <= q < d.graphs.len() && 0 <= m < d.graphs[q].nodes.len() && (q != p || m
                    != n) implies b.graphs[q].nodes[m] == d.graphs[q].nodes[m] by {}
            assert(b.graphs[p].nodes[n].sockets == d.graphs[p].nodes[n].sockets.insert(
                "base_color_r"@,
                color.r,
            ).insert("base_color_g"@, color.g).insert("base_color_b"@, color.b));
        }
    }
}

/// Adding an entity under a new id does not touch the others.
proof fn others_stay_found(d: DocumentModel, e: EntityModel, id: Seq<char>)
    requires
        d.scenes.len() > 0,
        d.has(id),
        id != e.id,
    ensures
        d.with_new(e).find(id) == d.find(id),
{
    let es = d.scenes[0].entities;
    position_before_end(es, e, id, 0);
    located_in_range(d.scenes, id, 0);
    if position(es, id, 0) < 0 {
        located_elsewhere(d.scenes, d.with_new(e).scenes, id, 1);
    }
    position_in_range(es, id, 0);
}

proof fn position_before_end(es: Seq<EntityModel>, e: EntityModel, id: Seq<char>, from: int)
    requires
        0 <= from <= es.len(),
        e.id != id,
    ensures
        position(es.push(e), id, from) == position(es, id, from),
    decreases es.len() - from,
{
    if from < es.len() {
        assert(es.push(e)[from] == es[from]);
        position_before_end(es, e, id, from + 1);
    } else {
        assert(es.push(e)[from] == e);
        reveal_with_fuel(position, 2);
    }
}

proof fn located_elsewhere(
    a: Seq<SceneModel>,
    b: Seq<SceneModel>,
    id: Seq<char>,
    from: int,
)
    requires
        from >= 0,
        a.len() == b.len(),
        forall|s: int| from <= s < a.len() ==> a[s] == b[s],
    ensures
        located(a, id, from) == located(b, id, from),
    decreases a.len() - from,
{
    if from < a.len() {
        located_elsewhere(a, b, id, from + 1);
    }
}

/// A created entity is there as it was given, under its plain id, and every other entity is
/// still there as it was.
pub proof fn created_entity_is_added(
    st: Session,
    entity: Entity,
    g: spec_fn(Calc) -> Answer,
    id: Seq<char>,
)
    ensures
        changed(st, ApplyChange::CreateMesh { entity }, g) matches Ok(b) ==> {
            let own = canonical(entity@.id);
            &&& !st.doc.has(own)
            &&& known_recipe(entity@.recipe)
            &&& b.doc.find(own) == Some(EntityModel { id: own, ..entity@ })
            &&& st.doc.has(id) ==> b.doc.find(id) == st.doc.find(id)
            &&& b.doc.entities().len() == st.doc.entities().len() + 1
            &&& b.doc.graphs == st.doc.graphs
            &&& b.doc.light == st.doc.light
        },
{
    if let Ok(b) = created(st, entity@) {
        let e = EntityModel { id: canonical(entity@.id), ..entity@ };
        created_entity_answers_to_its_names(st, entity@);
        if st.doc.has(id) {
            others_stay_found(st.doc, e, id);
        }
        one_more_entity(st.doc.scenes, st.doc.with_new(e).scenes);
    }
}

proof fn one_more_entity(a: Seq<SceneModel>, b: Seq<SceneModel>)
    requires
        a.len() > 0,
        a.len() == b.len(),
        b[0].entities.len() == a[0].entities.len() + 1,
        forall|s: int| 0 < s < a.len() ==> a[s] == b[s],
    ensures
        flat(b).len() == flat(a).len() + 1,
    decreases a.len(),
{
    if a.len() > 1 {
        one_more_entity(a.drop_last(), b.drop_last());
    } else {
        assert(flat(a.drop_last()).len() == 0);
        assert(flat(b.drop_last()).len() == 0);
    }
}

/// The boxes of a layout are all there under the prefix and their numbers, each where the
/// pattern puts it and with the size and the colour that were asked for; every entity that was
/// there before stays as it was.
pub proof fn spawned_boxes_stand_in_place(
    st: Session,
    prefix: Seq<char>,
    points: Seq<Vec3>,
    from: int,
    size: Vec3,
    color: Rgba,
)
    requires
        0 <= from <= points.len(),
    ensures
        spawned(st, prefix, points, from, size, color) matches Ok(b) ==> {
            &&& forall|k: int|
                from <= k < points.len() ==> {
                    &&& b.doc.find(
                        prefix + "-"@ + #[trigger] decimal_text(k as nat),
                    ) matches Some(e)
                    &&& e.recipe == "box"@
                    &&& e.kind == "mesh"@
                    &&& e.transform.translation == points[k]
                    &&& e.transform.rotation == no_rotation()
                    &&& e.transform.scale == unit_scale()
                    &&& e.size == size
                    &&& e.color == color
                    &&& e.parent is None
                    &&& e.graph_id is None
                }
            &&& forall|id: Seq<char>|
                st.doc.has(id) ==> (#[trigger] b.doc.find(id)) == st.doc.find(id)
            &&& b.doc.entities().len() == st.doc.entities().len() + points.len() - from
            &&& b.doc.graphs == st.doc.graphs
            &&& b.doc.light == st.doc.light
        },
    decreases points.len() - from,
{
    if from < points.len() {
        let id = prefix + "-"@ + decimal_text(from as nat);
        if !taken(st, id) && st.doc.scenes.len() > 0 {
            let e = spawned_box(id, points[from], size, color);
            let next = Session {
                doc: st.doc.with_new(e),
                aliases: st.aliases.insert(id, id).insert("$"@ + id, id),
                fresh: st.fresh.push(id),
            };
            spawned_boxes_stand_in_place(next, prefix, points, from + 1, size, color);
            pushed_entity_is_found(st.doc, e);
            one_more_entity(st.doc.scenes, next.doc.scenes);
            if let Ok(b) = spawned(st, prefix, points, from, size, color) {
                assert forall|x: Seq<char>| st.doc.has(x) implies (#[trigger] b.doc.find(x))
                    == st.doc.find(x) by {
                    others_stay_found(st.doc, e, x);
                }
                assert(next.doc.has(id));
                assert(b.doc.find(id) == Some(e));
            }
        }
    }
}

/// A layout request spawns the boxes of its pattern, of the size that it asks for or of 0.8
/// each way.
pub proof fn layout_request_spawns_the_pattern(st: Session, c: ApplyChange, g: spec_fn(Calc) -> Answer)
    ensures
        c matches ApplyChange::LayoutPattern {
            pattern,
            count,
            origin,
            spacing,
            columns,
            seed,
            id_prefix,
            color,
            size,
        } ==> (changed(st, c, g) matches Ok(b) ==> {
            &&& laid_out(pattern@, count, origin, spacing, columns, seed, g) matches Ok(points)
            &&& points.len() == count
            &&& forall|k: int|
                0 <= k < count ==> {
                    &&& b.doc.find(
                        canonical(id_prefix@) + "-"@ + #[trigger] decimal_text(k as nat),
                    ) matches Some(e)
                    &&& e.recipe == "box"@
                    &&& e.transform.translation == points[k]
                    &&& size is Some ==> Some(e.size) == size
                    &&& size is None ==> e.size.x.bits == 0x3f4c_cccd && e.size.y.bits
                        == 0x3f4c_cccd && e.size.z.bits == 0x3f4c_cccd
                    &&& e.color == color
                    &&& e.parent is None
                }
            &&& forall|id: Seq<char>|
                st.doc.has(id) ==> (#[trigger] b.doc.find(id)) == st.doc.find(id)
            &&& b.doc.entities().len() == st.doc.entities().len() + count
        }),
{
    if let ApplyChange::LayoutPattern {
        pattern,
        count,
        origin,
        spacing,
        columns,
        seed,
        id_prefix,
        color,
        size,
    } = c {
        if let Ok(points) = laid_out(pattern@, count, origin, spacing, columns, seed, g) {
            let edges = match size {
                Some(s) => s,
                None => crate::change::default_box_size(),
            };
            spawned_boxes_stand_in_place(st, canonical(id_prefix@), points, 0, edges, color);
        }
    }
}

/// An entity that is bound to a graph shows what the graph's principled node says, and one whose
/// binding is taken away shows its own colour. Nothing else about it changes, and no other
/// entity does.
pub proof fn bound_entity_shows_the_graph(
    st: Session,
    graph_id: String,
    entity_id: String,
    g: spec_fn(Calc) -> Answer,
)
    ensures
        changed(st, ApplyChange::GraphBind { graph_id, entity_id }, g) matches Ok(b) ==> {
            let id = resolved(st, entity_id@);
            let gid = canonical(graph_id@);
            &&& st.doc.find(id) matches Some(old)
            &&& b.doc.find(id) matches Some(e)
            &&& e == EntityModel { graph_id: e.graph_id, ..old }
            &&& gid.len() == 0 ==> e.graph_id is None && surface_of(b.doc, e).color == old.color
            &&& gid.len() > 0 ==> e.graph_id == Some(gid) && st.doc.has_graph(gid)
            &&& b.doc.graphs == st.doc.graphs
            &&& b.doc.light == st.doc.light
            &&& forall|x: Seq<char>| x != id ==> (#[trigger] b.doc.find(x)) == st.doc.find(x)
        },
{
    let id = resolved(st, entity_id@);
    located_in_range(st.doc.scenes, id, 0);
    if let Ok(b) = graph_bound(st, graph_id@, entity_id@) {
        let (s, i) = located(st.doc.scenes, id, 0)->0;
        let e = b.doc.scenes[s].entities[i];
        assert(b.doc == st.doc.with_entity(s, i, e));
        location_survives(st.doc, s, i, e, id, 0);
        assert forall|x: Seq<char>| x != id implies (#[trigger] b.doc.find(x)) == st.doc.find(
            x,
        ) by {
            location_survives(st.doc, s, i, e, x, 0);
            located_in_range(st.doc.scenes, x, 0);
        }
    }
}

/// A new graph is there under its plain id with one principled node, whose look is a dull
/// terracotta; graphs and entities that were there stay as they were.
pub proof fn created_graph_is_terracotta(st: Session, graph_id: String, g: spec_fn(Calc) -> Answer)
    ensures
        changed(st, ApplyChange::GraphCreate { graph_id }, g) is Ok <==> !st.doc.has_graph(
            canonical(graph_id@),
        ),
        changed(st, ApplyChange::GraphCreate { graph_id }, g) matches Ok(b) ==> {
            let n = st.doc.graphs.len() as int;
            &&& b.doc.graphs.len() == n + 1
            &&& b.doc.graphs.take(n) == st.doc.graphs
            &&& b.doc.graphs[n].id == canonical(graph_id@)
            &&& b.doc.graphs[n].nodes.len() == 1
            &&& b.doc.graphs[n].nodes[0].id == "principled"@
            &&& b.doc.graphs[n].nodes[0].node_type == "principled"@
            &&& b.doc.scenes == st.doc.scenes
            &&& b.doc.light == st.doc.light
            &&& forall|e: EntityModel|
                e.graph_id == Some(canonical(graph_id@)) ==> {
                    let s = #[trigger] surface_of(b.doc, e);
                    &&& s.color.r.bits == 0x3f5c_28f6
                    &&& s.color.g.bits == 0x3eae_147b
                    &&& s.color.b.bits == 0x3e61_47ae
                    &&& s.color.a.bits == 0x3f80_0000
                    &&& s.roughness.bits == 0x3f00_0000
                    &&& s.metallic.bits == 0
                }
        },
{
    let gid = canonical(graph_id@);
    graph_position_in_range(st.doc.graphs, gid, 0);
    if let Ok(b) = graph_created(st, graph_id@) {
        let n = st.doc.graphs.len() as int;
        assert(b.doc.graphs.take(n) =~= st.doc.graphs);
        pushed_graph_is_found(st.doc.graphs, fresh_graph(gid), 0);
        default_sockets_hold();
        reveal_with_fuel(principled_position, 2);
    }
}

proof fn default_sockets_hold()
    ensures
        default_sockets().dom().contains("base_color_r"@),
        default_sockets()["base_color_r"@].bits == 0x3f5c_28f6,
        default_sockets().dom().contains("base_color_g"@),
        default_sockets()["base_color_g"@].bits == 0x3eae_147b,
        default_sockets().dom().contains("base_color_b"@),
        default_sockets()["base_color_b"@].bits == 0x3e61_47ae,
        default_sockets().dom().contains("roughness"@),
        default_sockets()["roughness"@].bits == 0x3f00_0000,
        default_sockets().dom().contains("metallic"@),
        default_sockets()["metallic"@].bits == 0,
{
    color_sockets_differ();
    reveal_strlit("base_color_r");
    reveal_strlit("base_color_g");
    reveal_strlit("base_color_b");
    reveal_strlit("roughness");
    reveal_strlit("metallic");
    reveal_strlit("transmission");
    assert("roughness"@[0] == 'r' && "metallic"@[0] == 'm' && "transmission"@[0] == 't'
        && "base_color_r"@[0] == 'b' && "base_color_g"@[0] == 'b' && "base_color_b"@[0] == 'b');
}

proof fn pushed_graph_is_found(gs: Seq<GraphModel>, x: GraphModel, from: int)
    requires
        0 <= from <= gs.len(),
        graph_position(gs, x.id, from) < 0,
    ensures
        graph_position(gs.push(x), x.id, from) == gs.len(),
    decreases gs.len() - from,
{
    if from < gs.len() {
        assert(gs.push(x)[from] == gs[from]);
        pushed_graph_is_found(gs, x, from + 1);
    }
}

/// A light request sets what it names and leaves the rest; one whose direction points nowhere is
/// refused.
pub proof fn light_request_sets_what_it_names(
    st: Session,
    direction: Option<Vec3>,
    shadows: Option<bool>,
    g: spec_fn(Calc) -> Answer,
)
    ensures
        ({
            let r = changed(st, ApplyChange::PatchLight { direction, shadows }, g);
            &&& r is Err <==> (direction matches Some(v) && g(Calc::LengthSquared(v)).value.less(
                Real { bits: 0x322b_cc77 },
            ))
            &&& r matches Err(e) ==> e == "light_direction_zero"@
            &&& r matches Ok(b) ==> {
                &&& direction matches Some(v) ==> b.doc.light.direction == v
                &&& direction is None ==> b.doc.light.direction == st.doc.light.direction
                &&& shadows matches Some(s) ==> b.doc.light.shadows == s
                &&& shadows is None ==> b.doc.light.shadows == st.doc.light.shadows
                &&& b.doc.scenes == st.doc.scenes
                &&& b.doc.graphs == st.doc.graphs
            }
        }),
{
}

/// Patching a colour socket of a graph's first principled node changes how every entity that is
/// bound to the graph looks.
pub proof fn patched_socket_shows(
    st: Session,
    graph_id: String,
    node_id: String,
    socket: String,
    value: Real,
    g: spec_fn(Calc) -> Answer,
    e: EntityModel,
)
    requires
        e.graph_id == Some(canonical(graph_id@)),
        bound_node(st.doc, e) matches Some((p, n)) && n == node_position(
            st.doc.graphs[p].nodes,
            canonical(node_id@),
            0,
        ),
    ensures
        changed(st, ApplyChange::GraphPatch { graph_id, node_id, socket, value }, g) matches Ok(
            b,
        ) ==> {
            let old = surface_of(st.doc, e);
            let new = surface_of(b.doc, e);
            &&& new.color.r == (if socket@ == "base_color_r"@ {
                value
            } else {
                old.color.r
            })
            &&& new.color.g == (if socket@ == "base_color_g"@ {
                value
            } else {
                old.color.g
            })
            &&& new.color.b == (if socket@ == "base_color_b"@ {
                value
            } else {
                old.color.b
            })
            &&& socket@ != "roughness"@ ==> new.roughness == old.roughness
            &&& socket@ != "metallic"@ ==> new.metallic == old.metallic
            &&& socket@ == "roughness"@ && Real { bits: 0x3d23_d70a }.at_most(value) && value.at_most(
                one(),
            ) ==> new.roughness == value
            &&& socket@ == "metallic"@ && zero().at_most(value) && value.at_most(one())
                ==> new.metallic == value
        },
{
    color_sockets_differ();
    graph_position_in_range(st.doc.graphs, canonical(graph_id@), 0);
    if let Ok(b) = graph_patched(st, graph_id@, node_id@, socket@, value) {
        let (p, n) = bound_node(st.doc, e)->0;
        principled_in_range(st.doc.graphs[p].nodes, 0);
        assert(b.doc == st.doc.with_socket(p, n, socket@, value));
        assert(same_nodes(st.doc, b.doc));
        binding_survives(st.doc, b.doc, e);
        assert(b.doc.graphs[p].nodes[n].sockets == st.doc.graphs[p].nodes[n].sockets.insert(
            socket@,
            value,
        ));
    }
}

/// Changesets go change by change: doing two one after the other is doing both at once.
pub proof fn changes_add_up(
    st: Session,
    a: Seq<ApplyChange>,
    b: Seq<ApplyChange>,
    from: int,
    g: spec_fn(Calc) -> Answer,
)
    requires
        0 <= from <= a.len(),
    ensures
        all_changed(st, a + b, from, g) == (match all_changed(st, a, from, g) {
            Err(e) => Err(e),
            Ok(next) => all_changed(next, b, 0, g),
        }),
    decreases a.len() - from,
{
    if from < a.len() {
        assert((a + b)[from] == a[from]);
        if let Ok(next) = changed(st, a[from], g) {
            changes_add_up(next, a, b, from + 1, g);
        }
    } else {
        rest_is_all(st, a, b, 0, g);
    }
}

proof fn rest_is_all(
    st: Session,
    a: Seq<ApplyChange>,
    b: Seq<ApplyChange>,
    from: int,
    g: spec_fn(Calc) -> Answer,
)
    requires
        0 <= from <= b.len(),
    ensures
        all_changed(st, a + b, a.len() + from, g) == all_changed(st, b, from, g),
    decreases b.len() - from,
{
    if from < b.len() {
        assert((a + b)[a.len() + from] == b[from]);
        if let Ok(next) = changed(st, b[from], g) {
            rest_is_all(next, a, b, from + 1, g);
        }
    }
}

/// Attaching members to a group leaves every other entity as it is.
proof fn attaching_leaves_others(
    d: DocumentModel,
    gid: Seq<char>,
    c: Vec3,
    worlds: Seq<(Seq<char>, Mat4)>,
    from: int,
    id: Seq<char>,
    g: spec_fn(Calc) -> Answer,
)
    requires
        from >= 0,
        forall|k: int| from <= k < worlds.len() ==> (#[trigger] worlds[k]).0 != id,
    ensures
        attached(d, gid, c, worlds, from, g) matches Ok(b) ==> b.find(id) == d.find(id),
    decreases worlds.len() - from,
{
    if from < worlds.len() {
        let own = worlds[from].0;
        located_in_range(d.scenes, own, 0);
        located_in_range(d.scenes, id, 0);
        if let Some((s, i)) = located(d.scenes, own, 0) {
            let inverse = g(Calc::Invert(g(Calc::Shift(c)).matrix)).matrix;
            let local = g(Calc::Product(inverse, worlds[from].1)).matrix;
            let e = EntityModel {
                parent: Some(gid),
                transform: g(Calc::Decompose(local)).pose,
                ..d.scenes[s].entities[i]
            };
            location_survives(d, s, i, e, id, 0);
            attaching_leaves_others(d.with_entity(s, i, e), gid, c, worlds, from + 1, id, g);
        }
    }
}

/// A new group is an entity of its own that shows nothing: it stands among its members, unturned
/// and of unit scale, under no parent.
pub proof fn new_groups_show_nothing(
    st: Session,
    group_id: Seq<char>,
    raws: Seq<Seq<char>>,
    g: spec_fn(Calc) -> Answer,
)
    ensures
        grouped(st, group_id, raws, g) matches Ok(b) ==> {
            let gid = canonical(group_id);
            &&& !st.doc.has(gid)
            &&& b.doc.find(gid) matches Some(e) && e.id == gid && e.kind == "group"@ && e.recipe
                == "empty"@ && e.parent is None && e.graph_id is None && e.transform.translation
                == crate::grouping::group_place(st, raws, g) && e.transform.rotation
                == no_rotation() && e.transform.scale == unit_scale()
        },
{
    if let Ok(b) = grouped(st, group_id, raws, g) {
        let gid = canonical(group_id);
        let worlds = member_worlds(st, raws, 0, g)->Ok_0;
        member_ids(st, raws, 0, g);
        let c = crate::grouping::group_place(st, raws, g);
        let e = group_entity(gid, c);
        let d1 = st.doc.with_new(e);
        pushed_entity_is_found(st.doc, e);
        assert forall|k: int| 0 <= k < worlds.len() implies (#[trigger] worlds[k]).0 != gid by {
            assert(st.doc.has(worlds[k].0));
        }
        attaching_leaves_others(d1, gid, c, worlds, 0, gid, g);
    }
}

/// An entity that is bound to no graph shows its own colour, half rough and not metallic.
pub proof fn plain_entities_show_their_color(d: DocumentModel, e: EntityModel)
    requires
        bound_node(d, e) is None,
    ensures
        surface_of(d, e).color == e.color,
        surface_of(d, e).roughness.bits == 0x3f00_0000,
        surface_of(d, e).metallic.bits == 0,
{
}

} // verus!
