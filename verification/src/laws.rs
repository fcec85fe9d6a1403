//! What every changeset keeps, and what requests can rely on.

use crate::apply::{
    left_by, newest, next_revision, verdict, ApplyRequest, Verdict, LOG_CAP, MAX_OPS,
};
use crate::change::{
    all_changed, attached, changed, children_of, created, detached, graph_bound, graph_created,
    graph_patched, group_entity, grouped, member_worlds, opened, painted, placed_in_world, removed,
    resolved, spawned, spawned_box, taken, translation_sum, ungrouped, ApplyChange, Session,
};
use crate::document::{
    bound_node, canonical, graph_position, graph_position_in_range, located, located_in_range,
    node_position, position, position_in_range, world_of, DocumentModel, EntityModel, SceneModel,
    MAX_ENTITIES,
};
use crate::layout::laid_out;
use crate::numeric::{Answer, Calc, Mat4, Real, Rgba, Vec3};
use crate::text::{decimal_text, texts};
use vstd::prelude::*;

verus! {

/// No two entities of a document share an id.
pub open spec fn distinct_ids(d: DocumentModel) -> bool {
    forall|s: int, i: int, t: int, j: int|
        #![trigger d.scenes[s].entities[i], d.scenes[t].entities[j]]
        0 <= s < d.scenes.len() && 0 <= i < d.scenes[s].entities.len() && 0 <= t < d.scenes.len()
            && 0 <= j < d.scenes[t].entities.len() && (s != t || i != j)
            ==> d.scenes[s].entities[i].id != d.scenes[t].entities[j].id
}

/// No two graphs of a document share an id.
pub open spec fn distinct_graphs(d: DocumentModel) -> bool {
    forall|p: int, q: int|
        #![trigger d.graphs[p], d.graphs[q]]
        0 <= p < q < d.graphs.len() ==> d.graphs[p].id != d.graphs[q].id
}

/// What no change disturbs: the revision, the remembered keys, the scenes as such, and that
/// ids are distinct if they were.
pub open spec fn keeps(a: DocumentModel, b: DocumentModel) -> bool {
    &&& b.revision == a.revision
    &&& b.log == a.log
    &&& b.scenes.len() == a.scenes.len()
    &&& (distinct_ids(a) ==> distinct_ids(b))
    &&& (distinct_graphs(a) ==> distinct_graphs(b))
}

proof fn replaced_keeps(d: DocumentModel, s: int, i: int, e: EntityModel)
    requires
        0 <= s < d.scenes.len(),
        0 <= i < d.scenes[s].entities.len(),
        e.id == d.scenes[s].entities[i].id,
    ensures
        keeps(d, d.with_entity(s, i, e)),
{
    let b = d.with_entity(s, i, e);
    assert forall|t: int, j: int|
        #![trigger b.scenes[t].entities[j]]
        0 <= t < b.scenes.len() && 0 <= j < b.scenes[t].entities.len() implies 0 <= j
        < d.scenes[t].entities.len() && b.scenes[t].entities[j].id
        == d.scenes[t].entities[j].id by {}
}

pub(crate) proof fn new_keeps(d: DocumentModel, e: EntityModel)
    requires
        d.scenes.len() > 0,
        !d.has(e.id),
    ensures
        keeps(d, d.with_new(e)),
{
    let b = d.with_new(e);
    located_in_range(d.scenes, e.id, 0);
    assert forall|s: int, i: int, t: int, j: int|
        #![trigger b.scenes[s].entities[i], b.scenes[t].entities[j]]
        distinct_ids(d) && 0 <= s < b.scenes.len() && 0 <= i < b.scenes[s].entities.len() && 0 <= t
            < b.scenes.len() && 0 <= j < b.scenes[t].entities.len() && (s != t || i
            != j) implies b.scenes[s].entities[i].id != b.scenes[t].entities[j].id by {
        let n = d.scenes[0].entities.len() as int;
        if s == 0 && i == n {
            assert(b.scenes[t].entities[j] == d.scenes[t].entities[j]);
        } else if t == 0 && j == n {
            assert(b.scenes[s].entities[i] == d.scenes[s].entities[i]);
        } else {
            assert(b.scenes[s].entities[i] == d.scenes[s].entities[i]);
            assert(b.scenes[t].entities[j] == d.scenes[t].entities[j]);
        }
    }
}

proof fn socket_keeps(d: DocumentModel, p: int, n: int, name: Seq<char>, value: Real)
    requires
        0 <= p < d.graphs.len(),
    ensures
        keeps(d, d.with_socket(p, n, name, value)),
        d.with_socket(p, n, name, value).graphs.len() == d.graphs.len(),
{
    let b = d.with_socket(p, n, name, value);
    assert forall|q: int| 0 <= q < b.graphs.len() implies (#[trigger] b.graphs[q]).id
        == d.graphs[q].id by {}
    assert(b.scenes == d.scenes);
}

/// Every entity that a filter keeps stood at some place before, and places keep their order.
pub(crate) proof fn filtered_places(es: Seq<EntityModel>, p: spec_fn(EntityModel) -> bool) -> (at: Seq<int>)
    ensures
        at.len() == es.filter(p).len(),
        forall|k: int| 0 <= k < at.len() ==> 0 <= #[trigger] at[k] < es.len() && es.filter(p)[k] == es[at[k]],
        forall|k: int, l: int| 0 <= k < l < at.len() ==> #[trigger] at[k] < #[trigger] at[l],
    decreases es.len(),
{
    reveal(Seq::filter);
    if es.len() == 0 {
        Seq::empty()
    } else {
        let before = filtered_places(es.drop_last(), p);
        if p(es.last()) {
            before.push(es.len() - 1)
        } else {
            before
        }
    }
}

proof fn removed_keeps(d: DocumentModel, id: Seq<char>)
    ensures
        keeps(d, removed(d, id)),
{
    if d.scenes.len() > 0 {
        let p = |e: EntityModel| e.id != id;
        let b = removed(d, id);
        let es = d.scenes[0].entities;
        let at = filtered_places(es, p);
        assert(b.scenes[0].entities == es.filter(p));
        assert forall|s: int, i: int, t: int, j: int|
            #![trigger b.scenes[s].entities[i], b.scenes[t].entities[j]]
            distinct_ids(d) && 0 <= s < b.scenes.len() && 0 <= i < b.scenes[s].entities.len() && 0
                <= t < b.scenes.len() && 0 <= j < b.scenes[t].entities.len() && (s != t || i
                != j) implies b.scenes[s].entities[i].id != b.scenes[t].entities[j].id by {
            let x = if s == 0 {
                at[i]
            } else {
                i
            };
            let y = if t == 0 {
                at[j]
            } else {
                j
            };
            assert(b.scenes[s].entities[i] == d.scenes[s].entities[x]);
            assert(b.scenes[t].entities[j] == d.scenes[t].entities[y]);
            if s == 0 && t == 0 {
                if i < j {
                    assert(at[i] < at[j]);
                } else {
                    assert(at[j] < at[i]);
                }
            }
        }
    }
}

proof fn painted_keeps(d: DocumentModel, s: int, i: int, color: Rgba)
    requires
        0 <= s < d.scenes.len(),
        0 <= i < d.scenes[s].entities.len(),
    ensures
        keeps(d, painted(d, s, i, color)),
{
    let e = d.scenes[s].entities[i];
    replaced_keeps(d, s, i, EntityModel { color, ..e });
    let d1 = d.with_entity(s, i, EntityModel { color, ..e });
    if let Some((p, n)) = bound_node(d1, e) {
        graph_position_in_range(d1.graphs, e.graph_id->0, 0);
        let d2 = d1.with_socket(p, n, "base_color_r"@, color.r);
        let d3 = d2.with_socket(p, n, "base_color_g"@, color.g);
        socket_keeps(d1, p, n, "base_color_r"@, color.r);
        socket_keeps(d2, p, n, "base_color_g"@, color.g);
        socket_keeps(d3, p, n, "base_color_b"@, color.b);
    }
}

proof fn placed_keeps(d: DocumentModel, id: Seq<char>, world: Mat4, g: spec_fn(Calc) -> Answer)
    ensures
        placed_in_world(d, id, world, g) matches Ok(b) ==> keeps(d, b),
{
    located_in_range(d.scenes, id, 0);
    if let Some((s, i)) = located(d.scenes, id, 0) {
        let e = d.scenes[s].entities[i];
        if let Ok(b) = placed_in_world(d, id, world, g) {
            replaced_keeps(d, s, i, b.scenes[s].entities[i]);
            assert(b == d.with_entity(s, i, b.scenes[s].entities[i]));
        }
    }
}

proof fn spawned_keeps(
    st: Session,
    prefix: Seq<char>,
    points: Seq<Vec3>,
    from: int,
    size: Vec3,
    color: Rgba,
)
    ensures
        spawned(st, prefix, points, from, size, color) matches Ok(b) ==> keeps(st.doc, b.doc),
    decreases points.len() - from,
{
    if 0 <= from < points.len() {
        let id = prefix + "-"@ + decimal_text(from as nat);
        if !taken(st, id) && st.doc.scenes.len() > 0 {
            let e = spawned_box(id, points[from], size, color);
            new_keeps(st.doc, e);
            spawned_keeps(
                Session {
                    doc: st.doc.with_new(e),
                    aliases: st.aliases.insert(id, id).insert("$"@ + id, id),
                    fresh: st.fresh.push(id),
                },
                prefix,
                points,
                from + 1,
                size,
                color,
            );
        }
    }
}

proof fn attached_keeps(
    d: DocumentModel,
    gid: Seq<char>,
    centroid: Vec3,
    worlds: Seq<(Seq<char>, Mat4)>,
    from: int,
    g: spec_fn(Calc) -> Answer,
)
    ensures
        attached(d, gid, centroid, worlds, from, g) matches Ok(b) ==> keeps(d, b),
    decreases worlds.len() - from,
{
    if 0 <= from < worlds.len() {
        let id = worlds[from].0;
        located_in_range(d.scenes, id, 0);
        if let Some((s, i)) = located(d.scenes, id, 0) {
            let inverse = g(Calc::Invert(g(Calc::Shift(centroid)).matrix)).matrix;
            let local = g(Calc::Product(inverse, worlds[from].1)).matrix;
            let e = EntityModel {
                parent: Some(gid),
                transform: g(Calc::Decompose(local)).pose,
                ..d.scenes[s].entities[i]
            };
            replaced_keeps(d, s, i, e);
            attached_keeps(d.with_entity(s, i, e), gid, centroid, worlds, from + 1, g);
        }
    }
}

proof fn detached_keeps(
    d: DocumentModel,
    gw: Mat4,
    kids: Seq<Seq<char>>,
    from: int,
    g: spec_fn(Calc) -> Answer,
)
    ensures
        keeps(d, detached(d, gw, kids, from, g)),
    decreases kids.len() - from,
{
    if 0 <= from < kids.len() {
        located_in_range(d.scenes, kids[from], 0);
        match located(d.scenes, kids[from], 0) {
            None => detached_keeps(d, gw, kids, from + 1, g),
            Some((s, i)) => {
                let e = d.scenes[s].entities[i];
                let world = g(Calc::Product(gw, g(Calc::Compose(e.transform)).matrix)).matrix;
                let f = EntityModel {
                    parent: None,
                    transform: g(Calc::Decompose(world)).pose,
                    ..e
                };
                replaced_keeps(d, s, i, f);
                detached_keeps(d.with_entity(s, i, f), gw, kids, from + 1, g);
            },
        }
    }
}

/// A successful change keeps the revision, the remembered keys, the scenes as such, and
/// distinct ids distinct.
pub proof fn change_keeps(st: Session, c: ApplyChange, g: spec_fn(Calc) -> Answer)
    ensures
        changed(st, c, g) matches Ok(b) ==> keeps(st.doc, b.doc),
{
    let d = st.doc;
    match c {
        ApplyChange::CreateMesh { entity } => {
            if let Ok(b) = created(st, entity@) {
                new_keeps(d, EntityModel { id: canonical(entity@.id), ..entity@ });
            }
        },
        ApplyChange::PatchColor { entity_id, color } => {
            located_in_range(d.scenes, resolved(st, entity_id@), 0);
            if let Some((s, i)) = located(d.scenes, resolved(st, entity_id@), 0) {
                painted_keeps(d, s, i, color);
            }
        },
        ApplyChange::PatchTranslation { entity_id, translation } => {
            let id = resolved(st, entity_id@);
            if let Some(w) = world_of(d, id, g) {
                let pose = crate::numeric::Transform {
                    translation,
                    ..g(Calc::Decompose(w)).pose
                };
                placed_keeps(d, id, g(Calc::Compose(pose)).matrix, g);
            }
        },
        ApplyChange::PatchRotation { entity_id, rotation } => {
            let id = resolved(st, entity_id@);
            if let Some(w) = world_of(d, id, g) {
                let pose = crate::numeric::Transform { rotation, ..g(Calc::Decompose(w)).pose };
                placed_keeps(d, id, g(Calc::Compose(pose)).matrix, g);
            }
        },
        ApplyChange::LayoutPattern {
            pattern,
            count,
            origin,
            spacing,
            columns,
            seed,
            id_prefix,
            color,
            size,
        } => {
            if let Ok(points) = laid_out(pattern@, count, origin, spacing, columns, seed, g) {
                let edges = match size {
                    Some(s) => s,
                    None => crate::change::default_box_size(),
                };
                spawned_keeps(st, canonical(id_prefix@), points, 0, edges, color);
            }
        },
        ApplyChange::Group { group_id, member_ids } => {
            let gid = canonical(group_id@);
            if let Ok(b) = grouped(st, group_id@, texts(member_ids@), g) {
                let worlds = member_worlds(st, texts(member_ids@), 0, g)->Ok_0;
                let n = worlds.len() as int;
                let centroid = g(Calc::Shrink(translation_sum(worlds, n, g), n as u64)).point;
                let e = group_entity(gid, centroid);
                new_keeps(d, e);
                attached_keeps(d.with_new(e), gid, centroid, worlds, 0, g);
            }
        },
        ApplyChange::Ungroup { group_id } => {
            let gid = canonical(group_id@);
            if let Some(gw) = world_of(d, gid, g) {
                let kids = children_of(d.entities(), gid);
                detached_keeps(d, gw, kids, 0, g);
                removed_keeps(detached(d, gw, kids, 0, g), gid);
            }
        },
        ApplyChange::GraphCreate { graph_id } => {
            let gid = canonical(graph_id@);
            graph_position_in_range(d.graphs, gid, 0);
            if let Ok(b) = graph_created(st, graph_id@) {
                assert(b.doc.scenes == d.scenes);
                assert forall|p: int, q: int|
                    #![trigger b.doc.graphs[p], b.doc.graphs[q]]
                    distinct_graphs(d) && 0 <= p < q
                        < b.doc.graphs.len() implies b.doc.graphs[p].id
                    != b.doc.graphs[q].id by {
                    assert(b.doc.graphs[p] == d.graphs[p]);
                    if q < d.graphs.len() {
                        assert(b.doc.graphs[q] == d.graphs[q]);
                    }
                }
            }
        },
        ApplyChange::GraphPatch { graph_id, node_id, socket, value } => {
            let p = graph_position(d.graphs, canonical(graph_id@), 0);
            graph_position_in_range(d.graphs, canonical(graph_id@), 0);
            if p >= 0 {
                let n = node_position(d.graphs[p].nodes, canonical(node_id@), 0);
                socket_keeps(d, p, n, socket@, value);
            }
        },
        ApplyChange::GraphBind { graph_id, entity_id } => {
            located_in_range(d.scenes, resolved(st, entity_id@), 0);
            if let Ok(b) = graph_bound(st, graph_id@, entity_id@) {
                let (s, i) = located(d.scenes, resolved(st, entity_id@), 0)->0;
                replaced_keeps(d, s, i, b.doc.scenes[s].entities[i]);
                assert(b.doc == d.with_entity(s, i, b.doc.scenes[s].entities[i]));
            }
        },
        ApplyChange::PatchLight { direction, shadows } => {},
    }
}

/// A successful changeset keeps what each of its changes keeps.
pub proof fn changeset_keeps(
    st: Session,
    cs: Seq<ApplyChange>,
    from: int,
    g: spec_fn(Calc) -> Answer,
)
    ensures
        all_changed(st, cs, from, g) matches Ok(b) ==> keeps(st.doc, b.doc),
    decreases cs.len() - from,
{
    if 0 <= from < cs.len() {
        change_keeps(st, cs[from], g);
        if let Ok(next) = changed(st, cs[from], g) {
            changeset_keeps(next, cs, from + 1, g);
        }
    }
}

/// A document as requests leave it: distinct ids, a bounded number of entities, and no more
/// remembered keys than the cap.
pub open spec fn sound(d: DocumentModel) -> bool {
    &&& distinct_ids(d)
    &&& distinct_graphs(d)
    &&& d.count() <= MAX_ENTITIES
    &&& d.log.len() <= LOG_CAP
}

/// Whatever a request does, a sound document stays sound.
pub proof fn requests_keep_documents_sound(
    d: DocumentModel,
    req: ApplyRequest,
    g: spec_fn(Calc) -> Answer,
)
    requires
        sound(d),
    ensures
        sound(left_by(d, verdict(d, req, g))),
{
    changeset_keeps(opened(d), req.changes@, 0, g);
    if let Verdict::Committed(after) = verdict(d, req, g) {
        let st = all_changed(opened(d), req.changes@, 0, g)->Ok_0;
        assert(after.scenes == st.doc.scenes);
        assert(after.graphs == st.doc.graphs);
    }
}

/// A committed request moves the revision on by one and is remembered under its key.
pub proof fn commit_advances_revision(
    d: DocumentModel,
    req: ApplyRequest,
    g: spec_fn(Calc) -> Answer,
)
    ensures
        verdict(d, req, g) matches Verdict::Committed(after) ==> after.revision == next_revision(
            d.revision,
        ) && after.log.contains(req.idempotency_key@) && after.log == newest(
            d.log.push(req.idempotency_key@),
            LOG_CAP as int,
        ),
{
    changeset_keeps(opened(d), req.changes@, 0, g);
    if let Verdict::Committed(after) = verdict(d, req, g) {
        let all = d.log.push(req.idempotency_key@);
        let kept = newest(all, LOG_CAP as int);
        assert(kept[kept.len() - 1] == req.idempotency_key@);
    }
}

/// Replaying a key right after it was committed is a no-op, whatever the second request
/// asks for and whatever base revision it names.
pub proof fn replay_is_a_no_op(
    d: DocumentModel,
    first: ApplyRequest,
    second: ApplyRequest,
    g: spec_fn(Calc) -> Answer,
)
    requires
        verdict(d, first, g) is Committed,
        second.idempotency_key@ == first.idempotency_key@,
        second.changes.len() <= MAX_OPS,
    ensures
        verdict(left_by(d, verdict(d, first, g)), second, g) is Replayed,
        left_by(
            left_by(d, verdict(d, first, g)),
            verdict(left_by(d, verdict(d, first, g)), second, g),
        ) == left_by(d, verdict(d, first, g)),
{
    commit_advances_revision(d, first, g);
}

/// Of two requests made against one revision under different keys, the second is refused as
/// a conflict once the first is committed, as long as revisions can still advance.
pub proof fn stale_request_is_refused(
    d: DocumentModel,
    first: ApplyRequest,
    second: ApplyRequest,
    g: spec_fn(Calc) -> Answer,
)
    requires
        verdict(d, first, g) is Committed,
        second.base_revision == d.revision,
        d.revision < u64::MAX,
        second.changes.len() <= MAX_OPS,
        second.idempotency_key@.len() > 0,
        second.idempotency_key@ != first.idempotency_key@,
        !d.log.contains(second.idempotency_key@),
    ensures
        verdict(left_by(d, verdict(d, first, g)), second, g) == Verdict::Refused(
            "revision_conflict"@,
            "revision_conflict"@,
        ),
{
    commit_advances_revision(d, first, g);
    let after = left_by(d, verdict(d, first, g));
    let all = d.log.push(first.idempotency_key@);
    if after.log.contains(second.idempotency_key@) {
        let k = choose|k: int|
            0 <= k < after.log.len() && after.log[k] == second.idempotency_key@;
        let shift: int = if all.len() > LOG_CAP {
            all.len() - LOG_CAP
        } else {
            0
        };
        assert(after.log[k] == all[k + shift]);
        assert(d.log[k + shift] == second.idempotency_key@);
        assert(false);
    }
}

/// A socket patch changes that socket and nothing else: never the graph as a whole.
pub proof fn socket_patch_is_local(
    st: Session,
    graph_raw: Seq<char>,
    node_raw: Seq<char>,
    socket: Seq<char>,
    value: Real,
)
    ensures
        graph_patched(st, graph_raw, node_raw, socket, value) matches Ok(b) ==> {
            let p = graph_position(st.doc.graphs, canonical(graph_raw), 0);
            let n = node_position(st.doc.graphs[p].nodes, canonical(node_raw), 0);
            &&& b.doc.scenes == st.doc.scenes
            &&& b.doc.light == st.doc.light
            &&& b.doc.graphs.len() == st.doc.graphs.len()
            &&& forall|q: int|
                0 <= q < b.doc.graphs.len() && q != p ==> b.doc.graphs[q] == st.doc.graphs[q]
            &&& b.doc.graphs[p].id == st.doc.graphs[p].id
            &&& b.doc.graphs[p].nodes.len() == st.doc.graphs[p].nodes.len()
            &&& forall|m: int|
                0 <= m < b.doc.graphs[p].nodes.len() && m != n ==> b.doc.graphs[p].nodes[m]
                    == st.doc.graphs[p].nodes[m]
            &&& b.doc.graphs[p].nodes[n].sockets[socket] == value
            &&& forall|name: Seq<char>|
                name != socket ==> b.doc.graphs[p].nodes[n].sockets.dom().contains(name)
                    == st.doc.graphs[p].nodes[n].sockets.dom().contains(name)
                    && b.doc.graphs[p].nodes[n].sockets[name]
                    == st.doc.graphs[p].nodes[n].sockets[name]
        },
{
    graph_position_in_range(st.doc.graphs, canonical(graph_raw), 0);
    node_position_in_range(
        st.doc.graphs[graph_position(st.doc.graphs, canonical(graph_raw), 0)].nodes,
        canonical(node_raw),
        0,
    );
}

proof fn node_position_in_range(ns: Seq<crate::document::NodeModel>, id: Seq<char>, from: int)
    requires
        from >= 0,
    ensures
        node_position(ns, id, from) == -1 || from <= node_position(ns, id, from) < ns.len(),
    decreases ns.len() - from,
{
    if from < ns.len() && ns[from].id != id {
        node_position_in_range(ns, id, from + 1);
    }
}

/// Where an id is found does not change when the entity found there keeps its id.
pub(crate) proof fn location_survives(d: DocumentModel, s: int, i: int, e: EntityModel, id: Seq<char>, from: int)
    requires
        0 <= s < d.scenes.len(),
        0 <= i < d.scenes[s].entities.len(),
        e.id == d.scenes[s].entities[i].id,
        from >= 0,
    ensures
        located(d.with_entity(s, i, e).scenes, id, from) == located(d.scenes, id, from),
    decreases d.scenes.len() - from,
{
    let b = d.with_entity(s, i, e);
    if from < d.scenes.len() {
        position_survives(d.scenes[from].entities, b.scenes[from].entities, id, 0);
        location_survives(d, s, i, e, id, from + 1);
    }
}

pub(crate) proof fn position_survives(es: Seq<EntityModel>, fs: Seq<EntityModel>, id: Seq<char>, from: int)
    requires
        es.len() == fs.len(),
        forall|k: int| 0 <= k < es.len() ==> (#[trigger] es[k]).id == fs[k].id,
        from >= 0,
    ensures
        position(es, id, from) == position(fs, id, from),
    decreases es.len() - from,
{
    if from < es.len() {
        assert(es[from].id == fs[from].id);
        position_survives(es, fs, id, from + 1);
    }
}

/// Attaching puts every member under the group, and moves no id.
proof fn attached_members(
    d: DocumentModel,
    gid: Seq<char>,
    centroid: Vec3,
    worlds: Seq<(Seq<char>, Mat4)>,
    from: int,
    g: spec_fn(Calc) -> Answer,
)
    requires
        from >= 0,
    ensures
        attached(d, gid, centroid, worlds, from, g) matches Ok(b) ==> {
            &&& forall|id: Seq<char>| #[trigger] located(b.scenes, id, 0) == located(d.scenes, id, 0)
            &&& forall|k: int|
                from <= k < worlds.len() ==> (#[trigger] b.find(worlds[k].0)) is Some && b.find(
                    worlds[k].0,
                )->0.parent == Some(gid)
            &&& forall|id: Seq<char>|
                d.find(id) is Some && d.find(id)->0.parent == Some(gid) ==> (#[trigger] b.find(
                    id,
                ))->0.parent == Some(gid)
        },
    decreases worlds.len() - from,
{
    if from < worlds.len() {
        let id = worlds[from].0;
        located_in_range(d.scenes, id, 0);
        if let Some((s, i)) = located(d.scenes, id, 0) {
            let inverse = g(Calc::Invert(g(Calc::Shift(centroid)).matrix)).matrix;
            let local = g(Calc::Product(inverse, worlds[from].1)).matrix;
            let e = EntityModel {
                parent: Some(gid),
                transform: g(Calc::Decompose(local)).pose,
                ..d.scenes[s].entities[i]
            };
            let d1 = d.with_entity(s, i, e);
            assert forall|x: Seq<char>| #[trigger] located(d1.scenes, x, 0) == located(
                d.scenes,
                x,
                0,
            ) by {
                location_survives(d, s, i, e, x, 0);
            }
            attached_members(d1, gid, centroid, worlds, from + 1, g);
            if let Ok(b) = attached(d, gid, centroid, worlds, from, g) {
                assert(d1.find(id) == Some(e));
                assert forall|x: Seq<char>|
                    d.find(x) is Some && d.find(x)->0.parent == Some(gid) implies (
                #[trigger] b.find(x))->0.parent == Some(gid) by {
                    located_in_range(d.scenes, x, 0);
                    assert(d1.find(x) is Some && d1.find(x)->0.parent == Some(gid));
                }
                assert forall|k: int| from <= k < worlds.len() implies (#[trigger] b.find(
                    worlds[k].0,
                )) is Some && b.find(worlds[k].0)->0.parent == Some(gid) by {
                    if k == from {
                        assert(b.find(id)->0.parent == Some(gid));
                    }
                }
            }
        }
    }
}

pub(crate) proof fn member_ids(st: Session, raws: Seq<Seq<char>>, from: int, g: spec_fn(Calc) -> Answer)
    requires
        0 <= from <= raws.len(),
    ensures
        member_worlds(st, raws, from, g) matches Ok(w) ==> w.len() == raws.len() - from && forall|
            k: int,
        |
            0 <= k < w.len() ==> (#[trigger] w[k]).0 == resolved(st, raws[from + k]) && st.doc.has(
                w[k].0,
            ),
    decreases raws.len() - from,
{
    if from < raws.len() {
        member_ids(st, raws, from + 1, g);
        if let Ok(w) = member_worlds(st, raws, from, g) {
            let id = resolved(st, raws[from]);
            let rest = member_worlds(st, raws, from + 1, g)->Ok_0;
            reveal_with_fuel(crate::document::chain_matrix, 2);
            assert(w == seq![(id, world_of(st.doc, id, g)->0)] + rest);
            assert forall|k: int| 0 <= k < w.len() implies (#[trigger] w[k]).0 == resolved(
                st,
                raws[from + k],
            ) && st.doc.has(w[k].0) by {
                if k > 0 {
                    assert(w[k] == rest[k - 1]);
                }
            }
        }
    }
}

/// A new entity is found under its id.
proof fn new_entity_is_found(d: DocumentModel, e: EntityModel)
    requires
        d.scenes.len() > 0,
    ensures
        d.with_new(e).has(e.id),
{
    let es = d.with_new(e).scenes[0].entities;
    position_in_range(es, e.id, 0);
    assert(es[es.len() - 1] == e);
}

/// After a successful group, the group is there and every member that was asked for stands
/// under it.
pub proof fn group_holds_its_members(
    st: Session,
    group_id: Seq<char>,
    raws: Seq<Seq<char>>,
    g: spec_fn(Calc) -> Answer,
)
    ensures
        grouped(st, group_id, raws, g) matches Ok(b) ==> {
            &&& b.doc.has(canonical(group_id))
            &&& forall|k: int|
                0 <= k < raws.len() ==> b.doc.has(resolved(st, #[trigger] raws[k])) && b.doc.find(
                    resolved(st, raws[k]),
                )->0.parent == Some(canonical(group_id))
        },
{
    let gid = canonical(group_id);
    if let Ok(b) = grouped(st, group_id, raws, g) {
        let worlds = member_worlds(st, raws, 0, g)->Ok_0;
        let n = worlds.len() as int;
        let centroid = g(Calc::Shrink(translation_sum(worlds, n, g), n as u64)).point;
        let e = group_entity(gid, centroid);
        let d1 = st.doc.with_new(e);
        member_ids(st, raws, 0, g);
        attached_members(d1, gid, centroid, worlds, 0, g);
        new_entity_is_found(st.doc, e);
        assert forall|k: int| 0 <= k < raws.len() implies b.doc.has(
            resolved(st, #[trigger] raws[k]),
        ) && b.doc.find(resolved(st, raws[k]))->0.parent == Some(gid) by {
            assert(worlds[k].0 == resolved(st, raws[k]));
            assert(b.doc.find(worlds[k].0) is Some);
        }
    }
}

/// Detaching clears the parent of every child and touches no other parent.
proof fn detached_children(
    d: DocumentModel,
    gw: Mat4,
    kids: Seq<Seq<char>>,
    from: int,
    g: spec_fn(Calc) -> Answer,
)
    requires
        from >= 0,
        distinct_ids(d),
    ensures
        ({
            let b = detached(d, gw, kids, from, g);
            &&& b.scenes.len() == d.scenes.len()
            &&& forall|s: int|
                0 <= s < d.scenes.len() ==> (#[trigger] b.scenes[s]).entities.len()
                    == d.scenes[s].entities.len()
            &&& forall|s: int, i: int|
                #![trigger b.scenes[s].entities[i]]
                0 <= s < d.scenes.len() && 0 <= i < d.scenes[s].entities.len() ==> {
                    &&& b.scenes[s].entities[i].id == d.scenes[s].entities[i].id
                    &&& b.scenes[s].entities[i].parent is None
                        || b.scenes[s].entities[i].parent == d.scenes[s].entities[i].parent
                    &&& (exists|k: int|
                        from <= k < kids.len() && kids[k] == d.scenes[s].entities[i].id)
                        ==> b.scenes[s].entities[i].parent is None
                }
        }),
    decreases kids.len() - from,
{
    if from < kids.len() {
        located_in_range(d.scenes, kids[from], 0);
        match located(d.scenes, kids[from], 0) {
            None => {
                detached_children(d, gw, kids, from + 1, g);
            },
            Some((s, i)) => {
                let e = d.scenes[s].entities[i];
                let world = g(Calc::Product(gw, g(Calc::Compose(e.transform)).matrix)).matrix;
                let f = EntityModel {
                    parent: None,
                    transform: g(Calc::Decompose(world)).pose,
                    ..e
                };
                replaced_keeps(d, s, i, f);
                let d1 = d.with_entity(s, i, f);
                detached_children(d1, gw, kids, from + 1, g);
                let b = detached(d1, gw, kids, from + 1, g);
                assert forall|t: int, j: int|
                    #![trigger b.scenes[t].entities[j]]
                    0 <= t < d.scenes.len() && 0 <= j < d.scenes[t].entities.len() && (exists|
                        k: int,
                    |
                        from <= k < kids.len() && kids[k] == d.scenes[t].entities[j].id) implies
                    b.scenes[t].entities[j].parent is None by {
                    assert(d1.scenes[t].entities[j].id == d.scenes[t].entities[j].id);
                    if kids[from] == d.scenes[t].entities[j].id {
                        assert(t == s && j == i);
                        assert(d1.scenes[t].entities[j].parent is None);
                    }
                }
                assert forall|t: int| 0 <= t < d.scenes.len() implies (
                #[trigger] b.scenes[t]).entities.len() == d.scenes[t].entities.len() by {
                    assert(d1.scenes[t].entities.len() == d.scenes[t].entities.len());
                }
                assert forall|t: int, j: int|
                    #![trigger b.scenes[t].entities[j]]
                    0 <= t < d.scenes.len() && 0 <= j < d.scenes[t].entities.len() implies
                    b.scenes[t].entities[j].id == d.scenes[t].entities[j].id && (
                    b.scenes[t].entities[j].parent is None || b.scenes[t].entities[j].parent
                        == d.scenes[t].entities[j].parent) by {
                    assert(0 <= j < d1.scenes[t].entities.len());
                    assert(d1.scenes[t].entities[j].id == d.scenes[t].entities[j].id);
                }
            },
        }
    }
}

/// Every entity of a scene is among all entities.
pub proof fn scene_entity_is_listed(scenes: Seq<SceneModel>, s: int, i: int)
    requires
        0 <= s < scenes.len(),
        0 <= i < scenes[s].entities.len(),
    ensures
        crate::document::flat(scenes).contains(scenes[s].entities[i]),
    decreases scenes.len(),
{
    let front = crate::document::flat(scenes.drop_last());
    let all = crate::document::flat(scenes);
    if s == scenes.len() - 1 {
        assert(all[front.len() + i] == scenes[s].entities[i]);
    } else {
        scene_entity_is_listed(scenes.drop_last(), s, i);
        let k = choose|k: int| 0 <= k < front.len() && front[k] == scenes[s].entities[i];
        assert(all[k] == scenes[s].entities[i]);
    }
}

/// After a successful ungroup nothing stands under the group any more, and the first scene
/// holds no entity with its id.
pub proof fn ungroup_dissolves_the_group(
    st: Session,
    group_id: Seq<char>,
    g: spec_fn(Calc) -> Answer,
)
    requires
        distinct_ids(st.doc),
    ensures
        ungrouped(st, group_id, g) matches Ok(b) ==> {
            &&& forall|s: int, i: int|
                #![trigger b.doc.scenes[s].entities[i]]
                0 <= s < b.doc.scenes.len() && 0 <= i < b.doc.scenes[s].entities.len()
                    ==> b.doc.scenes[s].entities[i].parent != Some(canonical(group_id))
            &&& forall|i: int|
                0 <= i < b.doc.scenes[0].entities.len() ==> (
                #[trigger] b.doc.scenes[0].entities[i]).id != canonical(group_id)
        },
{
    let gid = canonical(group_id);
    if let Some(gw) = world_of(st.doc, gid, g) {
        let d = st.doc;
        let p = |e: EntityModel| e.parent == Some(gid);
        let es = d.entities();
        let kids = children_of(es, gid);
        let d1 = detached(d, gw, kids, 0, g);
        let b = removed(d1, gid);
        detached_children(d, gw, kids, 0, g);
        assert forall|s: int, i: int|
            #![trigger d1.scenes[s].entities[i]]
            0 <= s < d1.scenes.len() && 0 <= i < d1.scenes[s].entities.len() implies
            d1.scenes[s].entities[i].parent != Some(gid) by {
            let e = d.scenes[s].entities[i];
            if e.parent == Some(gid) {
                scene_entity_is_listed(d.scenes, s, i);
                let m = choose|m: int| 0 <= m < es.len() && es[m] == e;
                es.lemma_filter_contains(p, m);
                let k = choose|k: int| 0 <= k < es.filter(p).len() && es.filter(p)[k] == e;
                assert(kids[k] == e.id);
            }
        }
        if d.scenes.len() > 0 {
            let q = |e: EntityModel| e.id != gid;
            let fs = d1.scenes[0].entities;
            let at = filtered_places(fs, q);
            assert(b.scenes[0].entities == fs.filter(q));
            assert forall|i: int| 0 <= i < b.scenes[0].entities.len() implies (
            #[trigger] b.scenes[0].entities[i]).id != gid by {
                fs.lemma_filter_pred(q, i);
            }
            assert forall|s: int, i: int|
                #![trigger b.scenes[s].entities[i]]
                0 <= s < b.scenes.len() && 0 <= i < b.scenes[s].entities.len() implies
                b.scenes[s].entities[i].parent != Some(gid) by {
                if s == 0 {
                    assert(b.scenes[0].entities[i] == d1.scenes[0].entities[at[i]]);
                } else {
                    assert(b.scenes[s].entities[i] == d1.scenes[s].entities[i]);
                }
            }
        }
    }
}

/// A created entity answers to the name that it was given, to its plain id, and to its id
/// with `$`; it is stored under the plain id.
pub proof fn created_entity_answers_to_its_names(st: Session, e: EntityModel)
    ensures
        created(st, e) matches Ok(after) ==> {
            let id = canonical(e.id);
            &&& resolved(after, e.id) == id
            &&& resolved(after, "$"@ + id) == id
            &&& resolved(after, id) == id
            &&& after.doc.find(id) == Some(EntityModel { id, ..e })
        },
{
    if let Ok(after) = created(st, e) {
        let id = canonical(e.id);
        reveal_strlit("$");
        assert(("$"@ + id).len() == id.len() + 1);
        pushed_entity_is_found(st.doc, EntityModel { id, ..e });
    }
}

proof fn position_skips(es: Seq<EntityModel>, e: EntityModel, from: int)
    requires
        0 <= from <= es.len(),
        position(es, e.id, from) < 0,
    ensures
        position(es.push(e), e.id, from) == es.len(),
    decreases es.len() - from,
{
    if from < es.len() {
        assert(es.push(e)[from] == es[from]);
        position_skips(es, e, from + 1);
    }
}

pub(crate) proof fn pushed_entity_is_found(d: DocumentModel, e: EntityModel)
    requires
        d.scenes.len() > 0,
        !d.has(e.id),
    ensures
        d.with_new(e).find(e.id) == Some(e),
{
    position_skips(d.scenes[0].entities, e, 0);
}

} // verus!
