//! What grouping and then ungrouping gives back.

use crate::chain::{circles_do_not_end, world_is_parent_world_times_local};
use crate::change::{
    all_changed, attached, changed, children_of, detached, group_entity, grouped, ids_of,
    member_worlds, opened, removed, resolved, translation_sum, ungrouped, ApplyChange, Session,
};
use crate::document::{
    canonical, flat, located, located_in_range, world_of, DocumentModel, EntityModel, SceneModel,
};
use crate::laws::{
    distinct_ids, filtered_places, member_ids, new_keeps, position_survives,
    pushed_entity_is_found, scene_entity_is_listed,
};
use crate::numeric::{at, identity, Answer, Calc, Mat4, Transform, Vec3};
use crate::text::texts;
use crate::validate::{
    ancestor, cyclic, diagnosed, entity_is_fine, repeated, valid_means_without_fault,
};
use vstd::prelude::*;

verus! {

/// The same document with every entity replaced.
pub open spec fn touched(
    d: DocumentModel,
    f: spec_fn(EntityModel) -> EntityModel,
) -> DocumentModel {
    DocumentModel {
        scenes: d.scenes.map_values(
            |sc: SceneModel| SceneModel { id: sc.id, entities: sc.entities.map_values(f) },
        ),
        ..d
    }
}

/// Where a group of some members stands.
pub open spec fn group_place(
    st: Session,
    raws: Seq<Seq<char>>,
    g: spec_fn(Calc) -> Answer,
) -> Vec3 {
    let worlds = member_worlds(st, raws, 0, g)->Ok_0;
    let n = worlds.len() as int;
    g(Calc::Shrink(translation_sum(worlds, n, g), n as u64)).point
}

/// The placement under a group at `c` of what had the world matrix `w`.
pub open spec fn hung(c: Vec3, w: Mat4, g: spec_fn(Calc) -> Answer) -> Transform {
    let inverse = g(Calc::Invert(g(Calc::Shift(c)).matrix)).matrix;
    g(Calc::Decompose(g(Calc::Product(inverse, w)).matrix)).pose
}

/// The world matrix of a group at `c`.
pub open spec fn group_world(c: Vec3, g: spec_fn(Calc) -> Answer) -> Mat4 {
    g(Calc::Product(identity(), g(Calc::Compose(at(c))).matrix)).matrix
}

/// The placement, once a group at `c` is dissolved, of what had the world matrix `w` before.
pub open spec fn let_down(c: Vec3, w: Mat4, g: spec_fn(Calc) -> Answer) -> Transform {
    let local = g(Calc::Compose(hung(c, w, g))).matrix;
    g(Calc::Decompose(g(Calc::Product(group_world(c, g), local)).matrix)).pose
}

/// The ids that a request names.
pub open spec fn named(st: Session, raws: Seq<Seq<char>>) -> Seq<Seq<char>> {
    raws.map_values(|raw: Seq<char>| resolved(st, raw))
}

/// The same document where members that were grouped at `c` are on their own again.
pub open spec fn let_go(
    d: DocumentModel,
    members: Seq<Seq<char>>,
    c: Vec3,
    g: spec_fn(Calc) -> Answer,
) -> DocumentModel {
    touched(
        d,
        |e: EntityModel|
            if members.contains(e.id) {
                EntityModel {
                    parent: None,
                    transform: let_down(c, world_of(d, e.id, g)->0, g),
                    ..e
                }
            } else {
                e
            },
    )
}

/// Nothing stands under an id.
pub open spec fn nobody_under(d: DocumentModel, id: Seq<char>) -> bool {
    forall|s: int, i: int|
        #![trigger d.scenes[s].entities[i]]
        0 <= s < d.scenes.len() && 0 <= i < d.scenes[s].entities.len()
            ==> d.scenes[s].entities[i].parent != Some(id)
}

pub open spec fn keeps_ids(f: spec_fn(EntityModel) -> EntityModel) -> bool {
    forall|e: EntityModel| (#[trigger] f(e)).id == e.id
}

proof fn same_document(a: DocumentModel, b: DocumentModel)
    requires
        a.scenes.len() == b.scenes.len(),
        forall|s: int|
            0 <= s < a.scenes.len() ==> (#[trigger] a.scenes[s]).id == b.scenes[s].id
                && a.scenes[s].entities.len() == b.scenes[s].entities.len(),
        forall|s: int, i: int|
            #![trigger a.scenes[s].entities[i]]
            0 <= s < a.scenes.len() && 0 <= i < a.scenes[s].entities.len()
                ==> a.scenes[s].entities[i] == b.scenes[s].entities[i],
        a.revision == b.revision,
        a.log == b.log,
        a.graphs == b.graphs,
        a.light == b.light,
    ensures
        a == b,
{
    assert forall|s: int| 0 <= s < a.scenes.len() implies a.scenes[s] == b.scenes[s] by {
        assert(a.scenes[s].id == b.scenes[s].id);
        assert(a.scenes[s].entities =~= b.scenes[s].entities);
    }
    assert(a.scenes =~= b.scenes);
}

proof fn touched_location(
    d: DocumentModel,
    f: spec_fn(EntityModel) -> EntityModel,
    id: Seq<char>,
    from: int,
)
    requires
        keeps_ids(f),
        from >= 0,
    ensures
        located(touched(d, f).scenes, id, from) == located(d.scenes, id, from),
    decreases d.scenes.len() - from,
{
    if from < d.scenes.len() {
        position_survives(d.scenes[from].entities, touched(d, f).scenes[from].entities, id, 0);
        touched_location(d, f, id, from + 1);
    }
}

proof fn touched_ids(d: DocumentModel, f: spec_fn(EntityModel) -> EntityModel)
    requires
        keeps_ids(f),
    ensures
        ids_of(touched(d, f).entities()) == ids_of(d.entities()),
    decreases d.scenes.len(),
{
    let b = touched(d, f);
    if d.scenes.len() > 0 {
        let front = DocumentModel { scenes: d.scenes.drop_last(), ..d };
        touched_ids(front, f);
        assert(touched(front, f).scenes =~= b.scenes.drop_last());
        let old_last = d.scenes.last().entities;
        let new_last = b.scenes.last().entities;
        assert(ids_of(new_last) =~= ids_of(old_last)) by {
            assert forall|i: int| 0 <= i < old_last.len() implies ids_of(new_last)[i] == ids_of(
                old_last,
            )[i] by {
                assert(new_last[i] == f(old_last[i]));
            }
        }
        assert(ids_of(b.entities()) =~= ids_of(flat(b.scenes.drop_last())) + ids_of(new_last));
        assert(ids_of(d.entities()) =~= ids_of(flat(d.scenes.drop_last())) + ids_of(old_last));
    } else {
        assert(b.scenes =~= d.scenes);
    }
}

/// Members that come first among some worlds.
pub open spec fn among(worlds: Seq<(Seq<char>, Mat4)>, n: int, id: Seq<char>) -> bool {
    exists|k: int| 0 <= k < n && (#[trigger] worlds[k]).0 == id
}

spec fn put_under(
    gid: Seq<char>,
    c: Vec3,
    worlds: Seq<(Seq<char>, Mat4)>,
    n: int,
    w: spec_fn(Seq<char>) -> Mat4,
    g: spec_fn(Calc) -> Answer,
) -> spec_fn(EntityModel) -> EntityModel {
    |e: EntityModel|
        if among(worlds, n, e.id) {
            EntityModel { parent: Some(gid), transform: hung(c, w(e.id), g), ..e }
        } else {
            e
        }
}

/// Attaching members changes them and nothing else.
proof fn attached_is_touched(
    d: DocumentModel,
    gid: Seq<char>,
    c: Vec3,
    worlds: Seq<(Seq<char>, Mat4)>,
    from: int,
    w: spec_fn(Seq<char>) -> Mat4,
    g: spec_fn(Calc) -> Answer,
)
    requires
        distinct_ids(d),
        0 <= from <= worlds.len(),
        forall|k: int|
            0 <= k < worlds.len() ==> d.has((#[trigger] worlds[k]).0) && worlds[k].1 == w(
                worlds[k].0,
            ),
    ensures
        attached(touched(d, put_under(gid, c, worlds, from, w, g)), gid, c, worlds, from, g) == Ok::<
            DocumentModel,
            Seq<char>,
        >(touched(d, put_under(gid, c, worlds, worlds.len() as int, w, g))),
    decreases worlds.len() - from,
{
    if from < worlds.len() {
        let f = put_under(gid, c, worlds, from, w, g);
        let h = put_under(gid, c, worlds, from + 1, w, g);
        let b = touched(d, f);
        let id = worlds[from].0;
        assert(d.has(id));
        touched_location(d, f, id, 0);
        located_in_range(d.scenes, id, 0);
        let (s, i) = located(d.scenes, id, 0)->0;
        let e = EntityModel {
            parent: Some(gid),
            transform: hung(c, worlds[from].1, g),
            ..b.scenes[s].entities[i]
        };
        let next = b.with_entity(s, i, e);
        let want = touched(d, h);
        assert forall|t: int, j: int|
            #![trigger next.scenes[t].entities[j]]
            0 <= t < next.scenes.len() && 0 <= j < next.scenes[t].entities.len() implies
            next.scenes[t].entities[j] == want.scenes[t].entities[j] by {
            let old = d.scenes[t].entities[j];
            assert(want.scenes[t].entities[j] == h(old));
            assert(b.scenes[t].entities[j] == f(old));
            assert(among(worlds, from + 1, id)) by {
                assert(worlds[from].0 == id);
            }
            if t == s && j == i {
                assert(old.id == id);
            } else {
                assert(old.id != d.scenes[s].entities[i].id);
                if among(worlds, from + 1, old.id) {
                    let k = choose|k: int| 0 <= k < from + 1 && (#[trigger] worlds[k]).0 == old.id;
                    assert(k < from);
                    assert(among(worlds, from, old.id));
                }
                if among(worlds, from, old.id) {
                    let k = choose|k: int| 0 <= k < from && (#[trigger] worlds[k]).0 == old.id;
                    assert(among(worlds, from + 1, old.id));
                }
            }
        }
        same_document(next, want);
        attached_is_touched(d, gid, c, worlds, from + 1, w, g);
    }
}

spec fn first_of(ids: Seq<Seq<char>>, n: int, id: Seq<char>) -> bool {
    exists|k: int| 0 <= k < n && #[trigger] ids[k] == id
}

spec fn set_free(
    gw: Mat4,
    kids: Seq<Seq<char>>,
    n: int,
    g: spec_fn(Calc) -> Answer,
) -> spec_fn(EntityModel) -> EntityModel {
    |e: EntityModel|
        if first_of(kids, n, e.id) {
            EntityModel {
                parent: None,
                transform: g(
                    Calc::Decompose(
                        g(Calc::Product(gw, g(Calc::Compose(e.transform)).matrix)).matrix,
                    ),
                ).pose,
                ..e
            }
        } else {
            e
        }
}

/// Detaching children changes them and nothing else.
proof fn detached_is_touched(
    d: DocumentModel,
    gw: Mat4,
    kids: Seq<Seq<char>>,
    from: int,
    g: spec_fn(Calc) -> Answer,
)
    requires
        distinct_ids(d),
        kids.no_duplicates(),
        0 <= from <= kids.len(),
        forall|k: int| 0 <= k < kids.len() ==> d.has(#[trigger] kids[k]),
    ensures
        detached(touched(d, set_free(gw, kids, from, g)), gw, kids, from, g) == touched(
            d,
            set_free(gw, kids, kids.len() as int, g),
        ),
    decreases kids.len() - from,
{
    if from < kids.len() {
        let f = set_free(gw, kids, from, g);
        let h = set_free(gw, kids, from + 1, g);
        let b = touched(d, f);
        let id = kids[from];
        assert(d.has(id));
        touched_location(d, f, id, 0);
        located_in_range(d.scenes, id, 0);
        let (s, i) = located(d.scenes, id, 0)->0;
        let old_e = b.scenes[s].entities[i];
        assert(!first_of(kids, from, id));
        assert(old_e == f(d.scenes[s].entities[i]));
        let world = g(Calc::Product(gw, g(Calc::Compose(old_e.transform)).matrix)).matrix;
        let e = EntityModel { parent: None, transform: g(Calc::Decompose(world)).pose, ..old_e };
        let next = b.with_entity(s, i, e);
        let want = touched(d, h);
        assert forall|t: int, j: int|
            #![trigger next.scenes[t].entities[j]]
            0 <= t < next.scenes.len() && 0 <= j < next.scenes[t].entities.len() implies
            next.scenes[t].entities[j] == want.scenes[t].entities[j] by {
            let old = d.scenes[t].entities[j];
            assert(want.scenes[t].entities[j] == h(old));
            assert(b.scenes[t].entities[j] == f(old));
            assert(first_of(kids, from + 1, id)) by {
                assert(kids[from] == id);
            }
            if t == s && j == i {
                assert(old.id == id);
            } else {
                assert(old.id != d.scenes[s].entities[i].id);
                if first_of(kids, from + 1, old.id) {
                    let k = choose|k: int| 0 <= k < from + 1 && #[trigger] kids[k] == old.id;
                    assert(k < from);
                    assert(first_of(kids, from, old.id));
                }
                if first_of(kids, from, old.id) {
                    let k = choose|k: int| 0 <= k < from && #[trigger] kids[k] == old.id;
                    assert(first_of(kids, from + 1, old.id));
                }
            }
        }
        same_document(next, want);
        detached_is_touched(d, gw, kids, from + 1, g);
    }
}

/// Where an entity of the flat list stands among the scenes.
proof fn listed_place(scenes: Seq<SceneModel>, m: int) -> (p: (int, int))
    requires
        0 <= m < flat(scenes).len(),
    ensures
        0 <= p.0 < scenes.len(),
        0 <= p.1 < scenes[p.0].entities.len(),
        flat(scenes)[m] == scenes[p.0].entities[p.1],
        m == flat(scenes.take(p.0)).len() + p.1,
    decreases scenes.len(),
{
    let front = scenes.drop_last();
    let n = flat(front).len() as int;
    if m < n {
        let p = listed_place(front, m);
        assert(front.take(p.0) =~= scenes.take(p.0));
        p
    } else {
        assert(scenes.take(scenes.len() - 1) =~= front);
        (scenes.len() - 1, m - n)
    }
}

/// Where an entity of a scene stands in the flat list.
proof fn flat_place(scenes: Seq<SceneModel>, s: int, i: int)
    requires
        0 <= s < scenes.len(),
        0 <= i < scenes[s].entities.len(),
    ensures
        flat(scenes.take(s)).len() + i < flat(scenes).len(),
        flat(scenes)[flat(scenes.take(s)).len() + i] == scenes[s].entities[i],
    decreases scenes.len(),
{
    let front = scenes.drop_last();
    if s < scenes.len() - 1 {
        flat_place(front, s, i);
        assert(front.take(s) =~= scenes.take(s));
    } else {
        assert(scenes.take(s) =~= front);
    }
}

/// Earlier scenes stand before later ones in the flat list.
proof fn flat_grows(scenes: Seq<SceneModel>, s: int, t: int)
    requires
        0 <= s < t <= scenes.len(),
    ensures
        flat(scenes.take(s)).len() + scenes[s].entities.len() <= flat(scenes.take(t)).len(),
    decreases t,
{
    assert(scenes.take(t).drop_last() =~= scenes.take(t - 1));
    assert(scenes.take(t).last() == scenes[t - 1]);
    if s < t - 1 {
        flat_grows(scenes, s, t - 1);
    }
}

/// The ids of a valid document are distinct.
pub proof fn valid_ids_are_distinct(d: DocumentModel)
    requires
        diagnosed(d).len() == 0,
    ensures
        distinct_ids(d),
{
    valid_means_without_fault(d);
    let es = d.entities();
    assert forall|s: int, i: int, t: int, j: int|
        #![trigger d.scenes[s].entities[i], d.scenes[t].entities[j]]
        0 <= s < d.scenes.len() && 0 <= i < d.scenes[s].entities.len() && 0 <= t < d.scenes.len()
            && 0 <= j < d.scenes[t].entities.len() && (s != t || i
            != j) implies d.scenes[s].entities[i].id != d.scenes[t].entities[j].id by {
        flat_place(d.scenes, s, i);
        flat_place(d.scenes, t, j);
        let m = flat(d.scenes.take(s)).len() + i;
        let n = flat(d.scenes.take(t)).len() + j;
        if s < t {
            flat_grows(d.scenes, s, t);
        } else if t < s {
            flat_grows(d.scenes, t, s);
        }
        assert(m != n);
        assert(entity_is_fine(d, m) && entity_is_fine(d, n));
        if es[m].id == es[n].id {
            if m < n {
                assert(repeated(es, n));
            } else {
                assert(repeated(es, m));
            }
        }
    }
}

/// The children of an id are named once each, and named exactly if they stand under it.
proof fn children_are_named_once(d: DocumentModel, gid: Seq<char>)
    requires
        distinct_ids(d),
    ensures
        children_of(d.entities(), gid).no_duplicates(),
        forall|k: int|
            0 <= k < children_of(d.entities(), gid).len() ==> d.has(
                #[trigger] children_of(d.entities(), gid)[k],
            ),
        forall|s: int, i: int|
            #![trigger d.scenes[s].entities[i]]
            0 <= s < d.scenes.len() && 0 <= i < d.scenes[s].entities.len() ==> (first_of(
                children_of(d.entities(), gid),
                children_of(d.entities(), gid).len() as int,
                d.scenes[s].entities[i].id,
            ) <==> d.scenes[s].entities[i].parent == Some(gid)),
{
    let es = d.entities();
    let p = |e: EntityModel| e.parent == Some(gid);
    let kept = es.filter(p);
    let kids = children_of(es, gid);
    let places = filtered_places(es, p);
    assert(kids.len() == kept.len());
    assert forall|k: int, l: int| 0 <= k < l < kids.len() implies kids[k] != kids[l] by {
        assert(places[k] < places[l]);
        let a = listed_place(d.scenes, places[k]);
        let b = listed_place(d.scenes, places[l]);
        assert(a != b);
        assert(d.scenes[a.0].entities[a.1].id != d.scenes[b.0].entities[b.1].id);
    }
    assert forall|k: int| 0 <= k < kids.len() implies d.has(#[trigger] kids[k]) by {
        let a = listed_place(d.scenes, places[k]);
        located_in_range(d.scenes, kids[k], 0);
        assert(d.scenes[a.0].entities[a.1].id == kids[k]);
    }
    assert forall|s: int, i: int|
        #![trigger d.scenes[s].entities[i]]
        0 <= s < d.scenes.len() && 0 <= i < d.scenes[s].entities.len() implies (first_of(
        kids,
        kids.len() as int,
        d.scenes[s].entities[i].id,
    ) <==> d.scenes[s].entities[i].parent == Some(gid)) by {
        let e = d.scenes[s].entities[i];
        if e.parent == Some(gid) {
            scene_entity_is_listed(d.scenes, s, i);
            let m = choose|m: int| 0 <= m < es.len() && es[m] == e;
            es.lemma_filter_contains(p, m);
            let k = choose|k: int| 0 <= k < kept.len() && kept[k] == e;
            assert(kids[k] == e.id);
        }
        if first_of(kids, kids.len() as int, e.id) {
            let k = choose|k: int| 0 <= k < kids.len() && #[trigger] kids[k] == e.id;
            let a = listed_place(d.scenes, places[k]);
            assert(d.scenes[a.0].entities[a.1].id == e.id);
            assert(a == (s, i));
            es.lemma_filter_pred(p, k);
        }
    }
}

proof fn all_pass(es: Seq<EntityModel>, p: spec_fn(EntityModel) -> bool)
    requires
        forall|k: int| 0 <= k < es.len() ==> p(#[trigger] es[k]),
    ensures
        es.filter(p) == es,
    decreases es.len(),
{
    reveal(Seq::filter);
    if es.len() > 0 {
        assert(p(es[es.len() - 1]));
        assert forall|k: int| 0 <= k < es.drop_last().len() implies p(
            #[trigger] es.drop_last()[k],
        ) by {
            assert(es.drop_last()[k] == es[k]);
        }
        all_pass(es.drop_last(), p);
        assert(es.drop_last().push(es.last()) =~= es);
    }
}

/// A document without a chain above an id: no circle, and one placement.
proof fn top_world(d: DocumentModel, id: Seq<char>, g: spec_fn(Calc) -> Answer)
    requires
        d.find(id) matches Some(e) && e.parent is None,
    ensures
        !cyclic(d, id),
        world_of(d, id, g) == Some(
            g(
                Calc::Product(identity(), g(Calc::Compose((d.find(id)->0).transform)).matrix),
            ).matrix,
        ),
{
    reveal_with_fuel(ancestor, 2);
    assert(ancestor(d, id, 1) is None);
    if cyclic(d, id) {
        circles_do_not_end(d, id, 1);
    }
    world_is_parent_world_times_local(d, id, g);
}

/// Grouping leaves a document in which the members, and nothing else, are hung under the group,
/// which is the last entity of the first scene.
proof fn group_hangs_members(
    st: Session,
    group_id: Seq<char>,
    raws: Seq<Seq<char>>,
    g: spec_fn(Calc) -> Answer,
)
    requires
        distinct_ids(st.doc),
        grouped(st, group_id, raws, g) is Ok,
    ensures
        ({
            let gid = canonical(group_id);
            let c = group_place(st, raws, g);
            let worlds = member_worlds(st, raws, 0, g)->Ok_0;
            let w = |id: Seq<char>| world_of(st.doc, id, g)->0;
            let d = st.doc.with_new(group_entity(gid, c));
            &&& !st.doc.has(gid)
            &&& st.doc.scenes.len() > 0
            &&& distinct_ids(d)
            &&& (grouped(st, group_id, raws, g)->Ok_0).doc == touched(
                d,
                put_under(gid, c, worlds, worlds.len() as int, w, g),
            )
        }),
{
    let gid = canonical(group_id);
    let c = group_place(st, raws, g);
    let worlds = member_worlds(st, raws, 0, g)->Ok_0;
    let w = |id: Seq<char>| world_of(st.doc, id, g)->0;
    let e = group_entity(gid, c);
    let d = st.doc.with_new(e);
    member_ids(st, raws, 0, g);
    member_matrices(st, raws, 0, g);
    new_keeps(st.doc, e);
    assert forall|k: int| 0 <= k < worlds.len() implies d.has((#[trigger] worlds[k]).0)
        && worlds[k].1 == w(worlds[k].0) by {
        let id = worlds[k].0;
        assert(st.doc.has(id));
        located_in_range(st.doc.scenes, id, 0);
        located_in_range(d.scenes, id, 0);
        let (s, i) = located(st.doc.scenes, id, 0)->0;
        assert(d.scenes[s].entities[i] == st.doc.scenes[s].entities[i]);
    }
    let none = put_under(gid, c, worlds, 0, w, g);
    let start = touched(d, none);
    assert forall|t: int, j: int|
        #![trigger start.scenes[t].entities[j]]
        0 <= t < start.scenes.len() && 0 <= j < start.scenes[t].entities.len() implies
        start.scenes[t].entities[j] == d.scenes[t].entities[j] by {
        assert(start.scenes[t].entities[j] == none(d.scenes[t].entities[j]));
    }
    same_document(start, d);
    attached_is_touched(d, gid, c, worlds, 0, w, g);
}

pub(crate) proof fn member_matrices(st: Session, raws: Seq<Seq<char>>, from: int, g: spec_fn(Calc) -> Answer)
    requires
        0 <= from <= raws.len(),
    ensures
        member_worlds(st, raws, from, g) matches Ok(w) ==> w.len() == raws.len() - from && forall|
            k: int,
        |
            0 <= k < w.len() ==> world_of(st.doc, (#[trigger] w[k]).0, g) == Some(w[k].1),
    decreases raws.len() - from,
{
    if from < raws.len() {
        member_matrices(st, raws, from + 1, g);
        if let Ok(w) = member_worlds(st, raws, from, g) {
            let rest = member_worlds(st, raws, from + 1, g)->Ok_0;
            assert forall|k: int| 0 <= k < w.len() implies world_of(
                st.doc,
                (#[trigger] w[k]).0,
                g,
            ) == Some(w[k].1) by {
                if k > 0 {
                    assert(w[k] == rest[k - 1]);
                }
            }
        }
    }
}

/// A group is found where it was put, and its world matrix is made of its place alone.
proof fn group_is_found(
    st: Session,
    group_id: Seq<char>,
    raws: Seq<Seq<char>>,
    g: spec_fn(Calc) -> Answer,
)
    requires
        distinct_ids(st.doc),
        grouped(st, group_id, raws, g) is Ok,
    ensures
        ({
            let gid = canonical(group_id);
            let c = group_place(st, raws, g);
            let b = (grouped(st, group_id, raws, g)->Ok_0).doc;
            let worlds = member_worlds(st, raws, 0, g)->Ok_0;
            &&& !among(worlds, worlds.len() as int, gid)
            &&& b.find(gid) == Some(group_entity(gid, c))
            &&& world_of(b, gid, g) == Some(group_world(c, g))
        }),
{
    let gid = canonical(group_id);
    let c = group_place(st, raws, g);
    let worlds = member_worlds(st, raws, 0, g)->Ok_0;
    let w = |id: Seq<char>| world_of(st.doc, id, g)->0;
    let group = group_entity(gid, c);
    let d = st.doc.with_new(group);
    let f = put_under(gid, c, worlds, worlds.len() as int, w, g);
    let b = touched(d, f);
    group_hangs_members(st, group_id, raws, g);
    member_ids(st, raws, 0, g);
    if among(worlds, worlds.len() as int, gid) {
        let k = choose|k: int| 0 <= k < worlds.len() && (#[trigger] worlds[k]).0 == gid;
        assert(st.doc.has(worlds[k].0));
    }
    pushed_entity_is_found(st.doc, group);
    touched_location(d, f, gid, 0);
    located_in_range(d.scenes, gid, 0);
    let (s, i) = located(d.scenes, gid, 0)->0;
    assert(b.scenes[s].entities[i] == f(d.scenes[s].entities[i]));
    top_world(b, gid, g);
}

/// After a grouping the world matrix of each member is that of the group times its placement
/// under it.
pub proof fn grouped_members_hang_under_the_group(
    st: Session,
    group_id: Seq<char>,
    raws: Seq<Seq<char>>,
    k: int,
    g: spec_fn(Calc) -> Answer,
)
    requires
        distinct_ids(st.doc),
        grouped(st, group_id, raws, g) is Ok,
        0 <= k < raws.len(),
    ensures
        ({
            let id = resolved(st, raws[k]);
            let c = group_place(st, raws, g);
            let b = (grouped(st, group_id, raws, g)->Ok_0).doc;
            world_of(st.doc, id, g) matches Some(w) && world_of(b, id, g) == Some(
                g(
                    Calc::Product(group_world(c, g), g(Calc::Compose(hung(c, w, g))).matrix),
                ).matrix,
            )
        }),
{
    let gid = canonical(group_id);
    let id = resolved(st, raws[k]);
    let c = group_place(st, raws, g);
    let worlds = member_worlds(st, raws, 0, g)->Ok_0;
    let w = |id: Seq<char>| world_of(st.doc, id, g)->0;
    let d = st.doc.with_new(group_entity(gid, c));
    let f = put_under(gid, c, worlds, worlds.len() as int, w, g);
    let b = touched(d, f);
    group_hangs_members(st, group_id, raws, g);
    group_is_found(st, group_id, raws, g);
    member_ids(st, raws, 0, g);
    member_matrices(st, raws, 0, g);
    assert(worlds[k].0 == id && st.doc.has(worlds[k].0));
    assert(among(worlds, worlds.len() as int, id));
    touched_location(d, f, id, 0);
    located_in_range(st.doc.scenes, id, 0);
    located_in_range(d.scenes, id, 0);
    let (t, j) = located(st.doc.scenes, id, 0)->0;
    assert(d.scenes[t].entities[j] == st.doc.scenes[t].entities[j]);
    let (s, i) = located(d.scenes, id, 0)->0;
    assert(b.scenes[s].entities[i] == f(d.scenes[s].entities[i]));
    let e = b.find(id)->0;
    assert(e.parent == Some(gid) && e.transform == hung(c, world_of(st.doc, id, g)->0, g));
    reveal_with_fuel(ancestor, 3);
    assert(ancestor(b, id, 2) is None);
    if cyclic(b, id) {
        circles_do_not_end(b, id, 2);
    }
    world_is_parent_world_times_local(b, id, g);
}

/// The arithmetic undoes its own steps on the way of the world matrix `w` under a group at `c`.
pub open spec fn hangs_exactly(c: Vec3, w: Mat4, g: spec_fn(Calc) -> Answer) -> bool {
    let inverse = g(Calc::Invert(g(Calc::Shift(c)).matrix)).matrix;
    let local = g(Calc::Product(inverse, w)).matrix;
    &&& g(Calc::Compose(g(Calc::Decompose(local)).pose)).matrix == local
    &&& g(Calc::Product(group_world(c, g), local)).matrix == w
}

/// Members keep their place in the world when they are grouped, where the arithmetic undoes its
/// own steps.
pub proof fn grouped_members_keep_their_place(
    st: Session,
    group_id: Seq<char>,
    raws: Seq<Seq<char>>,
    k: int,
    g: spec_fn(Calc) -> Answer,
)
    requires
        distinct_ids(st.doc),
        0 <= k < raws.len(),
        grouped(st, group_id, raws, g) is Ok,
        hangs_exactly(
            group_place(st, raws, g),
            world_of(st.doc, resolved(st, raws[k]), g)->0,
            g,
        ),
    ensures
        grouped(st, group_id, raws, g) matches Ok(b) && world_of(
            b.doc,
            resolved(st, raws[k]),
            g,
        ) == world_of(st.doc, resolved(st, raws[k]), g),
{
    grouped_members_hang_under_the_group(st, group_id, raws, k, g);
}

/// Ungrouping after a grouping gives back the document before, but for the members: each is on
/// its own, and stands where the arithmetic puts it on its way under the group and out again.
/// The later request may come in a session of its own.
pub proof fn ungrouping_undoes_grouping(
    st: Session,
    group_id: Seq<char>,
    raws: Seq<Seq<char>>,
    later: Session,
    g: spec_fn(Calc) -> Answer,
)
    requires
        distinct_ids(st.doc),
        nobody_under(st.doc, canonical(group_id)),
        grouped(st, group_id, raws, g) matches Ok(b) && later.doc == b.doc,
    ensures
        ungrouped(later, group_id, g) matches Ok(after) && after.doc == let_go(
            st.doc,
            named(st, raws),
            group_place(st, raws, g),
            g,
        ),
{
    let gid = canonical(group_id);
    let c = group_place(st, raws, g);
    let worlds = member_worlds(st, raws, 0, g)->Ok_0;
    let w = |id: Seq<char>| world_of(st.doc, id, g)->0;
    let group = group_entity(gid, c);
    let d = st.doc.with_new(group);
    let f = put_under(gid, c, worlds, worlds.len() as int, w, g);
    let b = touched(d, f);
    let n = st.doc.scenes[0].entities.len() as int;
    group_hangs_members(st, group_id, raws, g);
    member_ids(st, raws, 0, g);
    located_in_range(st.doc.scenes, gid, 0);
    group_is_found(st, group_id, raws, g);
    let gw = group_world(c, g);
    // The children are the members.
    assert(distinct_ids(b)) by {
        assert forall|s: int, i: int|
            #![trigger b.scenes[s].entities[i]]
            0 <= s < b.scenes.len() && 0 <= i < b.scenes[s].entities.len() implies
            b.scenes[s].entities[i].id == d.scenes[s].entities[i].id && 0 <= i
            < d.scenes[s].entities.len() by {
            assert(b.scenes[s].entities[i] == f(d.scenes[s].entities[i]));
        }
    }
    let kids = children_of(b.entities(), gid);
    children_are_named_once(b, gid);
    let free = set_free(gw, kids, kids.len() as int, g);
    let none = set_free(gw, kids, 0, g);
    let start = touched(b, none);
    assert forall|t: int, j: int|
        #![trigger start.scenes[t].entities[j]]
        0 <= t < start.scenes.len() && 0 <= j < start.scenes[t].entities.len() implies
        start.scenes[t].entities[j] == b.scenes[t].entities[j] by {
        assert(start.scenes[t].entities[j] == none(b.scenes[t].entities[j]));
    }
    same_document(start, b);
    detached_is_touched(b, gw, kids, 0, g);
    let loose = touched(b, free);
    assert(detached(b, gw, kids, 0, g) == loose);
    // What every entity has become.
    let members = named(st, raws);
    let want = let_go(st.doc, members, c, g);
    assert forall|s: int, i: int|
        #![trigger st.doc.scenes[s].entities[i]]
        0 <= s < st.doc.scenes.len() && 0 <= i < st.doc.scenes[s].entities.len() implies
        loose.scenes[s].entities[i] == want.scenes[s].entities[i] by {
        let old = st.doc.scenes[s].entities[i];
        assert(d.scenes[s].entities[i] == old);
        assert(b.scenes[s].entities[i] == f(old));
        assert(loose.scenes[s].entities[i] == free(b.scenes[s].entities[i]));
        assert(among(worlds, worlds.len() as int, old.id) <==> members.contains(old.id)) by {
            if among(worlds, worlds.len() as int, old.id) {
                let k = choose|k: int|
                    0 <= k < worlds.len() && (#[trigger] worlds[k]).0 == old.id;
                assert(members[k] == old.id);
            }
            if members.contains(old.id) {
                let k = choose|k: int| 0 <= k < members.len() && members[k] == old.id;
                assert(worlds[k].0 == old.id);
            }
        }
        assert(old.parent != Some(gid));
    }
    // The group is taken out.
    let p = |e: EntityModel| e.id != gid;
    let es = loose.scenes[0].entities;
    assert(es.len() == n + 1);
    assert(b.scenes[0].entities[n] == f(d.scenes[0].entities[n]));
    assert(es[n] == free(b.scenes[0].entities[n]));
    assert(es.last().id == gid);
    let rest = es.drop_last();
    assert forall|k: int| 0 <= k < rest.len() implies p(#[trigger] rest[k]) by {
        let old = st.doc.scenes[0].entities[k];
        assert(d.scenes[0].entities[k] == old);
        assert(b.scenes[0].entities[k] == f(old));
        assert(es[k] == free(b.scenes[0].entities[k]));
        assert(old.id != gid);
    }
    all_pass(rest, p);
    assert(es.filter(p) == rest) by {
        reveal(Seq::filter);
    }
    let after = removed(loose, gid);
    assert(after.scenes[0].entities == rest);
    assert forall|t: int, j: int|
        #![trigger after.scenes[t].entities[j]]
        0 <= t < after.scenes.len() && 0 <= j < after.scenes[t].entities.len() implies
        after.scenes[t].entities[j] == want.scenes[t].entities[j] by {
        assert(loose.scenes[t].entities[j] == after.scenes[t].entities[j]);
        assert(0 <= j < st.doc.scenes[t].entities.len());
        let old = st.doc.scenes[t].entities[j];
    }
    same_document(after, want);
}

/// What is left after a grouping and an ungrouping: the ids in their order, no group, and every
/// member without a parent, its world matrix made of its placement alone.
pub proof fn members_are_on_their_own_again(
    d: DocumentModel,
    members: Seq<Seq<char>>,
    c: Vec3,
    k: int,
    g: spec_fn(Calc) -> Answer,
)
    requires
        distinct_ids(d),
        0 <= k < members.len(),
        d.has(members[k]),
    ensures
        ids_of(let_go(d, members, c, g).entities()) == ids_of(d.entities()),
        forall|id: Seq<char>| #[trigger] let_go(d, members, c, g).has(id) <==> d.has(id),
        let_go(d, members, c, g).find(members[k]) == Some(
            EntityModel {
                parent: None,
                transform: let_down(c, world_of(d, members[k], g)->0, g),
                ..d.find(members[k])->0
            },
        ),
        world_of(let_go(d, members, c, g), members[k], g) == Some(
            g(
                Calc::Product(
                    identity(),
                    g(Calc::Compose(let_down(c, world_of(d, members[k], g)->0, g))).matrix,
                ),
            ).matrix,
        ),
{
    let f = |e: EntityModel|
        if members.contains(e.id) {
            EntityModel {
                parent: None,
                transform: let_down(c, world_of(d, e.id, g)->0, g),
                ..e
            }
        } else {
            e
        };
    let b = let_go(d, members, c, g);
    let id = members[k];
    assert(b == touched(d, f));
    touched_ids(d, f);
    assert forall|x: Seq<char>| #[trigger] b.has(x) <==> d.has(x) by {
        touched_location(d, f, x, 0);
    }
    touched_location(d, f, id, 0);
    located_in_range(d.scenes, id, 0);
    let (s, i) = located(d.scenes, id, 0)->0;
    assert(b.scenes[s].entities[i] == f(d.scenes[s].entities[i]));
    top_world(b, id, g);
}

/// Where the arithmetic undoes its own steps on the way under the group and out again, a member
/// keeps its world matrix.
pub proof fn members_keep_their_place(
    d: DocumentModel,
    members: Seq<Seq<char>>,
    c: Vec3,
    k: int,
    g: spec_fn(Calc) -> Answer,
)
    requires
        distinct_ids(d),
        0 <= k < members.len(),
        d.has(members[k]),
        ({
            let w = world_of(d, members[k], g)->0;
            &&& world_of(d, members[k], g) is Some
            &&& hangs_exactly(c, w, g)
            &&& g(Calc::Compose(g(Calc::Decompose(w)).pose)).matrix == w
            &&& g(Calc::Product(identity(), w)).matrix == w
        }),
    ensures
        world_of(let_go(d, members, c, g), members[k], g) == world_of(d, members[k], g),
{
    members_are_on_their_own_again(d, members, c, k, g);
}

/// In a valid document a grouping can always be undone: ungrouping succeeds, the ids are those
/// before in their order, the group is gone, and no member has a parent.
pub proof fn valid_grouping_can_be_undone(
    st: Session,
    group_id: Seq<char>,
    raws: Seq<Seq<char>>,
    later: Session,
    g: spec_fn(Calc) -> Answer,
)
    requires
        diagnosed(st.doc).len() == 0,
        grouped(st, group_id, raws, g) matches Ok(b) && later.doc == b.doc,
    ensures
        ungrouped(later, group_id, g) matches Ok(after) && {
            &&& after.doc == let_go(st.doc, named(st, raws), group_place(st, raws, g), g)
            &&& ids_of(after.doc.entities()) == ids_of(st.doc.entities())
            &&& !after.doc.has(canonical(group_id))
            &&& forall|k: int|
                0 <= k < raws.len() ==> (after.doc.find(resolved(st, #[trigger] raws[k])) matches Some(
                    e,
                ) && e.parent is None)
        },
{
    let gid = canonical(group_id);
    let d = st.doc;
    let members = named(st, raws);
    let c = group_place(st, raws, g);
    valid_ids_are_distinct(d);
    valid_means_without_fault(d);
    member_ids(st, raws, 0, g);
    assert(nobody_under(d, gid)) by {
        assert forall|s: int, i: int|
            #![trigger d.scenes[s].entities[i]]
            0 <= s < d.scenes.len() && 0 <= i < d.scenes[s].entities.len() implies
            d.scenes[s].entities[i].parent != Some(gid) by {
            flat_place(d.scenes, s, i);
            assert(entity_is_fine(d, flat(d.scenes.take(s)).len() + i));
        }
    }
    ungrouping_undoes_grouping(st, group_id, raws, later, g);
    let worlds = member_worlds(st, raws, 0, g)->Ok_0;
    assert(worlds.len() > 0);
    assert(st.doc.has(worlds[0].0) && members[0] == worlds[0].0);
    members_are_on_their_own_again(d, members, c, 0, g);
    assert(!let_go(d, members, c, g).has(gid));
    assert forall|k: int| 0 <= k < raws.len() implies (let_go(d, members, c, g).find(
        resolved(st, #[trigger] raws[k]),
    ) matches Some(e) && e.parent is None) by {
        assert(st.doc.has(worlds[k].0) && members[k] == worlds[k].0);
        members_are_on_their_own_again(d, members, c, k, g);
    }
}

/// A request that groups and a later one that ungroups, on a valid document: the second
/// succeeds if the first did, and the ids are as before, in order, the group is gone, and every
/// member is without a parent and stands where the arithmetic puts it.
pub proof fn ungroup_request_undoes_group_request(
    d: DocumentModel,
    first: Seq<ApplyChange>,
    second: Seq<ApplyChange>,
    group_id: String,
    member_ids: Vec<String>,
    g: spec_fn(Calc) -> Answer,
)
    requires
        diagnosed(d).len() == 0,
        first == seq![ApplyChange::Group { group_id, member_ids }],
        second == seq![ApplyChange::Ungroup { group_id }],
    ensures
        all_changed(opened(d), first, 0, g) matches Ok(b) ==> {
            let st = opened(d);
            let raws = texts(member_ids@);
            all_changed(opened(b.doc), second, 0, g) matches Ok(after) && {
                &&& after.doc == let_go(d, named(st, raws), group_place(st, raws, g), g)
                &&& ids_of(after.doc.entities()) == ids_of(d.entities())
                &&& !after.doc.has(canonical(group_id@))
                &&& forall|k: int|
                    0 <= k < raws.len() ==> (after.doc.find(
                        resolved(st, #[trigger] raws[k]),
                    ) matches Some(e) && e.parent is None)
            }
        },
{
    let st = opened(d);
    reveal_with_fuel(all_changed, 2);
    assert(first[0] == ApplyChange::Group { group_id, member_ids });
    assert(second[0] == ApplyChange::Ungroup { group_id });
    if let Ok(b) = all_changed(st, first, 0, g) {
        assert(changed(st, first[0], g) == Ok::<Session, Seq<char>>(b));
        valid_grouping_can_be_undone(st, group_id@, texts(member_ids@), opened(b.doc), g);
    }
}

} // verus!
