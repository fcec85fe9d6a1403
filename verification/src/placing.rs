//! What moving and turning an entity does to its place in the world.

use crate::chain::{ancestor_of_parent, found_under_its_id, world_is_parent_world_times_local};
use crate::change::{moved, placed_in_world, resolved, turned, Session};
use crate::document::{
    chain_matrix, flat, located, located_in_range, world_of, world_place, DocumentModel,
    EntityModel, SceneModel, CIRCLE_STEPS,
};
use crate::laws::location_survives;
use crate::numeric::{identity, Answer, Calc, Mat4, Quat, Transform, Vec3};
use crate::validate::{ancestor, cyclic};
use vstd::prelude::*;

verus! {

/// Scenes of the same sizes hold as many entities.
proof fn same_count(a: Seq<SceneModel>, b: Seq<SceneModel>)
    requires
        a.len() == b.len(),
        forall|s: int|
            0 <= s < a.len() ==> (#[trigger] a[s]).entities.len() == b[s].entities.len(),
    ensures
        flat(a).len() == flat(b).len(),
    decreases a.len(),
{
    if a.len() > 0 {
        let x = a.drop_last();
        let y = b.drop_last();
        assert forall|s: int| 0 <= s < x.len() implies (#[trigger] x[s]).entities.len()
            == y[s].entities.len() by {
            assert(x[s] == a[s]);
        }
        same_count(x, y);
        assert(a[a.len() - 1].entities.len() == b[a.len() - 1].entities.len());
    }
}

/// The same document with another placement of the entity with an id.
pub open spec fn replaced_pose(d: DocumentModel, id: Seq<char>, pose: Transform) -> DocumentModel {
    let (s, i) = located(d.scenes, id, 0)->0;
    d.with_entity(s, i, EntityModel { transform: pose, ..d.scenes[s].entities[i] })
}

proof fn found_after(d: DocumentModel, id: Seq<char>, pose: Transform, x: Seq<char>)
    requires
        d.has(id),
    ensures
        replaced_pose(d, id, pose).find(x) == (match d.find(x) {
            None => None,
            Some(e) => Some(
                if x == id {
                    EntityModel { transform: pose, ..e }
                } else {
                    e
                },
            ),
        }),
{
    located_in_range(d.scenes, id, 0);
    located_in_range(d.scenes, x, 0);
    let (s, i) = located(d.scenes, id, 0)->0;
    let e = EntityModel { transform: pose, ..d.scenes[s].entities[i] };
    location_survives(d, s, i, e, x, 0);
}

proof fn ancestors_after(
    d: DocumentModel,
    id: Seq<char>,
    pose: Transform,
    x: Seq<char>,
    k: nat,
)
    requires
        d.has(id),
    ensures
        ancestor(replaced_pose(d, id, pose), x, k) == ancestor(d, x, k),
    decreases k,
{
    if k > 0 {
        ancestors_after(d, id, pose, x, (k - 1) as nat);
        if let Some(y) = ancestor(d, x, (k - 1) as nat) {
            found_after(d, id, pose, y);
        }
    }
}

proof fn circles_after(d: DocumentModel, id: Seq<char>, pose: Transform, x: Seq<char>)
    requires
        d.has(id),
    ensures
        cyclic(replaced_pose(d, id, pose), x) == cyclic(d, x),
{
    let b = replaced_pose(d, id, pose);
    assert forall|k: nat| #[trigger] ancestor(b, x, k) == ancestor(d, x, k) by {
        ancestors_after(d, id, pose, x, k);
    }
    if cyclic(d, x) {
        let (i, j) = choose|i: nat, j: nat|
            i < j && #[trigger] ancestor(d, x, i) is Some && #[trigger] ancestor(d, x, j)
                == ancestor(d, x, i);
        assert(ancestor(b, x, i) is Some && ancestor(b, x, j) == ancestor(b, x, i));
    }
}

/// A chain that does not come to an id does not notice where it stands.
proof fn chain_after(
    d: DocumentModel,
    id: Seq<char>,
    pose: Transform,
    p: Seq<char>,
    steps: nat,
    g: spec_fn(Calc) -> Answer,
)
    requires
        d.has(id),
        forall|k: nat| #[trigger] ancestor(d, p, k) != Some(id),
    ensures
        chain_matrix(replaced_pose(d, id, pose), Some(p), steps, g) == chain_matrix(
            d,
            Some(p),
            steps,
            g,
        ),
    decreases steps,
{
    reveal_with_fuel(chain_matrix, 2);
    if steps > 0 {
        assert(ancestor(d, p, 0) == Some(p));
        found_after(d, id, pose, p);
        if let Some(e) = d.find(p) {
            if let Some(q) = e.parent {
                assert forall|k: nat| #[trigger] ancestor(d, q, k) != Some(id) by {
                    ancestor_of_parent(d, p, k);
                    assert(ancestor(d, p, k + 1) != Some(id));
                }
                chain_after(d, id, pose, q, (steps - 1) as nat, g);
            }
        }
    }
}

/// Where the parent of an entity stands does not change with the entity.
proof fn parent_stays(
    d: DocumentModel,
    id: Seq<char>,
    pose: Transform,
    p: Seq<char>,
    g: spec_fn(Calc) -> Answer,
)
    requires
        !cyclic(d, id),
        d.find(id) matches Some(e) && e.parent == Some(p),
    ensures
        world_of(replaced_pose(d, id, pose), p, g) == world_of(d, p, g),
{
    let b = replaced_pose(d, id, pose);
    found_under_its_id(d, id);
    circles_after(d, id, pose, p);
    located_in_range(d.scenes, id, 0);
    same_count(b.scenes, d.scenes);
    assert forall|k: nat| #[trigger] ancestor(d, p, k) != Some(id) by {
        ancestor_of_parent(d, id, k);
        if ancestor(d, p, k) == Some(id) {
            assert(ancestor(d, id, 0) == Some(id));
            assert(ancestor(d, id, k + 1) == ancestor(d, id, 0));
        }
    }
    if cyclic(d, p) {
        chain_after(d, id, pose, p, CIRCLE_STEPS as nat, g);
    } else {
        chain_after(d, id, pose, p, d.entities().len() + 1, g);
    }
}

/// The world matrix that an entity gets which is to have `world`: what is left of that after
/// its placement under its parent was taken out and multiplied in again.
pub open spec fn landed(
    d: DocumentModel,
    e: EntityModel,
    world: Mat4,
    g: spec_fn(Calc) -> Answer,
) -> Mat4 {
    match e.parent {
        None => g(
            Calc::Product(identity(), g(Calc::Compose(g(Calc::Decompose(world)).pose)).matrix),
        ).matrix,
        Some(p) => {
            let pw = world_of(d, p, g)->0;
            let local = g(Calc::Product(g(Calc::Invert(pw)).matrix, world)).matrix;
            g(Calc::Product(pw, g(Calc::Compose(g(Calc::Decompose(local)).pose)).matrix)).matrix
        },
    }
}

/// An entity that is given a world matrix has it, as far as the arithmetic undoes its own steps.
pub proof fn placed_entity_lands(
    d: DocumentModel,
    id: Seq<char>,
    world: Mat4,
    g: spec_fn(Calc) -> Answer,
)
    requires
        !cyclic(d, id),
    ensures
        placed_in_world(d, id, world, g) matches Ok(b) ==> world_of(b, id, g) == Some(
            landed(d, d.find(id)->0, world, g),
        ),
{
    if let Ok(b) = placed_in_world(d, id, world, g) {
        let e = d.find(id)->0;
        let local = match e.parent {
            None => world,
            Some(p) => g(
                Calc::Product(g(Calc::Invert(world_of(d, p, g)->0)).matrix, world),
            ).matrix,
        };
        let pose = g(Calc::Decompose(local)).pose;
        assert(b == replaced_pose(d, id, pose));
        found_after(d, id, pose, id);
        circles_after(d, id, pose, id);
        world_is_parent_world_times_local(b, id, g);
        if let Some(p) = e.parent {
            parent_stays(d, id, pose, p, g);
        }
    }
}

/// The world matrix that an entity is to have once it stands at `t`: its scale and rotation
/// stay.
pub open spec fn shifted(
    d: DocumentModel,
    id: Seq<char>,
    t: Vec3,
    g: spec_fn(Calc) -> Answer,
) -> Mat4 {
    let pose = g(Calc::Decompose(world_of(d, id, g)->0)).pose;
    g(Calc::Compose(Transform { translation: t, ..pose })).matrix
}

/// The world matrix that an entity is to have once it is turned: its scale and place stay.
pub open spec fn spun(
    d: DocumentModel,
    id: Seq<char>,
    rotation: Quat,
    g: spec_fn(Calc) -> Answer,
) -> Mat4 {
    let pose = g(Calc::Decompose(world_of(d, id, g)->0)).pose;
    g(Calc::Compose(Transform { rotation, ..pose })).matrix
}

/// A moved entity stands in the world where it was moved to, whatever it stands under, where
/// the arithmetic undoes its own steps and reads a translation back from a matrix.
pub proof fn moved_entity_stands_there(
    st: Session,
    raw: Seq<char>,
    t: Vec3,
    g: spec_fn(Calc) -> Answer,
)
    requires
        !cyclic(st.doc, resolved(st, raw)),
        ({
            let id = resolved(st, raw);
            let w = shifted(st.doc, id, t, g);
            &&& landed(st.doc, st.doc.find(id)->0, w, g) == w
            &&& g(Calc::Decompose(w)).pose.translation == t
        }),
    ensures
        moved(st, raw, t, g) matches Ok(b) ==> {
            let id = resolved(st, raw);
            &&& world_of(b.doc, id, g) == Some(shifted(st.doc, id, t, g))
            &&& world_place(b.doc, id, g) == Some(t)
        },
{
    let id = resolved(st, raw);
    placed_entity_lands(st.doc, id, shifted(st.doc, id, t, g), g);
}

/// A turned entity has the rotation in the world that it was given, whatever it stands under,
/// where the arithmetic undoes its own steps and reads a rotation back from a matrix.
pub proof fn turned_entity_faces_there(
    st: Session,
    raw: Seq<char>,
    rotation: Quat,
    g: spec_fn(Calc) -> Answer,
)
    requires
        !cyclic(st.doc, resolved(st, raw)),
        ({
            let id = resolved(st, raw);
            let w = spun(st.doc, id, rotation, g);
            &&& landed(st.doc, st.doc.find(id)->0, w, g) == w
            &&& g(Calc::Decompose(w)).pose.rotation == rotation
        }),
    ensures
        turned(st, raw, rotation, g) matches Ok(b) ==> {
            let id = resolved(st, raw);
            &&& world_of(b.doc, id, g) == Some(spun(st.doc, id, rotation, g))
            &&& world_of(b.doc, id, g) matches Some(w) && g(Calc::Decompose(w)).pose.rotation
                == rotation
        },
{
    let id = resolved(st, raw);
    placed_entity_lands(st.doc, id, spun(st.doc, id, rotation, g), g);
}

} // verus!
