//! Chains of parents: where they end, and the world matrices along them.

use crate::document::{chain_matrix, located, located_in_range, world_of, DocumentModel};
use crate::laws::scene_entity_is_listed;
use crate::numeric::{identity, Answer, Calc};
use crate::validate::{
    acyclic, ancestor, cyclic, diagnosed, entity_is_fine, ids_are_few,
    valid_documents_are_acyclic, valid_means_without_fault,
};
use vstd::prelude::*;

verus! {

pub(crate) proof fn found_under_its_id(d: DocumentModel, id: Seq<char>)
    requires
        d.find(id) is Some,
    ensures
        (d.find(id)->0).id == id,
        d.has(id),
{
    located_in_range(d.scenes, id, 0);
}

pub(crate) proof fn ancestor_of_parent(d: DocumentModel, id: Seq<char>, k: nat)
    ensures
        ancestor(d, id, k + 1) == (match d.find(id) {
            None => None,
            Some(e) => match e.parent {
                None => None,
                Some(p) => ancestor(d, p, k),
            },
        }),
    decreases k,
{
    reveal_with_fuel(ancestor, 2);
    if k > 0 {
        ancestor_of_parent(d, id, (k - 1) as nat);
    }
}

/// What comes before an ancestor exists.
pub(crate) proof fn ancestors_exist(d: DocumentModel, id: Seq<char>, i: nat, j: nat)
    requires
        i < j,
        ancestor(d, id, j) is Some,
    ensures
        ancestor(d, id, i) is Some,
        d.has(ancestor(d, id, i)->0),
    decreases j - i,
{
    let before = (j - 1) as nat;
    if i < before {
        ancestors_exist(d, id, i, before);
    }
}

/// Two equal ancestors have equal ancestors.
proof fn equal_ancestors(d: DocumentModel, id: Seq<char>, i: nat, j: nat, k: nat)
    requires
        ancestor(d, id, i) == ancestor(d, id, j),
    ensures
        ancestor(d, id, i + k) == ancestor(d, id, j + k),
    decreases k,
{
    if k > 0 {
        equal_ancestors(d, id, i, j, (k - 1) as nat);
    }
}

/// A chain that comes to one id twice does not end.
pub(crate) proof fn circles_do_not_end(d: DocumentModel, id: Seq<char>, k: nat)
    requires
        cyclic(d, id),
    ensures
        ancestor(d, id, k) is Some,
    decreases k,
{
    let (i, j) = choose|i: nat, j: nat|
        i < j && #[trigger] ancestor(d, id, i) is Some && #[trigger] ancestor(d, id, j)
            == ancestor(d, id, i);
    if k < j {
        ancestors_exist(d, id, k, j);
    } else {
        let back = (k - (j - i)) as nat;
        circles_do_not_end(d, id, back);
        equal_ancestors(d, id, i, j, (k - j) as nat);
    }
}

/// The ids along a chain that does not come to one id twice are few.
pub(crate) proof fn ended_chain_is_short(d: DocumentModel, id: Seq<char>, k: nat)
    requires
        !cyclic(d, id),
        k > 0 ==> ancestor(d, id, (k - 1) as nat) is Some && d.has(
            ancestor(d, id, (k - 1) as nat)->0,
        ),
    ensures
        k <= d.entities().len(),
{
    let ids = Seq::new(k, |i: int| ancestor(d, id, i as nat)->0);
    assert forall|i: int| 0 <= i < ids.len() implies ancestor(d, id, i as nat) is Some && d.has(
        #[trigger] ids[i],
    ) by {
        if i < k - 1 {
            ancestors_exist(d, id, i as nat, (k - 1) as nat);
        }
    }
    assert forall|i: int, j: int| 0 <= i < j < ids.len() implies ids[i] != ids[j] by {
        assert(d.has(ids[i]) && d.has(ids[j]));
        if ids[i] == ids[j] {
            assert(ancestor(d, id, i as nat) == ancestor(d, id, j as nat));
        }
    }
    assert(ids.no_duplicates());
    ids_are_few(d, ids);
}

/// A chain that does not come to one id twice has ended after one step more than there are
/// entities.
pub(crate) proof fn chain_has_ended(d: DocumentModel, id: Seq<char>)
    requires
        !cyclic(d, id),
    ensures
        ancestor(d, id, d.entities().len() + 1) is None,
{
    let n = d.entities().len();
    if ancestor(d, id, n + 1) is Some {
        ancestors_exist(d, id, n, n + 1);
        ended_chain_is_short(d, id, n + 1);
    }
}

/// There is no matrix of a chain that names a missing entity.
pub(crate) proof fn broken_chain_has_no_matrix(
    d: DocumentModel,
    id: Seq<char>,
    k: nat,
    steps: nat,
    g: spec_fn(Calc) -> Answer,
)
    requires
        ancestor(d, id, k) matches Some(a) && !d.has(a),
        steps > k,
    ensures
        chain_matrix(d, Some(id), steps, g) is None,
    decreases k,
{
    if k > 0 {
        ancestors_exist(d, id, 0, k);
        ancestor_of_parent(d, id, (k - 1) as nat);
        broken_chain_has_no_matrix(
            d,
            (d.find(id)->0).parent->0,
            (k - 1) as nat,
            (steps - 1) as nat,
            g,
        );
    }
}

/// A chain that ends is followed to its end by as many steps as it has, and by any more.
proof fn more_steps_change_nothing(
    d: DocumentModel,
    id: Seq<char>,
    ends: nat,
    steps: nat,
    more: nat,
    g: spec_fn(Calc) -> Answer,
)
    requires
        ancestor(d, id, ends) is None,
        ends <= steps,
    ensures
        chain_matrix(d, Some(id), steps + more, g) == chain_matrix(d, Some(id), steps, g),
    decreases ends,
{
    if ends > 0 {
        ancestor_of_parent(d, id, (ends - 1) as nat);
        if let Some(e) = d.find(id) {
            if let Some(p) = e.parent {
                more_steps_change_nothing(
                    d,
                    p,
                    (ends - 1) as nat,
                    (steps - 1) as nat,
                    more,
                    g,
                );
            }
        }
    }
}

/// The parent of what is on no circle is on none either.
proof fn parent_is_on_no_circle(d: DocumentModel, id: Seq<char>, p: Seq<char>)
    requires
        !cyclic(d, id),
        d.find(id) matches Some(e) && e.parent == Some(p),
    ensures
        !cyclic(d, p),
{
    let n = d.entities().len();
    chain_has_ended(d, id);
    ancestor_of_parent(d, id, n);
    if cyclic(d, p) {
        circles_do_not_end(d, p, n);
    }
}

/// The world matrix of an entity under a parent is the parent's world matrix times its own
/// local matrix, however long the chain of parents is. That of an entity without a parent is
/// its local matrix, taken from the identity. Only what is on no circle of parents has such a
/// place.
pub proof fn world_is_parent_world_times_local(
    d: DocumentModel,
    id: Seq<char>,
    g: spec_fn(Calc) -> Answer,
)
    requires
        !cyclic(d, id),
    ensures
        world_of(d, id, g) == (match d.find(id) {
            None => None,
            Some(e) => {
                let local = g(Calc::Compose(e.transform)).matrix;
                match e.parent {
                    None => Some(g(Calc::Product(identity(), local)).matrix),
                    Some(p) => match world_of(d, p, g) {
                        None => None,
                        Some(m) => Some(g(Calc::Product(m, local)).matrix),
                    },
                }
            },
        }),
{
    let n = d.entities().len();
    reveal_with_fuel(chain_matrix, 2);
    if let Some(e) = d.find(id) {
        if let Some(p) = e.parent {
            parent_is_on_no_circle(d, id, p);
            chain_has_ended(d, id);
            ancestor_of_parent(d, id, n);
            more_steps_change_nothing(d, p, n, n, 1, g);
        }
    }
}

/// In a valid document every entity's world matrix is its parent's times its own local matrix.
pub proof fn valid_worlds_follow_parents(
    d: DocumentModel,
    id: Seq<char>,
    g: spec_fn(Calc) -> Answer,
)
    requires
        diagnosed(d).len() == 0,
        d.has(id),
    ensures
        world_of(d, id, g) is Some,
        (d.find(id)->0).parent matches Some(p) ==> world_of(d, p, g) is Some && world_of(d, id, g)
            == Some(
            g(
                Calc::Product(
                    world_of(d, p, g)->0,
                    g(Calc::Compose((d.find(id)->0).transform)).matrix,
                ),
            ).matrix,
        ),
{
    valid_documents_are_acyclic(d);
    found_is_on_no_circle(d, id);
    world_is_parent_world_times_local(d, id, g);
    valid_chain_is_whole(d, id, d.entities().len() + 1, g);
    if let Some(p) = (d.find(id)->0).parent {
        valid_means_without_fault(d);
        let m = found_is_listed(d, id);
        assert(entity_is_fine(d, m));
        found_is_on_no_circle(d, p);
        valid_chain_is_whole(d, p, d.entities().len() + 1, g);
    }
}

proof fn valid_chain_is_whole(
    d: DocumentModel,
    id: Seq<char>,
    steps: nat,
    g: spec_fn(Calc) -> Answer,
)
    requires
        diagnosed(d).len() == 0,
        d.has(id),
    ensures
        chain_matrix(d, Some(id), steps, g) is Some,
    decreases steps,
{
    reveal_with_fuel(chain_matrix, 2);
    if steps > 0 {
        valid_means_without_fault(d);
        let m = found_is_listed(d, id);
        assert(entity_is_fine(d, m));
        if let Some(p) = d.entities()[m].parent {
            valid_chain_is_whole(d, p, (steps - 1) as nat, g);
        }
    }
}

pub(crate) proof fn found_is_listed(d: DocumentModel, id: Seq<char>) -> (m: int)
    requires
        d.has(id),
    ensures
        0 <= m < d.entities().len(),
        d.find(id) == Some(d.entities()[m]),
        d.entities()[m].id == id,
{
    located_in_range(d.scenes, id, 0);
    let (s, k) = located(d.scenes, id, 0)->0;
    scene_entity_is_listed(d.scenes, s, k);
    choose|m: int| 0 <= m < d.entities().len() && d.entities()[m] == d.scenes[s].entities[k]
}

pub(crate) proof fn found_is_on_no_circle(d: DocumentModel, id: Seq<char>)
    requires
        acyclic(d),
        d.has(id),
    ensures
        !cyclic(d, id),
{
    let m = found_is_listed(d, id);
    assert(!cyclic(d, d.entities()[m].id));
}

} // verus!
