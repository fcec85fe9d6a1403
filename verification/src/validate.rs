//! What is wrong with a document.

use crate::document::{
    borrowed, known_recipe, located, located_in_range, recipe_known, Document, DocumentModel,
    Entity, EntityModel, GraphModel, MaterialGraph, NodeModel,
};
use crate::laws::scene_entity_is_listed;
use crate::lists::map_push;
use crate::text::{cat2, cat3, cat4, copy_text, holds, same, text_in, texts};
use vstd::prelude::*;

verus! {

#[derive(Debug, PartialEq)]
pub struct ValidateDiag {
    pub code: String,
    pub message: String,
    pub entity_id: Option<String>,
}

#[derive(Debug, PartialEq)]
pub struct ValidateResult {
    pub ok: bool,
    pub diagnostics: Vec<ValidateDiag>,
}

/// What a diagnostic says.
#[verifier::ext_equal]
pub struct DiagModel {
    pub code: Seq<char>,
    pub message: Seq<char>,
    pub entity_id: Option<Seq<char>>,
}

impl View for ValidateDiag {
    type V = DiagModel;

    open spec fn view(&self) -> DiagModel {
        DiagModel {
            code: self.code@,
            message: self.message@,
            entity_id: text_in(self.entity_id),
        }
    }
}

pub open spec fn diag_views(s: Seq<ValidateDiag>) -> Seq<DiagModel> {
    s.map_values(|d: ValidateDiag| d@)
}

/// The id that stands `k` steps up the chain of parents from `start`.
pub open spec fn ancestor(d: DocumentModel, start: Seq<char>, k: nat) -> Option<Seq<char>>
    decreases k,
{
    if k == 0 {
        Some(start)
    } else {
        match ancestor(d, start, (k - 1) as nat) {
            None => None,
            Some(id) => match d.find(id) {
                None => None,
                Some(e) => e.parent,
            },
        }
    }
}

/// The chain of parents from `start` comes to one id twice.
pub open spec fn cyclic(d: DocumentModel, start: Seq<char>) -> bool {
    exists|i: nat, j: nat|
        i < j && #[trigger] ancestor(d, start, i) is Some && #[trigger] ancestor(d, start, j)
            == ancestor(d, start, i)
}

/// No chain of parents comes to one id twice.
pub open spec fn acyclic(d: DocumentModel) -> bool {
    forall|i: int|
        0 <= i < d.entities().len() ==> !cyclic(d, (#[trigger] d.entities()[i]).id)
}

/// An earlier entity has the id of entity number `i`.
pub open spec fn repeated(es: Seq<EntityModel>, i: int) -> bool {
    exists|k: int| 0 <= k < i && (#[trigger] es[k]).id == es[i].id
}

pub open spec fn when(condition: bool, d: DiagModel) -> Seq<DiagModel> {
    if condition {
        seq![d]
    } else {
        Seq::empty()
    }
}

/// What is wrong with entity number `i`.
pub open spec fn entity_diags(d: DocumentModel, i: int) -> Seq<DiagModel> {
    let e = d.entities()[i];
    when(
        repeated(d.entities(), i),
        DiagModel {
            code: "duplicate_entity_id"@,
            message: "duplicate id "@ + e.id,
            entity_id: Some(e.id),
        },
    ) + when(
        e.parent is Some && !d.has(e.parent->0),
        DiagModel {
            code: "missing_parent"@,
            message: e.id + " parent "@ + e.parent->0 + " missing"@,
            entity_id: Some(e.id),
        },
    ) + when(
        e.graph_id is Some && !d.has_graph(e.graph_id->0),
        DiagModel {
            code: "missing_graph"@,
            message: e.id + " graph "@ + e.graph_id->0 + " missing"@,
            entity_id: Some(e.id),
        },
    ) + when(
        !known_recipe(e.recipe),
        DiagModel {
            code: "unknown_recipe"@,
            message: e.id + " recipe "@ + e.recipe,
            entity_id: Some(e.id),
        },
    ) + when(
        cyclic(d, e.id),
        DiagModel {
            code: "parent_cycle"@,
            message: e.id + " parent cycle"@,
            entity_id: Some(e.id),
        },
    )
}

/// What is wrong with the first `n` entities.
pub open spec fn entities_diags(d: DocumentModel, n: int) -> Seq<DiagModel>
    decreases n,
{
    if n <= 0 {
        Seq::empty()
    } else {
        entities_diags(d, n - 1) + entity_diags(d, n - 1)
    }
}

pub open spec fn node_diag(g: GraphModel, n: NodeModel) -> DiagModel {
    DiagModel {
        code: "unknown_node_type"@,
        message: "graph "@ + g.id + " node "@ + n.id + (" type "@ + n.node_type),
        entity_id: None,
    }
}

/// What is wrong with the first `n` nodes of a graph.
pub open spec fn nodes_diags(g: GraphModel, n: int) -> Seq<DiagModel>
    decreases n,
{
    if n <= 0 {
        Seq::empty()
    } else {
        nodes_diags(g, n - 1) + when(
            g.nodes[n - 1].node_type != "principled"@,
            node_diag(g, g.nodes[n - 1]),
        )
    }
}

/// What is wrong with the first `n` graphs.
pub open spec fn graphs_diags(d: DocumentModel, n: int) -> Seq<DiagModel>
    decreases n,
{
    if n <= 0 {
        Seq::empty()
    } else {
        graphs_diags(d, n - 1) + nodes_diags(d.graphs[n - 1], d.graphs[n - 1].nodes.len() as int)
    }
}

/// All that is wrong with a document, entities first.
pub open spec fn diagnosed(d: DocumentModel) -> Seq<DiagModel> {
    entities_diags(d, d.entities().len() as int) + graphs_diags(d, d.graphs.len() as int)
}

fn note(out: &mut Vec<ValidateDiag>, code: &str, message: String, id: Option<String>)
    ensures
        diag_views(final(out)@) == diag_views(old(out)@) + seq![
            DiagModel { code: code@, message: message@, entity_id: text_in(id) },
        ],
{
    let d = ValidateDiag { code: code.to_owned(), message, entity_id: id };
    proof {
        map_push(out@, d, |x: ValidateDiag| x@);
    }
    out.push(d);
}

/// There are no more different ids than entities.
pub(crate) proof fn ids_are_few(d: DocumentModel, s: Seq<Seq<char>>)
    requires
        s.no_duplicates(),
        forall|k: int| 0 <= k < s.len() ==> d.has(#[trigger] s[k]),
    ensures
        s.len() <= d.entities().len(),
{
    let es = d.entities();
    let ids = es.map_values(|e: EntityModel| e.id);
    s.unique_seq_to_set();
    vstd::seq_lib::seq_to_set_is_finite(ids);
    assert(s.to_set().subset_of(ids.to_set())) by {
        assert forall|x: Seq<char>| s.to_set().contains(x) implies ids.to_set().contains(x) by {
            let k = choose|k: int| 0 <= k < s.len() && s[k] == x;
            assert(d.has(s[k]));
            located_in_range(d.scenes, x, 0);
            let (a, b) = located(d.scenes, x, 0)->0;
            scene_entity_is_listed(d.scenes, a, b);
            let m = choose|m: int| 0 <= m < es.len() && es[m] == d.scenes[a].entities[b];
            assert(ids[m] == x);
        }
    }
    vstd::set_lib::lemma_len_subset(s.to_set(), ids.to_set());
    ids.lemma_cardinality_of_set();
}

/// As many different ids as there are steps: a chain without repetition is no longer than
/// the list of entities plus one.
proof fn chain_is_short(d: DocumentModel, seen: Seq<Seq<char>>)
    requires
        seen.no_duplicates(),
        forall|k: int| 0 <= k < seen.len() - 1 ==> d.has(#[trigger] seen[k]),
    ensures
        seen.len() <= d.entities().len() + 1,
{
    if seen.len() > 0 {
        let s = seen.drop_last();
        assert forall|k: int| 0 <= k < s.len() implies d.has(#[trigger] s[k]) by {
            assert(seen[k] == s[k]);
        }
        ids_are_few(d, s);
    }
}

impl Document {
    /// Whether the chain of parents from an id comes to one id twice.
    pub(crate) fn parent_cycle(&self, start: &str) -> (r: bool)
        ensures
            r == cyclic(self@, start@),
    {
        let mut seen: Vec<String> = Vec::new();
        let mut cur = Some(start.to_owned());
        let ghost d = self@;
        loop
            invariant
                d == self@,
                text_in(cur) == ancestor(d, start@, seen.len() as nat),
                texts(seen@).no_duplicates(),
                forall|k: nat|
                    k < seen.len() ==> #[trigger] ancestor(d, start@, k) == Some(
                        texts(seen@)[k as int],
                    ),
                forall|k: int| 0 <= k < seen.len() - 1 ==> d.has(#[trigger] texts(seen@)[k]),
                cur is Some && seen.len() > 0 ==> d.has(texts(seen@)[seen.len() - 1]),
            ensures
                ancestor(d, start@, seen.len() as nat) is None,
                texts(seen@).no_duplicates(),
                forall|k: nat|
                    k < seen.len() ==> #[trigger] ancestor(d, start@, k) == Some(
                        texts(seen@)[k as int],
                    ),
            decreases d.entities().len() + 1 - seen.len(),
        {
            match cur {
                None => {
                    break;
                },
                Some(id) => {
                    if holds(&seen, &id) {
                        proof {
                            let k = choose|k: int|
                                0 <= k < texts(seen@).len() && texts(seen@)[k] == id@;
                            assert(ancestor(d, start@, k as nat) == Some(id@));
                            assert(ancestor(d, start@, seen.len() as nat) == Some(id@));
                        }
                        return true;
                    }
                    let next = match self.find_entity(&id) {
                        None => None,
                        Some(e) => copy_text(&e.parent),
                    };
                    let ghost before = seen@;
                    seen.push(id);
                    proof {
                        map_push(before, id, |x: String| x@);
                        let s = texts(seen@);
                        assert(s == texts(before).push(id@));
                        assert(s.no_duplicates());
                        chain_is_short(d, s);
                        assert(ancestor(d, start@, seen.len() as nat) == text_in(next));
                        assert forall|k: nat| k < seen.len() implies #[trigger] ancestor(
                            d,
                            start@,
                            k,
                        ) == Some(s[k as int]) by {
                            if k < before.len() {
                                assert(s[k as int] == texts(before)[k as int]);
                            }
                        }
                        assert forall|k: int| 0 <= k < seen.len() - 1 implies d.has(
                            #[trigger] s[k],
                        ) by {
                            assert(s[k] == texts(before)[k]);
                        }
                    }
                    cur = next;
                },
            }
        }
        proof {
            let n = seen.len() as nat;
            assert forall|i: nat, j: nat|
                i < j && #[trigger] ancestor(d, start@, i) is Some && #[trigger] ancestor(
                    d,
                    start@,
                    j,
                ) == ancestor(d, start@, i) implies false by {
                chain_ends(d, start@, n, i);
                chain_ends(d, start@, n, j);
                assert(ancestor(d, start@, i) == Some(texts(seen@)[i as int]));
                assert(ancestor(d, start@, j) == Some(texts(seen@)[j as int]));
            }
        }
        false
    }

    fn entity_notes(&self, list: &Vec<&Entity>, i: usize, out: &mut Vec<ValidateDiag>)
        requires
            borrowed(list@) == self@.entities(),
            i < list.len(),
        ensures
            diag_views(final(out)@) == diag_views(old(out)@) + entity_diags(self@, i as int),
    {
        let e: &Entity = list[i];
        let ghost es = self@.entities();
        let ghost first = diag_views(out@);
        assert(es[i as int] == e@);
        let mut again = false;
        let mut k: usize = 0;
        while k < i
            invariant
                k <= i < list.len(),
                es == borrowed(list@),
                e@ == es[i as int],
                again == (exists|m: int| 0 <= m < k && (#[trigger] es[m]).id == es[i as int].id),
            decreases i - k,
        {
            assert(es[k as int] == list@[k as int]@);
            if same(&list[k].id, &e.id) {
                again = true;
            }
            k += 1;
        }
        if again {
            note(out, "duplicate_entity_id", cat2("duplicate id ", &e.id), Some(e.id.clone()));
        }
        let ghost a = diag_views(out@);
        if let Some(p) = &e.parent {
            if self.find_entity(p).is_none() {
                note(
                    out,
                    "missing_parent",
                    cat4(&e.id, " parent ", p, " missing"),
                    Some(e.id.clone()),
                );
            }
        }
        let ghost b = diag_views(out@);
        if let Some(gid) = &e.graph_id {
            if self.locate_graph(gid).is_none() {
                note(
                    out,
                    "missing_graph",
                    cat4(&e.id, " graph ", gid, " missing"),
                    Some(e.id.clone()),
                );
            }
        }
        let ghost c = diag_views(out@);
        if !recipe_known(&e.mesh.recipe) {
            note(
                out,
                "unknown_recipe",
                cat3(&e.id, " recipe ", &e.mesh.recipe),
                Some(e.id.clone()),
            );
        }
        let ghost d = diag_views(out@);
        if self.parent_cycle(&e.id) {
            note(out, "parent_cycle", cat2(&e.id, " parent cycle"), Some(e.id.clone()));
        }
        assert(diag_views(out@) =~= first + entity_diags(self@, i as int));
    }

    fn graph_notes(&self, p: usize, out: &mut Vec<ValidateDiag>)
        requires
            p < self.graphs.len(),
        ensures
            diag_views(final(out)@) == diag_views(old(out)@) + nodes_diags(
                self@.graphs[p as int],
                self@.graphs[p as int].nodes.len() as int,
            ),
    {
        let g: &MaterialGraph = &self.graphs[p];
        let ghost first = diag_views(out@);
        let mut n: usize = 0;
        assert(diag_views(out@) =~= first + nodes_diags(g@, 0));
        while n < g.nodes.len()
            invariant
                n <= g.nodes.len(),
                diag_views(out@) == first + nodes_diags(g@, n as int),
            decreases g.nodes.len() - n,
        {
            let node = &g.nodes[n];
            assert(g@.nodes[n as int] == node@);
            if !same(&node.node_type, "principled") {
                let head = cat4("graph ", &g.id, " node ", &node.id);
                let tail = cat2(" type ", &node.node_type);
                note(out, "unknown_node_type", cat2(&head, &tail), None);
            }
            n += 1;
            assert(diag_views(out@) =~= first + nodes_diags(g@, n as int));
        }
    }

    /// Every diagnostic of a document; it is valid where there is none.
    pub fn validate(&self) -> (r: ValidateResult)
        ensures
            diag_views(r.diagnostics@) == diagnosed(self@),
            r.ok == (diagnosed(self@).len() == 0),
    {
        let mut diagnostics: Vec<ValidateDiag> = Vec::new();
        let list = self.entities();
        assert(borrowed(list@).len() == list.len());
        let mut i: usize = 0;
        assert(diag_views(diagnostics@) =~= entities_diags(self@, 0));
        while i < list.len()
            invariant
                i <= list.len(),
                borrowed(list@) == self@.entities(),
                diag_views(diagnostics@) == entities_diags(self@, i as int),
            decreases list.len() - i,
        {
            self.entity_notes(&list, i, &mut diagnostics);
            i += 1;
        }
        let ghost first = diag_views(diagnostics@);
        let mut p: usize = 0;
        assert(diag_views(diagnostics@) =~= first + graphs_diags(self@, 0));
        while p < self.graphs.len()
            invariant
                p <= self.graphs.len(),
                diag_views(diagnostics@) == first + graphs_diags(self@, p as int),
            decreases self.graphs.len() - p,
        {
            self.graph_notes(p, &mut diagnostics);
            p += 1;
            assert(diag_views(diagnostics@) =~= first + graphs_diags(self@, p as int));
        }
        assert(diag_views(diagnostics@).len() == diagnostics.len());
        ValidateResult { ok: diagnostics.len() == 0, diagnostics }
    }
}

/// A chain that has ended stays ended.
proof fn chain_ends(d: DocumentModel, start: Seq<char>, n: nat, k: nat)
    requires
        ancestor(d, start, n) is None,
    ensures
        k >= n ==> ancestor(d, start, k) is None,
    decreases k,
{
    if k > n {
        chain_ends(d, start, n, (k - 1) as nat);
    }
}

/// Nothing about an entity is wrong: its id is its own, parent and graph exist, its recipe is
/// known, and its chain of parents ends.
pub open spec fn entity_is_fine(d: DocumentModel, i: int) -> bool {
    let e = d.entities()[i];
    &&& !repeated(d.entities(), i)
    &&& (e.parent matches Some(p) ==> d.has(p))
    &&& (e.graph_id matches Some(g) ==> d.has_graph(g))
    &&& known_recipe(e.recipe)
    &&& !cyclic(d, e.id)
}

/// Every node of a graph is of the one type that there is.
pub open spec fn graph_is_fine(g: GraphModel) -> bool {
    forall|n: int|
        0 <= n < g.nodes.len() ==> (#[trigger] g.nodes[n]).node_type == "principled"@
}

proof fn entities_without_fault(d: DocumentModel, n: int)
    requires
        0 <= n <= d.entities().len(),
    ensures
        entities_diags(d, n).len() == 0 <==> forall|i: int|
            0 <= i < n ==> #[trigger] entity_is_fine(d, i),
    decreases n,
{
    if n > 0 {
        entities_without_fault(d, n - 1);
        assert(entity_diags(d, n - 1).len() == 0 <==> entity_is_fine(d, n - 1));
    }
}

proof fn nodes_without_fault(g: GraphModel, n: int)
    requires
        0 <= n <= g.nodes.len(),
    ensures
        nodes_diags(g, n).len() == 0 <==> forall|i: int|
            0 <= i < n ==> (#[trigger] g.nodes[i]).node_type == "principled"@,
    decreases n,
{
    if n > 0 {
        nodes_without_fault(g, n - 1);
    }
}

proof fn graphs_without_fault(d: DocumentModel, n: int)
    requires
        0 <= n <= d.graphs.len(),
    ensures
        graphs_diags(d, n).len() == 0 <==> forall|i: int|
            0 <= i < n ==> graph_is_fine(#[trigger] d.graphs[i]),
    decreases n,
{
    if n > 0 {
        graphs_without_fault(d, n - 1);
        nodes_without_fault(d.graphs[n - 1], d.graphs[n - 1].nodes.len() as int);
    }
}

/// A document is without diagnostics exactly if nothing is wrong with any entity or graph.
pub proof fn valid_means_without_fault(d: DocumentModel)
    ensures
        diagnosed(d).len() == 0 <==> (forall|i: int|
            0 <= i < d.entities().len() ==> #[trigger] entity_is_fine(d, i)) && (forall|i: int|
            0 <= i < d.graphs.len() ==> graph_is_fine(#[trigger] d.graphs[i])),
{
    entities_without_fault(d, d.entities().len() as int);
    graphs_without_fault(d, d.graphs.len() as int);
}

/// In a valid document no chain of parents runs in a circle.
pub proof fn valid_documents_are_acyclic(d: DocumentModel)
    requires
        diagnosed(d).len() == 0,
    ensures
        acyclic(d),
{
    valid_means_without_fault(d);
    assert forall|i: int| 0 <= i < d.entities().len() implies !cyclic(
        d,
        (#[trigger] d.entities()[i]).id,
    ) by {
        assert(entity_is_fine(d, i));
    }
}

} // verus!
