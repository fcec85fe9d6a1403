//! Material graphs as a glTF file carries them.

use crate::document::{graph_views, node_views, GraphModel, GraphNode, MaterialGraph, NodeModel};
use crate::import::{items, read_single, read_text, readable, reads, single, text_at};
use crate::json::{last_member, JsonModel};
use crate::lists::map_push;
use crate::numeric::Real;
use crate::table::Table;
use crate::text::texts;
use crate::value::{member, member_names, names_of, tree_in, tree_of, trees};
use vstd::prelude::*;

verus! {

/// Field number `i` of `n`: of an object by its name, of a list of all fields by its place.
pub open spec fn field_of(j: JsonModel, i: int, n: int, name: Seq<char>) -> Option<JsonModel> {
    match j {
        JsonModel::List(s) => if s.len() == n {
            Some(s[i])
        } else {
            None
        },
        _ => j.member(name),
    }
}

/// Every member of an object is a number.
pub open spec fn all_numbers(
    ms: Seq<(Seq<char>, JsonModel)>,
    k: spec_fn(Seq<char>) -> Real,
) -> bool {
    forall|name: Seq<char>| #[trigger]
        last_member(ms, name) is Some ==> single(last_member(ms, name)->0, k) is Some
}

/// The numbers that the members of an object are.
pub open spec fn numbers_in(
    ms: Seq<(Seq<char>, JsonModel)>,
    k: spec_fn(Seq<char>) -> Real,
) -> Map<Seq<char>, Real> {
    Map::new(
        |name: Seq<char>| last_member(ms, name) is Some,
        |name: Seq<char>| single(last_member(ms, name)->0, k)->0,
    )
}

/// The sockets that an object of numbers holds; none where it is anything else.
pub open spec fn sockets_of(o: Option<JsonModel>, k: spec_fn(Seq<char>) -> Real) -> Option<
    Map<Seq<char>, Real>,
> {
    match o {
        Some(JsonModel::Object(ms)) => if all_numbers(ms, k) {
            Some(numbers_in(ms, k))
        } else {
            None
        },
        _ => None,
    }
}

/// The node that a value describes: it needs an id, a type and sockets.
pub open spec fn node_in(j: JsonModel, k: spec_fn(Seq<char>) -> Real) -> Option<NodeModel> {
    let id = text_at(field_of(j, 0, 3, "id"@));
    let node_type = text_at(field_of(j, 1, 3, "type"@));
    let sockets = sockets_of(field_of(j, 2, 3, "sockets"@), k);
    if id is Some && node_type is Some && sockets is Some {
        Some(NodeModel { id: id->0, node_type: node_type->0, sockets: sockets->0 })
    } else {
        None
    }
}

/// The nodes that values describe; none at all where one describes none.
pub open spec fn nodes_in(s: Seq<JsonModel>, n: int, k: spec_fn(Seq<char>) -> Real) -> Option<
    Seq<NodeModel>,
>
    decreases n,
{
    if n <= 0 {
        Some(Seq::empty())
    } else {
        match (nodes_in(s, n - 1, k), node_in(s[n - 1], k)) {
            (Some(before), Some(x)) => Some(before.push(x)),
            _ => None,
        }
    }
}

/// The graph that a value describes: it needs an id and a list of nodes.
pub open spec fn graph_in(j: JsonModel, k: spec_fn(Seq<char>) -> Real) -> Option<GraphModel> {
    match (text_at(field_of(j, 0, 2, "id"@)), field_of(j, 1, 2, "nodes"@)) {
        (Some(id), Some(JsonModel::List(s))) => match nodes_in(s, s.len() as int, k) {
            Some(nodes) => Some(GraphModel { id, nodes }),
            None => None,
        },
        _ => None,
    }
}

/// The graphs that values describe; none at all where one describes none.
pub open spec fn graphs_in(s: Seq<JsonModel>, n: int, k: spec_fn(Seq<char>) -> Real) -> Option<
    Seq<GraphModel>,
>
    decreases n,
{
    if n <= 0 {
        Some(Seq::empty())
    } else {
        match (graphs_in(s, n - 1, k), graph_in(s[n - 1], k)) {
            (Some(before), Some(x)) => Some(before.push(x)),
            _ => None,
        }
    }
}

/// The graphs of a list; none of anything that is no list of graphs.
pub open spec fn graphs_at(o: Option<JsonModel>, k: spec_fn(Seq<char>) -> Real) -> Seq<GraphModel> {
    match o {
        Some(JsonModel::List(s)) => match graphs_in(s, s.len() as int, k) {
            Some(gs) => gs,
            None => Seq::empty(),
        },
        _ => Seq::empty(),
    }
}

/// A member has a name exactly if the name occurs.
pub(crate) proof fn named_member(ms: Seq<(Seq<char>, JsonModel)>, name: Seq<char>)
    ensures
        last_member(ms, name) is Some <==> names_of(ms).contains(name),
    decreases ms.len(),
{
    if ms.len() > 0 {
        let rest = ms.drop_last();
        named_member(rest, name);
        assert(names_of(ms) =~= names_of(rest).push(ms.last().0));
        if ms.last().0 == name {
            assert(names_of(ms)[ms.len() - 1] == name);
        } else {
            if names_of(rest).contains(name) {
                let i = choose|i: int| 0 <= i < rest.len() && names_of(rest)[i] == name;
                assert(names_of(ms)[i] == name);
            }
            if names_of(ms).contains(name) {
                let i = choose|i: int| 0 <= i < ms.len() && names_of(ms)[i] == name;
                assert(names_of(rest)[i] == name);
            }
        }
    }
}

fn field<'a>(v: &'a serde_json::Value, i: usize, n: usize, name: &str) -> (r: Option<
    &'a serde_json::Value,
>)
    requires
        i < n,
    ensures
        tree_in(r) == field_of(tree_of(*v), i as int, n as int, name@),
{
    match v.as_array() {
        Some(a) => {
            assert(trees(a@).len() == a.len());
            if a.len() == n {
                assert(trees(a@)[i as int] == tree_of(a@[i as int]));
                Some(&a[i])
            } else {
                None
            }
        },
        None => member(v, name),
    }
}

/// The first names are numbers, and a table holds them.
spec fn gathered(
    t: Map<Seq<char>, Real>,
    ms: Seq<(Seq<char>, JsonModel)>,
    n: int,
    k: spec_fn(Seq<char>) -> Real,
) -> bool {
    let names = names_of(ms);
    &&& forall|x: Seq<char>| #[trigger]
        t.dom().contains(x) <==> names.take(n).contains(x)
    &&& forall|x: Seq<char>| #[trigger]
        t.dom().contains(x) ==> single(last_member(ms, x)->0, k) == Some(t[x])
}

proof fn one_more_number(
    t: Map<Seq<char>, Real>,
    ms: Seq<(Seq<char>, JsonModel)>,
    n: int,
    x: Real,
    k: spec_fn(Seq<char>) -> Real,
)
    requires
        0 <= n < ms.len(),
        gathered(t, ms, n, k),
        single(last_member(ms, ms[n].0)->0, k) == Some(x),
    ensures
        gathered(t.insert(ms[n].0, x), ms, n + 1, k),
{
    let names = names_of(ms);
    let u = t.insert(ms[n].0, x);
    let before = names.take(n);
    let after = names.take(n + 1);
    assert(after =~= before.push(names[n]));
    assert forall|y: Seq<char>| #[trigger] u.dom().contains(y) <==> after.contains(y) by {
        if before.contains(y) {
            let i = choose|i: int| 0 <= i < before.len() && before[i] == y;
            assert(after[i] == y);
        }
        assert(after[n] == ms[n].0);
        if after.contains(y) && y != ms[n].0 {
            let i = choose|i: int| 0 <= i < after.len() && after[i] == y;
            assert(before[i] == y);
        }
        assert(t.dom().contains(y) <==> before.contains(y));
    }
    assert forall|y: Seq<char>| #[trigger] u.dom().contains(y) implies single(
        last_member(ms, y)->0,
        k,
    ) == Some(u[y]) by {
        if y != ms[n].0 {
            assert(t.dom().contains(y));
        }
    }
}

proof fn all_gathered(
    t: Map<Seq<char>, Real>,
    ms: Seq<(Seq<char>, JsonModel)>,
    k: spec_fn(Seq<char>) -> Real,
)
    requires
        gathered(t, ms, ms.len() as int, k),
    ensures
        all_numbers(ms, k),
        t == numbers_in(ms, k),
{
    let names = names_of(ms);
    assert(names.take(ms.len() as int) =~= names);
    assert forall|x: Seq<char>| #[trigger] last_member(ms, x) is Some implies single(
        last_member(ms, x)->0,
        k,
    ) is Some by {
        named_member(ms, x);
        assert(t.dom().contains(x));
    }
    assert forall|x: Seq<char>| #[trigger]
        t.dom().contains(x) <==> numbers_in(ms, k).dom().contains(x) by {
        named_member(ms, x);
    }
    assert(t =~= numbers_in(ms, k));
}

fn read_sockets<N: Fn(&str) -> Real>(o: Option<&serde_json::Value>, reader: &N) -> (r: Option<
    Table<Real>,
>)
    requires
        readable(*reader),
    ensures
        forall|k: spec_fn(Seq<char>) -> Real| #[trigger]
            reads(*reader, k) ==> sockets_of(tree_in(o), k) == (match r {
                Some(t) => Some(t@),
                None => None,
            }),
{
    let v = match o {
        None => return None,
        Some(v) => v,
    };
    let names = match member_names(v) {
        None => return None,
        Some(names) => names,
    };
    let ghost ms = tree_of(*v)->Object_0;
    let mut t: Table<Real> = Table::new();
    let mut i: usize = 0;
    assert(names_of(ms).take(0) =~= Seq::<Seq<char>>::empty());
    assert(texts(names@).len() == names.len() && names_of(ms).len() == ms.len());
    while i < names.len()
        invariant
            i <= names.len(),
            readable(*reader),
            tree_in(o) == Some(JsonModel::Object(ms)),
            tree_of(*v) == JsonModel::Object(ms),
            texts(names@) == names_of(ms),
            names.len() == ms.len(),
            forall|k: spec_fn(Seq<char>) -> Real| #[trigger]
                reads(*reader, k) ==> gathered(t@, ms, i as int, k),
        decreases names.len() - i,
    {
        assert(texts(names@)[i as int] == names@[i as int]@);
        assert(names_of(ms)[i as int] == ms[i as int].0);
        proof {
            named_member(ms, ms[i as int].0);
            assert(names_of(ms).contains(ms[i as int].0));
        }
        let x = match member(v, &names[i]) {
            None => return None,
            Some(x) => x,
        };
        match read_single(x, reader) {
            None => {
                assert forall|k: spec_fn(Seq<char>) -> Real| #[trigger]
                    reads(*reader, k) implies sockets_of(tree_in(o), k) is None by {
                    assert(single(last_member(ms, ms[i as int].0)->0, k) is None);
                }
                return None;
            },
            Some(value) => {
                proof {
                    assert forall|k: spec_fn(Seq<char>) -> Real| #[trigger]
                        reads(*reader, k) implies gathered(
                        t@.insert(ms[i as int].0, value),
                        ms,
                        i + 1,
                        k,
                    ) by {
                        one_more_number(t@, ms, i as int, value, k);
                    }
                }
                t.insert(&names[i], value);
            },
        }
        i += 1;
    }
    proof {
        assert forall|k: spec_fn(Seq<char>) -> Real| #[trigger] reads(*reader, k) implies sockets_of(
            tree_in(o),
            k,
        ) == Some(t@) by {
            all_gathered(t@, ms, k);
        }
    }
    Some(t)
}

fn read_graph_node<N: Fn(&str) -> Real>(v: &serde_json::Value, reader: &N) -> (r: Option<GraphNode>)
    requires
        readable(*reader),
    ensures
        forall|k: spec_fn(Seq<char>) -> Real| #[trigger]
            reads(*reader, k) ==> node_in(tree_of(*v), k) == (match r {
                Some(n) => Some(n@),
                None => None,
            }),
{
    let id = read_text(field(v, 0, 3, "id"));
    let node_type = read_text(field(v, 1, 3, "type"));
    let sockets = read_sockets(field(v, 2, 3, "sockets"), reader);
    match (id, node_type, sockets) {
        (Some(id), Some(node_type), Some(sockets)) => Some(GraphNode { id, node_type, sockets }),
        _ => None,
    }
}

proof fn missing_node_stays(s: Seq<JsonModel>, i: int, n: int, k: spec_fn(Seq<char>) -> Real)
    requires
        0 < i <= n,
        nodes_in(s, i, k) is None,
    ensures
        nodes_in(s, n, k) is None,
    decreases n - i,
{
    if i < n {
        missing_node_stays(s, i + 1, n, k);
    }
}

fn read_graph_nodes<N: Fn(&str) -> Real>(list: &Vec<serde_json::Value>, reader: &N) -> (r: Option<
    Vec<GraphNode>,
>)
    requires
        readable(*reader),
    ensures
        forall|k: spec_fn(Seq<char>) -> Real| #[trigger]
            reads(*reader, k) ==> nodes_in(trees(list@), list.len() as int, k) == (match r {
                Some(ns) => Some(node_views(ns@)),
                None => None,
            }),
{
    let mut out: Vec<GraphNode> = Vec::new();
    let mut i: usize = 0;
    assert(node_views(out@) =~= Seq::<NodeModel>::empty());
    while i < list.len()
        invariant
            i <= list.len(),
            readable(*reader),
            forall|k: spec_fn(Seq<char>) -> Real| #[trigger]
                reads(*reader, k) ==> nodes_in(trees(list@), i as int, k) == Some(
                    node_views(out@),
                ),
        decreases list.len() - i,
    {
        assert(trees(list@)[i as int] == tree_of(list@[i as int]));
        match read_graph_node(&list[i], reader) {
            None => {
                assert forall|k: spec_fn(Seq<char>) -> Real| #[trigger]
                    reads(*reader, k) implies nodes_in(
                    trees(list@),
                    list.len() as int,
                    k,
                ) is None by {
                    missing_node_stays(trees(list@), i + 1, list.len() as int, k);
                }
                return None;
            },
            Some(n) => {
                proof {
                    map_push(out@, n, |x: GraphNode| x@);
                }
                out.push(n);
            },
        }
        i += 1;
    }
    Some(out)
}

fn read_graph<N: Fn(&str) -> Real>(v: &serde_json::Value, reader: &N) -> (r: Option<MaterialGraph>)
    requires
        readable(*reader),
    ensures
        forall|k: spec_fn(Seq<char>) -> Real| #[trigger]
            reads(*reader, k) ==> graph_in(tree_of(*v), k) == (match r {
                Some(g) => Some(g@),
                None => None,
            }),
{
    let id = match read_text(field(v, 0, 2, "id")) {
        None => return None,
        Some(id) => id,
    };
    let list = match items(field(v, 1, 2, "nodes")) {
        None => return None,
        Some(list) => list,
    };
    assert(trees(list@).len() == list.len());
    match read_graph_nodes(list, reader) {
        None => None,
        Some(nodes) => Some(MaterialGraph { id, nodes }),
    }
}

proof fn missing_graph_stays(s: Seq<JsonModel>, i: int, n: int, k: spec_fn(Seq<char>) -> Real)
    requires
        0 < i <= n,
        graphs_in(s, i, k) is None,
    ensures
        graphs_in(s, n, k) is None,
    decreases n - i,
{
    if i < n {
        missing_graph_stays(s, i + 1, n, k);
    }
}

/// Reads the graphs of a list. Where one of them cannot be read, there are none.
pub(crate) fn read_graphs<N: Fn(&str) -> Real>(o: Option<&serde_json::Value>, reader: &N) -> (r:
    Vec<MaterialGraph>)
    requires
        readable(*reader),
    ensures
        forall|k: spec_fn(Seq<char>) -> Real| #[trigger]
            reads(*reader, k) ==> graphs_at(tree_in(o), k) == graph_views(r@),
{
    let none: Vec<MaterialGraph> = Vec::new();
    assert(graph_views(none@) =~= Seq::<GraphModel>::empty());
    let list = match items(o) {
        None => return none,
        Some(list) => list,
    };
    assert(trees(list@).len() == list.len());
    let mut out: Vec<MaterialGraph> = Vec::new();
    let mut i: usize = 0;
    assert(graph_views(out@) =~= Seq::<GraphModel>::empty());
    while i < list.len()
        invariant
            i <= list.len(),
            readable(*reader),
            tree_in(o) == Some(JsonModel::List(trees(list@))),
            trees(list@).len() == list.len(),
            graph_views(none@) == Seq::<GraphModel>::empty(),
            forall|k: spec_fn(Seq<char>) -> Real| #[trigger]
                reads(*reader, k) ==> graphs_in(trees(list@), i as int, k) == Some(
                    graph_views(out@),
                ),
        decreases list.len() - i,
    {
        assert(trees(list@)[i as int] == tree_of(list@[i as int]));
        match read_graph(&list[i], reader) {
            None => {
                assert forall|k: spec_fn(Seq<char>) -> Real| #[trigger]
                    reads(*reader, k) implies graphs_at(tree_in(o), k) == graph_views(none@) by {
                    missing_graph_stays(trees(list@), i + 1, list.len() as int, k);
                }
                return none;
            },
            Some(g) => {
                proof {
                    map_push(out@, g, |x: MaterialGraph| x@);
                }
                out.push(g);
            },
        }
        i += 1;
    }
    out
}

} // verus!
