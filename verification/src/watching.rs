//! Cameras, the play clock and diagnostics, seen from outside.

use crate::camera::{ViewMode, ViewportCameras};
use crate::change::{grouped, member_worlds, resolved, translation_sum, Session};
use crate::document::{world_of, world_place, DocumentModel};
use crate::exact::{exact, finite3, sums};
use crate::feed::{EventModel, FeedModel};
use crate::formula::retreat;
use crate::mailbox::{centroid, directed, framed_on, places, reach, total};
use crate::motion::exact_on_points;
use crate::numeric::{zero, Answer, Calc, Mat4, Real, Vec3};
use crate::play::{played, PlayState};
use crate::validate::{
    cyclic, diagnosed, entities_diags, entity_diags, graphs_diags, repeated, DiagModel,
};
use crate::worth::{choices_are_by_worth, finite, names_say_worth, order_is_by_worth, unit, units};
use vstd::prelude::*;

verus! {

/// The sum of a coordinate over points.
pub open spec fn sum_of(points: Seq<Vec3>, n: int, part: spec_fn(Vec3) -> int) -> int
    decreases n,
{
    if n <= 0 {
        0
    } else {
        sum_of(points, n - 1, part) + part(points[n - 1])
    }
}

proof fn total_adds(points: Seq<Vec3>, n: int, g: spec_fn(Calc) -> Answer)
    requires
        exact_on_points(g),
        0 <= n <= points.len(),
        finite3(total(points, n, g)),
    ensures
        units(total(points, n, g).x) == sum_of(points, n, |v: Vec3| units(v.x)),
        units(total(points, n, g).y) == sum_of(points, n, |v: Vec3| units(v.y)),
        units(total(points, n, g).z) == sum_of(points, n, |v: Vec3| units(v.z)),
    decreases n,
{
    names_say_worth();
    if n > 0 {
        let a = total(points, n - 1, g);
        let b = points[n - 1];
        let r = g(Calc::Sum(a, b)).point;
        assert(sums(r.x, a.x, b.x) && sums(r.y, a.y, b.y) && sums(r.z, a.z, b.z));
        total_adds(points, n - 1, g);
    }
}

/// The centre of places is their mean.
pub proof fn centroid_is_the_mean(points: Seq<Vec3>, g: spec_fn(Calc) -> Answer)
    requires
        exact_on_points(g),
        0 < points.len() <= u64::MAX,
        finite3(centroid(points, g)),
    ensures
        ({
            let c = centroid(points, g);
            let n = points.len() as int;
            &&& units(c.x) * n == sum_of(points, n, |v: Vec3| units(v.x))
            &&& units(c.y) * n == sum_of(points, n, |v: Vec3| units(v.y))
            &&& units(c.z) * n == sum_of(points, n, |v: Vec3| units(v.z))
        }),
{
    let n = points.len() as int;
    let t = total(points, n, g);
    let r = g(Calc::Shrink(t, n as u64)).point;
    assert(finite(r.x) && finite(r.y) && finite(r.z));
    assert(finite3(t));
    total_adds(points, n, g);
}

/// The reach of places around a centre is that of the farthest one.
pub proof fn reach_is_the_farthest(points: Seq<Vec3>, c: Vec3, n: int, g: spec_fn(Calc) -> Answer)
    requires
        0 < n <= points.len(),
        forall|k: int|
            0 <= k < points.len() ==> finite(
                g(Calc::Distance(#[trigger] points[k], c)).value,
            ) && units(g(Calc::Distance(points[k], c)).value) >= 0,
    ensures
        finite(reach(points, c, n, g)),
        forall|k: int|
            0 <= k < n ==> units(g(Calc::Distance(#[trigger] points[k], c)).value) <= units(
                reach(points, c, n, g),
            ),
        exists|k: int|
            0 <= k < n && units(g(Calc::Distance(#[trigger] points[k], c)).value) == units(
                reach(points, c, n, g),
            ),
    decreases n,
{
    names_say_worth();
    reveal_with_fuel(reach, 2);
    let far = g(Calc::Distance(points[n - 1], c)).value;
    if n > 1 {
        reach_is_the_farthest(points, c, n - 1, g);
        choices_are_by_worth(reach(points, c, n - 1, g), far, zero());
        let k = choose|k: int|
            0 <= k < n - 1 && units(g(Calc::Distance(#[trigger] points[k], c)).value) == units(
                reach(points, c, n - 1, g),
            );
        assert(0 <= k < n);
    } else {
        choices_are_by_worth(zero(), far, zero());
    }
}

/// A camera request leaves what it does not name: without entities to frame the authored camera
/// stays, without a place to look from or at the review camera does, and without a mode the window
/// follows the camera it followed. What it names it sets: the mode of that name, and the review
/// camera. An unknown mode changes neither the mode nor the review camera.
pub proof fn camera_requests_set_what_they_name(
    c: ViewportCameras,
    d: DocumentModel,
    mode: Option<Seq<char>>,
    eye: Option<Vec3>,
    target: Option<Vec3>,
    ids: Seq<Seq<char>>,
    g: spec_fn(Calc) -> Answer,
)
    ensures
        ({
            let r = directed(c, d, mode, eye, target, ids, g);
            let known = mode is None || mode == Some("authored"@) || mode == Some("review"@);
            &&& (forall|k: int|
                0 <= k < ids.len() ==> world_place(d, #[trigger] ids[k], g) is None)
                ==> r.authored == c.authored
            &&& mode is None ==> r.mode == c.mode
            &&& mode == Some("authored"@) ==> r.mode == ViewMode::Authored
            &&& mode == Some("review"@) ==> r.mode == ViewMode::Review
            &&& known && eye is Some ==> Some(r.review.eye) == eye
            &&& known && target is Some ==> Some(r.review.target) == target
            &&& eye is None ==> r.review.eye == c.review.eye
            &&& target is None ==> r.review.target == c.review.target
            &&& !known ==> r.mode == c.mode && r.review == c.review
            &&& r.authored.fov_y_deg == c.authored.fov_y_deg && r.authored.up == c.authored.up
            &&& r.review.fov_y_deg == c.review.fov_y_deg && r.review.up == c.review.up
        }),
{
    reveal_strlit("authored");
    reveal_strlit("review");
    assert("authored"@.len() != "review"@.len());
    if forall|k: int| 0 <= k < ids.len() ==> world_place(d, #[trigger] ids[k], g) is None {
        no_places(d, ids, g);
    }
}

proof fn no_places(d: DocumentModel, ids: Seq<Seq<char>>, g: spec_fn(Calc) -> Answer)
    requires
        forall|k: int| 0 <= k < ids.len() ==> world_place(d, #[trigger] ids[k], g) is None,
    ensures
        places(d, ids, g).len() == 0,
    decreases ids.len(),
{
    if ids.len() > 0 {
        let front = ids.drop_last();
        assert forall|k: int| 0 <= k < front.len() implies world_place(
            d,
            #[trigger] front[k],
            g,
        ) is None by {
            assert(front[k] == ids[k]);
        }
        no_places(d, front, g);
        assert(ids.last() == ids[ids.len() - 1]);
    }
}

/// Framing entities turns the authored camera to their centre.
pub proof fn framing_looks_at_the_centre(
    c: ViewportCameras,
    d: DocumentModel,
    ids: Seq<Seq<char>>,
    g: spec_fn(Calc) -> Answer,
)
    requires
        places(d, ids, g).len() > 0,
    ensures
        framed_on(c, d, ids, g).authored.target == centroid(places(d, ids, g), g),
        framed_on(c, d, ids, g).review == c.review,
        framed_on(c, d, ids, g).mode == c.mode,
{
}

/// Playing runs the clock, pausing holds it, and stopping puts it back to nought; seeking goes to
/// the time that is asked for, as far as there is one, and a step goes on by one twenty-fourth of
/// a second and holds.
pub proof fn clock_does_what_it_is_told(s: PlayState, t: Real, g: spec_fn(Calc) -> Answer)
    requires
        exact(g),
        finite(s.time) && finite(s.duration) && finite(t),
        units(s.duration) >= 0,
    ensures
        played(s, "play"@, None, g) matches Ok(r) && r.playing && !r.paused && r.time == s.time,
        played(s, "enter"@, None, g) == played(s, "play"@, None, g),
        played(s, "stop"@, None, g) matches Ok(r) && !r.playing && !r.paused && units(r.time) == 0,
        s.playing ==> (played(s, "pause"@, None, g) matches Ok(r) && !r.playing && r.paused
            && r.time == s.time),
        !s.playing ==> played(s, "pause"@, None, g) == Ok::<PlayState, Seq<char>>(s),
        played(s, "seek"@, Some(t), g) matches Ok(r) && r.playing == s.playing && r.paused
            == s.paused && units(r.time) == (if units(t) < 0 {
            0
        } else if units(s.duration) < units(t) {
            units(s.duration)
        } else {
            units(t)
        }),
        finite(g(Calc::Add(s.time, Real { bits: 0x3d2a_aaab })).value) ==> (played(
            s,
            "step"@,
            None,
            g,
        ) matches Ok(r) && !r.playing && r.paused && {
            let next = units(s.time) + units(Real { bits: 0x3d2a_aaab });
            units(r.time) == (if units(s.duration) < next {
                units(s.duration)
            } else {
                next
            })
        }),
{
    names_say_worth();
    reveal_strlit("play");
    reveal_strlit("enter");
    reveal_strlit("stop");
    reveal_strlit("pause");
    reveal_strlit("seek");
    reveal_strlit("step");
    assert("play"@.len() == 4 && "enter"@.len() == 5 && "stop"@.len() == 4 && "pause"@.len() == 5
        && "seek"@.len() == 4 && "step"@.len() == 4);
    assert("play"@[0] == 'p' && "enter"@[0] == 'e' && "stop"@[1] == 't' && "stop"@[2] == 'o'
        && "pause"@[0] == 'p' && "seek"@[1] == 'e' && "step"@[2] == 'e' && "step"@[1] == 't');
    assert("stop"@[0] == 's' && "seek"@[0] == 's' && "step"@[0] == 's');
    choices_are_by_worth(t, zero(), s.duration);
    order_is_by_worth(t, zero());
    order_is_by_worth(s.duration, t);
    let n = g(Calc::Add(s.time, Real { bits: 0x3d2a_aaab })).value;
    if finite(n) {
        assert(sums(n, s.time, Real { bits: 0x3d2a_aaab }));
        choices_are_by_worth(n, s.duration, zero());
    }
}

proof fn parts_of_a_sum<A>(a: Seq<A>, b: Seq<A>, x: A)
    ensures
        (a + b).contains(x) <==> a.contains(x) || b.contains(x),
{
    let s = a + b;
    if s.contains(x) {
        let k = choose|k: int| 0 <= k < s.len() && s[k] == x;
        if k < a.len() {
            assert(a[k] == x);
        } else {
            assert(b[k - a.len()] == x);
        }
    }
    if a.contains(x) {
        let k = choose|k: int| 0 <= k < a.len() && a[k] == x;
        assert(s[k] == x);
    }
    if b.contains(x) {
        let k = choose|k: int| 0 <= k < b.len() && b[k] == x;
        assert(s[a.len() + k] == x);
    }
}

proof fn fault_is_listed(d: DocumentModel, n: int, i: int, x: DiagModel)
    requires
        0 <= i < n <= d.entities().len(),
        entity_diags(d, i).contains(x),
    ensures
        entities_diags(d, n).contains(x),
    decreases n,
{
    parts_of_a_sum(entities_diags(d, n - 1), entity_diags(d, n - 1), x);
    if i < n - 1 {
        fault_is_listed(d, n - 1, i, x);
    }
}

/// What a diagnosis says of an entity under a code.
pub open spec fn blames(d: DocumentModel, code: Seq<char>, id: Seq<char>) -> bool {
    exists|k: int|
        0 <= k < diagnosed(d).len() && (#[trigger] diagnosed(d)[k]).code == code && diagnosed(
            d,
        )[k].entity_id == Some(id)
}

/// Every fault of an entity is told under its own code and with the entity's id: an id that was
/// used before, a parent or a graph that is not there, an unknown recipe, or a chain of parents
/// that runs in a circle.
pub proof fn faults_are_told_by_name(d: DocumentModel, i: int)
    requires
        0 <= i < d.entities().len(),
    ensures
        ({
            let e = d.entities()[i];
            &&& (exists|k: int| 0 <= k < i && (#[trigger] d.entities()[k]).id == e.id) ==> blames(
                d,
                "duplicate_entity_id"@,
                e.id,
            )
            &&& (e.parent matches Some(p) && !d.has(p)) ==> blames(d, "missing_parent"@, e.id)
            &&& (e.graph_id matches Some(x) && !d.has_graph(x)) ==> blames(
                d,
                "missing_graph"@,
                e.id,
            )
            &&& e.recipe != "box"@ && e.recipe != "plane"@ && e.recipe != "sphere"@ && e.recipe
                != "empty"@ ==> blames(d, "unknown_recipe"@, e.id)
            &&& cyclic(d, e.id) ==> blames(d, "parent_cycle"@, e.id)
        }),
{
    let e = d.entities()[i];
    let a = crate::validate::when(
        repeated(d.entities(), i),
        DiagModel {
            code: "duplicate_entity_id"@,
            message: "duplicate id "@ + e.id,
            entity_id: Some(e.id),
        },
    );
    let b = crate::validate::when(
        e.parent is Some && !d.has(e.parent->0),
        DiagModel {
            code: "missing_parent"@,
            message: e.id + " parent "@ + e.parent->0 + " missing"@,
            entity_id: Some(e.id),
        },
    );
    let c = crate::validate::when(
        e.graph_id is Some && !d.has_graph(e.graph_id->0),
        DiagModel {
            code: "missing_graph"@,
            message: e.id + " graph "@ + e.graph_id->0 + " missing"@,
            entity_id: Some(e.id),
        },
    );
    let f = crate::validate::when(
        !crate::document::known_recipe(e.recipe),
        DiagModel {
            code: "unknown_recipe"@,
            message: e.id + " recipe "@ + e.recipe,
            entity_id: Some(e.id),
        },
    );
    let h = crate::validate::when(
        cyclic(d, e.id),
        DiagModel {
            code: "parent_cycle"@,
            message: e.id + " parent cycle"@,
            entity_id: Some(e.id),
        },
    );
    assert(entity_diags(d, i) == a + b + c + f + h);
    if a.len() > 0 {
        told_fault(d, i, a, b + c + f + h, Seq::empty());
    }
    if b.len() > 0 {
        told_fault(d, i, b, c + f + h, a);
    }
    if c.len() > 0 {
        told_fault(d, i, c, f + h, a + b);
    }
    if f.len() > 0 {
        told_fault(d, i, f, h, a + b + c);
    }
    if h.len() > 0 {
        told_fault(d, i, h, Seq::empty(), a + b + c + f);
    }
}

proof fn told_fault(
    d: DocumentModel,
    i: int,
    part: Seq<DiagModel>,
    after: Seq<DiagModel>,
    before: Seq<DiagModel>,
)
    requires
        0 <= i < d.entities().len(),
        part.len() == 1,
        entity_diags(d, i) =~= before + part + after,
        part[0].entity_id == Some(d.entities()[i].id),
    ensures
        blames(d, part[0].code, d.entities()[i].id),
{
    let x = part[0];
    assert(part.contains(x));
    parts_of_a_sum(before, part, x);
    parts_of_a_sum(before + part, after, x);
    let n = d.entities().len() as int;
    fault_is_listed(d, n, i, x);
    parts_of_a_sum(entities_diags(d, n), graphs_diags(d, d.graphs.len() as int), x);
    let k = choose|k: int| 0 <= k < diagnosed(d).len() && diagnosed(d)[k] == x;
    assert(diagnosed(d)[k].code == x.code);
}

proof fn translations_add(
    worlds: Seq<(Seq<char>, Mat4)>,
    n: int,
    g: spec_fn(Calc) -> Answer,
)
    requires
        exact_on_points(g),
        0 <= n <= worlds.len(),
        finite3(translation_sum(worlds, n, g)),
    ensures
        ({
            let ps = Seq::new(
                worlds.len(),
                |k: int| g(Calc::Decompose(worlds[k].1)).pose.translation,
            );
            let s = translation_sum(worlds, n, g);
            &&& units(s.x) == sum_of(ps, n, |v: Vec3| units(v.x))
            &&& units(s.y) == sum_of(ps, n, |v: Vec3| units(v.y))
            &&& units(s.z) == sum_of(ps, n, |v: Vec3| units(v.z))
        }),
    decreases n,
{
    names_say_worth();
    if n > 0 {
        let a = translation_sum(worlds, n - 1, g);
        let b = g(Calc::Decompose(worlds[n - 1].1)).pose.translation;
        let r = g(Calc::Sum(a, b)).point;
        assert(sums(r.x, a.x, b.x) && sums(r.y, a.y, b.y) && sums(r.z, a.z, b.z));
        translations_add(worlds, n - 1, g);
    }
}

/// A new group stands in the middle of its members: at the mean of their places in the world.
pub proof fn group_stands_in_the_middle(
    st: Session,
    group_id: Seq<char>,
    raws: Seq<Seq<char>>,
    g: spec_fn(Calc) -> Answer,
)
    requires
        exact_on_points(g),
        grouped(st, group_id, raws, g) is Ok,
        0 < raws.len() <= u64::MAX,
        finite3(crate::grouping::group_place(st, raws, g)),
    ensures
        ({
            let n = raws.len() as int;
            let ps = Seq::new(raws.len(), |k: int| world_place(st.doc, resolved(st, raws[k]), g)->0);
            let c = crate::grouping::group_place(st, raws, g);
            &&& units(c.x) * n == sum_of(ps, n, |v: Vec3| units(v.x))
            &&& units(c.y) * n == sum_of(ps, n, |v: Vec3| units(v.y))
            &&& units(c.z) * n == sum_of(ps, n, |v: Vec3| units(v.z))
        }),
{
    let n = raws.len() as int;
    let worlds = member_worlds(st, raws, 0, g)->Ok_0;
    crate::laws::member_ids(st, raws, 0, g);
    crate::grouping::member_matrices(st, raws, 0, g);
    let s = translation_sum(worlds, n, g);
    let r = g(Calc::Shrink(s, n as u64)).point;
    assert(finite(r.x) && finite(r.y) && finite(r.z));
    translations_add(worlds, n, g);
    let ps = Seq::new(raws.len(), |k: int| world_place(st.doc, resolved(st, raws[k]), g)->0);
    let qs = Seq::new(worlds.len(), |k: int| g(Calc::Decompose(worlds[k].1)).pose.translation);
    assert forall|k: int| 0 <= k < n implies ps[k] == qs[k] by {
        assert(worlds[k].0 == resolved(st, raws[0 + k]));
        assert(world_of(st.doc, resolved(st, raws[k]), g) == Some(worlds[k].1));
    }
    assert(ps =~= qs);
}

/// Framing entities leaves room around them: the camera steps back for a sphere that reaches half a
/// unit further than the farthest of them.
pub proof fn framing_leaves_room(
    c: ViewportCameras,
    d: DocumentModel,
    ids: Seq<Seq<char>>,
    g: spec_fn(Calc) -> Answer,
) -> (radius: Real)
    requires
        exact(g),
        places(d, ids, g).len() > 0,
    ensures
        ({
            let points = places(d, ids, g);
            let center = centroid(points, g);
            &&& framed_on(c, d, ids, g).authored.eye == retreat(
                g,
                c.authored.eye,
                c.authored.target,
                c.authored.fov_y_deg,
                center,
                radius,
            )
            &&& framed_on(c, d, ids, g).authored.fov_y_deg == c.authored.fov_y_deg
            &&& finite(radius) ==> 2 * units(radius) == 2 * units(
                reach(points, center, points.len() as int, g),
            ) + unit()
        }),
{
    names_say_worth();
    let points = places(d, ids, g);
    let far = reach(points, centroid(points, g), points.len() as int, g);
    let r = g(Calc::Add(far, Real { bits: 0x3f00_0000 })).value;
    assert(sums(r, far, Real { bits: 0x3f00_0000 }));
    r
}

/// Each event but a ping adds one to the count of the feed.
pub proof fn feeds_count_their_events(f: FeedModel, e: EventModel)
    requires
        f.seq < u64::MAX,
    ensures
        e.op == "ping"@ ==> f.told(e) == f,
        e.op != "ping"@ ==> f.told(e).seq == f.seq + 1 && f.told(e).events.len() > 0
            && f.told(e).events.last() == e,
{
}

} // verus!
