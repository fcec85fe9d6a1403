//! What the answers to queries hold.

use crate::camera::{authored_look, default_aspect};
use crate::document::{stands_at, surface_of, DocumentModel, EntityModel};
use crate::numeric::{encoded, Answer, Calc, Real, Rgba, Vec3};
use crate::query::{
    answered, answers_hold_exactly_the_hits, assembly_hit, collected, color_candidate,
    element_hit, extent_of, gathered, hits_of, kept_apart, left_candidate, nearest, samples_of,
    screen_candidate, seen_at, ColorQuery, QuerySpec,
};
use crate::ranking::{inserted, precedes, HitModel, Scored};
use crate::text::lowered;
use crate::worth::{finite, order_is_by_worth, signs_turn_worth, units};
use vstd::prelude::*;

verus! {

/// A number is smaller than another; a NaN is smaller than nothing and nothing than it.
pub open spec fn under(x: Real, y: Real) -> bool {
    x.magnitude() <= 0x7f80_0000 && y.magnitude() <= 0x7f80_0000 && x.rank() < y.rank()
}

/// No coordinate of a point is smaller than that of a corner.
pub open spec fn clears(p: Vec3, corner: Vec3) -> bool {
    !under(p.x, corner.x) && !under(p.y, corner.y) && !under(p.z, corner.z)
}

/// An entity is large enough for a query.
pub open spec fn large_enough(e: EntityModel, min_extent: Real, g: spec_fn(Calc) -> Answer) -> bool {
    !under(extent_of(e, g), min_extent)
}

/// An entity keeps away from another one: their extents and five hundredths more fit between
/// their places.
pub open spec fn keeps_away(
    d: DocumentModel,
    e: EntityModel,
    other: EntityModel,
    g: spec_fn(Calc) -> Answer,
) -> bool {
    let reach = g(Calc::Add(extent_of(other, g), extent_of(e, g))).value;
    !under(
        g(Calc::Distance(stands_at(d, e, g), stands_at(d, other, g))).value,
        g(Calc::Add(reach, encoded(0x3d4c_cccd))).value,
    )
}

/// What an elements query asks of an entity: that it is drawn, is large enough, and stands
/// inside every bound that is given and away from the entity that is named.
pub open spec fn wanted(
    d: DocumentModel,
    e: EntityModel,
    lo: Option<Vec3>,
    hi: Option<Vec3>,
    y_min: Option<Real>,
    y_max: Option<Real>,
    away_from: Option<Seq<char>>,
    min_extent: Real,
    g: spec_fn(Calc) -> Answer,
) -> bool {
    let w = stands_at(d, e, g);
    &&& e.recipe != "empty"@
    &&& large_enough(e, min_extent, g)
    &&& lo matches Some(c) ==> clears(w, c)
    &&& hi matches Some(c) ==> clears(c, w)
    &&& y_min matches Some(y) ==> !under(w.y, y)
    &&& y_max matches Some(y) ==> !under(y, w.y)
    &&& away_from matches Some(id) ==> (d.find(id) matches Some(other) ==> e.id != id
        && keeps_away(d, e, other, g))
}

/// An elements query finds the entities that stand inside its bounds, and no others. The answer
/// says where each one stands.
pub proof fn elements_lie_inside_the_bounds(
    d: DocumentModel,
    bbox_min: Option<Vec3>,
    bbox_max: Option<Vec3>,
    y_min: Option<Real>,
    y_max: Option<Real>,
    not_adjacent_to: Option<String>,
    min_extent: Real,
    g: spec_fn(Calc) -> Answer,
    h: spec_fn(Real, u8) -> Seq<char>,
    hit: HitModel,
)
    ensures
        ({
            let q = QuerySpec::Elements {
                bbox_min,
                bbox_max,
                y_min,
                y_max,
                not_adjacent_to,
                min_extent,
            };
            let away = match not_adjacent_to {
                Some(id) => Some(id@),
                None => None,
            };
            let r = answered(d, q, g, h);
            &&& r.ok
            &&& r.error is None
            &&& r.hits.contains(hit) <==> exists|k: int|
                0 <= k < d.entities().len() && wanted(
                    d,
                    #[trigger] d.entities()[k],
                    bbox_min,
                    bbox_max,
                    y_min,
                    y_max,
                    away,
                    min_extent,
                    g,
                ) && hit == placed_hit(d, d.entities()[k], g, h)
        }),
{
    let away = match not_adjacent_to {
        Some(id) => Some(id@),
        None => None,
    };
    let apart = kept_apart(d, away, g);
    let es = d.entities();
    let f = |e: EntityModel|
        element_hit(d, e, bbox_min, bbox_max, y_min, y_max, apart, min_extent, g, h);
    answers_hold_exactly_the_hits(es, es.len() as int, f, hit);
    assert forall|k: int| 0 <= k < es.len() implies f(#[trigger] es[k]) == (if wanted(
        d,
        es[k],
        bbox_min,
        bbox_max,
        y_min,
        y_max,
        away,
        min_extent,
        g,
    ) {
        Some(placed_hit(d, es[k], g, h))
    } else {
        None
    }) by {
        assert("elements;world=["@ + crate::query::three(stands_at(d, es[k], g), h) =~= placed_hit(
            d,
            es[k],
            g,
            h,
        ).reason);
    }
}

/// A hit that says where its entity stands, to two decimals.
pub open spec fn placed_hit(
    d: DocumentModel,
    e: EntityModel,
    g: spec_fn(Calc) -> Answer,
    h: spec_fn(Real, u8) -> Seq<char>,
) -> HitModel {
    let w = stands_at(d, e, g);
    HitModel {
        id: e.id,
        reason: "elements;world=["@ + h(w.x, 2) + ","@ + h(w.y, 2) + ","@ + h(w.z, 2) + "]"@,
        screen: None,
        depth: None,
        occluded: None,
    }
}

/// An assembly is the entity of a name and every one whose name goes on from it with a hyphen,
/// as long as the entity itself is there.
pub proof fn assembly_shares_a_name(
    d: DocumentModel,
    entity_id: String,
    g: spec_fn(Calc) -> Answer,
    h: spec_fn(Real, u8) -> Seq<char>,
    id: Seq<char>,
)
    ensures
        ({
            let r = answered(d, QuerySpec::AssemblyOf { entity_id }, g, h);
            &&& r.ok <==> (exists|k: int|
                0 <= k < d.entities().len() && (#[trigger] d.entities()[k]).id == entity_id@)
            &&& !r.ok ==> r.hits.len() == 0 && r.error is Some
            &&& r.ok ==> ((exists|m: int|
                0 <= m < r.hits.len() && (#[trigger] r.hits[m]).id == id) <==> (exists|k: int|
                0 <= k < d.entities().len() && (#[trigger] d.entities()[k]).id == id) && (id
                == entity_id@ || (exists|rest: Seq<char>|
                id == #[trigger] (entity_id@ + "-"@ + rest))))
        }),
{
    let es = d.entities();
    let key = entity_id@;
    let f = |e: EntityModel| assembly_hit(e, key);
    let r = answered(d, QuerySpec::AssemblyOf { entity_id }, g, h);
    crate::document::located_in_range(d.scenes, key, 0);
    if d.has(key) {
        let m = crate::chain::found_is_listed(d, key);
        crate::chain::found_under_its_id(d, key);
        assert(es[m].id == key);
        assert(r.hits == gathered(es, es.len() as int, f));
        if exists|m: int| 0 <= m < r.hits.len() && (#[trigger] r.hits[m]).id == id {
            let m = choose|m: int| 0 <= m < r.hits.len() && (#[trigger] r.hits[m]).id == id;
            answers_hold_exactly_the_hits(es, es.len() as int, f, r.hits[m]);
            assert(r.hits.contains(r.hits[m]));
            let k = choose|k: int| 0 <= k < es.len() && f(#[trigger] es[k]) == Some(r.hits[m]);
            assert(es[k].id == id);
            if id != key {
                let n = (key + "-"@).len() as int;
                assert(id =~= key + "-"@ + id.skip(n)) by {
                    assert(id =~= id.take(n) + id.skip(n));
                }
            }
        }
        if (exists|k: int| 0 <= k < es.len() && (#[trigger] es[k]).id == id) && (id == key || (
        exists|rest: Seq<char>| id == #[trigger] (key + "-"@ + rest))) {
            let k = choose|k: int| 0 <= k < es.len() && (#[trigger] es[k]).id == id;
            if id != key {
                let rest = choose|rest: Seq<char>| id == #[trigger] (key + "-"@ + rest);
                assert(id.take((key + "-"@).len() as int) =~= key + "-"@);
            }
            let x = f(es[k])->0;
            answers_hold_exactly_the_hits(es, es.len() as int, f, x);
            let m = choose|m: int| 0 <= m < r.hits.len() && r.hits[m] == x;
            assert(r.hits[m].id == id);
        }
    } else {
        assert forall|k: int| 0 <= k < es.len() implies (#[trigger] es[k]).id != key by {
            unlisted(d.scenes, key, k);
        }
    }
}

/// An id that no scene holds is not among all entities.
proof fn unlisted(scenes: Seq<crate::document::SceneModel>, id: Seq<char>, k: int)
    requires
        forall|s: int, i: int|
            #![trigger scenes[s].entities[i]]
            0 <= s < scenes.len() && 0 <= i < scenes[s].entities.len()
                ==> scenes[s].entities[i].id != id,
        0 <= k < crate::document::flat(scenes).len(),
    ensures
        crate::document::flat(scenes)[k].id != id,
    decreases scenes.len(),
{
    let front = scenes.drop_last();
    let n = crate::document::flat(front).len();
    if k < n {
        assert forall|s: int, i: int|
            #![trigger front[s].entities[i]]
            0 <= s < front.len() && 0 <= i < front[s].entities.len() implies front[s].entities[i].id
            != id by {
            assert(front[s] == scenes[s]);
        }
        unlisted(front, id, k);
    } else {
        assert(crate::document::flat(scenes)[k] == scenes[scenes.len() - 1].entities[k - n]);
    }
}

proof fn inserted_holds(s: Seq<Scored>, x: Scored, y: Scored)
    ensures
        inserted(s, x).contains(y) <==> s.contains(y) || x == y,
    decreases s.len(),
{
    let all = inserted(s, x);
    if s.len() > 0 && precedes(x, s.last()) {
        let front = s.drop_last();
        let r = inserted(front, x);
        inserted_holds(front, x, y);
        assert(s =~= front.push(s.last()));
        if all.contains(y) {
            let m = choose|m: int| 0 <= m < all.len() && all[m] == y;
            if m < r.len() {
                assert(r[m] == y);
            } else {
                assert(s[s.len() - 1] == y);
            }
            if front.contains(y) {
                let i = choose|i: int| 0 <= i < front.len() && front[i] == y;
                assert(s[i] == y);
            }
        }
        if s.contains(y) || x == y {
            if s.contains(y) {
                let i = choose|i: int| 0 <= i < s.len() && s[i] == y;
                if i == s.len() - 1 {
                    assert(all[r.len() as int] == y);
                } else {
                    assert(front[i] == y);
                }
            }
            if r.contains(y) {
                let m = choose|m: int| 0 <= m < r.len() && r[m] == y;
                assert(all[m] == y);
            }
        }
    } else {
        if s.contains(y) {
            let i = choose|i: int| 0 <= i < s.len() && s[i] == y;
            assert(all[i] == y);
        }
        assert(all[s.len() as int] == x);
        if all.contains(y) && x != y {
            let m = choose|m: int| 0 <= m < all.len() && all[m] == y;
            assert(s[m] == y);
        }
    }
}

/// A ranked answer holds exactly the candidates.
proof fn collected_holds(
    es: Seq<EntityModel>,
    n: int,
    f: spec_fn(EntityModel) -> Option<Scored>,
    y: Scored,
)
    requires
        0 <= n <= es.len(),
    ensures
        collected(es, n, f).contains(y) <==> exists|k: int|
            0 <= k < n && f(#[trigger] es[k]) == Some(y),
    decreases n,
{
    if n > 0 {
        collected_holds(es, n - 1, f, y);
        if let Some(c) = f(es[n - 1]) {
            inserted_holds(collected(es, n - 1, f), c, y);
        }
        if exists|k: int| 0 <= k < n && f(#[trigger] es[k]) == Some(y) {
            let k = choose|k: int| 0 <= k < n && f(#[trigger] es[k]) == Some(y);
            if k < n - 1 {
                assert(0 <= k < n - 1 && f(es[k]) == Some(y));
            }
        }
    }
}

/// Whether an id is among hits.
pub open spec fn names(hits: Seq<HitModel>, id: Seq<char>) -> bool {
    exists|m: int| 0 <= m < hits.len() && (#[trigger] hits[m]).id == id
}

/// A ranked answer names exactly the entities that are candidates under their own ids.
proof fn collected_names(
    es: Seq<EntityModel>,
    f: spec_fn(EntityModel) -> Option<Scored>,
    id: Seq<char>,
)
    requires
        forall|k: int|
            0 <= k < es.len() && f(#[trigger] es[k]) is Some ==> f(es[k])->0.hit.id == es[k].id,
    ensures
        names(hits_of(collected(es, es.len() as int, f)), id) <==> exists|k: int|
            0 <= k < es.len() && (#[trigger] es[k]).id == id && f(es[k]) is Some,
{
    let s = collected(es, es.len() as int, f);
    let hits = hits_of(s);
    if names(hits, id) {
        let m = choose|m: int| 0 <= m < hits.len() && (#[trigger] hits[m]).id == id;
        collected_holds(es, es.len() as int, f, s[m]);
        assert(s.contains(s[m]));
        let k = choose|k: int| 0 <= k < es.len() && f(#[trigger] es[k]) == Some(s[m]);
        assert(es[k].id == id);
    }
    if exists|k: int| 0 <= k < es.len() && (#[trigger] es[k]).id == id && f(es[k]) is Some {
        let k = choose|k: int|
            0 <= k < es.len() && (#[trigger] es[k]).id == id && f(es[k]) is Some;
        let y = f(es[k])->0;
        collected_holds(es, es.len() as int, f, y);
        let m = choose|m: int| 0 <= m < s.len() && s[m] == y;
        assert(hits[m].id == id);
    }
}

/// How far right an entity stands as the authored camera sees it.
pub open spec fn rightness(d: DocumentModel, e: EntityModel, g: spec_fn(Calc) -> Answer) -> Real {
    let look = authored_look();
    let view = g(Calc::View(look.eye, look.target, look.up)).matrix;
    g(Calc::Move(view, stands_at(d, e, g))).point.x
}

/// To the left of an entity are the others that are large enough and that the authored camera
/// sees less far right by more than a thousandth.
pub proof fn left_is_less_far_right(
    d: DocumentModel,
    entity_id: String,
    min_extent: Real,
    g: spec_fn(Calc) -> Answer,
    h: spec_fn(Real, u8) -> Seq<char>,
    id: Seq<char>,
)
    ensures
        ({
            let r = answered(d, QuerySpec::LeftOf { entity_id, min_extent }, g, h);
            match d.find(entity_id@) {
                None => !r.ok && r.hits.len() == 0 && r.error == Some(
                    "unknown_entity:"@ + entity_id@,
                ),
                Some(anchor) => r.ok && (names(r.hits, id) <==> exists|k: int|
                    0 <= k < d.entities().len() && (#[trigger] d.entities()[k]).id == id && id
                        != entity_id@ && large_enough(d.entities()[k], min_extent, g) && {
                        let dx = g(
                            Calc::Subtract(
                                rightness(d, anchor, g),
                                rightness(d, d.entities()[k], g),
                            ),
                        ).value;
                        dx.magnitude() > 0x7f80_0000 || under(encoded(0x3a83_126f), dx)
                    }),
            }
        }),
{
    if let Some(anchor) = d.find(entity_id@) {
        let es = d.entities();
        let x = crate::query::view_x(stands_at(d, anchor, g), g);
        let f = |e: EntityModel| left_candidate(d, e, entity_id@, x, min_extent, g, h);
        assert forall|k: int| 0 <= k < es.len() && f(#[trigger] es[k]) is Some implies f(
            es[k],
        )->0.hit.id == es[k].id by {}
        collected_names(es, f, id);
    }
}

/// On screen are the entities that are large enough and whose places the authored camera
/// projects into the window, with a twentieth more on each side.
pub proof fn on_screen_is_inside_the_window(
    d: DocumentModel,
    min_extent: Real,
    aspect: Real,
    g: spec_fn(Calc) -> Answer,
    h: spec_fn(Real, u8) -> Seq<char>,
    id: Seq<char>,
)
    ensures
        ({
            let r = answered(d, QuerySpec::OnScreen { min_extent, aspect }, g, h);
            r.ok && (names(r.hits, id) <==> exists|k: int|
                0 <= k < d.entities().len() && (#[trigger] d.entities()[k]).id == id
                    && large_enough(d.entities()[k], min_extent, g) && (seen_at(
                    aspect,
                    stands_at(d, d.entities()[k], g),
                    g,
                ) matches Some(p) && inside_window(p)))
        }),
{
    let es = d.entities();
    let f = |e: EntityModel| screen_candidate(d, e, min_extent, aspect, g, h);
    assert forall|k: int| 0 <= k < es.len() && f(#[trigger] es[k]) is Some implies f(
        es[k],
    )->0.hit.id == es[k].id by {}
    collected_names(es, f, id);
}

/// A projected point is a number in each coordinate, at most 1.05 across and up, and between the
/// near and the far plane.
pub open spec fn inside_window(p: Vec3) -> bool {
    &&& p.x.magnitude() <= 0x3f86_6666
    &&& p.y.magnitude() <= 0x3f86_6666
    &&& p.z.magnitude() <= 0x3f80_0000
}

/// Some sample is no further from a colour than a tolerance.
pub open spec fn close_to_one(
    c: Vec3,
    samples: Seq<Vec3>,
    tolerance: Real,
    g: spec_fn(Calc) -> Answer,
) -> bool {
    exists|j: int|
        0 <= j < samples.len() && {
            let dist = g(Calc::Distance(c, #[trigger] samples[j])).value;
            dist.magnitude() <= 0x7f80_0000 && dist.rank() <= tolerance.rank()
        }
}

proof fn nearest_is_close(
    c: Vec3,
    samples: Seq<Vec3>,
    n: int,
    tolerance: Real,
    g: spec_fn(Calc) -> Answer,
)
    requires
        0 <= n <= samples.len(),
        tolerance.magnitude() < 0x7f7f_ffff,
    ensures
        !nearest(c, samples, n, g).is_nan(),
        nearest(c, samples, n, g).rank() <= tolerance.rank() <==> close_to_one(
            c,
            samples.take(n),
            tolerance,
            g,
        ),
    decreases n,
{
    if n > 0 {
        nearest_is_close(c, samples, n - 1, tolerance, g);
        let front = samples.take(n - 1);
        let all = samples.take(n);
        assert(all[n - 1] == samples[n - 1]);
        if close_to_one(c, front, tolerance, g) {
            let j = choose|j: int|
                0 <= j < front.len() && {
                    let dist = g(Calc::Distance(c, #[trigger] front[j])).value;
                    dist.magnitude() <= 0x7f80_0000 && dist.rank() <= tolerance.rank()
                };
            assert(all[j] == front[j]);
        }
        if close_to_one(c, all, tolerance, g) {
            let j = choose|j: int|
                0 <= j < all.len() && {
                    let dist = g(Calc::Distance(c, #[trigger] all[j])).value;
                    dist.magnitude() <= 0x7f80_0000 && dist.rank() <= tolerance.rank()
                };
            if j < n - 1 {
                assert(all[j] == front[j]);
            }
        }
    }
}

/// Of a colour are the entities that are large enough and whose surface is no further than the
/// tolerance from one of the samples of that colour, or from the colour itself where it is given
/// in numbers.
pub proof fn colored_entities_are_close(
    d: DocumentModel,
    color: ColorQuery,
    min_extent: Real,
    tolerance: Real,
    g: spec_fn(Calc) -> Answer,
    h: spec_fn(Real, u8) -> Seq<char>,
    id: Seq<char>,
)
    requires
        tolerance.magnitude() < 0x7f7f_ffff,
    ensures
        ({
            let r = answered(d, QuerySpec::ColorOf { color, min_extent, tolerance }, g, h);
            let samples = match color {
                ColorQuery::Name(name) => samples_of(lowered(name@)),
                ColorQuery::Rgba(c) => Some(seq![Vec3 { x: c.r, y: c.g, z: c.b }]),
            };
            match samples {
                None => !r.ok && r.hits.len() == 0,
                Some(all) => r.ok && (names(r.hits, id) <==> exists|k: int|
                    0 <= k < d.entities().len() && (#[trigger] d.entities()[k]).id == id
                        && large_enough(d.entities()[k], min_extent, g) && {
                        let c = surface_of(d, d.entities()[k]).color;
                        close_to_one(Vec3 { x: c.r, y: c.g, z: c.b }, all, tolerance, g)
                    }),
            }
        }),
{
    let samples = match color {
        ColorQuery::Name(name) => samples_of(lowered(name@)),
        ColorQuery::Rgba(c) => Some(seq![Vec3 { x: c.r, y: c.g, z: c.b }]),
    };
    let label = match color {
        ColorQuery::Name(name) => lowered(name@),
        ColorQuery::Rgba(c) => "rgba"@,
    };
    if let Some(all) = samples {
        let es = d.entities();
        let f = |e: EntityModel|
            color_candidate(d, e, label, all, min_extent, tolerance, g, h);
        assert(all.take(all.len() as int) =~= all);
        assert forall|k: int| 0 <= k < es.len() implies (f(#[trigger] es[k]) is Some <==> (
        large_enough(es[k], min_extent, g) && {
            let c = surface_of(d, es[k]).color;
            close_to_one(Vec3 { x: c.r, y: c.g, z: c.b }, all, tolerance, g)
        })) && (f(es[k]) is Some ==> f(es[k])->0.hit.id == es[k].id) by {
            let c = surface_of(d, es[k]).color;
            nearest_is_close(
                Vec3 { x: c.r, y: c.g, z: c.b },
                all,
                all.len() as int,
                tolerance,
                g,
            );
        }
        collected_names(es, f, id);
    }
}

/// The extent of an entity is one of its scaled edges, and none of them is larger.
pub proof fn extent_is_the_largest_edge(e: EntityModel, g: spec_fn(Calc) -> Answer)
    ensures
        ({
            let v = g(Calc::Stretch(e.size, e.transform.scale)).point;
            let x = extent_of(e, g);
            &&& x == v.x || x == v.y || x == v.z
            &&& !under(x, v.x) && !under(x, v.y) && !under(x, v.z)
        }),
{
}

/// A hit says of its entity where the authored camera projects it in the window, how deep, and
/// whether another entity stands before it; one without a projection says nothing of these.
pub open spec fn says_where(
    d: DocumentModel,
    e: EntityModel,
    aspect: Real,
    hit: HitModel,
    g: spec_fn(Calc) -> Answer,
) -> bool {
    match seen_at(aspect, stands_at(d, e, g), g) {
        None => hit.screen is None && hit.depth is None && hit.occluded is None,
        Some(p) => {
            &&& hit.screen == Some(crate::formula::window_place(g, p))
            &&& hit.depth == Some(p.z)
            &&& hit.occluded == Some(
                exists|k: int|
                    0 <= k < d.entities().len() && (#[trigger] d.entities()[k]).id != e.id
                        && stands_in_front(d, d.entities()[k], p, aspect, g),
            )
        },
    }
}

/// An entity is projected close to a point and before it.
pub open spec fn stands_in_front(
    d: DocumentModel,
    other: EntityModel,
    p: Vec3,
    aspect: Real,
    g: spec_fn(Calc) -> Answer,
) -> bool {
    seen_at(aspect, stands_at(d, other, g), g) matches Some(q) && crate::formula::covers(g, q, p)
}

proof fn projected_hit_says_where(
    d: DocumentModel,
    e: EntityModel,
    reason: Seq<char>,
    aspect: Real,
    g: spec_fn(Calc) -> Answer,
)
    ensures
        says_where(d, e, aspect, crate::query::projected_hit(d, e, reason, aspect, g), g),
        crate::query::projected_hit(d, e, reason, aspect, g).reason == reason,
        crate::query::projected_hit(d, e, reason, aspect, g).id == e.id,
{
    if let Some(p) = seen_at(aspect, stands_at(d, e, g), g) {
        let es = d.entities();
        assert(crate::query::hidden(d, e.id, p, aspect, g) == exists|k: int|
            0 <= k < es.len() && (#[trigger] es[k]).id != e.id && stands_in_front(
                d,
                es[k],
                p,
                aspect,
                g,
            )) by {
            if crate::query::hidden(d, e.id, p, aspect, g) {
                let k = choose|k: int|
                    0 <= k < es.len() && (#[trigger] es[k]).id != e.id && crate::query::shades(
                        d,
                        es[k],
                        p,
                        aspect,
                        g,
                    );
                assert(stands_in_front(d, es[k], p, aspect, g));
            }
            if exists|k: int|
                0 <= k < es.len() && (#[trigger] es[k]).id != e.id && stands_in_front(
                    d,
                    es[k],
                    p,
                    aspect,
                    g,
                ) {
                let k = choose|k: int|
                    0 <= k < es.len() && (#[trigger] es[k]).id != e.id && stands_in_front(
                        d,
                        es[k],
                        p,
                        aspect,
                        g,
                    );
                assert(crate::query::shades(d, es[k], p, aspect, g));
            }
        }
    }
}

/// The hits of a ranked answer come from candidates, and no hit stands behind one that ranks
/// after it.
proof fn collected_order(
    es: Seq<EntityModel>,
    n: int,
    f: spec_fn(EntityModel) -> Option<Scored>,
)
    requires
        0 <= n <= es.len(),
        forall|k: int|
            0 <= k < n && f(#[trigger] es[k]) is Some ==> crate::ranking::comparable(f(es[k])->0),
    ensures
        crate::ranking::in_order(collected(es, n, f)),
        forall|i: int|
            0 <= i < collected(es, n, f).len() ==> exists|k: int|
                0 <= k < n && f(#[trigger] es[k]) == Some(#[trigger] collected(es, n, f)[i]),
{
    crate::query::answers_are_ranked(es, n, f);
    let cs = crate::query::candidates(es, n, f);
    candidates_come_from(es, n, f);
    assert forall|k: int| 0 <= k < cs.len() implies crate::ranking::comparable(
        #[trigger] cs[k],
    ) by {
        let j = choose|j: int| 0 <= j < n && f(#[trigger] es[j]) == Some(cs[k]);
        assert(f(es[j]) is Some);
    }
    crate::ranking::ranking_is_a_sorted_permutation(cs);
    let s = collected(es, n, f);
    assert forall|i: int| 0 <= i < s.len() implies exists|k: int|
        0 <= k < n && f(#[trigger] es[k]) == Some(#[trigger] s[i]) by {
        collected_holds(es, n, f, s[i]);
        assert(s.contains(s[i]));
    }
}

proof fn candidates_come_from(
    es: Seq<EntityModel>,
    n: int,
    f: spec_fn(EntityModel) -> Option<Scored>,
)
    requires
        0 <= n <= es.len(),
    ensures
        forall|i: int|
            0 <= i < crate::query::candidates(es, n, f).len() ==> exists|k: int|
                0 <= k < n && f(#[trigger] es[k]) == Some(
                    #[trigger] crate::query::candidates(es, n, f)[i],
                ),
    decreases n,
{
    if n > 0 {
        candidates_come_from(es, n - 1, f);
        let cs = crate::query::candidates(es, n, f);
        let front = crate::query::candidates(es, n - 1, f);
        assert forall|i: int| 0 <= i < cs.len() implies exists|k: int|
            0 <= k < n && f(#[trigger] es[k]) == Some(#[trigger] cs[i]) by {
            if i < front.len() {
                assert(cs[i] == front[i]);
                let k = choose|k: int| 0 <= k < n - 1 && f(#[trigger] es[k]) == Some(front[i]);
                assert(f(es[k]) == Some(cs[i]));
            } else {
                assert(f(es[n - 1]) == Some(cs[i]));
            }
        }
    }
}

/// Answers about what is to the left and what is on screen tell of each entity where it appears,
/// and name larger ones first.
pub proof fn seen_hits_are_told_largest_first(
    d: DocumentModel,
    q: QuerySpec,
    g: spec_fn(Calc) -> Answer,
    h: spec_fn(Real, u8) -> Seq<char>,
    i: int,
    j: int,
)
    requires
        q is LeftOf || q is OnScreen,
        0 <= i < j < answered(d, q, g, h).hits.len(),
        forall|k: int|
            0 <= k < d.entities().len() ==> !(#[trigger] extent_of(d.entities()[k], g)).is_nan(),
        q matches QuerySpec::LeftOf { entity_id, min_extent } ==> forall|k: int|
            0 <= k < d.entities().len() ==> !g(
                Calc::Subtract(
                    rightness(d, d.find(entity_id@)->0, g),
                    rightness(d, #[trigger] d.entities()[k], g),
                ),
            ).value.is_nan(),
    ensures
        ({
            let hits = answered(d, q, g, h).hits;
            let aspect = match q {
                QuerySpec::OnScreen { aspect, .. } => aspect,
                _ => default_aspect(),
            };
            exists|a: int, b: int|
                0 <= a < d.entities().len() && 0 <= b < d.entities().len() && (
                #[trigger] d.entities()[a]).id == hits[i].id && (#[trigger] d.entities()[b]).id
                    == hits[j].id && says_where(d, d.entities()[a], aspect, hits[i], g)
                    && says_where(d, d.entities()[b], aspect, hits[j], g) && !under(
                    extent_of(d.entities()[a], g),
                    extent_of(d.entities()[b], g),
                )
        }),
{
    let es = d.entities();
    let n = es.len() as int;
    let aspect = match q {
        QuerySpec::OnScreen { aspect, .. } => aspect,
        _ => default_aspect(),
    };
    let f = match q {
        QuerySpec::LeftOf { entity_id, min_extent } => {
            let x = crate::query::view_x(stands_at(d, d.find(entity_id@)->0, g), g);
            |e: EntityModel| left_candidate(d, e, entity_id@, x, min_extent, g, h)
        },
        QuerySpec::OnScreen { min_extent, aspect } => {
            |e: EntityModel| screen_candidate(d, e, min_extent, aspect, g, h)
        },
        _ => |e: EntityModel| None,
    };
    assert forall|k: int| 0 <= k < n && f(#[trigger] es[k]) is Some implies {
        let c = f(es[k])->0;
        &&& crate::ranking::comparable(c)
        &&& c.hit.id == es[k].id
        &&& c.major == extent_of(es[k], g)
        &&& says_where(d, es[k], aspect, c.hit, g)
    } by {
        assert(!extent_of(d.entities()[k], g).is_nan());
        let reason = f(es[k])->0.hit.reason;
        projected_hit_says_where(d, es[k], reason, aspect, g);
        if let QuerySpec::LeftOf { entity_id, min_extent } = q {
            let dx = crate::formula::minus(
                g,
                rightness(d, d.find(entity_id@)->0, g),
                rightness(d, d.entities()[k], g),
            );
            assert(!dx.is_nan());
            projected_hit_says_where(
                d,
                es[k],
                "camera_left_of:"@ + entity_id@ + ";dx="@ + h(dx, 3),
                aspect,
                g,
            );
        }
        if let QuerySpec::OnScreen { min_extent, aspect } = q {
            let p = seen_at(aspect, stands_at(d, es[k], g), g)->0;
            projected_hit_says_where(d, es[k], "ndc=["@ + crate::query::three(p, h), aspect, g);
        }
    }
    collected_order(es, n, f);
    let s = collected(es, n, f);
    let hits = answered(d, q, g, h).hits;
    assert(hits == hits_of(s));
    let a = choose|a: int| 0 <= a < n && f(#[trigger] es[a]) == Some(s[i]);
    let b = choose|b: int| 0 <= b < n && f(#[trigger] es[b]) == Some(s[j]);
    assert(f(es[a]) is Some && f(es[b]) is Some);
    assert(!precedes(s[j], s[i]));
    assert(d.entities()[a].id == hits[i].id && d.entities()[b].id == hits[j].id);
}

/// Every named colour knows the pure colour of its name among its samples, and no other name
/// does.
pub proof fn named_colors_know_their_own()
    ensures
        ({
            let full = encoded(0x3f80_0000);
            let none = encoded(0);
            let red = Vec3 { x: full, y: none, z: none };
            let yellow = Vec3 { x: full, y: full, z: none };
            let blue = Vec3 { x: none, y: none, z: full };
            &&& samples_of("red"@) matches Some(s) && s.contains(red) && !s.contains(yellow)
                && !s.contains(blue)
            &&& samples_of("yellow"@) matches Some(s) && s.contains(yellow) && !s.contains(red)
                && !s.contains(blue)
            &&& samples_of("blue"@) matches Some(s) && s.contains(blue) && !s.contains(red)
                && !s.contains(yellow)
            &&& samples_of("amber"@) == samples_of("yellow"@)
            &&& samples_of("mustard"@) == samples_of("yellow"@)
            &&& samples_of("grey"@) == samples_of("gray"@)
            &&& samples_of("dark"@) == samples_of("gray"@)
            &&& samples_of("terracotta"@) == samples_of("orange"@)
            &&& samples_of("orange"@) is Some && samples_of("gray"@) is Some
        }),
{
    reveal_strlit("red");
    reveal_strlit("yellow");
    reveal_strlit("blue");
    reveal_strlit("amber");
    reveal_strlit("mustard");
    reveal_strlit("grey");
    reveal_strlit("gray");
    reveal_strlit("dark");
    reveal_strlit("terracotta");
    reveal_strlit("orange");
    assert("red"@.len() == 3 && "yellow"@.len() == 6 && "blue"@.len() == 4 && "amber"@.len() == 5
        && "mustard"@.len() == 7 && "grey"@.len() == 4 && "gray"@.len() == 4 && "dark"@.len() == 4
        && "terracotta"@.len() == 10 && "orange"@.len() == 6);
    assert("yellow"@[0] == 'y' && "orange"@[0] == 'o' && "blue"@[0] == 'b' && "grey"@[0] == 'g'
        && "gray"@[0] == 'g' && "dark"@[0] == 'd');
    let full = encoded(0x3f80_0000);
    let none = encoded(0);
    let r = samples_of("red"@)->0;
    let y = samples_of("yellow"@)->0;
    let b = samples_of("blue"@)->0;
    assert(r[2] == Vec3 { x: full, y: none, z: none });
    assert(y[3] == Vec3 { x: full, y: full, z: none });
    assert(b[4] == Vec3 { x: none, y: none, z: full });
}

/// Closer colours come first, and of two that are as close the larger entity.
pub proof fn closer_colors_come_first(
    d: DocumentModel,
    a: EntityModel,
    b: EntityModel,
    label: Seq<char>,
    samples: Seq<Vec3>,
    min_extent: Real,
    tolerance: Real,
    g: spec_fn(Calc) -> Answer,
    h: spec_fn(Real, u8) -> Seq<char>,
)
    ensures
        color_candidate(d, a, label, samples, min_extent, tolerance, g, h) matches Some(p) ==> (
        color_candidate(d, b, label, samples, min_extent, tolerance, g, h) matches Some(q) ==> {
            let x = distance_to(surface_of(d, a).color, samples, g);
            let y = distance_to(surface_of(d, b).color, samples, g);
            &&& finite(x) && finite(y) ==> (p.major.rank() > q.major.rank() <==> units(x) < units(y))
            &&& p.minor == extent_of(a, g)
            &&& p.hit.id == a.id
        }),
{
    let x = distance_to(surface_of(d, a).color, samples, g);
    let y = distance_to(surface_of(d, b).color, samples, g);
    if finite(x) && finite(y) {
        signs_turn_worth(x);
        signs_turn_worth(y);
        order_is_by_worth(y.negated(), x.negated());
    }
}

/// How far a colour is from the nearest of some samples.
pub open spec fn distance_to(c: Rgba, samples: Seq<Vec3>, g: spec_fn(Calc) -> Answer) -> Real {
    nearest(Vec3 { x: c.r, y: c.g, z: c.b }, samples, samples.len() as int, g)
}

} // verus!
