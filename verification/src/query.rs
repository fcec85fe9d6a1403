//! Look queries over a document, seen from the authored camera.

use crate::beauty::{IdBuffer, DEFAULT_HEIGHT, DEFAULT_WIDTH};
use crate::camera::{authored_look, default_aspect, view_matrix, view_proj_matrix};
use crate::document::{
    borrowed, stands_at, surface_of, Document, DocumentModel, Entity, EntityModel,
};
use crate::formula::{
    covers, in_window, minus, project_ndc, projection, stands_before, window_place,
};
use crate::lists::map_push;
use crate::numeric::{
    answers, computes, encoded, one, shows, writes, zero, Answer, Calc, Real, Rgba, Vec3,
};
use crate::ranking::{hit_views, inserted, plain_hit, ranked, HitModel, QueryHit, Ranking, Scored};
use crate::text::{
    begins, cat2, cat4, decimal, decimal_text, lower, lowered, same, starts_with, text_in,
};
use vstd::prelude::*;

verus! {

/// A colour to look for.
#[derive(Debug, PartialEq)]
pub enum ColorQuery {
    Name(String),
    Rgba(Rgba),
}

#[derive(Debug, PartialEq)]
pub enum QuerySpec {
    /// Entities to the camera-left of an entity (not world -X).
    LeftOf { entity_id: String, min_extent: Real },
    /// Entities whose centre projects inside the authoring frustum.
    OnScreen { min_extent: Real, aspect: Real },
    /// Entities of a named colour or one close to a given one.
    ColorOf { color: ColorQuery, min_extent: Real, tolerance: Real },
    /// An entity and every one whose id starts with its id and a hyphen, however small.
    AssemblyOf { entity_id: String },
    /// The entity that covers a pixel.
    Pixel { x: u32, y: u32, width: Option<u32>, height: Option<u32> },
    /// Entities by place and distance.
    Elements {
        bbox_min: Option<Vec3>,
        bbox_max: Option<Vec3>,
        y_min: Option<Real>,
        y_max: Option<Real>,
        not_adjacent_to: Option<String>,
        min_extent: Real,
    },
}

/// What a query asks.
pub enum QueryModel {
    LeftOf { entity_id: Seq<char>, min_extent: Real },
    OnScreen { min_extent: Real, aspect: Real },
    ColorOf { color: ColorModel, min_extent: Real, tolerance: Real },
    AssemblyOf { entity_id: Seq<char> },
    Pixel { x: u32, y: u32, width: Option<u32>, height: Option<u32> },
    Elements {
        bbox_min: Option<Vec3>,
        bbox_max: Option<Vec3>,
        y_min: Option<Real>,
        y_max: Option<Real>,
        not_adjacent_to: Option<Seq<char>>,
        min_extent: Real,
    },
}

pub enum ColorModel {
    Name(Seq<char>),
    Rgba(Rgba),
}

impl View for ColorQuery {
    type V = ColorModel;

    open spec fn view(&self) -> ColorModel {
        match *self {
            ColorQuery::Name(n) => ColorModel::Name(n@),
            ColorQuery::Rgba(c) => ColorModel::Rgba(c),
        }
    }
}

impl View for QuerySpec {
    type V = QueryModel;

    open spec fn view(&self) -> QueryModel {
        match *self {
            QuerySpec::LeftOf { entity_id, min_extent } => QueryModel::LeftOf {
                entity_id: entity_id@,
                min_extent,
            },
            QuerySpec::OnScreen { min_extent, aspect } => QueryModel::OnScreen {
                min_extent,
                aspect,
            },
            QuerySpec::ColorOf { color, min_extent, tolerance } => QueryModel::ColorOf {
                color: color@,
                min_extent,
                tolerance,
            },
            QuerySpec::AssemblyOf { entity_id } => QueryModel::AssemblyOf {
                entity_id: entity_id@,
            },
            QuerySpec::Pixel { x, y, width, height } => QueryModel::Pixel { x, y, width, height },
            QuerySpec::Elements {
                bbox_min,
                bbox_max,
                y_min,
                y_max,
                not_adjacent_to,
                min_extent,
            } => QueryModel::Elements {
                bbox_min,
                bbox_max,
                y_min,
                y_max,
                not_adjacent_to: text_in(not_adjacent_to),
                min_extent,
            },
        }
    }
}

/// Entities smaller than this (0.35) count as bits unless a query says otherwise.
#[verifier::allow_in_spec]
pub fn default_min_extent() -> Real
    returns
        encoded(0x3eb3_3333),
{
    encoded(0x3eb3_3333)
}

/// How far a colour may be off unless a query says otherwise: 0.32.
#[verifier::allow_in_spec]
pub fn default_tolerance() -> Real
    returns
        encoded(0x3ea3_d70a),
{
    encoded(0x3ea3_d70a)
}

#[derive(Debug, PartialEq)]
pub struct QueryResult {
    pub ok: bool,
    pub query: String,
    pub hits: Vec<QueryHit>,
    pub error: Option<String>,
}

/// What a query's answer says.
#[verifier::ext_equal]
pub struct FoundModel {
    pub ok: bool,
    pub query: Seq<char>,
    pub hits: Seq<HitModel>,
    pub error: Option<Seq<char>>,
}

impl View for QueryResult {
    type V = FoundModel;

    open spec fn view(&self) -> FoundModel {
        FoundModel {
            ok: self.ok,
            query: self.query@,
            hits: hit_views(self.hits@),
            error: text_in(self.error),
        }
    }
}

pub open spec fn found(query: Seq<char>, hits: Seq<HitModel>) -> FoundModel {
    FoundModel { ok: true, query, hits, error: None }
}

pub open spec fn failed(query: Seq<char>, error: Seq<char>) -> FoundModel {
    FoundModel { ok: false, query, hits: Seq::empty(), error: Some(error) }
}

/// The ranked candidates among the first `n` entities.
pub open spec fn collected(
    es: Seq<EntityModel>,
    n: int,
    candidate: spec_fn(EntityModel) -> Option<Scored>,
) -> Seq<Scored>
    decreases n,
{
    if n <= 0 {
        Seq::empty()
    } else {
        match candidate(es[n - 1]) {
            Some(c) => inserted(collected(es, n - 1, candidate), c),
            None => collected(es, n - 1, candidate),
        }
    }
}

/// The candidates among the first `n` entities, in document order.
pub open spec fn candidates(
    es: Seq<EntityModel>,
    n: int,
    candidate: spec_fn(EntityModel) -> Option<Scored>,
) -> Seq<Scored>
    decreases n,
{
    if n <= 0 {
        Seq::empty()
    } else {
        match candidate(es[n - 1]) {
            Some(c) => candidates(es, n - 1, candidate).push(c),
            None => candidates(es, n - 1, candidate),
        }
    }
}

/// A ranked answer is the candidates in the order of their ranks.
pub proof fn answers_are_ranked(
    es: Seq<EntityModel>,
    n: int,
    candidate: spec_fn(EntityModel) -> Option<Scored>,
)
    ensures
        collected(es, n, candidate) == ranked(candidates(es, n, candidate)),
    decreases n,
{
    if n > 0 {
        answers_are_ranked(es, n - 1, candidate);
        if let Some(c) = candidate(es[n - 1]) {
            let front = candidates(es, n - 1, candidate);
            assert(front.push(c).drop_last() =~= front);
        }
    }
}

/// An answer in document order holds exactly the entities that are hits.
pub proof fn answers_hold_exactly_the_hits(
    es: Seq<EntityModel>,
    n: int,
    hit: spec_fn(EntityModel) -> Option<HitModel>,
    h: HitModel,
)
    requires
        0 <= n <= es.len(),
    ensures
        gathered(es, n, hit).contains(h) <==> exists|k: int|
            0 <= k < n && hit(#[trigger] es[k]) == Some(h),
    decreases n,
{
    if n > 0 {
        answers_hold_exactly_the_hits(es, n - 1, hit, h);
        let front = gathered(es, n - 1, hit);
        let all = gathered(es, n, hit);
        if let Some(x) = hit(es[n - 1]) {
            assert(all == front.push(x));
            assert(all[all.len() - 1] == x);
            if front.contains(h) {
                let m = choose|m: int| 0 <= m < front.len() && front[m] == h;
                assert(all[m] == h);
            }
            if all.contains(h) && x != h {
                let m = choose|m: int| 0 <= m < all.len() && all[m] == h;
                assert(front[m] == h);
            }
        }
    }
}

/// The hits among the first `n` entities, in document order.
pub open spec fn gathered(
    es: Seq<EntityModel>,
    n: int,
    hit: spec_fn(EntityModel) -> Option<HitModel>,
) -> Seq<HitModel>
    decreases n,
{
    if n <= 0 {
        Seq::empty()
    } else {
        match hit(es[n - 1]) {
            Some(h) => gathered(es, n - 1, hit).push(h),
            None => gathered(es, n - 1, hit),
        }
    }
}

pub open spec fn hits_of(s: Seq<Scored>) -> Seq<HitModel> {
    s.map_values(|x: Scored| x.hit)
}

/// The largest edge of an entity's mesh, scaled by its own scale.
pub open spec fn extent_of(e: EntityModel, g: spec_fn(Calc) -> Answer) -> Real {
    let v = g(Calc::Stretch(e.size, e.transform.scale)).point;
    v.x.greater_of(v.y).greater_of(v.z)
}

/// Where the authored camera projects a point.
pub open spec fn seen_at(aspect: Real, p: Vec3, g: spec_fn(Calc) -> Answer) -> Option<Vec3> {
    projection(g, authored_look().view_projection(aspect, g), p)
}

/// How far right of the authored camera a point lies.
pub open spec fn view_x(p: Vec3, g: spec_fn(Calc) -> Answer) -> Real {
    g(Calc::Move(authored_look().view(g), p)).point.x
}

/// Whether an entity's centre projects close to a place and in front of it.
pub open spec fn shades(
    d: DocumentModel,
    e: EntityModel,
    ndc: Vec3,
    aspect: Real,
    g: spec_fn(Calc) -> Answer,
) -> bool {
    seen_at(aspect, stands_at(d, e, g), g) matches Some(other) && covers(g, other, ndc)
}

/// Whether another entity's centre projects close to a place and in front of it.
pub open spec fn hidden(
    d: DocumentModel,
    id: Seq<char>,
    ndc: Vec3,
    aspect: Real,
    g: spec_fn(Calc) -> Answer,
) -> bool {
    exists|k: int|
        0 <= k < d.entities().len() && (#[trigger] d.entities()[k]).id != id && shades(
            d,
            d.entities()[k],
            ndc,
            aspect,
            g,
        )
}

/// A hit with where its entity appears in the window, if it has a projection.
pub open spec fn projected_hit(
    d: DocumentModel,
    e: EntityModel,
    reason: Seq<char>,
    aspect: Real,
    g: spec_fn(Calc) -> Answer,
) -> HitModel {
    match seen_at(aspect, stands_at(d, e, g), g) {
        Some(ndc) => HitModel {
            id: e.id,
            reason,
            screen: Some(window_place(g, ndc)),
            depth: Some(ndc.z),
            occluded: Some(hidden(d, e.id, ndc, aspect, g)),
        },
        None => plain_hit(e.id, reason),
    }
}

/// An entity as a candidate for the left of an anchor.
pub open spec fn left_candidate(
    d: DocumentModel,
    e: EntityModel,
    anchor: Seq<char>,
    anchor_x: Real,
    min_extent: Real,
    g: spec_fn(Calc) -> Answer,
    h: spec_fn(Real, u8) -> Seq<char>,
) -> Option<Scored> {
    let extent = extent_of(e, g);
    let dx = minus(g, anchor_x, view_x(stands_at(d, e, g), g));
    if e.id == anchor || extent.less(min_extent) || dx.at_most(encoded(0x3a83_126f)) {
        None
    } else {
        Some(
            Scored {
                major: extent,
                minor: dx,
                hit: projected_hit(
                    d,
                    e,
                    "camera_left_of:"@ + anchor + ";dx="@ + h(dx, 3),
                    default_aspect(),
                    g,
                ),
            },
        )
    }
}

pub open spec fn left_answer(
    d: DocumentModel,
    id: Seq<char>,
    min_extent: Real,
    g: spec_fn(Calc) -> Answer,
    h: spec_fn(Real, u8) -> Seq<char>,
) -> FoundModel {
    match d.find(id) {
        None => failed("left_of"@, "unknown_entity:"@ + id),
        Some(a) => {
            let x = view_x(stands_at(d, a, g), g);
            found(
                "left_of"@,
                hits_of(
                    collected(
                        d.entities(),
                        d.entities().len() as int,
                        |e: EntityModel| left_candidate(d, e, id, x, min_extent, g, h),
                    ),
                ),
            )
        },
    }
}

/// Whether a projected point lies in the window, with a little margin at its edges.
pub open spec fn in_view(ndc: Vec3) -> bool {
    ndc.x.absolute().at_most(encoded(0x3f86_6666)) && ndc.y.absolute().at_most(encoded(0x3f86_6666))
        && encoded(0xbf80_0000).at_most(ndc.z) && ndc.z.at_most(one())
}

pub open spec fn three(v: Vec3, h: spec_fn(Real, u8) -> Seq<char>) -> Seq<char> {
    h(v.x, 2) + ","@ + h(v.y, 2) + ","@ + (h(v.z, 2) + "]"@)
}

pub open spec fn screen_candidate(
    d: DocumentModel,
    e: EntityModel,
    min_extent: Real,
    aspect: Real,
    g: spec_fn(Calc) -> Answer,
    h: spec_fn(Real, u8) -> Seq<char>,
) -> Option<Scored> {
    let extent = extent_of(e, g);
    match seen_at(aspect, stands_at(d, e, g), g) {
        Some(ndc) => if extent.less(min_extent) || !in_view(ndc) {
            None
        } else {
            Some(
                Scored {
                    major: extent,
                    minor: zero(),
                    hit: projected_hit(d, e, "ndc=["@ + three(ndc, h), aspect, g),
                },
            )
        },
        None => None,
    }
}

pub open spec fn screen_answer(
    d: DocumentModel,
    min_extent: Real,
    aspect: Real,
    g: spec_fn(Calc) -> Answer,
    h: spec_fn(Real, u8) -> Seq<char>,
) -> FoundModel {
    found(
        "on_screen"@,
        hits_of(
            collected(
                d.entities(),
                d.entities().len() as int,
                |e: EntityModel| screen_candidate(d, e, min_extent, aspect, g, h),
            ),
        ),
    )
}

#[verifier::allow_in_spec]
pub fn shade(r: u32, g: u32, b: u32) -> Vec3
    returns
        (Vec3 { x: encoded(r), y: encoded(g), z: encoded(b) }),
{
    Vec3 { x: encoded(r), y: encoded(g), z: encoded(b) }
}

/// Sample colours of a colour name in lower case.
pub open spec fn samples_of(name: Seq<char>) -> Option<Seq<Vec3>> {
    if name == "yellow"@ || name == "amber"@ || name == "mustard"@ {
        Some(
            seq![
                shade(0x3f66_6666, 0x3f40_0000, 0x3df5_c28f),
                shade(0x3f59_999a, 0x3f26_6666, 0x3e19_999a),
                shade(0x3f73_3333, 0x3f4c_cccd, 0x3e4c_cccd),
                shade(0x3f80_0000, 0x3f80_0000, 0x0000_0000),
            ],
        )
    } else if name == "red"@ {
        Some(
            seq![
                shade(0x3f4c_cccd, 0x3e38_51ec, 0x3e0f_5c29),
                shade(0x3f40_0000, 0x3e4c_cccd, 0x3e19_999a),
                shade(0x3f80_0000, 0x0000_0000, 0x0000_0000),
                shade(0x3f33_3333, 0x3e19_999a, 0x3df5_c28f),
            ],
        )
    } else if name == "blue"@ {
        Some(
            seq![
                shade(0x3e4c_cccd, 0x3ee6_6666, 0x3f66_6666),
                shade(0x3ee6_6666, 0x3f26_6666, 0x3f73_3333),
                shade(0x3f0c_cccd, 0x3f40_0000, 0x3f73_3333),
                shade(0x3eb3_3333, 0x3f0c_cccd, 0x3f59_999a),
                shade(0x0000_0000, 0x0000_0000, 0x3f80_0000),
            ],
        )
    } else if name == "terracotta"@ || name == "orange"@ {
        Some(
            seq![
                shade(0x3f5c_28f6, 0x3eae_147b, 0x3e61_47ae),
                shade(0x3f66_6666, 0x3ecc_cccd, 0x3e38_51ec),
            ],
        )
    } else if name == "gray"@ || name == "grey"@ || name == "dark"@ {
        Some(
            seq![
                shade(0x3e80_0000, 0x3e80_0000, 0x3e8a_3d71),
                shade(0x3e4c_cccd, 0x3e4c_cccd, 0x3e61_47ae),
            ],
        )
    } else {
        None
    }
}

/// Distance of a colour from the nearest of the first `n` samples.
pub open spec fn nearest(
    c: Vec3,
    samples: Seq<Vec3>,
    n: int,
    g: spec_fn(Calc) -> Answer,
) -> Real
    decreases n,
{
    if n <= 0 {
        encoded(0x7f7f_ffff)
    } else {
        nearest(c, samples, n - 1, g).smaller_of(g(Calc::Distance(c, samples[n - 1])).value)
    }
}

pub open spec fn color_candidate(
    d: DocumentModel,
    e: EntityModel,
    label: Seq<char>,
    samples: Seq<Vec3>,
    min_extent: Real,
    tolerance: Real,
    g: spec_fn(Calc) -> Answer,
    h: spec_fn(Real, u8) -> Seq<char>,
) -> Option<Scored> {
    let extent = extent_of(e, g);
    let c = surface_of(d, e).color;
    let dist = nearest(Vec3 { x: c.r, y: c.g, z: c.b }, samples, samples.len() as int, g);
    if extent.less(min_extent) || !dist.at_most(tolerance) {
        None
    } else {
        Some(
            Scored {
                major: dist.negated(),
                minor: extent,
                hit: plain_hit(e.id, "color≈"@ + label + ";dist="@ + h(dist, 3)),
            },
        )
    }
}

pub open spec fn color_found(
    d: DocumentModel,
    label: Seq<char>,
    samples: Seq<Vec3>,
    min_extent: Real,
    tolerance: Real,
    g: spec_fn(Calc) -> Answer,
    h: spec_fn(Real, u8) -> Seq<char>,
) -> FoundModel {
    found(
        "color_of"@,
        hits_of(
            collected(
                d.entities(),
                d.entities().len() as int,
                |e: EntityModel|
                    color_candidate(d, e, label, samples, min_extent, tolerance, g, h),
            ),
        ),
    )
}

pub open spec fn color_answer(
    d: DocumentModel,
    color: ColorQuery,
    min_extent: Real,
    tolerance: Real,
    g: spec_fn(Calc) -> Answer,
    h: spec_fn(Real, u8) -> Seq<char>,
) -> FoundModel {
    match color {
        ColorQuery::Name(name) => match samples_of(lowered(name@)) {
            None => failed("color_of"@, "unknown_color_name:"@ + name@),
            Some(samples) => color_found(
                d,
                lowered(name@),
                samples,
                min_extent,
                tolerance,
                g,
                h,
            ),
        },
        ColorQuery::Rgba(c) => color_found(
            d,
            "rgba"@,
            seq![Vec3 { x: c.r, y: c.g, z: c.b }],
            min_extent,
            tolerance,
            g,
            h,
        ),
    }
}

pub open spec fn assembly_hit(e: EntityModel, id: Seq<char>) -> Option<HitModel> {
    if e.id == id || begins(e.id, id + "-"@) {
        Some(plain_hit(e.id, "name_prefix:"@ + id))
    } else {
        None
    }
}

pub open spec fn assembly_answer(d: DocumentModel, id: Seq<char>) -> FoundModel {
    if !d.has(id) {
        failed("assembly_of"@, "unknown_entity:"@ + id)
    } else {
        found(
            "assembly_of"@,
            gathered(
                d.entities(),
                d.entities().len() as int,
                |e: EntityModel| assembly_hit(e, id),
            ),
        )
    }
}

/// The answer to a pixel query, given what the id pass came to.
pub open spec fn pixel_answer(ids: Result<IdBuffer, String>, x: u32, y: u32) -> FoundModel {
    match ids {
        Err(e) => failed("pixel"@, e@),
        Ok(buffer) => found(
            "pixel"@,
            match buffer.name_at(x as int, y as int) {
                None => Seq::empty(),
                Some(name) => seq![
                    plain_hit(
                        name,
                        "objectId@("@ + decimal_text(x as nat) + ","@ + decimal_text(y as nat)
                            + ")"@,
                    ),
                ],
            },
        ),
    }
}

/// An entity that others are to keep away from.
pub struct Neighbour {
    pub center: Vec3,
    pub extent: Real,
}

pub open spec fn below(v: Vec3, min: Vec3) -> bool {
    v.x.less(min.x) || v.y.less(min.y) || v.z.less(min.z)
}

/// Whether an entity stands closer to another than their extents and 0.05 more.
pub open spec fn adjacent(
    e: EntityModel,
    w: Vec3,
    n: Neighbour,
    g: spec_fn(Calc) -> Answer,
) -> bool {
    let sum = g(Calc::Add(n.extent, extent_of(e, g))).value;
    let gap = g(Calc::Add(sum, encoded(0x3d4c_cccd))).value;
    g(Calc::Distance(w, n.center)).value.less(gap)
}

pub open spec fn element_hit(
    d: DocumentModel,
    e: EntityModel,
    bbox_min: Option<Vec3>,
    bbox_max: Option<Vec3>,
    y_min: Option<Real>,
    y_max: Option<Real>,
    apart_from: Option<(Seq<char>, Neighbour)>,
    min_extent: Real,
    g: spec_fn(Calc) -> Answer,
    h: spec_fn(Real, u8) -> Seq<char>,
) -> Option<HitModel> {
    let w = stands_at(d, e, g);
    if e.recipe == "empty"@ || extent_of(e, g).less(min_extent) {
        None
    } else if bbox_min is Some && below(w, bbox_min->0) {
        None
    } else if bbox_max is Some && below(bbox_max->0, w) {
        None
    } else if y_min is Some && w.y.less(y_min->0) {
        None
    } else if y_max is Some && (y_max->0).less(w.y) {
        None
    } else if apart_from is Some && ((apart_from->0).0 == e.id || adjacent(
        e,
        w,
        (apart_from->0).1,
        g,
    )) {
        None
    } else {
        Some(plain_hit(e.id, "elements;world=["@ + three(w, h)))
    }
}

/// The entity to keep away from, if it is there.
pub open spec fn kept_apart(
    d: DocumentModel,
    id: Option<Seq<char>>,
    g: spec_fn(Calc) -> Answer,
) -> Option<(Seq<char>, Neighbour)> {
    match id {
        None => None,
        Some(i) => match d.find(i) {
            None => None,
            Some(e) => Some(
                (i, Neighbour { center: stands_at(d, e, g), extent: extent_of(e, g) }),
            ),
        },
    }
}

pub open spec fn elements_answer(
    d: DocumentModel,
    bbox_min: Option<Vec3>,
    bbox_max: Option<Vec3>,
    y_min: Option<Real>,
    y_max: Option<Real>,
    not_adjacent_to: Option<Seq<char>>,
    min_extent: Real,
    g: spec_fn(Calc) -> Answer,
    h: spec_fn(Real, u8) -> Seq<char>,
) -> FoundModel {
    let away = kept_apart(d, not_adjacent_to, g);
    found(
        "elements"@,
        gathered(
            d.entities(),
            d.entities().len() as int,
            |e: EntityModel|
                element_hit(d, e, bbox_min, bbox_max, y_min, y_max, away, min_extent, g, h),
        ),
    )
}

/// The answer to any query but one for a pixel.
pub open spec fn answered(
    d: DocumentModel,
    q: QuerySpec,
    g: spec_fn(Calc) -> Answer,
    h: spec_fn(Real, u8) -> Seq<char>,
) -> FoundModel {
    match q {
        QuerySpec::LeftOf { entity_id, min_extent } => left_answer(
            d,
            entity_id@,
            min_extent,
            g,
            h,
        ),
        QuerySpec::OnScreen { min_extent, aspect } => screen_answer(d, min_extent, aspect, g, h),
        QuerySpec::ColorOf { color, min_extent, tolerance } => color_answer(
            d,
            color,
            min_extent,
            tolerance,
            g,
            h,
        ),
        QuerySpec::AssemblyOf { entity_id } => assembly_answer(d, entity_id@),
        QuerySpec::Pixel { .. } => failed("pixel"@, ""@),
        QuerySpec::Elements {
            bbox_min,
            bbox_max,
            y_min,
            y_max,
            not_adjacent_to,
            min_extent,
        } => elements_answer(
            d,
            bbox_min,
            bbox_max,
            y_min,
            y_max,
            text_in(not_adjacent_to),
            min_extent,
            g,
            h,
        ),
    }
}

/// The id pass may be asked for any document at any size, and every pass it gives is
/// complete.
pub open spec fn passes<I: Fn(&Document, u32, u32) -> Result<IdBuffer, String>>(ids: I) -> bool {
    &&& forall|d: &Document, w: u32, h: u32| #[trigger] call_requires(ids, (d, w, h))
    &&& forall|d: &Document, w: u32, h: u32, r: Result<IdBuffer, String>| #[trigger]
        call_ensures(ids, (d, w, h), r) ==> (r matches Ok(b) ==> b.complete())
}

pub fn entity_extent<F: Fn(Calc) -> Answer>(entity: &Entity, calc: &F) -> (r: Real)
    requires
        answers(*calc),
    ensures
        forall|g: spec_fn(Calc) -> Answer| #[trigger]
            computes(*calc, g) ==> r == extent_of(entity@, g),
{
    let v = calc(Calc::Stretch(entity.mesh.size, entity.transform.scale)).point;
    v.x.max(v.y).max(v.z)
}

fn occluded_by_others<F: Fn(Calc) -> Answer>(
    doc: &Document,
    self_id: &str,
    ndc: Vec3,
    aspect: Real,
    calc: &F,
) -> (r: bool)
    requires
        answers(*calc),
    ensures
        forall|g: spec_fn(Calc) -> Answer| #[trigger]
            computes(*calc, g) ==> r == hidden(doc@, self_id@, ndc, aspect, g),
{
    let view_proj = view_proj_matrix(aspect, calc);
    let list = doc.entities();
    let ghost es = doc@.entities();
    let mut i: usize = 0;
    while i < list.len()
        invariant
            i <= list.len(),
            answers(*calc),
            es == doc@.entities(),
            es == borrowed(list@),
            forall|g: spec_fn(Calc) -> Answer, k: int|
                #![trigger computes(*calc, g), es[k]]
                computes(*calc, g) && 0 <= k < i ==> es[k].id == self_id@ || !shades(
                    doc@,
                    es[k],
                    ndc,
                    aspect,
                    g,
                ),
            forall|g: spec_fn(Calc) -> Answer| #[trigger]
                computes(*calc, g) ==> view_proj == authored_look().view_projection(aspect, g),
        decreases list.len() - i,
    {
        let e: &Entity = list[i];
        assert(es[i as int] == e@);
        if !same(&e.id, self_id) {
            let place = doc.standing_place(e, calc);
            if let Some(other) = project_ndc(view_proj, place, calc) {
                if stands_before(other, ndc, calc) {
                    assert forall|g: spec_fn(Calc) -> Answer| #[trigger]
                        computes(*calc, g) implies hidden(doc@, self_id@, ndc, aspect, g) by {
                        assert(doc@.entities()[i as int].id != self_id@);
                    }
                    return true;
                }
            }
        }
        i += 1;
    }
    assert forall|g: spec_fn(Calc) -> Answer| #[trigger] computes(*calc, g) implies !hidden(
        doc@,
        self_id@,
        ndc,
        aspect,
        g,
    ) by {
        assert(es.len() == list.len());
    }
    false
}

fn with_projection<F: Fn(Calc) -> Answer>(
    doc: &Document,
    e: &Entity,
    reason: String,
    aspect: Real,
    calc: &F,
) -> (r: QueryHit)
    requires
        answers(*calc),
    ensures
        forall|g: spec_fn(Calc) -> Answer| #[trigger]
            computes(*calc, g) ==> r@ == projected_hit(doc@, e@, reason@, aspect, g),
{
    let place = doc.standing_place(e, calc);
    let view_proj = view_proj_matrix(aspect, calc);
    match project_ndc(view_proj, place, calc) {
        Some(ndc) => {
            let occluded = occluded_by_others(doc, &e.id, ndc, aspect, calc);
            QueryHit {
                id: e.id.clone(),
                reason,
                screen: Some(in_window(ndc, calc)),
                depth: Some(ndc.z),
                occluded: Some(occluded),
            }
        },
        None => QueryHit {
            id: e.id.clone(),
            reason,
            screen: None,
            depth: None,
            occluded: None,
        },
    }
}

fn fail(query: &str, error: String) -> (r: QueryResult)
    ensures
        r@ == failed(query@, error@),
{
    let hits: Vec<QueryHit> = Vec::new();
    assert(hit_views(hits@) =~= Seq::<HitModel>::empty());
    QueryResult { ok: false, query: query.to_owned(), hits, error: Some(error) }
}

fn unknown(query: &str, id: &str) -> (r: QueryResult)
    ensures
        r@ == failed(query@, "unknown_entity:"@ + id@),
{
    fail(query, cat2("unknown_entity:", id))
}

fn three_text<T: Fn(Real, u8) -> String>(v: Vec3, text: &T) -> (r: String)
    requires
        writes(*text),
    ensures
        forall|h: spec_fn(Real, u8) -> Seq<char>| #[trigger] shows(*text, h) ==> r@ == three(v, h),
{
    let x = text(v.x, 2);
    let y = text(v.y, 2);
    let z = text(v.z, 2);
    let head = cat4(&x, ",", &y, ",");
    let tail = cat2(&z, "]");
    cat2(&head, &tail)
}

fn query_left_of<F: Fn(Calc) -> Answer, T: Fn(Real, u8) -> String>(
    doc: &Document,
    entity_id: &str,
    min_extent: Real,
    calc: &F,
    text: &T,
) -> (r: QueryResult)
    requires
        answers(*calc),
        writes(*text),
    ensures
        forall|g: spec_fn(Calc) -> Answer, h: spec_fn(Real, u8) -> Seq<char>|
            #![trigger computes(*calc, g), shows(*text, h)]
            computes(*calc, g) && shows(*text, h) ==> r@ == left_answer(
                doc@,
                entity_id@,
                min_extent,
                g,
                h,
            ),
{
    let anchor = match doc.find_entity(entity_id) {
        None => return unknown("left_of", entity_id),
        Some(a) => a,
    };
    let place = doc.standing_place(anchor, calc);
    let view = view_matrix(calc);
    let anchor_x = calc(Calc::Move(view, place)).point.x;
    let list = doc.entities();
    let ghost es = doc@.entities();
    assert(borrowed(list@).len() == list.len());
    let mut ranking = Ranking::new();
    let mut i: usize = 0;
    while i < list.len()
        invariant
            i <= list.len(),
            answers(*calc),
            writes(*text),
            es == doc@.entities(),
            es == borrowed(list@),
            forall|g: spec_fn(Calc) -> Answer, h: spec_fn(Real, u8) -> Seq<char>|
                #![trigger computes(*calc, g), shows(*text, h)]
                computes(*calc, g) && shows(*text, h) ==> ranking@ == collected(
                    es,
                    i as int,
                    |e: EntityModel|
                        left_candidate(doc@, e, entity_id@, anchor_x, min_extent, g, h),
                ),
            forall|g: spec_fn(Calc) -> Answer| #[trigger]
                computes(*calc, g) ==> view == authored_look().view(g),
        decreases list.len() - i,
    {
        let e: &Entity = list[i];
        assert(es[i as int] == e@);
        if !same(&e.id, entity_id) {
            let extent = entity_extent(e, calc);
            if !extent.lt(min_extent) {
                let place = doc.standing_place(e, calc);
                let x = calc(Calc::Move(view, place)).point.x;
                let dx = calc(Calc::Subtract(anchor_x, x)).value;
                if !dx.le(encoded(0x3a83_126f)) {
                    let shown = text(dx, 3);
                    let reason = cat4("camera_left_of:", entity_id, ";dx=", &shown);
                    let hit = with_projection(doc, e, reason, default_aspect(), calc);
                    ranking = ranking.add(extent, dx, hit);
                }
            }
        }
        i += 1;
    }
    QueryResult {
        ok: true,
        query: "left_of".to_owned(),
        hits: ranking.into_hits(),
        error: None,
    }
}

fn query_on_screen<F: Fn(Calc) -> Answer, T: Fn(Real, u8) -> String>(
    doc: &Document,
    min_extent: Real,
    aspect: Real,
    calc: &F,
    text: &T,
) -> (r: QueryResult)
    requires
        answers(*calc),
        writes(*text),
    ensures
        forall|g: spec_fn(Calc) -> Answer, h: spec_fn(Real, u8) -> Seq<char>|
            #![trigger computes(*calc, g), shows(*text, h)]
            computes(*calc, g) && shows(*text, h) ==> r@ == screen_answer(
                doc@,
                min_extent,
                aspect,
                g,
                h,
            ),
{
    let view_proj = view_proj_matrix(aspect, calc);
    let list = doc.entities();
    let ghost es = doc@.entities();
    assert(borrowed(list@).len() == list.len());
    let mut ranking = Ranking::new();
    let mut i: usize = 0;
    while i < list.len()
        invariant
            i <= list.len(),
            answers(*calc),
            writes(*text),
            es == doc@.entities(),
            es == borrowed(list@),
            forall|g: spec_fn(Calc) -> Answer, h: spec_fn(Real, u8) -> Seq<char>|
                #![trigger computes(*calc, g), shows(*text, h)]
                computes(*calc, g) && shows(*text, h) ==> ranking@ == collected(
                    es,
                    i as int,
                    |e: EntityModel| screen_candidate(doc@, e, min_extent, aspect, g, h),
                ),
            forall|g: spec_fn(Calc) -> Answer| #[trigger]
                computes(*calc, g) ==> view_proj == authored_look().view_projection(aspect, g),
        decreases list.len() - i,
    {
        let e: &Entity = list[i];
        assert(es[i as int] == e@);
        let extent = entity_extent(e, calc);
        if !extent.lt(min_extent) {
            let place = doc.standing_place(e, calc);
            if let Some(v) = project_ndc(view_proj, place, calc) {
                if v.x.abs().le(encoded(0x3f86_6666)) && v.y.abs().le(encoded(0x3f86_6666))
                    && encoded(0xbf80_0000).le(v.z) && v.z.le(one()) {
                    let shown = three_text(v, text);
                    let reason = cat2("ndc=[", &shown);
                    let hit = with_projection(doc, e, reason, aspect, calc);
                    ranking = ranking.add(extent, zero(), hit);
                }
            }
        }
        i += 1;
    }
    QueryResult {
        ok: true,
        query: "on_screen".to_owned(),
        hits: ranking.into_hits(),
        error: None,
    }
}

fn named_color_samples(name: &str) -> (r: Option<Vec<Vec3>>)
    ensures
        match r {
            Some(v) => samples_of(name@) == Some(v@),
            None => samples_of(name@) is None,
        },
{
    if same(name, "yellow") || same(name, "amber") || same(name, "mustard") {
        let v = vec![
            shade(0x3f66_6666, 0x3f40_0000, 0x3df5_c28f),
            shade(0x3f59_999a, 0x3f26_6666, 0x3e19_999a),
            shade(0x3f73_3333, 0x3f4c_cccd, 0x3e4c_cccd),
            shade(0x3f80_0000, 0x3f80_0000, 0x0000_0000),
        ];
        assert(v@ =~= samples_of(name@)->0);
        Some(v)
    } else if same(name, "red") {
        let v = vec![
            shade(0x3f4c_cccd, 0x3e38_51ec, 0x3e0f_5c29),
            shade(0x3f40_0000, 0x3e4c_cccd, 0x3e19_999a),
            shade(0x3f80_0000, 0x0000_0000, 0x0000_0000),
            shade(0x3f33_3333, 0x3e19_999a, 0x3df5_c28f),
        ];
        assert(v@ =~= samples_of(name@)->0);
        Some(v)
    } else if same(name, "blue") {
        let v = vec![
            shade(0x3e4c_cccd, 0x3ee6_6666, 0x3f66_6666),
            shade(0x3ee6_6666, 0x3f26_6666, 0x3f73_3333),
            shade(0x3f0c_cccd, 0x3f40_0000, 0x3f73_3333),
            shade(0x3eb3_3333, 0x3f0c_cccd, 0x3f59_999a),
            shade(0x0000_0000, 0x0000_0000, 0x3f80_0000),
        ];
        assert(v@ =~= samples_of(name@)->0);
        Some(v)
    } else if same(name, "terracotta") || same(name, "orange") {
        let v = vec![
            shade(0x3f5c_28f6, 0x3eae_147b, 0x3e61_47ae),
            shade(0x3f66_6666, 0x3ecc_cccd, 0x3e38_51ec),
        ];
        assert(v@ =~= samples_of(name@)->0);
        Some(v)
    } else if same(name, "gray") || same(name, "grey") || same(name, "dark") {
        let v = vec![
            shade(0x3e80_0000, 0x3e80_0000, 0x3e8a_3d71),
            shade(0x3e4c_cccd, 0x3e4c_cccd, 0x3e61_47ae),
        ];
        assert(v@ =~= samples_of(name@)->0);
        Some(v)
    } else {
        None
    }
}

fn nearest_sample<F: Fn(Calc) -> Answer>(c: Vec3, samples: &Vec<Vec3>, calc: &F) -> (r: Real)
    requires
        answers(*calc),
    ensures
        forall|g: spec_fn(Calc) -> Answer| #[trigger]
            computes(*calc, g) ==> r == nearest(c, samples@, samples.len() as int, g),
{
    let mut best = encoded(0x7f7f_ffff);
    let mut i: usize = 0;
    while i < samples.len()
        invariant
            i <= samples.len(),
            answers(*calc),
            forall|g: spec_fn(Calc) -> Answer| #[trigger]
                computes(*calc, g) ==> best == nearest(c, samples@, i as int, g),
        decreases samples.len() - i,
    {
        let d = calc(Calc::Distance(c, samples[i])).value;
        best = best.min(d);
        i += 1;
    }
    best
}

fn find_color<F: Fn(Calc) -> Answer, T: Fn(Real, u8) -> String>(
    doc: &Document,
    label: &str,
    samples: &Vec<Vec3>,
    min_extent: Real,
    tolerance: Real,
    calc: &F,
    text: &T,
) -> (r: QueryResult)
    requires
        answers(*calc),
        writes(*text),
    ensures
        forall|g: spec_fn(Calc) -> Answer, h: spec_fn(Real, u8) -> Seq<char>|
            #![trigger computes(*calc, g), shows(*text, h)]
            computes(*calc, g) && shows(*text, h) ==> r@ == color_found(
                doc@,
                label@,
                samples@,
                min_extent,
                tolerance,
                g,
                h,
            ),
{
    let list = doc.entities();
    let ghost es = doc@.entities();
    assert(borrowed(list@).len() == list.len());
    let mut ranking = Ranking::new();
    let mut i: usize = 0;
    while i < list.len()
        invariant
            i <= list.len(),
            answers(*calc),
            writes(*text),
            es == doc@.entities(),
            es == borrowed(list@),
            forall|g: spec_fn(Calc) -> Answer, h: spec_fn(Real, u8) -> Seq<char>|
                #![trigger computes(*calc, g), shows(*text, h)]
                computes(*calc, g) && shows(*text, h) ==> ranking@ == collected(
                    es,
                    i as int,
                    |e: EntityModel|
                        color_candidate(
                            doc@,
                            e,
                            label@,
                            samples@,
                            min_extent,
                            tolerance,
                            g,
                            h,
                        ),
                ),
        decreases list.len() - i,
    {
        let e: &Entity = list[i];
        assert(es[i as int] == e@);
        let extent = entity_extent(e, calc);
        if !extent.lt(min_extent) {
            let c = doc.resolved_surface(e).color;
            let dist = nearest_sample(Vec3 { x: c.r, y: c.g, z: c.b }, samples, calc);
            if dist.le(tolerance) {
                let shown = text(dist, 3);
                let reason = cat4("color≈", label, ";dist=", &shown);
                ranking = ranking.add(dist.neg(), extent, QueryHit::new(&e.id, &reason));
            }
        }
        i += 1;
    }
    QueryResult {
        ok: true,
        query: "color_of".to_owned(),
        hits: ranking.into_hits(),
        error: None,
    }
}

fn query_color_of<F: Fn(Calc) -> Answer, T: Fn(Real, u8) -> String>(
    doc: &Document,
    color: &ColorQuery,
    min_extent: Real,
    tolerance: Real,
    calc: &F,
    text: &T,
) -> (r: QueryResult)
    requires
        answers(*calc),
        writes(*text),
    ensures
        forall|g: spec_fn(Calc) -> Answer, h: spec_fn(Real, u8) -> Seq<char>|
            #![trigger computes(*calc, g), shows(*text, h)]
            computes(*calc, g) && shows(*text, h) ==> r@ == color_answer(
                doc@,
                *color,
                min_extent,
                tolerance,
                g,
                h,
            ),
{
    match color {
        ColorQuery::Name(name) => {
            let label = lower(name);
            match named_color_samples(&label) {
                None => fail("color_of", cat2("unknown_color_name:", name)),
                Some(samples) => find_color(
                    doc,
                    &label,
                    &samples,
                    min_extent,
                    tolerance,
                    calc,
                    text,
                ),
            }
        },
        ColorQuery::Rgba(c) => {
            let samples = vec![Vec3 { x: c.r, y: c.g, z: c.b }];
            assert(samples@ =~= seq![Vec3 { x: c.r, y: c.g, z: c.b }]);
            find_color(doc, "rgba", &samples, min_extent, tolerance, calc, text)
        },
    }
}

fn push_hit(hits: &mut Vec<QueryHit>, hit: QueryHit)
    ensures
        hit_views(final(hits)@) == hit_views(old(hits)@).push(hit@),
{
    proof {
        map_push(hits@, hit, |h: QueryHit| h@);
    }
    hits.push(hit);
}

fn query_assembly_of(doc: &Document, entity_id: &str) -> (r: QueryResult)
    ensures
        r@ == assembly_answer(doc@, entity_id@),
{
    if doc.find_entity(entity_id).is_none() {
        return unknown("assembly_of", entity_id);
    }
    let prefix = cat2(entity_id, "-");
    let reason = cat2("name_prefix:", entity_id);
    let list = doc.entities();
    let ghost es = doc@.entities();
    assert(borrowed(list@).len() == list.len());
    let mut hits: Vec<QueryHit> = Vec::new();
    let mut i: usize = 0;
    assert(hit_views(hits@) =~= Seq::<HitModel>::empty());
    while i < list.len()
        invariant
            i <= list.len(),
            es == borrowed(list@),
            prefix@ == entity_id@ + "-"@,
            reason@ == "name_prefix:"@ + entity_id@,
            hit_views(hits@) == gathered(
                es,
                i as int,
                |e: EntityModel| assembly_hit(e, entity_id@),
            ),
        decreases list.len() - i,
    {
        let e: &Entity = list[i];
        assert(es[i as int] == e@);
        if same(&e.id, entity_id) || starts_with(&e.id, &prefix) {
            push_hit(&mut hits, QueryHit::new(&e.id, &reason));
        }
        i += 1;
    }
    QueryResult { ok: true, query: "assembly_of".to_owned(), hits, error: None }
}

/// The answer to a pixel query once the id pass is there.
pub fn pixel_result(ids: &Result<IdBuffer, String>, x: u32, y: u32) -> (r: QueryResult)
    requires
        *ids matches Ok(b) ==> b.complete(),
    ensures
        r@ == pixel_answer(*ids, x, y),
{
    match ids {
        Err(e) => fail("pixel", e.clone()),
        Ok(buffer) => {
            let mut hits: Vec<QueryHit> = Vec::new();
            assert(hit_views(hits@) =~= Seq::<HitModel>::empty());
            if let Some(name) = buffer.pick(x, y) {
                let mut reason = cat4(
                    "objectId@(",
                    &decimal(x as u64),
                    ",",
                    &decimal(y as u64),
                );
                reason.push_str(")");
                push_hit(&mut hits, QueryHit::new(name, &reason));
            }
            QueryResult { ok: true, query: "pixel".to_owned(), hits, error: None }
        },
    }
}

spec fn named(away: Option<(String, Neighbour)>) -> Option<(Seq<char>, Neighbour)> {
    match away {
        None => None,
        Some(a) => Some((a.0@, a.1)),
    }
}

fn query_elements<F: Fn(Calc) -> Answer, T: Fn(Real, u8) -> String>(
    doc: &Document,
    bbox_min: Option<Vec3>,
    bbox_max: Option<Vec3>,
    y_min: Option<Real>,
    y_max: Option<Real>,
    not_adjacent_to: &Option<String>,
    min_extent: Real,
    calc: &F,
    text: &T,
) -> (r: QueryResult)
    requires
        answers(*calc),
        writes(*text),
    ensures
        forall|g: spec_fn(Calc) -> Answer, h: spec_fn(Real, u8) -> Seq<char>|
            #![trigger computes(*calc, g), shows(*text, h)]
            computes(*calc, g) && shows(*text, h) ==> r@ == elements_answer(
                doc@,
                bbox_min,
                bbox_max,
                y_min,
                y_max,
                text_in(*not_adjacent_to),
                min_extent,
                g,
                h,
            ),
{
    let away: Option<(String, Neighbour)> = match not_adjacent_to {
        None => None,
        Some(id) => match doc.find_entity(id) {
            None => None,
            Some(e) => Some(
                (
                    id.clone(),
                    Neighbour {
                        center: doc.standing_place(e, calc),
                        extent: entity_extent(e, calc),
                    },
                ),
            ),
        },
    };
    let ghost apart = named(away);
    let list = doc.entities();
    let ghost es = doc@.entities();
    assert(borrowed(list@).len() == list.len());
    let mut hits: Vec<QueryHit> = Vec::new();
    let mut i: usize = 0;
    assert(hit_views(hits@) =~= Seq::<HitModel>::empty());
    while i < list.len()
        invariant
            i <= list.len(),
            answers(*calc),
            writes(*text),
            es == borrowed(list@),
            apart == named(away),
            forall|g: spec_fn(Calc) -> Answer, h: spec_fn(Real, u8) -> Seq<char>|
                #![trigger computes(*calc, g), shows(*text, h)]
                computes(*calc, g) && shows(*text, h) ==> hit_views(hits@) == gathered(
                    es,
                    i as int,
                    |e: EntityModel|
                        element_hit(
                            doc@,
                            e,
                            bbox_min,
                            bbox_max,
                            y_min,
                            y_max,
                            apart,
                            min_extent,
                            g,
                            h,
                        ),
                ),
        decreases list.len() - i,
    {
        let e: &Entity = list[i];
        assert(es[i as int] == e@);
        let extent = entity_extent(e, calc);
        let w = doc.standing_place(e, calc);
        let small = same(&e.mesh.recipe, "empty") || extent.lt(min_extent);
        let low = match bbox_min {
            None => false,
            Some(m) => w.x.lt(m.x) || w.y.lt(m.y) || w.z.lt(m.z),
        };
        let high = match bbox_max {
            None => false,
            Some(m) => m.x.lt(w.x) || m.y.lt(w.y) || m.z.lt(w.z),
        };
        let under = match y_min {
            None => false,
            Some(y) => w.y.lt(y),
        };
        let over = match y_max {
            None => false,
            Some(y) => y.lt(w.y),
        };
        let close = match &away {
            None => false,
            Some((id, n)) => {
                let sum = calc(Calc::Add(n.extent, extent)).value;
                let gap = calc(Calc::Add(sum, encoded(0x3d4c_cccd))).value;
                let distance = calc(Calc::Distance(w, n.center)).value;
                same(&e.id, id) || distance.lt(gap)
            },
        };
        if !small && !low && !high && !under && !over && !close {
            let shown = three_text(w, text);
            let reason = cat2("elements;world=[", &shown);
            push_hit(&mut hits, QueryHit::new(&e.id, &reason));
        }
        i += 1;
    }
    QueryResult { ok: true, query: "elements".to_owned(), hits, error: None }
}

/// A size, or the default where none is named.
pub open spec fn sized(v: Option<u32>, default: u32) -> u32 {
    match v {
        Some(n) => n,
        None => default,
    }
}

/// Answers a query. A pixel query takes its object numbers from an id pass of the document
/// at the size that it names, or at the default one.
pub fn run_query<
    F: Fn(Calc) -> Answer,
    T: Fn(Real, u8) -> String,
    I: Fn(&Document, u32, u32) -> Result<IdBuffer, String>,
>(doc: &Document, spec: &QuerySpec, calc: &F, text: &T, ids: &I) -> (r: QueryResult)
    requires
        answers(*calc),
        writes(*text),
        passes(*ids),
    ensures
        *spec !is Pixel ==> forall|
            g: spec_fn(Calc) -> Answer,
            h: spec_fn(Real, u8) -> Seq<char>,
        |
            #![trigger computes(*calc, g), shows(*text, h)]
            computes(*calc, g) && shows(*text, h) ==> r@ == answered(doc@, *spec, g, h),
        *spec matches QuerySpec::Pixel { x, y, width, height } ==> exists|
            pass: Result<IdBuffer, String>,
        |
            #[trigger] call_ensures(
                *ids,
                (doc, sized(width, DEFAULT_WIDTH), sized(height, DEFAULT_HEIGHT)),
                pass,
            ) && r@ == pixel_answer(pass, x, y),
{
    match spec {
        QuerySpec::LeftOf { entity_id, min_extent } => query_left_of(
            doc,
            entity_id,
            *min_extent,
            calc,
            text,
        ),
        QuerySpec::OnScreen { min_extent, aspect } => query_on_screen(
            doc,
            *min_extent,
            *aspect,
            calc,
            text,
        ),
        QuerySpec::ColorOf { color, min_extent, tolerance } => query_color_of(
            doc,
            color,
            *min_extent,
            *tolerance,
            calc,
            text,
        ),
        QuerySpec::AssemblyOf { entity_id } => query_assembly_of(doc, entity_id),
        QuerySpec::Pixel { x, y, width, height } => {
            let w: u32 = match width {
                Some(w) => *w,
                None => DEFAULT_WIDTH,
            };
            let h: u32 = match height {
                Some(v) => *v,
                None => DEFAULT_HEIGHT,
            };
            let pass = ids(doc, w, h);
            pixel_result(&pass, *x, *y)
        },
        QuerySpec::Elements {
            bbox_min,
            bbox_max,
            y_min,
            y_max,
            not_adjacent_to,
            min_extent,
        } => query_elements(
            doc,
            *bbox_min,
            *bbox_max,
            *y_min,
            *y_max,
            not_adjacent_to,
            *min_extent,
            calc,
            text,
        ),
    }
}

} // verus!
