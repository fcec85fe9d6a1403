//! What a renderer reads in a written Cycles scene.

use crate::camera::LookAt;
use crate::cycles_xml::{
    above, camera_xml, chain_ends, chains_end, document_xml_of, drawable, entities_xml, plane_xml,
    preamble, shade_of, shader_name, shader_xml, solid_xml, with_entity_xml, world_pose,
};
use crate::document::{DocumentModel, EntityModel};
use crate::formula::{aim, axis_angle, carried, heading};
use crate::laws::distinct_ids;
use crate::numeric::{encoded, one, Answer, Calc, Real, Transform, Vec3, SHORTEST};
use crate::text::decimal_text;
use crate::worth::{finite, names_say_worth, order_is_by_worth, signs_turn_worth, unit, units};
use vstd::prelude::*;

verus! {

/// A text holds another one somewhere.
pub open spec fn within(piece: Seq<char>, whole: Seq<char>) -> bool {
    exists|a: Seq<char>, b: Seq<char>| whole == #[trigger] (a + piece + b)
}

proof fn within_more(piece: Seq<char>, whole: Seq<char>, before: Seq<char>, after: Seq<char>)
    requires
        within(piece, whole),
    ensures
        within(piece, before + whole + after),
{
    let (a, b) = choose|a: Seq<char>, b: Seq<char>| whole == #[trigger] (a + piece + b);
    assert(before + whole + after =~= (before + a) + piece + (b + after));
}

proof fn within_parts(a: Seq<char>, piece: Seq<char>, b: Seq<char>)
    ensures
        within(piece, a + piece + b),
{
}

/// What is written of one drawn entity: its shader, then its shape.
pub open spec fn entity_text(
    d: DocumentModel,
    e: EntityModel,
    pose: Transform,
    g: spec_fn(Calc) -> Answer,
    h: spec_fn(Real, u8) -> Seq<char>,
) -> Seq<char> {
    let sid = shader_name(e.id);
    shader_xml(sid, shade_of(d, e), h) + (if e.recipe == "plane"@ {
        plane_xml(e, sid, pose, g, h)
    } else if e.recipe == "box"@ || e.recipe == "sphere"@ {
        solid_xml(e, sid, pose, g, h)
    } else {
        Seq::empty()
    })
}

/// Where an entity's chain of parents puts it: its own placement carried by its parent's.
pub open spec fn chain_pose(
    d: DocumentModel,
    e: EntityModel,
    fuel: nat,
    g: spec_fn(Calc) -> Answer,
) -> Transform
    decreases fuel,
{
    match above(d, e) {
        None => e.transform,
        Some(a) => if fuel == 0 {
            e.transform
        } else {
            carried(g, chain_pose(d, a, (fuel - 1) as nat, g), e.transform)
        },
    }
}

proof fn more_fuel_same_pose(
    d: DocumentModel,
    e: EntityModel,
    fuel: nat,
    more: nat,
    g: spec_fn(Calc) -> Answer,
)
    requires
        chain_ends(d, e, fuel),
    ensures
        chain_pose(d, e, fuel + more, g) == chain_pose(d, e, fuel, g),
        chain_ends(d, e, fuel + more),
    decreases fuel,
{
    if let Some(a) = above(d, e) {
        more_fuel_same_pose(d, a, (fuel - 1) as nat, more, g);
    }
}

/// Placements found so far are those that chains of parents give.
spec fn true_cache(
    d: DocumentModel,
    cache: Map<Seq<char>, Transform>,
    g: spec_fn(Calc) -> Answer,
) -> bool {
    forall|id: Seq<char>| #[trigger]
        cache.dom().contains(id) ==> (d.find(id) matches Some(e) && chain_ends(
            d,
            e,
            d.entities().len(),
        ) && cache[id] == chain_pose(d, e, d.entities().len(), g))
}

proof fn cached_pose(
    d: DocumentModel,
    e: EntityModel,
    cache: Map<Seq<char>, Transform>,
    fuel: nat,
    g: spec_fn(Calc) -> Answer,
)
    requires
        true_cache(d, cache, g),
        chain_ends(d, e, fuel),
        fuel <= d.entities().len(),
        d.find(e.id) == Some(e),
    ensures
        world_pose(d, e, cache, fuel, g).pose == chain_pose(d, e, d.entities().len(), g),
        true_cache(d, world_pose(d, e, cache, fuel, g).cache, g),
    decreases fuel,
{
    let n = d.entities().len();
    more_fuel_same_pose(d, e, fuel, (n - fuel) as nat, g);
    if !cache.dom().contains(e.id) {
        if let Some(a) = above(d, e) {
            crate::chain::found_under_its_id(d, e.parent->0);
            cached_pose(d, a, cache, (fuel - 1) as nat, g);
            more_fuel_same_pose(d, a, (fuel - 1) as nat, (n - (fuel - 1)) as nat, g);
            more_fuel_same_pose(d, a, (fuel - 1) as nat, (n - fuel) as nat, g);
        }
    }
}

/// With distinct ids, every entity is the one found under its id.
proof fn listed_is_found(d: DocumentModel, k: int)
    requires
        distinct_ids(d),
        0 <= k < d.entities().len(),
    ensures
        d.find(d.entities()[k].id) == Some(d.entities()[k]),
{
    let (s, i) = listed_place(d.scenes, k);
    let id = d.entities()[k].id;
    crate::document::located_in_range(d.scenes, id, 0);
    assert(d.scenes[s].entities[i].id == id);
    let (t, j) = crate::document::located(d.scenes, id, 0)->0;
    assert(d.scenes[t].entities[j].id == id);
    assert(s == t && i == j);
}

/// Every entity of the list stands in some scene.
proof fn listed_place(scenes: Seq<crate::document::SceneModel>, k: int) -> (r: (int, int))
    requires
        0 <= k < crate::document::flat(scenes).len(),
    ensures
        0 <= r.0 < scenes.len(),
        0 <= r.1 < scenes[r.0].entities.len(),
        scenes[r.0].entities[r.1] == crate::document::flat(scenes)[k],
    decreases scenes.len(),
{
    let front = scenes.drop_last();
    let n = crate::document::flat(front).len();
    if k < n {
        let r = listed_place(front, k);
        assert(front[r.0] == scenes[r.0]);
        r
    } else {
        (scenes.len() - 1, k - n)
    }
}

/// Every drawn entity is written, where its chain of parents puts it.
proof fn drawn_entity_is_written(
    d: DocumentModel,
    start: Seq<char>,
    n: int,
    i: int,
    g: spec_fn(Calc) -> Answer,
    h: spec_fn(Real, u8) -> Seq<char>,
)
    requires
        distinct_ids(d),
        drawable(d),
        0 <= n <= d.entities().len(),
    ensures
        true_cache(d, entities_xml(d, start, n, g, h).cache, g),
        0 <= i < n && d.entities()[i].recipe != "empty"@ ==> within(
            entity_text(
                d,
                d.entities()[i],
                chain_pose(d, d.entities()[i], d.entities().len(), g),
                g,
                h,
            ),
            entities_xml(d, start, n, g, h).text,
        ),
    decreases n,
{
    if n > 0 {
        drawn_entity_is_written(d, start, n - 1, i, g, h);
        let e = d.entities()[n - 1];
        let w = entities_xml(d, start, n - 1, g, h);
        let all = entities_xml(d, start, n, g, h).text;
        if e.recipe != "empty"@ {
            listed_is_found(d, n - 1);
            chains_end(d, n - 1);
            cached_pose(d, e, w.cache, d.entities().len(), g);
            let piece = entity_text(d, e, chain_pose(d, e, d.entities().len(), g), g, h);
            assert(all =~= w.text + piece + Seq::<char>::empty());
            if i == n - 1 {
                within_parts(w.text, piece, Seq::empty());
            } else if 0 <= i < n && d.entities()[i].recipe != "empty"@ {
                let old = entity_text(
                    d,
                    d.entities()[i],
                    chain_pose(d, d.entities()[i], d.entities().len(), g),
                    g,
                    h,
                );
                within_more(old, w.text, Seq::empty(), piece);
                assert(Seq::<char>::empty() + w.text + piece =~= all);
            }
        }
    }
}

/// A shape that is read from a file: its placement and its scale, its shader and the file.
pub open spec fn read_shape(
    place: Seq<char>,
    scale: Seq<char>,
    shader: Seq<char>,
    file: Seq<char>,
) -> Seq<char> {
    (place + " scale=\""@ + scale + "\">\n  <state interpolation=\"smooth\" shader=\""@) + (shader
        + "\">\n    <include src=\""@ + file) + "\" />\n  </state>\n</transform>\n"@
}

/// A shape of one four-cornered face: its placement, its shader and its corners.
pub open spec fn flat_shape(place: Seq<char>, shader: Seq<char>, corners: Seq<char>) -> Seq<char> {
    (place + ">\n  <state shader=\""@ + shader + "\">\n    <mesh P=\""@) + corners
        + "\" nverts=\"4\" verts=\"0 1 2 3\" />\n  </state>\n</transform>\n"@
}

/// Every entity is in the scene once for what it is: a box reads the cube of the examples, a
/// sphere the sphere, each under the shader of its own entity, and all of them with the
/// placement that the chain of parents gives.
pub proof fn shapes_are_what_they_are(
    d: DocumentModel,
    i: int,
    width: u32,
    height: u32,
    g: spec_fn(Calc) -> Answer,
    h: spec_fn(Real, u8) -> Seq<char>,
)
    requires
        distinct_ids(d),
        drawable(d),
        0 <= i < d.entities().len(),
    ensures
        ({
            let e = d.entities()[i];
            let pose = chain_pose(d, e, d.entities().len(), g);
            let text = document_xml_of(d, width, height, g, h);
            let sid = shader_name(e.id);
            let place = placed_text(pose, g, h);
            &&& e.recipe == "box"@ ==> within(
                read_shape(
                    place,
                    box_scale(e, pose, g, h),
                    sid,
                    "../examples/objects/cube.xml"@,
                ),
                text,
            )
            &&& e.recipe == "sphere"@ ==> within(
                read_shape(
                    place,
                    sphere_scale(e, pose, g, h),
                    sid,
                    "../examples/objects/sphere.xml"@,
                ),
                text,
            )
            &&& e.recipe == "plane"@ ==> within(
                flat_shape(place, sid, plane_corner_text(e, pose, g, h)),
                text,
            )
        }),
{
    let e = d.entities()[i];
    let pose = chain_pose(d, e, d.entities().len(), g);
    let sid = shader_name(e.id);
    let text = document_xml_of(d, width, height, g, h);
    kinds_differ();
    if e.recipe == "box"@ {
        box_is_a_cube(e, sid, pose, g, h);
        shape_is_written(d, i, solid_xml(e, sid, pose, g, h), width, height, g, h);
    } else if e.recipe == "sphere"@ {
        sphere_is_a_sphere(e, sid, pose, g, h);
        shape_is_written(d, i, solid_xml(e, sid, pose, g, h), width, height, g, h);
    } else if e.recipe == "plane"@ {
        plane_is_flat(e, sid, pose, g, h);
        shape_is_written(d, i, plane_xml(e, sid, pose, g, h), width, height, g, h);
    }
}

/// The text of a box reads the cube of the examples.
pub proof fn box_is_a_cube(
    e: EntityModel,
    sid: Seq<char>,
    pose: Transform,
    g: spec_fn(Calc) -> Answer,
    h: spec_fn(Real, u8) -> Seq<char>,
)
    requires
        e.recipe == "box"@,
    ensures
        solid_xml(e, sid, pose, g, h) == read_shape(
            placed_text(pose, g, h),
            box_scale(e, pose, g, h),
            sid,
            "../examples/objects/cube.xml"@,
        ),
{
    kinds_differ();
}

/// The text of a sphere reads the sphere of the examples.
pub proof fn sphere_is_a_sphere(
    e: EntityModel,
    sid: Seq<char>,
    pose: Transform,
    g: spec_fn(Calc) -> Answer,
    h: spec_fn(Real, u8) -> Seq<char>,
)
    requires
        e.recipe == "sphere"@,
    ensures
        solid_xml(e, sid, pose, g, h) == read_shape(
            placed_text(pose, g, h),
            sphere_scale(e, pose, g, h),
            sid,
            "../examples/objects/sphere.xml"@,
        ),
{
    kinds_differ();
}

proof fn plane_is_flat(
    e: EntityModel,
    sid: Seq<char>,
    pose: Transform,
    g: spec_fn(Calc) -> Answer,
    h: spec_fn(Real, u8) -> Seq<char>,
)
    ensures
        plane_xml(e, sid, pose, g, h) == flat_shape(
            placed_text(pose, g, h),
            sid,
            plane_corner_text(e, pose, g, h),
        ),
{
}

proof fn shape_is_written(
    d: DocumentModel,
    i: int,
    piece: Seq<char>,
    width: u32,
    height: u32,
    g: spec_fn(Calc) -> Answer,
    h: spec_fn(Real, u8) -> Seq<char>,
)
    requires
        distinct_ids(d),
        drawable(d),
        0 <= i < d.entities().len(),
        d.entities()[i].recipe != "empty"@,
        ({
            let e = d.entities()[i];
            entity_text(d, e, chain_pose(d, e, d.entities().len(), g), g, h) == shader_xml(
                shader_name(e.id),
                shade_of(d, e),
                h,
            ) + piece
        }),
    ensures
        within(piece, document_xml_of(d, width, height, g, h)),
        within(
            shader_xml(shader_name(d.entities()[i].id), shade_of(d, d.entities()[i]), h),
            document_xml_of(d, width, height, g, h),
        ),
{
    let e = d.entities()[i];
    let n = d.entities().len() as int;
    let start = preamble(width, height, g, h);
    let body = entities_xml(d, start, n, g, h).text;
    let text = document_xml_of(d, width, height, g, h);
    let all = entity_text(d, e, chain_pose(d, e, d.entities().len(), g), g, h);
    drawn_entity_is_written(d, start, n, i, g, h);
    within_more(all, body, Seq::empty(), "</cycles>\n"@);
    assert(Seq::<char>::empty() + body + "</cycles>\n"@ =~= text);
    part_within(shader_xml(shader_name(e.id), shade_of(d, e), h), piece, all, text);
}

proof fn part_within(head: Seq<char>, piece: Seq<char>, all: Seq<char>, text: Seq<char>)
    requires
        all == head + piece,
        within(all, text),
    ensures
        within(piece, text),
        within(head, text),
{
    let (a, b) = choose|a: Seq<char>, b: Seq<char>| text == #[trigger] (a + all + b);
    assert(text =~= (a + head) + piece + b);
    assert(text =~= a + head + (piece + b));
}

/// The recipes are different words.
pub(crate) proof fn kinds_differ()
    ensures
        "box"@ != "sphere"@,
        "box"@ != "plane"@,
        "box"@ != "empty"@,
        "sphere"@ != "plane"@,
        "sphere"@ != "empty"@,
        "plane"@ != "empty"@,
{
    reveal_strlit("box");
    reveal_strlit("sphere");
    reveal_strlit("plane");
    reveal_strlit("empty");
    assert("box"@.len() == 3 && "sphere"@.len() == 6 && "plane"@.len() == 5);
    assert("plane"@[0] == 'p');
    assert("empty"@[0] == 'e');
}

/// The opening of a placement: where a shape stands and how it is turned.
pub open spec fn placed_text(
    pose: Transform,
    g: spec_fn(Calc) -> Answer,
    h: spec_fn(Real, u8) -> Seq<char>,
) -> Seq<char> {
    let t = pose.translation;
    let (angle, axis) = axis_angle(g, pose.rotation);
    ("<transform translate=\""@ + (h(t.x, 5) + " "@ + h(t.y, 5) + " "@ + h(t.z, 5))
        + "\" rotate=\""@ + h(angle, 4)) + (" "@ + (h(axis.x, 5) + " "@ + h(axis.y, 5) + " "@ + h(
        axis.z,
        5,
    )) + "\""@)
}

/// Half of a product of two numbers.
pub open spec fn halves(a: Real, b: Real, g: spec_fn(Calc) -> Answer) -> Real {
    g(Calc::Multiply(g(Calc::Multiply(a, b)).value, Real { bits: 0x3f00_0000 })).value
}

/// Half the edges of a box as it stands.
pub open spec fn box_scale(
    e: EntityModel,
    pose: Transform,
    g: spec_fn(Calc) -> Answer,
    h: spec_fn(Real, u8) -> Seq<char>,
) -> Seq<char> {
    h(halves(e.size.x, pose.scale.x, g), 5) + " "@ + h(halves(e.size.y, pose.scale.y, g), 5)
        + " "@ + h(halves(e.size.z, pose.scale.z, g), 5)
}

/// The greatest of three numbers.
pub open spec fn top(v: Vec3) -> Real {
    v.x.greater_of(v.y).greater_of(v.z)
}

/// Half the greatest edge of a sphere as it stands, three times.
pub open spec fn sphere_scale(
    e: EntityModel,
    pose: Transform,
    g: spec_fn(Calc) -> Answer,
    h: spec_fn(Real, u8) -> Seq<char>,
) -> Seq<char> {
    let r = h(halves(top(e.size), top(pose.scale), g), 5);
    r + " "@ + r + " "@ + r
}

/// The corners of a plane, around its middle: left and right by half its width, near and far by
/// half its depth, at no height.
pub open spec fn plane_corner_text(
    e: EntityModel,
    pose: Transform,
    g: spec_fn(Calc) -> Answer,
    h: spec_fn(Real, u8) -> Seq<char>,
) -> Seq<char> {
    let x = halves(e.size.x, pose.scale.x, g);
    let z = halves(e.size.z, pose.scale.z, g);
    let right = h(x, SHORTEST);
    let left = h(x.negated(), SHORTEST);
    let near = h(z, SHORTEST);
    let far = h(z.negated(), SHORTEST);
    (left + " 0 "@ + near + "  "@) + (right + " 0 "@ + near + "  "@) + (right + " 0 "@ + far
        + "  "@) + (left + " 0 "@ + far)
}

/// Every drawn entity has its own shader in the scene: with the colour, roughness and metalness
/// of its bound graph, or with its own colour where it has none.
pub proof fn shaders_show_surfaces(
    d: DocumentModel,
    i: int,
    width: u32,
    height: u32,
    g: spec_fn(Calc) -> Answer,
    h: spec_fn(Real, u8) -> Seq<char>,
)
    requires
        distinct_ids(d),
        drawable(d),
        0 <= i < d.entities().len(),
        d.entities()[i].recipe != "empty"@,
    ensures
        ({
            let e = d.entities()[i];
            let s = shade_of(d, e);
            within(
                ("<shader name=\""@ + shader_name(e.id)
                    + "\">\n  <principled_bsdf name=\"p\" base_color=\""@ + (h(s.r, 4) + " "@ + h(
                    s.g,
                    4,
                ) + " "@ + h(s.b, 4))) + ("\" roughness=\""@ + h(s.rough, 4) + "\" metallic=\""@ + h(
                    s.metal,
                    4,
                )) + "\" />\n  <connect from=\"p bsdf\" to=\"output surface\" />\n</shader>\n"@,
                document_xml_of(d, width, height, g, h),
            )
        }),
        crate::document::bound_node(d, d.entities()[i]) is None ==> {
            let e = d.entities()[i];
            let s = shade_of(d, e);
            s.r == e.color.r && s.g == e.color.g && s.b == e.color.b && s.rough.bits
                == 0x3ee6_6666 && s.metal.bits == 0
        },
        crate::document::bound_node(d, d.entities()[i]) matches Some((p, n)) ==> {
            let sockets = d.graphs[p].nodes[n].sockets;
            let s = shade_of(d, d.entities()[i]);
            &&& sockets.dom().contains("base_color_r"@) ==> s.r == sockets["base_color_r"@]
            &&& sockets.dom().contains("base_color_g"@) ==> s.g == sockets["base_color_g"@]
            &&& sockets.dom().contains("base_color_b"@) ==> s.b == sockets["base_color_b"@]
            &&& sockets.dom().contains("roughness"@) ==> s.rough == sockets["roughness"@]
            &&& sockets.dom().contains("metallic"@) ==> s.metal == sockets["metallic"@]
        },
{
    let e = d.entities()[i];
    let pose = chain_pose(d, e, d.entities().len(), g);
    let sid = shader_name(e.id);
    let rest = if e.recipe == "plane"@ {
        plane_xml(e, sid, pose, g, h)
    } else if e.recipe == "box"@ || e.recipe == "sphere"@ {
        solid_xml(e, sid, pose, g, h)
    } else {
        Seq::empty()
    };
    shape_is_written(d, i, rest, width, height, g, h);
}

/// A shader is named after its entity, with a prefix and every hyphen as an underscore.
pub proof fn shaders_are_named_after_entities(id: Seq<char>)
    ensures
        shader_name(id).len() == id.len() + 3,
        shader_name(id).take(3) == seq!['s', 'h', '_'],
        forall|k: int|
            0 <= k < id.len() ==> shader_name(id)[k + 3] == (if (#[trigger] id[k]) == '-' {
                '_'
            } else {
                id[k]
            }),
{
    reveal_strlit("sh_");
    assert(shader_name(id).take(3) =~= seq!['s', 'h', '_']);
}

/// A scene opens with the size of its picture, width before height, then its camera, and closes
/// what it opened.
pub proof fn scenes_open_with_their_size(
    d: DocumentModel,
    width: u32,
    height: u32,
    g: spec_fn(Calc) -> Answer,
    h: spec_fn(Real, u8) -> Seq<char>,
)
    ensures
        ({
            let text = document_xml_of(d, width, height, g, h);
            let head = "<cycles>\n<integrator min_bounce=\"0\" max_bounce=\"8\" />\n"@ + (
            "<camera width=\""@ + decimal_text(width as nat) + "\" height=\""@ + decimal_text(
                height as nat,
            )) + "\" />\n"@;
            &&& text.len() >= head.len()
            &&& text.take(head.len() as int) == head
            &&& text.skip(text.len() - 10) == "</cycles>\n"@
        }),
{
    reveal_strlit("</cycles>\n");
    let start = preamble(width, height, g, h);
    let n = d.entities().len() as int;
    texts_grow(d, start, n, g, h);
    let body = entities_xml(d, start, n, g, h).text;
    let text = document_xml_of(d, width, height, g, h);
    let head = "<cycles>\n<integrator min_bounce=\"0\" max_bounce=\"8\" />\n"@ + (
    "<camera width=\""@ + decimal_text(width as nat) + "\" height=\""@ + decimal_text(
        height as nat,
    )) + "\" />\n"@;
    assert(start.take(head.len() as int) =~= head);
    assert forall|k: int| 0 <= k < head.len() implies text[k] == head[k] by {
        assert(text[k] == body[k]);
        assert(body[k] == body.take(start.len() as int)[k]);
        assert(start[k] == start.take(head.len() as int)[k]);
    }
    assert(text.take(head.len() as int) =~= head);
    assert(text.skip(text.len() - 10) =~= "</cycles>\n"@);
}

proof fn texts_grow(
    d: DocumentModel,
    start: Seq<char>,
    n: int,
    g: spec_fn(Calc) -> Answer,
    h: spec_fn(Real, u8) -> Seq<char>,
)
    ensures
        entities_xml(d, start, n, g, h).text.len() >= start.len(),
        entities_xml(d, start, n, g, h).text.take(start.len() as int) == start,
    decreases n,
{
    if n <= 0 {
        assert(start.take(start.len() as int) =~= start);
    } else {
        texts_grow(d, start, n - 1, g, h);
        let w = entities_xml(d, start, n - 1, g, h);
        let now = with_entity_xml(d, d.entities()[n - 1], w, g, h);
        assert(now.text.len() >= w.text.len());
        assert(now.text.take(start.len() as int) =~= w.text.take(start.len() as int));
    }
}

/// The camera of a scene stands at its eye, turned about the upright by its yaw and then about the
/// level by its pitch, and opens as wide as its view.
pub proof fn cameras_stand_at_their_eye(
    look: LookAt,
    g: spec_fn(Calc) -> Answer,
    h: spec_fn(Real, u8) -> Seq<char>,
)
    ensures
        camera_xml(look, g, h) == ("<transform translate=\""@ + (h(look.eye.x, SHORTEST) + " "@ + h(
            look.eye.y,
            SHORTEST,
        ) + " "@ + h(look.eye.z, SHORTEST)) + "\">\n  <transform rotate=\""@ + h(
            aim(g, look.eye, look.target).0,
            5,
        )) + (" 0 1 0\">\n    <transform rotate=\""@ + h(aim(g, look.eye, look.target).1, 5)
            + " 1 0 0\" scale=\"1 1 -1\">\n      <camera type=\"perspective\" fov=\""@ + h(
            g(Calc::Radians(look.fov_y_deg)).value,
            6,
        )) + "\" />\n    </transform>\n  </transform>\n</transform>"@,
{
}

/// A camera is aimed by the way that it looks: its yaw is the angle of that way about the upright,
/// measured from straight back, and its pitch the angle of its rise.
pub proof fn cameras_look_at_their_target(
    g: spec_fn(Calc) -> Answer,
    eye: Vec3,
    target: Vec3,
)
    ensures
        ({
            let look = heading(g, eye, target);
            &&& aim(g, eye, target).0 == g(
                Calc::Degrees(
                    g(Calc::ArcTangent(look.x.negated(), look.z.negated())).value,
                ),
            ).value
            &&& finite(look.y) && -unit() <= units(look.y) <= unit() ==> aim(g, eye, target).1 == g(
                Calc::Degrees(g(Calc::ArcSine(look.y)).value),
            ).value
        }),
{
    let look = heading(g, eye, target);
    names_say_worth();
    if finite(look.y) && -unit() <= units(look.y) <= unit() {
        signs_turn_worth(one());
        order_is_by_worth(encoded(0xbf80_0000), look.y);
        order_is_by_worth(look.y, one());
        order_is_by_worth(look.y, encoded(0xbf80_0000));
        order_is_by_worth(one(), look.y);
    }
}

} // verus!
