//! A document as a Cycles standalone scene.

use crate::camera::{authored_look, LookAt};
use crate::chain::{
    ancestor_of_parent, circles_do_not_end, found_is_on_no_circle, found_under_its_id,
};
use crate::document::{
    borrowed, bound_node, socket_or, Document, DocumentModel, Entity, EntityModel, NodeModel,
};
use crate::formula::{aim, aim_at, axis_angle, carried, carry, q_axis_angle};
use crate::numeric::{
    answers, computes, encoded, shows, writes, zero, Answer, Calc, Real, Transform, Vec3, SHORTEST,
};
use crate::table::Table;
use crate::text::{cat2, cat3, cat4, chars_of, decimal, decimal_text, same};
use crate::validate::{acyclic, ancestor, cyclic, ids_are_few};
use vstd::prelude::*;

verus! {

/// An entity's placement in the world and the placements found on the way, by id.
pub struct Placed {
    pub pose: Transform,
    pub cache: Map<Seq<char>, Transform>,
}

/// Carries an entity's placement up its chain of parents. A placement that was found before
/// is taken from the cache. `fuel` bounds the chain.
pub open spec fn world_pose(
    d: DocumentModel,
    e: EntityModel,
    cache: Map<Seq<char>, Transform>,
    fuel: nat,
    g: spec_fn(Calc) -> Answer,
) -> Placed
    decreases fuel,
{
    if cache.dom().contains(e.id) {
        Placed { pose: cache[e.id], cache }
    } else {
        let above = match e.parent {
            None => None,
            Some(p) => d.find(p),
        };
        if above is Some && fuel > 0 {
            let up = world_pose(d, above->0, cache, (fuel - 1) as nat, g);
            let pose = carried(g, up.pose, e.transform);
            Placed { pose, cache: up.cache.insert(e.id, pose) }
        } else {
            Placed { pose: e.transform, cache: cache.insert(e.id, e.transform) }
        }
    }
}

/// An entity stands under a circle of parents.
pub open spec fn circle_above(d: DocumentModel, e: EntityModel) -> bool {
    e.parent matches Some(p) && cyclic(d, p)
}

/// No entity that is drawn stands under a circle of parents.
pub open spec fn drawable(d: DocumentModel) -> bool {
    forall|i: int|
        0 <= i < d.entities().len() && (#[trigger] d.entities()[i]).recipe != "empty"@
            ==> !circle_above(d, d.entities()[i])
}

/// Base colour, roughness and metalness as Cycles gets them.
pub struct Shade {
    pub r: Real,
    pub g: Real,
    pub b: Real,
    pub rough: Real,
    pub metal: Real,
}

pub open spec fn node_shade(n: NodeModel) -> Shade {
    Shade {
        r: socket_or(n, "base_color_r"@, encoded(0x3f4c_cccd)),
        g: socket_or(n, "base_color_g"@, encoded(0x3f4c_cccd)),
        b: socket_or(n, "base_color_b"@, encoded(0x3f4c_cccd)),
        rough: socket_or(n, "roughness"@, encoded(0x3f00_0000)),
        metal: socket_or(n, "metallic"@, zero()),
    }
}

pub open spec fn shade_of(d: DocumentModel, e: EntityModel) -> Shade {
    match bound_node(d, e) {
        Some((p, n)) => node_shade(d.graphs[p].nodes[n]),
        None => Shade {
            r: e.color.r,
            g: e.color.g,
            b: e.color.b,
            rough: encoded(0x3ee6_6666),
            metal: zero(),
        },
    }
}

pub open spec fn underscored(c: char) -> char {
    if c == '-' {
        '_'
    } else {
        c
    }
}

/// The name of an entity's shader.
pub open spec fn shader_name(id: Seq<char>) -> Seq<char> {
    "sh_"@ + id.map_values(|c: char| underscored(c))
}

pub open spec fn three_of(
    x: Real,
    y: Real,
    z: Real,
    n: u8,
    h: spec_fn(Real, u8) -> Seq<char>,
) -> Seq<char> {
    h(x, n) + " "@ + h(y, n) + " "@ + h(z, n)
}

/// The camera of a scene.
pub open spec fn camera_xml(
    look: LookAt,
    g: spec_fn(Calc) -> Answer,
    h: spec_fn(Real, u8) -> Seq<char>,
) -> Seq<char> {
    let (yaw, pitch) = aim(g, look.eye, look.target);
    let fov = g(Calc::Radians(look.fov_y_deg)).value;
    ("<transform translate=\""@ + three_of(look.eye.x, look.eye.y, look.eye.z, SHORTEST, h)
        + "\">\n  <transform rotate=\""@ + h(yaw, 5)) + (
    " 0 1 0\">\n    <transform rotate=\""@ + h(pitch, 5)
        + " 1 0 0\" scale=\"1 1 -1\">\n      <camera type=\"perspective\" fov=\""@ + h(fov, 6))
        + "\" />\n    </transform>\n  </transform>\n</transform>"@
}

/// The lines before the first entity.
pub open spec fn preamble(
    width: u32,
    height: u32,
    g: spec_fn(Calc) -> Answer,
    h: spec_fn(Real, u8) -> Seq<char>,
) -> Seq<char> {
    "<cycles>\n<integrator min_bounce=\"0\" max_bounce=\"8\" />\n"@ + (
    "<camera width=\""@ + decimal_text(width as nat) + "\" height=\""@ + decimal_text(
        height as nat,
    )) + "\" />\n"@ + camera_xml(authored_look(), g, h)
        + "\n<background>\n  <sky_texture name=\"sky\" sky_type=\"hosek_wilkie\" />\n  <background name=\"bg\" strength=\"4.0\" />\n  <connect from=\"sky color\" to=\"bg color\" />\n  <connect from=\"bg background\" to=\"output surface\" />\n</background>\n<shader name=\"sun\">\n  <emission name=\"e\" color=\"1.0 0.95 0.85\" strength=\"4.0\" />\n  <connect from=\"e emission\" to=\"output surface\" />\n</shader>\n<state shader=\"sun\">\n  <light light_type=\"sun\" angle=\"0.02\" strength=\"1 1 1\" />\n</state>\n"@
}

/// The shader of an entity.
pub open spec fn shader_xml(
    sid: Seq<char>,
    s: Shade,
    h: spec_fn(Real, u8) -> Seq<char>,
) -> Seq<char> {
    ("<shader name=\""@ + sid + "\">\n  <principled_bsdf name=\"p\" base_color=\""@ + three_of(
        s.r,
        s.g,
        s.b,
        4,
        h,
    )) + ("\" roughness=\""@ + h(s.rough, 4) + "\" metallic=\""@ + h(s.metal, 4))
        + "\" />\n  <connect from=\"p bsdf\" to=\"output surface\" />\n</shader>\n"@
}

/// The opening of an entity's placement, up to its rotation.
pub open spec fn placement_xml(
    pose: Transform,
    g: spec_fn(Calc) -> Answer,
    h: spec_fn(Real, u8) -> Seq<char>,
) -> Seq<char> {
    let t = pose.translation;
    let (angle, axis) = axis_angle(g, pose.rotation);
    ("<transform translate=\""@ + three_of(t.x, t.y, t.z, 5, h) + "\" rotate=\""@ + h(angle, 4)) + (
    " "@ + three_of(axis.x, axis.y, axis.z, 5, h) + "\""@)
}

pub open spec fn half_product(a: Real, b: Real, g: spec_fn(Calc) -> Answer) -> Real {
    g(Calc::Multiply(g(Calc::Multiply(a, b)).value, encoded(0x3f00_0000))).value
}

/// The four corners of a plane.
pub open spec fn plane_points(hx: Real, hz: Real, h: spec_fn(Real, u8) -> Seq<char>) -> Seq<char> {
    (h(hx.negated(), SHORTEST) + " 0 "@ + h(hz, SHORTEST) + "  "@) + (h(hx, SHORTEST) + " 0 "@ + h(
        hz,
        SHORTEST,
    ) + "  "@) + (h(hx, SHORTEST) + " 0 "@ + h(hz.negated(), SHORTEST) + "  "@) + (h(
        hx.negated(),
        SHORTEST,
    ) + " 0 "@ + h(hz.negated(), SHORTEST))
}

pub open spec fn plane_xml(
    e: EntityModel,
    sid: Seq<char>,
    pose: Transform,
    g: spec_fn(Calc) -> Answer,
    h: spec_fn(Real, u8) -> Seq<char>,
) -> Seq<char> {
    let hx = half_product(e.size.x, pose.scale.x, g);
    let hz = half_product(e.size.z, pose.scale.z, g);
    (placement_xml(pose, g, h) + ">\n  <state shader=\""@ + sid + "\">\n    <mesh P=\""@)
        + plane_points(hx, hz, h)
        + "\" nverts=\"4\" verts=\"0 1 2 3\" />\n  </state>\n</transform>\n"@
}

/// Half the edges of a box, or the radius of a sphere three times.
pub open spec fn solid_scale(
    e: EntityModel,
    pose: Transform,
    g: spec_fn(Calc) -> Answer,
) -> Vec3 {
    if e.recipe == "sphere"@ {
        let m = half_product(
            e.size.x.greater_of(e.size.y).greater_of(e.size.z),
            pose.scale.x.greater_of(pose.scale.y).greater_of(pose.scale.z),
            g,
        );
        Vec3 { x: m, y: m, z: m }
    } else {
        Vec3 {
            x: half_product(e.size.x, pose.scale.x, g),
            y: half_product(e.size.y, pose.scale.y, g),
            z: half_product(e.size.z, pose.scale.z, g),
        }
    }
}

pub open spec fn solid_xml(
    e: EntityModel,
    sid: Seq<char>,
    pose: Transform,
    g: spec_fn(Calc) -> Answer,
    h: spec_fn(Real, u8) -> Seq<char>,
) -> Seq<char> {
    let s = solid_scale(e, pose, g);
    let source = if e.recipe == "box"@ {
        "../examples/objects/cube.xml"@
    } else {
        "../examples/objects/sphere.xml"@
    };
    (placement_xml(pose, g, h) + " scale=\""@ + three_of(s.x, s.y, s.z, 5, h)
        + "\">\n  <state interpolation=\"smooth\" shader=\""@) + (sid
        + "\">\n    <include src=\""@ + source) + "\" />\n  </state>\n</transform>\n"@
}

/// A scene under construction: the text so far and the placements found so far.
#[verifier::ext_equal]
pub struct Written {
    pub text: Seq<char>,
    pub cache: Map<Seq<char>, Transform>,
}

/// The scene with one more entity.
pub open spec fn with_entity_xml(
    d: DocumentModel,
    e: EntityModel,
    w: Written,
    g: spec_fn(Calc) -> Answer,
    h: spec_fn(Real, u8) -> Seq<char>,
) -> Written {
    if e.recipe == "empty"@ {
        w
    } else {
        let sid = shader_name(e.id);
        let p = world_pose(d, e, w.cache, d.entities().len(), g);
        let shader = shader_xml(sid, shade_of(d, e), h);
        let body = if e.recipe == "plane"@ {
            plane_xml(e, sid, p.pose, g, h)
        } else if e.recipe == "box"@ || e.recipe == "sphere"@ {
            solid_xml(e, sid, p.pose, g, h)
        } else {
            Seq::empty()
        };
        Written { text: w.text + shader + body, cache: p.cache }
    }
}

/// The scene with the first `n` entities.
pub open spec fn entities_xml(
    d: DocumentModel,
    start: Seq<char>,
    n: int,
    g: spec_fn(Calc) -> Answer,
    h: spec_fn(Real, u8) -> Seq<char>,
) -> Written
    decreases n,
{
    if n <= 0 {
        Written { text: start, cache: Map::empty() }
    } else {
        with_entity_xml(d, d.entities()[n - 1], entities_xml(d, start, n - 1, g, h), g, h)
    }
}

/// The whole scene.
pub open spec fn document_xml_of(
    d: DocumentModel,
    width: u32,
    height: u32,
    g: spec_fn(Calc) -> Answer,
    h: spec_fn(Real, u8) -> Seq<char>,
) -> Seq<char> {
    entities_xml(d, preamble(width, height, g, h), d.entities().len() as int, g, h).text
        + "</cycles>\n"@
}

fn find_pose<F: Fn(Calc) -> Answer>(
    doc: &Document,
    e: &Entity,
    cache: &mut Table<Transform>,
    fuel: usize,
    calc: &F,
) -> (r: Transform)
    requires
        answers(*calc),
    ensures
        forall|g: spec_fn(Calc) -> Answer| #[trigger]
            computes(*calc, g) ==> world_pose(doc@, e@, old(cache)@, fuel as nat, g).pose == r
                && world_pose(doc@, e@, old(cache)@, fuel as nat, g).cache == final(cache)@,
    decreases fuel,
{
    if let Some(p) = cache.get(&e.id) {
        return *p;
    }
    let above = match &e.parent {
        None => None,
        Some(p) => doc.find_entity(p),
    };
    let pose = match above {
        Some(a) => if fuel > 0 {
            let up = find_pose(doc, a, cache, fuel - 1, calc);
            carry(up, e.transform, calc)
        } else {
            e.transform
        },
        None => e.transform,
    };
    cache.insert(&e.id, pose);
    pose
}

fn shader_id(id: &str) -> (r: String)
    ensures
        r@ == shader_name(id@),
{
    let c = chars_of(id);
    let mut out = "sh_".to_owned();
    let mut i: usize = 0;
    assert(out@ =~= "sh_"@ + c@.take(0).map_values(|c: char| underscored(c)));
    while i < c.len()
        invariant
            i <= c.len(),
            out@ == "sh_"@ + c@.take(i as int).map_values(|c: char| underscored(c)),
        decreases c.len() - i,
    {
        let x: char = if c[i] == '-' {
            '_'
        } else {
            c[i]
        };
        out.push(x);
        assert(c@.take(i as int + 1).map_values(|c: char| underscored(c)) =~= c@.take(
            i as int,
        ).map_values(|c: char| underscored(c)).push(x));
        assert(out@ =~= "sh_"@ + c@.take(i as int + 1).map_values(|c: char| underscored(c)));
        i += 1;
    }
    assert(c@.take(c@.len() as int) =~= c@);
    out
}

fn write_three<T: Fn(Real, u8) -> String>(x: Real, y: Real, z: Real, n: u8, text: &T) -> (r: String)
    requires
        writes(*text),
    ensures
        forall|h: spec_fn(Real, u8) -> Seq<char>| #[trigger]
            shows(*text, h) ==> r@ == three_of(x, y, z, n, h),
{
    let a = text(x, n);
    let b = text(y, n);
    let c = text(z, n);
    let mut s = cat4(&a, " ", &b, " ");
    s.push_str(&c);
    s
}

fn write_camera<F: Fn(Calc) -> Answer, T: Fn(Real, u8) -> String>(
    look: LookAt,
    calc: &F,
    text: &T,
) -> (r: String)
    requires
        answers(*calc),
        writes(*text),
    ensures
        forall|g: spec_fn(Calc) -> Answer, h: spec_fn(Real, u8) -> Seq<char>|
            #![trigger computes(*calc, g), shows(*text, h)]
            computes(*calc, g) && shows(*text, h) ==> r@ == camera_xml(look, g, h),
{
    let (turn, rise) = aim_at(look.eye, look.target, calc);
    let view = calc(Calc::Radians(look.fov_y_deg)).value;
    let eye = write_three(look.eye.x, look.eye.y, look.eye.z, SHORTEST, text);
    let yaw = text(turn, 5);
    let pitch = text(rise, 5);
    let fov = text(view, 6);
    let head = cat4("<transform translate=\"", &eye, "\">\n  <transform rotate=\"", &yaw);
    let tail = cat4(
        " 0 1 0\">\n    <transform rotate=\"",
        &pitch,
        " 1 0 0\" scale=\"1 1 -1\">\n      <camera type=\"perspective\" fov=\"",
        &fov,
    );
    cat3(&head, &tail, "\" />\n    </transform>\n  </transform>\n</transform>")
}

fn write_preamble<F: Fn(Calc) -> Answer, T: Fn(Real, u8) -> String>(
    width: u32,
    height: u32,
    calc: &F,
    text: &T,
) -> (r: String)
    requires
        answers(*calc),
        writes(*text),
    ensures
        forall|g: spec_fn(Calc) -> Answer, h: spec_fn(Real, u8) -> Seq<char>|
            #![trigger computes(*calc, g), shows(*text, h)]
            computes(*calc, g) && shows(*text, h) ==> r@ == preamble(width, height, g, h),
{
    let camera = write_camera(authored_look(), calc, text);
    let size = cat4(
        "<camera width=\"",
        &decimal(width as u64),
        "\" height=\"",
        &decimal(height as u64),
    );
    let mut s = cat4(
        "<cycles>\n<integrator min_bounce=\"0\" max_bounce=\"8\" />\n",
        &size,
        "\" />\n",
        &camera,
    );
    s.push_str(
        "\n<background>\n  <sky_texture name=\"sky\" sky_type=\"hosek_wilkie\" />\n  <background name=\"bg\" strength=\"4.0\" />\n  <connect from=\"sky color\" to=\"bg color\" />\n  <connect from=\"bg background\" to=\"output surface\" />\n</background>\n<shader name=\"sun\">\n  <emission name=\"e\" color=\"1.0 0.95 0.85\" strength=\"4.0\" />\n  <connect from=\"e emission\" to=\"output surface\" />\n</shader>\n<state shader=\"sun\">\n  <light light_type=\"sun\" angle=\"0.02\" strength=\"1 1 1\" />\n</state>\n",
    );
    s
}

fn write_shader<T: Fn(Real, u8) -> String>(sid: &str, s: &Shade, text: &T) -> (r: String)
    requires
        writes(*text),
    ensures
        forall|h: spec_fn(Real, u8) -> Seq<char>| #[trigger]
            shows(*text, h) ==> r@ == shader_xml(sid@, *s, h),
{
    let color = write_three(s.r, s.g, s.b, 4, text);
    let rough = text(s.rough, 4);
    let metal = text(s.metal, 4);
    let head = cat4(
        "<shader name=\"",
        sid,
        "\">\n  <principled_bsdf name=\"p\" base_color=\"",
        &color,
    );
    let tail = cat4("\" roughness=\"", &rough, "\" metallic=\"", &metal);
    cat3(
        &head,
        &tail,
        "\" />\n  <connect from=\"p bsdf\" to=\"output surface\" />\n</shader>\n",
    )
}

fn write_placement<F: Fn(Calc) -> Answer, T: Fn(Real, u8) -> String>(
    pose: Transform,
    calc: &F,
    text: &T,
) -> (r: String)
    requires
        answers(*calc),
        writes(*text),
    ensures
        forall|g: spec_fn(Calc) -> Answer, h: spec_fn(Real, u8) -> Seq<char>|
            #![trigger computes(*calc, g), shows(*text, h)]
            computes(*calc, g) && shows(*text, h) ==> r@ == placement_xml(pose, g, h),
{
    let t = pose.translation;
    let (turn, about) = q_axis_angle(pose.rotation, calc);
    let place = write_three(t.x, t.y, t.z, 5, text);
    let angle = text(turn, 4);
    let axis = write_three(about.x, about.y, about.z, 5, text);
    let head = cat4("<transform translate=\"", &place, "\" rotate=\"", &angle);
    let tail = cat3(" ", &axis, "\"");
    cat2(&head, &tail)
}

fn halved<F: Fn(Calc) -> Answer>(a: Real, b: Real, calc: &F) -> (r: Real)
    requires
        answers(*calc),
    ensures
        forall|g: spec_fn(Calc) -> Answer| #[trigger]
            computes(*calc, g) ==> r == half_product(a, b, g),
{
    let p = calc(Calc::Multiply(a, b)).value;
    calc(Calc::Multiply(p, encoded(0x3f00_0000))).value
}

fn write_plane<F: Fn(Calc) -> Answer, T: Fn(Real, u8) -> String>(
    e: &Entity,
    sid: &str,
    pose: Transform,
    calc: &F,
    text: &T,
) -> (r: String)
    requires
        answers(*calc),
        writes(*text),
    ensures
        forall|g: spec_fn(Calc) -> Answer, h: spec_fn(Real, u8) -> Seq<char>|
            #![trigger computes(*calc, g), shows(*text, h)]
            computes(*calc, g) && shows(*text, h) ==> r@ == plane_xml(e@, sid@, pose, g, h),
{
    let hx = halved(e.mesh.size.x, pose.scale.x, calc);
    let hz = halved(e.mesh.size.z, pose.scale.z, calc);
    let px = text(hx, SHORTEST);
    let nx = text(hx.neg(), SHORTEST);
    let pz = text(hz, SHORTEST);
    let nz = text(hz.neg(), SHORTEST);
    let a = cat4(&nx, " 0 ", &pz, "  ");
    let b = cat4(&px, " 0 ", &pz, "  ");
    let c = cat4(&px, " 0 ", &nz, "  ");
    let d = cat3(&nx, " 0 ", &nz);
    let points = cat4(&a, &b, &c, &d);
    let place = write_placement(pose, calc, text);
    let head = cat4(&place, ">\n  <state shader=\"", sid, "\">\n    <mesh P=\"");
    cat3(
        &head,
        &points,
        "\" nverts=\"4\" verts=\"0 1 2 3\" />\n  </state>\n</transform>\n",
    )
}

fn write_solid<F: Fn(Calc) -> Answer, T: Fn(Real, u8) -> String>(
    e: &Entity,
    sid: &str,
    pose: Transform,
    calc: &F,
    text: &T,
) -> (r: String)
    requires
        answers(*calc),
        writes(*text),
    ensures
        forall|g: spec_fn(Calc) -> Answer, h: spec_fn(Real, u8) -> Seq<char>|
            #![trigger computes(*calc, g), shows(*text, h)]
            computes(*calc, g) && shows(*text, h) ==> r@ == solid_xml(e@, sid@, pose, g, h),
{
    let z = e.mesh.size;
    let s = if same(&e.mesh.recipe, "sphere") {
        let m = halved(
            z.x.max(z.y).max(z.z),
            pose.scale.x.max(pose.scale.y).max(pose.scale.z),
            calc,
        );
        Vec3 { x: m, y: m, z: m }
    } else {
        Vec3 {
            x: halved(z.x, pose.scale.x, calc),
            y: halved(z.y, pose.scale.y, calc),
            z: halved(z.z, pose.scale.z, calc),
        }
    };
    let source = if same(&e.mesh.recipe, "box") {
        "../examples/objects/cube.xml"
    } else {
        "../examples/objects/sphere.xml"
    };
    let place = write_placement(pose, calc, text);
    let size = write_three(s.x, s.y, s.z, 5, text);
    let head = cat4(
        &place,
        " scale=\"",
        &size,
        "\">\n  <state interpolation=\"smooth\" shader=\"",
    );
    let tail = cat3(sid, "\">\n    <include src=\"", source);
    cat3(&head, &tail, "\" />\n  </state>\n</transform>\n")
}

fn socket_value(n: &crate::document::GraphNode, name: &str, default: Real) -> (r: Real)
    ensures
        r == socket_or(n@, name@, default),
{
    match n.sockets.get(name) {
        Some(v) => *v,
        None => default,
    }
}

fn shader_color(doc: &Document, e: &Entity) -> (r: Shade)
    ensures
        r == shade_of(doc@, e@),
{
    if let Some(gid) = &e.graph_id {
        if let Some(p) = doc.locate_graph(gid) {
            if let Some(n) = doc.locate_principled(p) {
                let node = &doc.graphs[p].nodes[n];
                assert(doc@.graphs[p as int].nodes[n as int] == node@);
                return Shade {
                    r: socket_value(node, "base_color_r", encoded(0x3f4c_cccd)),
                    g: socket_value(node, "base_color_g", encoded(0x3f4c_cccd)),
                    b: socket_value(node, "base_color_b", encoded(0x3f4c_cccd)),
                    rough: socket_value(node, "roughness", encoded(0x3f00_0000)),
                    metal: socket_value(node, "metallic", zero()),
                };
            }
        }
    }
    let c = e.material.color;
    Shade { r: c.r, g: c.g, b: c.b, rough: encoded(0x3ee6_6666), metal: zero() }
}

/// A document as a Cycles scene of a size, seen by the authored camera.
pub fn document_xml<F: Fn(Calc) -> Answer, T: Fn(Real, u8) -> String>(
    doc: &Document,
    width: u32,
    height: u32,
    calc: &F,
    text: &T,
) -> (r: String)
    requires
        answers(*calc),
        writes(*text),
        drawable(doc@),
    ensures
        forall|g: spec_fn(Calc) -> Answer, h: spec_fn(Real, u8) -> Seq<char>|
            #![trigger computes(*calc, g), shows(*text, h)]
            computes(*calc, g) && shows(*text, h) ==> r@ == document_xml_of(
                doc@,
                width,
                height,
                g,
                h,
            ),
{
    let mut out = write_preamble(width, height, calc, text);
    let list = doc.entities();
    let ghost es = doc@.entities();
    assert(borrowed(list@).len() == list.len());
    let mut cache: Table<Transform> = Table::new();
    let mut i: usize = 0;
    while i < list.len()
        invariant
            i <= list.len(),
            answers(*calc),
            writes(*text),
            es == doc@.entities(),
            es == borrowed(list@),
            es.len() == list.len(),
            forall|g: spec_fn(Calc) -> Answer, h: spec_fn(Real, u8) -> Seq<char>|
                #![trigger computes(*calc, g), shows(*text, h)]
                computes(*calc, g) && shows(*text, h) ==> {
                    let w = entities_xml(doc@, preamble(width, height, g, h), i as int, g, h);
                    w.text == out@ && w.cache == cache@
                },
        decreases list.len() - i,
    {
        let e: &Entity = list[i];
        assert(es[i as int] == e@);
        if !same(&e.mesh.recipe, "empty") {
            let sid = shader_id(&e.id);
            let shade = shader_color(doc, e);
            let shader = write_shader(&sid, &shade, text);
            let pose = find_pose(doc, e, &mut cache, list.len(), calc);
            let body = if same(&e.mesh.recipe, "plane") {
                write_plane(e, &sid, pose, calc, text)
            } else if same(&e.mesh.recipe, "box") || same(&e.mesh.recipe, "sphere") {
                write_solid(e, &sid, pose, calc, text)
            } else {
                String::new()
            };
            out.push_str(&shader);
            out.push_str(&body);
        }
        i += 1;
    }
    out.push_str("</cycles>\n");
    out
}

impl Document {
    /// Whether no entity that is drawn stands under a circle of parents.
    pub fn is_drawable(&self) -> (r: bool)
        ensures
            r == drawable(self@),
    {
        let list = self.entities();
        let ghost es = self@.entities();
        assert(borrowed(list@).len() == list.len());
        let mut i: usize = 0;
        while i < list.len()
            invariant
                i <= list.len(),
                es == self@.entities(),
                es == borrowed(list@),
                es.len() == list.len(),
                forall|k: int|
                    0 <= k < i && (#[trigger] es[k]).recipe != "empty"@ ==> !circle_above(
                        self@,
                        es[k],
                    ),
            decreases list.len() - i,
        {
            let e: &Entity = list[i];
            assert(es[i as int] == e@);
            if !same(&e.mesh.recipe, "empty") {
                if let Some(p) = &e.parent {
                    if self.parent_cycle(p) {
                        return false;
                    }
                }
            }
            i += 1;
        }
        true
    }
}

/// The entity that an entity stands under, where there is one.
pub open spec fn above(d: DocumentModel, e: EntityModel) -> Option<EntityModel> {
    match e.parent {
        None => None,
        Some(p) => d.find(p),
    }
}

/// The chain of parents from an entity ends within so many steps.
pub open spec fn chain_ends(d: DocumentModel, e: EntityModel, steps: nat) -> bool
    decreases steps,
{
    match above(d, e) {
        None => true,
        Some(a) => steps > 0 && chain_ends(d, a, (steps - 1) as nat),
    }
}

/// A chain that does not end within `steps` has that many ancestors, all of which exist.
proof fn long_chain(d: DocumentModel, e: EntityModel, steps: nat, k: nat)
    requires
        !chain_ends(d, e, steps),
        d.find(e.id) == Some(e),
        k <= steps + 1,
    ensures
        ancestor(d, e.id, k) is Some,
        d.has(ancestor(d, e.id, k)->0),
    decreases k,
{
    if k == 0 {
        found_under_its_id(d, e.id);
    } else {
        let a = above(d, e)->0;
        let p = e.parent->0;
        found_under_its_id(d, p);
        ancestor_of_parent(d, e.id, (k - 1) as nat);
        if steps > 0 {
            long_chain(d, a, (steps - 1) as nat, (k - 1) as nat);
        } else {
            assert(k == 1);
            assert(ancestor(d, p, 0) == Some(p));
        }
    }
}

proof fn chain_of_found_ends(d: DocumentModel, e: EntityModel)
    requires
        d.find(e.id) == Some(e),
        !cyclic(d, e.id),
        d.entities().len() > 0,
    ensures
        chain_ends(d, e, (d.entities().len() - 1) as nat),
{
    let n = d.entities().len();
    let steps = (n - 1) as nat;
    if !chain_ends(d, e, steps) {
        let ids = Seq::new(n + 1, |k: int| ancestor(d, e.id, k as nat)->0);
        assert forall|k: int| 0 <= k < ids.len() implies d.has(#[trigger] ids[k]) by {
            long_chain(d, e, steps, k as nat);
        }
        assert forall|i: int, j: int| 0 <= i < j < ids.len() implies ids[i] != ids[j] by {
            long_chain(d, e, steps, i as nat);
            long_chain(d, e, steps, j as nat);
            if ids[i] == ids[j] {
                assert(ancestor(d, e.id, i as nat) == ancestor(d, e.id, j as nat));
            }
        }
        assert(ids.no_duplicates());
        ids_are_few(d, ids);
    }
}

/// A chain of parents that runs in no circle ends within as many steps as there are entities.
pub proof fn chains_end(d: DocumentModel, i: int)
    requires
        0 <= i < d.entities().len(),
        !circle_above(d, d.entities()[i]),
    ensures
        chain_ends(d, d.entities()[i], d.entities().len()),
{
    let e = d.entities()[i];
    if let Some(a) = above(d, e) {
        let p = e.parent->0;
        found_under_its_id(d, p);
        chain_of_found_ends(d, a);
    }
}

proof fn more_fuel_changes_nothing(
    d: DocumentModel,
    e: EntityModel,
    cache: Map<Seq<char>, Transform>,
    fuel: nat,
    more: nat,
    g: spec_fn(Calc) -> Answer,
)
    requires
        chain_ends(d, e, fuel),
    ensures
        world_pose(d, e, cache, fuel + more, g) == world_pose(d, e, cache, fuel, g),
    decreases fuel,
{
    if !cache.dom().contains(e.id) {
        if let Some(a) = above(d, e) {
            more_fuel_changes_nothing(d, a, cache, (fuel - 1) as nat, more, g);
        }
    }
}

/// No placement that is drawn is cut short: following chains of parents further than the number
/// of entities finds nothing more.
pub proof fn placements_follow_whole_chains(
    d: DocumentModel,
    i: int,
    cache: Map<Seq<char>, Transform>,
    more: nat,
    g: spec_fn(Calc) -> Answer,
)
    requires
        drawable(d),
        0 <= i < d.entities().len(),
        d.entities()[i].recipe != "empty"@,
    ensures
        world_pose(d, d.entities()[i], cache, d.entities().len() + more, g) == world_pose(
            d,
            d.entities()[i],
            cache,
            d.entities().len(),
            g,
        ),
{
    chains_end(d, i);
    more_fuel_changes_nothing(d, d.entities()[i], cache, d.entities().len(), more, g);
}

/// A document without circles of parents can be drawn whole, so a valid one can.
pub proof fn acyclic_documents_are_drawable(d: DocumentModel)
    requires
        acyclic(d),
    ensures
        drawable(d),
{
    assert forall|i: int|
        0 <= i < d.entities().len() && (#[trigger] d.entities()[i]).recipe
            != "empty"@ implies !circle_above(d, d.entities()[i]) by {
        if let Some(p) = d.entities()[i].parent {
            if d.has(p) {
                found_is_on_no_circle(d, p);
            } else if cyclic(d, p) {
                circles_do_not_end(d, p, 1);
                ancestor_of_parent(d, p, 0);
            }
        }
    }
}

} // verus!
