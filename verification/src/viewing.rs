//! What is looked at: the camera in use, the sun's frame, rows of read-back pictures, and short
//! texts.

use crate::beauty::{
    clamped, digests, id_row, luma_sum, row_at, row_pitch, BeautyDigest, BeautyFrame, IdBuffer,
};
use crate::camera::{basis_of, LookAt, ViewMode, ViewportCameras};
use crate::cards::{banner_size, longest};
use crate::cycles_stream::{down_status, no_less, status_in};
use crate::document::{
    all_finite, bootstrap_model, bound_node, fitted_light, inspected, light_bounds, world_of,
    DocumentModel, EntityModel,
};
use crate::exact::{differs, divides, exact, multiplies};
use crate::formula::{counted, fit_radius, middle, times};
use crate::json::JsonModel;
use crate::light::{covered_radius, direction_of, packed, snapped, sun_view, texel_width, SceneLight};
use crate::motion::exact_on_points;
use crate::numeric::{encoded, one, zero, Answer, Calc, Mat4, Real, Vec3};
use crate::query::pixel_answer;
use crate::rtx::{after_request, RtxState};
use crate::worth::{finite, names_say_worth, small_counts_have_worth, unit, units};
use crate::wrap::{chopped, placed, shortened, Filling};
use vstd::prelude::*;

verus! {

/// The camera in use is the one that the mode names, and it goes by that name.
pub proof fn mode_names_the_camera(c: ViewportCameras)
    ensures
        c.mode == ViewMode::Authored ==> c.active_look() == c.authored && c.mode_name()
            == "authored"@,
        c.mode == ViewMode::Review ==> c.active_look() == c.review && c.mode_name() == "review"@,
{
}

/// A calculator whose cross products stand upright on both factors and whose unit vectors keep the
/// way of what they are made of, as far as their answers are finite.
pub open spec fn square(g: spec_fn(Calc) -> Answer) -> bool {
    &&& forall|a: Vec3, b: Vec3|
        upright((#[trigger] g(Calc::Cross(a, b))).point, a) && upright(
            g(Calc::Cross(a, b)).point,
            b,
        )
    &&& forall|a: Vec3, b: Vec3|
        #![trigger g(Calc::Unit(a)), upright(a, b)]
        upright(a, b) ==> upright(g(Calc::Unit(a)).point, b)
}

/// Two vectors at a right angle.
pub open spec fn upright(a: Vec3, b: Vec3) -> bool {
    units(a.x) * units(b.x) + units(a.y) * units(b.y) + units(a.z) * units(b.z) == 0
}

/// Right stands upright on forward, and up on both of them.
pub proof fn views_are_square(look: LookAt, g: spec_fn(Calc) -> Answer)
    requires
        square(g),
    ensures
        ({
            let (right, up, forward) = basis_of(look, g);
            &&& upright(right, forward)
            &&& upright(up, forward)
            &&& upright(up, right)
            &&& forward == g(Calc::Unit(g(Calc::Gap(look.target, look.eye)).point)).point
        }),
{
    let forward = g(Calc::Unit(g(Calc::Gap(look.target, look.eye)).point)).point;
    let side = g(Calc::Cross(forward, look.up)).point;
    assert(upright(side, forward));
    let right = g(Calc::Unit(side)).point;
    let top = g(Calc::Cross(right, forward)).point;
    assert(upright(top, right) && upright(top, forward));
}

/// Rows of a texture that is read back start a whole number of 256 bytes apart, with room for all
/// their pixels and less than 256 bytes to spare.
pub proof fn rows_start_at_whole_pitches(width: u32)
    ensures
        row_pitch(width) % 256 == 0,
        4 * width <= row_pitch(width) < 4 * width + 256,
{
}

/// Item `x` of row `y` lies `x` items behind the start of the row.
pub proof fn rows_lie_a_pitch_apart<A>(s: Seq<A>, pitch: int, len: int, y: int, x: int)
    requires
        0 <= x < len <= pitch,
        0 <= y,
        y * pitch + len <= s.len(),
        0 <= y * pitch,
    ensures
        row_at(s, pitch, len, y).len() == len,
        row_at(s, pitch, len, y)[x] == s[y * pitch + x],
{
}

/// The number of an object is in the first two bytes of its pixel, the low byte first.
pub proof fn numbers_take_two_bytes(data: Seq<u8>, pitch: int, width: int, y: int, x: int)
    requires
        0 <= x < width,
    ensures
        id_row(data, pitch, width, y).len() == width,
        id_row(data, pitch, width, y)[x] == data[y * pitch + 4 * x] + 256 * data[y * pitch + 4 * x
            + 1],
{
}

/// A number is held between two bounds and stays as it is between them.
pub proof fn sizes_are_held(v: u32, lo: u32, hi: u32)
    requires
        lo <= hi,
    ensures
        lo <= clamped(v, lo, hi) <= hi,
        lo <= v <= hi ==> clamped(v, lo, hi) == v,
        v < lo ==> clamped(v, lo, hi) == lo,
        v > hi ==> clamped(v, lo, hi) == hi,
        no_less(v, lo) >= lo && no_less(v, lo) >= v && (no_less(v, lo) == lo || no_less(v, lo)
            == v),
{
}

/// A pixel query finds what the object pass has at that pixel and nothing else; where the pass
/// failed, so does the query.
pub proof fn pixels_give_their_object(ids: Result<IdBuffer, String>, x: u32, y: u32)
    ensures
        ids matches Err(e) ==> !pixel_answer(ids, x, y).ok && pixel_answer(ids, x, y).error == Some(
            e@,
        ) && pixel_answer(ids, x, y).hits.len() == 0,
        ids matches Ok(b) ==> pixel_answer(ids, x, y).ok && (match b.name_at(x as int, y as int) {
            Some(name) => pixel_answer(ids, x, y).hits.len() == 1 && pixel_answer(
                ids,
                x,
                y,
            ).hits[0].id == name,
            None => pixel_answer(ids, x, y).hits.len() == 0,
        }),
        pixel_answer(ids, x, y).query == "pixel"@,
{
}

/// A text that fits stays as it is. One that does not is cut to the columns that there are, its
/// beginning kept and three dots at its end.
pub proof fn cut_texts_end_in_dots(s: Seq<char>, cols: int, i: int)
    requires
        cols >= 0,
    ensures
        s.len() <= cols ==> shortened(s, cols) == s,
        s.len() > cols ==> shortened(s, cols).len() == cols,
        s.len() > cols && 0 <= i < cols - 3 ==> shortened(s, cols)[i] == s[i],
        s.len() > cols && cols - 3 <= i < cols && 0 <= i ==> shortened(s, cols)[i] == '.',
{
    reveal_strlit("...");
}

/// The longest line is one of the lines, and none is longer.
pub proof fn longest_line_is_a_line(lines: Seq<&str>, n: int, i: int)
    requires
        0 <= n <= lines.len(),
    ensures
        0 <= i < n ==> lines[i]@.len() <= longest(lines, n),
        n > 0 ==> exists|j: int| 0 <= j < n && longest(lines, n) == (#[trigger] lines[j])@.len(),
    decreases n,
{
    if n > 0 {
        longest_line_is_a_line(lines, n - 1, i);
        if n > 1 {
            let j = choose|j: int|
                0 <= j < n - 1 && longest(lines, n - 1) == (#[trigger] lines[j])@.len();
            assert(longest(lines, n) == lines[j]@.len() || longest(lines, n) == lines[n
                - 1]@.len());
        } else {
            assert(longest(lines, 0) == 0);
            assert(longest(lines, 1) == lines[0]@.len());
        }
    }
}

/// A banner has room for its longest line at twelve pixels a letter and for all its lines at
/// eighteen pixels each, with ten pixels around them.
pub proof fn banners_have_room(lines: Seq<&str>, i: int)
    requires
        0 <= i < lines.len(),
    ensures
        banner_size(lines).0 >= 20 + 12 * lines[i]@.len(),
        banner_size(lines).1 >= 20 + 18 * lines.len(),
{
    longest_line_is_a_line(lines, lines.len() as int, i);
}

/// A fresh project has a ground and a box upon it, at its first revision.
pub proof fn fresh_projects_have_a_box_on_a_ground()
    ensures
        ({
            let d = bootstrap_model();
            let es = d.scenes[0].entities;
            &&& d.revision == 1 && d.scenes.len() == 1 && d.log.len() == 0 && d.graphs.len() == 0
            &&& d.light.shadows
            &&& es.len() == 2
            &&& es[0].id == "ground"@ && es[1].id == "box-1"@
            &&& es[0].recipe == "box"@ && es[1].recipe == "box"@
            &&& es[0].parent is None && es[1].parent is None
            &&& units(es[1].size.x) == unit() && units(es[1].size.y) == unit() && units(
                es[1].size.z,
            ) == unit()
            &&& 2 * units(es[1].transform.translation.y) == unit()
            &&& units(es[1].transform.translation.x) == 0 && units(es[1].transform.translation.z)
                == 0
        }),
{
    names_say_worth();
}

/// The sun covers what counts in a scene: it looks at the middle of its bounds, as far as they
/// reach. A scene without anything is lit around a point half a unit up.
pub proof fn sun_covers_the_scene(d: DocumentModel, g: spec_fn(Calc) -> Answer)
    ensures
        ({
            let b = light_bounds(d, d.entities().len() as int, g);
            &&& b.any && all_finite(b.min) ==> fitted_light(d, g).0 == middle(g, b.min, b.max)
                && fitted_light(d, g).1 == fit_radius(g, b.min, b.max)
            &&& !b.any ==> units(fitted_light(d, g).0.x) == 0 && 2 * units(fitted_light(d, g).0.y)
                == unit() && units(fitted_light(d, g).0.z) == 0 && fitted_light(d, g).1.bits
                == 0x4100_0000
        }),
{
    names_say_worth();
}

/// What the shaders get: the camera's matrix as it is, the way of the sun, one for shadows and zero
/// for none, and the share that one of 2048 texels has.
pub proof fn frames_carry_the_sun(
    view_proj: Mat4,
    light: SceneLight,
    center: Vec3,
    radius: Real,
    g: spec_fn(Calc) -> Answer,
)
    requires
        exact(g),
    ensures
        ({
            let f = packed(view_proj, light, center, radius, g);
            let d = direction_of(light, g);
            &&& f.view_proj == view_proj
            &&& f.light_view_proj == sun_view(light, center, covered_radius(radius), g)
            &&& f.light_dir.x == d.x && f.light_dir.y == d.y && f.light_dir.z == d.z
            &&& units(f.light_dir.w) == 0
            &&& light.shadows ==> units(f.shadow.y) == unit()
            &&& !light.shadows ==> units(f.shadow.y) == 0
            &&& finite(f.shadow.z) ==> units(f.shadow.z) * 2048 == unit()
            &&& f.shadow.w == texel_width(covered_radius(radius), g)
        }),
{
    names_say_worth();
    small_counts_have_worth();
    let z = g(Calc::Divide(one(), Real { bits: 0x4500_0000 })).value;
    assert(divides(z, one(), Real { bits: 0x4500_0000 }));
    if finite(z) {
        let (a, u) = (units(z), unit());
        assert(a * 2048 == u) by (nonlinear_arith)
            requires
                a * (2048 * u) == u * u,
                u > 0,
        ;
    }
}

/// The reply of a renderer is read by the names of its members. What is missing counts as idle and
/// not well, and a renderer that is down is an error.
pub proof fn replies_are_read_by_their_names(
    j: JsonModel,
    overlay: bool,
    t: Seq<char>,
    error: Seq<char>,
)
    ensures
        j.member("ok"@) == Some(JsonModel::Bool(true)) ==> status_in(Ok(j), overlay).ok,
        j.member("ok"@) == Some(JsonModel::Bool(false)) ==> !status_in(Ok(j), overlay).ok,
        j.member("ok"@) is None ==> !status_in(Ok(j), overlay).ok,
        j.member("state"@) == Some(JsonModel::Text(t)) ==> status_in(Ok(j), overlay).state == t,
        j.member("state"@) is None ==> status_in(Ok(j), overlay).state == "idle"@,
        j.member("error"@) == Some(JsonModel::Text(t)) ==> status_in(Ok(j), overlay).error == Some(
            t,
        ),
        status_in(Ok(j), overlay).overlay == overlay,
        !status_in(Err(error), overlay).ok,
        !down_status(overlay, error).ok,
        down_status(overlay, error).state == "error"@,
        down_status(overlay, error).error == Some(error),
        down_status(overlay, error).overlay == overlay,
{
}

/// Asking for ray tracing is remembered, and withdrawing clears what was begun; neither makes it
/// active nor changes what is supported.
pub proof fn ray_tracing_is_only_asked_for(s: RtxState, requested: bool)
    ensures
        ({
            let r = after_request(s, requested);
            &&& r.requested == requested
            &&& !r.active
            &&& r.supported == s.supported
            &&& requested ==> r.configured == s.configured && r.building == s.building && r.stale
                == s.stale && r.failed == s.failed
            &&& !requested ==> !r.configured && !r.building && !r.stale && !r.failed
        }),
{
}

/// A summary tells an entity by its id, with the place that it has in the world, the colour that
/// it shows and the graph that it is bound to.
pub proof fn summaries_tell_the_world(
    d: DocumentModel,
    e: EntityModel,
    g: spec_fn(Calc) -> Answer,
)
    ensures
        inspected(d, e, g).id == e.id,
        inspected(d, e, g).graph_id == e.graph_id,
        bound_node(d, e) is None ==> inspected(d, e, g).color == e.color,
        world_of(d, e.id, g) matches Some(m) ==> inspected(d, e, g).translation == g(
            Calc::Decompose(m),
        ).pose.translation,
        world_of(d, e.id, g) is None ==> inspected(d, e, g).translation == e.transform.translation,
{
}

/// The sun looks at a point from where its light comes: the eye stands against its way, a little
/// more than twice the radius off, and the picture spans the radius to each side. Up is upright,
/// unless the sun is so high that it is level.
pub proof fn sun_looks_along_its_way(
    light: SceneLight,
    center: Vec3,
    radius: Real,
    g: spec_fn(Calc) -> Answer,
) -> (r: (Vec3, Vec3, Vec3, Real, Real))
    requires
        exact(g),
        exact_on_points(g),
    ensures
        ({
            let (eye, at, up, off, far) = r;
            let reach = covered_radius(radius);
            let d = direction_of(light, g);
            &&& sun_view(light, center, radius, g) == g(
                Calc::Product(
                    g(Calc::Parallel(reach, Real { bits: 0x3f00_0000 }, far)).matrix,
                    g(Calc::View(eye, at, up)).matrix,
                ),
            ).matrix
            &&& finite(eye.x) ==> (units(at.x) - units(eye.x)) * unit() == units(d.x) * units(off)
            &&& finite(eye.y) ==> (units(at.y) - units(eye.y)) * unit() == units(d.y) * units(off)
            &&& finite(eye.z) ==> (units(at.z) - units(eye.z)) * unit() == units(d.z) * units(off)
            &&& finite(off) ==> units(off) * unit() == units(reach) * units(
                Real { bits: 0x400c_cccd },
            )
            &&& finite(far) ==> units(far) == 5 * units(reach)
            &&& units(up.x) == 0
            &&& (units(up.y) == unit() && units(up.z) == 0) || (units(up.y) == 0 && units(up.z)
                == unit())
        }),
{
    names_say_worth();
    small_counts_have_worth();
    let d = direction_of(light, g);
    let reach = covered_radius(radius);
    let texel = texel_width(reach, g);
    let at = Vec3 {
        x: snapped(center.x, texel, g),
        y: snapped(center.y, texel, g),
        z: snapped(center.z, texel, g),
    };
    let off = times(g, reach, encoded(0x400c_cccd));
    let way = g(Calc::Scale(d, off)).point;
    let eye = g(Calc::Gap(at, way)).point;
    let far = times(g, reach, encoded(0x40a0_0000));
    let up = if encoded(0x3f6b_851f).less(d.y.absolute()) {
        Vec3 { x: zero(), y: zero(), z: one() }
    } else {
        Vec3 { x: zero(), y: one(), z: zero() }
    };
    assert(multiplies(g(Calc::Multiply(reach, encoded(0x400c_cccd))).value, reach, encoded(
        0x400c_cccd,
    )));
    assert(multiplies(g(Calc::Multiply(reach, encoded(0x40a0_0000))).value, reach, encoded(
        0x40a0_0000,
    )));
    if finite(far) {
        let (a, b, u) = (units(far), units(reach), unit());
        assert(a == 5 * b) by (nonlinear_arith)
            requires
                a * u == b * (5 * u),
                u > 0,
        ;
    }
    assert(differs(eye.x, at.x, way.x) && differs(eye.y, at.y, way.y) && differs(
        eye.z,
        at.z,
        way.z,
    ));
    assert(multiplies(way.x, d.x, off) && multiplies(way.y, d.y, off) && multiplies(
        way.z,
        d.z,
        off,
    ));
    (eye, at, up, off, far)
}

/// A word goes on the open line as long as it fits there behind a blank, and starts a new line
/// otherwise; a word that fits no line is cut into full ones.
pub proof fn words_share_lines_while_they_fit(f: Filling, word: Seq<char>, cols: int)
    requires
        word.len() > 0,
    ensures
        word.len() <= cols && f.open.len() == 0 ==> placed(f, word, cols).lines == f.lines
            && placed(f, word, cols).open == word,
        f.open.len() > 0 && f.open.len() + 1 + word.len() <= cols ==> placed(f, word, cols).lines
            == f.lines && placed(f, word, cols).open == f.open + seq![' '] + word,
        word.len() <= cols && f.open.len() > 0 && f.open.len() + 1 + word.len() > cols ==> placed(
            f,
            word,
            cols,
        ).lines == f.lines.push(f.open) && placed(f, word, cols).open == word,
        word.len() > cols > 0 && f.open.len() == 0 ==> placed(f, word, cols).lines.len()
            > f.lines.len() && placed(f, word, cols).lines[f.lines.len() as int] == word.take(cols),
{
    if f.open.len() > 0 && f.open.len() + 1 + word.len() <= cols {
        assert(f.open.push(' ') + word =~= f.open + seq![' '] + word);
    }
    if word.len() > cols > 0 && f.open.len() == 0 {
        let more = f.lines.push(word.take(cols));
        chops_keep_lines(more, word.skip(cols), cols);
        assert(more[f.lines.len() as int] == word.take(cols));
    }
}

proof fn chops_keep_lines(lines: Seq<Seq<char>>, word: Seq<char>, cols: int)
    requires
        cols > 0,
        lines.len() > 0,
    ensures
        chopped(lines, word, cols).lines.len() >= lines.len(),
        forall|i: int|
            0 <= i < lines.len() ==> chopped(lines, word, cols).lines[i] == #[trigger] lines[i],
    decreases word.len(),
{
    if word.len() > cols {
        let more = lines.push(word.take(cols));
        chops_keep_lines(more, word.skip(cols), cols);
        assert forall|i: int| 0 <= i < lines.len() implies chopped(lines, word, cols).lines[i]
            == #[trigger] lines[i] by {
            assert(more[i] == lines[i]);
        }
    }
}

/// A digest is of its frame: its size, revision and camera, the hash of its bytes, and a mean
/// brightness that over all pixels makes up their sum.
pub proof fn digests_measure_their_frame(
    d: BeautyDigest,
    f: BeautyFrame,
    g: spec_fn(Calc) -> Answer,
)
    requires
        exact(g),
        digests(d, f, g),
        f.width * f.height <= u32::MAX,
    ensures
        d.width == f.width && d.height == f.height && d.revision == f.revision && d.camera@
            == f.camera@,
        d.hash@ == crate::beauty::hex_text(crate::beauty::sha256(f.rgba@)),
        f.width > 0 && f.height > 0 && finite(d.mean_luma) ==> units(d.mean_luma) * (f.width
            * f.height) == units(luma_sum(f.rgba@, (f.rgba.len() / 4) as int, g)),
{
    names_say_worth();
    let n: int = f.width * f.height;
    assert(n > 0 <==> f.width > 0 && f.height > 0) by (nonlinear_arith)
        requires
            n == f.width * f.height,
            f.width >= 0,
            f.height >= 0,
    ;
    if n > 0 && finite(d.mean_luma) {
        let s = luma_sum(f.rgba@, (f.rgba.len() / 4) as int, g);
        let c = counted(g, n as u64);
        assert(divides(g(Calc::Divide(s, c)).value, s, c));
        assert(units(c) == n * unit());
        let (m, t, u) = (units(d.mean_luma), units(s), unit());
        assert(m * n == t) by (nonlinear_arith)
            requires
                m * (n * u) == t * u,
                u > 0,
        ;
    }
}

} // verus!
