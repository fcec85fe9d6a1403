//! What words on a command line and in a message come to.

use crate::args::{
    closed_off, cut, flag, flag_from, names_in, numbers, opened_up, pieces, scanned, triple_of,
    vector_in, whole_number, word_in,
};
use crate::cli::{
    apply_refusal, apply_scan, asked, commanded, default_launch, launched, ApplyScan, Asked,
    CommandModel, LaunchModel,
};
use crate::mailbox::{HistoryAction, ProjectAction};
use crate::mcp::decimal_is_scanned;
use crate::numeric::{Real, Vec3};
use crate::query::{ColorModel, QueryModel};
use crate::text::{
    decimal_text, is_space, joined, lower_char, lowered, trimmed, without_leading, without_trailing,
};
use crate::wrap::{upper_char, uppered};
use vstd::prelude::*;

verus! {

/// The value of a flag is the argument right behind its first occurrence; a flag that does not
/// occur, or only as the last argument, has none.
pub proof fn flag_value_follows_the_flag(args: Seq<Seq<char>>, name: Seq<char>)
    ensures
        match flag(args, name) {
            Some(v) => exists|i: int|
                0 <= i < args.len() - 1 && #[trigger] args[i] == name && args[i + 1] == v && (
                forall|j: int| 0 <= j < i ==> args[j] != name),
            None => forall|i: int| 0 <= i < args.len() - 1 ==> #[trigger] args[i] != name,
        },
{
    flag_found_from(args, name, 0);
}

proof fn flag_found_from(args: Seq<Seq<char>>, name: Seq<char>, from: int)
    requires
        0 <= from,
        forall|j: int| 0 <= j < from && j < args.len() ==> args[j] != name,
    ensures
        match flag_from(args, name, from) {
            Some(v) => exists|i: int|
                from <= i < args.len() - 1 && #[trigger] args[i] == name && args[i + 1] == v && (
                forall|j: int| 0 <= j < i ==> args[j] != name),
            None => forall|i: int| from <= i < args.len() - 1 ==> #[trigger] args[i] != name,
        },
    decreases args.len() - from,
{
    if from + 1 < args.len() {
        if args[from] == name {
            assert(args[from] == name && args[from + 1] == flag_from(args, name, from)->0);
        } else {
            flag_found_from(args, name, from + 1);
        }
    }
}

/// Splitting at commas loses nothing: the pieces hold no comma, and with commas between them they
/// are the text again.
pub proof fn pieces_make_the_text(s: Seq<char>)
    ensures
        joined(pieces(s), ","@) == s,
        forall|i: int, j: int|
            0 <= i < pieces(s).len() && 0 <= j < (#[trigger] pieces(s)[i]).len()
                ==> #[trigger] pieces(s)[i][j] != ',',
{
    cut_makes_the_text(s, s.len() as int);
    assert(s.take(s.len() as int) =~= s);
}

proof fn cut_makes_the_text(s: Seq<char>, n: int)
    requires
        0 <= n <= s.len(),
    ensures
        joined(cut(s, n).0.push(cut(s, n).1), ","@) == s.take(n),
        forall|j: int| 0 <= j < cut(s, n).1.len() ==> cut(s, n).1[j] != ',',
        forall|i: int, j: int|
            0 <= i < cut(s, n).0.len() && 0 <= j < (#[trigger] cut(s, n).0[i]).len()
                ==> #[trigger] cut(s, n).0[i][j] != ',',
    decreases n,
{
    reveal_strlit(",");
    if n > 0 {
        cut_makes_the_text(s, n - 1);
        let (done, open) = cut(s, n - 1);
        let before = done.push(open);
        assert(s.take(n) =~= s.take(n - 1).push(s[n - 1]));
        if s[n - 1] == ',' {
            let all = before.push(Seq::<char>::empty());
            assert(all.drop_last() =~= before);
            assert(joined(all, ","@) == joined(before, ","@) + ","@ + Seq::<char>::empty());
            assert(joined(all, ","@) =~= s.take(n));
        } else {
            let more = open.push(s[n - 1]);
            let all = done.push(more);
            assert(all.drop_last() =~= done && before.drop_last() =~= done);
            if done.len() > 0 {
                assert(joined(all, ","@) == joined(done, ","@) + ","@ + more);
                assert(joined(before, ","@) == joined(done, ","@) + ","@ + open);
            }
            assert(joined(all, ","@) =~= s.take(n));
        }
    } else {
        let one = cut(s, 0).0.push(cut(s, 0).1);
        assert(one.len() == 1 && one[0] =~= s.take(0));
    }
}

/// A whole number that was written out is read as itself, with or without a plus sign, as long as
/// it is not too large.
pub proof fn written_numbers_are_read(n: nat, max: nat)
    requires
        n <= max,
    ensures
        whole_number(decimal_text(n), max) == Ok::<nat, Seq<char>>(n),
{
    let t = decimal_text(n);
    assert(t.take(t.len() as int) =~= t);
    decimal_is_scanned(t, n, max);
}

/// Three numbers with commas between them are read in order.
pub proof fn triples_are_read_in_order(s: Seq<char>, v: Vec3, k: spec_fn(Seq<char>) -> Option<Real>)
    requires
        pieces(s).len() == 3,
        k(trimmed(pieces(s)[0])) == Some(v.x),
        k(trimmed(pieces(s)[1])) == Some(v.y),
        k(trimmed(pieces(s)[2])) == Some(v.z),
    ensures
        triple_of(s, k) == Some(v),
{
    reveal_with_fuel(numbers, 4);
}

/// A launch keeps the arguments that are no flags of its own, in order.
pub proof fn launch_keeps_the_rest(args: Seq<Seq<char>>, i: int, l: LaunchModel)
    requires
        0 <= i <= args.len(),
        forall|j: int|
            0 <= j < args.len() ==> (#[trigger] args[j]) != "--document"@ && args[j]
                != "--mailbox"@ && args[j] != "--mcp"@,
    ensures
        launched(args, i, l) == Ok::<LaunchModel, Seq<char>>(
            LaunchModel { rest: l.rest + args.skip(i), ..l },
        ),
    decreases args.len() - i,
{
    if i < args.len() {
        assert(args[i] != "--document"@);
        launch_keeps_the_rest(args, i + 1, LaunchModel { rest: l.rest.push(args[i]), ..l });
        assert(l.rest.push(args[i]) + args.skip(i + 1) =~= l.rest + args.skip(i));
    } else {
        assert(l.rest + args.skip(i) =~= l.rest);
    }
}

/// Flags may stand behind everything else: one for the document or the mailbox replaces what was
/// said before, and one for the adapter turns it on.
pub proof fn launch_takes_late_flags(
    args: Seq<Seq<char>>,
    value: Seq<char>,
    i: int,
    l: LaunchModel,
)
    requires
        0 <= i <= args.len(),
        launched(args, i, l) is Ok,
    ensures
        launched(args.push("--document"@).push(value), i, l) == Ok::<LaunchModel, Seq<char>>(
            LaunchModel { document: value, ..launched(args, i, l)->Ok_0 },
        ),
        launched(args.push("--mailbox"@).push(value), i, l) == Ok::<LaunchModel, Seq<char>>(
            LaunchModel { mailbox: value, ..launched(args, i, l)->Ok_0 },
        ),
        launched(args.push("--mcp"@), i, l) == Ok::<LaunchModel, Seq<char>>(
            LaunchModel { mcp: true, ..launched(args, i, l)->Ok_0 },
        ),
    decreases args.len() - i,
{
    let d = args.push("--document"@).push(value);
    let m = args.push("--mailbox"@).push(value);
    let a = args.push("--mcp"@);
    if i < args.len() {
        assert(d[i] == args[i] && m[i] == args[i] && a[i] == args[i]);
        if args[i] == "--document"@ {
            assert(d[i + 1] == args[i + 1] && m[i + 1] == args[i + 1] && a[i + 1] == args[i + 1]);
            launch_takes_late_flags(
                args,
                value,
                i + 2,
                LaunchModel { document: args[i + 1], ..l },
            );
        } else if args[i] == "--mailbox"@ {
            assert(d[i + 1] == args[i + 1] && m[i + 1] == args[i + 1] && a[i + 1] == args[i + 1]);
            launch_takes_late_flags(args, value, i + 2, LaunchModel { mailbox: args[i + 1], ..l });
        } else if args[i] == "--mcp"@ {
            launch_takes_late_flags(args, value, i + 1, LaunchModel { mcp: true, ..l });
        } else {
            launch_takes_late_flags(
                args,
                value,
                i + 1,
                LaunchModel { rest: l.rest.push(args[i]), ..l },
            );
        }
    } else {
        reveal_strlit("--document");
        reveal_strlit("--mailbox");
        reveal_strlit("--mcp");
        assert("--document"@.len() == 10 && "--mailbox"@.len() == 9 && "--mcp"@.len() == 5);
        assert(d[i] == "--document"@ && d[i + 1] == value && m[i] == "--mailbox"@ && m[i + 1]
            == value && a[i] == "--mcp"@);
        reveal_with_fuel(launched, 2);
    }
}

/// What a launch without arguments says: the document of the directory and the local mailbox.
pub proof fn launch_has_defaults()
    ensures
        default_launch().document == "thinner-floor.json"@,
        default_launch().mailbox == "127.0.0.1:17421"@,
        !default_launch().mcp,
        default_launch().rest.len() == 0,
{
}

/// The kinds of query are different words.
proof fn query_kinds_differ(w: Seq<char>)
    ensures
        w == "color-of"@ || w == "color_of"@ || w == "assembly-of"@ || w == "assembly_of"@ || w
            == "pixel"@ || w == "elements"@ || w == "on-screen"@ || w == "on_screen"@ ==> w
            != "left-of"@ && w != "left_of"@,
        w == "color-of"@ || w == "color_of"@ || w == "assembly-of"@ || w == "assembly_of"@ || w
            == "pixel"@ || w == "elements"@ ==> w != "on-screen"@ && w != "on_screen"@,
        w == "assembly-of"@ || w == "assembly_of"@ || w == "pixel"@ || w == "elements"@ ==> w
            != "color-of"@ && w != "color_of"@,
        w == "pixel"@ || w == "elements"@ ==> w != "assembly-of"@ && w != "assembly_of"@,
        "pixel"@ != "elements"@,
{
    reveal_strlit("left-of");
    reveal_strlit("left_of");
    reveal_strlit("on-screen");
    reveal_strlit("on_screen");
    reveal_strlit("color-of");
    reveal_strlit("color_of");
    reveal_strlit("assembly-of");
    reveal_strlit("assembly_of");
    reveal_strlit("pixel");
    reveal_strlit("elements");
    assert("left-of"@.len() == 7 && "left_of"@.len() == 7 && "on-screen"@.len() == 9
        && "on_screen"@.len() == 9 && "color-of"@.len() == 8 && "color_of"@.len() == 8
        && "assembly-of"@.len() == 11 && "assembly_of"@.len() == 11 && "pixel"@.len() == 5
        && "elements"@.len() == 8);
    assert("color-of"@[0] == 'c' && "color_of"@[0] == 'c' && "elements"@[0] == 'e');
}

/// Questions on the command line ask what their words say. The entity comes from its flag, or else
/// is the first word behind the kind; bounds come from the flags of their names, a lower one as a
/// lower one and an upper one as an upper one.
pub proof fn questions_ask_what_they_say(
    kind: Seq<char>,
    rest: Seq<Seq<char>>,
    k: spec_fn(Seq<char>) -> Option<Real>,
)
    requires
        rest.len() > 0,
    ensures
        ({
            let q = asked(seq![kind] + rest, k);
            let entity = match flag(rest, "--entity"@) {
                Some(e) => e,
                None => rest[0],
            };
            &&& kind == "left-of"@ || kind == "left_of"@ ==> (q matches Asked::Plain(
                QueryModel::LeftOf { entity_id, min_extent },
            ) && entity_id == entity && (flag(rest, "--min-extent"@) is None ==> min_extent.bits
                == 0x3eb3_3333) && (flag(rest, "--min-extent"@) matches Some(t) ==> (k(t) matches Some(
                x,
            ) ==> min_extent == x)))
            &&& kind == "on-screen"@ || kind == "on_screen"@ ==> (q matches Asked::Plain(
                QueryModel::OnScreen { min_extent, aspect },
            ) && (flag(rest, "--min-extent"@) is None ==> min_extent.bits == 0x3eb3_3333) && (flag(
                rest,
                "--aspect"@,
            ) is None ==> aspect.bits == 0x3fc0_0000) && (flag(rest, "--aspect"@) matches Some(t)
                ==> (k(t) matches Some(x) ==> aspect == x)))
            &&& kind == "color-of"@ || kind == "color_of"@ ==> (flag(rest, "--color"@) matches Some(
                t,
            ) ==> (q matches Asked::Plain(
                QueryModel::ColorOf { color: ColorModel::Name(name), tolerance, .. },
            ) ==> name == t && (flag(rest, "--tolerance"@) matches Some(u) ==> (k(u) matches Some(
                x,
            ) ==> tolerance == x))))
            &&& kind == "assembly-of"@ || kind == "assembly_of"@ ==> (q matches Asked::Plain(
                QueryModel::AssemblyOf { entity_id },
            ) && entity_id == entity)
            &&& kind == "elements"@ ==> {
                &&& q matches Asked::Plain(
                    QueryModel::Elements {
                        bbox_min,
                        bbox_max,
                        y_min,
                        y_max,
                        not_adjacent_to,
                        min_extent,
                    },
                )
                &&& flag(rest, "--bbox-min"@) matches Some(t) ==> bbox_min == triple_of(t, k)
                &&& flag(rest, "--bbox-min"@) is None ==> bbox_min is None
                &&& flag(rest, "--bbox-max"@) matches Some(t) ==> bbox_max == triple_of(t, k)
                &&& flag(rest, "--bbox-max"@) is None ==> bbox_max is None
                &&& flag(rest, "--y-min"@) matches Some(t) ==> y_min == k(t)
                &&& flag(rest, "--y-min"@) is None ==> y_min is None
                &&& flag(rest, "--y-max"@) matches Some(t) ==> y_max == k(t)
                &&& flag(rest, "--y-max"@) is None ==> y_max is None
                &&& not_adjacent_to == flag(rest, "--not-adjacent-to"@)
            }
            &&& kind == "pixel"@ ==> (q matches Asked::Plain(p) ==> {
                &&& p matches QueryModel::Pixel { x, y, width, height }
                &&& flag(rest, "--x"@) matches Some(t) && whole_number(t, u32::MAX as nat) == Ok::<
                    nat,
                    Seq<char>,
                >(x as nat)
                &&& flag(rest, "--y"@) matches Some(t) && whole_number(t, u32::MAX as nat) == Ok::<
                    nat,
                    Seq<char>,
                >(y as nat)
                &&& width == word_in(flag(rest, "--width"@))
                &&& height == word_in(flag(rest, "--height"@))
            })
        }),
{
    query_kinds_differ(kind);
    let args = seq![kind] + rest;
    assert(args.skip(1) =~= rest);
    assert(args[0] == kind);
    if kind == "pixel"@ {
        whole_numbers_fit(rest);
    }
}

proof fn whole_numbers_fit(rest: Seq<Seq<char>>)
    ensures
        flag(rest, "--x"@) matches Some(t) ==> (whole_number(t, u32::MAX as nat) matches Ok(n)
            ==> n <= u32::MAX),
        flag(rest, "--y"@) matches Some(t) ==> (whole_number(t, u32::MAX as nat) matches Ok(n)
            ==> n <= u32::MAX),
{
    if let Some(t) = flag(rest, "--x"@) {
        scanned_fits(t, 0, 0, u32::MAX as nat);
        scanned_fits(t, 1, 0, u32::MAX as nat);
    }
    if let Some(t) = flag(rest, "--y"@) {
        scanned_fits(t, 0, 0, u32::MAX as nat);
        scanned_fits(t, 1, 0, u32::MAX as nat);
    }
}

proof fn scanned_fits(s: Seq<char>, i: int, v: nat, max: nat)
    requires
        v <= max,
    ensures
        scanned(s, i, v, max) matches Ok(n) ==> n <= max,
    decreases s.len() - i,
{
    if i < s.len() && crate::text::is_digit(s[i]) {
        let next = (10 * v + (s[i] as int - 48)) as nat;
        if next <= max {
            scanned_fits(s, i + 1, next, max);
        }
    }
}

/// Going back and forth in history, and saving, opening and creating projects, are asked for by
/// their own words; a project's path comes from its flag, or else is the next word.
pub proof fn history_and_project_words(
    rest: Seq<Seq<char>>,
    k: spec_fn(Seq<char>) -> Option<Real>,
)
    requires
        rest.len() > 0,
    ensures
        ({
            let h = crate::cli::history_call(rest);
            let p = crate::cli::project_call(rest);
            let path = match flag(rest, "--path"@) {
                Some(t) => Some(t),
                None => if rest.len() > 1 {
                    Some(rest[1])
                } else {
                    None
                },
            };
            &&& rest[0] == "undo"@ ==> h == CommandModel::History(HistoryAction::Undo)
            &&& rest[0] == "redo"@ ==> h == CommandModel::History(HistoryAction::Redo)
            &&& rest[0] == "list"@ ==> h == CommandModel::History(HistoryAction::List)
            &&& rest[0] == "save"@ ==> p == CommandModel::Project(
                ProjectAction::Save,
                flag(rest, "--path"@),
            )
            &&& rest[0] == "open"@ ==> p == CommandModel::Project(ProjectAction::Open, path)
            &&& rest[0] == "create"@ ==> p == CommandModel::Project(ProjectAction::Create, path)
            &&& rest[0] == "list"@ ==> p == CommandModel::Project(
                ProjectAction::List,
                flag(rest, "--path"@),
            )
        }),
{
    reveal_strlit("undo");
    reveal_strlit("redo");
    reveal_strlit("list");
    reveal_strlit("save");
    reveal_strlit("open");
    reveal_strlit("create");
    assert("undo"@[0] == 'u' && "redo"@[0] == 'r' && "list"@[0] == 'l' && "save"@[0] == 's'
        && "open"@[0] == 'o' && "create"@[0] == 'c');
}

/// The words for the light: a direction from its flag, and shadows on or off.
pub proof fn light_words(rest: Seq<Seq<char>>, k: spec_fn(Seq<char>) -> Option<Real>)
    ensures
        ({
            let c = crate::cli::other_call("light"@, rest, k);
            &&& c matches CommandModel::Light(direction, shadows)
            &&& direction == vector_in(flag(rest, "--dir"@), k)
            &&& flag(rest, "--shadows"@) == Some("on"@) || flag(rest, "--shadows"@) == Some(
                "true"@,
            ) || flag(rest, "--shadows"@) == Some("1"@) ==> shadows == Some(true)
            &&& flag(rest, "--shadows"@) == Some("off"@) || flag(rest, "--shadows"@) == Some(
                "false"@,
            ) || flag(rest, "--shadows"@) == Some("0"@) ==> shadows == Some(false)
            &&& flag(rest, "--shadows"@) is None ==> shadows is None
        }),
{
    reveal_strlit("light");
    reveal_strlit("play");
    reveal_strlit("rtx");
    reveal_strlit("catalog");
    reveal_strlit("export");
    reveal_strlit("import");
    reveal_strlit("on");
    reveal_strlit("true");
    reveal_strlit("1");
    reveal_strlit("off");
    reveal_strlit("false");
    reveal_strlit("0");
    assert("light"@[0] == 'l' && "play"@[0] == 'p' && "rtx"@[0] == 'r' && "catalog"@[0] == 'c'
        && "export"@[0] == 'e' && "import"@[0] == 'i');
    assert("on"@.len() == 2 && "true"@.len() == 4 && "1"@.len() == 1 && "off"@.len() == 3
        && "false"@.len() == 5 && "0"@.len() == 1);
    assert("1"@[0] == '1' && "0"@[0] == '0');
}

/// The words of commands.
proof fn command_words_differ(w: Seq<char>)
    ensures
        w == "status"@ || w == "inspect"@ || w == "query"@ || w == "apply"@ || w == "history"@ || w
            == "project"@ || w == "render"@ || w == "camera"@ || w == "play"@ || w == "rtx"@ || w
            == "catalog"@ || w == "export"@ || w == "import"@ || w == "light"@ || w == "cycles"@
            || w == "validate"@ || w == "help"@ ==> w != "mcp"@,
        w == "inspect"@ || w == "query"@ || w == "apply"@ || w == "history"@ || w == "project"@ || w
            == "render"@ || w == "camera"@ || w == "play"@ || w == "rtx"@ || w == "catalog"@ || w
            == "export"@ || w == "import"@ || w == "light"@ || w == "cycles"@ || w == "validate"@
            || w == "help"@ ==> w != "status"@,
        w == "query"@ || w == "apply"@ || w == "history"@ || w == "project"@ || w == "render"@ || w
            == "camera"@ || w == "play"@ || w == "rtx"@ || w == "catalog"@ || w == "export"@ || w
            == "import"@ || w == "light"@ || w == "cycles"@ || w == "validate"@ || w == "help"@
            ==> w != "inspect"@,
        w == "apply"@ || w == "history"@ || w == "project"@ || w == "render"@ || w == "camera"@ || w
            == "play"@ || w == "rtx"@ || w == "catalog"@ || w == "export"@ || w == "import"@ || w
            == "light"@ || w == "cycles"@ || w == "validate"@ || w == "help"@ ==> w != "query"@,
        w == "history"@ || w == "project"@ || w == "render"@ || w == "camera"@ || w == "play"@ || w
            == "rtx"@ || w == "catalog"@ || w == "export"@ || w == "import"@ || w == "light"@ || w
            == "cycles"@ || w == "validate"@ || w == "help"@ ==> w != "apply"@,
        w == "project"@ || w == "render"@ || w == "camera"@ || w == "play"@ || w == "rtx"@ || w
            == "catalog"@ || w == "export"@ || w == "import"@ || w == "light"@ || w == "cycles"@
            || w == "validate"@ || w == "help"@ ==> w != "history"@,
        w == "render"@ || w == "camera"@ || w == "play"@ || w == "rtx"@ || w == "catalog"@ || w
            == "export"@ || w == "import"@ || w == "light"@ || w == "cycles"@ || w == "validate"@
            || w == "help"@ ==> w != "project"@,
        w == "camera"@ || w == "play"@ || w == "rtx"@ || w == "catalog"@ || w == "export"@ || w
            == "import"@ || w == "light"@ || w == "cycles"@ || w == "validate"@ || w == "help"@
            ==> w != "render"@,
        w == "play"@ || w == "rtx"@ || w == "catalog"@ || w == "export"@ || w == "import"@ || w
            == "light"@ || w == "cycles"@ || w == "validate"@ || w == "help"@ ==> w != "camera"@,
        w == "rtx"@ || w == "catalog"@ || w == "export"@ || w == "import"@ || w == "light"@ || w
            == "cycles"@ || w == "validate"@ || w == "help"@ ==> w != "play"@,
        w == "catalog"@ || w == "export"@ || w == "import"@ || w == "light"@ || w == "cycles"@ || w
            == "validate"@ || w == "help"@ ==> w != "rtx"@,
        w == "export"@ || w == "import"@ || w == "light"@ || w == "cycles"@ || w == "validate"@ || w
            == "help"@ ==> w != "catalog"@,
        w == "import"@ || w == "light"@ || w == "cycles"@ || w == "validate"@ || w == "help"@ ==> w
            != "export"@,
        w == "light"@ || w == "cycles"@ || w == "validate"@ || w == "help"@ ==> w != "import"@,
        w == "cycles"@ || w == "validate"@ || w == "help"@ ==> w != "light"@,
        w == "validate"@ || w == "help"@ ==> w != "cycles"@,
        "help"@ != "validate"@,
{
    reveal_strlit("mcp");
    reveal_strlit("status");
    reveal_strlit("inspect");
    reveal_strlit("query");
    reveal_strlit("apply");
    reveal_strlit("history");
    reveal_strlit("project");
    reveal_strlit("render");
    reveal_strlit("camera");
    reveal_strlit("play");
    reveal_strlit("rtx");
    reveal_strlit("catalog");
    reveal_strlit("export");
    reveal_strlit("import");
    reveal_strlit("light");
    reveal_strlit("cycles");
    reveal_strlit("validate");
    reveal_strlit("help");
    assert("mcp"@[0] == 'm' && "status"@[0] == 's' && "inspect"@[0] == 'i' && "query"@[0] == 'q'
        && "apply"@[0] == 'a' && "history"@[0] == 'h' && "project"@[0] == 'p' && "render"@[0]
        == 'r' && "camera"@[0] == 'c' && "play"@[0] == 'p' && "rtx"@[0] == 'r' && "catalog"@[0]
        == 'c' && "export"@[0] == 'e' && "import"@[0] == 'i' && "light"@[0] == 'l' && "cycles"@[0]
        == 'c' && "validate"@[0] == 'v' && "help"@[0] == 'h');
    assert("project"@[1] == 'r' && "play"@[1] == 'l' && "render"@[1] == 'e' && "rtx"@[1] == 't'
        && "inspect"@[1] == 'n' && "import"@[1] == 'm' && "history"@[1] == 'i' && "help"@[1]
        == 'e' && "cycles"@[1] == 'y' && "camera"@[2] == 'm' && "catalog"@[2] == 't');
}

/// A command is what its first word says, with what its own flags give; without words the viewport
/// opens.
pub proof fn commands_are_their_words(
    word: Seq<char>,
    rest: Seq<Seq<char>>,
    k: spec_fn(Seq<char>) -> Option<Real>,
)
    ensures
        commanded(false, Seq::empty(), k) is Viewport,
        commanded(true, seq![word] + rest, k) is Mcp,
        ({
            let c = commanded(false, seq![word] + rest, k);
            let path = match flag(rest, "--path"@) {
                Some(t) => Some(t),
                None => if rest.len() > 0 {
                    Some(rest[0])
                } else {
                    None
                },
            };
            &&& word == "mcp"@ ==> c is Mcp
            &&& word == "status"@ ==> c is Status
            &&& word == "inspect"@ ==> c == CommandModel::Inspect(flag(rest, "--slice"@))
            &&& word == "query"@ ==> c == CommandModel::Query(rest)
            &&& word == "apply"@ ==> c == CommandModel::Apply(rest)
            &&& word == "render"@ ==> c == CommandModel::Render(
                word_in(flag(rest, "--width"@)),
                word_in(flag(rest, "--height"@)),
            )
            &&& word == "camera"@ ==> (c matches CommandModel::Camera(mode, eye, target, frame)
                && mode == flag(rest, "--mode"@) && eye == vector_in(
                flag(rest, "--review-eye"@),
                k,
            ) && target == vector_in(flag(rest, "--review-target"@), k) && (frame is Some <==> flag(
                rest,
                "--frame"@,
            ) is Some))
            &&& word == "rtx"@ ==> (c matches CommandModel::Rtx(on) && (flag(rest, "--requested"@)
                == Some("true"@) ==> on == Some(true)) && (flag(rest, "--requested"@) == Some(
                "false"@,
            ) ==> on == Some(false)) && (flag(rest, "--requested"@) is None ==> on is None))
            &&& word == "play"@ ==> (c matches CommandModel::Play(action, time) && (rest.len() > 0
                ==> action == rest[0]) && (rest.len() == 0 ==> action == "stop"@) && time
                == crate::args::number_in(flag(rest, "--time"@), k))
            &&& word == "catalog"@ ==> c is Catalog
            &&& word == "export"@ ==> c == CommandModel::Export(path)
            &&& word == "import"@ ==> c == CommandModel::Import(path)
            &&& word == "light"@ ==> c is Light
            &&& word == "cycles"@ ==> (c matches CommandModel::Cycles(action, samples) && (
            rest.len() > 0 ==> action == rest[0]) && (rest.len() == 0 ==> action == "status"@)
                && samples == word_in(flag(rest, "--samples"@)))
            &&& word == "validate"@ ==> c is Validate
            &&& word == "help"@ ==> c is Help
        }),
{
    command_words_differ(word);
    let args = seq![word] + rest;
    assert(args[0] == word);
    assert(args.skip(1) =~= rest);
    reveal_strlit("true");
    reveal_strlit("false");
    reveal_strlit("1");
    assert("true"@.len() == 4 && "false"@.len() == 5 && "1"@.len() == 1);
}

/// The names of a list, white space around them left out and empty ones dropped, in order.
pub proof fn names_are_trimmed_pieces(ps: Seq<Seq<char>>, n: int, i: int)
    requires
        0 <= n <= ps.len(),
    ensures
        0 <= i < n && trimmed(ps[i]).len() > 0 ==> names_in(ps, n).contains(trimmed(ps[i])),
        forall|j: int| 0 <= j < names_in(ps, n).len() ==> (#[trigger] names_in(ps, n)[j]).len() > 0,
        names_in(ps, n).len() <= n,
    decreases n,
{
    if n > 0 {
        names_are_trimmed_pieces(ps, n - 1, i);
        let before = names_in(ps, n - 1);
        let now = names_in(ps, n);
        if 0 <= i < n && trimmed(ps[i]).len() > 0 {
            if i == n - 1 {
                assert(now[now.len() - 1] == trimmed(ps[i]));
            } else {
                let w = trimmed(ps[i]);
                let j = choose|j: int| 0 <= j < before.len() && before[j] == w;
                assert(now[j] == w);
            }
        }
    }
}

/// Brackets around a text are left out: what remains neither opens with one nor closes with one, and
/// is the text itself where it did neither.
pub proof fn brackets_are_left_out(s: Seq<char>)
    ensures
        opened_up(s).len() > 0 ==> opened_up(s).last() != ']',
        s.len() > 0 && s[0] != '[' && s.last() != ']' ==> opened_up(s) == s,
        opened_up(seq!['['] + s) == opened_up(s),
        opened_up(s).len() <= s.len(),
    decreases s.len(),
{
    let b = seq!['['] + s;
    assert(b.drop_first() =~= s);
    if s.len() > 0 && s[0] == '[' {
        brackets_are_left_out(s.drop_first());
    } else {
        ends_are_closed(s);
    }
}

proof fn ends_are_closed(s: Seq<char>)
    ensures
        closed_off(s).len() > 0 ==> closed_off(s).last() != ']',
        s.len() > 0 && s.last() != ']' ==> closed_off(s) == s,
        closed_off(s).len() <= s.len(),
    decreases s.len(),
{
    if s.len() > 0 && s.last() == ']' {
        ends_are_closed(s.drop_last());
    }
}

/// Every flag of an apply command that is followed by its value sets what it names and leaves the
/// rest as it was; changes are kept in order.
pub proof fn apply_flags_set_what_they_name(
    rest: Seq<Seq<char>>,
    value: Seq<char>,
    n: u64,
    s: ApplyScan,
)
    ensures
        apply_scan(seq!["--label"@, value] + rest, 0, s) == apply_scan(
            seq!["--label"@, value] + rest,
            2,
            ApplyScan { label: Some(value), ..s },
        ),
        apply_scan(seq!["--idempotency-key"@, value] + rest, 0, s) == apply_scan(
            seq!["--idempotency-key"@, value] + rest,
            2,
            ApplyScan { idempotency_key: Some(value), ..s },
        ),
        apply_scan(seq!["--change"@, value] + rest, 0, s) == apply_scan(
            seq!["--change"@, value] + rest,
            2,
            ApplyScan { changes: s.changes.push(value), ..s },
        ),
        apply_scan(seq!["--base-revision"@, decimal_text(n as nat)] + rest, 0, s) == apply_scan(
            seq!["--base-revision"@, decimal_text(n as nat)] + rest,
            2,
            ApplyScan { base_revision: Some(n), ..s },
        ),
{
    reveal_strlit("--label");
    reveal_strlit("--idempotency-key");
    reveal_strlit("--change");
    reveal_strlit("--base-revision");
    assert("--label"@.len() == 7 && "--idempotency-key"@.len() == 17 && "--change"@.len() == 8
        && "--base-revision"@.len() == 15);
    written_numbers_are_read(n as nat, u64::MAX as nat);
    let a = seq!["--label"@, value] + rest;
    let b = seq!["--idempotency-key"@, value] + rest;
    let c = seq!["--change"@, value] + rest;
    let d = seq!["--base-revision"@, decimal_text(n as nat)] + rest;
    assert(a[0] == "--label"@ && a[1] == value && b[0] == "--idempotency-key"@ && b[1] == value
        && c[0] == "--change"@ && c[1] == value && d[0] == "--base-revision"@ && d[1]
        == decimal_text(n as nat));
}

/// An apply command needs a base revision, a key, a label and a change; with all of them it is not
/// refused.
pub proof fn apply_needs_all_its_parts(s: ApplyScan)
    ensures
        apply_refusal(s) is None <==> s.error is None && s.base_revision is Some
            && s.idempotency_key is Some && s.label is Some && s.changes.len() > 0,
        s.error is Some ==> apply_refusal(s) == s.error,
{
}

/// Letters of the alphabet change their case with the others; all else stays as it is.
pub proof fn cases_turn_into_each_other(c: char)
    ensures
        'A' <= c <= 'Z' ==> lower_char(c) as int == c as int + ('a' as int - 'A' as int)
            && upper_char(lower_char(c)) == c,
        'a' <= c <= 'z' ==> upper_char(c) as int == c as int - ('a' as int - 'A' as int)
            && lower_char(upper_char(c)) == c,
        !('A' <= c <= 'Z') ==> lower_char(c) == c,
        !('a' <= c <= 'z') ==> upper_char(c) == c,
{
}

/// A text in another case is as long as before, each letter in its place.
pub proof fn cases_keep_their_places(s: Seq<char>, i: int)
    requires
        0 <= i < s.len(),
    ensures
        lowered(s).len() == s.len(),
        lowered(s)[i] == lower_char(s[i]),
        uppered(s).len() == s.len(),
        uppered(s)[i] == upper_char(s[i]),
        lowered(uppered(s)) == lowered(s),
        lowered(lowered(s)) == lowered(s),
{
    assert(lowered(uppered(s)) =~= lowered(s));
    assert(lowered(lowered(s)) =~= lowered(s));
}

/// Trimming takes white space off both ends and nothing else: the text is white space, what is
/// left, and white space again.
pub proof fn trimming_takes_white_space(s: Seq<char>) -> (r: (int, int))
    ensures
        0 <= r.0 <= r.1 <= s.len(),
        trimmed(s) == s.subrange(r.0, r.1),
        forall|i: int| 0 <= i < r.0 || r.1 <= i < s.len() ==> is_space(#[trigger] s[i]),
        r.0 < r.1 ==> !is_space(s[r.0]) && !is_space(s[r.1 - 1]),
{
    let a = leading_end(s);
    let t = without_leading(s);
    let b = trailing_start(t);
    assert(t.subrange(0, b) =~= s.subrange(a, a + b));
    assert forall|i: int| 0 <= i < a || a + b <= i < s.len() implies is_space(
        #[trigger] s[i],
    ) by {
        if i >= a + b {
            assert(t[i - a] == s[i]);
        }
    }
    if b > 0 {
        assert(t[0] == s[a] && t[b - 1] == s[a + b - 1]);
    }
    (a, a + b)
}

proof fn leading_end(s: Seq<char>) -> (a: int)
    ensures
        0 <= a <= s.len(),
        without_leading(s) == s.subrange(a, s.len() as int),
        forall|i: int| 0 <= i < a ==> is_space(#[trigger] s[i]),
        a < s.len() ==> !is_space(s[a]),
    decreases s.len(),
{
    if s.len() > 0 && is_space(s[0]) {
        let t = s.drop_first();
        let b = leading_end(t);
        assert(t.subrange(b, t.len() as int) =~= s.subrange(b + 1, s.len() as int));
        assert forall|i: int| 0 <= i < b + 1 implies is_space(#[trigger] s[i]) by {
            if i > 0 {
                assert(t[i - 1] == s[i]);
            }
        }
        if b < t.len() {
            assert(t[b] == s[b + 1]);
        }
        b + 1
    } else {
        assert(s.subrange(0, s.len() as int) =~= s);
        0
    }
}

proof fn trailing_start(s: Seq<char>) -> (b: int)
    ensures
        0 <= b <= s.len(),
        without_trailing(s) == s.subrange(0, b),
        forall|i: int| b <= i < s.len() ==> is_space(#[trigger] s[i]),
        b > 0 ==> !is_space(s[b - 1]),
    decreases s.len(),
{
    if s.len() > 0 && is_space(s.last()) {
        let t = s.drop_last();
        let b = trailing_start(t);
        assert(t.subrange(0, b) =~= s.subrange(0, b));
        assert forall|i: int| b <= i < s.len() implies is_space(#[trigger] s[i]) by {
            if i < t.len() {
                assert(t[i] == s[i]);
            }
        }
        b
    } else {
        assert(s.subrange(0, s.len() as int) =~= s);
        s.len() as int
    }
}

} // verus!
