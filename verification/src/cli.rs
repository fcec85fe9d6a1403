//! The command line: what a call asks for.

use crate::apply::ApplyRequest;
use crate::args::{
    argument, either, flag, flag_number, flag_or_nth, flag_value, flag_vec3, flag_word, names_in,
    nth, number_in, parse_triple, parse_whole, parses, parsing, pieces, split_names, tail,
    triple_of, vector_in, whole_number, word_in,
};
use crate::camera::default_aspect;
use crate::change::ApplyChange;
use crate::document::{DEFAULT_DOCUMENT_PATH, DEFAULT_MAILBOX_ADDR};
use crate::mailbox::{HistoryAction, MailboxRequest, MailboxResponse, ProjectAction};
use crate::numeric::{Real, Rgba, Vec3};
use crate::query::{
    default_min_extent, default_tolerance, ColorModel, ColorQuery, QueryModel, QuerySpec,
};
use crate::text::{
    cat2, chars_of, decimal_text, decimal_wide, same, text_in, texts, without_leading,
};
use vstd::prelude::*;

verus! {

/// What the flags before a command say, and the arguments that are left.
#[derive(Debug, PartialEq)]
pub struct Launch {
    pub document: String,
    pub mailbox: String,
    pub mcp: bool,
    pub rest: Vec<String>,
}

#[verifier::ext_equal]
pub struct LaunchModel {
    pub document: Seq<char>,
    pub mailbox: Seq<char>,
    pub mcp: bool,
    pub rest: Seq<Seq<char>>,
}

impl View for Launch {
    type V = LaunchModel;

    open spec fn view(&self) -> LaunchModel {
        LaunchModel {
            document: self.document@,
            mailbox: self.mailbox@,
            mcp: self.mcp,
            rest: texts(self.rest@),
        }
    }
}

/// The launch that arguments from `i` on make of what came before.
pub open spec fn launched(args: Seq<Seq<char>>, i: int, l: LaunchModel) -> Result<
    LaunchModel,
    Seq<char>,
>
    decreases args.len() - i,
{
    if i >= args.len() {
        Ok(l)
    } else if args[i] == "--document"@ {
        if i + 1 < args.len() {
            launched(args, i + 2, LaunchModel { document: args[i + 1], ..l })
        } else {
            Err("--document needs a path"@)
        }
    } else if args[i] == "--mailbox"@ {
        if i + 1 < args.len() {
            launched(args, i + 2, LaunchModel { mailbox: args[i + 1], ..l })
        } else {
            Err("--mailbox needs host:port"@)
        }
    } else if args[i] == "--mcp"@ {
        launched(args, i + 1, LaunchModel { mcp: true, ..l })
    } else {
        launched(args, i + 1, LaunchModel { rest: l.rest.push(args[i]), ..l })
    }
}

pub open spec fn default_launch() -> LaunchModel {
    LaunchModel {
        document: DEFAULT_DOCUMENT_PATH@,
        mailbox: DEFAULT_MAILBOX_ADDR@,
        mcp: false,
        rest: Seq::empty(),
    }
}

/// Takes the flags that may stand anywhere out of the arguments.
pub fn parse_launch(args: &Vec<String>) -> (r: Result<Launch, String>)
    ensures
        match r {
            Ok(l) => launched(texts(args@), 0, default_launch()) == Ok::<LaunchModel, Seq<char>>(
                l@,
            ),
            Err(e) => launched(texts(args@), 0, default_launch()) == Err::<LaunchModel, Seq<char>>(
                e@,
            ),
        },
{
    let ghost all = texts(args@);
    let mut l = Launch {
        document: DEFAULT_DOCUMENT_PATH.to_owned(),
        mailbox: DEFAULT_MAILBOX_ADDR.to_owned(),
        mcp: false,
        rest: Vec::new(),
    };
    assert(l@ =~= default_launch());
    let mut i: usize = 0;
    while i < args.len()
        invariant
            i <= args.len(),
            all == texts(args@),
            launched(all, 0, default_launch()) == launched(all, i as int, l@),
        decreases args.len() - i,
    {
        let ghost before = l@;
        assert(all[i as int] == args@[i as int]@);
        if same(&args[i], "--document") {
            if i + 1 >= args.len() {
                return Err("--document needs a path".to_owned());
            }
            l.document = args[i + 1].clone();
            assert(l@ =~= LaunchModel { document: all[i + 1], ..before });
            i += 2;
        } else if same(&args[i], "--mailbox") {
            if i + 1 >= args.len() {
                return Err("--mailbox needs host:port".to_owned());
            }
            l.mailbox = args[i + 1].clone();
            assert(l@ =~= LaunchModel { mailbox: all[i + 1], ..before });
            i += 2;
        } else if same(&args[i], "--mcp") {
            l.mcp = true;
            assert(l@ =~= LaunchModel { mcp: true, ..before });
            i += 1;
        } else {
            l.rest.push(args[i].clone());
            assert(l@ =~= LaunchModel { rest: before.rest.push(all[i as int]), ..before });
            i += 1;
        }
    }
    Ok(l)
}

/// What query arguments ask for, as far as that can be read without decoding JSON.
pub enum Asked {
    Refused(Seq<char>),
    /// The whole query is given as JSON.
    Json(Seq<char>),
    /// The colour is given as JSON.
    Color { text: Seq<char>, min_extent: Real, tolerance: Real },
    Plain(QueryModel),
}

/// The text starts with a character, white space left out.
pub open spec fn leads_with(s: Seq<char>, c: char) -> bool {
    without_leading(s).len() > 0 && without_leading(s)[0] == c
}

fn starts_with_char(s: &str, c: char) -> (r: bool)
    ensures
        r == leads_with(s@, c),
{
    let t = chars_of(s);
    let mut a: usize = 0;
    assert(t@.skip(0) =~= t@);
    while a < t.len() && crate::text::space(t[a])
        invariant
            a <= t.len(),
            without_leading(t@.skip(a as int)) == without_leading(t@),
        decreases t.len() - a,
    {
        assert(t@.skip(a as int).drop_first() =~= t@.skip(a + 1));
        a += 1;
    }
    assert(without_leading(t@) == t@.skip(a as int));
    a < t.len() && t[a] == c
}

pub open spec fn or_real(o: Option<Real>, d: Real) -> Real {
    match o {
        Some(x) => x,
        None => d,
    }
}

pub open spec fn is_word(s: Seq<char>, a: Seq<char>, b: Seq<char>) -> bool {
    s == a || s == b
}

pub open spec fn asked_pixel(rest: Seq<Seq<char>>) -> Asked {
    match flag(rest, "--x"@) {
        None => Asked::Refused("pixel needs --x"@),
        Some(x) => match whole_number(x, u32::MAX as nat) {
            Err(e) => Asked::Refused(e),
            Ok(a) => match flag(rest, "--y"@) {
                None => Asked::Refused("pixel needs --y"@),
                Some(y) => match whole_number(y, u32::MAX as nat) {
                    Err(e) => Asked::Refused(e),
                    Ok(b) => Asked::Plain(
                        QueryModel::Pixel {
                            x: a as u32,
                            y: b as u32,
                            width: word_in(flag(rest, "--width"@)),
                            height: word_in(flag(rest, "--height"@)),
                        },
                    ),
                },
            },
        },
    }
}

pub open spec fn asked_color(
    rest: Seq<Seq<char>>,
    min_extent: Real,
    k: spec_fn(Seq<char>) -> Option<Real>,
) -> Asked {
    let tolerance = or_real(number_in(flag(rest, "--tolerance"@), k), default_tolerance());
    match either(flag(rest, "--color"@), nth(rest, 0)) {
        None => Asked::Refused("color-of needs --color NAME|RGBA"@),
        Some(text) => if leads_with(text, '[') {
            Asked::Color { text, min_extent, tolerance }
        } else {
            Asked::Plain(
                QueryModel::ColorOf { color: ColorModel::Name(text), min_extent, tolerance },
            )
        },
    }
}

pub open spec fn triple_in(
    o: Option<Seq<char>>,
    k: spec_fn(Seq<char>) -> Option<Real>,
) -> Option<Vec3> {
    match o {
        Some(t) => triple_of(t, k),
        None => None,
    }
}

pub open spec fn asked(args: Seq<Seq<char>>, k: spec_fn(Seq<char>) -> Option<Real>) -> Asked {
    if args.len() == 0 {
        Asked::Refused(
            "query needs a kind: left-of | on-screen | color-of | assembly-of | pixel"@,
        )
    } else if args.len() == 1 && leads_with(args[0], '{') {
        Asked::Json(args[0])
    } else {
        let kind = args[0];
        let rest = args.skip(1);
        let min_extent = or_real(number_in(flag(rest, "--min-extent"@), k), default_min_extent());
        if is_word(kind, "left-of"@, "left_of"@) {
            match either(flag(rest, "--entity"@), nth(rest, 0)) {
                None => Asked::Refused("left-of needs --entity ID"@),
                Some(entity_id) => Asked::Plain(QueryModel::LeftOf { entity_id, min_extent }),
            }
        } else if is_word(kind, "on-screen"@, "on_screen"@) {
            Asked::Plain(
                QueryModel::OnScreen {
                    min_extent,
                    aspect: or_real(number_in(flag(rest, "--aspect"@), k), default_aspect()),
                },
            )
        } else if is_word(kind, "color-of"@, "color_of"@) {
            asked_color(rest, min_extent, k)
        } else if is_word(kind, "assembly-of"@, "assembly_of"@) {
            match either(flag(rest, "--entity"@), nth(rest, 0)) {
                None => Asked::Refused("assembly-of needs --entity ID"@),
                Some(entity_id) => Asked::Plain(QueryModel::AssemblyOf { entity_id }),
            }
        } else if kind == "pixel"@ {
            asked_pixel(rest)
        } else if kind == "elements"@ {
            Asked::Plain(
                QueryModel::Elements {
                    bbox_min: triple_in(flag(rest, "--bbox-min"@), k),
                    bbox_max: triple_in(flag(rest, "--bbox-max"@), k),
                    y_min: number_in(flag(rest, "--y-min"@), k),
                    y_max: number_in(flag(rest, "--y-max"@), k),
                    not_adjacent_to: flag(rest, "--not-adjacent-to"@),
                    min_extent,
                },
            )
        } else {
            Asked::Refused("unknown query kind: "@ + kind)
        }
    }
}

/// A decoder may be given any text.
pub open spec fn decoding<A, D: Fn(&str) -> Result<A, String>>(d: D) -> bool {
    forall|s: &str| #[trigger] call_requires(d, (s,))
}

/// A decoder makes `r` of a text.
pub open spec fn decoded<A, D: Fn(&str) -> Result<A, String>>(
    d: D,
    t: Seq<char>,
    r: Result<A, String>,
) -> bool {
    exists|s: &str| s@ == t && #[trigger] call_ensures(d, (s,), r)
}

fn flag_triple<P: Fn(&str) -> Option<Real>>(args: &[String], name: &str, parse: &P) -> (r: Option<
    Vec3,
>)
    requires
        parsing(*parse),
    ensures
        forall|k: spec_fn(Seq<char>) -> Option<Real>| #[trigger]
            parses(*parse, k) ==> r == triple_in(flag(texts(args@), name@), k),
{
    match flag_value(args, name) {
        Some(s) => parse_triple(&s, parse),
        None => None,
    }
}

fn number_or<P: Fn(&str) -> Option<Real>>(
    args: &[String],
    name: &str,
    d: Real,
    parse: &P,
) -> (r: Real)
    requires
        parsing(*parse),
    ensures
        forall|k: spec_fn(Seq<char>) -> Option<Real>| #[trigger]
            parses(*parse, k) ==> r == or_real(number_in(flag(texts(args@), name@), k), d),
{
    match flag_number(args, name, parse) {
        Some(x) => x,
        None => d,
    }
}

fn pixel_query(rest: &[String]) -> (r: Result<QuerySpec, String>)
    ensures
        match asked_pixel(texts(rest@)) {
            Asked::Refused(e) => r matches Err(x) && x@ == e,
            Asked::Plain(q) => r matches Ok(x) && x@ == q,
            _ => false,
        },
{
    let x = match flag_value(rest, "--x") {
        None => return Err("pixel needs --x".to_owned()),
        Some(t) => match parse_whole(&t, u32::MAX as u64) {
            Err(e) => return Err(e),
            Ok(v) => v as u32,
        },
    };
    let y = match flag_value(rest, "--y") {
        None => return Err("pixel needs --y".to_owned()),
        Some(t) => match parse_whole(&t, u32::MAX as u64) {
            Err(e) => return Err(e),
            Ok(v) => v as u32,
        },
    };
    Ok(
        QuerySpec::Pixel {
            x,
            y,
            width: flag_word(rest, "--width"),
            height: flag_word(rest, "--height"),
        },
    )
}

/// A colour query of a decoded colour, or the error that decoding it gave.
pub open spec fn tinted(
    d: Result<Rgba, String>,
    r: Result<QuerySpec, String>,
    min_extent: Real,
    tolerance: Real,
) -> bool {
    match d {
        Ok(c) => r matches Ok(x) && x@ == (QueryModel::ColorOf {
            color: ColorModel::Rgba(c),
            min_extent,
            tolerance,
        }),
        Err(e) => r matches Err(x) && x@ == e@,
    }
}

pub open spec fn tinted_by<C: Fn(&str) -> Result<Rgba, String>>(
    decode_color: C,
    text: Seq<char>,
    r: Result<QuerySpec, String>,
    min_extent: Real,
    tolerance: Real,
) -> bool {
    exists|d: Result<Rgba, String>| #[trigger]
        decoded(decode_color, text, d) && tinted(d, r, min_extent, tolerance)
}

/// What arguments ask for was read, decoding a colour where one is given as JSON.
pub open spec fn read_as<C: Fn(&str) -> Result<Rgba, String>>(
    a: Asked,
    r: Result<QuerySpec, String>,
    decode_color: C,
) -> bool {
    match a {
        Asked::Refused(e) => r matches Err(x) && x@ == e,
        Asked::Json(_) => false,
        Asked::Color { text, min_extent, tolerance } => tinted_by(
            decode_color,
            text,
            r,
            min_extent,
            tolerance,
        ),
        Asked::Plain(q) => r matches Ok(x) && x@ == q,
    }
}

fn color_query<P: Fn(&str) -> Option<Real>, C: Fn(&str) -> Result<Rgba, String>>(
    rest: &[String],
    min_extent: Real,
    parse: &P,
    decode_color: &C,
) -> (r: Result<QuerySpec, String>)
    requires
        parsing(*parse),
        decoding(*decode_color),
    ensures
        forall|k: spec_fn(Seq<char>) -> Option<Real>| #[trigger]
            parses(*parse, k) ==> read_as(
                asked_color(texts(rest@), min_extent, k),
                r,
                *decode_color,
            ),
{
    let tolerance = number_or(rest, "--tolerance", default_tolerance(), parse);
    let raw = match flag_or_nth(rest, "--color", 0) {
        None => return Err("color-of needs --color NAME|RGBA".to_owned()),
        Some(t) => t,
    };
    if !starts_with_char(&raw, '[') {
        return Ok(QuerySpec::ColorOf { color: ColorQuery::Name(raw), min_extent, tolerance });
    }
    let d = decode_color(&raw);
    let ghost outcome = d;
    assert(decoded(*decode_color, raw@, outcome));
    let r = match d {
        Ok(c) => Ok(QuerySpec::ColorOf { color: ColorQuery::Rgba(c), min_extent, tolerance }),
        Err(e) => Err(e),
    };
    assert forall|k: spec_fn(Seq<char>) -> Option<Real>| #[trigger] parses(*parse, k) implies read_as(
        asked_color(texts(rest@), min_extent, k),
        r,
        *decode_color,
    ) by {
        assert(asked_color(texts(rest@), min_extent, k) == (Asked::Color {
            text: raw@,
            min_extent,
            tolerance,
        }));
        assert(tinted(outcome, r, min_extent, tolerance));
        assert(tinted_by(*decode_color, raw@, r, min_extent, tolerance));
    }
    r
}

/// The query that arguments ask for. A query or a colour may be given as JSON.
pub fn parse_query_args<
    P: Fn(&str) -> Option<Real>,
    Q: Fn(&str) -> Result<QuerySpec, String>,
    C: Fn(&str) -> Result<Rgba, String>,
>(args: &[String], parse: &P, decode_query: &Q, decode_color: &C) -> (r: Result<QuerySpec, String>)
    requires
        parsing(*parse),
        decoding(*decode_query),
        decoding(*decode_color),
    ensures
        forall|k: spec_fn(Seq<char>) -> Option<Real>| #[trigger]
            parses(*parse, k) ==> match asked(texts(args@), k) {
                Asked::Json(t) => decoded(*decode_query, t, r),
                a => read_as(a, r, *decode_color),
            },
{
    if args.len() == 0 {
        return Err(
            "query needs a kind: left-of | on-screen | color-of | assembly-of | pixel".to_owned(),
        );
    }
    assert(texts(args@)[0] == args@[0]@);
    if args.len() == 1 && starts_with_char(&args[0], '{') {
        let r = decode_query(&args[0]);
        assert(decoded(*decode_query, args@[0]@, r));
        return r;
    }
    let kind: &str = &args[0];
    let rest = tail(args);
    let min_extent = number_or(rest, "--min-extent", default_min_extent(), parse);
    if same(kind, "left-of") || same(kind, "left_of") {
        match flag_or_nth(rest, "--entity", 0) {
            None => Err("left-of needs --entity ID".to_owned()),
            Some(entity_id) => Ok(QuerySpec::LeftOf { entity_id, min_extent }),
        }
    } else if same(kind, "on-screen") || same(kind, "on_screen") {
        let aspect = number_or(rest, "--aspect", default_aspect(), parse);
        Ok(QuerySpec::OnScreen { min_extent, aspect })
    } else if same(kind, "color-of") || same(kind, "color_of") {
        color_query(rest, min_extent, parse, decode_color)
    } else if same(kind, "assembly-of") || same(kind, "assembly_of") {
        match flag_or_nth(rest, "--entity", 0) {
            None => Err("assembly-of needs --entity ID".to_owned()),
            Some(entity_id) => Ok(QuerySpec::AssemblyOf { entity_id }),
        }
    } else if same(kind, "pixel") {
        pixel_query(rest)
    } else if same(kind, "elements") {
        let not_adjacent_to = flag_value(rest, "--not-adjacent-to");
        let r = QuerySpec::Elements {
            bbox_min: flag_triple(rest, "--bbox-min", parse),
            bbox_max: flag_triple(rest, "--bbox-max", parse),
            y_min: flag_number(rest, "--y-min", parse),
            y_max: flag_number(rest, "--y-max", parse),
            not_adjacent_to,
            min_extent,
        };
        assert(text_in(not_adjacent_to) == flag(texts(rest@), "--not-adjacent-to"@));
        Ok(r)
    } else {
        Err(cat2("unknown query kind: ", kind))
    }
}

/// What the flags of an apply command say, up to the first that is wrong.
#[verifier::ext_equal]
pub struct ApplyScan {
    pub base_revision: Option<u64>,
    pub idempotency_key: Option<Seq<char>>,
    pub label: Option<Seq<char>>,
    /// The changes, as JSON.
    pub changes: Seq<Seq<char>>,
    pub error: Option<Seq<char>>,
}

pub open spec fn apply_scan(args: Seq<Seq<char>>, i: int, s: ApplyScan) -> ApplyScan
    decreases args.len() - i,
{
    if i >= args.len() {
        s
    } else if args[i] == "--base-revision"@ {
        match nth(args, i + 1) {
            None => ApplyScan { error: Some("--base-revision needs a number"@), ..s },
            Some(t) => match whole_number(t, u64::MAX as nat) {
                Err(e) => ApplyScan { error: Some(e), ..s },
                Ok(v) => apply_scan(
                    args,
                    i + 2,
                    ApplyScan { base_revision: Some(v as u64), ..s },
                ),
            },
        }
    } else if args[i] == "--idempotency-key"@ {
        match nth(args, i + 1) {
            None => ApplyScan { error: Some("--idempotency-key needs a value"@), ..s },
            Some(t) => apply_scan(args, i + 2, ApplyScan { idempotency_key: Some(t), ..s }),
        }
    } else if args[i] == "--label"@ {
        match nth(args, i + 1) {
            None => ApplyScan { error: Some("--label needs a value"@), ..s },
            Some(t) => apply_scan(args, i + 2, ApplyScan { label: Some(t), ..s }),
        }
    } else if args[i] == "--change"@ {
        match nth(args, i + 1) {
            None => ApplyScan { error: Some("--change needs JSON"@), ..s },
            Some(t) => apply_scan(args, i + 2, ApplyScan { changes: s.changes.push(t), ..s }),
        }
    } else {
        ApplyScan { error: Some("unknown apply flag: "@ + args[i]), ..s }
    }
}

pub open spec fn no_flags() -> ApplyScan {
    ApplyScan {
        base_revision: None,
        idempotency_key: None,
        label: None,
        changes: Seq::empty(),
        error: None,
    }
}

/// Why flags make no request, once their changes are decoded.
pub open spec fn apply_refusal(s: ApplyScan) -> Option<Seq<char>> {
    if s.error is Some {
        s.error
    } else if s.base_revision is None {
        Some("apply needs --base-revision"@)
    } else if s.idempotency_key is None {
        Some("apply needs --idempotency-key"@)
    } else if s.label is None {
        Some("apply needs --label"@)
    } else if s.changes.len() == 0 {
        Some("apply needs at least one --change"@)
    } else {
        None
    }
}

struct ApplyFlags {
    base_revision: Option<u64>,
    idempotency_key: Option<String>,
    label: Option<String>,
    changes: Vec<String>,
    error: Option<String>,
}

impl ApplyFlags {
    spec fn model(self) -> ApplyScan {
        ApplyScan {
            base_revision: self.base_revision,
            idempotency_key: text_in(self.idempotency_key),
            label: text_in(self.label),
            changes: texts(self.changes@),
            error: text_in(self.error),
        }
    }
}

fn scan_apply(args: &[String]) -> (r: ApplyFlags)
    ensures
        r.model() == apply_scan(texts(args@), 0, no_flags()),
{
    let ghost all = texts(args@);
    let mut f = ApplyFlags {
        base_revision: None,
        idempotency_key: None,
        label: None,
        changes: Vec::new(),
        error: None,
    };
    assert(f.model() =~= no_flags());
    let mut i: usize = 0;
    while i < args.len()
        invariant
            i <= args@.len(),
            all == texts(args@),
            f.error is None,
            apply_scan(all, 0, no_flags()) == apply_scan(all, i as int, f.model()),
        decreases args.len() - i,
    {
        let ghost before = f.model();
        assert(all[i as int] == args@[i as int]@);
        let missing = if same(&args[i], "--base-revision") {
            "--base-revision needs a number"
        } else if same(&args[i], "--idempotency-key") {
            "--idempotency-key needs a value"
        } else if same(&args[i], "--label") {
            "--label needs a value"
        } else if same(&args[i], "--change") {
            "--change needs JSON"
        } else {
            f.error = Some(cat2("unknown apply flag: ", &args[i]));
            assert(f.model() =~= ApplyScan {
                error: Some("unknown apply flag: "@ + all[i as int]),
                ..before
            });
            return f;
        };
        if i + 1 >= args.len() {
            f.error = Some(missing.to_owned());
            assert(f.model() =~= ApplyScan { error: Some(missing@), ..before });
            return f;
        }
        assert(nth(all, i + 1) == Some(args@[i + 1]@));
        if same(&args[i], "--base-revision") {
            match parse_whole(&args[i + 1], u64::MAX) {
                Ok(v) => {
                    f.base_revision = Some(v);
                },
                Err(e) => {
                    f.error = Some(e);
                    assert(f.model() =~= ApplyScan { error: Some(e@), ..before });
                    return f;
                },
            }
        } else if same(&args[i], "--idempotency-key") {
            f.idempotency_key = Some(args[i + 1].clone());
        } else if same(&args[i], "--label") {
            f.label = Some(args[i + 1].clone());
        } else {
            let ghost now = texts(f.changes@);
            f.changes.push(args[i + 1].clone());
            assert(texts(f.changes@) =~= now.push(all[i + 1]));
        }
        i += 2;
    }
    f
}

/// Each change was decoded from the text in its place.
pub open spec fn all_decoded<D: Fn(&str) -> Result<ApplyChange, String>>(
    decode: D,
    raws: Seq<Seq<char>>,
    changes: Seq<ApplyChange>,
) -> bool {
    forall|i: int|
        0 <= i < changes.len() ==> decoded(
            decode,
            raws[i],
            Ok::<ApplyChange, String>(#[trigger] changes[i]),
        )
}

/// The first `n` texts decode to changes.
pub open spec fn all_decode<D: Fn(&str) -> Result<ApplyChange, String>>(
    decode: D,
    raws: Seq<Seq<char>>,
    n: int,
) -> bool {
    exists|changes: Seq<ApplyChange>| changes.len() == n && #[trigger]
        all_decoded(decode, raws, changes)
}

/// Text number `j` does not decode, and says `e`; all before it do.
pub open spec fn first_to_fail<D: Fn(&str) -> Result<ApplyChange, String>>(
    decode: D,
    raws: Seq<Seq<char>>,
    j: int,
    e: String,
) -> bool {
    &&& 0 <= j < raws.len()
    &&& decoded(decode, raws[j], Err::<ApplyChange, String>(e))
    &&& all_decode(decode, raws, j)
}

/// The request that the flags of an apply command make. A change that cannot be decoded is told
/// before anything that is wrong with later flags.
pub fn parse_apply_args<D: Fn(&str) -> Result<ApplyChange, String>>(
    args: &[String],
    decode: &D,
) -> (r: Result<ApplyRequest, String>)
    requires
        decoding(*decode),
    ensures
        ({
            let s = apply_scan(texts(args@), 0, no_flags());
            match r {
                Ok(q) => {
                    &&& apply_refusal(s) is None
                    &&& s.base_revision == Some(q.base_revision)
                    &&& s.idempotency_key == Some(q.idempotency_key@)
                    &&& s.label == Some(q.label@)
                    &&& q.changes.len() == s.changes.len()
                    &&& all_decoded(*decode, s.changes, q.changes@)
                    &&& !q.dry_run
                },
                Err(e) => {
                    ||| apply_refusal(s) == Some(e@) && all_decode(
                        *decode,
                        s.changes,
                        s.changes.len() as int,
                    )
                    ||| exists|j: int| #[trigger] first_to_fail(*decode, s.changes, j, e)
                },
            }
        }),
{
    let f = scan_apply(args);
    let ghost s = apply_scan(texts(args@), 0, no_flags());
    let mut changes: Vec<ApplyChange> = Vec::new();
    let mut i: usize = 0;
    assert(s.changes.len() == f.changes.len());
    while i < f.changes.len()
        invariant
            i <= f.changes.len(),
            s == apply_scan(texts(args@), 0, no_flags()),
            s.changes == texts(f.changes@),
            decoding(*decode),
            changes.len() == i,
            all_decoded(*decode, s.changes, changes@),
        decreases f.changes.len() - i,
    {
        assert(s.changes[i as int] == f.changes@[i as int]@);
        let d = decode(&f.changes[i]);
        assert(decoded(*decode, s.changes[i as int], d));
        match d {
            Ok(c) => {
                changes.push(c);
            },
            Err(e) => {
                assert(all_decode(*decode, s.changes, i as int));
                assert(first_to_fail(*decode, s.changes, i as int, e));
                return Err(e);
            },
        }
        i += 1;
    }
    assert(all_decode(*decode, s.changes, s.changes.len() as int)) by {
        assert(all_decoded(*decode, s.changes, changes@));
    }
    if let Some(e) = f.error {
        return Err(e);
    }
    let base_revision = match f.base_revision {
        None => return Err("apply needs --base-revision".to_owned()),
        Some(v) => v,
    };
    let idempotency_key = match f.idempotency_key {
        None => return Err("apply needs --idempotency-key".to_owned()),
        Some(v) => v,
    };
    let label = match f.label {
        None => return Err("apply needs --label".to_owned()),
        Some(v) => v,
    };
    if changes.len() == 0 {
        return Err("apply needs at least one --change".to_owned());
    }
    Ok(ApplyRequest { base_revision, idempotency_key, label, changes, dry_run: false })
}

/// What a call asks for.
#[derive(Debug, PartialEq)]
pub enum Command {
    Viewport,
    Mcp,
    Help,
    /// Ask the mailbox. `failure` is the message if it says no without one; without it a no is
    /// no failure.
    Send { request: MailboxRequest, failure: Option<String> },
    Query { args: Vec<String> },
    Apply { args: Vec<String> },
    Light { direction: Option<Vec3>, shadows: Option<bool> },
}

/// A command as its arguments give it.
pub enum CommandModel {
    Refused(Seq<char>),
    Viewport,
    Mcp,
    Help,
    Status,
    Inspect(Option<Seq<char>>),
    Query(Seq<Seq<char>>),
    Apply(Seq<Seq<char>>),
    History(HistoryAction),
    Project(ProjectAction, Option<Seq<char>>),
    Render(Option<u32>, Option<u32>),
    Camera(Option<Seq<char>>, Option<Vec3>, Option<Vec3>, Option<Seq<Seq<char>>>),
    Play(Seq<char>, Option<Real>),
    Rtx(Option<bool>),
    Catalog,
    Export(Option<Seq<char>>),
    Import(Option<Seq<char>>),
    Light(Option<Vec3>, Option<bool>),
    Cycles(Seq<char>, Option<u32>),
    Validate,
}

pub open spec fn truth_of(o: Option<Seq<char>>, words: bool) -> Option<bool> {
    match o {
        None => None,
        Some(s) => if s == "true"@ || s == "1"@ || (words && s == "on"@) {
            Some(true)
        } else if s == "false"@ || s == "0"@ || (words && s == "off"@) {
            Some(false)
        } else {
            None
        },
    }
}

fn read_truth(o: &Option<String>, words: bool) -> (r: Option<bool>)
    ensures
        r == truth_of(text_in(*o), words),
{
    match o {
        None => None,
        Some(s) => if same(s, "true") || same(s, "1") || (words && same(s, "on")) {
            Some(true)
        } else if same(s, "false") || same(s, "0") || (words && same(s, "off")) {
            Some(false)
        } else {
            None
        },
    }
}

pub open spec fn history_call(rest: Seq<Seq<char>>) -> CommandModel {
    match nth(rest, 0) {
        None => CommandModel::History(HistoryAction::List),
        Some(w) => if w == "list"@ {
            CommandModel::History(HistoryAction::List)
        } else if w == "undo"@ {
            CommandModel::History(HistoryAction::Undo)
        } else if w == "redo"@ {
            CommandModel::History(HistoryAction::Redo)
        } else {
            CommandModel::Refused("history needs list|undo|redo, got "@ + w)
        },
    }
}

pub open spec fn project_call(rest: Seq<Seq<char>>) -> CommandModel {
    let w = match nth(rest, 0) {
        None => "list"@,
        Some(w) => w,
    };
    if w == "list"@ {
        CommandModel::Project(ProjectAction::List, flag(rest, "--path"@))
    } else if w == "save"@ {
        CommandModel::Project(ProjectAction::Save, flag(rest, "--path"@))
    } else if w == "open"@ {
        CommandModel::Project(ProjectAction::Open, either(flag(rest, "--path"@), nth(rest, 1)))
    } else if w == "create"@ {
        CommandModel::Project(ProjectAction::Create, either(flag(rest, "--path"@), nth(rest, 1)))
    } else {
        CommandModel::Refused("project needs list|save|open|create, got "@ + w)
    }
}

pub open spec fn frame_ids_of(o: Option<Seq<char>>) -> Option<Seq<Seq<char>>> {
    match o {
        Some(t) => Some(names_in(pieces(t), pieces(t).len() as int)),
        None => None,
    }
}

pub open spec fn or_text(o: Option<Seq<char>>, d: Seq<char>) -> Seq<char> {
    match o {
        Some(t) => t,
        None => d,
    }
}

/// The commands that take no list of their own.
pub open spec fn other_call(
    word: Seq<char>,
    rest: Seq<Seq<char>>,
    k: spec_fn(Seq<char>) -> Option<Real>,
) -> CommandModel {
    if word == "play"@ {
        CommandModel::Play(
            or_text(nth(rest, 0), "stop"@),
            number_in(flag(rest, "--time"@), k),
        )
    } else if word == "rtx"@ {
        CommandModel::Rtx(truth_of(flag(rest, "--requested"@), false))
    } else if word == "catalog"@ {
        CommandModel::Catalog
    } else if word == "export"@ {
        CommandModel::Export(either(flag(rest, "--path"@), nth(rest, 0)))
    } else if word == "import"@ {
        CommandModel::Import(either(flag(rest, "--path"@), nth(rest, 0)))
    } else if word == "light"@ {
        CommandModel::Light(
            vector_in(flag(rest, "--dir"@), k),
            truth_of(flag(rest, "--shadows"@), true),
        )
    } else if word == "cycles"@ {
        CommandModel::Cycles(
            or_text(nth(rest, 0), "status"@),
            word_in(flag(rest, "--samples"@)),
        )
    } else if word == "validate"@ {
        CommandModel::Validate
    } else if word == "help"@ || word == "-h"@ || word == "--help"@ {
        CommandModel::Help
    } else {
        CommandModel::Refused("unknown command: "@ + word)
    }
}

/// The command that arguments give.
pub open spec fn commanded(
    mcp: bool,
    args: Seq<Seq<char>>,
    k: spec_fn(Seq<char>) -> Option<Real>,
) -> CommandModel {
    if mcp || nth(args, 0) == Some("mcp"@) {
        CommandModel::Mcp
    } else if args.len() == 0 {
        CommandModel::Viewport
    } else {
        let word = args[0];
        let rest = args.skip(1);
        if word == "status"@ {
            CommandModel::Status
        } else if word == "inspect"@ {
            CommandModel::Inspect(flag(rest, "--slice"@))
        } else if word == "query"@ {
            CommandModel::Query(rest)
        } else if word == "apply"@ {
            CommandModel::Apply(rest)
        } else if word == "history"@ {
            history_call(rest)
        } else if word == "project"@ {
            project_call(rest)
        } else if word == "render"@ {
            CommandModel::Render(word_in(flag(rest, "--width"@)), word_in(flag(rest, "--height"@)))
        } else if word == "camera"@ {
            CommandModel::Camera(
                flag(rest, "--mode"@),
                vector_in(flag(rest, "--review-eye"@), k),
                vector_in(flag(rest, "--review-target"@), k),
                frame_ids_of(flag(rest, "--frame"@)),
            )
        } else {
            other_call(word, rest, k)
        }
    }
}

pub open spec fn names_of(o: Option<Vec<String>>) -> Option<Seq<Seq<char>>> {
    match o {
        Some(v) => Some(texts(v@)),
        None => None,
    }
}

/// A command asks the mailbox what a model says, with a message for a plain no.
pub open spec fn sends(c: CommandModel, q: MailboxRequest, failure: Option<Seq<char>>) -> bool {
    match c {
        CommandModel::Status => q is Status && failure == Some("status failed"@),
        CommandModel::Inspect(slice) => {
            &&& q matches MailboxRequest::Inspect { slice: s } && text_in(s) == slice
            &&& failure == Some("inspect failed"@)
        },
        CommandModel::History(a) => {
            &&& q matches MailboxRequest::History { action } && action == a
            &&& failure == Some("history failed"@)
        },
        CommandModel::Project(a, p) => {
            &&& q matches MailboxRequest::Project { action, path } && action == a && text_in(path)
                == p
            &&& failure == Some("project failed"@)
        },
        CommandModel::Render(w, h) => {
            &&& q == (MailboxRequest::Render { width: w, height: h })
            &&& failure == Some("render failed"@)
        },
        CommandModel::Camera(m, e, t, f) => {
            &&& q matches MailboxRequest::Camera { mode, review_eye, review_target, frame }
                && text_in(mode) == m && review_eye == e && review_target == t && names_of(frame)
                == f
            &&& failure == Some("camera failed"@)
        },
        CommandModel::Play(a, t) => {
            &&& q matches MailboxRequest::Play { action, time } && action@ == a && time == t
            &&& failure is None
        },
        CommandModel::Rtx(b) => q == (MailboxRequest::Rtx { requested: b }) && failure is None,
        CommandModel::Catalog => q is Catalog && failure is None,
        CommandModel::Export(p) => {
            &&& q matches MailboxRequest::Export { path } && text_in(path) == p
            &&& failure == Some("export failed"@)
        },
        CommandModel::Import(p) => {
            &&& q matches MailboxRequest::Import { path } && text_in(path) == p
            &&& failure == Some("import failed"@)
        },
        CommandModel::Cycles(a, n) => {
            &&& q matches MailboxRequest::Cycles { action, samples, width, height } && action@ == a
                && samples == n && width is None && height is None
            &&& failure == Some("cycles failed"@)
        },
        CommandModel::Validate => q is Validate && failure == Some("validate failed"@),
        _ => false,
    }
}

/// A parsed command is the one that a model describes.
pub open spec fn realizes(r: Result<Command, String>, c: CommandModel) -> bool {
    match c {
        CommandModel::Refused(e) => r matches Err(x) && x@ == e,
        CommandModel::Viewport => r == Ok::<Command, String>(Command::Viewport),
        CommandModel::Mcp => r == Ok::<Command, String>(Command::Mcp),
        CommandModel::Help => r == Ok::<Command, String>(Command::Help),
        CommandModel::Query(a) => r matches Ok(Command::Query { args }) && texts(args@) == a,
        CommandModel::Apply(a) => r matches Ok(Command::Apply { args }) && texts(args@) == a,
        CommandModel::Light(d, s) => r == Ok::<Command, String>(
            Command::Light { direction: d, shadows: s },
        ),
        _ => r matches Ok(Command::Send { request, failure }) && sends(
            c,
            request,
            text_in(failure),
        ),
    }
}

fn send(request: MailboxRequest, failure: &str) -> (r: Result<Command, String>)
    ensures
        r matches Ok(Command::Send { request: q, failure: f }) && q == request && text_in(f)
            == Some(failure@),
{
    Ok(Command::Send { request, failure: Some(failure.to_owned()) })
}

fn owned(args: &[String]) -> (r: Vec<String>)
    ensures
        texts(r@) == texts(args@),
{
    let mut out: Vec<String> = Vec::new();
    let mut i: usize = 0;
    while i < args.len()
        invariant
            i <= args@.len(),
            out.len() == i,
            forall|k: int| 0 <= k < i ==> out@[k]@ == args@[k]@,
        decreases args.len() - i,
    {
        out.push(args[i].clone());
        i += 1;
    }
    assert(texts(out@) =~= texts(args@));
    out
}

fn history_command(rest: &[String]) -> (r: Result<Command, String>)
    ensures
        realizes(r, history_call(texts(rest@))),
{
    let action = match argument(rest, 0) {
        None => HistoryAction::List,
        Some(w) => if same(&w, "list") {
            HistoryAction::List
        } else if same(&w, "undo") {
            HistoryAction::Undo
        } else if same(&w, "redo") {
            HistoryAction::Redo
        } else {
            return Err(cat2("history needs list|undo|redo, got ", &w));
        },
    };
    send(MailboxRequest::History { action }, "history failed")
}

fn project_command(rest: &[String]) -> (r: Result<Command, String>)
    ensures
        realizes(r, project_call(texts(rest@))),
{
    let w = match argument(rest, 0) {
        None => "list".to_owned(),
        Some(w) => w,
    };
    let (action, path) = if same(&w, "list") {
        (ProjectAction::List, flag_value(rest, "--path"))
    } else if same(&w, "save") {
        (ProjectAction::Save, flag_value(rest, "--path"))
    } else if same(&w, "open") {
        (ProjectAction::Open, flag_or_nth(rest, "--path", 1))
    } else if same(&w, "create") {
        (ProjectAction::Create, flag_or_nth(rest, "--path", 1))
    } else {
        return Err(cat2("project needs list|save|open|create, got ", &w));
    };
    send(MailboxRequest::Project { action, path }, "project failed")
}

fn camera_command<P: Fn(&str) -> Option<Real>>(rest: &[String], parse: &P) -> (r: Result<
    Command,
    String,
>)
    requires
        parsing(*parse),
    ensures
        forall|k: spec_fn(Seq<char>) -> Option<Real>| #[trigger]
            parses(*parse, k) ==> realizes(
                r,
                CommandModel::Camera(
                    flag(texts(rest@), "--mode"@),
                    vector_in(flag(texts(rest@), "--review-eye"@), k),
                    vector_in(flag(texts(rest@), "--review-target"@), k),
                    frame_ids_of(flag(texts(rest@), "--frame"@)),
                ),
            ),
{
    let mode = flag_value(rest, "--mode");
    let review_eye = flag_vec3(rest, "--review-eye", parse);
    let review_target = flag_vec3(rest, "--review-target", parse);
    let frame = match flag_value(rest, "--frame") {
        Some(t) => Some(split_names(&t)),
        None => None,
    };
    send(MailboxRequest::Camera { mode, review_eye, review_target, frame }, "camera failed")
}

/// The command that the arguments after the common flags give.
pub fn parse_command<P: Fn(&str) -> Option<Real>>(launch: &Launch, parse: &P) -> (r: Result<
    Command,
    String,
>)
    requires
        parsing(*parse),
    ensures
        forall|k: spec_fn(Seq<char>) -> Option<Real>| #[trigger]
            parses(*parse, k) ==> realizes(r, commanded(launch.mcp, texts(launch.rest@), k)),
{
    let args: &[String] = launch.rest.as_slice();
    if launch.mcp {
        return Ok(Command::Mcp);
    }
    if args.len() == 0 {
        return Ok(Command::Viewport);
    }
    assert(texts(args@)[0] == args@[0]@);
    let word: &str = &args[0];
    if same(word, "mcp") {
        return Ok(Command::Mcp);
    }
    let rest = tail(args);
    if same(word, "status") {
        send(MailboxRequest::Status, "status failed")
    } else if same(word, "inspect") {
        send(MailboxRequest::Inspect { slice: flag_value(rest, "--slice") }, "inspect failed")
    } else if same(word, "query") {
        Ok(Command::Query { args: owned(rest) })
    } else if same(word, "apply") {
        Ok(Command::Apply { args: owned(rest) })
    } else if same(word, "history") {
        history_command(rest)
    } else if same(word, "project") {
        project_command(rest)
    } else if same(word, "render") {
        let width = flag_word(rest, "--width");
        let height = flag_word(rest, "--height");
        send(MailboxRequest::Render { width, height }, "render failed")
    } else if same(word, "camera") {
        camera_command(rest, parse)
    } else {
        other_command(word, rest, parse)
    }
}

fn other_command<P: Fn(&str) -> Option<Real>>(word: &str, rest: &[String], parse: &P) -> (r: Result<
    Command,
    String,
>)
    requires
        parsing(*parse),
    ensures
        forall|k: spec_fn(Seq<char>) -> Option<Real>| #[trigger]
            parses(*parse, k) ==> realizes(r, other_call(word@, texts(rest@), k)),
{
    if same(word, "play") {
        let action = match argument(rest, 0) {
            Some(w) => w,
            None => "stop".to_owned(),
        };
        let time = flag_number(rest, "--time", parse);
        Ok(Command::Send { request: MailboxRequest::Play { action, time }, failure: None })
    } else if same(word, "rtx") {
        let requested = read_truth(&flag_value(rest, "--requested"), false);
        Ok(Command::Send { request: MailboxRequest::Rtx { requested }, failure: None })
    } else if same(word, "catalog") {
        Ok(Command::Send { request: MailboxRequest::Catalog, failure: None })
    } else if same(word, "export") {
        send(MailboxRequest::Export { path: flag_or_nth(rest, "--path", 0) }, "export failed")
    } else if same(word, "import") {
        send(MailboxRequest::Import { path: flag_or_nth(rest, "--path", 0) }, "import failed")
    } else if same(word, "light") {
        let direction = flag_vec3(rest, "--dir", parse);
        let shadows = read_truth(&flag_value(rest, "--shadows"), true);
        Ok(Command::Light { direction, shadows })
    } else if same(word, "cycles") {
        let action = match argument(rest, 0) {
            Some(w) => w,
            None => "status".to_owned(),
        };
        let samples = flag_word(rest, "--samples");
        send(
            MailboxRequest::Cycles { action, samples, width: None, height: None },
            "cycles failed",
        )
    } else if same(word, "validate") {
        send(MailboxRequest::Validate, "validate failed")
    } else if same(word, "help") || same(word, "-h") || same(word, "--help") {
        Ok(Command::Help)
    } else {
        Err(cat2("unknown command: ", word))
    }
}

/// What is wrong with a response, if anything: its own message, one of its parts' or a plain
/// one.
pub open spec fn complaint(r: MailboxResponse, part: Option<Seq<char>>, plain: Seq<char>) -> Seq<
    char,
> {
    crate::feed::first_of(text_in(r.error), part, plain)
}

/// Whether a command succeeded, given the response to it.
pub fn outcome(response: &MailboxResponse, failure: &Option<String>) -> (r: Result<(), String>)
    ensures
        match *failure {
            Some(f) => if response.ok {
                r is Ok
            } else {
                r matches Err(e) && e@ == complaint(*response, None, f@)
            },
            None => r is Ok,
        },
{
    match failure {
        Some(f) => if response.ok {
            Ok(())
        } else {
            Err(crate::feed::pick(&response.error, &None, f))
        },
        None => Ok(()),
    }
}

/// Whether a query succeeded, given the response to it.
pub fn query_outcome(response: &MailboxResponse) -> (r: Result<(), String>)
    ensures
        if response.ok {
            r is Ok
        } else {
            r matches Err(e) && e@ == complaint(
                *response,
                match response.query {
                    Some(q) => text_in(q.error),
                    None => None,
                },
                "query failed"@,
            )
        },
{
    if response.ok {
        return Ok(());
    }
    match &response.query {
        Some(q) => Err(crate::feed::pick(&response.error, &q.error, "query failed")),
        None => Err(crate::feed::pick(&response.error, &None, "query failed")),
    }
}

/// Whether an apply request succeeded, given the response to it.
pub fn apply_outcome(response: &MailboxResponse) -> (r: Result<(), String>)
    ensures
        if response.ok {
            r is Ok
        } else {
            r matches Err(e) && e@ == complaint(
                *response,
                crate::feed::apply_error(*response),
                "apply failed"@,
            )
        },
{
    if response.ok {
        return Ok(());
    }
    match &response.apply {
        Some(a) => Err(crate::feed::pick(&response.error, &a.error, "apply failed")),
        None => Err(crate::feed::pick(&response.error, &None, "apply failed")),
    }
}

/// The request that changes the light, on top of the revision that a status told, under a key
/// that the clock gives.
pub fn light_request(
    status: &MailboxResponse,
    millis: u128,
    direction: Option<Vec3>,
    shadows: Option<bool>,
) -> (r: ApplyRequest)
    ensures
        r.base_revision == (match status.status {
            Some(s) => s.revision,
            None => 0,
        }),
        r.idempotency_key@ == "light-"@ + decimal_text(millis as nat),
        r.label@ == "patch light"@,
        r.changes@ == seq![ApplyChange::PatchLight { direction, shadows }],
        !r.dry_run,
{
    let base_revision: u64 = match &status.status {
        Some(s) => s.revision,
        None => 0,
    };
    ApplyRequest {
        base_revision,
        idempotency_key: cat2("light-", &decimal_wide(millis)),
        label: "patch light".to_owned(),
        changes: vec![ApplyChange::PatchLight { direction, shadows }],
        dry_run: false,
    }
}

} // verus!
