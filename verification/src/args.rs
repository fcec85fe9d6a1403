//! Reading command-line arguments: flags, whole numbers and lists.

use crate::numeric::{Real, Vec3};
use crate::text::{chars_of, code, is_digit, same, text_between, texts, trim, trimmed};
use vstd::prelude::*;
use vstd::slice::slice_subrange;

verus! {

/// The argument that follows the first occurrence of a flag at or after `i`.
pub open spec fn flag_from(args: Seq<Seq<char>>, name: Seq<char>, i: int) -> Option<Seq<char>>
    decreases args.len() - i,
{
    if i + 1 >= args.len() {
        None
    } else if args[i] == name {
        Some(args[i + 1])
    } else {
        flag_from(args, name, i + 1)
    }
}

/// The argument that follows a flag.
pub open spec fn flag(args: Seq<Seq<char>>, name: Seq<char>) -> Option<Seq<char>> {
    flag_from(args, name, 0)
}

pub fn flag_value(args: &[String], name: &str) -> (r: Option<String>)
    ensures
        match r {
            Some(v) => flag(texts(args@), name@) == Some(v@),
            None => flag(texts(args@), name@) is None,
        },
{
    let n: usize = args.len();
    let mut i: usize = 0;
    while n > 0 && i < n - 1
        invariant
            n == args@.len(),
            i <= n,
            flag(texts(args@), name@) == flag_from(texts(args@), name@, i as int),
        decreases n - i,
    {
        if same(&args[i], name) {
            return Some(args[i + 1].clone());
        }
        i += 1;
    }
    None
}

/// The argument at a place, if there is one.
pub open spec fn nth(args: Seq<Seq<char>>, i: int) -> Option<Seq<char>> {
    if 0 <= i < args.len() {
        Some(args[i])
    } else {
        None
    }
}

pub fn argument(args: &[String], i: usize) -> (r: Option<String>)
    ensures
        match r {
            Some(v) => nth(texts(args@), i as int) == Some(v@),
            None => nth(texts(args@), i as int) is None,
        },
{
    if i < args.len() {
        Some(args[i].clone())
    } else {
        None
    }
}

/// A first choice, else a second one.
pub open spec fn either(a: Option<Seq<char>>, b: Option<Seq<char>>) -> Option<Seq<char>> {
    match a {
        Some(x) => Some(x),
        None => b,
    }
}

/// A flag's value, else the argument at a place.
pub fn flag_or_nth(args: &[String], name: &str, i: usize) -> (r: Option<String>)
    ensures
        match r {
            Some(v) => either(flag(texts(args@), name@), nth(texts(args@), i as int)) == Some(v@),
            None => either(flag(texts(args@), name@), nth(texts(args@), i as int)) is None,
        },
{
    match flag_value(args, name) {
        Some(v) => Some(v),
        None => argument(args, i),
    }
}

/// The arguments after the first one.
pub fn tail(args: &[String]) -> (r: &[String])
    requires
        args@.len() > 0,
    ensures
        r@ == args@.skip(1),
        texts(r@) == texts(args@).skip(1),
{
    let r = slice_subrange(args, 1, args.len());
    assert(r@ =~= args@.skip(1));
    assert(texts(r@) =~= texts(args@).skip(1));
    r
}

/// The number that digits from `i` on make, `v` before them, or what is wrong with them.
pub open spec fn scanned(s: Seq<char>, i: int, v: nat, max: nat) -> Result<nat, Seq<char>>
    decreases s.len() - i,
{
    if i >= s.len() {
        Ok(v)
    } else if !is_digit(s[i]) {
        Err("invalid digit found in string"@)
    } else {
        let next = (10 * v + (s[i] as int - 48)) as nat;
        if next > max {
            Err("number too large to fit in target type"@)
        } else {
            scanned(s, i + 1, next, max)
        }
    }
}

/// A whole number of at most `max`, with or without a plus sign, or what is wrong with it.
pub open spec fn whole_number(s: Seq<char>, max: nat) -> Result<nat, Seq<char>> {
    if s.len() == 0 {
        Err("cannot parse integer from empty string"@)
    } else if s[0] == '+' {
        if s.len() == 1 {
            Err("invalid digit found in string"@)
        } else {
            scanned(s, 1, 0, max)
        }
    } else {
        scanned(s, 0, 0, max)
    }
}

pub fn parse_whole(s: &str, max: u64) -> (r: Result<u64, String>)
    ensures
        match r {
            Ok(v) => whole_number(s@, max as nat) == Ok::<nat, Seq<char>>(v as nat) && v <= max,
            Err(e) => whole_number(s@, max as nat) == Err::<nat, Seq<char>>(e@),
        },
{
    let c = chars_of(s);
    if c.len() == 0 {
        return Err("cannot parse integer from empty string".to_owned());
    }
    let mut i: usize = 0;
    if c[0] == '+' {
        if c.len() == 1 {
            return Err("invalid digit found in string".to_owned());
        }
        i = 1;
    }
    let mut v: u64 = 0;
    while i < c.len()
        invariant
            i <= c.len(),
            c@ == s@,
            v <= max,
            whole_number(s@, max as nat) == scanned(s@, i as int, v as nat, max as nat),
        decreases c.len() - i,
    {
        let d: u32 = code(c[i]);
        if d < 48 || d > 57 {
            return Err("invalid digit found in string".to_owned());
        }
        let next: u128 = 10 * v as u128 + (d - 48) as u128;
        if next > max as u128 {
            return Err("number too large to fit in target type".to_owned());
        }
        v = next as u64;
        i += 1;
    }
    Ok(v)
}

/// A number that 32 bits hold, if the text is one.
pub open spec fn word_in(o: Option<Seq<char>>) -> Option<u32> {
    match o {
        Some(s) => match whole_number(s, u32::MAX as nat) {
            Ok(v) => Some(v as u32),
            Err(_) => None,
        },
        None => None,
    }
}

pub fn flag_word(args: &[String], name: &str) -> (r: Option<u32>)
    ensures
        r == word_in(flag(texts(args@), name@)),
{
    match flag_value(args, name) {
        Some(s) => match parse_whole(&s, u32::MAX as u64) {
            Ok(v) => Some(v as u32),
            Err(_) => None,
        },
        None => None,
    }
}

/// The number parser may be given any text.
pub open spec fn parsing<P: Fn(&str) -> Option<Real>>(p: P) -> bool {
    forall|s: &str| #[trigger] call_requires(p, (s,))
}

/// `k` gives the number that the parser `p` makes of a text.
pub open spec fn parses<P: Fn(&str) -> Option<Real>>(
    p: P,
    k: spec_fn(Seq<char>) -> Option<Real>,
) -> bool {
    forall|s: &str, r: Option<Real>| #[trigger] call_ensures(p, (s,), r) ==> r == k(s@)
}

pub open spec fn number_in(
    o: Option<Seq<char>>,
    k: spec_fn(Seq<char>) -> Option<Real>,
) -> Option<Real> {
    match o {
        Some(s) => k(s),
        None => None,
    }
}

pub fn flag_number<P: Fn(&str) -> Option<Real>>(args: &[String], name: &str, parse: &P) -> (r:
    Option<Real>)
    requires
        parsing(*parse),
    ensures
        forall|k: spec_fn(Seq<char>) -> Option<Real>| #[trigger]
            parses(*parse, k) ==> r == number_in(flag(texts(args@), name@), k),
{
    match flag_value(args, name) {
        Some(s) => parse(&s),
        None => None,
    }
}

/// The pieces between commas that the first `n` characters complete, and the open one.
pub open spec fn cut(s: Seq<char>, n: int) -> (Seq<Seq<char>>, Seq<char>)
    decreases n,
{
    if n <= 0 {
        (Seq::empty(), Seq::empty())
    } else {
        let before = cut(s, n - 1);
        if s[n - 1] == ',' {
            (before.0.push(before.1), Seq::empty())
        } else {
            (before.0, before.1.push(s[n - 1]))
        }
    }
}

/// The pieces of a text between commas.
pub open spec fn pieces(s: Seq<char>) -> Seq<Seq<char>> {
    let all = cut(s, s.len() as int);
    all.0.push(all.1)
}

pub fn split_commas(s: &str) -> (r: Vec<String>)
    ensures
        texts(r@) == pieces(s@),
{
    let c = chars_of(s);
    let mut out: Vec<String> = Vec::new();
    let mut open = String::new();
    let mut i: usize = 0;
    assert(texts(out@) =~= Seq::empty());
    while i < c.len()
        invariant
            i <= c.len(),
            c@ == s@,
            texts(out@) == cut(s@, i as int).0,
            open@ == cut(s@, i as int).1,
        decreases c.len() - i,
    {
        if c[i] == ',' {
            let ghost now = texts(out@);
            let ghost piece = open@;
            out.push(open);
            open = String::new();
            assert(texts(out@) =~= now.push(piece));
        } else {
            open.push(c[i]);
        }
        i += 1;
    }
    let ghost now = texts(out@);
    let ghost piece = open@;
    out.push(open);
    assert(texts(out@) =~= now.push(piece));
    out
}

/// The numbers among the first `n` pieces; what is no number is passed over.
pub open spec fn numbers(
    ps: Seq<Seq<char>>,
    n: int,
    k: spec_fn(Seq<char>) -> Option<Real>,
) -> Seq<Real>
    decreases n,
{
    if n <= 0 {
        Seq::empty()
    } else {
        match k(trimmed(ps[n - 1])) {
            Some(x) => numbers(ps, n - 1, k).push(x),
            None => numbers(ps, n - 1, k),
        }
    }
}

/// Three numbers with commas between them.
pub open spec fn triple_of(s: Seq<char>, k: spec_fn(Seq<char>) -> Option<Real>) -> Option<Vec3> {
    let ns = numbers(pieces(s), pieces(s).len() as int, k);
    if ns.len() == 3 {
        Some(Vec3 { x: ns[0], y: ns[1], z: ns[2] })
    } else {
        None
    }
}

pub fn parse_triple<P: Fn(&str) -> Option<Real>>(s: &str, parse: &P) -> (r: Option<Vec3>)
    requires
        parsing(*parse),
    ensures
        forall|k: spec_fn(Seq<char>) -> Option<Real>| #[trigger]
            parses(*parse, k) ==> r == triple_of(s@, k),
{
    let ps = split_commas(s);
    let ghost all = pieces(s@);
    assert(all.len() == ps.len());
    let mut ns: Vec<Real> = Vec::new();
    let mut i: usize = 0;
    while i < ps.len()
        invariant
            i <= ps.len(),
            all == texts(ps@),
            parsing(*parse),
            forall|k: spec_fn(Seq<char>) -> Option<Real>| #[trigger]
                parses(*parse, k) ==> ns@ == numbers(all, i as int, k),
        decreases ps.len() - i,
    {
        assert(all[i as int] == ps@[i as int]@);
        let t = trim(&ps[i]);
        if let Some(x) = parse(&t) {
            ns.push(x);
        }
        i += 1;
    }
    if ns.len() == 3 {
        Some(Vec3 { x: ns[0], y: ns[1], z: ns[2] })
    } else {
        None
    }
}

/// A text without the brackets around it.
pub open spec fn opened_up(s: Seq<char>) -> Seq<char>
    decreases s.len(),
{
    if s.len() > 0 && s[0] == '[' {
        opened_up(s.drop_first())
    } else {
        closed_off(s)
    }
}

pub open spec fn closed_off(s: Seq<char>) -> Seq<char>
    decreases s.len(),
{
    if s.len() > 0 && s.last() == ']' {
        closed_off(s.drop_last())
    } else {
        s
    }
}

fn without_brackets(s: &str) -> (r: String)
    ensures
        r@ == opened_up(s@),
{
    let c = chars_of(s);
    let mut a: usize = 0;
    assert(c@.skip(0) =~= c@);
    while a < c.len() && c[a] == '['
        invariant
            a <= c.len(),
            opened_up(c@.skip(a as int)) == opened_up(c@),
        decreases c.len() - a,
    {
        assert(c@.skip(a as int).drop_first() =~= c@.skip(a + 1));
        a += 1;
    }
    assert(opened_up(c@) == closed_off(c@.skip(a as int)));
    let mut b: usize = c.len();
    assert(c@.subrange(a as int, b as int) =~= c@.skip(a as int));
    while a < b && c[b - 1] == ']'
        invariant
            a <= b <= c.len(),
            closed_off(c@.subrange(a as int, b as int)) == opened_up(c@),
        decreases b - a,
    {
        assert(c@.subrange(a as int, b as int).drop_last() =~= c@.subrange(a as int, b - 1));
        b -= 1;
    }
    text_between(&c, a, b)
}

/// Three numbers, with or without brackets around them.
pub open spec fn vector_of(s: Seq<char>, k: spec_fn(Seq<char>) -> Option<Real>) -> Option<Vec3> {
    triple_of(opened_up(trimmed(s)), k)
}

pub fn parse_vec3<P: Fn(&str) -> Option<Real>>(s: &str, parse: &P) -> (r: Option<Vec3>)
    requires
        parsing(*parse),
    ensures
        forall|k: spec_fn(Seq<char>) -> Option<Real>| #[trigger]
            parses(*parse, k) ==> r == vector_of(s@, k),
{
    let t = trim(s);
    let inner = without_brackets(&t);
    parse_triple(&inner, parse)
}

pub open spec fn vector_in(
    o: Option<Seq<char>>,
    k: spec_fn(Seq<char>) -> Option<Real>,
) -> Option<Vec3> {
    match o {
        Some(s) => vector_of(s, k),
        None => None,
    }
}

pub fn flag_vec3<P: Fn(&str) -> Option<Real>>(args: &[String], name: &str, parse: &P) -> (r: Option<
    Vec3,
>)
    requires
        parsing(*parse),
    ensures
        forall|k: spec_fn(Seq<char>) -> Option<Real>| #[trigger]
            parses(*parse, k) ==> r == vector_in(flag(texts(args@), name@), k),
{
    match flag_value(args, name) {
        Some(s) => parse_vec3(&s, parse),
        None => None,
    }
}

/// The names among the first `n` pieces, without white space around them; empty ones are left
/// out.
pub open spec fn names_in(ps: Seq<Seq<char>>, n: int) -> Seq<Seq<char>>
    decreases n,
{
    if n <= 0 {
        Seq::empty()
    } else if trimmed(ps[n - 1]).len() == 0 {
        names_in(ps, n - 1)
    } else {
        names_in(ps, n - 1).push(trimmed(ps[n - 1]))
    }
}

/// The names in a list with commas.
pub fn split_names(s: &str) -> (r: Vec<String>)
    ensures
        texts(r@) == names_in(pieces(s@), pieces(s@).len() as int),
{
    let ps = split_commas(s);
    let ghost all = pieces(s@);
    assert(all.len() == ps.len());
    let mut out: Vec<String> = Vec::new();
    let mut i: usize = 0;
    assert(texts(out@) =~= Seq::empty());
    while i < ps.len()
        invariant
            i <= ps.len(),
            all == texts(ps@),
            texts(out@) == names_in(all, i as int),
        decreases ps.len() - i,
    {
        assert(all[i as int] == ps@[i as int]@);
        let t = trim(&ps[i]);
        if !t.as_str().is_empty() {
            let ghost now = texts(out@);
            let ghost name = t@;
            out.push(t);
            assert(texts(out@) =~= now.push(name));
        }
        i += 1;
    }
    out
}

} // verus!
