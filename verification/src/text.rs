//! Text as sequences of characters: comparing, joining, cutting and writing numbers.

use vstd::prelude::*;

verus! {

/// `String::push`: the text grows by one character at its end.
pub assume_specification[ String::push ](s: &mut String, c: char)
    ensures
        final(s)@ == old(s)@.push(c),
;

/// `String::push_str`: the text grows by another one at its end.
pub assume_specification[ String::push_str ](s: &mut String, t: &str)
    ensures
        final(s)@ == old(s)@ + t@,
;

/// `==` on `str`: whether two texts hold the same characters.
pub assume_specification[ <str as PartialEq<str>>::eq ](a: &str, b: &str) -> (r: bool)
    ensures
        r == (a@ == b@),
;

/// What a list of texts holds.
pub open spec fn texts(list: Seq<String>) -> Seq<Seq<char>> {
    list.map_values(|s: String| s@)
}

/// What an optional text holds.
pub open spec fn text_in(o: Option<String>) -> Option<Seq<char>> {
    match o {
        Some(s) => Some(s@),
        None => None,
    }
}

pub fn same(a: &str, b: &str) -> (r: bool)
    ensures
        r == (a@ == b@),
{
    *a == *b
}

pub fn chars_of(s: &str) -> (r: Vec<char>)
    ensures
        r@ == s@,
{
    let mut out: Vec<char> = Vec::new();
    for c in it: s.chars()
        invariant
            it.seq() == s@,
            out@ == s@.take(it.index()),
    {
        out.push(c);
    }
    assert(s@.take(s@.len() as int) == s@);
    out
}

/// The characters from `a` up to `b`, as a text.
pub fn text_between(c: &Vec<char>, a: usize, b: usize) -> (r: String)
    requires
        a <= b <= c.len(),
    ensures
        r@ == c@.subrange(a as int, b as int),
{
    let mut out = String::new();
    let mut i: usize = a;
    while i < b
        invariant
            a <= i <= b <= c.len(),
            out@ == c@.subrange(a as int, i as int),
        decreases b - i,
    {
        out.push(c[i]);
        i += 1;
    }
    out
}

pub fn text_of(c: &Vec<char>) -> (r: String)
    ensures
        r@ == c@,
{
    let r = text_between(c, 0, c.len());
    assert(c@.subrange(0, c@.len() as int) == c@);
    r
}

pub fn cat2(a: &str, b: &str) -> (r: String)
    ensures
        r@ == a@ + b@,
{
    let mut s = a.to_owned();
    s.push_str(b);
    s
}

pub fn cat3(a: &str, b: &str, c: &str) -> (r: String)
    ensures
        r@ == a@ + b@ + c@,
{
    let mut s = a.to_owned();
    s.push_str(b);
    s.push_str(c);
    s
}

pub fn cat4(a: &str, b: &str, c: &str, d: &str) -> (r: String)
    ensures
        r@ == a@ + b@ + c@ + d@,
{
    let mut s = cat3(a, b, c);
    s.push_str(d);
    s
}

pub fn holds(list: &Vec<String>, t: &str) -> (r: bool)
    ensures
        r == texts(list@).contains(t@),
{
    let mut i: usize = 0;
    while i < list.len()
        invariant
            i <= list.len(),
            forall|k: int| 0 <= k < i ==> texts(list@)[k] != t@,
        decreases list.len() - i,
    {
        if same(&list[i], t) {
            assert(texts(list@)[i as int] == t@);
            return true;
        }
        i += 1;
    }
    false
}

pub fn copy_texts(list: &Vec<String>) -> (r: Vec<String>)
    ensures
        texts(r@) == texts(list@),
{
    let mut out: Vec<String> = Vec::new();
    let mut i: usize = 0;
    while i < list.len()
        invariant
            i <= list.len(),
            out.len() == i,
            forall|k: int| 0 <= k < i ==> out@[k]@ == list@[k]@,
        decreases list.len() - i,
    {
        out.push(list[i].clone());
        i += 1;
    }
    assert(texts(out@) == texts(list@));
    out
}

pub fn copy_text(o: &Option<String>) -> (r: Option<String>)
    ensures
        r == *o,
{
    match o {
        Some(s) => Some(s.clone()),
        None => None,
    }
}

/// The character of one decimal digit.
pub open spec fn digit(d: int) -> char {
    (48 + d) as char
}

/// Decimal notation without sign or leading zeros.
pub open spec fn decimal_text(n: nat) -> Seq<char>
    decreases n,
{
    if n < 10 {
        seq![digit(n as int)]
    } else {
        decimal_text(n / 10).push(digit((n % 10) as int))
    }
}

pub fn decimal_wide(n: u128) -> (r: String)
    ensures
        r@ == decimal_text(n as nat),
    decreases n,
{
    let d: u8 = (n % 10) as u8;
    let c: char = (48 + d) as char;
    if n < 10 {
        let mut s = String::new();
        s.push(c);
        s
    } else {
        let mut s = decimal_wide(n / 10);
        s.push(c);
        s
    }
}

pub fn decimal(n: u64) -> (r: String)
    ensures
        r@ == decimal_text(n as nat),
{
    decimal_wide(n as u128)
}

/// Whether `s` begins with `p`.
pub open spec fn begins(s: Seq<char>, p: Seq<char>) -> bool {
    p.len() <= s.len() && s.take(p.len() as int) == p
}

pub fn starts_with(s: &str, p: &str) -> (r: bool)
    ensures
        r == begins(s@, p@),
{
    let a = chars_of(s);
    let b = chars_of(p);
    if b.len() > a.len() {
        return false;
    }
    let mut i: usize = 0;
    while i < b.len()
        invariant
            i <= b.len() <= a.len(),
            a@.take(i as int) == b@.take(i as int),
            a@ == s@,
            b@ == p@,
        decreases b.len() - i,
    {
        if a[i] != b[i] {
            assert(s@.take(p@.len() as int)[i as int] != p@[i as int]);
            return false;
        }
        assert(a@.take(i as int + 1) == a@.take(i as int).push(a@[i as int]));
        assert(b@.take(i as int + 1) == b@.take(i as int).push(b@[i as int]));
        i += 1;
    }
    assert(b@.take(b@.len() as int) == b@);
    true
}

/// The text after `p`, where `s` begins with `p`.
pub fn strip_prefix(s: &str, p: &str) -> (r: Option<String>)
    ensures
        text_in(r) == (if begins(s@, p@) { Some(s@.skip(p@.len() as int)) } else { None }),
{
    if starts_with(s, p) {
        let a = chars_of(s);
        let b = chars_of(p);
        Some(text_between(&a, b.len(), a.len()))
    } else {
        None
    }
}

/// The code point of a character.
pub fn code(c: char) -> (r: u32)
    ensures
        r == c as int,
{
    c as u32
}

pub open spec fn is_digit(c: char) -> bool {
    48 <= c as int <= 57
}

/// The number that a row of digits stands for; none where another character occurs.
pub open spec fn digits_value(s: Seq<char>) -> Option<nat>
    decreases s.len(),
{
    if s.len() == 0 {
        Some(0)
    } else if !is_digit(s.last()) {
        None
    } else {
        match digits_value(s.drop_last()) {
            None => None,
            Some(v) => Some((10 * v + (s.last() as int - 48)) as nat),
        }
    }
}

/// The number of at most `max` that a text of one or more digits stands for.
pub open spec fn natural(s: Seq<char>, max: nat) -> Option<nat> {
    if s.len() == 0 {
        None
    } else {
        match digits_value(s) {
            Some(v) => if v <= max {
                Some(v)
            } else {
                None
            },
            None => None,
        }
    }
}

proof fn longer_is_larger(s: Seq<char>, i: int, max: nat)
    requires
        0 <= i <= s.len(),
        digits_value(s.take(i)) is None || digits_value(s.take(i))->0 > max,
    ensures
        digits_value(s) is None || digits_value(s)->0 > max,
    decreases s.len() - i,
{
    if i < s.len() {
        assert(s.take(i + 1).drop_last() =~= s.take(i));
        longer_is_larger(s, i + 1, max);
    } else {
        assert(s.take(i) =~= s);
    }
}

/// Reads a text of digits as a number of at most `max`.
pub fn read_natural(s: &str, max: u64) -> (r: Option<u64>)
    ensures
        match r {
            Some(v) => natural(s@, max as nat) == Some(v as nat),
            None => natural(s@, max as nat) is None,
        },
{
    let c = chars_of(s);
    if c.len() == 0 {
        return None;
    }
    let mut v: u64 = 0;
    let mut i: usize = 0;
    while i < c.len()
        invariant
            i <= c.len(),
            c@ == s@,
            c.len() > 0,
            v <= max,
            digits_value(c@.take(i as int)) == Some(v as nat),
        decreases c.len() - i,
    {
        let x: char = c[i];
        let d: u32 = code(x);
        proof {
            assert(c@.take(i as int + 1).drop_last() =~= c@.take(i as int));
            assert(c@.take(i as int + 1).last() == x);
        }
        if d < 48 || d > 57 {
            proof {
                longer_is_larger(c@, i as int + 1, max as nat);
            }
            return None;
        }
        let next: u128 = 10 * v as u128 + (d - 48) as u128;
        if next > max as u128 {
            proof {
                longer_is_larger(c@, i as int + 1, max as nat);
            }
            return None;
        }
        v = next as u64;
        i += 1;
    }
    assert(c@.take(c@.len() as int) =~= c@);
    Some(v)
}

/// A character with upper-case ASCII letters made lower case.
pub open spec fn lower_char(c: char) -> char {
    if 65 <= c as int <= 90 {
        (c as int + 32) as char
    } else {
        c
    }
}

pub open spec fn lowered(s: Seq<char>) -> Seq<char> {
    s.map_values(|c: char| lower_char(c))
}

pub fn lower(s: &str) -> (r: String)
    ensures
        r@ == lowered(s@),
{
    let c = chars_of(s);
    let mut out = String::new();
    let mut i: usize = 0;
    while i < c.len()
        invariant
            i <= c.len(),
            out@ == lowered(c@.take(i as int)),
        decreases c.len() - i,
    {
        let x: char = c[i];
        let n: u32 = code(x);
        let y: char = if 65 <= n && n <= 90 {
            (n as u8 + 32) as char
        } else {
            x
        };
        assert(lowered(c@.take(i as int + 1)) =~= lowered(c@.take(i as int)).push(lower_char(x)));
        out.push(y);
        i += 1;
    }
    assert(c@.take(c@.len() as int) =~= c@);
    out
}

/// Texts one after the other with a separator between neighbours.
pub open spec fn joined(parts: Seq<Seq<char>>, sep: Seq<char>) -> Seq<char>
    decreases parts.len(),
{
    if parts.len() == 0 {
        Seq::empty()
    } else if parts.len() == 1 {
        parts[0]
    } else {
        joined(parts.drop_last(), sep) + sep + parts.last()
    }
}

pub fn join(parts: &Vec<String>, sep: &str) -> (r: String)
    ensures
        r@ == joined(texts(parts@), sep@),
{
    let mut out = String::new();
    let mut i: usize = 0;
    assert(out@ =~= joined(texts(parts@).take(0), sep@));
    while i < parts.len()
        invariant
            i <= parts.len(),
            out@ == joined(texts(parts@).take(i as int), sep@),
        decreases parts.len() - i,
    {
        proof {
            let more = texts(parts@).take(i + 1);
            assert(more.drop_last() =~= texts(parts@).take(i as int));
            assert(more.last() == parts@[i as int]@);
            if i == 0 {
                assert(more.len() == 1 && more[0] == parts@[0]@);
            }
        }
        if i > 0 {
            out.push_str(sep);
        }
        out.push_str(&parts[i]);
        assert(i == 0 ==> out@ =~= parts@[0]@);
        i += 1;
    }
    assert(texts(parts@).take(parts@.len() as int) =~= texts(parts@));
    out
}

/// A character that Unicode counts as white space.
pub open spec fn is_space(c: char) -> bool {
    let n = c as int;
    ||| 0x9 <= n <= 0xd
    ||| n == 0x20
    ||| n == 0x85
    ||| n == 0xa0
    ||| n == 0x1680
    ||| 0x2000 <= n <= 0x200a
    ||| n == 0x2028
    ||| n == 0x2029
    ||| n == 0x202f
    ||| n == 0x205f
    ||| n == 0x3000
}

pub fn space(c: char) -> (r: bool)
    ensures
        r == is_space(c),
{
    let n: u32 = code(c);
    (0x9 <= n && n <= 0xd) || n == 0x20 || n == 0x85 || n == 0xa0 || n == 0x1680 || (0x2000 <= n && n
        <= 0x200a) || n == 0x2028 || n == 0x2029 || n == 0x202f || n == 0x205f || n == 0x3000
}

pub open spec fn without_leading(s: Seq<char>) -> Seq<char>
    decreases s.len(),
{
    if s.len() > 0 && is_space(s[0]) {
        without_leading(s.drop_first())
    } else {
        s
    }
}

pub open spec fn without_trailing(s: Seq<char>) -> Seq<char>
    decreases s.len(),
{
    if s.len() > 0 && is_space(s.last()) {
        without_trailing(s.drop_last())
    } else {
        s
    }
}

/// A text without white space at either end.
pub open spec fn trimmed(s: Seq<char>) -> Seq<char> {
    without_trailing(without_leading(s))
}

pub fn trim(s: &str) -> (r: String)
    ensures
        r@ == trimmed(s@),
{
    let c = chars_of(s);
    let mut a: usize = 0;
    assert(c@.skip(0) =~= c@);
    while a < c.len() && space(c[a])
        invariant
            a <= c.len(),
            without_leading(c@.skip(a as int)) == without_leading(c@),
        decreases c.len() - a,
    {
        assert(c@.skip(a as int).drop_first() =~= c@.skip(a + 1));
        a += 1;
    }
    assert(without_leading(c@) == c@.skip(a as int));
    let mut b: usize = c.len();
    assert(c@.subrange(a as int, b as int) =~= c@.skip(a as int));
    while a < b && space(c[b - 1])
        invariant
            a <= b <= c.len(),
            without_trailing(c@.subrange(a as int, b as int)) == trimmed(c@),
        decreases b - a,
    {
        assert(c@.subrange(a as int, b as int).drop_last() =~= c@.subrange(a as int, b - 1));
        b -= 1;
    }
    text_between(&c, a, b)
}

/// Trimming leaves nothing to trim.
pub proof fn trimming_is_final(s: Seq<char>)
    ensures
        trimmed(trimmed(s)) == trimmed(s),
        trimmed(s).len() > 0 ==> !is_space(trimmed(s)[0]) && !is_space(trimmed(s).last()),
{
    leading_is_gone(s);
    trailing_is_gone(without_leading(s));
}

proof fn leading_is_gone(s: Seq<char>)
    ensures
        without_leading(s).len() > 0 ==> !is_space(without_leading(s)[0]),
    decreases s.len(),
{
    if s.len() > 0 && is_space(s[0]) {
        leading_is_gone(s.drop_first());
    }
}

proof fn trailing_is_gone(s: Seq<char>)
    ensures
        without_trailing(s).len() > 0 ==> !is_space(without_trailing(s).last())
            && without_trailing(s)[0] == s[0],
    decreases s.len(),
{
    if s.len() > 0 && is_space(s.last()) {
        trailing_is_gone(s.drop_last());
    }
}

} // verus!
