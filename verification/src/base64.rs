//! Base64 with padding, as data URIs carry it.

use vstd::prelude::*;

verus! {

/// The character of a six-bit number.
pub open spec fn sextet_char(n: int) -> char {
    if n < 26 {
        (65 + n) as char
    } else if n < 52 {
        (71 + n) as char
    } else if n < 62 {
        (n - 4) as char
    } else if n == 62 {
        '+'
    } else {
        '/'
    }
}

/// The six-bit number of a character.
pub open spec fn sextet(c: char) -> int {
    let n = c as int;
    if 65 <= n <= 90 {
        n - 65
    } else if 97 <= n <= 122 {
        n - 71
    } else if 48 <= n <= 57 {
        n + 4
    } else if c == '+' {
        62
    } else {
        63
    }
}

/// Byte number `i`, or zero behind the end.
pub open spec fn byte_at(s: Seq<u8>, i: int) -> int {
    if i < s.len() {
        s[i] as int
    } else {
        0
    }
}

/// The four characters for the three bytes from `i` on, with `=` where a byte is missing.
pub open spec fn quad(s: Seq<u8>, i: int) -> Seq<char> {
    let a = byte_at(s, i);
    let b = byte_at(s, i + 1);
    let c = byte_at(s, i + 2);
    seq![
        sextet_char(a / 4),
        sextet_char(a % 4 * 16 + b / 16),
        if i + 1 < s.len() {
            sextet_char(b % 16 * 4 + c / 64)
        } else {
            '='
        },
        if i + 2 < s.len() {
            sextet_char(c % 64)
        } else {
            '='
        },
    ]
}

/// The notation of the bytes from `i` on.
pub open spec fn encoded_from(s: Seq<u8>, i: int) -> Seq<char>
    decreases s.len() + 3 - i,
{
    if i < 0 || i >= s.len() {
        Seq::empty()
    } else {
        quad(s, i) + encoded_from(s, i + 3)
    }
}

pub open spec fn base64_text(s: Seq<u8>) -> Seq<char> {
    encoded_from(s, 0)
}

/// The bytes that four characters from `j` on stand for.
pub open spec fn bytes_of_quad(t: Seq<char>, j: int) -> Seq<u8> {
    let a = sextet(t[j]);
    let b = sextet(t[j + 1]);
    let c = sextet(t[j + 2]);
    let d = sextet(t[j + 3]);
    if t[j + 2] == '=' {
        seq![(a * 4 + b / 16) as u8]
    } else if t[j + 3] == '=' {
        seq![(a * 4 + b / 16) as u8, (b % 16 * 16 + c / 4) as u8]
    } else {
        seq![
            (a * 4 + b / 16) as u8,
            (b % 16 * 16 + c / 4) as u8,
            (c % 4 * 64 + d) as u8,
        ]
    }
}

/// The bytes that a notation stands for.
pub open spec fn decoded(t: Seq<char>) -> Seq<u8>
    decreases t.len(),
{
    if t.len() < 4 {
        Seq::empty()
    } else {
        bytes_of_quad(t, 0) + decoded(t.skip(4))
    }
}

fn sextet_digit(n: u8) -> (r: char)
    requires
        n < 64,
    ensures
        r == sextet_char(n as int),
{
    if n < 26 {
        (65 + n) as char
    } else if n < 52 {
        (71 + n) as char
    } else if n < 62 {
        (n - 4) as char
    } else if n == 62 {
        '+'
    } else {
        '/'
    }
}

pub fn base64_encode(data: &Vec<u8>) -> (r: String)
    ensures
        r@ == base64_text(data@),
{
    let mut out = String::new();
    let mut i: usize = 0;
    let n: usize = data.len();
    assert(out@ + encoded_from(data@, 0) =~= base64_text(data@));
    while i < n
        invariant
            n == data.len(),
            base64_text(data@) == out@ + encoded_from(data@, i as int),
        decreases n - i,
    {
        let ghost before = out@;
        let a: u8 = data[i];
        let b: u8 = if n - i > 1 {
            data[i + 1]
        } else {
            0
        };
        let c: u8 = if n - i > 2 {
            data[i + 2]
        } else {
            0
        };
        out.push(sextet_digit(a / 4));
        out.push(sextet_digit(a % 4 * 16 + b / 16));
        if n - i > 1 {
            out.push(sextet_digit(b % 16 * 4 + c / 64));
        } else {
            out.push('=');
        }
        if n - i > 2 {
            out.push(sextet_digit(c % 64));
        } else {
            out.push('=');
        }
        proof {
            assert(out@ =~= before + quad(data@, i as int));
            assert(before + (quad(data@, i as int) + encoded_from(data@, i + 3)) =~= out@
                + encoded_from(data@, i + 3));
            if n - i <= 3 {
                assert(encoded_from(data@, i + 3) =~= encoded_from(data@, n as int));
            }
        }
        if n - i <= 3 {
            i = n;
        } else {
            i += 3;
        }
    }
    assert(out@ + encoded_from(data@, i as int) =~= out@);
    out
}

proof fn sextet_round_trip(n: int)
    requires
        0 <= n < 64,
    ensures
        sextet(sextet_char(n)) == n,
        sextet_char(n) != '=',
{
}

proof fn quad_round_trip(s: Seq<u8>, i: int, t: Seq<char>)
    requires
        0 <= i < s.len(),
        t.len() >= 4,
        t.take(4) == quad(s, i),
    ensures
        bytes_of_quad(t, 0) == s.subrange(
            i,
            if i + 3 < s.len() {
                i + 3
            } else {
                s.len() as int
            },
        ),
{
    let a = byte_at(s, i);
    let b = byte_at(s, i + 1);
    let c = byte_at(s, i + 2);
    assert(t[0] == t.take(4)[0]);
    assert(t[1] == t.take(4)[1]);
    assert(t[2] == t.take(4)[2]);
    assert(t[3] == t.take(4)[3]);
    sextet_round_trip(a / 4);
    sextet_round_trip(a % 4 * 16 + b / 16);
    sextet_round_trip(b % 16 * 4 + c / 64);
    sextet_round_trip(c % 64);
    let end = if i + 3 < s.len() {
        i + 3
    } else {
        s.len() as int
    };
    assert(bytes_of_quad(t, 0) =~= s.subrange(i, end));
}

proof fn round_trip_from(s: Seq<u8>, i: int)
    requires
        0 <= i,
    ensures
        decoded(encoded_from(s, i)) == (if i < s.len() {
            s.skip(i)
        } else {
            Seq::empty()
        }),
    decreases s.len() + 3 - i,
{
    if i < s.len() {
        let t = encoded_from(s, i);
        let rest = encoded_from(s, i + 3);
        assert(t.take(4) =~= quad(s, i));
        assert(t.skip(4) =~= rest);
        round_trip_from(s, i + 3);
        quad_round_trip(s, i, t);
        assert(decoded(t) =~= s.skip(i));
    }
}

/// Decoding a notation gives back the bytes that were encoded.
pub proof fn notation_carries_the_bytes(s: Seq<u8>)
    ensures
        decoded(base64_text(s)) == s,
{
    round_trip_from(s, 0);
    if s.len() > 0 {
        assert(s.skip(0) =~= s);
    } else {
        assert(decoded(base64_text(s)) =~= s);
    }
}

/// A notation has four characters for every three bytes, the last three perhaps not full.
pub proof fn notation_length(s: Seq<u8>, i: int)
    requires
        0 <= i <= s.len(),
    ensures
        encoded_from(s, i).len() == (s.len() - i + 2) / 3 * 4,
    decreases s.len() + 3 - i,
{
    if i < s.len() {
        if i + 3 <= s.len() {
            notation_length(s, i + 3);
        } else {
            assert(encoded_from(s, i + 3).len() == 0);
        }
    }
}

} // verus!
