//! Lines, tokens and addresses: how requests get to the mailbox.

use crate::beauty::hex_digit;
use crate::feed::{EventModel, FeedEvent, MailboxFeed};
use crate::json::JsonModel;
use crate::mailbox::{MailboxRequest, MailboxResponse};
use crate::numeric::Real;
use crate::text::{
    begins, cat2, chars_of, code, is_digit, same, starts_with, strip_prefix, texts, trim, trimmed,
};
use crate::value::{member, parse_json, parsed};
use vstd::prelude::*;

verus! {

/// Longest line, in bytes, that is read to its end.
pub const MAX_LINE: usize = 1_048_576;

/// What one more byte makes of a line.
#[derive(Clone, Copy, Debug, PartialEq, Eq, Structural)]
pub enum LineState {
    /// More bytes belong to the line.
    Open,
    /// The line is complete, its end included.
    Complete,
    /// The line is too long.
    TooLong,
}

/// The state of a line that ends with its last byte so far.
pub open spec fn line_state(line: Seq<u8>) -> LineState {
    if line.len() > 0 && line.last() == 10 {
        LineState::Complete
    } else if line.len() > MAX_LINE {
        LineState::TooLong
    } else {
        LineState::Open
    }
}

/// Adds a byte to a line.
pub fn push_byte(line: &mut Vec<u8>, byte: u8) -> (r: LineState)
    ensures
        final(line)@ == old(line)@.push(byte),
        r == line_state(final(line)@),
{
    line.push(byte);
    if byte == 10 {
        LineState::Complete
    } else if line.len() > MAX_LINE {
        LineState::TooLong
    } else {
        LineState::Open
    }
}

/// A line that was read byte by byte, until it was complete, ends at its first newline and
/// is not too long.
pub proof fn line_ends_at_its_first_newline(line: Seq<u8>)
    requires
        line.len() > 0,
        line_state(line) is Complete,
        forall|k: int| 0 < k < line.len() ==> line_state(#[trigger] line.take(k)) is Open,
    ensures
        line.last() == 10,
        forall|k: int| 0 <= k < line.len() - 1 ==> line[k] != 10,
        line.len() <= MAX_LINE + 1,
{
    assert forall|k: int| 0 <= k < line.len() - 1 implies line[k] != 10 by {
        assert(line.take(k + 1).last() == line[k]);
    }
    if line.len() > 1 {
        assert(line_state(line.take(line.len() - 1)) is Open);
    }
}

/// `k` hexadecimal digits of a number, the most significant first.
pub open spec fn hex_number(n: nat, k: nat) -> Seq<char>
    decreases k,
{
    if k == 0 {
        Seq::empty()
    } else {
        hex_number(n / 16, (k - 1) as nat).push(hex_digit((n % 16) as int))
    }
}

/// The bits of a clock reading and a process id, mixed.
pub open spec fn mixed_bits(nanos: u128, pid: u32) -> u128 {
    nanos ^ ((pid as u128) << 48) ^ ((nanos << 23) | (nanos >> 105))
}

fn write_hex(n: u128, k: u8) -> (r: String)
    ensures
        r@ == hex_number(n as nat, k as nat),
    decreases k,
{
    if k == 0 {
        return String::new();
    }
    let mut s = write_hex(n / 16, k - 1);
    s.push(crate::beauty::hex_char((n % 16) as u8));
    s
}

/// A token for the clients of one server, out of the clock and the process id.
pub fn token_from(nanos: u128, pid: u32) -> (r: String)
    ensures
        r@ == hex_number(mixed_bits(nanos, pid) as nat, 32),
        r@.len() == 32,
{
    let mix: u128 = nanos ^ ((pid as u128) << 48u32) ^ ((nanos << 23u32) | (nanos >> 105u32));
    proof {
        hex_length(mix as nat, 32);
    }
    write_hex(mix, 32)
}

proof fn hex_length(n: nat, k: nat)
    ensures
        hex_number(n, k).len() == k,
    decreases k,
{
    if k > 0 {
        hex_length(n / 16, (k - 1) as nat);
    }
}

/// The token in a token file: its text without white space around it, if any is left.
pub fn token_in_file(text: &str) -> (r: Option<String>)
    ensures
        match r {
            Some(t) => t@ == trimmed(text@) && t@.len() > 0,
            None => trimmed(text@).len() == 0,
        },
{
    let t = trim(text);
    if t.as_str().is_empty() {
        None
    } else {
        Some(t)
    }
}

/// The token that a client presents: the one it was given, else the one in the file, else
/// none.
pub fn client_token(given: Option<String>, file: Option<String>) -> (r: String)
    ensures
        r@ == (match given {
            Some(t) if t@.len() > 0 => t@,
            _ => match file {
                Some(f) if trimmed(f@).len() > 0 => trimmed(f@),
                _ => ""@,
            },
        }),
{
    if let Some(t) = given {
        if !t.as_str().is_empty() {
            return t;
        }
    }
    if let Some(f) = file {
        if let Some(t) = token_in_file(&f) {
            return t;
        }
    }
    "".to_owned()
}

/// An address that is reached by TCP: it has a colon and a digit, and does not name a pipe.
pub open spec fn names_host(addr: Seq<char>) -> bool {
    &&& !begins(addr, "pipe:"@)
    &&& !begins(addr, "\\\\.\\pipe\\"@)
    &&& exists|i: int| 0 <= i < addr.len() && addr[i] == ':'
    &&& exists|i: int| 0 <= i < addr.len() && is_digit(#[trigger] addr[i])
}

pub fn is_tcp_addr(addr: &str) -> (r: bool)
    ensures
        r == names_host(addr@),
{
    if starts_with(addr, "pipe:") || starts_with(addr, "\\\\.\\pipe\\") {
        return false;
    }
    let c = chars_of(addr);
    let mut colon = false;
    let mut digit = false;
    let mut i: usize = 0;
    while i < c.len()
        invariant
            i <= c.len(),
            colon == exists|k: int| 0 <= k < i && c@[k] == ':',
            digit == exists|k: int| 0 <= k < i && is_digit(#[trigger] c@[k]),
        decreases c.len() - i,
    {
        let n: u32 = code(c[i]);
        if c[i] == ':' {
            colon = true;
        }
        if 48 <= n && n <= 57 {
            assert(is_digit(c@[i as int]));
            digit = true;
        }
        i += 1;
    }
    colon && digit
}

/// The name of a local socket, its marker left off.
pub fn local_name(addr: &str) -> (r: String)
    ensures
        r@ == (if begins(addr@, "pipe:"@) {
            addr@.skip("pipe:"@.len() as int)
        } else {
            addr@
        }),
{
    match strip_prefix(addr, "pipe:") {
        Some(s) => s,
        None => addr.to_owned(),
    }
}

/// What becomes of a line.
#[derive(Debug, PartialEq)]
pub enum Admission {
    /// An empty line: nothing is answered.
    Silent,
    /// The line is no JSON.
    Malformed { response: MailboxResponse },
    /// The token is wrong, or the request cannot be understood.
    Refused { response: MailboxResponse },
    Accepted { request: MailboxRequest },
}

/// The token that a request presents.
pub open spec fn presented(v: JsonModel) -> Seq<char> {
    match v.member("token"@) {
        Some(t) => match t.text() {
            Some(s) => s,
            None => ""@,
        },
        None => ""@,
    }
}

/// The decoder may be given any text.
pub open spec fn decodes<D: Fn(&str) -> Result<MailboxRequest, String>>(d: D) -> bool {
    forall|s: &str| #[trigger] call_requires(d, (s,))
}

/// Decides about a line: only one that presents the expected token is decoded at all.
pub fn receive<D: Fn(&str) -> Result<MailboxRequest, String>>(
    line: &str,
    expected: &str,
    decode: &D,
) -> (r: Admission)
    requires
        decodes(*decode),
    ensures
        if trimmed(line@).len() == 0 {
            r is Silent
        } else {
            match parsed(trimmed(line@)) {
                Err(e) => r matches Admission::Malformed { response } && response.refuses(
                    "bad_request:"@ + e,
                ),
                Ok(v) => if presented(v) != expected@ {
                    r matches Admission::Refused { response } && response.refuses("unauthorized"@)
                } else {
                    exists|t: &str, d: Result<MailboxRequest, String>|
                        t@ == trimmed(line@) && #[trigger] call_ensures(*decode, (t,), d)
                            && match d {
                            Ok(q) => r == (Admission::Accepted { request: q }),
                            Err(e) => r matches Admission::Refused { response }
                                && response.refuses("bad_request:"@ + e@),
                        }
                },
            }
        },
{
    let trimmed_line = trim(line);
    let t: &str = trimmed_line.as_str();
    if t.is_empty() {
        return Admission::Silent;
    }
    let v = match parse_json(t) {
        Err(e) => {
            return Admission::Malformed {
                response: MailboxResponse::bad(cat2("bad_request:", &e)),
            };
        },
        Ok(v) => v,
    };
    let token = match member(&v, "token") {
        Some(m) => match m.as_str() {
            Some(s) => s,
            None => "",
        },
        None => "",
    };
    if !same(token, expected) {
        return Admission::Refused { response: MailboxResponse::bad("unauthorized".to_owned()) };
    }
    match decode(t) {
        Ok(request) => Admission::Accepted { request },
        Err(e) => Admission::Refused { response: MailboxResponse::bad(cat2("bad_request:", &e)) },
    }
}

/// Adds a card about a line that is no JSON.
pub fn note_malformed(feed: &mut MailboxFeed, elapsed_ms: Real, at: u64)
    ensures
        final(feed)@ == old(feed)@.told(
            (EventModel {
                op: "error"@,
                ok: false,
                elapsed_ms,
                revision: None,
                summary: "bad_request"@,
                hits: Seq::empty(),
                at,
            }),
        ),
{
    let e = FeedEvent {
        op: "error".to_owned(),
        ok: false,
        elapsed_ms,
        revision: None,
        summary: "bad_request".to_owned(),
        hits: Vec::new(),
        at,
    };
    assert(texts(e.hits@) =~= Seq::empty());
    feed.push(e);
}

} // verus!
