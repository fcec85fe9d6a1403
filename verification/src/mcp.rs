//! The stdio adapter for assistants: framing, routing and what each tool asks the mailbox.

use crate::apply::ApplyRequest;
use crate::args::{parse_whole, scanned, whole_number};
use crate::capabilities::{mcp_tool_names, tool_names};
use crate::cycles_stream::low_word;
use crate::import::{readable, reads, text_at, whole_at};
use crate::json::{item_views, member_of, member_views, put, put_item, Json, JsonModel};
use crate::mailbox::{HistoryAction, MailboxRequest, ProjectAction};
use crate::numeric::Real;
use crate::query::QuerySpec;
use crate::text::{
    begins, cat2, cat3, cat4, chars_of, decimal, decimal_text, digit, is_digit, join, joined, same,
    starts_with, strip_prefix, text_between, text_in, texts, trim, trimmed, without_leading,
    without_trailing,
};
use crate::value::{member_in, notation, numeral, to_bytes, tree_in, tree_of};
use vstd::prelude::*;

verus! {

pub const PROTOCOL: &'static str = "2024-11-05";

/// Longest request in bytes.
pub const MAX_REQUEST_BYTES: usize = 1_048_576;

/// What the lines of a message say so far.
#[derive(Clone, Copy, Debug, PartialEq, Eq, Structural)]
pub struct Framing {
    /// Whether a line has been read.
    pub begun: bool,
    pub content_length: Option<u64>,
}

/// What one more line makes of a message.
#[derive(Debug, PartialEq)]
pub enum Framed {
    /// The line is the whole message.
    Message { text: String },
    /// More lines belong to the header.
    More,
    /// The header is complete; so many bytes follow.
    Body { length: usize },
    Failed { message: String },
}

/// A text without the byte order marks that it starts with.
pub open spec fn without_marks(s: Seq<char>) -> Seq<char>
    decreases s.len(),
{
    if s.len() > 0 && s[0] as u32 == 0xfeff {
        without_marks(s.drop_first())
    } else {
        s
    }
}

/// The header line in a line of text.
pub open spec fn header_in(line: Seq<char>) -> Seq<char> {
    without_marks(without_trailing(line))
}

/// The framing after a header line that is not empty, or what is wrong with the line.
pub open spec fn headed(f: Framing, t: Seq<char>) -> Result<Framing, Seq<char>> {
    if begins(t, "Content-Length:"@) {
        match whole_number(trimmed(t.skip("Content-Length:"@.len() as int)), u64::MAX as nat) {
            Ok(n) => Ok(Framing { begun: true, content_length: Some(n as u64) }),
            Err(e) => Err(e),
        }
    } else {
        Ok(Framing { begun: true, ..f })
    }
}

/// What a line makes of a message.
pub open spec fn framed(f: Framing, line: Seq<char>, r: Framed, after: Framing) -> bool {
    let whole = without_trailing(line);
    if !f.begun && whole.len() > 0 && whole[0] == '{' {
        r matches Framed::Message { text } && text@ == whole
    } else if header_in(line).len() == 0 {
        match f.content_length {
            None => r matches Framed::Failed { message } && message@
                == "mcp: missing Content-Length"@,
            Some(n) => if n > MAX_REQUEST_BYTES {
                r matches Framed::Failed { message } && message@ == "mcp: request over 1 MiB"@
            } else {
                r == (Framed::Body { length: n as usize })
            },
        }
    } else {
        match headed(f, header_in(line)) {
            Err(e) => r matches Framed::Failed { message } && message@ == e,
            Ok(g) => r == Framed::More && after == g,
        }
    }
}

fn trim_end(s: &str) -> (r: String)
    ensures
        r@ == without_trailing(s@),
{
    let c = chars_of(s);
    let mut b: usize = c.len();
    assert(c@.take(b as int) =~= c@);
    while b > 0 && crate::text::space(c[b - 1])
        invariant
            b <= c.len(),
            without_trailing(c@.take(b as int)) == without_trailing(c@),
        decreases b,
    {
        assert(c@.take(b as int).drop_last() =~= c@.take(b - 1));
        b -= 1;
    }
    assert(c@.subrange(0, b as int) =~= c@.take(b as int));
    text_between(&c, 0, b)
}

fn drop_marks(s: &str) -> (r: String)
    ensures
        r@ == without_marks(s@),
{
    let c = chars_of(s);
    let mut a: usize = 0;
    assert(c@.skip(0) =~= c@);
    while a < c.len() && crate::text::code(c[a]) == 0xfeff
        invariant
            a <= c.len(),
            without_marks(c@.skip(a as int)) == without_marks(c@),
        decreases c.len() - a,
    {
        assert(c@.skip(a as int).drop_first() =~= c@.skip(a + 1));
        a += 1;
    }
    assert(c@.subrange(a as int, c@.len() as int) =~= c@.skip(a as int));
    text_between(&c, a, c.len())
}

impl Framing {
    pub fn new() -> (r: Self)
        ensures
            r == (Framing { begun: false, content_length: None }),
    {
        Framing { begun: false, content_length: None }
    }

    /// Takes one more line, its end included.
    pub fn read_line(&mut self, line: &str) -> (r: Framed)
        ensures
            framed(*old(self), line@, r, *final(self)),
            r != Framed::More ==> *final(self) == *old(self),
    {
        let whole = trim_end(line);
        if !self.begun && starts_with(&whole, "{") {
            proof {
                reveal_strlit("{");
                assert(whole@.take(1)[0] == whole@[0]);
            }
            return Framed::Message { text: whole };
        }
        proof {
            reveal_strlit("{");
            if whole@.len() > 0 && whole@[0] == '{' {
                assert(whole@.take(1) =~= "{"@);
            }
        }
        let t = drop_marks(&whole);
        if t.as_str().is_empty() {
            return match self.content_length {
                None => Framed::Failed { message: "mcp: missing Content-Length".to_owned() },
                Some(n) => if n > MAX_REQUEST_BYTES as u64 {
                    Framed::Failed { message: "mcp: request over 1 MiB".to_owned() }
                } else {
                    Framed::Body { length: n as usize }
                },
            };
        }
        if let Some(rest) = strip_prefix(&t, "Content-Length:") {
            let digits = trim(&rest);
            match parse_whole(&digits, u64::MAX) {
                Err(e) => return Framed::Failed { message: e },
                Ok(n) => {
                    self.content_length = Some(n);
                },
            }
        }
        self.begun = true;
        Framed::More
    }
}

/// What stands before a message of so many bytes.
pub open spec fn head_of(length: nat) -> Seq<char> {
    length_line(length) + "\r\n"@
}

/// The header line that tells a length.
pub open spec fn length_line(length: nat) -> Seq<char> {
    "Content-Length: "@ + decimal_text(length) + "\r\n"@
}

/// The header of a message: a line with its length in bytes, and an empty line.
pub fn message_head(length: usize) -> (r: String)
    ensures
        r@ == head_of(length as nat),
{
    let line = cat3("Content-Length: ", &decimal(length as u64), "\r\n");
    cat2(&line, "\r\n")
}

pub(crate) proof fn decimal_is_scanned(s: Seq<char>, n: nat, max: nat)
    requires
        decimal_text(n).len() <= s.len(),
        s.take(decimal_text(n).len() as int) == decimal_text(n),
        n <= max,
    ensures
        scanned(s, 0, 0, max) == scanned(s, decimal_text(n).len() as int, n, max),
        is_digit(decimal_text(n)[0]),
        is_digit(decimal_text(n).last()),
        decimal_text(n).len() > 0,
    decreases n,
{
    let t = decimal_text(n);
    let k = t.len() as int;
    assert(s.take(k)[k - 1] == s[k - 1]);
    if n < 10 {
        assert(s[0] == digit(n as int));
        reveal_with_fuel(scanned, 2);
    } else {
        let u = decimal_text(n / 10);
        assert(s.take(k - 1) =~= u) by {
            assert(s.take(k - 1) =~= s.take(k).drop_last());
            assert(t.drop_last() =~= u);
        }
        decimal_is_scanned(s, n / 10, max);
        assert(t[0] == u[0]);
        assert(s[k - 1] == digit((n % 10) as int));
        assert(10 * (n / 10) + n % 10 == n);
    }
}

/// A message that is written is read back as one of the same length: after its header line
/// comes an empty line, and so many bytes follow it.
pub proof fn header_is_read_back(length: nat)
    requires
        length <= MAX_REQUEST_BYTES,
    ensures
        headed(Framing { begun: false, content_length: None }, header_in(length_line(length)))
            == Ok::<Framing, Seq<char>>(
            Framing { begun: true, content_length: Some(length as u64) },
        ),
        header_in(length_line(length)).len() > 0,
        header_in("\r\n"@).len() == 0,
{
    let t = decimal_text(length);
    let line = length_line(length);
    let head = "Content-Length: "@ + t;
    reveal_strlit("Content-Length: ");
    reveal_strlit("Content-Length:");
    reveal_strlit("\r\n");
    assert(t.take(t.len() as int) =~= t);
    decimal_is_scanned(t, length, u64::MAX as nat);
    reveal_with_fuel(without_trailing, 3);
    assert("\r\n"@.drop_last().drop_last() =~= Seq::empty());
    assert(line.drop_last().drop_last() =~= head);
    assert(line.last() == '\n');
    assert(line.drop_last().last() == '\r');
    assert(head.last() == t.last());
    assert(without_trailing(line) == head);
    assert(head[0] == 'C');
    assert(header_in(line) == head);
    assert(head.take("Content-Length:"@.len() as int) =~= "Content-Length:"@);
    let rest = head.skip("Content-Length:"@.len() as int);
    assert(rest.drop_first() =~= t);
    reveal_with_fuel(without_leading, 3);
    assert(without_leading(rest) == t);
    assert(trimmed(rest) == t);
}

/// Code of a message that is no request.
pub const PARSE_ERROR: &'static str = "-32700";

/// Code of a request for what there is not.
pub const METHOD_NOT_FOUND: &'static str = "-32601";

/// An error as the protocol puts it.
pub open spec fn error_model(code: Seq<char>, message: Seq<char>) -> JsonModel {
    JsonModel::Object(
        Seq::empty().push(("code"@, JsonModel::Number(code))).push(
            ("message"@, JsonModel::Text(message)),
        ),
    )
}

fn error_body(code: &str, message: &str) -> (r: Json)
    ensures
        r@ == error_model(code@, message@),
{
    let mut m: Vec<(String, Json)> = Vec::new();
    assert(member_views(m@) =~= Seq::empty());
    put(&mut m, "code", Json::Number(code.to_owned()));
    put(&mut m, "message", Json::string(message));
    Json::object(m)
}

/// What is answered to a message that is no request, given what is wrong with it.
pub fn parse_failure(fault: &str) -> (r: Json)
    ensures
        r@ == error_model(PARSE_ERROR@, "parse error: "@ + fault@),
{
    error_body(PARSE_ERROR, &cat2("parse error: ", fault))
}

/// What is answered to a request for what there is not.
pub fn unknown_method(message: &str) -> (r: Json)
    ensures
        r@ == error_model(METHOD_NOT_FOUND@, message@),
{
    error_body(METHOD_NOT_FOUND, message)
}

/// What a request is about.
#[derive(Debug, PartialEq)]
pub enum Route {
    /// A notification: nothing is answered.
    Ignore,
    Initialize,
    Ping,
    ListTools,
    CallTool,
    Unknown { message: String },
}

/// Where a method leads; what has no id, or is called a notification, is not answered.
pub open spec fn routed(method: Seq<char>, has_id: bool, r: Route) -> bool {
    if begins(method, "notifications/"@) || !has_id {
        r == Route::Ignore
    } else if method == "initialize"@ {
        r == Route::Initialize
    } else if method == "ping"@ {
        r == Route::Ping
    } else if method == "tools/list"@ {
        r == Route::ListTools
    } else if method == "tools/call"@ {
        r == Route::CallTool
    } else {
        r matches Route::Unknown { message } && message@ == "method not found: "@ + method
    }
}

pub fn route(method: &str, has_id: bool) -> (r: Route)
    ensures
        routed(method@, has_id, r),
{
    if starts_with(method, "notifications/") || !has_id {
        Route::Ignore
    } else if same(method, "initialize") {
        Route::Initialize
    } else if same(method, "ping") {
        Route::Ping
    } else if same(method, "tools/list") {
        Route::ListTools
    } else if same(method, "tools/call") {
        Route::CallTool
    } else {
        Route::Unknown { message: cat2("method not found: ", method) }
    }
}

/// An object of one member.
pub open spec fn single_member(name: Seq<char>, j: JsonModel) -> JsonModel {
    JsonModel::Object(Seq::empty().push((name, j)))
}

fn object_of(name: &str, value: Json) -> (r: Json)
    ensures
        r@ == single_member(name@, value@),
{
    let mut m: Vec<(String, Json)> = Vec::new();
    assert(member_views(m@) =~= Seq::empty());
    put(&mut m, name, value);
    Json::object(m)
}

/// What the adapter says of itself.
pub open spec fn initialize_model() -> JsonModel {
    JsonModel::Object(
        Seq::empty().push(("protocolVersion"@, JsonModel::Text(PROTOCOL@))).push(
            (
                "capabilities"@,
                single_member("tools"@, single_member("listChanged"@, JsonModel::Bool(false))),
            ),
        ).push(
            (
                "serverInfo"@,
                JsonModel::Object(
                    Seq::empty().push(("name"@, JsonModel::Text("thinner-floor"@))).push(
                        ("version"@, JsonModel::Text("0.1.0"@)),
                    ),
                ),
            ),
        ).push(
            (
                "instructions"@,
                JsonModel::Text(
                    "First tool call must be three_studio_status. Live capabilities win over docs. Start the wgpu sit before this adapter."@,
                ),
            ),
        ),
    )
}

pub fn initialize_result() -> (r: Json)
    ensures
        r@ == initialize_model(),
{
    let mut server: Vec<(String, Json)> = Vec::new();
    assert(member_views(server@) =~= Seq::empty());
    put(&mut server, "name", Json::string("thinner-floor"));
    put(&mut server, "version", Json::string("0.1.0"));
    let tools = object_of("tools", object_of("listChanged", Json::Bool(false)));
    let mut m: Vec<(String, Json)> = Vec::new();
    assert(member_views(m@) =~= Seq::empty());
    put(&mut m, "protocolVersion", Json::string(PROTOCOL));
    put(&mut m, "capabilities", tools);
    put(&mut m, "serverInfo", Json::object(server));
    put(
        &mut m,
        "instructions",
        Json::string(
            "First tool call must be three_studio_status. Live capabilities win over docs. Start the wgpu sit before this adapter.",
        ),
    );
    Json::object(m)
}

/// What a tool is for.
pub open spec fn description(name: Seq<char>) -> Seq<char> {
    if name == "three_studio_status"@ {
        "Session authority: revision, paths, capabilities. Call first."@
    } else if name == "three_studio_project"@ {
        "list / save / open / create. create needs path; writes bootstrap JSON; refuses if file exists."@
    } else if name == "three_studio_inspect"@ {
        "slice=summary|full. Optional query: left_of, color_of, on_screen, assembly_of."@
    } else if name == "three_studio_apply"@ {
        "One labelled apply: baseRevision, idempotencyKey, label, changes[], optional dryRun. $id aliases."@
    } else if name == "three_studio_validate"@ {
        "No mutation. Duplicate ids, parent/graph refs, recipes, parent cycles."@
    } else if name == "three_studio_play"@ {
        "Playhead clock only (enter/stop/pause/seek/step). Not gameplay."@
    } else if name == "three_studio_render"@ {
        "Offscreen authored-camera beauty PNG. No document mutation. width/height cap 1920x1080."@
    } else if name == "three_studio_history"@ {
        "action=list|undo|redo. Undo/redo create NEW revisions."@
    } else if name == "three_studio_job"@ {
        "Reserved. capabilities.jobs = false."@
    } else {
        ""@
    }
}

pub fn tool_description(name: &str) -> (r: &'static str)
    ensures
        r@ == description(name@),
{
    if same(name, "three_studio_status") {
        "Session authority: revision, paths, capabilities. Call first."
    } else if same(name, "three_studio_project") {
        "list / save / open / create. create needs path; writes bootstrap JSON; refuses if file exists."
    } else if same(name, "three_studio_inspect") {
        "slice=summary|full. Optional query: left_of, color_of, on_screen, assembly_of."
    } else if same(name, "three_studio_apply") {
        "One labelled apply: baseRevision, idempotencyKey, label, changes[], optional dryRun. $id aliases."
    } else if same(name, "three_studio_validate") {
        "No mutation. Duplicate ids, parent/graph refs, recipes, parent cycles."
    } else if same(name, "three_studio_play") {
        "Playhead clock only (enter/stop/pause/seek/step). Not gameplay."
    } else if same(name, "three_studio_render") {
        "Offscreen authored-camera beauty PNG. No document mutation. width/height cap 1920x1080."
    } else if same(name, "three_studio_history") {
        "action=list|undo|redo. Undo/redo create NEW revisions."
    } else if same(name, "three_studio_job") {
        "Reserved. capabilities.jobs = false."
    } else {
        ""
    }
}

pub open spec fn tool_model(name: Seq<char>) -> JsonModel {
    JsonModel::Object(
        Seq::empty().push(("name"@, JsonModel::Text(name))).push(
            ("description"@, JsonModel::Text(description(name))),
        ).push(
            (
                "inputSchema"@,
                JsonModel::Object(
                    Seq::empty().push(("type"@, JsonModel::Text("object"@))).push(
                        ("additionalProperties"@, JsonModel::Bool(true)),
                    ),
                ),
            ),
        ),
    )
}

fn tool_def(name: &str) -> (r: Json)
    ensures
        r@ == tool_model(name@),
{
    let mut schema: Vec<(String, Json)> = Vec::new();
    assert(member_views(schema@) =~= Seq::empty());
    put(&mut schema, "type", Json::string("object"));
    put(&mut schema, "additionalProperties", Json::Bool(true));
    let mut m: Vec<(String, Json)> = Vec::new();
    assert(member_views(m@) =~= Seq::empty());
    put(&mut m, "name", Json::string(name));
    put(&mut m, "description", Json::string(tool_description(name)));
    put(&mut m, "inputSchema", Json::object(schema));
    Json::object(m)
}

/// The tools, in order.
pub fn tool_defs() -> (r: Vec<Json>)
    ensures
        item_views(r@) == tool_names().map_values(|n: Seq<char>| tool_model(n)),
{
    let names = mcp_tool_names();
    let ghost all = tool_names();
    let mut out: Vec<Json> = Vec::new();
    let mut i: usize = 0;
    assert(all.len() == names.len());
    assert(item_views(out@) =~= all.take(0).map_values(|n: Seq<char>| tool_model(n)));
    while i < names.len()
        invariant
            i <= names.len(),
            all == texts(names@),
            item_views(out@) == all.take(i as int).map_values(|n: Seq<char>| tool_model(n)),
        decreases names.len() - i,
    {
        assert(all[i as int] == names@[i as int]@);
        let ghost now = item_views(out@);
        put_item(&mut out, tool_def(&names[i]));
        assert(now.push(tool_model(all[i as int])) =~= all.take(i + 1).map_values(
            |n: Seq<char>| tool_model(n),
        ));
        i += 1;
    }
    assert(all.take(all.len() as int) =~= all);
    out
}

pub fn tools_result() -> (r: Json)
    ensures
        r@ == single_member(
            "tools"@,
            JsonModel::List(tool_names().map_values(|n: Seq<char>| tool_model(n))),
        ),
{
    object_of("tools", Json::list(tool_defs()))
}

/// The result of a tool call: its text, and whether it failed.
pub open spec fn result_model(text: Seq<char>, failed: bool) -> JsonModel {
    JsonModel::Object(
        Seq::empty().push(
            (
                "content"@,
                JsonModel::List(
                    Seq::empty().push(
                        JsonModel::Object(
                            Seq::empty().push(("type"@, JsonModel::Text("text"@))).push(
                                ("text"@, JsonModel::Text(text)),
                            ),
                        ),
                    ),
                ),
            ),
        ).push(("isError"@, JsonModel::Bool(failed))),
    )
}

pub fn tool_result(text: &str, failed: bool) -> (r: Json)
    ensures
        r@ == result_model(text@, failed),
{
    let mut item: Vec<(String, Json)> = Vec::new();
    assert(member_views(item@) =~= Seq::empty());
    put(&mut item, "type", Json::string("text"));
    put(&mut item, "text", Json::string(text));
    let mut content: Vec<Json> = Vec::new();
    assert(item_views(content@) =~= Seq::empty());
    put_item(&mut content, Json::object(item));
    let mut m: Vec<(String, Json)> = Vec::new();
    assert(member_views(m@) =~= Seq::empty());
    put(&mut m, "content", Json::list(content));
    put(&mut m, "isError", Json::Bool(failed));
    Json::object(m)
}

/// Whether the payload of a tool says that it failed.
pub open spec fn says_no(payload: JsonModel) -> bool {
    match payload.member("ok"@) {
        Some(v) => v.flag() == Some(false),
        None => false,
    }
}

/// The result of a tool with a payload, given the payload's notation: an error where the
/// payload says that it is not well.
pub fn tool_answer(payload: &serde_json::Value, text: &str) -> (r: Json)
    ensures
        r@ == result_model(text@, says_no(tree_of(*payload))),
{
    let failed = match member_in(Some(payload), "ok") {
        Some(v) => match v.as_bool() {
            Some(b) => !b,
            None => false,
        },
        None => false,
    };
    tool_result(text, failed)
}

/// What a tool call leads to.
#[derive(Debug, PartialEq)]
pub enum ToolStep {
    Ask { request: MailboxRequest },
    Reply { payload: Json },
}

/// A text member of the arguments.
pub open spec fn text_member(args: Option<JsonModel>, name: Seq<char>) -> Option<Seq<char>> {
    text_at(member_of(args, name))
}

fn read_text(args: Option<&serde_json::Value>, name: &str) -> (r: Option<String>)
    ensures
        text_in(r) == text_member(tree_in(args), name@),
{
    match member_in(args, name) {
        Some(v) => match v.as_str() {
            Some(t) => Some(t.to_owned()),
            None => None,
        },
        None => None,
    }
}

/// A whole-number member of the arguments, cut to 32 bits.
pub open spec fn word_member(args: Option<JsonModel>, name: Seq<char>) -> Option<u32> {
    match whole_at(member_of(args, name)) {
        Some(n) => Some(low_word(n)),
        None => None,
    }
}

fn read_word(args: Option<&serde_json::Value>, name: &str) -> (r: Option<u32>)
    ensures
        r == word_member(tree_in(args), name@),
{
    match member_in(args, name) {
        Some(v) => match v.as_u64() {
            Some(n) => Some((n % 0x1_0000_0000) as u32),
            None => None,
        },
        None => None,
    }
}

/// A number member of the arguments.
pub open spec fn number_member(
    args: Option<JsonModel>,
    name: Seq<char>,
    k: spec_fn(Seq<char>) -> Real,
) -> Option<Real> {
    match member_of(args, name) {
        Some(JsonModel::Number(t)) => Some(k(t)),
        _ => None,
    }
}

fn read_number<N: Fn(&str) -> Real>(
    args: Option<&serde_json::Value>,
    name: &str,
    reader: &N,
) -> (r: Option<Real>)
    requires
        readable(*reader),
    ensures
        forall|k: spec_fn(Seq<char>) -> Real| #[trigger]
            reads(*reader, k) ==> r == number_member(tree_in(args), name@, k),
{
    match member_in(args, name) {
        Some(v) => match numeral(v) {
            Some(t) => Some(reader(&t)),
            None => None,
        },
        None => None,
    }
}

/// A decoder may be given any arguments.
pub open spec fn accepts<A, D: Fn(Option<&serde_json::Value>) -> Result<A, String>>(d: D) -> bool {
    forall|v: Option<&serde_json::Value>| #[trigger] call_requires(d, (v,))
}

pub open spec fn or_word(o: Option<Seq<char>>, d: Seq<char>) -> Seq<char> {
    match o {
        Some(t) => t,
        None => d,
    }
}

/// What the project tool asks for.
pub open spec fn project_step(args: Option<JsonModel>, r: Result<ToolStep, String>) -> bool {
    let action = or_word(text_member(args, "action"@), "list"@);
    if action == "list"@ {
        asks_project(r, ProjectAction::List, None)
    } else if action == "save"@ {
        asks_project(r, ProjectAction::Save, None)
    } else if action == "open"@ {
        asks_project(r, ProjectAction::Open, text_member(args, "path"@))
    } else if action == "create"@ {
        asks_project(r, ProjectAction::Create, text_member(args, "path"@))
    } else {
        r matches Err(e) && e@ == "unknown project action: "@ + action
    }
}

pub open spec fn asks_project(
    r: Result<ToolStep, String>,
    a: ProjectAction,
    p: Option<Seq<char>>,
) -> bool {
    r matches Ok(ToolStep::Ask { request: MailboxRequest::Project { action, path } }) && action == a
        && text_in(path) == p
}

fn project_tool(args: Option<&serde_json::Value>) -> (r: Result<ToolStep, String>)
    ensures
        project_step(tree_in(args), r),
{
    let action = match read_text(args, "action") {
        Some(t) => t,
        None => "list".to_owned(),
    };
    let (action, path) = if same(&action, "list") {
        (ProjectAction::List, None)
    } else if same(&action, "save") {
        (ProjectAction::Save, None)
    } else if same(&action, "open") {
        (ProjectAction::Open, read_text(args, "path"))
    } else if same(&action, "create") {
        (ProjectAction::Create, read_text(args, "path"))
    } else {
        return Err(cat2("unknown project action: ", &action));
    };
    Ok(ToolStep::Ask { request: MailboxRequest::Project { action, path } })
}

/// What the history tool asks for.
pub open spec fn history_step(args: Option<JsonModel>, r: Result<ToolStep, String>) -> bool {
    let action = or_word(text_member(args, "action"@), "list"@);
    if action == "list"@ {
        asks_history(r, HistoryAction::List)
    } else if action == "undo"@ {
        asks_history(r, HistoryAction::Undo)
    } else if action == "redo"@ {
        asks_history(r, HistoryAction::Redo)
    } else {
        r matches Err(e) && e@ == "history action list|undo|redo, got "@ + action
    }
}

pub open spec fn asks_history(r: Result<ToolStep, String>, a: HistoryAction) -> bool {
    r matches Ok(ToolStep::Ask { request: MailboxRequest::History { action } }) && action == a
}

fn history_tool(args: Option<&serde_json::Value>) -> (r: Result<ToolStep, String>)
    ensures
        history_step(tree_in(args), r),
{
    let action = match read_text(args, "action") {
        Some(t) => t,
        None => "list".to_owned(),
    };
    let action = if same(&action, "list") {
        HistoryAction::List
    } else if same(&action, "undo") {
        HistoryAction::Undo
    } else if same(&action, "redo") {
        HistoryAction::Redo
    } else {
        return Err(cat2("history action list|undo|redo, got ", &action));
    };
    Ok(ToolStep::Ask { request: MailboxRequest::History { action } })
}

/// What the play tool asks for.
pub open spec fn play_step(
    args: Option<JsonModel>,
    r: Result<ToolStep, String>,
    k: spec_fn(Seq<char>) -> Real,
) -> bool {
    r matches Ok(ToolStep::Ask { request: MailboxRequest::Play { action, time } }) && action@
        == or_word(text_member(args, "action"@), "stop"@) && time == number_member(args, "time"@, k)
}

fn play_tool<N: Fn(&str) -> Real>(args: Option<&serde_json::Value>, reader: &N) -> (r: Result<
    ToolStep,
    String,
>)
    requires
        readable(*reader),
    ensures
        forall|k: spec_fn(Seq<char>) -> Real| #[trigger]
            reads(*reader, k) ==> play_step(tree_in(args), r, k),
{
    let action = match read_text(args, "action") {
        Some(t) => t,
        None => "stop".to_owned(),
    };
    let time = read_number(args, "time", reader);
    Ok(ToolStep::Ask { request: MailboxRequest::Play { action, time } })
}

/// What the inspect tool asks for: a query where one is given, else a slice.
pub open spec fn inspect_step<Q: Fn(Option<&serde_json::Value>) -> Result<QuerySpec, String>>(
    args: Option<JsonModel>,
    r: Result<ToolStep, String>,
    decode_query: Q,
) -> bool {
    if member_of(args, "query"@) is Some {
        exists|v: Option<&serde_json::Value>, d: Result<QuerySpec, String>|
            tree_in(v) == member_of(args, "query"@) && #[trigger] call_ensures(
                decode_query,
                (v,),
                d,
            ) && match d {
                Ok(q) => r == Ok::<ToolStep, String>(
                    ToolStep::Ask { request: MailboxRequest::Query { query: q } },
                ),
                Err(e) => r matches Err(x) && x@ == "bad query: "@ + e@,
            }
    } else {
        r matches Ok(ToolStep::Ask { request: MailboxRequest::Inspect { slice } }) && text_in(slice)
            == text_member(args, "slice"@)
    }
}

fn inspect_tool<Q: Fn(Option<&serde_json::Value>) -> Result<QuerySpec, String>>(
    args: Option<&serde_json::Value>,
    decode_query: &Q,
) -> (r: Result<ToolStep, String>)
    requires
        accepts(*decode_query),
    ensures
        inspect_step(tree_in(args), r, *decode_query),
{
    let q = member_in(args, "query");
    if q.is_some() {
        let d = decode_query(q);
        assert(call_ensures(*decode_query, (q,), d));
        return match d {
            Ok(query) => Ok(ToolStep::Ask { request: MailboxRequest::Query { query } }),
            Err(e) => Err(cat2("bad query: ", &e)),
        };
    }
    Ok(ToolStep::Ask { request: MailboxRequest::Inspect { slice: read_text(args, "slice") } })
}

/// Bytes of the arguments; none at all stand for an empty object.
pub open spec fn argument_size(args: Option<JsonModel>) -> nat {
    match args {
        Some(j) => notation(j).len(),
        None => 2,
    }
}

/// What the apply tool asks for: a request of at most one MiB.
pub open spec fn apply_step<A: Fn(Option<&serde_json::Value>) -> Result<ApplyRequest, String>>(
    args: Option<JsonModel>,
    r: Result<ToolStep, String>,
    decode_apply: A,
) -> bool {
    if argument_size(args) > MAX_REQUEST_BYTES {
        r matches Err(e) && e@ == "apply over 1 MiB ("@ + decimal_text(argument_size(args)) + ")"@
    } else {
        exists|v: Option<&serde_json::Value>, d: Result<ApplyRequest, String>|
            tree_in(v) == args && #[trigger] call_ensures(decode_apply, (v,), d) && match d {
                Ok(q) => r == Ok::<ToolStep, String>(
                    ToolStep::Ask { request: MailboxRequest::Apply { request: q } },
                ),
                Err(e) => r matches Err(x) && x@ == "bad apply: "@ + e@,
            }
    }
}

fn apply_tool<A: Fn(Option<&serde_json::Value>) -> Result<ApplyRequest, String>>(
    args: Option<&serde_json::Value>,
    decode_apply: &A,
) -> (r: Result<ToolStep, String>)
    requires
        accepts(*decode_apply),
    ensures
        apply_step(tree_in(args), r, *decode_apply),
{
    let size: usize = match args {
        Some(v) => match to_bytes(v) {
            Ok(b) => b.len(),
            Err(e) => return Err(e),
        },
        None => 2,
    };
    if size > MAX_REQUEST_BYTES {
        return Err(cat3("apply over 1 MiB (", &decimal(size as u64), ")"));
    }
    let d = decode_apply(args);
    assert(call_ensures(*decode_apply, (args,), d));
    match d {
        Ok(request) => Ok(ToolStep::Ask { request: MailboxRequest::Apply { request } }),
        Err(e) => Err(cat2("bad apply: ", &e)),
    }
}

/// What the tool that is not there yet says.
pub open spec fn job_model() -> JsonModel {
    JsonModel::Object(
        Seq::empty().push(("ok"@, JsonModel::Bool(false))).push(
            ("error"@, JsonModel::Text("not_supported"@)),
        ).push(("code"@, JsonModel::Text("not_supported"@))).push(
            ("capability"@, JsonModel::Text("job"@)),
        ),
    )
}

fn job_payload() -> (r: Json)
    ensures
        r@ == job_model(),
{
    let mut m: Vec<(String, Json)> = Vec::new();
    assert(member_views(m@) =~= Seq::empty());
    put(&mut m, "ok", Json::Bool(false));
    put(&mut m, "error", Json::string("not_supported"));
    put(&mut m, "code", Json::string("not_supported"));
    put(&mut m, "capability", Json::string("job"));
    Json::object(m)
}

/// The names of the tools, quoted and in brackets.
pub open spec fn quoted_names() -> Seq<char> {
    "[\""@ + joined(tool_names(), "\", \""@) + "\"]"@
}

/// What a tool call leads to.
pub open spec fn stepped<
    Q: Fn(Option<&serde_json::Value>) -> Result<QuerySpec, String>,
    A: Fn(Option<&serde_json::Value>) -> Result<ApplyRequest, String>,
>(
    params: JsonModel,
    r: Result<ToolStep, String>,
    decode_query: Q,
    decode_apply: A,
    k: spec_fn(Seq<char>) -> Real,
) -> bool {
    let args = params.member("arguments"@);
    match text_at(params.member("name"@)) {
        None => r matches Err(e) && e@ == "tools/call needs name"@,
        Some(name) => if name == "three_studio_status"@ {
            r == Ok::<ToolStep, String>(ToolStep::Ask { request: MailboxRequest::Status })
        } else if name == "three_studio_inspect"@ {
            inspect_step(args, r, decode_query)
        } else if name == "three_studio_apply"@ {
            apply_step(args, r, decode_apply)
        } else if name == "three_studio_project"@ {
            project_step(args, r)
        } else if name == "three_studio_validate"@ {
            r == Ok::<ToolStep, String>(ToolStep::Ask { request: MailboxRequest::Validate })
        } else if name == "three_studio_history"@ {
            history_step(args, r)
        } else if name == "three_studio_render"@ {
            r == Ok::<ToolStep, String>(
                ToolStep::Ask {
                    request: MailboxRequest::Render {
                        width: word_member(args, "width"@),
                        height: word_member(args, "height"@),
                    },
                },
            )
        } else if name == "three_studio_play"@ {
            play_step(args, r, k)
        } else if name == "three_studio_job"@ {
            r matches Ok(ToolStep::Reply { payload }) && payload@ == job_model()
        } else {
            r matches Err(e) && e@ == "tool_contract_mismatch: unknown tool "@ + name
                + "; live tools are "@ + quoted_names()
        },
    }
}

/// What a tool call asks the mailbox, or what it is answered right away.
pub fn call_tool<
    Q: Fn(Option<&serde_json::Value>) -> Result<QuerySpec, String>,
    A: Fn(Option<&serde_json::Value>) -> Result<ApplyRequest, String>,
    N: Fn(&str) -> Real,
>(
    params: &serde_json::Value,
    decode_query: &Q,
    decode_apply: &A,
    reader: &N,
) -> (r: Result<ToolStep, String>)
    requires
        accepts(*decode_query),
        accepts(*decode_apply),
        readable(*reader),
    ensures
        forall|k: spec_fn(Seq<char>) -> Real| #[trigger]
            reads(*reader, k) ==> stepped(tree_of(*params), r, *decode_query, *decode_apply, k),
{
    let args = member_in(Some(params), "arguments");
    let name = match read_text(Some(params), "name") {
        None => return Err("tools/call needs name".to_owned()),
        Some(n) => n,
    };
    if same(&name, "three_studio_status") {
        Ok(ToolStep::Ask { request: MailboxRequest::Status })
    } else if same(&name, "three_studio_inspect") {
        inspect_tool(args, decode_query)
    } else if same(&name, "three_studio_apply") {
        apply_tool(args, decode_apply)
    } else if same(&name, "three_studio_project") {
        project_tool(args)
    } else if same(&name, "three_studio_validate") {
        Ok(ToolStep::Ask { request: MailboxRequest::Validate })
    } else if same(&name, "three_studio_history") {
        history_tool(args)
    } else if same(&name, "three_studio_render") {
        let width = read_word(args, "width");
        let height = read_word(args, "height");
        Ok(ToolStep::Ask { request: MailboxRequest::Render { width, height } })
    } else if same(&name, "three_studio_play") {
        play_tool(args, reader)
    } else if same(&name, "three_studio_job") {
        Ok(ToolStep::Reply { payload: job_payload() })
    } else {
        let list = join(&mcp_tool_names(), "\", \"");
        let names = cat3("[\"", &list, "\"]");
        Err(
            cat4(
                "tool_contract_mismatch: unknown tool ",
                &name,
                "; live tools are ",
                &names,
            ),
        )
    }
}

} // verus!
