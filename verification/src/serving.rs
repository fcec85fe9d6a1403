//! What requests come to: the answers of the mailbox, the requests that commands and tools send,
//! and what goes over the wire.

use crate::apply::{newest, verdict, ApplyRequest, Verdict};
use crate::change::{all_changed, opened};
use crate::cli::{realizes, Command, CommandModel};
use crate::document::{canonical, DocumentModel};
use crate::json::JsonModel;
use crate::mailbox::{
    applies, arranges, rewinds, slice_of, HistoryAction, MailboxRequest,
    ProjectAction, Step, Task,
};
use crate::mcp::{error_model, head_of, result_model, stepped, word_member, ToolStep};
use crate::numeric::{Answer, Calc, Real};
use crate::pictures::digit_value;
use crate::query::QuerySpec;
use crate::roundtrip::member_found;
use crate::store::StoreModel;
use crate::text::{begins, decimal_text, is_digit, lowered, text_in};
use crate::wire::{hex_number, line_state, names_host, LineState};
use vstd::prelude::*;

verus! {

/// A request that was carried out leaves a store that can be undone to what it was, and is saved
/// before it is answered. Any other leaves the store as it is and is answered at once.
pub proof fn only_commits_are_saved(
    before: StoreModel,
    after: StoreModel,
    request: ApplyRequest,
    r: Step,
    g: spec_fn(Calc) -> Answer,
)
    requires
        applies(before, after, request, r, g),
    ensures
        ({
            let a = r.response().apply->0;
            let v = crate::apply::verdict(before.document, request, g);
            &&& r.response().apply is Some
            &&& r.response().ok == a.ok
            &&& r.response().query is None && r.response().history is None
            &&& v is Committed <==> r is Todo
            &&& r is Todo ==> a.ok && after.redo.len() == 0 && after.undo.len() > 0
                && after.undo.last() == before.document && after.document == v->Committed_0
            &&& r is Done ==> after == before
            &&& v is Refused ==> !a.ok && text_in(a.error) == Some(v->Refused_0)
        }),
{
    let v = crate::apply::verdict(before.document, request, g);
    let grown = before.undo.push(before.document);
    assert(grown.last() == before.document);
}

/// Undoing and redoing go one step if there is one, tell how deep the history is then, and are
/// saved; without a step nothing changes and the answer says so. A list changes nothing.
pub proof fn history_requests_go_one_step(
    before: StoreModel,
    after: StoreModel,
    action: HistoryAction,
    r: Step,
)
    requires
        rewinds(before, after, action, r),
    ensures
        r.response().history is Some,
        ({
            let h = r.response().history->0;
            &&& r.response().ok == h.ok
            &&& h.revision == after.document.revision
            &&& h.undo_depth == after.undo.len()
            &&& h.redo_depth == after.redo.len()
            &&& action == HistoryAction::List ==> after == before && h.ok && r is Done
            &&& action == HistoryAction::Undo && before.undo.len() == 0 ==> after == before && !h.ok
                && r is Done && text_in(h.error) == Some("empty_undo"@)
            &&& action == HistoryAction::Redo && before.redo.len() == 0 ==> after == before && !h.ok
                && r is Done && text_in(h.error) == Some("empty_redo"@)
            &&& action == HistoryAction::Undo && before.undo.len() > 0 ==> h.ok && r is Todo
                && after.undo.len() == before.undo.len() - 1 && after.redo.len()
                == before.redo.len() + 1 && after.document.scenes == before.undo.last().scenes
            &&& action == HistoryAction::Redo && before.redo.len() > 0 ==> h.ok && r is Todo
                && after.redo.len() == before.redo.len() - 1 && after.document.scenes
                == before.redo.last().scenes
        }),
{
    let h = r.response().history->0;
    assert(h@.revision == h.revision);
}

/// Projects are opened and created where they are asked for, and only there.
pub proof fn projects_need_a_path(
    store: StoreModel,
    action: ProjectAction,
    path: Option<Seq<char>>,
    r: Step,
)
    requires
        arranges(store, action, path, r),
    ensures
        action == ProjectAction::Open ==> (match path {
            Some(p) => r matches Step::Todo { task: Task::Open { path: q } } && q@ == p,
            None => r is Done && !r.response().ok && text_in(r.response().error) == Some(
                "project_open_needs_path"@,
            ),
        }),
        action == ProjectAction::Create ==> (match path {
            Some(p) => r matches Step::Todo { task: Task::Create { path: q } } && q@ == p,
            None => r is Done && !r.response().ok && text_in(r.response().error) == Some(
                "project_create_needs_path"@,
            ),
        }),
        action == ProjectAction::Save ==> r matches Step::Todo { task: Task::Save { .. } },
        action == ProjectAction::List ==> r is Done && r.response().ok,
{
}

/// A slice is named without regard to case, and the whole document is the usual one.
pub proof fn slices_ignore_case(name: Seq<char>)
    ensures
        slice_of(None) == "full"@,
        slice_of(Some(name)) == lowered(name),
        slice_of(Some(lowered(name))) == slice_of(Some(name)),
{
    assert(lowered(lowered(name)) =~= lowered(name));
}

/// A command that asks the mailbox asks for what it says, each value in its own place.
pub proof fn commands_send_what_they_say(c: CommandModel, r: Result<Command, String>)
    requires
        realizes(r, c),
    ensures
        c is Status ==> (r matches Ok(Command::Send { request: MailboxRequest::Status, .. })),
        c is Catalog ==> (r matches Ok(Command::Send { request: MailboxRequest::Catalog, .. })),
        c is Validate ==> (r matches Ok(Command::Send { request: MailboxRequest::Validate, .. })),
        c matches CommandModel::Inspect(s) ==> (r matches Ok(
            Command::Send { request: MailboxRequest::Inspect { slice }, .. },
        ) && text_in(slice) == s),
        c matches CommandModel::History(a) ==> (r matches Ok(
            Command::Send { request: MailboxRequest::History { action }, .. },
        ) && action == a),
        c matches CommandModel::Project(a, p) ==> (r matches Ok(
            Command::Send { request: MailboxRequest::Project { action, path }, .. },
        ) && action == a && text_in(path) == p),
        c matches CommandModel::Render(w, h) ==> (r matches Ok(
            Command::Send { request: MailboxRequest::Render { width, height }, .. },
        ) && width == w && height == h),
        c matches CommandModel::Camera(m, e, t, f) ==> (r matches Ok(
            Command::Send {
                request: MailboxRequest::Camera { mode, review_eye, review_target, frame },
                ..
            },
        ) && text_in(mode) == m && review_eye == e && review_target == t && (frame is Some <==> f is Some)),
        c matches CommandModel::Play(a, t) ==> (r matches Ok(
            Command::Send { request: MailboxRequest::Play { action, time }, .. },
        ) && action@ == a && time == t),
        c matches CommandModel::Rtx(b) ==> (r matches Ok(
            Command::Send { request: MailboxRequest::Rtx { requested }, .. },
        ) && requested == b),
        c matches CommandModel::Export(p) ==> (r matches Ok(
            Command::Send { request: MailboxRequest::Export { path }, .. },
        ) && text_in(path) == p),
        c matches CommandModel::Import(p) ==> (r matches Ok(
            Command::Send { request: MailboxRequest::Import { path }, .. },
        ) && text_in(path) == p),
        c matches CommandModel::Cycles(a, n) ==> (r matches Ok(
            Command::Send { request: MailboxRequest::Cycles { action, samples, .. }, .. },
        ) && action@ == a && samples == n),
        c matches CommandModel::Light(d, s) ==> (r matches Ok(
            Command::Light { direction, shadows },
        ) && direction == d && shadows == s),
        c matches CommandModel::Refused(e) ==> (r matches Err(x) && x@ == e),
{
}

/// The names of the tools.
proof fn tool_words_differ(w: Seq<char>)
    ensures
        w == "three_studio_validate"@ || w == "three_studio_render"@ || w == "three_studio_job"@
            ==> w != "three_studio_status"@ && w != "three_studio_inspect"@ && w
            != "three_studio_apply"@ && w != "three_studio_project"@,
        w == "three_studio_render"@ || w == "three_studio_job"@ ==> w != "three_studio_validate"@
            && w != "three_studio_history"@,
        "three_studio_job"@ != "three_studio_render"@,
        "three_studio_job"@ != "three_studio_play"@,
{
    reveal_strlit("three_studio_status");
    reveal_strlit("three_studio_inspect");
    reveal_strlit("three_studio_apply");
    reveal_strlit("three_studio_project");
    reveal_strlit("three_studio_validate");
    reveal_strlit("three_studio_history");
    reveal_strlit("three_studio_render");
    reveal_strlit("three_studio_play");
    reveal_strlit("three_studio_job");
    assert("three_studio_status"@[13] == 's' && "three_studio_inspect"@[13] == 'i'
        && "three_studio_apply"@[13] == 'a' && "three_studio_project"@[13] == 'p'
        && "three_studio_validate"@[13] == 'v' && "three_studio_history"@[13] == 'h'
        && "three_studio_render"@[13] == 'r' && "three_studio_play"@[13] == 'p'
        && "three_studio_job"@[13] == 'j');
}

/// A tool that was called by its name asks the mailbox for what it is called after; a call without a
/// name asks nothing.
pub proof fn tools_ask_for_what_they_are_called<
    Q: Fn(Option<&serde_json::Value>) -> Result<QuerySpec, String>,
    A: Fn(Option<&serde_json::Value>) -> Result<ApplyRequest, String>,
>(
    params: JsonModel,
    r: Result<ToolStep, String>,
    decode_query: Q,
    decode_apply: A,
    k: spec_fn(Seq<char>) -> Real,
)
    requires
        stepped(params, r, decode_query, decode_apply, k),
    ensures
        params.member("name"@) is None ==> r is Err,
        params.member("name"@) == Some(JsonModel::Text("three_studio_status"@)) ==> r == Ok::<
            ToolStep,
            String,
        >(ToolStep::Ask { request: MailboxRequest::Status }),
        params.member("name"@) == Some(JsonModel::Text("three_studio_validate"@)) ==> r == Ok::<
            ToolStep,
            String,
        >(ToolStep::Ask { request: MailboxRequest::Validate }),
        params.member("name"@) == Some(JsonModel::Text("three_studio_render"@)) ==> r == Ok::<
            ToolStep,
            String,
        >(
            ToolStep::Ask {
                request: MailboxRequest::Render {
                    width: word_member(params.member("arguments"@), "width"@),
                    height: word_member(params.member("arguments"@), "height"@),
                },
            },
        ),
        params.member("name"@) == Some(JsonModel::Text("three_studio_job"@)) ==> r matches Ok(
            ToolStep::Reply { .. },
        ),
{
    if let Some(JsonModel::Text(w)) = params.member("name"@) {
        tool_words_differ(w);
    }
}

/// A message is preceded by its length in bytes and an empty line.
pub proof fn messages_are_preceded_by_their_length(length: nat)
    ensures
        head_of(length) == "Content-Length: "@ + decimal_text(length) + "\r\n"@ + "\r\n"@,
{
}

/// The result of a tool carries its text, and is marked as an error exactly where it failed.
pub proof fn results_are_marked(text: Seq<char>, failed: bool)
    ensures
        result_model(text, failed).member("isError"@) == Some(JsonModel::Bool(failed)),
        result_model(text, failed).member("content"@) matches Some(JsonModel::List(items))
            && items.len() == 1 && items[0].member("type"@) == Some(JsonModel::Text("text"@))
            && items[0].member("text"@) == Some(JsonModel::Text(text)),
{
    reveal_strlit("content");
    reveal_strlit("isError");
    reveal_strlit("type");
    reveal_strlit("text");
    assert("content"@[0] == 'c' && "isError"@[0] == 'i' && "type"@[1] == 'y' && "text"@[1] == 'e');
    let ms = result_model(text, failed)->Object_0;
    member_found(ms, 0, "content"@);
    member_found(ms, 1, "isError"@);
    let inner = ms[0].1->List_0[0]->Object_0;
    member_found(inner, 0, "type"@);
    member_found(inner, 1, "text"@);
}

/// An error carries its code as a number and its message as a text.
pub proof fn errors_carry_code_and_message(code: Seq<char>, message: Seq<char>)
    ensures
        error_model(code, message).member("code"@) == Some(JsonModel::Number(code)),
        error_model(code, message).member("message"@) == Some(JsonModel::Text(message)),
{
    reveal_strlit("code");
    reveal_strlit("message");
    assert("code"@[0] == 'c' && "message"@[0] == 'm');
    let ms = error_model(code, message)->Object_0;
    member_found(ms, 0, "code"@);
    member_found(ms, 1, "message"@);
}

/// The number that hexadecimal digits stand for.
pub open spec fn hex_value(s: Seq<char>) -> int
    decreases s.len(),
{
    if s.len() == 0 {
        0
    } else {
        16 * hex_value(s.drop_last()) + digit_value(s.last())
    }
}

/// Sixteen to a power.
pub open spec fn sixteen_to(k: nat) -> int
    decreases k,
{
    if k == 0 {
        1
    } else {
        16 * sixteen_to((k - 1) as nat)
    }
}

/// A number that has no more digits than are written reads back as itself.
pub proof fn hex_numbers_read_back(n: nat, k: nat)
    requires
        n < sixteen_to(k),
    ensures
        hex_number(n, k).len() == k,
        hex_value(hex_number(n, k)) == n,
    decreases k,
{
    if k > 0 {
        hex_numbers_read_back(n / 16, (k - 1) as nat);
        let s = hex_number(n, k);
        assert(s.drop_last() =~= hex_number(n / 16, (k - 1) as nat));
        assert(digit_value(s.last()) == n % 16);
    }
}

/// An address of a host and a port is reached by TCP, and one that names a pipe is not.
pub proof fn pipes_are_no_hosts(addr: Seq<char>, i: int, j: int)
    ensures
        begins(addr, "pipe:"@) ==> !names_host(addr),
        begins(addr, "\\\\.\\pipe\\"@) ==> !names_host(addr),
        0 <= i < addr.len() && addr[i] == ':' && 0 <= j < addr.len() && '0' <= addr[j] <= '9'
            && !begins(addr, "pipe:"@) && !begins(addr, "\\\\.\\pipe\\"@) ==> names_host(addr),
        (forall|k: int| 0 <= k < addr.len() ==> addr[k] != ':') ==> !names_host(addr),
{
    if 0 <= j < addr.len() && '0' <= addr[j] <= '9' {
        assert(is_digit(addr[j]));
    }
}

/// The token of a request is the text of its member of that name; without one it is empty.
pub proof fn requests_present_their_token(v: JsonModel, t: Seq<char>)
    ensures
        v.member("token"@) == Some(JsonModel::Text(t)) ==> crate::wire::presented(v) == t,
        v.member("token"@) is None ==> crate::wire::presented(v).len() == 0,
{
    reveal_strlit("");
}

/// A request of more than 128 changes is turned down, and so is one without a key.
pub proof fn large_requests_are_turned_down(
    d: DocumentModel,
    request: ApplyRequest,
    g: spec_fn(Calc) -> Answer,
)
    ensures
        request.changes.len() > 128 ==> verdict(d, request, g) == Verdict::Refused(
            "too_many_ops:"@ + decimal_text(request.changes.len() as nat),
            "too_many_ops"@,
        ),
        request.changes.len() <= 128 && request.idempotency_key@.len() == 0 ==> verdict(
            d,
            request,
            g,
        ) == Verdict::Refused("empty_idempotency_key"@, "empty_idempotency_key"@),
        verdict(d, request, g) matches Verdict::Committed(after) ==> after.count() <= 20_000
            && !request.dry_run,
        verdict(d, request, g) matches Verdict::Previewed(after) ==> after.count() <= 20_000
            && request.dry_run,
{
    if let Verdict::Committed(after) = verdict(d, request, g) {
        let st = all_changed(opened(d), request.changes@, 0, g)->Ok_0;
        assert(after.scenes == st.doc.scenes);
        assert(after.entities() == st.doc.entities());
    }
}

/// Of the newest items there are no more than are asked for, and they are the last ones in order.
pub proof fn newest_are_the_last<A>(s: Seq<A>, n: int, i: int)
    requires
        n >= 0,
    ensures
        newest(s, n).len() == (if s.len() < n {
            s.len() as int
        } else {
            n
        }),
        0 <= i < newest(s, n).len() ==> newest(s, n)[i] == s[s.len() - newest(s, n).len() + i],
{
}

/// A line is complete with its newline, however long it is. Without one it is too long from one MiB
/// on, and open below.
pub proof fn lines_end_or_grow_too_long(line: Seq<u8>)
    ensures
        line.len() > 0 && line.last() == 10 <==> line_state(line) == LineState::Complete,
        !(line.len() > 0 && line.last() == 10) && line.len() > 1024 * 1024 <==> line_state(line)
            == LineState::TooLong,
{
}

/// What is told of a project is where it lies, at which revision and with how many entities.
pub proof fn projects_tell_the_store(s: StoreModel, action: Seq<char>)
    ensures
        s.project(action).ok,
        s.project(action).action == action,
        s.project(action).path == s.path,
        s.project(action).revision == s.document.revision,
        s.project(action).entity_count == s.document.count(),
{
}

/// An alias is the id behind its dollar sign, and an id without one is itself.
pub proof fn aliases_name_ids(id: Seq<char>)
    ensures
        canonical(seq!['$'] + id) == id,
        id.len() > 0 && id[0] != '$' ==> canonical(id) == id,
{
    assert((seq!['$'] + id).skip(1) =~= id);
}

} // verus!
