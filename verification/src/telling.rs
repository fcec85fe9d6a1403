//! What cards, responses and tools tell of an exchange.

use crate::cards::{
    body_lines, card_height, hit_lines, lines_taken, room, stripe_of, timing_text, title_text,
    with_card, with_cards, with_lines, Sheet,
};
use crate::change::ApplyChange;
use crate::feed::{change_text, exchange_event, headline, summarized, EventModel, FeedModel};
use crate::json::JsonModel;
use crate::mailbox::{
    commanded, tells_slice, tells_status, CyclesCommand, HistoryAction, MailboxRequest, MailboxResponse,
    ProjectAction, Studio,
};
use crate::mcp::{history_step, project_step, routed, says_no, text_member, Route, ToolStep};
use crate::numeric::{Answer, Calc, Real};
use crate::paint::{with_text, Picture};
use crate::query::{ColorQuery, QuerySpec};
use crate::text::{decimal_text, text_in};
use crate::worth::{finite, order_is_by_worth, small_counts_have_worth, unit, units};
use crate::wrap::wrapped;
use vstd::prelude::*;

verus! {

/// A card carries the name of its operation, the outcome and the times of its exchange.
pub proof fn cards_carry_their_operation(
    q: MailboxRequest,
    r: MailboxResponse,
    elapsed_ms: Real,
    at: u64,
    h: spec_fn(Real, u8) -> Seq<char>,
)
    ensures
        ({
            let e = exchange_event(summarized(q, r, h), r.ok, elapsed_ms, at);
            &&& e.ok == r.ok
            &&& e.elapsed_ms == elapsed_ms
            &&& e.at == at
            &&& q is Status ==> e.op == "status"@
            &&& q is Inspect ==> e.op == "inspect"@
            &&& q is Query ==> e.op == "query"@
            &&& q is Apply ==> e.op == "apply"@
            &&& q is History ==> e.op == "history"@
            &&& q is Project ==> e.op == "project"@
            &&& q is Render ==> e.op == "render"@
            &&& q is Camera ==> e.op == "camera"@
            &&& q is Catalog ==> e.op == "catalog"@
            &&& q is Play ==> e.op == "play"@
            &&& q is Rtx ==> e.op == "rtx"@
            &&& q is Export ==> e.op == "export"@
            &&& q is Import ==> e.op == "import"@
            &&& q is Validate ==> e.op == "validate"@
            &&& q is Cycles ==> e.op == "cycles"@
        }),
{
}

/// The card of a query lists the ids that were found, in their order, and only such a card lists
/// any.
pub proof fn cards_list_what_was_found(
    q: MailboxRequest,
    r: MailboxResponse,
    h: spec_fn(Real, u8) -> Seq<char>,
    i: int,
)
    ensures
        q is Query ==> (match r.query {
            Some(f) => {
                &&& summarized(q, r, h).hits.len() == f.hits.len()
                &&& 0 <= i < f.hits.len() ==> summarized(q, r, h).hits[i] == f.hits@[i].id@
            },
            None => summarized(q, r, h).hits.len() == 0,
        }),
        !(q is Query) ==> summarized(q, r, h).hits.len() == 0,
{
    if let Some(f) = r.query {
        if 0 <= i < f.hits.len() {
            assert(f@.hits[i] == f.hits@[i]@);
        }
    }
}

/// A card about a refusal tells the reason.
pub proof fn refusals_are_told(
    q: MailboxRequest,
    r: MailboxResponse,
    h: spec_fn(Real, u8) -> Seq<char>,
)
    requires
        !r.ok,
        r.error is Some,
    ensures
        q is Apply || q is Query || q is Inspect ==> summarized(q, r, h).summary == r.error->0@,
        q is Status && r.status is None ==> summarized(q, r, h).summary == r.error->0@,
        q is History && r.history is None ==> summarized(q, r, h).summary == r.error->0@,
        q is Project && r.project is None ==> summarized(q, r, h).summary == r.error->0@,
        q is Render && r.render is None ==> summarized(q, r, h).summary == r.error->0@,
{
}

/// The revision on a card is the one that the response tells.
pub proof fn cards_show_the_revision(
    q: MailboxRequest,
    r: MailboxResponse,
    h: spec_fn(Real, u8) -> Seq<char>,
)
    ensures
        q is Status ==> (r.status matches Some(x) ==> summarized(q, r, h).revision == Some(
            x.revision,
        )),
        q is Inspect ==> (r.document matches Some(x) ==> summarized(q, r, h).revision == Some(
            x.revision,
        )),
        q is Apply ==> (r.apply matches Some(x) ==> summarized(q, r, h).revision == Some(
            x.revision,
        )),
        q is History ==> (r.history matches Some(x) ==> summarized(q, r, h).revision == Some(
            x.revision,
        )),
        q is Project ==> (r.project matches Some(x) ==> summarized(q, r, h).revision == Some(
            x.revision,
        )),
        q is Render ==> (r.render matches Some(x) ==> summarized(q, r, h).revision == Some(
            x.revision,
        )),
        q is Import ==> (r.import matches Some(x) ==> summarized(q, r, h).revision == Some(
            x.revision,
        )),
{
}

/// The counts on a card are those of the response: revision and entities of a status, revision and
/// depths of a history, and the size of a picture with its camera.
pub proof fn cards_show_the_counts(
    q: MailboxRequest,
    r: MailboxResponse,
    h: spec_fn(Real, u8) -> Seq<char>,
)
    ensures
        q is Status ==> (r.status matches Some(x) ==> summarized(q, r, h).summary == "rev="@
            + decimal_text(x.revision as nat) + " entities="@ + decimal_text(
            x.entity_count as nat,
        )),
        q matches MailboxRequest::History { action } ==> (r.history matches Some(x) ==> (x.ok
            ==> summarized(q, r, h).summary == ((match action {
            HistoryAction::List => "List"@,
            HistoryAction::Undo => "Undo"@,
            HistoryAction::Redo => "Redo"@,
        }) + " rev="@ + decimal_text(x.revision as nat) + " undo="@) + decimal_text(
            x.undo_depth as nat,
        ) + " redo="@ + decimal_text(x.redo_depth as nat))),
        q matches MailboxRequest::Project { action, .. } ==> (r.project matches Some(x) ==> (x.ok
            ==> summarized(q, r, h).summary == (match action {
            ProjectAction::List => "List"@,
            ProjectAction::Save => "Save"@,
            ProjectAction::Open => "Open"@,
            ProjectAction::Create => "Create"@,
        }) + " "@ + x.path@)),
        q is Render ==> (r.render matches Some(x) ==> (x.ok ==> summarized(q, r, h).summary == (
        x.path@ + " "@ + decimal_text(x.width as nat) + "x"@) + decimal_text(x.height as nat)
            + " cam="@ + x.camera@)),
{
}

/// A change is told by what it does and to whom, with the numbers that it sets in their order.
pub proof fn changes_are_told(c: ApplyChange, h: spec_fn(Real, u8) -> Seq<char>)
    ensures
        c matches ApplyChange::CreateMesh { entity } ==> change_text(c, h) == "create "@
            + entity.id@,
        c matches ApplyChange::PatchColor { entity_id, color } ==> change_text(c, h) == "color "@
            + entity_id@ + " ["@ + (h(color.r, 2) + ","@ + h(color.g, 2) + ","@ + h(color.b, 2))
            + "]"@,
        c matches ApplyChange::PatchTranslation { entity_id, translation } ==> change_text(c, h)
            == "move "@ + entity_id@ + " ["@ + (h(translation.x, 1) + ","@ + h(translation.y, 1)
            + ","@ + h(translation.z, 1)) + "]"@,
        c matches ApplyChange::PatchRotation { entity_id, .. } ==> change_text(c, h) == "rotate "@
            + entity_id@,
        c matches ApplyChange::LayoutPattern { pattern, count, id_prefix, .. } ==> change_text(c, h)
            == "layout "@ + pattern@ + " "@ + decimal_text(count as nat) + (" "@ + id_prefix@
            + "-*"@),
        c matches ApplyChange::Group { group_id, .. } ==> change_text(c, h) == "group "@
            + group_id@,
        c matches ApplyChange::Ungroup { group_id } ==> change_text(c, h) == "ungroup "@
            + group_id@,
        c matches ApplyChange::GraphCreate { graph_id } ==> change_text(c, h) == "graph "@
            + graph_id@,
        c matches ApplyChange::GraphBind { graph_id, entity_id } ==> change_text(c, h) == "bind "@
            + graph_id@ + " -> "@ + entity_id@,
        c matches ApplyChange::PatchLight { shadows: Some(true), .. } ==> change_text(c, h).skip(
            change_text(c, h).len() - 10,
        ) == "shadows on"@,
        c matches ApplyChange::PatchLight { shadows: Some(false), .. } ==> change_text(c, h).skip(
            change_text(c, h).len() - 11,
        ) == "shadows off"@,
{
    reveal_strlit("shadows on");
    reveal_strlit("shadows off");
    if let ApplyChange::PatchLight { direction, shadows } = c {
        let front = "light "@ + crate::feed::direction_text(direction, h) + " "@;
        let t = change_text(c, h);
        if shadows == Some(true) {
            assert(t == front + "shadows on"@);
            assert(t.skip(t.len() - 10) =~= "shadows on"@);
        } else if shadows == Some(false) {
            assert(t == front + "shadows off"@);
            assert(t.skip(t.len() - 11) =~= "shadows off"@);
        }
    }
}

/// A query is told by its kind and what it is about.
pub proof fn queries_are_told(q: QuerySpec, h: spec_fn(Real, u8) -> Seq<char>)
    ensures
        q matches QuerySpec::LeftOf { entity_id, .. } ==> headline(q, h) == "left_of "@
            + entity_id@,
        q is OnScreen ==> headline(q, h) == "on_screen"@,
        q matches QuerySpec::ColorOf { color: ColorQuery::Name(n), .. } ==> headline(q, h)
            == "color_of "@ + n@,
        q matches QuerySpec::AssemblyOf { entity_id } ==> headline(q, h) == "assembly_of "@
            + entity_id@,
        q matches QuerySpec::Pixel { x, y, .. } ==> headline(q, h) == "pixel "@ + decimal_text(
            x as nat,
        ) + ","@ + decimal_text(y as nat),
        q is Elements ==> headline(q, h) == "elements"@,
{
}

/// The stripe of a card is red where the exchange failed, whatever the operation, and never where
/// it went well.
pub proof fn stripes_tell_failures(e: EventModel)
    ensures
        stripe_of(e) == [230u8, 110u8, 100u8, 255u8] <==> !e.ok,
        e.ok && e.op == "apply"@ ==> stripe_of(e) == [90u8, 210u8, 170u8, 255u8],
        e.ok && e.op == "query"@ ==> stripe_of(e) == [230u8, 175u8, 70u8, 255u8],
        e.ok && e.op == "status"@ ==> stripe_of(e) == [150u8, 170u8, 200u8, 255u8],
        e.ok && e.op == "inspect"@ ==> stripe_of(e) == [200u8, 160u8, 90u8, 255u8],
{
    reveal_strlit("apply");
    reveal_strlit("query");
    reveal_strlit("status");
    reveal_strlit("inspect");
    assert("apply"@[0] == 'a' && "query"@[0] == 'q' && "status"@[0] == 's' && "inspect"@[0] == 'i');
    let red: [u8; 4] = [230u8, 110u8, 100u8, 255u8];
    let a: [u8; 4] = [90u8, 210u8, 170u8, 255u8];
    let b: [u8; 4] = [230u8, 175u8, 70u8, 255u8];
    let c: [u8; 4] = [150u8, 170u8, 200u8, 255u8];
    let d: [u8; 4] = [200u8, 160u8, 90u8, 255u8];
    let m: [u8; 4] = [150u8, 158u8, 168u8, 255u8];
    assert(red[1] == 110 && a[1] == 210 && b[1] == 175 && c[1] == 170 && d[1] == 160 && m[1] == 158);
}

/// The lines of a card are those of its summary, then those of its hits in order. Twelve hits are
/// shown at most, and a last line counts the others.
pub proof fn cards_show_twelve_hits(e: EventModel, cols: int)
    ensures
        e.hits.len() <= 12 ==> body_lines(e, cols) == hit_lines(
            wrapped(e.summary, cols),
            e.hits,
            cols,
            e.hits.len() as int,
        ),
        e.hits.len() > 12 ==> body_lines(e, cols) == hit_lines(
            wrapped(e.summary, cols),
            e.hits,
            cols,
            12,
        ).push("+"@ + decimal_text((e.hits.len() - 12) as nat) + " more"@),
{
}

/// Each further hit adds its own lines below those before it.
pub proof fn hits_stand_below_each_other(
    before: Seq<Seq<char>>,
    hits: Seq<Seq<char>>,
    cols: int,
    n: int,
)
    requires
        0 <= n < hits.len(),
    ensures
        hit_lines(before, hits, cols, 0) == before,
        hit_lines(before, hits, cols, n + 1) == hit_lines(before, hits, cols, n) + wrapped(
            hits[n],
            cols,
        ),
{
}

/// The title tells whether the feed is active and how many events it holds.
pub proof fn title_tells_the_feed(f: FeedModel, active: bool)
    ensures
        active ==> title_text(f, active) == "MAILBOX LIVE FEED   "@ + "ACTIVE"@ + "  "@
            + decimal_text(f.events.len()),
        !active ==> title_text(f, active) == "MAILBOX LIVE FEED   "@ + "IDLE"@ + "  "@
            + decimal_text(f.events.len()),
{
}

/// A status response tells the document as it stands: its revision, how many entities and scenes it
/// has, where it lies, and how many steps can be undone and redone.
pub proof fn status_tells_the_studio(
    r: MailboxResponse,
    s: Studio,
    mailbox: Seq<char>,
    installed: bool,
)
    requires
        tells_status(r, s, mailbox, installed),
    ensures
        r.ok,
        r.error is None,
        r.status is Some,
        r.status->0.revision == s.store@.document.revision,
        r.status->0.entity_count == s.store@.document.count(),
        r.status->0.scene_count == s.store@.document.scenes.len(),
        r.status->0.document_path@ == s.store@.path,
        r.status->0.mailbox@ == mailbox,
        r.status->0.undo_depth == s.store@.undo.len(),
        r.status->0.redo_depth == s.store@.redo.len(),
        r.status->0.viewport == s.cameras,
        r.status->0.light == s.store@.document.light,
        r.status->0.auth@ == "token"@,
{
}

/// An inspection that names no other slice gives the whole document, and a summary lists each
/// entity once, in order.
pub proof fn inspections_give_the_document(
    r: MailboxResponse,
    s: Studio,
    kind: Seq<char>,
    g: spec_fn(Calc) -> Answer,
)
    requires
        tells_slice(r, s, kind, g),
    ensures
        kind == "full"@ ==> r.ok && (r.document matches Some(c) && c@ == s.store@.document),
        kind == "summary"@ ==> r.ok && r.document is None && (r.inspect_summary matches Some(i)
            && i.revision == s.store@.document.revision && i.entity_count
            == s.store@.document.count() && i.entities.len()
            == s.store@.document.entities().len()),
        kind == "catalog"@ ==> r.ok && r.catalog is Some,
        kind == "evidence"@ && s.evidence.digest is Some ==> r.ok && (r.evidence matches Some(c)
            && c@ == s.evidence.digest->0@),
        kind == "evidence"@ && s.evidence.digest is None ==> !r.ok && r.evidence is None,
{
    reveal_strlit("full");
    reveal_strlit("summary");
    reveal_strlit("catalog");
    reveal_strlit("evidence");
    assert("full"@[0] == 'f' && "summary"@[0] == 's' && "catalog"@[0] == 'c' && "evidence"@[0]
        == 'e');
}

/// The words for path tracing; a start without numbers takes sixty-four samples of a picture of 960
/// by 640.
pub proof fn tracing_words(
    c: CyclesCommand,
    action: Seq<char>,
    samples: Option<u32>,
    width: Option<u32>,
    height: Option<u32>,
)
    requires
        commanded(c, action, samples, width, height),
    ensures
        action == "start"@ ==> (c matches CyclesCommand::Start { samples: a, width: b, height: d }
            && (samples matches Some(n) ==> a == n) && (samples is None ==> a == 64) && (
        width matches Some(n) ==> b == n) && (width is None ==> b == 960) && (height matches Some(
            n,
        ) ==> d == n) && (height is None ==> d == 640)),
        action == "pause"@ ==> c is Pause,
        action == "resume"@ ==> c is Resume,
        action == "stop"@ ==> c is Stop,
        action == "status"@ ==> c is Status,
{
    reveal_strlit("start");
    reveal_strlit("pause");
    reveal_strlit("resume");
    reveal_strlit("stop");
    reveal_strlit("status");
    assert("start"@.len() == 5 && "pause"@.len() == 5 && "resume"@.len() == 6 && "stop"@.len() == 4
        && "status"@.len() == 6);
    assert("start"@[0] == 's' && "pause"@[0] == 'p' && "resume"@[0] == 'r' && "status"@[0] == 's');
}

/// Methods with an id lead where their names say; notifications and what has no id are not
/// answered.
pub proof fn methods_lead_where_they_say(method: Seq<char>, has_id: bool, r: Route)
    requires
        routed(method, has_id, r),
    ensures
        !has_id ==> r is Ignore,
        has_id && method == "initialize"@ ==> r is Initialize,
        has_id && method == "ping"@ ==> r is Ping,
        has_id && method == "tools/list"@ ==> r is ListTools,
        has_id && method == "tools/call"@ ==> r is CallTool,
{
    reveal_strlit("notifications/");
    reveal_strlit("initialize");
    reveal_strlit("ping");
    reveal_strlit("tools/list");
    reveal_strlit("tools/call");
    assert("notifications/"@.len() == 14 && "initialize"@.len() == 10 && "ping"@.len() == 4
        && "tools/list"@.len() == 10 && "tools/call"@.len() == 10);
    assert("initialize"@[0] == 'i' && "tools/list"@[6] == 'l' && "tools/call"@[6] == 'c'
        && "tools/list"@[0] == 't' && "tools/call"@[0] == 't');
}

/// A payload is a failure exactly where its `ok` is false.
pub proof fn failures_are_not_ok(payload: JsonModel)
    ensures
        payload.member("ok"@) == Some(JsonModel::Bool(false)) ==> says_no(payload),
        payload.member("ok"@) == Some(JsonModel::Bool(true)) ==> !says_no(payload),
        payload.member("ok"@) is None ==> !says_no(payload),
{
}

/// The history tool goes the way that its action names.
pub proof fn history_tool_goes_there(args: Option<JsonModel>, r: Result<ToolStep, String>)
    requires
        history_step(args, r),
    ensures
        text_member(args, "action"@) == Some("undo"@) ==> r == Ok::<ToolStep, String>(
            ToolStep::Ask { request: MailboxRequest::History { action: HistoryAction::Undo } },
        ),
        text_member(args, "action"@) == Some("redo"@) ==> r == Ok::<ToolStep, String>(
            ToolStep::Ask { request: MailboxRequest::History { action: HistoryAction::Redo } },
        ),
        text_member(args, "action"@) == Some("list"@) || text_member(args, "action"@) is None ==> r
            == Ok::<ToolStep, String>(
            ToolStep::Ask { request: MailboxRequest::History { action: HistoryAction::List } },
        ),
{
    reveal_strlit("undo");
    reveal_strlit("redo");
    reveal_strlit("list");
    assert("undo"@[0] == 'u' && "redo"@[0] == 'r' && "list"@[0] == 'l');
}

/// The project tool does what its action names, opening and creating at the path that is given.
pub proof fn project_tool_does_it(args: Option<JsonModel>, r: Result<ToolStep, String>)
    requires
        project_step(args, r),
    ensures
        text_member(args, "action"@) == Some("save"@) ==> (r matches Ok(
            ToolStep::Ask { request: MailboxRequest::Project { action, path } },
        ) && action == ProjectAction::Save && path is None),
        text_member(args, "action"@) == Some("open"@) ==> (r matches Ok(
            ToolStep::Ask { request: MailboxRequest::Project { action, path } },
        ) && action == ProjectAction::Open && text_in(path) == text_member(args, "path"@)),
        text_member(args, "action"@) == Some("create"@) ==> (r matches Ok(
            ToolStep::Ask { request: MailboxRequest::Project { action, path } },
        ) && action == ProjectAction::Create && text_in(path) == text_member(args, "path"@)),
        text_member(args, "action"@) is None ==> (r matches Ok(
            ToolStep::Ask { request: MailboxRequest::Project { action, .. } },
        ) && action == ProjectAction::List),
{
    reveal_strlit("save");
    reveal_strlit("open");
    reveal_strlit("create");
    reveal_strlit("list");
    assert("save"@[0] == 's' && "open"@[0] == 'o' && "create"@[0] == 'c' && "list"@[0] == 'l');
}

/// How far down the next card begins: the card is as high as the lines that it takes, nine dots
/// each, with two pixels above and below; a rule of one pixel and a gap of four follow.
pub open spec fn next_top(e: EventModel, y: int, t: Sheet) -> int {
    let lines = 1 + body_lines(e, t.cols).len();
    let left = if t.limit > y + 2 {
        (t.limit - (y + 2)) / (9 * t.scale)
    } else {
        0
    };
    let taken = if left < lines {
        left
    } else {
        lines as int
    };
    y + 4 + taken * (9 * t.scale) + 5
}

/// The newest event is on top, and the others stand below it as they would without it.
pub proof fn newest_card_is_on_top(
    p: Picture,
    events: Seq<EventModel>,
    e: EventModel,
    y: int,
    t: Sheet,
    h: spec_fn(Real, u8) -> Seq<char>,
)
    requires
        room(t, y) > 0,
    ensures
        with_cards(p, events.push(e), 0, y, t, h) == with_cards(
            with_card(p, e, y, t, h),
            events,
            0,
            next_top(e, y, t),
            t,
            h,
        ),
{
    let all = events.push(e);
    assert(all[all.len() - 1 - 0] == e);
    cards_below(with_card(p, e, y, t, h), events, e, 0, next_top(e, y, t), t, h);
}

proof fn cards_below(
    p: Picture,
    events: Seq<EventModel>,
    e: EventModel,
    i: int,
    y: int,
    t: Sheet,
    h: spec_fn(Real, u8) -> Seq<char>,
)
    requires
        0 <= i,
    ensures
        with_cards(p, events.push(e), i + 1, y, t, h) == with_cards(p, events, i, y, t, h),
    decreases events.len() - i,
{
    let all = events.push(e);
    if i < events.len() && room(t, y) > 0 {
        let x = events[events.len() - 1 - i];
        assert(all[all.len() - 1 - (i + 1)] == x);
        let high = card_height(t, lines_taken(t, y, body_lines(x, t.cols).len() as int));
        cards_below(with_card(p, x, y, t, h), events, e, i + 1, y + high + 1 + 4, t, h);
    }
}

/// The lines of a card stand below each other, nine dots from one to the next.
pub proof fn lines_stand_below_each_other(
    p: Picture,
    x: int,
    y: int,
    lines: Seq<Seq<char>>,
    scale: int,
    w: int,
    n: int,
)
    requires
        0 <= n < lines.len(),
    ensures
        with_lines(p, x, y, lines, scale, w, 0) == p,
        with_lines(p, x, y, lines, scale, w, n + 1) == with_text(
            with_lines(p, x, y, lines, scale, w, n),
            x,
            y + n * (9 * scale),
            lines[n],
            [230u8, 234u8, 240u8, 255u8],
            scale,
            w,
            0,
        ).0,
{
}

/// Under ten milliseconds a duration is shown with one decimal, from ten on with none.
pub proof fn short_times_have_a_decimal(ms: Real, h: spec_fn(Real, u8) -> Seq<char>)
    requires
        finite(ms),
    ensures
        units(ms) < 10 * unit() ==> timing_text(ms, h) == h(ms, 1) + "ms"@,
        units(ms) >= 10 * unit() ==> timing_text(ms, h) == h(ms, 0) + "ms"@,
{
    small_counts_have_worth();
    order_is_by_worth(ms, Real { bits: 0x4120_0000 });
}

} // verus!
