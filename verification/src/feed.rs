//! The live feed: compact cards about what came through the mailbox.

use crate::apply::{newest, ApplyRequest};
use crate::change::ApplyChange;
use crate::export::DEFAULT_PATH;
use crate::lists::map_push;
use crate::mailbox::{HistoryAction, MailboxRequest, MailboxResponse, ProjectAction};
use crate::numeric::{shows, writes, Real, Vec3, SHORTEST};
use crate::query::{ColorQuery, QuerySpec};
use crate::ranking::HitModel;
use crate::text::{cat2, cat3, cat4, decimal, decimal_text, join, joined, same, text_in, texts};
use std::collections::VecDeque;
use vstd::prelude::*;

verus! {

/// Most events that the feed remembers.
pub const FEED_CAPACITY: usize = 256;

/// Most hit ids that a card shows.
pub const FEED_HIT_CAP: usize = 12;

/// How long after an event the feed counts as active, in nanoseconds: two seconds.
pub const ACTIVE_WINDOW: u64 = 2_000_000_000;

#[derive(Debug, PartialEq)]
pub struct FeedEvent {
    pub op: String,
    pub ok: bool,
    pub elapsed_ms: Real,
    pub revision: Option<u64>,
    pub summary: String,
    /// Ids that a query found, apart from the summary.
    pub hits: Vec<String>,
    /// When it happened, in nanoseconds of a clock that never goes back.
    pub at: u64,
}

/// What an event says.
#[verifier::ext_equal]
pub struct EventModel {
    pub op: Seq<char>,
    pub ok: bool,
    pub elapsed_ms: Real,
    pub revision: Option<u64>,
    pub summary: Seq<char>,
    pub hits: Seq<Seq<char>>,
    pub at: u64,
}

impl View for FeedEvent {
    type V = EventModel;

    open spec fn view(&self) -> EventModel {
        EventModel {
            op: self.op@,
            ok: self.ok,
            elapsed_ms: self.elapsed_ms,
            revision: self.revision,
            summary: self.summary@,
            hits: texts(self.hits@),
            at: self.at,
        }
    }
}

/// The last events, oldest first, and a stamp that moves with every one.
#[derive(Debug)]
pub struct MailboxFeed {
    events: VecDeque<FeedEvent>,
    /// Changes with every event, so that a quiet feed need not be drawn again.
    pub seq: u64,
}

#[verifier::ext_equal]
pub struct FeedModel {
    pub events: Seq<EventModel>,
    pub seq: u64,
}

pub open spec fn event_views(s: Seq<FeedEvent>) -> Seq<EventModel> {
    s.map_values(|e: FeedEvent| e@)
}

impl View for MailboxFeed {
    type V = FeedModel;

    closed spec fn view(&self) -> FeedModel {
        FeedModel { events: event_views(self.events@), seq: self.seq }
    }
}

impl FeedModel {
    pub open spec fn bounded(self) -> bool {
        self.events.len() <= FEED_CAPACITY
    }

    /// The feed after an event: a ping stays out, and a full feed forgets its oldest event.
    pub open spec fn told(self, e: EventModel) -> FeedModel {
        if e.op == "ping"@ {
            self
        } else {
            FeedModel {
                events: if self.events.len() >= FEED_CAPACITY {
                    self.events.drop_first().push(e)
                } else {
                    self.events.push(e)
                },
                seq: ((self.seq + 1) % 0x1_0000_0000_0000_0000) as u64,
            }
        }
    }
}

impl MailboxFeed {
    pub fn new() -> (r: Self)
        ensures
            r@ == (FeedModel { events: Seq::empty(), seq: 0 }),
    {
        let r = MailboxFeed { events: VecDeque::new(), seq: 0 };
        assert(event_views(r.events@) =~= Seq::empty());
        r
    }

    pub fn len(&self) -> (r: usize)
        ensures
            r == self@.events.len(),
    {
        self.events.len()
    }

    pub fn is_empty(&self) -> (r: bool)
        ensures
            r == (self@.events.len() == 0),
    {
        self.events.len() == 0
    }

    /// The events, the newest first.
    pub fn newest_first(&self) -> (r: Vec<&FeedEvent>)
        ensures
            r.len() == self@.events.len(),
            forall|i: int|
                0 <= i < r.len() ==> (#[trigger] r@[i])@ == self@.events[r.len() - 1 - i],
    {
        let mut out: Vec<&FeedEvent> = Vec::new();
        let n: usize = self.events.len();
        let mut i: usize = 0;
        while i < n
            invariant
                i <= n,
                n == self.events@.len(),
                n == self@.events.len(),
                out.len() == i,
                forall|k: int| 0 <= k < i ==> (#[trigger] out@[k])@ == self@.events[n - 1 - k],
            decreases n - i,
        {
            let e: &FeedEvent = &self.events[n - 1 - i];
            assert(e@ == self@.events[n - 1 - i]);
            out.push(e);
            i += 1;
        }
        out
    }

    /// Whether something happened in the last two seconds.
    pub fn is_active(&self, now: u64) -> (r: bool)
        ensures
            r == (self@.events.len() > 0 && now - self@.events.last().at <= ACTIVE_WINDOW),
    {
        let n: usize = self.events.len();
        if n == 0 {
            return false;
        }
        let at: u64 = self.events[n - 1].at;
        assert(self@.events.last() == self.events@[n - 1]@);
        at >= now || now - at <= ACTIVE_WINDOW
    }

    pub fn push(&mut self, event: FeedEvent)
        ensures
            final(self)@ == old(self)@.told(event@),
    {
        if same(&event.op, "ping") {
            return;
        }
        let ghost start = event_views(self.events@);
        if self.events.len() >= FEED_CAPACITY {
            let _ = self.events.pop_front();
            assert(event_views(self.events@) =~= start.drop_first());
        }
        proof {
            map_push(self.events@, event, |e: FeedEvent| e@);
        }
        self.events.push_back(event);
        self.seq = self.seq.wrapping_add(1);
        assert(self@ =~= FeedModel {
            events: event_views(self.events@),
            seq: ((old(self)@.seq + 1) % 0x1_0000_0000_0000_0000) as u64,
        });
    }
}

/// What a card says about an exchange.
#[verifier::ext_equal]
pub struct SummaryModel {
    pub op: Seq<char>,
    pub summary: Seq<char>,
    pub revision: Option<u64>,
    pub hits: Seq<Seq<char>>,
}

#[derive(Debug, PartialEq)]
pub struct Summary {
    pub op: String,
    pub summary: String,
    pub revision: Option<u64>,
    pub hits: Vec<String>,
}

impl View for Summary {
    type V = SummaryModel;

    open spec fn view(&self) -> SummaryModel {
        SummaryModel {
            op: self.op@,
            summary: self.summary@,
            revision: self.revision,
            hits: texts(self.hits@),
        }
    }
}

/// The first text that is there.
pub open spec fn first_of(a: Option<Seq<char>>, b: Option<Seq<char>>, c: Seq<char>) -> Seq<char> {
    match a {
        Some(x) => x,
        None => match b {
            Some(y) => y,
            None => c,
        },
    }
}

pub(crate) fn pick(a: &Option<String>, b: &Option<String>, c: &str) -> (r: String)
    ensures
        r@ == first_of(text_in(*a), text_in(*b), c@),
{
    match a {
        Some(x) => x.clone(),
        None => match b {
            Some(y) => y.clone(),
            None => c.to_owned(),
        },
    }
}

/// Three numbers with commas between them.
pub open spec fn listed_text(
    x: Real,
    y: Real,
    z: Real,
    n: u8,
    h: spec_fn(Real, u8) -> Seq<char>,
) -> Seq<char> {
    h(x, n) + ","@ + h(y, n) + ","@ + h(z, n)
}

fn list_three<T: Fn(Real, u8) -> String>(x: Real, y: Real, z: Real, n: u8, text: &T) -> (r: String)
    requires
        writes(*text),
    ensures
        forall|h: spec_fn(Real, u8) -> Seq<char>| #[trigger]
            shows(*text, h) ==> r@ == listed_text(x, y, z, n, h),
{
    let a = text(x, n);
    let b = text(y, n);
    let c = text(z, n);
    let mut s = cat4(&a, ",", &b, ",");
    s.push_str(&c);
    s
}

pub open spec fn color_text(c: ColorQuery, h: spec_fn(Real, u8) -> Seq<char>) -> Seq<char> {
    match c {
        ColorQuery::Name(n) => n@,
        ColorQuery::Rgba(q) => "rgba("@ + listed_text(q.r, q.g, q.b, 2, h) + ")"@,
    }
}

pub open spec fn headline(q: QuerySpec, h: spec_fn(Real, u8) -> Seq<char>) -> Seq<char> {
    match q {
        QuerySpec::LeftOf { entity_id, .. } => "left_of "@ + entity_id@,
        QuerySpec::OnScreen { .. } => "on_screen"@,
        QuerySpec::ColorOf { color, .. } => "color_of "@ + color_text(color, h),
        QuerySpec::AssemblyOf { entity_id } => "assembly_of "@ + entity_id@,
        QuerySpec::Pixel { x, y, .. } => "pixel "@ + decimal_text(x as nat) + ","@ + decimal_text(
            y as nat,
        ),
        QuerySpec::Elements { .. } => "elements"@,
    }
}

fn query_headline<T: Fn(Real, u8) -> String>(query: &QuerySpec, text: &T) -> (r: String)
    requires
        writes(*text),
    ensures
        forall|h: spec_fn(Real, u8) -> Seq<char>| #[trigger]
            shows(*text, h) ==> r@ == headline(*query, h),
{
    match query {
        QuerySpec::LeftOf { entity_id, .. } => cat2("left_of ", entity_id),
        QuerySpec::OnScreen { .. } => "on_screen".to_owned(),
        QuerySpec::ColorOf { color, .. } => match color {
            ColorQuery::Name(n) => cat2("color_of ", n),
            ColorQuery::Rgba(q) => {
                let three = list_three(q.r, q.g, q.b, 2, text);
                let name = cat3("rgba(", &three, ")");
                cat2("color_of ", &name)
            },
        },
        QuerySpec::AssemblyOf { entity_id } => cat2("assembly_of ", entity_id),
        QuerySpec::Pixel { x, y, .. } => cat4(
            "pixel ",
            &decimal(*x as u64),
            ",",
            &decimal(*y as u64),
        ),
        QuerySpec::Elements { .. } => "elements".to_owned(),
    }
}

pub open spec fn direction_text(d: Option<Vec3>, h: spec_fn(Real, u8) -> Seq<char>) -> Seq<char> {
    match d {
        Some(v) => "dir["@ + listed_text(v.x, v.y, v.z, 2, h) + "]"@,
        None => ""@,
    }
}

pub open spec fn shadow_text(s: Option<bool>) -> Seq<char> {
    match s {
        Some(true) => "shadows on"@,
        Some(false) => "shadows off"@,
        None => ""@,
    }
}

/// A change in a few words.
pub open spec fn change_text(c: ApplyChange, h: spec_fn(Real, u8) -> Seq<char>) -> Seq<char> {
    match c {
        ApplyChange::CreateMesh { entity } => "create "@ + entity.id@,
        ApplyChange::PatchColor { entity_id, color } => "color "@ + entity_id@ + " ["@
            + listed_text(color.r, color.g, color.b, 2, h) + "]"@,
        ApplyChange::PatchTranslation { entity_id, translation } => "move "@ + entity_id@ + " ["@
            + listed_text(translation.x, translation.y, translation.z, 1, h) + "]"@,
        ApplyChange::LayoutPattern { pattern, count, id_prefix, .. } => "layout "@ + pattern@
            + " "@ + decimal_text(count as nat) + (" "@ + id_prefix@ + "-*"@),
        ApplyChange::PatchRotation { entity_id, .. } => "rotate "@ + entity_id@,
        ApplyChange::Group { group_id, .. } => "group "@ + group_id@,
        ApplyChange::Ungroup { group_id } => "ungroup "@ + group_id@,
        ApplyChange::GraphCreate { graph_id } => "graph "@ + graph_id@,
        ApplyChange::GraphPatch { graph_id, socket, value, .. } => "socket "@ + graph_id@ + "."@
            + socket@ + ("="@ + h(value, SHORTEST)),
        ApplyChange::GraphBind { graph_id, entity_id } => "bind "@ + graph_id@ + " -> "@
            + entity_id@,
        ApplyChange::PatchLight { direction, shadows } => "light "@ + direction_text(direction, h)
            + " "@ + shadow_text(shadows),
    }
}

fn describe_change<T: Fn(Real, u8) -> String>(c: &ApplyChange, text: &T) -> (r: String)
    requires
        writes(*text),
    ensures
        forall|h: spec_fn(Real, u8) -> Seq<char>| #[trigger]
            shows(*text, h) ==> r@ == change_text(*c, h),
{
    match c {
        ApplyChange::CreateMesh { entity } => cat2("create ", &entity.id),
        ApplyChange::PatchColor { entity_id, color } => {
            let three = list_three(color.r, color.g, color.b, 2, text);
            let mut s = cat4("color ", entity_id, " [", &three);
            s.push_str("]");
            s
        },
        ApplyChange::PatchTranslation { entity_id, translation } => {
            let three = list_three(translation.x, translation.y, translation.z, 1, text);
            let mut s = cat4("move ", entity_id, " [", &three);
            s.push_str("]");
            s
        },
        ApplyChange::LayoutPattern { pattern, count, id_prefix, .. } => {
            let head = cat4("layout ", pattern, " ", &decimal(*count as u64));
            let tail = cat3(" ", id_prefix, "-*");
            cat2(&head, &tail)
        },
        ApplyChange::PatchRotation { entity_id, .. } => cat2("rotate ", entity_id),
        ApplyChange::Group { group_id, .. } => cat2("group ", group_id),
        ApplyChange::Ungroup { group_id } => cat2("ungroup ", group_id),
        ApplyChange::GraphCreate { graph_id } => cat2("graph ", graph_id),
        ApplyChange::GraphPatch { graph_id, socket, value, .. } => {
            let number = text(*value, SHORTEST);
            let head = cat4("socket ", graph_id, ".", socket);
            let tail = cat2("=", &number);
            cat2(&head, &tail)
        },
        ApplyChange::GraphBind { graph_id, entity_id } => cat4(
            "bind ",
            graph_id,
            " -> ",
            entity_id,
        ),
        ApplyChange::PatchLight { direction, shadows } => {
            let d = match direction {
                Some(v) => {
                    let three = list_three(v.x, v.y, v.z, 2, text);
                    cat3("dir[", &three, "]")
                },
                None => "".to_owned(),
            };
            let s = match shadows {
                Some(on) => if *on {
                    "shadows on"
                } else {
                    "shadows off"
                },
                None => "",
            };
            cat4("light ", &d, " ", s)
        },
    }
}

/// How many changes a card spells out.
pub const SHOWN_CHANGES: usize = 3;

/// The first `n` changes in a few words each, after what precedes them.
pub open spec fn with_changes(
    before: Seq<Seq<char>>,
    changes: Seq<ApplyChange>,
    n: int,
    h: spec_fn(Real, u8) -> Seq<char>,
) -> Seq<Seq<char>>
    decreases n,
{
    if n <= 0 {
        before
    } else {
        with_changes(before, changes, n - 1, h).push(change_text(changes[n - 1], h))
    }
}

/// The parts of a card about an accepted request.
pub open spec fn apply_parts(
    request: ApplyRequest,
    idempotent: bool,
    h: spec_fn(Real, u8) -> Seq<char>,
) -> Seq<Seq<char>> {
    let label = if request.label@.len() == 0 {
        Seq::<Seq<char>>::empty()
    } else {
        Seq::<Seq<char>>::empty().push(request.label@)
    };
    let lead = if idempotent {
        label.push("idempotent"@)
    } else {
        label
    };
    let n = request.changes.len();
    let shown = with_changes(
        lead,
        request.changes@,
        if n < SHOWN_CHANGES {
            n as int
        } else {
            SHOWN_CHANGES as int
        },
        h,
    );
    if n > SHOWN_CHANGES {
        shown.push("+"@ + decimal_text((n - SHOWN_CHANGES) as nat) + " more"@)
    } else {
        shown
    }
}

pub open spec fn apply_error(response: MailboxResponse) -> Option<Seq<char>> {
    match response.apply {
        Some(a) => text_in(a.error),
        None => None,
    }
}

pub open spec fn apply_text(
    request: ApplyRequest,
    response: MailboxResponse,
    h: spec_fn(Real, u8) -> Seq<char>,
) -> Seq<char> {
    if !response.ok {
        first_of(text_in(response.error), apply_error(response), "apply failed"@)
    } else {
        let idempotent = match response.apply {
            Some(a) => a.idempotent,
            None => false,
        };
        joined(apply_parts(request, idempotent, h), "; "@)
    }
}

fn summarize_apply<T: Fn(Real, u8) -> String>(
    request: &ApplyRequest,
    response: &MailboxResponse,
    text: &T,
) -> (r: String)
    requires
        writes(*text),
    ensures
        forall|h: spec_fn(Real, u8) -> Seq<char>| #[trigger]
            shows(*text, h) ==> r@ == apply_text(*request, *response, h),
{
    if !response.ok {
        return match &response.apply {
            Some(a) => pick(&response.error, &a.error, "apply failed"),
            None => pick(&response.error, &None, "apply failed"),
        };
    }
    let mut parts: Vec<String> = Vec::new();
    assert(texts(parts@) =~= Seq::empty());
    if !request.label.as_str().is_empty() {
        parts.push(request.label.clone());
        assert(texts(parts@) =~= Seq::<Seq<char>>::empty().push(request.label@));
    }
    if let Some(a) = &response.apply {
        if a.idempotent {
            let ghost now = texts(parts@);
            parts.push("idempotent".to_owned());
            assert(texts(parts@) =~= now.push("idempotent"@));
        }
    }
    let ghost lead = texts(parts@);
    let n: usize = request.changes.len();
    let shown: usize = if n < SHOWN_CHANGES {
        n
    } else {
        SHOWN_CHANGES
    };
    let mut i: usize = 0;
    while i < shown
        invariant
            i <= shown,
            shown <= request.changes.len(),
            writes(*text),
            forall|h: spec_fn(Real, u8) -> Seq<char>| #[trigger]
                shows(*text, h) ==> texts(parts@) == with_changes(
                    lead,
                    request.changes@,
                    i as int,
                    h,
                ),
        decreases shown - i,
    {
        let ghost now = texts(parts@);
        let t = describe_change(&request.changes[i], text);
        parts.push(t);
        assert(texts(parts@) =~= now.push(t@));
        i += 1;
    }
    if n > SHOWN_CHANGES {
        let ghost now = texts(parts@);
        let more = cat3("+", &decimal((n - SHOWN_CHANGES) as u64), " more");
        parts.push(more);
        assert(texts(parts@) =~= now.push(more@));
    }
    join(&parts, "; ")
}

/// `rev=` and `entities=` with their numbers.
pub open spec fn census(revision: u64, entities: usize) -> Seq<char> {
    "rev="@ + decimal_text(revision as nat) + " entities="@ + decimal_text(entities as nat)
}

fn count_line(revision: u64, entities: usize) -> (r: String)
    ensures
        r@ == census(revision, entities),
{
    cat4("rev=", &decimal(revision), " entities=", &decimal(entities as u64))
}

pub open spec fn plain_summary(op: Seq<char>, summary: Seq<char>) -> SummaryModel {
    SummaryModel { op, summary, revision: None, hits: Seq::empty() }
}

pub open spec fn history_word(a: HistoryAction) -> Seq<char> {
    match a {
        HistoryAction::List => "List"@,
        HistoryAction::Undo => "Undo"@,
        HistoryAction::Redo => "Redo"@,
    }
}

pub open spec fn project_word(a: ProjectAction) -> Seq<char> {
    match a {
        ProjectAction::List => "List"@,
        ProjectAction::Save => "Save"@,
        ProjectAction::Open => "Open"@,
        ProjectAction::Create => "Create"@,
    }
}

pub open spec fn status_summary(r: MailboxResponse) -> SummaryModel {
    SummaryModel {
        op: "status"@,
        summary: match r.status {
            Some(s) => census(s.revision, s.entity_count),
            None => first_of(text_in(r.error), None, "status"@),
        },
        revision: match r.status {
            Some(s) => Some(s.revision),
            None => None,
        },
        hits: Seq::empty(),
    }
}

pub open spec fn inspect_summary(r: MailboxResponse) -> SummaryModel {
    let revision = match r.document {
        Some(d) => Some(d.revision),
        None => None,
    };
    let count = match r.document {
        Some(d) => d@.count(),
        None => 0,
    };
    SummaryModel {
        op: "inspect"@,
        summary: if r.ok {
            census(
                match revision {
                    Some(v) => v,
                    None => 0,
                },
                count,
            )
        } else {
            first_of(text_in(r.error), None, "inspect failed"@)
        },
        revision,
        hits: Seq::empty(),
    }
}

/// A query's card names the query; the ids that it found stand apart.
pub open spec fn query_summary(
    q: QuerySpec,
    r: MailboxResponse,
    h: spec_fn(Real, u8) -> Seq<char>,
) -> SummaryModel {
    SummaryModel {
        op: "query"@,
        summary: if r.ok {
            headline(q, h)
        } else {
            first_of(
                text_in(r.error),
                match r.query {
                    Some(f) => text_in(f.error),
                    None => None,
                },
                headline(q, h),
            )
        },
        revision: None,
        hits: match r.query {
            Some(f) => f@.hits.map_values(|x: HitModel| x.id),
            None => Seq::empty(),
        },
    }
}

pub open spec fn history_summary(a: HistoryAction, r: MailboxResponse) -> SummaryModel {
    let other = match r.history {
        Some(x) => text_in(x.error),
        None => None,
    };
    SummaryModel {
        op: "history"@,
        summary: match r.history {
            Some(x) => if x.ok {
                (history_word(a) + " rev="@ + decimal_text(x.revision as nat) + " undo="@)
                    + decimal_text(x.undo_depth as nat) + " redo="@ + decimal_text(
                    x.redo_depth as nat,
                )
            } else {
                first_of(text_in(r.error), other, "history"@)
            },
            None => first_of(text_in(r.error), other, "history"@),
        },
        revision: match r.history {
            Some(x) => Some(x.revision),
            None => None,
        },
        hits: Seq::empty(),
    }
}

pub open spec fn project_summary(a: ProjectAction, r: MailboxResponse) -> SummaryModel {
    SummaryModel {
        op: "project"@,
        summary: match r.project {
            Some(x) => if x.ok {
                project_word(a) + " "@ + x.path@
            } else {
                first_of(text_in(r.error), None, "project"@)
            },
            None => first_of(text_in(r.error), None, "project"@),
        },
        revision: match r.project {
            Some(x) => Some(x.revision),
            None => None,
        },
        hits: Seq::empty(),
    }
}

pub open spec fn render_summary(r: MailboxResponse) -> SummaryModel {
    SummaryModel {
        op: "render"@,
        summary: match r.render {
            Some(x) => if x.ok {
                (x.path@ + " "@ + decimal_text(x.width as nat) + "x"@) + decimal_text(
                    x.height as nat,
                ) + " cam="@ + x.camera@
            } else {
                first_of(text_in(r.error), None, "render"@)
            },
            None => first_of(text_in(r.error), None, "render"@),
        },
        revision: match r.render {
            Some(x) => Some(x.revision),
            None => None,
        },
        hits: Seq::empty(),
    }
}

/// What a card says about a request and its response.
pub open spec fn summarized(
    q: MailboxRequest,
    r: MailboxResponse,
    h: spec_fn(Real, u8) -> Seq<char>,
) -> SummaryModel {
    match q {
        MailboxRequest::Status => status_summary(r),
        MailboxRequest::Inspect { .. } => inspect_summary(r),
        MailboxRequest::Query { query } => query_summary(query, r, h),
        MailboxRequest::Apply { request } => SummaryModel {
            op: "apply"@,
            summary: apply_text(request, r, h),
            revision: match r.apply {
                Some(a) => Some(a.revision),
                None => None,
            },
            hits: Seq::empty(),
        },
        MailboxRequest::History { action } => history_summary(action, r),
        MailboxRequest::Project { action, .. } => project_summary(action, r),
        MailboxRequest::Render { .. } => render_summary(r),
        MailboxRequest::Camera { mode, frame, .. } => plain_summary(
            "camera"@,
            if frame matches Some(f) && f.len() > 0 {
                "frame"@
            } else {
                first_of(text_in(mode), None, "camera"@)
            },
        ),
        MailboxRequest::Catalog => plain_summary("catalog"@, "live_ops"@),
        MailboxRequest::Play { action, .. } => plain_summary("play"@, action@),
        MailboxRequest::Rtx { .. } => plain_summary("rtx"@, "lifecycle"@),
        MailboxRequest::Export { path } => plain_summary(
            "export"@,
            first_of(text_in(path), None, DEFAULT_PATH@),
        ),
        MailboxRequest::Validate => plain_summary(
            "validate"@,
            "ok="@ + truth(r.ok) + " diags="@ + decimal_text(
                match r.validate {
                    Some(v) => v.diagnostics.len() as nat,
                    None => 0,
                },
            ),
        ),
        MailboxRequest::Import { path } => SummaryModel {
            revision: match r.import {
                Some(i) => Some(i.revision),
                None => None,
            },
            ..plain_summary("import"@, first_of(text_in(path), None, DEFAULT_PATH@))
        },
        MailboxRequest::Cycles { action, .. } => plain_summary("cycles"@, action@),
    }
}

pub open spec fn truth(b: bool) -> Seq<char> {
    if b {
        "true"@
    } else {
        "false"@
    }
}

fn plain(op: &str, summary: String, revision: Option<u64>) -> (r: Summary)
    ensures
        r@ == (SummaryModel { revision, ..plain_summary(op@, summary@) }),
{
    let r = Summary { op: op.to_owned(), summary, revision, hits: Vec::new() };
    assert(texts(r.hits@) =~= Seq::empty());
    r
}

fn summarize_query<T: Fn(Real, u8) -> String>(
    query: &QuerySpec,
    response: &MailboxResponse,
    text: &T,
) -> (r: Summary)
    requires
        writes(*text),
    ensures
        forall|h: spec_fn(Real, u8) -> Seq<char>| #[trigger]
            shows(*text, h) ==> r@ == query_summary(*query, *response, h),
{
    let mut hits: Vec<String> = Vec::new();
    if let Some(f) = &response.query {
        let ghost ids = f@.hits.map_values(|x: HitModel| x.id);
        let mut i: usize = 0;
        assert(texts(hits@) =~= ids.take(0));
        while i < f.hits.len()
            invariant
                i <= f.hits.len(),
                ids == f@.hits.map_values(|x: HitModel| x.id),
                texts(hits@) == ids.take(i as int),
            decreases f.hits.len() - i,
        {
            let ghost now = texts(hits@);
            hits.push(f.hits[i].id.clone());
            assert(f@.hits[i as int] == f.hits@[i as int]@);
            assert(ids[i as int] == f.hits@[i as int].id@);
            assert(texts(hits@) =~= now.push(ids[i as int]));
            assert(ids.take(i + 1) =~= ids.take(i as int).push(ids[i as int]));
            i += 1;
        }
        assert(ids.take(ids.len() as int) =~= ids);
    } else {
        assert(texts(hits@) =~= Seq::empty());
    }
    let line = query_headline(query, text);
    let summary = if response.ok {
        line
    } else {
        match &response.query {
            Some(f) => pick(&response.error, &f.error, &line),
            None => pick(&response.error, &None, &line),
        }
    };
    Summary { op: "query".to_owned(), summary, revision: None, hits }
}

fn summarize_status(response: &MailboxResponse) -> (r: Summary)
    ensures
        r@ == status_summary(*response),
{
    match &response.status {
        Some(s) => plain("status", count_line(s.revision, s.entity_count), Some(s.revision)),
        None => plain("status", pick(&response.error, &None, "status"), None),
    }
}

fn summarize_inspect(response: &MailboxResponse) -> (r: Summary)
    ensures
        r@ == inspect_summary(*response),
{
    let (revision, n): (Option<u64>, usize) = match &response.document {
        Some(d) => (Some(d.revision), d.entity_count()),
        None => (None, 0),
    };
    let summary = if response.ok {
        count_line(
            match revision {
                Some(v) => v,
                None => 0,
            },
            n,
        )
    } else {
        pick(&response.error, &None, "inspect failed")
    };
    plain("inspect", summary, revision)
}

fn summarize_history(action: HistoryAction, response: &MailboxResponse) -> (r: Summary)
    ensures
        r@ == history_summary(action, *response),
{
    match &response.history {
        Some(x) => {
            let summary = if x.ok {
                let word = match action {
                    HistoryAction::List => "List",
                    HistoryAction::Undo => "Undo",
                    HistoryAction::Redo => "Redo",
                };
                let head = cat4(word, " rev=", &decimal(x.revision), " undo=");
                cat4(
                    &head,
                    &decimal(x.undo_depth as u64),
                    " redo=",
                    &decimal(x.redo_depth as u64),
                )
            } else {
                pick(&response.error, &x.error, "history")
            };
            plain("history", summary, Some(x.revision))
        },
        None => plain("history", pick(&response.error, &None, "history"), None),
    }
}

fn summarize_project(action: ProjectAction, response: &MailboxResponse) -> (r: Summary)
    ensures
        r@ == project_summary(action, *response),
{
    match &response.project {
        Some(x) => {
            let summary = if x.ok {
                let word = match action {
                    ProjectAction::List => "List",
                    ProjectAction::Save => "Save",
                    ProjectAction::Open => "Open",
                    ProjectAction::Create => "Create",
                };
                cat3(word, " ", &x.path)
            } else {
                pick(&response.error, &None, "project")
            };
            plain("project", summary, Some(x.revision))
        },
        None => plain("project", pick(&response.error, &None, "project"), None),
    }
}

fn summarize_render(response: &MailboxResponse) -> (r: Summary)
    ensures
        r@ == render_summary(*response),
{
    match &response.render {
        Some(x) => {
            let summary = if x.ok {
                let head = cat4(&x.path, " ", &decimal(x.width as u64), "x");
                cat4(&head, &decimal(x.height as u64), " cam=", &x.camera)
            } else {
                pick(&response.error, &None, "render")
            };
            plain("render", summary, Some(x.revision))
        },
        None => plain("render", pick(&response.error, &None, "render"), None),
    }
}

/// An exchange in a few words, with the revision and the hits that it brought.
pub fn summarize<T: Fn(Real, u8) -> String>(
    request: &MailboxRequest,
    response: &MailboxResponse,
    text: &T,
) -> (r: Summary)
    requires
        writes(*text),
    ensures
        forall|h: spec_fn(Real, u8) -> Seq<char>| #[trigger]
            shows(*text, h) ==> r@ == summarized(*request, *response, h),
{
    match request {
        MailboxRequest::Status => summarize_status(response),
        MailboxRequest::Inspect { .. } => summarize_inspect(response),
        MailboxRequest::Query { query } => summarize_query(query, response, text),
        MailboxRequest::Apply { request } => {
            let revision = match &response.apply {
                Some(a) => Some(a.revision),
                None => None,
            };
            plain("apply", summarize_apply(request, response, text), revision)
        },
        MailboxRequest::History { action } => summarize_history(*action, response),
        MailboxRequest::Project { action, .. } => summarize_project(*action, response),
        MailboxRequest::Render { .. } => summarize_render(response),
        MailboxRequest::Camera { mode, frame, .. } => {
            let framing = match frame {
                Some(f) => f.len() > 0,
                None => false,
            };
            if framing {
                plain("camera", "frame".to_owned(), None)
            } else {
                plain("camera", pick(mode, &None, "camera"), None)
            }
        },
        MailboxRequest::Catalog => plain("catalog", "live_ops".to_owned(), None),
        MailboxRequest::Play { action, .. } => plain("play", action.clone(), None),
        MailboxRequest::Rtx { .. } => plain("rtx", "lifecycle".to_owned(), None),
        MailboxRequest::Export { path } => plain("export", pick(path, &None, DEFAULT_PATH), None),
        MailboxRequest::Validate => {
            let n: u64 = match &response.validate {
                Some(v) => v.diagnostics.len() as u64,
                None => 0,
            };
            let word = if response.ok {
                "true"
            } else {
                "false"
            };
            plain("validate", cat4("ok=", word, " diags=", &decimal(n)), None)
        },
        MailboxRequest::Import { path } => {
            let revision = match &response.import {
                Some(i) => Some(i.revision),
                None => None,
            };
            plain("import", pick(path, &None, DEFAULT_PATH), revision)
        },
        MailboxRequest::Cycles { action, .. } => plain("cycles", action.clone(), None),
    }
}

/// The event that an exchange leaves in the feed.
pub open spec fn exchange_event(s: SummaryModel, ok: bool, elapsed_ms: Real, at: u64) -> EventModel {
    EventModel {
        op: s.op,
        ok,
        elapsed_ms,
        revision: s.revision,
        summary: s.summary,
        hits: s.hits,
        at,
    }
}

impl MailboxFeed {
    /// Adds a card about a request and its response.
    pub fn record_exchange<T: Fn(Real, u8) -> String>(
        &mut self,
        request: &MailboxRequest,
        response: &MailboxResponse,
        elapsed_ms: Real,
        at: u64,
        text: &T,
    )
        requires
            writes(*text),
        ensures
            forall|h: spec_fn(Real, u8) -> Seq<char>| #[trigger]
                shows(*text, h) ==> final(self)@ == old(self)@.told(
                    exchange_event(
                        summarized(*request, *response, h),
                        response.ok,
                        elapsed_ms,
                        at,
                    ),
                ),
    {
        let s = summarize(request, response, text);
        self.push(
            FeedEvent {
                op: s.op,
                ok: response.ok,
                elapsed_ms,
                revision: s.revision,
                summary: s.summary,
                hits: s.hits,
                at,
            },
        );
    }
}

/// The feed after a series of events.
pub open spec fn told_all(f: FeedModel, events: Seq<EventModel>) -> FeedModel
    decreases events.len(),
{
    if events.len() == 0 {
        f
    } else {
        told_all(f, events.drop_last()).told(events.last())
    }
}

/// However much happens, the feed holds at most its capacity, and its last event is the last
/// one that was no ping.
pub proof fn feed_stays_bounded(f: FeedModel, events: Seq<EventModel>)
    requires
        f.bounded(),
    ensures
        told_all(f, events).bounded(),
        events.len() > 0 && events.last().op != "ping"@ ==> told_all(f, events).events.len() > 0
            && told_all(f, events).events.last() == events.last(),
    decreases events.len(),
{
    if events.len() > 0 {
        feed_stays_bounded(f, events.drop_last());
    }
}

/// A ping leaves no trace: neither a card nor a new stamp.
pub proof fn pings_leave_no_trace(f: FeedModel, events: Seq<EventModel>)
    requires
        forall|i: int| 0 <= i < events.len() ==> (#[trigger] events[i]).op == "ping"@,
    ensures
        told_all(f, events) == f,
    decreases events.len(),
{
    if events.len() > 0 {
        pings_leave_no_trace(f, events.drop_last());
    }
}

/// Told events that are no pings, an empty feed keeps the last ones in order, as many as it
/// has room for.
pub proof fn feed_keeps_the_newest(events: Seq<EventModel>)
    requires
        forall|i: int| 0 <= i < events.len() ==> (#[trigger] events[i]).op != "ping"@,
    ensures
        told_all(FeedModel { events: Seq::empty(), seq: 0 }, events).events == newest(
            events,
            FEED_CAPACITY as int,
        ),
    decreases events.len(),
{
    let f = FeedModel { events: Seq::empty(), seq: 0 };
    if events.len() > 0 {
        let before = events.drop_last();
        feed_keeps_the_newest(before);
        assert(told_all(f, events).events =~= newest(events, FEED_CAPACITY as int));
    } else {
        assert(events =~= Seq::empty());
    }
}

} // verus!
