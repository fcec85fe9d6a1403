//! The mailbox: what can be asked for, and what each request is answered.

use crate::apply::{forecasts, reply, verdict, ApplyRequest, ApplyResult, Verdict};
use crate::beauty::{
    digest_in, last_digest, measurable, recorded, BeautyDigest, BeautyFrame, Evidence,
    PixelForecast, RenderResult, DEFAULT_HEIGHT, DEFAULT_WIDTH, IdBuffer,
};
use crate::camera::{authored_look, frame_authored, framed, ViewMode, ViewportCameras};
use crate::capabilities::{live, supported, Capabilities};
use crate::catalog;
use crate::cycles_stream::CyclesStatus;
use crate::document::{
    bootstrap_model, inspected, world_place, Document, DocumentModel, InspectSummary,
};
use crate::export::{ExportResult, DEFAULT_PATH};
use crate::json::Json;
use crate::light::SceneLight;
use crate::numeric::{
    answers, computes, encoded, origin, shows, writes, zero, Answer, Calc, Real, Vec3,
};
use crate::play::{self, played, PlayState};
use crate::query::{answered, passes, pixel_answer, run_query, sized, QueryResult, QuerySpec};
use crate::rtx::{self, after_request, RtxState};
use crate::store::{
    DocumentStore, HistoryResult, ImportResult, ProjectModel, ProjectResult, StoreModel,
};
use crate::text::{cat2, copy_text, lower, lowered, same, text_in, texts};
use crate::validate::{diag_views, diagnosed, ValidateResult};
use vstd::prelude::*;

verus! {

/// The name of the local socket.
pub const DEFAULT_LOCAL_NAME: &'static str = "thinner-floor";

#[allow(inconsistent_fields)]
#[derive(Debug, PartialEq)]
pub enum MailboxRequest {
    Status,
    /// A part of the document: `summary`, `catalog` or `evidence`; anything else is all of it.
    Inspect { slice: Option<String> },
    Apply { request: ApplyRequest },
    Query { query: QuerySpec },
    History { action: HistoryAction },
    Project { action: ProjectAction, path: Option<String> },
    Render { width: Option<u32>, height: Option<u32> },
    Camera {
        mode: Option<String>,
        review_eye: Option<Vec3>,
        review_target: Option<Vec3>,
        frame: Option<Vec<String>>,
    },
    Catalog,
    Play { action: String, time: Option<Real> },
    Rtx { requested: Option<bool> },
    Export { path: Option<String> },
    Validate,
    Import { path: Option<String> },
    Cycles {
        action: String,
        samples: Option<u32>,
        width: Option<u32>,
        height: Option<u32>,
    },
}

#[derive(Clone, Copy, Debug, PartialEq, Eq, Structural)]
pub enum HistoryAction {
    List,
    Undo,
    Redo,
}

#[derive(Clone, Copy, Debug, PartialEq, Eq, Structural)]
pub enum ProjectAction {
    List,
    Save,
    Open,
    Create,
}

#[derive(Debug, PartialEq)]
pub struct StatusPayload {
    pub revision: u64,
    pub entity_count: usize,
    pub scene_count: usize,
    pub document_path: String,
    pub mailbox: String,
    pub local_mailbox: String,
    pub capabilities: Capabilities,
    pub auth: String,
    pub undo_depth: usize,
    pub redo_depth: usize,
    pub latest_evidence: Option<BeautyDigest>,
    pub viewport: ViewportCameras,
    pub light: SceneLight,
}

#[derive(Debug, PartialEq)]
pub struct MailboxResponse {
    pub ok: bool,
    pub error: Option<String>,
    pub status: Option<StatusPayload>,
    pub document: Option<Document>,
    pub inspect_summary: Option<InspectSummary>,
    pub apply: Option<ApplyResult>,
    pub query: Option<QueryResult>,
    pub history: Option<HistoryResult>,
    pub project: Option<ProjectResult>,
    pub render: Option<RenderResult>,
    pub evidence: Option<BeautyDigest>,
    pub catalog: Option<Json>,
    pub play: Option<PlayState>,
    pub rtx: Option<RtxState>,
    pub export: Option<ExportResult>,
    pub validate: Option<ValidateResult>,
    pub import: Option<ImportResult>,
    pub cycles: Option<CyclesStatus>,
}

/// A response that says yes and carries nothing.
#[verifier::allow_in_spec]
pub fn empty_ok() -> MailboxResponse
    returns
        (MailboxResponse {
            ok: true,
            error: None,
            status: None,
            document: None,
            inspect_summary: None,
            apply: None,
            query: None,
            history: None,
            project: None,
            render: None,
            evidence: None,
            catalog: None,
            play: None,
            rtx: None,
            export: None,
            validate: None,
            import: None,
            cycles: None,
        }),
{
    MailboxResponse {
        ok: true,
        error: None,
        status: None,
        document: None,
        inspect_summary: None,
        apply: None,
        query: None,
        history: None,
        project: None,
        render: None,
        evidence: None,
        catalog: None,
        play: None,
        rtx: None,
        export: None,
        validate: None,
        import: None,
        cycles: None,
    }
}

impl MailboxResponse {
    /// The response turns a request down and carries nothing else.
    pub open spec fn refuses(self, error: Seq<char>) -> bool {
        &&& text_in(self.error) == Some(error)
        &&& self == (MailboxResponse { ok: false, error: self.error, ..empty_ok() })
    }

    pub fn bad(error: String) -> (r: Self)
        ensures
            r.refuses(error@),
    {
        let mut r = empty_ok();
        r.ok = false;
        r.error = Some(error);
        r
    }
}

/// Everything that requests act on.
#[derive(Debug)]
pub struct Studio {
    pub store: DocumentStore,
    pub cameras: ViewportCameras,
    pub play: PlayState,
    pub rtx: RtxState,
    pub evidence: Evidence,
}

impl Studio {
    /// The playhead can be sought, the kept frame can be compared, and ray tracing is not
    /// active.
    pub open spec fn ready(self) -> bool {
        self.play.seekable() && self.evidence.usable() && !self.rtx.active
    }

    pub fn new(store: DocumentStore) -> (r: Self)
        ensures
            r.store == store,
            r.cameras == (ViewportCameras {
                authored: authored_look(),
                review: authored_look(),
                mode: ViewMode::Authored,
            }),
            r.play == (PlayState {
                playing: false,
                paused: false,
                time: zero(),
                duration: encoded(0x4120_0000),
            }),
            r.rtx == (RtxState {
                supported: false,
                requested: false,
                configured: false,
                building: false,
                active: false,
                stale: false,
                failed: false,
            }),
            r.evidence.frame is None,
            r.evidence.digest is None,
            r.ready(),
    {
        Studio {
            store,
            cameras: ViewportCameras::new(),
            play: PlayState::default(),
            rtx: RtxState::default(),
            evidence: Evidence::new(),
        }
    }
}

impl StatusPayload {
    /// The payload tells how a studio stands.
    pub open spec fn reports(self, s: Studio, mailbox: Seq<char>, installed: bool) -> bool {
        &&& self.revision == s.store@.document.revision
        &&& self.entity_count == s.store@.document.count()
        &&& self.scene_count == s.store@.document.scenes.len()
        &&& self.document_path@ == s.store@.path
        &&& self.mailbox@ == mailbox
        &&& self.local_mailbox@ == DEFAULT_LOCAL_NAME@
        &&& self.capabilities == supported(installed, s.rtx)
        &&& self.auth@ == "token"@
        &&& self.undo_depth == s.store@.undo.len()
        &&& self.redo_depth == s.store@.redo.len()
        &&& digest_in(self.latest_evidence) == digest_in(s.evidence.digest)
        &&& self.viewport == s.cameras
        &&& self.light == s.store@.document.light
    }
}

/// A response that tells how a studio stands.
pub open spec fn tells_status(
    r: MailboxResponse,
    s: Studio,
    mailbox: Seq<char>,
    installed: bool,
) -> bool {
    &&& r == (MailboxResponse { status: r.status, ..empty_ok() })
    &&& r.status matches Some(p) && p.reports(s, mailbox, installed)
}

fn copy_digest(o: Option<&BeautyDigest>) -> (r: Option<BeautyDigest>)
    ensures
        match o {
            Some(d) => r matches Some(c) && c@ == d@,
            None => r is None,
        },
{
    match o {
        Some(d) => Some(d.clone()),
        None => None,
    }
}

fn answer_status(s: &Studio, mailbox: &str, installed: bool) -> (r: MailboxResponse)
    ensures
        tells_status(r, *s, mailbox@, installed),
{
    let doc = s.store.live_document();
    assert(doc@.scenes.len() == doc.scenes.len());
    let mut r = empty_ok();
    r.status = Some(
        StatusPayload {
            revision: doc.revision,
            entity_count: doc.entity_count(),
            scene_count: doc.scenes.len(),
            document_path: s.store.live_path().clone(),
            mailbox: mailbox.to_owned(),
            local_mailbox: DEFAULT_LOCAL_NAME.to_owned(),
            capabilities: live(installed, &s.rtx),
            auth: "token".to_owned(),
            undo_depth: s.store.undo_depth(),
            redo_depth: s.store.redo_depth(),
            latest_evidence: copy_digest(last_digest(&s.evidence)),
            viewport: s.cameras,
            light: doc.light,
        },
    );
    r
}

/// The slice that an inspection asks for, without regard to case.
pub open spec fn slice_of(slice: Option<Seq<char>>) -> Seq<char> {
    match slice {
        Some(k) => lowered(k),
        None => "full"@,
    }
}

/// A response to an inspection of a studio.
pub open spec fn tells_slice(
    r: MailboxResponse,
    s: Studio,
    kind: Seq<char>,
    g: spec_fn(Calc) -> Answer,
) -> bool {
    let d = s.store@.document;
    if kind == "summary"@ {
        &&& r == (MailboxResponse { inspect_summary: r.inspect_summary, ..empty_ok() })
        &&& r.inspect_summary matches Some(i) && {
            &&& i.revision == d.revision
            &&& i.entity_count == d.count()
            &&& i.entities.len() == d.entities().len()
            &&& forall|k: int|
                0 <= k < i.entities.len() ==> (#[trigger] i.entities@[k])@ == inspected(
                    d,
                    d.entities()[k],
                    g,
                )
        }
    } else if kind == "catalog"@ {
        tells_catalog(r)
    } else if kind == "evidence"@ {
        match s.evidence.digest {
            None => r.refuses("no_evidence"@),
            Some(e) => {
                &&& r == (MailboxResponse { evidence: r.evidence, ..empty_ok() })
                &&& r.evidence matches Some(c) && c@ == e@
            },
        }
    } else {
        &&& r == (MailboxResponse { document: r.document, ..empty_ok() })
        &&& r.document matches Some(c) && c@ == d
    }
}

/// A response that carries the catalog.
pub open spec fn tells_catalog(r: MailboxResponse) -> bool {
    &&& r == (MailboxResponse { catalog: r.catalog, ..empty_ok() })
    &&& r.catalog matches Some(c) && c@ == catalog::catalog_model()
}

fn answer_catalog() -> (r: MailboxResponse)
    ensures
        tells_catalog(r),
{
    let mut r = empty_ok();
    r.catalog = Some(catalog::live());
    r
}

fn answer_inspect<F: Fn(Calc) -> Answer>(s: &Studio, slice: &Option<String>, calc: &F) -> (r:
    MailboxResponse)
    requires
        answers(*calc),
    ensures
        forall|g: spec_fn(Calc) -> Answer| #[trigger]
            computes(*calc, g) ==> tells_slice(r, *s, slice_of(text_in(*slice)), g),
{
    let kind = match slice {
        Some(k) => lower(k),
        None => "full".to_owned(),
    };
    let doc = s.store.live_document();
    if same(&kind, "summary") {
        let mut r = empty_ok();
        r.inspect_summary = Some(doc.inspect_summary(calc));
        r
    } else if same(&kind, "catalog") {
        answer_catalog()
    } else if same(&kind, "evidence") {
        match last_digest(&s.evidence) {
            None => MailboxResponse::bad("no_evidence".to_owned()),
            Some(d) => {
                let mut r = empty_ok();
                r.evidence = Some(d.clone());
                r
            },
        }
    } else {
        let mut r = empty_ok();
        r.document = Some(doc.clone());
        r
    }
}

/// The places of the entities that are in the document, in the order they are named.
pub open spec fn places(
    d: DocumentModel,
    ids: Seq<Seq<char>>,
    g: spec_fn(Calc) -> Answer,
) -> Seq<Vec3>
    decreases ids.len(),
{
    if ids.len() == 0 {
        Seq::empty()
    } else {
        let before = places(d, ids.drop_last(), g);
        match world_place(d, ids.last(), g) {
            Some(p) => before.push(p),
            None => before,
        }
    }
}

pub open spec fn total(points: Seq<Vec3>, n: int, g: spec_fn(Calc) -> Answer) -> Vec3
    decreases n,
{
    if n <= 0 {
        origin()
    } else {
        g(Calc::Sum(total(points, n - 1, g), points[n - 1])).point
    }
}

/// The largest distance of the first `n` points from a centre.
pub open spec fn reach(points: Seq<Vec3>, c: Vec3, n: int, g: spec_fn(Calc) -> Answer) -> Real
    decreases n,
{
    if n <= 0 {
        zero()
    } else {
        reach(points, c, n - 1, g).greater_of(g(Calc::Distance(points[n - 1], c)).value)
    }
}

pub open spec fn centroid(points: Seq<Vec3>, g: spec_fn(Calc) -> Answer) -> Vec3 {
    g(Calc::Shrink(total(points, points.len() as int, g), points.len() as u64)).point
}

/// The cameras once the authored one frames the named entities, half a unit to spare.
pub open spec fn framed_on(
    c: ViewportCameras,
    d: DocumentModel,
    ids: Seq<Seq<char>>,
    g: spec_fn(Calc) -> Answer,
) -> ViewportCameras {
    let points = places(d, ids, g);
    if points.len() == 0 {
        c
    } else {
        let center = centroid(points, g);
        let far = reach(points, center, points.len() as int, g);
        framed(c, center, g(Calc::Add(far, encoded(0x3f00_0000))).value, g)
    }
}

fn find_places<F: Fn(Calc) -> Answer>(doc: &Document, ids: &Vec<String>, calc: &F) -> (r: Vec<
    Vec3,
>)
    requires
        answers(*calc),
    ensures
        r.len() <= ids.len(),
        forall|g: spec_fn(Calc) -> Answer| #[trigger]
            computes(*calc, g) ==> r@ == places(doc@, texts(ids@), g),
{
    let mut out: Vec<Vec3> = Vec::new();
    let mut i: usize = 0;
    while i < ids.len()
        invariant
            i <= ids.len(),
            out.len() <= i,
            answers(*calc),
            forall|g: spec_fn(Calc) -> Answer| #[trigger]
                computes(*calc, g) ==> out@ == places(doc@, texts(ids@).take(i as int), g),
        decreases ids.len() - i,
    {
        proof {
            let more = texts(ids@).take(i + 1);
            assert(more.drop_last() =~= texts(ids@).take(i as int));
            assert(more.last() == ids@[i as int]@);
        }
        if let Some(p) = doc.world_translation(&ids[i], calc) {
            out.push(p);
        }
        i += 1;
    }
    assert(texts(ids@).take(ids@.len() as int) =~= texts(ids@));
    out
}

fn frame_ids<F: Fn(Calc) -> Answer>(
    cameras: &mut ViewportCameras,
    doc: &Document,
    ids: &Vec<String>,
    calc: &F,
)
    requires
        answers(*calc),
    ensures
        final(cameras).review == old(cameras).review,
        final(cameras).mode == old(cameras).mode,
        forall|g: spec_fn(Calc) -> Answer| #[trigger]
            computes(*calc, g) ==> *final(cameras) == framed_on(
                *old(cameras),
                doc@,
                texts(ids@),
                g,
            ),
{
    let points = find_places(doc, ids, calc);
    if points.len() == 0 {
        return;
    }
    let mut sum = origin();
    let mut i: usize = 0;
    while i < points.len()
        invariant
            i <= points.len(),
            answers(*calc),
            forall|g: spec_fn(Calc) -> Answer| #[trigger]
                computes(*calc, g) ==> sum == total(points@, i as int, g),
        decreases points.len() - i,
    {
        sum = calc(Calc::Sum(sum, points[i])).point;
        i += 1;
    }
    let center = calc(Calc::Shrink(sum, points.len() as u64)).point;
    let mut far = zero();
    let mut k: usize = 0;
    while k < points.len()
        invariant
            k <= points.len(),
            answers(*calc),
            forall|g: spec_fn(Calc) -> Answer| #[trigger]
                computes(*calc, g) ==> far == reach(points@, center, k as int, g),
        decreases points.len() - k,
    {
        far = far.max(calc(Calc::Distance(points[k], center)).value);
        k += 1;
    }
    let radius = calc(Calc::Add(far, encoded(0x3f00_0000))).value;
    frame_authored(cameras, center, radius, calc);
}

/// The cameras in a mode, if it is one.
pub open spec fn switched(c: ViewportCameras, mode: Option<Seq<char>>) -> Result<
    ViewportCameras,
    Seq<char>,
> {
    match mode {
        None => Ok(c),
        Some(m) => if m == "authored"@ {
            Ok(ViewportCameras { mode: ViewMode::Authored, ..c })
        } else if m == "review"@ {
            Ok(ViewportCameras { mode: ViewMode::Review, ..c })
        } else {
            Err("unknown_view_mode:"@ + m)
        },
    }
}

/// The cameras with the review camera moved.
pub open spec fn reviewed(
    c: ViewportCameras,
    eye: Option<Vec3>,
    target: Option<Vec3>,
) -> ViewportCameras {
    ViewportCameras {
        review: crate::camera::LookAt {
            eye: match eye {
                Some(e) => e,
                None => c.review.eye,
            },
            target: match target {
                Some(t) => t,
                None => c.review.target,
            },
            ..c.review
        },
        ..c
    }
}

/// The cameras after a camera request: framing is kept even where the mode is unknown.
pub open spec fn directed(
    c: ViewportCameras,
    d: DocumentModel,
    mode: Option<Seq<char>>,
    eye: Option<Vec3>,
    target: Option<Vec3>,
    ids: Seq<Seq<char>>,
    g: spec_fn(Calc) -> Answer,
) -> ViewportCameras {
    let f = framed_on(c, d, ids, g);
    match switched(f, mode) {
        Ok(m) => reviewed(m, eye, target),
        Err(_) => f,
    }
}

pub open spec fn ids_in(frame: Option<Vec<String>>) -> Seq<Seq<char>> {
    match frame {
        Some(v) => texts(v@),
        None => Seq::empty(),
    }
}

fn switch_mode(c: &mut ViewportCameras, mode: &Option<String>) -> (r: Result<(), String>)
    ensures
        match r {
            Ok(_) => switched(*old(c), text_in(*mode)) == Ok::<ViewportCameras, Seq<char>>(
                *final(c),
            ),
            Err(e) => switched(*old(c), text_in(*mode)) == Err::<ViewportCameras, Seq<char>>(e@)
                && *final(c) == *old(c),
        },
{
    if let Some(m) = mode {
        if same(m, "authored") {
            c.mode = ViewMode::Authored;
        } else if same(m, "review") {
            c.mode = ViewMode::Review;
        } else {
            return Err(cat2("unknown_view_mode:", m));
        }
    }
    Ok(())
}

fn move_review(c: &mut ViewportCameras, eye: &Option<Vec3>, target: &Option<Vec3>)
    ensures
        *final(c) == reviewed(*old(c), *eye, *target),
{
    if let Some(e) = eye {
        c.review.eye = *e;
    }
    if let Some(t) = target {
        c.review.target = *t;
    }
}

fn answer_camera<F: Fn(Calc) -> Answer>(
    s: &mut Studio,
    mode: &Option<String>,
    review_eye: &Option<Vec3>,
    review_target: &Option<Vec3>,
    frame: &Option<Vec<String>>,
    mailbox: &str,
    installed: bool,
    calc: &F,
) -> (r: MailboxResponse)
    requires
        answers(*calc),
    ensures
        *final(s) == (Studio { cameras: final(s).cameras, ..*old(s) }),
        forall|g: spec_fn(Calc) -> Answer| #[trigger]
            computes(*calc, g) ==> final(s).cameras == directed(
                old(s).cameras,
                old(s).store@.document,
                text_in(*mode),
                *review_eye,
                *review_target,
                ids_in(*frame),
                g,
            ),
        match switched(old(s).cameras, text_in(*mode)) {
            Ok(_) => tells_status(r, *final(s), mailbox@, installed),
            Err(e) => r.refuses(e),
        },
{
    let mut cameras = s.cameras;
    if let Some(ids) = frame {
        frame_ids(&mut cameras, s.store.live_document(), ids, calc);
    }
    let outcome = switch_mode(&mut cameras, mode);
    if let Err(e) = outcome {
        s.cameras = cameras;
        return MailboxResponse::bad(e);
    }
    move_review(&mut cameras, review_eye, review_target);
    s.cameras = cameras;
    answer_status(s, mailbox, installed)
}

/// What the Cycles sidecar is asked to do.
#[derive(Debug, PartialEq)]
pub enum CyclesCommand {
    Start { samples: u32, width: u32, height: u32 },
    Pause,
    Resume,
    Stop,
    Status,
    /// Nothing: there is no such action.
    Unknown { action: String },
}

/// What has to happen outside before a request can be answered.
#[derive(Debug, PartialEq)]
pub enum Task {
    /// Write the live document to its path.
    Save {
        /// The answer once it is written.
        response: MailboxResponse,
        /// Whether a showing Cycles overlay has to follow.
        refresh: bool,
        /// What precedes the message if writing fails.
        failure: String,
    },
    /// Read the document at a path; where there is none, write a fresh one.
    Open { path: String },
    /// Write a fresh document to a path, unless something is there.
    Create { path: String },
    /// Draw the live document and write the picture.
    Render { width: u32, height: u32 },
    /// Write the live document as glTF.
    Export { path: String },
    /// Read a glTF file.
    Import { path: String },
    Cycles { command: CyclesCommand },
}

/// How far a request has got.
#[derive(Debug, PartialEq)]
pub enum Step {
    Done { response: MailboxResponse },
    Todo { task: Task },
}

/// An answer, and whether a showing Cycles overlay has to follow the live document.
#[derive(Debug, PartialEq)]
pub struct Closing {
    pub response: MailboxResponse,
    pub refresh: bool,
}

impl Step {
    /// The request is answered.
    pub open spec fn answers(self, response: MailboxResponse) -> bool {
        self == (Step::Done { response })
    }

    /// The request is answered once the document is saved; the overlay may have to follow.
    pub open spec fn saves(
        self,
        response: MailboxResponse,
        refresh: bool,
        failure: Seq<char>,
    ) -> bool {
        self matches Step::Todo { task: Task::Save { response: p, refresh: f, failure: e } } && p
            == response && f == refresh && e@ == failure
    }

    /// The answer that goes out, now or after saving.
    pub open spec fn response(self) -> MailboxResponse {
        match self {
            Step::Done { response } => response,
            Step::Todo { task: Task::Save { response, .. } } => response,
            _ => empty_ok(),
        }
    }
}

/// A response carries the result of an apply request and nothing else. Only a preview that was
/// made now has a forecast.
pub open spec fn tells_apply(r: MailboxResponse) -> bool {
    &&& r.apply matches Some(a) && r == (MailboxResponse {
        ok: a.ok,
        error: a.error,
        apply: r.apply,
        ..empty_ok()
    })
    &&& r.apply->0.pixel_forecast is Some ==> {
        let a = r.apply->0;
        a.ok && a.dry_run && !a.idempotent
    }
}

/// What becomes of an apply request in a store.
pub open spec fn applies(
    before: StoreModel,
    after: StoreModel,
    request: ApplyRequest,
    r: Step,
    g: spec_fn(Calc) -> Answer,
) -> bool {
    let v = verdict(before.document, request, g);
    &&& after == before.applied(request, v)
    &&& tells_apply(r.response())
    &&& r.response().apply matches Some(a) && a@ == reply(before.document.revision, request, v)
    &&& match v {
        Verdict::Committed(_) => r.saves(r.response(), true, "io:"@),
        _ => r.answers(r.response()),
    }
}

fn save(response: MailboxResponse, refresh: bool, failure: &str) -> (r: Step)
    ensures
        r.saves(response, refresh, failure@),
        r.response() == response,
{
    Step::Todo { task: Task::Save { response, refresh, failure: failure.to_owned() } }
}

fn step_apply<F: Fn(Calc) -> Answer, R: Fn(&Document, &Document) -> Option<PixelForecast>>(
    store: &mut DocumentStore,
    request: &ApplyRequest,
    calc: &F,
    forecast: &R,
) -> (r: Step)
    requires
        answers(*calc),
        forecasts(*forecast),
    ensures
        forall|g: spec_fn(Calc) -> Answer| #[trigger]
            computes(*calc, g) ==> {
                &&& applies(old(store)@, final(store)@, *request, r, g)
                &&& verdict(old(store)@.document, *request, g) matches Verdict::Previewed(w)
                    ==> exists|after: Document|
                    after@ == w && #[trigger] call_ensures(
                        *forecast,
                        (&old(store).live(), &after),
                        r.response().apply->Some_0.pixel_forecast,
                    )
            },
        tells_apply(r.response()),
        r is Done ==> final(store)@ == old(store)@,
{
    let result = store.apply(request, calc, forecast);
    let refresh = result.commits();
    let mut p = empty_ok();
    p.ok = result.ok;
    p.error = copy_text(&result.error);
    p.apply = Some(result);
    if refresh {
        save(p, true, "io:")
    } else {
        Step::Done { response: p }
    }
}

pub open spec fn tells_query(r: MailboxResponse) -> bool {
    r.query matches Some(q) && r == (MailboxResponse {
        ok: q.ok,
        error: q.error,
        query: r.query,
        ..empty_ok()
    })
}

pub open spec fn tells_history(r: MailboxResponse) -> bool {
    r.history matches Some(h) && r == (MailboxResponse {
        ok: h.ok,
        error: h.error,
        history: r.history,
        ..empty_ok()
    })
}

pub open spec fn tells_project(r: MailboxResponse) -> bool {
    r.project matches Some(p) && r == (MailboxResponse {
        ok: p.ok,
        error: p.error,
        project: r.project,
        ..empty_ok()
    })
}

fn with_history(h: HistoryResult) -> (r: MailboxResponse)
    ensures
        tells_history(r),
        r.history == Some(h),
{
    let mut p = empty_ok();
    p.ok = h.ok;
    p.error = copy_text(&h.error);
    p.history = Some(h);
    p
}

fn with_project(q: ProjectResult) -> (r: MailboxResponse)
    ensures
        tells_project(r),
        r.project == Some(q),
{
    let mut p = empty_ok();
    p.ok = q.ok;
    p.error = copy_text(&q.error);
    p.project = Some(q);
    p
}

/// What becomes of a history request in a store.
pub open spec fn rewinds(
    before: StoreModel,
    after: StoreModel,
    action: HistoryAction,
    r: Step,
) -> bool {
    &&& tells_history(r.response())
    &&& r.response().history matches Some(h) && match action {
        HistoryAction::List => {
            &&& after == before
            &&& h@ == before.history(true, ""@, "list"@, None)
            &&& r.answers(r.response())
        },
        HistoryAction::Undo => {
            &&& after == before.undone()
            &&& if before.undo.len() == 0 {
                &&& h@ == before.history(false, "undo"@, "undo"@, Some("empty_undo"@))
                &&& r.answers(r.response())
            } else {
                &&& h@ == after.history(true, "undo"@, "undo"@, None)
                &&& r.saves(r.response(), true, "io:"@)
            }
        },
        HistoryAction::Redo => {
            &&& after == before.redone()
            &&& if before.redo.len() == 0 {
                &&& h@ == before.history(false, "redo"@, "redo"@, Some("empty_redo"@))
                &&& r.answers(r.response())
            } else {
                &&& h@ == after.history(true, "redo"@, "redo"@, None)
                &&& r.saves(r.response(), true, "io:"@)
            }
        },
    }
}

fn step_history(store: &mut DocumentStore, action: HistoryAction) -> (r: Step)
    ensures
        rewinds(old(store)@, final(store)@, action, r),
{
    let result = match action {
        HistoryAction::List => store.history_list(),
        HistoryAction::Undo => store.undo(),
        HistoryAction::Redo => store.redo(),
    };
    let ok = result.ok;
    let p = with_history(result);
    match action {
        HistoryAction::List => Step::Done { response: p },
        _ => if ok {
            save(p, true, "io:")
        } else {
            Step::Done { response: p }
        },
    }
}

/// What a project request leads to. It leaves the store as it is until its task is done.
pub open spec fn arranges(
    store: StoreModel,
    action: ProjectAction,
    path: Option<Seq<char>>,
    r: Step,
) -> bool {
    match action {
        ProjectAction::List => {
            &&& tells_project(r.response())
            &&& r.response().project matches Some(p) && p@ == store.project("list"@)
            &&& r.answers(r.response())
        },
        ProjectAction::Save => {
            &&& tells_project(r.response())
            &&& r.response().project matches Some(p) && p@ == store.project("save"@)
            &&& r.saves(r.response(), false, "io:"@)
        },
        ProjectAction::Open => match path {
            None => r.answers(r.response()) && r.response().refuses("project_open_needs_path"@),
            Some(t) => r matches Step::Todo { task: Task::Open { path: q } } && q@ == t,
        },
        ProjectAction::Create => match path {
            None => r.answers(r.response()) && r.response().refuses("project_create_needs_path"@),
            Some(t) => r matches Step::Todo { task: Task::Create { path: q } } && q@ == t,
        },
    }
}

fn step_project(store: &DocumentStore, action: ProjectAction, path: &Option<String>) -> (r: Step)
    ensures
        arranges(store@, action, text_in(*path), r),
{
    match action {
        ProjectAction::List => Step::Done { response: with_project(store.project_list()) },
        ProjectAction::Save => save(with_project(store.project_save()), false, "io:"),
        ProjectAction::Open => match path {
            None => Step::Done {
                response: MailboxResponse::bad("project_open_needs_path".to_owned()),
            },
            Some(p) => Step::Todo { task: Task::Open { path: p.clone() } },
        },
        ProjectAction::Create => match path {
            None => Step::Done {
                response: MailboxResponse::bad("project_create_needs_path".to_owned()),
            },
            Some(p) => Step::Todo { task: Task::Create { path: p.clone() } },
        },
    }
}

/// A path, or the default one.
pub open spec fn path_or_default(path: Option<Seq<char>>) -> Seq<char> {
    match path {
        Some(p) => p,
        None => DEFAULT_PATH@,
    }
}

fn path_given(path: &Option<String>) -> (r: String)
    ensures
        r@ == path_or_default(text_in(*path)),
{
    match path {
        Some(p) => p.clone(),
        None => DEFAULT_PATH.to_owned(),
    }
}

/// The command that an action names.
pub open spec fn commanded(
    c: CyclesCommand,
    action: Seq<char>,
    samples: Option<u32>,
    width: Option<u32>,
    height: Option<u32>,
) -> bool {
    if action == "start"@ {
        c == (CyclesCommand::Start {
            samples: sized(samples, 64),
            width: sized(width, 960),
            height: sized(height, 640),
        })
    } else if action == "pause"@ {
        c == CyclesCommand::Pause
    } else if action == "resume"@ {
        c == CyclesCommand::Resume
    } else if action == "stop"@ {
        c == CyclesCommand::Stop
    } else if action == "status"@ {
        c == CyclesCommand::Status
    } else {
        c matches CyclesCommand::Unknown { action: a } && a@ == action
    }
}

fn or_default(v: &Option<u32>, d: u32) -> (r: u32)
    ensures
        r == sized(*v, d),
{
    match v {
        Some(x) => *x,
        None => d,
    }
}

fn cycles_command(
    action: &str,
    samples: &Option<u32>,
    width: &Option<u32>,
    height: &Option<u32>,
) -> (r: CyclesCommand)
    ensures
        commanded(r, action@, *samples, *width, *height),
{
    if same(action, "start") {
        CyclesCommand::Start {
            samples: or_default(samples, 64),
            width: or_default(width, 960),
            height: or_default(height, 640),
        }
    } else if same(action, "pause") {
        CyclesCommand::Pause
    } else if same(action, "resume") {
        CyclesCommand::Resume
    } else if same(action, "stop") {
        CyclesCommand::Stop
    } else if same(action, "status") {
        CyclesCommand::Status
    } else {
        CyclesCommand::Unknown { action: action.to_owned() }
    }
}

pub open spec fn tells_play(r: MailboxResponse, p: Result<PlayState, Seq<char>>) -> bool {
    match p {
        Ok(s) => r == (MailboxResponse { play: Some(s), ..empty_ok() }),
        Err(e) => r.refuses(e),
    }
}

pub open spec fn tells_diagnosis(r: MailboxResponse, d: DocumentModel) -> bool {
    &&& r.validate matches Some(v) && diag_views(v.diagnostics@) == diagnosed(d) && v.ok == (
    diagnosed(d).len() == 0) && r.ok == v.ok
    &&& text_in(r.error) == (if r.ok {
        None
    } else {
        Some("validate_failed"@)
    })
    &&& r == (MailboxResponse { ok: r.ok, error: r.error, validate: r.validate, ..empty_ok() })
}

fn answer_validate(doc: &Document) -> (r: MailboxResponse)
    ensures
        tells_diagnosis(r, doc@),
{
    let v = doc.validate();
    let mut r = empty_ok();
    r.ok = v.ok;
    if !v.ok {
        r.error = Some("validate_failed".to_owned());
    }
    r.validate = Some(v);
    r
}

/// Carries out a request as far as that is possible inside: it is answered, or something has
/// to happen outside first.
pub fn dispatch<
    F: Fn(Calc) -> Answer,
    T: Fn(Real, u8) -> String,
    I: Fn(&Document, u32, u32) -> Result<IdBuffer, String>,
    R: Fn(&Document, &Document) -> Option<PixelForecast>,
>(
    studio: &mut Studio,
    req: &MailboxRequest,
    mailbox: &str,
    installed: bool,
    calc: &F,
    text: &T,
    ids: &I,
    forecast: &R,
) -> (r: Step)
    requires
        old(studio).ready(),
        answers(*calc),
        writes(*text),
        passes(*ids),
        forecasts(*forecast),
    ensures
        final(studio).ready(),
        match *req {
            MailboxRequest::Status => {
                &&& *final(studio) == *old(studio)
                &&& r.answers(r.response())
                &&& tells_status(r.response(), *old(studio), mailbox@, installed)
            },
            MailboxRequest::Inspect { slice } => {
                &&& *final(studio) == *old(studio)
                &&& r.answers(r.response())
                &&& forall|g: spec_fn(Calc) -> Answer| #[trigger]
                    computes(*calc, g) ==> tells_slice(
                        r.response(),
                        *old(studio),
                        slice_of(text_in(slice)),
                        g,
                    )
            },
            MailboxRequest::Apply { request } => {
                &&& *final(studio) == (Studio { store: final(studio).store, ..*old(studio) })
                &&& tells_apply(r.response())
                &&& r is Done ==> final(studio).store@ == old(studio).store@
                &&& forall|g: spec_fn(Calc) -> Answer| #[trigger]
                    computes(*calc, g) ==> {
                        &&& applies(old(studio).store@, final(studio).store@, request, r, g)
                        &&& verdict(
                            old(studio).store@.document,
                            request,
                            g,
                        ) matches Verdict::Previewed(w) ==> exists|after: Document|
                            after@ == w && #[trigger] call_ensures(
                                *forecast,
                                (&old(studio).store.live(), &after),
                                r.response().apply->Some_0.pixel_forecast,
                            )
                    }
            },
            MailboxRequest::Query { query } => {
                &&& *final(studio) == *old(studio)
                &&& r.answers(r.response())
                &&& tells_query(r.response())
                &&& query !is Pixel ==> forall|
                    g: spec_fn(Calc) -> Answer,
                    h: spec_fn(Real, u8) -> Seq<char>,
                |
                    #![trigger computes(*calc, g), shows(*text, h)]
                    computes(*calc, g) && shows(*text, h) ==> r.response().query->Some_0@
                        == answered(old(studio).store@.document, query, g, h)
                &&& query matches QuerySpec::Pixel { x, y, width, height } ==> exists|
                    pass: Result<IdBuffer, String>,
                |
                    #[trigger] call_ensures(
                        *ids,
                        (
                            &old(studio).store.live(),
                            sized(width, DEFAULT_WIDTH),
                            sized(height, DEFAULT_HEIGHT),
                        ),
                        pass,
                    ) && r.response().query->Some_0@ == pixel_answer(pass, x, y)
            },
            MailboxRequest::History { action } => {
                &&& *final(studio) == (Studio { store: final(studio).store, ..*old(studio) })
                &&& rewinds(old(studio).store@, final(studio).store@, action, r)
            },
            MailboxRequest::Project { action, path } => {
                &&& *final(studio) == *old(studio)
                &&& arranges(old(studio).store@, action, text_in(path), r)
            },
            MailboxRequest::Render { width, height } => {
                &&& *final(studio) == *old(studio)
                &&& r == (Step::Todo {
                    task: Task::Render {
                        width: sized(width, DEFAULT_WIDTH),
                        height: sized(height, DEFAULT_HEIGHT),
                    },
                })
            },
            MailboxRequest::Camera { mode, review_eye, review_target, frame } => {
                &&& *final(studio) == (Studio { cameras: final(studio).cameras, ..*old(studio) })
                &&& r.answers(r.response())
                &&& forall|g: spec_fn(Calc) -> Answer| #[trigger]
                    computes(*calc, g) ==> final(studio).cameras == directed(
                        old(studio).cameras,
                        old(studio).store@.document,
                        text_in(mode),
                        review_eye,
                        review_target,
                        ids_in(frame),
                        g,
                    )
                &&& match switched(old(studio).cameras, text_in(mode)) {
                    Ok(_) => tells_status(r.response(), *final(studio), mailbox@, installed),
                    Err(e) => r.response().refuses(e),
                }
            },
            MailboxRequest::Catalog => {
                &&& *final(studio) == *old(studio)
                &&& r.answers(r.response())
                &&& tells_catalog(r.response())
            },
            MailboxRequest::Play { action, time } => {
                &&& *final(studio) == (Studio { play: final(studio).play, ..*old(studio) })
                &&& r.answers(r.response())
                &&& forall|g: spec_fn(Calc) -> Answer| #[trigger]
                    computes(*calc, g) ==> {
                        let p = played(old(studio).play, action@, time, g);
                        &&& tells_play(r.response(), p)
                        &&& final(studio).play == (match p {
                            Ok(s) => s,
                            Err(_) => old(studio).play,
                        })
                    }
            },
            MailboxRequest::Rtx { requested } => {
                &&& *final(studio) == (Studio {
                    rtx: match requested {
                        Some(q) => after_request(old(studio).rtx, q),
                        None => old(studio).rtx,
                    },
                    ..*old(studio)
                })
                &&& r.answers(
                    (MailboxResponse { rtx: Some(final(studio).rtx), ..empty_ok() }),
                )
            },
            MailboxRequest::Export { path } => {
                &&& *final(studio) == *old(studio)
                &&& r matches Step::Todo { task: Task::Export { path: p } } && p@
                    == path_or_default(text_in(path))
            },
            MailboxRequest::Validate => {
                &&& *final(studio) == *old(studio)
                &&& r.answers(r.response())
                &&& tells_diagnosis(r.response(), old(studio).store@.document)
            },
            MailboxRequest::Import { path } => {
                &&& *final(studio) == *old(studio)
                &&& r matches Step::Todo { task: Task::Import { path: p } } && p@
                    == path_or_default(text_in(path))
            },
            MailboxRequest::Cycles { action, samples, width, height } => {
                &&& *final(studio) == *old(studio)
                &&& r matches Step::Todo { task: Task::Cycles { command } } && commanded(
                    command,
                    action@,
                    samples,
                    width,
                    height,
                )
            },
        },
{
    match req {
        MailboxRequest::Status => Step::Done {
            response: answer_status(studio, mailbox, installed),
        },
        MailboxRequest::Inspect { slice } => Step::Done {
            response: answer_inspect(studio, slice, calc),
        },
        MailboxRequest::Apply { request } => step_apply(
            &mut studio.store,
            request,
            calc,
            forecast,
        ),
        MailboxRequest::Query { query } => {
            let result = run_query(studio.store.live_document(), query, calc, text, ids);
            let mut p = empty_ok();
            p.ok = result.ok;
            p.error = copy_text(&result.error);
            p.query = Some(result);
            Step::Done { response: p }
        },
        MailboxRequest::History { action } => step_history(&mut studio.store, *action),
        MailboxRequest::Project { action, path } => step_project(&studio.store, *action, path),
        MailboxRequest::Render { width, height } => Step::Todo {
            task: Task::Render {
                width: or_default(width, DEFAULT_WIDTH),
                height: or_default(height, DEFAULT_HEIGHT),
            },
        },
        MailboxRequest::Camera { mode, review_eye, review_target, frame } => Step::Done {
            response: answer_camera(
                studio,
                mode,
                review_eye,
                review_target,
                frame,
                mailbox,
                installed,
                calc,
            ),
        },
        MailboxRequest::Catalog => Step::Done { response: answer_catalog() },
        MailboxRequest::Play { action, time } => {
            match play::apply(&mut studio.play, action, *time, calc) {
                Ok(s) => {
                    let mut p = empty_ok();
                    p.play = Some(s);
                    Step::Done { response: p }
                },
                Err(e) => Step::Done { response: MailboxResponse::bad(e) },
            }
        },
        MailboxRequest::Rtx { requested } => {
            if let Some(q) = requested {
                let _ = rtx::set_requested(&mut studio.rtx, *q);
            }
            let mut p = empty_ok();
            p.rtx = Some(rtx::snapshot(&studio.rtx));
            Step::Done { response: p }
        },
        MailboxRequest::Export { path } => Step::Todo {
            task: Task::Export { path: path_given(path) },
        },
        MailboxRequest::Validate => Step::Done {
            response: answer_validate(studio.store.live_document()),
        },
        MailboxRequest::Import { path } => Step::Todo {
            task: Task::Import { path: path_given(path) },
        },
        MailboxRequest::Cycles { action, samples, width, height } => Step::Todo {
            task: Task::Cycles { command: cycles_command(action, samples, width, height) },
        },
    }
}

/// The answer once saving was tried.
pub fn finish_save(
    response: MailboxResponse,
    refresh: bool,
    failure: String,
    outcome: Result<(), String>,
) -> (r: Closing)
    ensures
        match outcome {
            Ok(_) => r == (Closing { response, refresh }),
            Err(e) => r.response.refuses(failure@ + e@) && !r.refresh,
        },
{
    match outcome {
        Ok(_) => Closing { response, refresh },
        Err(e) => Closing { response: MailboxResponse::bad(cat2(&failure, &e)), refresh: false },
    }
}

/// Takes up the document that was found at a path.
pub fn finish_open(
    studio: &mut Studio,
    path: String,
    outcome: Result<Document, String>,
) -> (r: Closing)
    requires
        old(studio).ready(),
    ensures
        final(studio).ready(),
        *final(studio) == (Studio { store: final(studio).store, ..*old(studio) }),
        match outcome {
            Ok(d) => {
                &&& final(studio).store@ == StoreModel::fresh(path@, d@)
                &&& tells_project(r.response)
                &&& r.response.project matches Some(p) && p@ == final(studio).store@.project(
                    "open"@,
                )
                &&& r.refresh
            },
            Err(e) => {
                &&& *final(studio) == *old(studio)
                &&& r.response.refuses("io:"@ + e@)
                &&& !r.refresh
            },
        },
{
    match outcome {
        Ok(d) => {
            let p = studio.store.project_open(path, d);
            Closing { response: with_project(p), refresh: true }
        },
        Err(e) => Closing { response: MailboxResponse::bad(cat2("io:", &e)), refresh: false },
    }
}

/// Takes up a fresh document at a path. `outcome` says whether something was there already;
/// if not, the fresh document has been written there.
pub fn finish_create(
    studio: &mut Studio,
    path: String,
    outcome: Result<bool, String>,
) -> (r: Closing)
    requires
        old(studio).ready(),
    ensures
        final(studio).ready(),
        *final(studio) == (Studio { store: final(studio).store, ..*old(studio) }),
        match outcome {
            Ok(true) => {
                &&& *final(studio) == *old(studio)
                &&& tells_project(r.response)
                &&& r.response.project matches Some(p) && p@ == (ProjectModel {
                    ok: false,
                    path: path@,
                    error: Some("project_exists"@),
                    ..old(studio).store@.project("create"@)
                })
                &&& !r.refresh
            },
            Ok(false) => {
                &&& final(studio).store@ == StoreModel::fresh(path@, bootstrap_model())
                &&& tells_project(r.response)
                &&& r.response.project matches Some(p) && p@ == final(studio).store@.project(
                    "create"@,
                )
                &&& r.refresh
            },
            Err(e) => {
                &&& *final(studio) == *old(studio)
                &&& r.response.refuses("io:"@ + e@)
                &&& !r.refresh
            },
        },
{
    match outcome {
        Ok(exists) => {
            let p = studio.store.project_create(path, exists);
            Closing { response: with_project(p), refresh: !exists }
        },
        Err(e) => Closing { response: MailboxResponse::bad(cat2("io:", &e)), refresh: false },
    }
}

/// Takes the frame that was drawn and written to a path as the latest evidence.
pub fn finish_render<F: Fn(Calc) -> Answer>(
    studio: &mut Studio,
    outcome: Result<(BeautyFrame, String), String>,
    calc: &F,
) -> (r: MailboxResponse)
    requires
        old(studio).ready(),
        answers(*calc),
        outcome matches Ok(p) ==> measurable(p.0),
    ensures
        final(studio).ready(),
        *final(studio) == (Studio { evidence: final(studio).evidence, ..*old(studio) }),
        match outcome {
            Ok(p) => {
                &&& recorded(old(studio).evidence, final(studio).evidence, p.0, *calc)
                &&& r == (MailboxResponse { render: r.render, ..empty_ok() })
                &&& r.render matches Some(q) && {
                    &&& q.ok
                    &&& q.error is None
                    &&& q.path@ == p.1@
                    &&& q.width == p.0.width
                    &&& q.height == p.0.height
                    &&& q.revision == p.0.revision
                    &&& q.camera@ == p.0.camera@
                }
            },
            Err(e) => *final(studio) == *old(studio) && r.refuses(e@),
        },
{
    match outcome {
        Ok((frame, path)) => {
            let mut r = empty_ok();
            r.render = Some(studio.evidence.record(frame, path, calc));
            r
        },
        Err(e) => MailboxResponse::bad(e),
    }
}

pub fn finish_export(outcome: Result<ExportResult, String>) -> (r: MailboxResponse)
    ensures
        match outcome {
            Ok(x) => r == (MailboxResponse { export: Some(x), ..empty_ok() }),
            Err(e) => r.refuses(e@),
        },
{
    match outcome {
        Ok(x) => {
            let mut r = empty_ok();
            r.export = Some(x);
            r
        },
        Err(e) => MailboxResponse::bad(e),
    }
}

/// Replaces the live document by one that was read from a glTF file, if it is valid; it then
/// has to be saved.
pub fn finish_import(
    studio: &mut Studio,
    path: String,
    outcome: Result<Document, String>,
) -> (r: Step)
    requires
        old(studio).ready(),
    ensures
        final(studio).ready(),
        *final(studio) == (Studio { store: final(studio).store, ..*old(studio) }),
        match outcome {
            Ok(d) => if diagnosed(d@).len() > 0 {
                &&& *final(studio) == *old(studio)
                &&& r.answers(r.response())
                &&& r.response().refuses("import_invalid:"@ + diagnosed(d@)[0].code)
            } else {
                &&& final(studio).store@ == old(studio).store@.imported(d@)
                &&& r.saves(r.response(), true, "import_save:"@)
                &&& r.response() == (MailboxResponse { import: r.response().import, ..empty_ok() })
                &&& r.response().import matches Some(i) && {
                    &&& i.path@ == path@
                    &&& i.entity_count == d@.count()
                    &&& i.graph_count == d@.graphs.len()
                    &&& i.revision == final(studio).store@.document.revision
                }
            },
            Err(e) => {
                &&& *final(studio) == *old(studio)
                &&& r.answers(r.response())
                &&& r.response().refuses(e@)
            },
        },
{
    match outcome {
        Ok(d) => match studio.store.import_document(path, d) {
            Ok(i) => {
                let mut p = empty_ok();
                p.import = Some(i);
                save(p, true, "import_save:")
            },
            Err(e) => Step::Done { response: MailboxResponse::bad(e) },
        },
        Err(e) => Step::Done { response: MailboxResponse::bad(e) },
    }
}

/// The answer that carries the sidecar's status.
pub fn finish_cycles(status: CyclesStatus) -> (r: MailboxResponse)
    ensures
        r == (MailboxResponse {
            ok: status.ok,
            error: if status.ok {
                None
            } else {
                status.error
            },
            cycles: Some(status),
            ..empty_ok()
        }),
{
    let mut r = empty_ok();
    r.ok = status.ok;
    if !status.ok {
        r.error = copy_text(&status.error);
    }
    r.cycles = Some(status);
    r
}

} // verus!
