//! The live document with its undo and redo stacks and a journal of what happened.

use crate::apply::{
    forecasts, newest, next_revision, reply, successor, verdict, ApplyRequest, ApplyResult, Verdict,
};
use crate::beauty::PixelForecast;
use crate::document::{bootstrap_model, Document, DocumentModel};
use crate::lists::map_push;
use crate::numeric::{answers, computes, Answer, Calc};
use crate::text::{cat2, text_in};
use crate::validate::{diag_views, diagnosed};
use vstd::prelude::*;

verus! {

/// Most documents on the undo stack, and most entries in the journal.
pub const HISTORY_CAP: usize = 64;

#[derive(Debug, PartialEq)]
pub struct HistoryEntry {
    pub revision: u64,
    pub label: String,
    pub kind: String,
}

#[derive(Debug, PartialEq)]
pub struct HistoryResult {
    pub ok: bool,
    pub revision: u64,
    pub label: String,
    pub kind: String,
    pub undo_depth: usize,
    pub redo_depth: usize,
    pub entries: Vec<HistoryEntry>,
    pub error: Option<String>,
}

#[derive(Debug, PartialEq)]
pub struct ProjectResult {
    pub ok: bool,
    pub action: String,
    pub path: String,
    pub revision: u64,
    pub entity_count: usize,
    pub error: Option<String>,
}

#[derive(Debug, PartialEq)]
pub struct ImportResult {
    pub path: String,
    pub entity_count: usize,
    pub graph_count: usize,
    pub revision: u64,
}

#[derive(Debug)]
pub struct DocumentStore {
    pub path: String,
    pub document: Document,
    undo: Vec<Document>,
    redo: Vec<Document>,
    journal: Vec<HistoryEntry>,
}

#[verifier::ext_equal]
pub struct EntryModel {
    pub revision: u64,
    pub label: Seq<char>,
    pub kind: Seq<char>,
}

impl View for HistoryEntry {
    type V = EntryModel;

    open spec fn view(&self) -> EntryModel {
        EntryModel { revision: self.revision, label: self.label@, kind: self.kind@ }
    }
}

pub open spec fn entry_views(s: Seq<HistoryEntry>) -> Seq<EntryModel> {
    s.map_values(|e: HistoryEntry| e@)
}

impl Clone for HistoryEntry {
    fn clone(&self) -> (r: Self)
        ensures
            r@ == self@,
    {
        HistoryEntry {
            revision: self.revision,
            label: self.label.clone(),
            kind: self.kind.clone(),
        }
    }
}

/// What a reply about history says.
#[verifier::ext_equal]
pub struct HistoryModel {
    pub ok: bool,
    pub revision: u64,
    pub label: Seq<char>,
    pub kind: Seq<char>,
    pub undo_depth: nat,
    pub redo_depth: nat,
    pub entries: Seq<EntryModel>,
    pub error: Option<Seq<char>>,
}

impl View for HistoryResult {
    type V = HistoryModel;

    open spec fn view(&self) -> HistoryModel {
        HistoryModel {
            ok: self.ok,
            revision: self.revision,
            label: self.label@,
            kind: self.kind@,
            undo_depth: self.undo_depth as nat,
            redo_depth: self.redo_depth as nat,
            entries: entry_views(self.entries@),
            error: text_in(self.error),
        }
    }
}

/// What a reply about the project says.
#[verifier::ext_equal]
pub struct ProjectModel {
    pub ok: bool,
    pub action: Seq<char>,
    pub path: Seq<char>,
    pub revision: u64,
    pub entity_count: usize,
    pub error: Option<Seq<char>>,
}

impl View for ProjectResult {
    type V = ProjectModel;

    open spec fn view(&self) -> ProjectModel {
        ProjectModel {
            ok: self.ok,
            action: self.action@,
            path: self.path@,
            revision: self.revision,
            entity_count: self.entity_count,
            error: text_in(self.error),
        }
    }
}

/// What a store holds.
#[verifier::ext_equal]
pub struct StoreModel {
    pub path: Seq<char>,
    pub document: DocumentModel,
    pub undo: Seq<DocumentModel>,
    pub redo: Seq<DocumentModel>,
    pub journal: Seq<EntryModel>,
}

pub open spec fn document_views(s: Seq<Document>) -> Seq<DocumentModel> {
    s.map_values(|d: Document| d@)
}

impl View for DocumentStore {
    type V = StoreModel;

    closed spec fn view(&self) -> StoreModel {
        StoreModel {
            path: self.path@,
            document: self.document@,
            undo: document_views(self.undo@),
            redo: document_views(self.redo@),
            journal: entry_views(self.journal@),
        }
    }
}

impl StoreModel {
    /// The stacks together and the journal stay within the cap.
    pub open spec fn bounded(self) -> bool {
        self.undo.len() + self.redo.len() <= HISTORY_CAP && self.journal.len() <= HISTORY_CAP
    }

    pub open spec fn noted(
        self,
        revision: u64,
        label: Seq<char>,
        kind: Seq<char>,
    ) -> Seq<EntryModel> {
        newest(self.journal.push(EntryModel { revision, label, kind }), HISTORY_CAP as int)
    }

    /// The store once a request was decided: a commit can be undone and ends any redo.
    pub open spec fn applied(self, req: ApplyRequest, v: Verdict) -> StoreModel {
        match v {
            Verdict::Committed(after) => StoreModel {
                path: self.path,
                document: after,
                undo: newest(self.undo.push(self.document), HISTORY_CAP as int),
                redo: Seq::empty(),
                journal: self.noted(after.revision, req.label@, "apply"@),
            },
            _ => self,
        }
    }

    /// The store after an undo: the last saved document under a new revision.
    pub open spec fn undone(self) -> StoreModel {
        if self.undo.len() == 0 {
            self
        } else {
            let revision = next_revision(self.document.revision);
            StoreModel {
                path: self.path,
                document: DocumentModel { revision, ..self.undo.last() },
                undo: self.undo.drop_last(),
                redo: self.redo.push(self.document),
                journal: self.noted(revision, "undo"@, "undo"@),
            }
        }
    }

    /// The store after a redo: the last undone document under a new revision.
    pub open spec fn redone(self) -> StoreModel {
        if self.redo.len() == 0 {
            self
        } else {
            let revision = next_revision(self.document.revision);
            StoreModel {
                path: self.path,
                document: DocumentModel { revision, ..self.redo.last() },
                undo: newest(self.undo.push(self.document), HISTORY_CAP as int),
                redo: self.redo.drop_last(),
                journal: self.noted(revision, "redo"@, "redo"@),
            }
        }
    }

    /// The store after a valid document was imported.
    pub open spec fn imported(self, d: DocumentModel) -> StoreModel {
        let revision = next_revision(self.document.revision);
        StoreModel {
            path: self.path,
            document: DocumentModel { revision, ..d },
            undo: newest(self.undo.push(self.document), HISTORY_CAP as int),
            redo: Seq::empty(),
            journal: self.noted(revision, "import"@, "import"@),
        }
    }

    /// A store that has just taken up a document at a path.
    pub open spec fn fresh(path: Seq<char>, document: DocumentModel) -> StoreModel {
        StoreModel {
            path,
            document,
            undo: Seq::empty(),
            redo: Seq::empty(),
            journal: Seq::empty(),
        }
    }

    pub open spec fn history(
        self,
        ok: bool,
        label: Seq<char>,
        kind: Seq<char>,
        error: Option<Seq<char>>,
    ) -> HistoryModel {
        HistoryModel {
            ok,
            revision: self.document.revision,
            label,
            kind,
            undo_depth: self.undo.len(),
            redo_depth: self.redo.len(),
            entries: self.journal,
            error,
        }
    }

    pub open spec fn project(self, action: Seq<char>) -> ProjectModel {
        ProjectModel {
            ok: true,
            action,
            path: self.path,
            revision: self.document.revision,
            entity_count: self.document.count(),
            error: None,
        }
    }
}

/// Pushes a document and forgets the oldest ones beyond the cap.
fn push_capped(stack: &mut Vec<Document>, d: Document)
    ensures
        document_views(final(stack)@) == newest(
            document_views(old(stack)@).push(d@),
            HISTORY_CAP as int,
        ),
{
    proof {
        map_push(stack@, d, |x: Document| x@);
    }
    stack.push(d);
    let n: usize = stack.len();
    if n > HISTORY_CAP {
        let ghost all = stack@;
        let kept = stack.split_off(n - HISTORY_CAP);
        *stack = kept;
        assert(document_views(stack@) =~= document_views(all).skip(n - HISTORY_CAP));
    }
}

impl ApplyResult {
    /// Whether the request behind this reply changed the document, so that it needs saving.
    pub fn commits(&self) -> (r: bool)
        ensures
            r == (self.ok && !self.idempotent && !self.dry_run),
    {
        self.ok && !self.idempotent && !self.dry_run
    }
}

impl DocumentStore {
    /// A store that takes up a document, with nothing to undo.
    pub fn with_document(path: String, document: Document) -> (r: Self)
        ensures
            r@ == StoreModel::fresh(path@, document@),
    {
        let r = DocumentStore {
            path,
            document,
            undo: Vec::new(),
            redo: Vec::new(),
            journal: Vec::new(),
        };
        assert(r@ =~= StoreModel::fresh(path@, document@));
        r
    }

    /// The live document itself.
    pub closed spec fn live(self) -> Document {
        self.document
    }

    /// The live document.
    pub fn live_document(&self) -> (r: &Document)
        ensures
            *r == self.live(),
            r@ == self@.document,
    {
        &self.document
    }

    /// Where the live document is kept.
    pub fn live_path(&self) -> (r: &String)
        ensures
            r@ == self@.path,
    {
        &self.path
    }

    pub fn undo_depth(&self) -> (r: usize)
        ensures
            r == self@.undo.len(),
    {
        self.undo.len()
    }

    pub fn redo_depth(&self) -> (r: usize)
        ensures
            r == self@.redo.len(),
    {
        self.redo.len()
    }

    fn push_journal(&mut self, revision: u64, label: &str, kind: &str)
        ensures
            final(self)@ == (StoreModel {
                journal: old(self)@.noted(revision, label@, kind@),
                ..old(self)@
            }),
            final(self).document == old(self).document,
            final(self).path == old(self).path,
    {
        let e = HistoryEntry { revision, label: label.to_owned(), kind: kind.to_owned() };
        proof {
            map_push(self.journal@, e, |x: HistoryEntry| x@);
        }
        self.journal.push(e);
        let n: usize = self.journal.len();
        if n > HISTORY_CAP {
            let ghost all = self.journal@;
            let kept = self.journal.split_off(n - HISTORY_CAP);
            self.journal = kept;
            assert(entry_views(self.journal@) =~= entry_views(all).skip(n - HISTORY_CAP));
        }
    }

    /// Applies a request to the live document; a commit goes on the undo stack and into the
    /// journal, and ends any redo.
    pub fn apply<F: Fn(Calc) -> Answer, R: Fn(&Document, &Document) -> Option<PixelForecast>>(
        &mut self,
        req: &ApplyRequest,
        calc: &F,
        forecast: &R,
    ) -> (r: ApplyResult)
        requires
            answers(*calc),
            forecasts(*forecast),
        ensures
            forall|g: spec_fn(Calc) -> Answer| #[trigger]
                computes(*calc, g) ==> r@ == reply(
                    old(self)@.document.revision,
                    *req,
                    verdict(old(self)@.document, *req, g),
                ) && final(self)@ == old(self)@.applied(
                    *req,
                    verdict(old(self)@.document, *req, g),
                ) && (verdict(old(self)@.document, *req, g) matches Verdict::Previewed(w)
                    ==> exists|after: Document|
                    after@ == w && #[trigger] call_ensures(
                        *forecast,
                        (&old(self).live(), &after),
                        r.pixel_forecast,
                    )),
            r.pixel_forecast is Some ==> r.ok && r.dry_run && !r.idempotent,
            !r.ok || r.idempotent || r.dry_run ==> final(self)@ == old(self)@,
    {
        let ghost start = *self;
        let before = self.document.clone();
        let result = self.document.apply(req, calc, forecast);
        assert(start.live() == start.document);
        if result.commits() {
            push_capped(&mut self.undo, before);
            self.redo.clear();
            assert(document_views(self.redo@) =~= Seq::<DocumentModel>::empty());
            self.push_journal(result.revision, &req.label, "apply");
        }
        result
    }

    fn report(&self, ok: bool, label: &str, kind: &str, error: Option<String>) -> (r:
        HistoryResult)
        ensures
            r@ == self@.history(ok, label@, kind@, text_in(error)),
    {
        let entries = self.journal.clone();
        assert(entry_views(entries@) =~= entry_views(self.journal@));
        HistoryResult {
            ok,
            revision: self.document.revision,
            label: label.to_owned(),
            kind: kind.to_owned(),
            undo_depth: self.undo.len(),
            redo_depth: self.redo.len(),
            entries,
            error,
        }
    }

    pub fn history_list(&self) -> (r: HistoryResult)
        ensures
            r@ == self@.history(true, ""@, "list"@, None),
    {
        self.report(true, "", "list", None)
    }

    /// Goes back to the document before the last change, under a new revision.
    pub fn undo(&mut self) -> (r: HistoryResult)
        ensures
            final(self)@ == old(self)@.undone(),
            r@ == (if old(self)@.undo.len() == 0 {
                old(self)@.history(false, "undo"@, "undo"@, Some("empty_undo"@))
            } else {
                final(self)@.history(true, "undo"@, "undo"@, None)
            }),
    {
        let ghost start = *self;
        let mut restored = match self.undo.pop() {
            None => {
                return self.report(false, "undo", "undo", Some("empty_undo".to_owned()));
            },
            Some(d) => d,
        };
        assert(document_views(self.undo@) =~= document_views(start.undo@).drop_last());
        let now = self.document.clone();
        proof {
            map_push(self.redo@, now, |x: Document| x@);
        }
        self.redo.push(now);
        let revision: u64 = successor(self.document.revision);
        restored.revision = revision;
        self.document = restored;
        self.push_journal(revision, "undo", "undo");
        self.report(true, "undo", "undo", None)
    }

    /// Goes forward to the document that the last undo left, under a new revision.
    pub fn redo(&mut self) -> (r: HistoryResult)
        ensures
            final(self)@ == old(self)@.redone(),
            r@ == (if old(self)@.redo.len() == 0 {
                old(self)@.history(false, "redo"@, "redo"@, Some("empty_redo"@))
            } else {
                final(self)@.history(true, "redo"@, "redo"@, None)
            }),
    {
        let ghost start = *self;
        let mut restored = match self.redo.pop() {
            None => {
                return self.report(false, "redo", "redo", Some("empty_redo".to_owned()));
            },
            Some(d) => d,
        };
        assert(document_views(self.redo@) =~= document_views(start.redo@).drop_last());
        let now = self.document.clone();
        push_capped(&mut self.undo, now);
        let revision: u64 = successor(self.document.revision);
        restored.revision = revision;
        self.document = restored;
        self.push_journal(revision, "redo", "redo");
        self.report(true, "redo", "redo", None)
    }

    fn project(&self, action: &str) -> (r: ProjectResult)
        ensures
            r@ == self@.project(action@),
    {
        ProjectResult {
            ok: true,
            action: action.to_owned(),
            path: self.path.clone(),
            revision: self.document.revision,
            entity_count: self.document.entity_count(),
            error: None,
        }
    }

    /// The reply once the live document has been written to its path.
    pub fn project_save(&self) -> (r: ProjectResult)
        ensures
            r@ == self@.project("save"@),
    {
        self.project("save")
    }

    pub fn project_list(&self) -> (r: ProjectResult)
        ensures
            r@ == self@.project("list"@),
    {
        self.project("list")
    }

    fn take_up(&mut self, path: String, document: Document)
        ensures
            final(self)@ == StoreModel::fresh(path@, document@),
    {
        self.document = document;
        self.path = path;
        self.undo.clear();
        self.redo.clear();
        self.journal.clear();
        assert(self@ =~= StoreModel::fresh(path@, document@));
    }

    /// Switches to a document that was read from a path. Undo, redo and journal are cleared.
    pub fn project_open(&mut self, path: String, document: Document) -> (r: ProjectResult)
        ensures
            final(self)@ == StoreModel::fresh(path@, document@),
            r@ == final(self)@.project("open"@),
    {
        self.take_up(path, document);
        self.project("open")
    }

    /// Switches to a fresh document at a path, unless something is there already.
    pub fn project_create(&mut self, path: String, exists: bool) -> (r: ProjectResult)
        ensures
            exists ==> *final(self) == *old(self) && r@ == (ProjectModel {
                ok: false,
                path: path@,
                error: Some("project_exists"@),
                ..old(self)@.project("create"@)
            }),
            !exists ==> {
                &&& final(self)@ == StoreModel::fresh(path@, bootstrap_model())
                &&& r@ == final(self)@.project("create"@)
            },
    {
        if exists {
            return ProjectResult {
                ok: false,
                action: "create".to_owned(),
                path,
                revision: self.document.revision,
                entity_count: self.document.entity_count(),
                error: Some("project_exists".to_owned()),
            };
        }
        self.take_up(path, Document::bootstrap());
        self.project("create")
    }

    /// Replaces the live document by one that was read from `source`, if it is valid. The old
    /// one can be had back by undo.
    pub fn import_document(&mut self, source: String, document: Document) -> (r: Result<
        ImportResult,
        String,
    >)
        ensures
            match r {
                Ok(i) => {
                    &&& diagnosed(document@).len() == 0
                    &&& final(self)@ == old(self)@.imported(document@)
                    &&& i.path@ == source@
                    &&& i.entity_count == document@.count()
                    &&& i.graph_count == document@.graphs.len()
                    &&& i.revision == next_revision(old(self)@.document.revision)
                },
                Err(e) => {
                    &&& diagnosed(document@).len() > 0
                    &&& *final(self) == *old(self)
                    &&& e@ == "import_invalid:"@ + diagnosed(document@)[0].code
                },
            },
    {
        let v = document.validate();
        if !v.ok {
            assert(diag_views(v.diagnostics@)[0] == v.diagnostics@[0]@);
            return Err(cat2("import_invalid:", &v.diagnostics[0].code));
        }
        let now = self.document.clone();
        let revision: u64 = successor(self.document.revision);
        push_capped(&mut self.undo, now);
        self.redo.clear();
        assert(document_views(self.redo@) =~= Seq::<DocumentModel>::empty());
        let mut imported = document;
        imported.revision = revision;
        self.document = imported;
        self.push_journal(revision, "import", "import");
        assert(self.document@.graphs.len() == self.document.graphs.len());
        Ok(
            ImportResult {
                path: source,
                entity_count: self.document.entity_count(),
                graph_count: self.document.graphs.len(),
                revision,
            },
        )
    }

    /// Takes up the document that was read again from the live path. History stays.
    pub fn reload(&mut self, document: Document)
        ensures
            final(self)@ == (StoreModel { document: document@, ..old(self)@ }),
    {
        self.document = document;
    }
}

/// Undoing a committed request gives back the document as it was, under a revision of its
/// own: undo never goes back in revisions.
pub proof fn undo_restores_content(
    s: StoreModel,
    req: ApplyRequest,
    g: spec_fn(Calc) -> Answer,
)
    requires
        verdict(s.document, req, g) is Committed,
    ensures
        s.applied(req, verdict(s.document, req, g)).undone().document == (DocumentModel {
            revision: next_revision(next_revision(s.document.revision)),
            ..s.document
        }),
{
    crate::laws::commit_advances_revision(s.document, req, g);
    let all = s.undo.push(s.document);
    assert(newest(all, HISTORY_CAP as int).last() == s.document);
}

/// Undoing an import gives back the document that it replaced, under a revision of its own.
pub proof fn undo_restores_what_an_import_replaced(s: StoreModel, d: DocumentModel)
    ensures
        s.imported(d).undone().document == (DocumentModel {
            revision: next_revision(next_revision(s.document.revision)),
            ..s.document
        }),
{
    let all = s.undo.push(s.document);
    assert(newest(all, HISTORY_CAP as int).last() == s.document);
}

/// A redo right after an undo gives back the content that the undo took away.
pub proof fn redo_reverses_undo(s: StoreModel)
    requires
        s.undo.len() > 0,
    ensures
        s.undone().redone().document == (DocumentModel {
            revision: next_revision(next_revision(s.document.revision)),
            ..s.document
        }),
        s.undone().redone().redo == s.redo,
{
    assert(s.redo.push(s.document).drop_last() =~= s.redo);
}

/// A new commit ends what could be redone.
pub proof fn commit_ends_redo(s: StoreModel, req: ApplyRequest, g: spec_fn(Calc) -> Answer)
    requires
        verdict(s.document, req, g) is Committed,
    ensures
        s.applied(req, verdict(s.document, req, g)).redo.len() == 0,
        s.applied(req, verdict(s.document, req, g)).redone() == s.applied(
            req,
            verdict(s.document, req, g),
        ),
{
}

/// No operation on a store lets its stacks or its journal outgrow the cap.
pub proof fn history_stays_bounded(
    s: StoreModel,
    req: ApplyRequest,
    v: Verdict,
    path: Seq<char>,
    d: DocumentModel,
)
    requires
        s.bounded(),
    ensures
        s.applied(req, v).bounded(),
        s.undone().bounded(),
        s.redone().bounded(),
        s.imported(d).bounded(),
        StoreModel::fresh(path, d).bounded(),
{
}

} // verus!
