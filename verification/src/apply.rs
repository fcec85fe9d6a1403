//! Applying a labelled changeset to a document.

use crate::beauty::PixelForecast;
use crate::change::{all_changed, opened, ApplyChange};
use crate::document::{Document, DocumentModel, MAX_ENTITIES};
use crate::numeric::{answers, computes, Answer, Calc};
use crate::text::{cat2, decimal, decimal_text, holds, text_in, texts};
use vstd::prelude::*;

verus! {

/// Most changes that one request may hold.
pub const MAX_OPS: usize = 128;

/// Most idempotency keys that a document remembers.
pub const LOG_CAP: usize = 256;

#[derive(Debug, PartialEq)]
pub struct ApplyRequest {
    pub base_revision: u64,
    pub idempotency_key: String,
    pub label: String,
    pub changes: Vec<ApplyChange>,
    /// Report what would happen, with a forecast of the picture, and change nothing.
    pub dry_run: bool,
}

#[derive(Debug, PartialEq)]
pub struct ApplyResult {
    pub ok: bool,
    pub revision: u64,
    pub label: String,
    pub idempotent: bool,
    pub error: Option<String>,
    /// Machine code: `revision_conflict`, `idempotency_reused` and the like.
    pub code: Option<String>,
    pub current_revision: Option<u64>,
    pub dry_run: bool,
    pub pixel_forecast: Option<PixelForecast>,
}

/// What the reply to a request holds, the forecast left out.
#[verifier::ext_equal]
pub struct ReplyModel {
    pub ok: bool,
    pub revision: u64,
    pub label: Seq<char>,
    pub idempotent: bool,
    pub error: Option<Seq<char>>,
    pub code: Option<Seq<char>>,
    pub current_revision: Option<u64>,
    pub dry_run: bool,
}

impl View for ApplyResult {
    type V = ReplyModel;

    open spec fn view(&self) -> ReplyModel {
        ReplyModel {
            ok: self.ok,
            revision: self.revision,
            label: self.label@,
            idempotent: self.idempotent,
            error: text_in(self.error),
            code: text_in(self.code),
            current_revision: self.current_revision,
            dry_run: self.dry_run,
        }
    }
}

/// What becomes of a request.
pub enum Verdict {
    /// Turned down, with a message and a machine code.
    Refused(Seq<char>, Seq<char>),
    /// Its key was applied before.
    Replayed,
    /// A dry run that would leave this document.
    Previewed(DocumentModel),
    /// Carried out; this document is left.
    Committed(DocumentModel),
}

/// A revision and its successor; the last one is its own.
pub open spec fn next_revision(r: u64) -> u64 {
    if r == u64::MAX {
        r
    } else {
        (r + 1) as u64
    }
}

/// The last `n` items.
pub open spec fn newest<A>(s: Seq<A>, n: int) -> Seq<A> {
    if s.len() > n {
        s.skip(s.len() - n)
    } else {
        s
    }
}

/// A changed document once it is committed under a key.
pub open spec fn committed(d: DocumentModel, revision: u64, key: Seq<char>) -> DocumentModel {
    DocumentModel {
        revision: next_revision(revision),
        log: newest(d.log.push(key), LOG_CAP as int),
        ..d
    }
}

pub open spec fn verdict(
    d: DocumentModel,
    req: ApplyRequest,
    g: spec_fn(Calc) -> Answer,
) -> Verdict {
    if req.changes.len() > MAX_OPS {
        Verdict::Refused(
            "too_many_ops:"@ + decimal_text(req.changes.len() as nat),
            "too_many_ops"@,
        )
    } else if req.idempotency_key@.len() == 0 {
        Verdict::Refused("empty_idempotency_key"@, "empty_idempotency_key"@)
    } else if d.log.contains(req.idempotency_key@) {
        Verdict::Replayed
    } else if req.base_revision != d.revision {
        Verdict::Refused("revision_conflict"@, "revision_conflict"@)
    } else {
        match all_changed(opened(d), req.changes@, 0, g) {
            Err(e) => Verdict::Refused(e, "apply_failed"@),
            Ok(st) => if st.doc.count() > MAX_ENTITIES {
                Verdict::Refused(
                    "too_many_entities:"@ + decimal_text(st.doc.count() as nat),
                    "too_many_entities"@,
                )
            } else if req.dry_run {
                Verdict::Previewed(st.doc)
            } else {
                Verdict::Committed(committed(st.doc, d.revision, req.idempotency_key@))
            },
        }
    }
}

/// The reply to a request on a document at `revision`.
pub open spec fn reply(revision: u64, req: ApplyRequest, v: Verdict) -> ReplyModel {
    match v {
        Verdict::Refused(error, code) => ReplyModel {
            ok: false,
            revision,
            label: req.label@,
            idempotent: false,
            error: Some(error),
            code: Some(code),
            current_revision: Some(revision),
            dry_run: req.dry_run,
        },
        Verdict::Replayed => ReplyModel {
            ok: true,
            revision,
            label: req.label@,
            idempotent: true,
            error: None,
            code: Some("idempotency_reused"@),
            current_revision: None,
            dry_run: req.dry_run,
        },
        Verdict::Previewed(_) => ReplyModel {
            ok: true,
            revision,
            label: req.label@,
            idempotent: false,
            error: None,
            code: None,
            current_revision: Some(next_revision(revision)),
            dry_run: true,
        },
        Verdict::Committed(d) => ReplyModel {
            ok: true,
            revision: d.revision,
            label: req.label@,
            idempotent: false,
            error: None,
            code: None,
            current_revision: None,
            dry_run: false,
        },
    }
}

/// The document after a request.
pub open spec fn left_by(d: DocumentModel, v: Verdict) -> DocumentModel {
    match v {
        Verdict::Committed(after) => after,
        _ => d,
    }
}

/// The forecaster may be asked about any two documents.
pub open spec fn forecasts<R: Fn(&Document, &Document) -> Option<PixelForecast>>(r: R) -> bool {
    forall|a: &Document, b: &Document| #[trigger] call_requires(r, (a, b))
}

fn refusal(revision: u64, req: &ApplyRequest, error: String, code: &str) -> (r: ApplyResult)
    ensures
        r@ == reply(revision, *req, Verdict::Refused(error@, code@)),
        r.pixel_forecast is None,
{
    ApplyResult {
        ok: false,
        revision,
        label: req.label.clone(),
        idempotent: false,
        error: Some(error),
        code: Some(code.to_owned()),
        current_revision: Some(revision),
        dry_run: req.dry_run,
        pixel_forecast: None,
    }
}

pub(crate) fn successor(r: u64) -> (n: u64)
    ensures
        n == next_revision(r),
{
    if r == u64::MAX {
        r
    } else {
        r + 1
    }
}

impl Document {
    /// Remembers a key and forgets the oldest ones beyond the cap.
    fn remember(&mut self, key: &str)
        ensures
            final(self)@ == (DocumentModel {
                log: newest(old(self)@.log.push(key@), LOG_CAP as int),
                ..old(self)@
            }),
    {
        let ghost before = texts(self.idempotency_log@);
        self.idempotency_log.push(key.to_owned());
        assert(texts(self.idempotency_log@) =~= before.push(key@));
        let n: usize = self.idempotency_log.len();
        if n > LOG_CAP {
            let ghost all = self.idempotency_log@;
            let kept = self.idempotency_log.split_off(n - LOG_CAP);
            self.idempotency_log = kept;
            assert(texts(self.idempotency_log@) =~= texts(all).skip(n - LOG_CAP));
        }
    }

    /// Applies a labelled changeset: refuses a stale base revision, replays a known key as a
    /// no-op, and otherwise carries out all changes or none.
    pub fn apply<F: Fn(Calc) -> Answer, R: Fn(&Document, &Document) -> Option<PixelForecast>>(
        &mut self,
        req: &ApplyRequest,
        calc: &F,
        forecast: &R,
    ) -> (r: ApplyResult)
        requires
            answers(*calc),
            forecasts(*forecast),
        ensures
            forall|g: spec_fn(Calc) -> Answer| #[trigger]
                computes(*calc, g) ==> {
                    &&& r@ == reply(old(self).revision, *req, verdict(old(self)@, *req, g))
                    &&& final(self)@ == left_by(old(self)@, verdict(old(self)@, *req, g))
                    &&& verdict(old(self)@, *req, g) matches Verdict::Previewed(w) ==> exists|
                        after: Document,
                    |
                        after@ == w && #[trigger] call_ensures(
                            *forecast,
                            (&*old(self), &after),
                            r.pixel_forecast,
                        )
                },
            r.pixel_forecast is Some ==> r.ok && r.dry_run && !r.idempotent,
            !r.ok || r.idempotent || r.dry_run ==> *final(self) == *old(self),
    {
        let revision: u64 = self.revision;
        if req.changes.len() > MAX_OPS {
            let count = decimal(req.changes.len() as u64);
            return refusal(revision, req, cat2("too_many_ops:", &count), "too_many_ops");
        }
        if req.idempotency_key.as_str().is_empty() {
            return refusal(
                revision,
                req,
                "empty_idempotency_key".to_owned(),
                "empty_idempotency_key",
            );
        }
        if holds(&self.idempotency_log, &req.idempotency_key) {
            return ApplyResult {
                ok: true,
                revision,
                label: req.label.clone(),
                idempotent: true,
                error: None,
                code: Some("idempotency_reused".to_owned()),
                current_revision: None,
                dry_run: req.dry_run,
                pixel_forecast: None,
            };
        }
        if req.base_revision != revision {
            return refusal(revision, req, "revision_conflict".to_owned(), "revision_conflict");
        }
        let mut working = match self.apply_changes(&req.changes, calc) {
            Err(e) => return refusal(revision, req, e, "apply_failed"),
            Ok(d) => d,
        };
        let count: usize = working.entity_count();
        if count > MAX_ENTITIES {
            let n = decimal(count as u64);
            return refusal(revision, req, cat2("too_many_entities:", &n), "too_many_entities");
        }
        if req.dry_run {
            let pixel_forecast = forecast(&*self, &working);
            return ApplyResult {
                ok: true,
                revision,
                label: req.label.clone(),
                idempotent: false,
                error: None,
                code: None,
                current_revision: Some(successor(revision)),
                dry_run: true,
                pixel_forecast,
            };
        }
        working.revision = successor(revision);
        working.remember(&req.idempotency_key);
        *self = working;
        ApplyResult {
            ok: true,
            revision: self.revision,
            label: req.label.clone(),
            idempotent: false,
            error: None,
            code: None,
            current_revision: None,
            dry_run: false,
            pixel_forecast: None,
        }
    }
}

} // verus!
