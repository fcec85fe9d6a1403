//! What callers can rely on when they send requests.

use crate::apply::{
    left_by, next_revision, reply, verdict, ApplyRequest, Verdict,
};
use crate::change::{all_changed, opened};
use crate::document::DocumentModel;
use crate::numeric::{Answer, Calc};
use crate::store::{EntryModel, StoreModel};
use crate::text::decimal_text;
use vstd::prelude::*;

verus! {

/// A request that is turned down, replayed or only tried out leaves the document as it was; one
/// that is carried out leaves what all of its changes make of it, one revision on.
pub proof fn requests_do_all_or_nothing(d: DocumentModel, req: ApplyRequest, g: spec_fn(Calc) -> Answer)
    ensures
        ({
            let v = verdict(d, req, g);
            let r = reply(d.revision, req, v);
            let after = left_by(d, v);
            &&& r.label == req.label@
            &&& !r.ok || r.idempotent || r.dry_run ==> after == d
            &&& !r.ok ==> r.error is Some && r.code is Some && r.revision == d.revision
                && r.current_revision == Some(d.revision) && !r.idempotent
            &&& r.ok ==> r.error is None
            &&& r.ok && !r.idempotent && !r.dry_run ==> {
                &&& all_changed(opened(d), req.changes@, 0, g) matches Ok(st)
                &&& after.scenes == st.doc.scenes
                &&& after.graphs == st.doc.graphs
                &&& after.light == st.doc.light
                &&& after.log.contains(req.idempotency_key@)
                &&& r.revision == after.revision
                &&& d.revision < u64::MAX ==> after.revision == d.revision + 1
            }
            &&& r.ok && r.idempotent ==> d.log.contains(req.idempotency_key@) && r.revision
                == d.revision && r.code == Some("idempotency_reused"@)
            &&& r.ok && r.dry_run && !r.idempotent ==> r.revision == d.revision && (d.revision
                < u64::MAX ==> r.current_revision == Some((d.revision + 1) as u64))
        }),
{
    crate::laws::commit_advances_revision(d, req, g);
}

/// A request is turned down for one of these reasons, the first that holds: it has more than 128
/// changes, it has no key, it is made against another revision than the document's, one of its
/// changes fails, or it would leave more than 20000 entities. A key that was used before is
/// answered as done before revisions are looked at.
pub proof fn refusals_name_their_reason(d: DocumentModel, req: ApplyRequest, g: spec_fn(Calc) -> Answer)
    ensures
        ({
            let r = reply(d.revision, req, verdict(d, req, g));
            let run = all_changed(opened(d), req.changes@, 0, g);
            if req.changes.len() > 128 {
                !r.ok && r.code == Some("too_many_ops"@) && r.error == Some(
                    "too_many_ops:"@ + decimal_text(req.changes.len() as nat),
                )
            } else if req.idempotency_key@.len() == 0 {
                !r.ok && r.code == Some("empty_idempotency_key"@)
            } else if d.log.contains(req.idempotency_key@) {
                r.ok && r.idempotent
            } else if req.base_revision != d.revision {
                !r.ok && r.code == Some("revision_conflict"@)
            } else if run matches Err(e) {
                !r.ok && r.code == Some("apply_failed"@) && r.error == Some(run->Err_0)
            } else if (run->Ok_0).doc.count() > 20_000 {
                !r.ok && r.code == Some("too_many_entities"@)
            } else {
                r.ok && !r.idempotent && r.dry_run == req.dry_run
            }
        }),
{
}

/// The journal tells what happened last: the label of a commit, or that something was undone,
/// redone or imported, and at which revision.
pub proof fn journal_tells_the_last_step(
    s: StoreModel,
    req: ApplyRequest,
    after: DocumentModel,
    d: DocumentModel,
)
    requires
        s.journal.len() <= 64,
    ensures
        s.applied(req, Verdict::Committed(after)).journal.last() == (EntryModel {
            revision: after.revision,
            label: req.label@,
            kind: "apply"@,
        }),
        s.undo.len() > 0 ==> s.undone().journal.last() == (EntryModel {
            revision: next_revision(s.document.revision),
            label: "undo"@,
            kind: "undo"@,
        }),
        s.redo.len() > 0 ==> s.redone().journal.last() == (EntryModel {
            revision: next_revision(s.document.revision),
            label: "redo"@,
            kind: "redo"@,
        }),
        s.imported(d).journal.last() == (EntryModel {
            revision: next_revision(s.document.revision),
            label: "import"@,
            kind: "import"@,
        }),
        s.applied(req, Verdict::Committed(after)).undo.last() == s.document,
        s.applied(req, Verdict::Committed(after)).document == after,
        s.imported(d).undo.last() == s.document,
        s.imported(d).redo.len() == 0,
        s.imported(d).document == (DocumentModel {
            revision: next_revision(s.document.revision),
            ..d
        }),
{
}

/// Undoing and redoing walk the same road: every undo can be redone, in turn, and the document
/// that comes back differs in its revision only.
pub proof fn redo_walks_back(s: StoreModel)
    requires
        s.undo.len() >= 2,
        s.undo.len() <= 64,
    ensures
        ({
            let back = s.undone().undone().redone().redone();
            &&& back.document.scenes == s.document.scenes
            &&& back.document.graphs == s.document.graphs
            &&& back.document.light == s.document.light
            &&& back.document.log == s.document.log
            &&& back.redo == s.redo
            &&& back.undo.len() == s.undo.len()
            &&& s.undone().document.scenes == s.undo[s.undo.len() - 1].scenes
            &&& s.undone().undone().document.scenes == s.undo[s.undo.len() - 2].scenes
        }),
{
    let a = s.undone();
    let b = a.undone();
    let c = b.redone();
    assert(a.redo.last() == s.document);
    assert(b.redo.last() == a.document);
    assert(c.redo =~= a.redo);
    assert(c.redo.drop_last() =~= s.redo);
}

} // verus!
