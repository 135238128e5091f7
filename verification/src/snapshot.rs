//! What a client sees: a document through a pane, and the shared state around it.
use vstd::prelude::*;

use crate::base::{base_views, cached_only, counterparts};
use crate::daemon::{shown_diagnostics, shown_hints, work_on, Daemon};
use crate::editor::{opt_view, pane_ok};
use crate::strings::copy_opt;
use crate::text::{checksum, fnv1a64};
use crate::types::{
    copy_activities, copy_ranges, Activity, ActivityRecord, ChangeEvent, Diagnostic, HighlightRange,
    InlayHint, StateSnapshot,
};

verus! {

/// Whether `s` shows the daemon's state through a pane whose document lies in the workspace `root`.
///
/// The text, its checksum, path, diagnostics, hints and work in progress are those of the pane's
/// document; the selection and the first line are the pane's own; the rest is shared by all.
/// Diagnostics and hints are there only if the document is the one its server is looking at.
pub open spec fn shows(
    d: Daemon,
    view_id: u64,
    root: Seq<char>,
    highlights: Seq<HighlightRange>,
    status: Option<Seq<char>>,
    s: StateSnapshot,
) -> bool {
    let pane = d.editor@.pane(view_id);
    let doc = d.editor@.doc(pane.doc);
    &&& s.activity@ == d.log@.activity
    &&& s.events@ == d.log@.events
    &&& s.generation == d.log@.generation
    &&& s.text@ == doc.text
    &&& s.checksum == checksum(doc.text)
    &&& opt_view(s.path) == doc.path
    &&& s.dirty == doc.dirty
    &&& s.selection@ == pane.selection.ranges
    &&& s.primary_index == pane.selection.primary_index
    &&& s.first_line == pane.first_line
    &&& s.mode == d.editor@.mode
    &&& s.highlights@ == highlights
    &&& opt_view(s.status) == status
    &&& opt_view(s.deleted) == opt_view(d.deleted)
    &&& s.peek is None
    &&& s.review_comment_count == d.review_comments@.len()
    &&& match doc.path {
        Some(p) => {
            &&& s.diagnostics@ == shown_diagnostics(d, p, root)
            &&& s.inlay_hints@ == shown_hints(d, p, root)
            &&& s.activities@ == work_on(d.activities@, p)
            &&& base_views(s.base_diagnostics@) == cached_only(
                counterparts(d.base_roots@, p),
                d.base_diagnostics@,
            )
        },
        None => {
            &&& s.diagnostics@.len() == 0
            &&& s.inlay_hints@.len() == 0
            &&& s.activities@.len() == 0
            &&& s.base_diagnostics@.len() == 0
        },
    }
}

fn copy_events(v: &Vec<ChangeEvent>) -> (r: Vec<ChangeEvent>)
    ensures
        r@ == v@,
{
    let r = v.clone();
    assert(r@ =~= v@);
    r
}

fn copy_records(v: &Vec<ActivityRecord>) -> (r: Vec<ActivityRecord>)
    ensures
        r@ == v@,
{
    let r = v.clone();
    assert(r@ =~= v@);
    r
}

impl Daemon {
    /// What is seen through the focused pane.
    pub fn snapshot(&self, root: &str, highlights: Vec<HighlightRange>, status: Option<String>) -> (r:
        StateSnapshot)
        requires
            self.wf(),
        ensures
            shows(*self, self.editor@.focused, root@, highlights@, opt_view(status), r),
    {
        self.snapshot_from_view(self.editor.focused, root, highlights, status)
    }

    /// What is seen through a pane.
    pub fn snapshot_from_view(
        &self,
        view_id: u64,
        root: &str,
        highlights: Vec<HighlightRange>,
        status: Option<String>,
    ) -> (r: StateSnapshot)
        requires
            self.wf(),
            self.editor@.has_pane(view_id),
        ensures
            shows(*self, view_id, root@, highlights@, opt_view(status), r),
    {
        proof {
            pane_ok(self.editor@, view_id);
        }
        let pane = self.editor.pane(view_id);
        let doc = self.editor.doc(pane.doc);
        let mut diagnostics: Vec<Diagnostic> = Vec::new();
        let mut inlay_hints: Vec<InlayHint> = Vec::new();
        let mut activities: Vec<Activity> = Vec::new();
        match &doc.path {
            Some(p) => {
                diagnostics = self.focus_diagnostics(p.as_str(), root);
                inlay_hints = self.focus_inlay_hints(p.as_str(), root);
                match self.activities.get(p.as_str()) {
                    Some(a) => {
                        activities = copy_activities(a);
                    },
                    None => {},
                }
            },
            None => {},
        }
        let focused: Option<&str> = match &doc.path {
            Some(p) => Some(p.as_str()),
            None => None,
        };
        let base_diagnostics = self.snapshot_base_diagnostics(focused);
        proof {
            assert(activities@ =~= match doc@.path {
                Some(p) => work_on(self.activities@, p),
                None => Seq::empty(),
            });
            if doc@.path is None {
                assert(base_views(base_diagnostics@).len() == base_diagnostics@.len());
            }
        }
        StateSnapshot {
            activity: copy_records(&self.log.activity),
            checksum: fnv1a64(doc.text.as_str().as_bytes()),
            text: doc.text.clone(),
            selection: copy_ranges(&pane.selection.ranges),
            primary_index: pane.selection.primary_index,
            mode: self.editor.mode,
            first_line: pane.first_line,
            diagnostics,
            inlay_hints,
            highlights,
            path: copy_opt(&doc.path),
            dirty: doc.dirty,
            status,
            activities,
            generation: self.log.generation,
            events: copy_events(&self.log.events),
            deleted: copy_opt(&self.deleted),
            peek: None,
            review_comment_count: self.review_comments.len(),
            base_diagnostics,
        }
    }
}

/// The checksum of a snapshot is that of its text: an edit that a client binds to the snapshot is
/// not refused as stale as long as the document is the same.
pub proof fn snapshot_checksum_admits_edits(
    d: Daemon,
    root: Seq<char>,
    highlights: Seq<HighlightRange>,
    status: Option<Seq<char>>,
    s: StateSnapshot,
    edit: crate::types::DocumentEdit,
    noop: bool,
)
    requires
        shows(d, d.editor@.focused, root, highlights, status, s),
        edit.checksum == s.checksum,
    ensures
        crate::edits::verdict(d, edit, noop) != crate::edits::Verdict::Stale,
{
}

} // verus!
