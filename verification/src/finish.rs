//! The last steps of requests: what the text engine, the disk and the language servers answered.
use vstd::prelude::*;

use crate::clients::{foreign_session, session_closed};
use crate::commands::{
    command_done, did_edit, outcome, reply_ok, started, Applied, EngineReply,
};
use crate::daemon::{
    actor_name, is_live_session, unlisted_log, work_unlisted, Daemon, DiskBaseline,
};
use crate::edits::{
    counted, edit_detail, edit_status_ok, edit_text, kind_of, one_attempt, spliced_state, verdict,
    weighed, EditFacts, EditOutcome, Verdict,
};
use crate::editor::{opt_view, with_doc_ok, EditorView};
use crate::log::LogView;
use crate::process::{Pending, SaveJob};
use crate::strings::{joined, joined3, same};
use crate::table::put;
use crate::types::{
    ActivityKind, Command, DocumentEdit, EventKind, EventSource, Mode, Range,
};

verus! {

/// Whether one more change was recorded, with the given values.
pub open spec fn one_event(
    old_log: LogView,
    new_log: LogView,
    source: EventSource,
    kind: EventKind,
    range: Option<Range>,
    text: Option<Seq<char>>,
) -> bool {
    &&& new_log.events.len() > 0
    &&& opt_view(new_log.events.last().text) == text
    &&& new_log == old_log.event(source, kind, range, new_log.events.last().text)
}

/// Whether `log` is the log once a headless client's attempt to edit is recorded; other clients'
/// attempts are not.
pub open spec fn tried(
    d: Daemon,
    log: LogView,
    edit: DocumentEdit,
    conn_id: u64,
    source: EventSource,
    v: Verdict,
    status: Option<String>,
) -> bool {
    if source == EventSource::Headless {
        one_attempt(
            d.log@,
            log,
            actor_name(d.conn_names@, conn_id),
            kind_of(edit),
            v == Verdict::Accepted,
            edit_detail(d, edit, v, opt_view(status)),
        )
    } else {
        log == d.log@
    }
}

/// Whether `log` is the log after an edit: a headless client's attempt is recorded first, and then
/// the change if the edit was accepted.
pub open spec fn edit_recorded(
    d: Daemon,
    log: LogView,
    edit: DocumentEdit,
    conn_id: u64,
    source: EventSource,
    v: Verdict,
    status: Option<String>,
) -> bool {
    exists|mid: LogView| #[trigger]
        tried(d, mid, edit, conn_id, source, v, status) && if v == Verdict::Accepted {
            one_event(
                mid,
                log,
                source,
                EventKind::ReplaceRange,
                Some(Range { anchor: edit.start, head: edit.end }),
                Some(edit.text@),
            )
        } else {
            log == mid
        }
}

/// A document that the language server has to be told of.
pub struct SyncTarget {
    pub session: u64,
    pub path: String,
    pub text: String,
}

impl Daemon {
    /// Finishes a command with the engine's answer. The change is recorded if there was one: as the
    /// command's, or as one of the mode if a session or select mode ended and nothing else came of
    /// the command. A session of another client that the first step has closed counts; the client's
    /// own, which goes on, does not. A headless client's attempt to close a document is recorded in
    /// any case.
    pub fn finish_command(
        &mut self,
        c: &Command,
        conn_id: u64,
        source: EventSource,
        pending: Pending,
        reply: EngineReply,
    ) -> (r: Applied)
        requires
            old(self).wf(),
            old(self).log@.room(2),
            !(c is Open),
            !(c is Save),
            reply_ok(started(*old(self), *c, conn_id), reply),
            old(self).metrics.get_state_total < u64::MAX,
        ensures
            final(self).wf(),
            ({
                let o = outcome(*old(self), *c, conn_id, reply);
                &&& command_done(
                    *old(self),
                    Daemon { log: old(self).log, ..*final(self) },
                    *c,
                    conn_id,
                    reply,
                    Applied { changed: o.changed, mode_only: o.mode_only, ..r },
                )
                &&& r.changed == if pending.begin.own {
                    did_edit(reply)
                } else {
                    o.changed || pending.begin.preempted
                }
                &&& r.mode_only == (!pending.begin.own && (o.mode_only || (
                pending.begin.preempted && !o.changed)))
            }),
            ({
                let mid = if r.mode_only {
                    old(self).log@.event(source, EventKind::SetMode, None, None)
                } else {
                    match pending.change {
                        Some(ch) if r.changed => old(self).log@.event(
                            source,
                            ch.kind,
                            ch.range,
                            ch.text,
                        ),
                        _ => old(self).log@,
                    }
                };
                if source == EventSource::Headless && c is Close {
                    one_attempt(
                        mid,
                        final(self).log@,
                        actor_name(old(self).conn_names@, conn_id),
                        EventKind::Close,
                        r.changed,
                        match pending.closing {
                            Some(p) => p@,
                            None => "(no file open)"@,
                        },
                    )
                } else {
                    final(self).log@ == mid
                }
            }),
    {
        let did = match &reply {
            EngineReply::Edited(e) => !e.noop,
            _ => false,
        };
        let mut applied = self.apply_from(c, conn_id, reply);
        if pending.begin.own {
            applied.changed = did;
            applied.mode_only = false;
        } else if pending.begin.preempted && !applied.changed {
            applied.changed = true;
            applied.mode_only = true;
        }
        if applied.mode_only {
            self.log.record_event(source, EventKind::SetMode, None, None);
        } else if applied.changed {
            match pending.change {
                Some(ch) => {
                    self.log.record_event(source, ch.kind, ch.range, ch.text);
                },
                None => {},
            }
        }
        if source == EventSource::Headless {
            match c {
                Command::Close => {
                    let detail = match pending.closing {
                        Some(p) => p,
                        None => "(no file open)".to_owned(),
                    };
                    self.record_attempt(conn_id, EventKind::Close, applied.changed, detail);
                },
                _ => {},
            }
        }
        applied
    }

    /// Finishes an edit by position: an accepted one is recorded as a change.
    pub fn finish_edit(
        &mut self,
        edit: &DocumentEdit,
        conn_id: u64,
        source: EventSource,
        facts: EditFacts,
    ) -> (r: EditOutcome)
        requires
            old(self).wf(),
            old(self).log@.room(2),
            old(self).metrics.edit_room(),
            edit_text(old(self).editor@.current().text, *edit).len() <= usize::MAX,
            weighed(old(self).editor@.current().text, *edit, facts.noop),
        ensures
            final(self).wf(),
            *final(self) == (Daemon {
                editor: final(self).editor,
                insert_owner: final(self).insert_owner,
                log: final(self).log,
                metrics: final(self).metrics,
                ..*old(self)
            }),
            ({
                let v = verdict(*old(self), *edit, facts.noop);
                let e = if foreign_session(*old(self), conn_id) {
                    session_closed(old(self).editor@, Mode::Normal)
                } else {
                    old(self).editor@
                };
                &&& r.applied == (v == Verdict::Accepted)
                &&& edit_status_ok(*old(self), *edit, v, r.status)
                &&& if v == Verdict::Accepted {
                    final(self).editor@ == spliced_state(e, *edit, facts)
                } else {
                    final(self).editor == old(self).editor
                }
                &&& r.preempted == (v == Verdict::Accepted && foreign_session(
                    *old(self),
                    conn_id,
                ))
                &&& final(self).insert_owner == if r.preempted {
                    None
                } else {
                    old(self).insert_owner
                }
                &&& final(self).metrics == counted(old(self).metrics, *edit, v)
                &&& edit_recorded(*old(self), final(self).log@, *edit, conn_id, source, v, r.status)
            }),
    {
        let r = self.apply_edit(edit, conn_id, source, facts);
        let ghost mid = self.log@;
        proof {
            assert(tried(
                *old(self),
                mid,
                *edit,
                conn_id,
                source,
                verdict(*old(self), *edit, facts.noop),
                r.status,
            ));
        }
        if r.applied {
            let range = Range { anchor: edit.start, head: edit.end };
            let text = Some(edit.text.clone());
            proof {
                crate::log::event_laws(mid, source, EventKind::ReplaceRange, Some(range), text);
            }
            self.log.record_event(source, EventKind::ReplaceRange, Some(range), text);
        }
        r
    }

    /// The document to tell the language server of after an edit: the focused one, if it has a
    /// session.
    pub fn sync_target(&self, root: &str) -> (r: Option<SyncTarget>)
        requires
            self.wf(),
        ensures
            match self.editor@.current().path {
                Some(p) => match r {
                    Some(t) => {
                        &&& t.path@ == p
                        &&& t.text@ == self.editor@.current().text
                        &&& is_live_session(*self, p, root@, Some(t.session))
                    },
                    None => is_live_session(*self, p, root@, None),
                },
                None => r is None,
            },
    {
        let doc = self.editor.current();
        match &doc.path {
            Some(p) => match self.session_for(p.as_str(), root) {
                Some(session) => Some(
                    SyncTarget { session, path: p.clone(), text: doc.text.clone() },
                ),
                None => None,
            },
            None => None,
        }
    }

    /// Whether the generation that a client waits for has come.
    pub fn wait_over(&self, generation: u64) -> (r: bool)
        ensures
            r == (self.log@.generation > generation),
    {
        self.log.generation > generation
    }
}

/// The documents after one was written: it is clean if its text is still the one that was written.
pub open spec fn saved(e: EditorView, doc: u64, text: Seq<char>) -> EditorView {
    if e.has_doc(doc) && e.doc(doc).text == text {
        e.with_doc(doc, text, false, e.doc(doc).can_undo, e.doc(doc).can_redo)
    } else {
        e
    }
}

/// What a client is told after a save.
pub open spec fn saved_status(path: Seq<char>, clean: bool) -> Seq<char> {
    if clean {
        "saved: "@ + path
    } else {
        "saved: "@ + path + " (edited during save, still dirty)"@
    }
}

impl Daemon {
    /// Marks a document as clean if its text is the one that was written. Says whether it is.
    pub fn mark_saved_doc(&mut self, doc: u64, text: &str) -> (r: bool)
        requires
            old(self).wf(),
        ensures
            final(self).wf(),
            *final(self) == (Daemon { editor: final(self).editor, ..*old(self) }),
            final(self).editor@ == saved(old(self).editor@, doc, text@),
            r == (old(self).editor@.has_doc(doc) && old(self).editor@.doc(doc).text == text@),
    {
        let i = self.editor.doc_index(doc);
        if i >= self.editor.documents.len() {
            return false;
        }
        let ghost before = self.editor@;
        assert(before.documents[i as int] == self.editor.documents@[i as int]@);
        if !same(self.editor.documents[i].text.as_str(), text) {
            return false;
        }
        let can_undo = self.editor.documents[i].can_undo;
        let can_redo = self.editor.documents[i].can_redo;
        proof {
            with_doc_ok(before, doc, text@, false, can_undo, can_redo);
        }
        self.editor.set_doc(doc, text.to_owned(), false, can_undo, can_redo);
        proof {
            crate::clients::panes_ok_same_ids(
                before,
                self.editor@,
                self.conn_views@,
                self.idle_view,
                self.next_pane,
            );
        }
        true
    }

    /// Finishes a save. `failed` says why the disk could not be written, and `stat` what it then
    /// says of the file. A document without a path cannot be saved.
    pub fn finish_save(
        &mut self,
        job: &SaveJob,
        conn_id: u64,
        source: EventSource,
        failed: Option<String>,
        stat: Option<DiskBaseline>,
    ) -> (r: String)
        requires
            old(self).wf(),
            old(self).log@.room(3),
        ensures
            final(self).wf(),
            *final(self) == (Daemon {
                editor: final(self).editor,
                activities: final(self).activities,
                baselines: final(self).baselines,
                deleted: final(self).deleted,
                log: final(self).log,
                ..*old(self)
            }),
            ({
                let failure = match (job.path, failed) {
                    (None, _) => Some("no file name"@),
                    (Some(_), Some(e)) => Some(e@),
                    (Some(_), None) => None,
                };
                let l1 = match job.path {
                    Some(p) => unlisted_log(
                        old(self).log@,
                        old(self).activities@,
                        p@,
                        ActivityKind::Save,
                    ),
                    None => old(self).log@,
                };
                let l2 = if failure is None {
                    l1.event(source, EventKind::Save, None, None)
                } else {
                    l1
                };
                &&& match job.path {
                    Some(p) => work_unlisted(
                        old(self).activities@,
                        final(self).activities@,
                        p@,
                        ActivityKind::Save,
                    ),
                    None => final(self).activities == old(self).activities,
                }
                &&& match failure {
                    Some(e) => {
                        &&& r@ == "save failed: "@ + e
                        &&& final(self).editor == old(self).editor
                        &&& final(self).baselines == old(self).baselines
                        &&& final(self).deleted == old(self).deleted
                    },
                    None => {
                        let p = job.path->0@;
                        let clean = old(self).editor@.has_doc(job.doc) && old(self).editor@.doc(
                            job.doc,
                        ).text == job.text@;
                        &&& r@ == saved_status(p, clean)
                        &&& final(self).editor@ == saved(old(self).editor@, job.doc, job.text@)
                        &&& final(self).deleted is None
                        &&& final(self).baselines@ == match stat {
                            Some(b) => put(old(self).baselines@, p, b),
                            None => old(self).baselines@,
                        }
                    },
                }
                &&& if source == EventSource::Headless {
                    one_attempt(
                        l2,
                        final(self).log@,
                        actor_name(old(self).conn_names@, conn_id),
                        EventKind::Save,
                        failure is None,
                        if failure is None {
                            job.path->0@
                        } else {
                            r@
                        },
                    )
                } else {
                    final(self).log@ == l2
                }
            }),
    {
        match &job.path {
            Some(p) => {
                self.remove_activity(p.as_str(), ActivityKind::Save);
            },
            None => {},
        }
        match (&job.path, failed) {
            (Some(p), None) => {
                let clean = self.mark_saved_doc(job.doc, job.text.as_str());
                match stat {
                    Some(b) => {
                        self.baselines.insert(p.as_str(), b);
                    },
                    None => {},
                }
                self.deleted = None;
                proof {
                    crate::log::event_laws(self.log@, source, EventKind::Save, None, None);
                }
                self.log.record_event(source, EventKind::Save, None, None);
                let status = if clean {
                    joined("saved: ", p.as_str())
                } else {
                    joined3("saved: ", p.as_str(), " (edited during save, still dirty)")
                };
                if source == EventSource::Headless {
                    self.record_attempt(conn_id, EventKind::Save, true, p.clone());
                }
                status
            },
            (None, _) => {
                let status = joined("save failed: ", "no file name");
                if source == EventSource::Headless {
                    self.record_attempt(conn_id, EventKind::Save, false, status.clone());
                }
                status
            },
            (Some(_), Some(e)) => {
                let status = joined("save failed: ", e.as_str());
                if source == EventSource::Headless {
                    self.record_attempt(conn_id, EventKind::Save, false, status.clone());
                }
                status
            },
        }
    }
}

} // verus!
