//! The steps of an open request, once the disk has been looked at.
use vstd::prelude::*;

use crate::clients::session_closed;
use crate::daemon::{
    actor_name, after_focus, listed_log, refocused, session_of, without_all, work_listed, Daemon,
    DiskBaseline,
};
use crate::edits::one_attempt;
use crate::editor::{opt_view, EditorView};
use crate::languages::server_of;
use crate::log::LogView;
use crate::open::{followed_in, ids_bounded, opened, Place, ReloadFacts};
use crate::table::{put, without};
use crate::types::{Activity, ActivityKind, EventKind, EventSource, Mode};

verus! {

/// A text that the disk holds in place of the one that was read, and how the engine took it.
pub struct DiskText {
    pub text: String,
    pub facts: ReloadFacts,
}

/// What an open request found on the disk and at the language servers. `dead` lists the files whose
/// sessions have died; `idle` is where the idle pane will stand.
pub struct OpenFacts {
    pub stat: Option<DiskBaseline>,
    pub dead: Vec<String>,
    pub idle: Place,
}

/// Whether a file has a language server.
pub open spec fn has_server(d: Daemon, path: Seq<char>) -> bool {
    server_of(d.languages.languages@, d.languages.servers@, path) is Some
}

/// The label of the fetching of diagnostics.
pub open spec fn settling_label() -> Seq<char> {
    "診断取得中"@
}

/// The log once the fetching of diagnostics is listed, if the file has a server.
pub open spec fn settling(
    l: LogView,
    work: Seq<(Seq<char>, Vec<Activity>)>,
    path: Seq<char>,
    supported: bool,
) -> LogView {
    if supported {
        listed_log(l, work, path, ActivityKind::DiagnosticsSettle)
    } else {
        l
    }
}

/// The editing state after the disk's text has come, if it has.
pub open spec fn with_disk_text(
    e: EditorView,
    owner: Option<u64>,
    path: Seq<char>,
    disk: Option<DiskText>,
) -> EditorView {
    match disk {
        Some(t) => if e.has_path(path) {
            let e1 = if owner is Some {
                session_closed(e, Mode::Normal)
            } else {
                e
            };
            if t.facts.reloaded {
                e1.with_doc(
                    e1.doc_at(path).id,
                    t.text@,
                    false,
                    t.facts.can_undo,
                    t.facts.can_redo,
                )
            } else {
                e1
            }
        } else {
            e
        },
        None => e,
    }
}

impl Daemon {
    /// Finishes an open request for a document that is open already and shown in the focused pane.
    /// If the disk holds another version, it replaces the text. A file that is gone from the disk
    /// is marked as deleted. Says whether the undo history has to close a group.
    pub fn open_existing(
        &mut self,
        path: &str,
        root: &str,
        conn_id: u64,
        source: EventSource,
        disk: Option<DiskText>,
        facts: OpenFacts,
    ) -> (r: bool)
        requires
            old(self).wf(),
            old(self).log@.room(4),
            old(self).editor@.has_path(path@),
            facts.idle.selection@.ok(),
        ensures
            final(self).wf(),
            r == (disk is Some && old(self).insert_owner is Some),
            final(self).insert_owner == if disk is Some {
                None::<u64>
            } else {
                old(self).insert_owner
            },
            final(self).editor@ == followed_in(
                with_disk_text(old(self).editor@, old(self).insert_owner, path@, disk),
                old(self).idle_view,
                path@,
                facts.idle,
            ),
            final(self).baselines@ == match facts.stat {
                Some(b) => put(old(self).baselines@, path@, b),
                None => old(self).baselines@,
            },
            match facts.stat {
                Some(_) => final(self).deleted is None,
                None => opt_view(final(self).deleted) == Some(path@),
            },
            final(self).hints@ == without_all(old(self).hints@, facts.dead@),
            final(self).diagnostics@ == after_focus(
                without_all(old(self).diagnostics@, facts.dead@),
                old(self).analysis_focus@,
                session_of(old(self).languages.languages@, path@, root@),
                path@,
            ),
            refocused(
                old(self).analysis_focus@,
                final(self).analysis_focus@,
                session_of(old(self).languages.languages@, path@, root@),
                path@,
            ),
            has_server(*old(self), path@) ==> work_listed(
                old(self).activities@,
                final(self).activities@,
                path@,
                ActivityKind::DiagnosticsSettle,
                settling_label(),
            ),
            !has_server(*old(self), path@) ==> final(self).activities == old(self).activities,
            ({
                let l1 = if disk matches Some(t) && t.facts.reloaded {
                    old(self).log@.event(
                        EventSource::External,
                        EventKind::ExternalChange,
                        None,
                        None,
                    )
                } else {
                    old(self).log@
                };
                let l2 = settling(
                    l1,
                    old(self).activities@,
                    path@,
                    has_server(*old(self), path@),
                );
                let l3 = l2.event(source, EventKind::Open, None, None);
                if source == EventSource::Headless {
                    one_attempt(
                        l3,
                        final(self).log@,
                        actor_name(old(self).conn_names@, conn_id),
                        EventKind::Open,
                        true,
                        path@,
                    )
                } else {
                    final(self).log@ == l3
                }
            }),
            *final(self) == (Daemon {
                editor: final(self).editor,
                insert_owner: final(self).insert_owner,
                baselines: final(self).baselines,
                deleted: final(self).deleted,
                hints: final(self).hints,
                diagnostics: final(self).diagnostics,
                analysis_focus: final(self).analysis_focus,
                activities: final(self).activities,
                log: final(self).log,
                ..*old(self)
            }),
    {
        match facts.stat {
            Some(b) => {
                self.baselines.insert(path, b);
                self.deleted = None;
            },
            None => {
                self.deleted = Some(path.to_owned());
            },
        }
        let mut closed = false;
        match disk {
            Some(t) => {
                closed = self.reload(path, t.text, t.facts);
            },
            None => {},
        }
        if self.languages.has_server(path) {
            self.list_settling(path);
        }
        self.drain_into(&facts.dead);
        self.log.record_event(source, EventKind::Open, None, None);
        self.open_idle_follow(path, facts.idle);
        self.set_analysis_focus(path, root);
        if source == EventSource::Headless {
            self.record_attempt(conn_id, EventKind::Open, true, path.to_owned());
        }
        closed
    }

    /// Lists the fetching of a file's diagnostics as work in progress.
    pub fn list_settling(&mut self, path: &str)
        requires
            old(self).wf(),
            old(self).log@.room(1),
        ensures
            final(self).wf(),
            *final(self) == (Daemon {
                activities: final(self).activities,
                log: final(self).log,
                ..*old(self)
            }),
            final(self).log@ == settling(old(self).log@, old(self).activities@, path@, true),
            work_listed(
                old(self).activities@,
                final(self).activities@,
                path@,
                ActivityKind::DiagnosticsSettle,
                settling_label(),
            ),
    {
        self.add_activity(path, ActivityKind::DiagnosticsSettle, "診断取得中".to_owned());
    }

    /// Finishes an open request for a file that was read from the disk: it is opened in the focused
    /// pane, and its session turns to it. Gives the document's number back.
    pub fn open_new(
        &mut self,
        path: &str,
        root: &str,
        text: String,
        conn_id: u64,
        source: EventSource,
        facts: OpenFacts,
    ) -> (r: u64)
        requires
            old(self).wf(),
            old(self).log@.room(3),
            ids_bounded(old(self).editor@),
            facts.idle.selection@.ok(),
        ensures
            final(self).wf(),
            !old(self).editor@.has_doc(r),
            final(self).editor@ == followed_in(
                opened(old(self).editor@, r, path@, text@),
                old(self).idle_view,
                path@,
                facts.idle,
            ),
            final(self).baselines@ == match facts.stat {
                Some(b) => put(old(self).baselines@, path@, b),
                None => old(self).baselines@,
            },
            final(self).deleted is None,
            final(self).hints@ == without_all(old(self).hints@, facts.dead@),
            final(self).diagnostics@ == without_all(
                without(
                    after_focus(
                        old(self).diagnostics@,
                        old(self).analysis_focus@,
                        session_of(old(self).languages.languages@, path@, root@),
                        path@,
                    ),
                    path@,
                ),
                facts.dead@,
            ),
            refocused(
                old(self).analysis_focus@,
                final(self).analysis_focus@,
                session_of(old(self).languages.languages@, path@, root@),
                path@,
            ),
            has_server(*old(self), path@) ==> work_listed(
                old(self).activities@,
                final(self).activities@,
                path@,
                ActivityKind::DiagnosticsSettle,
                settling_label(),
            ),
            !has_server(*old(self), path@) ==> final(self).activities == old(self).activities,
            ({
                let l1 = settling(
                    old(self).log@,
                    old(self).activities@,
                    path@,
                    has_server(*old(self), path@),
                );
                let l2 = l1.event(source, EventKind::Open, None, None);
                if source == EventSource::Headless {
                    one_attempt(
                        l2,
                        final(self).log@,
                        actor_name(old(self).conn_names@, conn_id),
                        EventKind::Open,
                        true,
                        path@,
                    )
                } else {
                    final(self).log@ == l2
                }
            }),
            *final(self) == (Daemon {
                editor: final(self).editor,
                baselines: final(self).baselines,
                deleted: final(self).deleted,
                hints: final(self).hints,
                diagnostics: final(self).diagnostics,
                analysis_focus: final(self).analysis_focus,
                activities: final(self).activities,
                log: final(self).log,
                ..*old(self)
            }),
    {
        if self.languages.has_server(path) {
            self.list_settling(path);
        }
        let doc = self.open_document(path, text);
        self.set_analysis_focus(path, root);
        self.diagnostics.remove(path);
        match facts.stat {
            Some(b) => {
                self.baselines.insert(path, b);
            },
            None => {},
        }
        self.deleted = None;
        self.log.record_event(source, EventKind::Open, None, None);
        self.drain_into(&facts.dead);
        self.open_idle_follow(path, facts.idle);
        if source == EventSource::Headless {
            self.record_attempt(conn_id, EventKind::Open, true, path.to_owned());
        }
        doc
    }

    /// Finishes an open request for a file that could not be read. No document changes; a headless
    /// client's attempt is recorded with the reason.
    pub fn open_failed(
        &mut self,
        status: &str,
        conn_id: u64,
        source: EventSource,
        dead: &Vec<String>,
    )
        requires
            old(self).wf(),
            old(self).log@.room(1),
        ensures
            final(self).wf(),
            final(self).hints@ == without_all(old(self).hints@, dead@),
            final(self).diagnostics@ == without_all(old(self).diagnostics@, dead@),
            if source == EventSource::Headless {
                one_attempt(
                    old(self).log@,
                    final(self).log@,
                    actor_name(old(self).conn_names@, conn_id),
                    EventKind::Open,
                    false,
                    status@,
                )
            } else {
                final(self).log == old(self).log
            },
            *final(self) == (Daemon {
                hints: final(self).hints,
                diagnostics: final(self).diagnostics,
                log: final(self).log,
                ..*old(self)
            }),
    {
        self.drain_into(dead);
        if source == EventSource::Headless {
            self.record_attempt(conn_id, EventKind::Open, false, status.to_owned());
        }
    }
}

} // verus!
