//! Changes on the disk: which documents have to be read again, and what the clients are told.
use vstd::prelude::*;

use crate::clients::session_closed;
use crate::daemon::{Daemon, DiskBaseline};
use crate::editor::{opt_view, EditorView};
use crate::lists::reversed;
use crate::log::LogView;
use crate::opening::{with_disk_text, DiskText};
use crate::paths::deep;
use crate::strings::same;
use crate::table::put;
use crate::types::{EventKind, EventSource, Mode};

verus! {

/// What a look at the disk asks for: the files to read again, and whether the focused document is
/// gone from the disk or is there.
pub struct WatchPlan {
    pub reload: Vec<String>,
    pub focused_deleted: bool,
    pub focused_reappeared: bool,
}

/// A file that was read again, how the engine took its text, and what the disk then says of it.
pub struct Reread {
    pub path: String,
    pub disk: DiskText,
    pub stat: Option<DiskBaseline>,
}

/// What came of a look at the disk. `closed_group` says whether the undo history has to close a
/// group, `tell` whether the clients are to be told, and `sync` which text of the focused document
/// the language server has to be told.
pub struct WatchResult {
    pub reloaded: bool,
    pub closed_group: bool,
    pub tell: bool,
    pub sync: Option<String>,
}

/// The files whose disk version is another than the known one, in order. `stats` says of each known
/// file what the disk holds, or nothing if it is gone.
pub open spec fn changed_files(
    baselines: Seq<(Seq<char>, DiskBaseline)>,
    stats: Seq<Option<DiskBaseline>>,
) -> Seq<Seq<char>>
    decreases baselines.len(),
{
    if baselines.len() == 0 {
        seq![]
    } else {
        let before = changed_files(baselines.drop_last(), stats);
        let k = baselines.len() - 1;
        if k < stats.len() && stats[k] is Some && stats[k]->0 != baselines[k].1 {
            before.push(baselines[k].0)
        } else {
            before
        }
    }
}

/// Whether the focused document is a known file that the disk has (`there`) or does not have.
pub open spec fn focused_file(
    baselines: Seq<(Seq<char>, DiskBaseline)>,
    stats: Seq<Option<DiskBaseline>>,
    focused: Option<Seq<char>>,
    there: bool,
) -> bool {
    exists|i: int|
        0 <= i < baselines.len() && i < stats.len() && focused == Some((#[trigger] baselines[i]).0)
            && (stats[i] is Some) == there
}

/// The log after a file has gone: once, when it is first noticed.
pub open spec fn gone_log(d: Daemon, plan: WatchPlan) -> LogView {
    if plan.focused_deleted && d.deleted is None && d.editor@.current().path is Some {
        d.log@.event(EventSource::External, EventKind::ExternalChange, None, None)
    } else {
        d.log@
    }
}

impl Daemon {
    /// Holds the known files against what the disk says of them.
    pub fn watch_plan(&self, stats: &Vec<Option<DiskBaseline>>) -> (r: WatchPlan)
        requires
            self.wf(),
            stats@.len() == self.baselines@.len(),
        ensures
            deep(r.reload@) == changed_files(self.baselines@, stats@),
            r.focused_deleted == focused_file(
                self.baselines@,
                stats@,
                self.editor@.current().path,
                false,
            ),
            r.focused_reappeared == focused_file(
                self.baselines@,
                stats@,
                self.editor@.current().path,
                true,
            ),
    {
        let mut reload: Vec<String> = Vec::new();
        let mut focused_deleted = false;
        let mut focused_reappeared = false;
        let focused = self.editor.focused_path();
        let ghost all = self.baselines@;
        let ghost fp = self.editor@.current().path;
        let mut i: usize = 0;
        assert(all.take(0) =~= seq![]);
        assert(deep(reload@) =~= seq![]);
        while i < self.baselines.entries.len()
            invariant
                i <= self.baselines.entries.len(),
                self.wf(),
                all == self.baselines@,
                fp == opt_view(focused),
                stats@.len() == all.len(),
                deep(reload@) == changed_files(all.take(i as int), stats@),
                focused_deleted == exists|j: int|
                    0 <= j < i && fp == Some((#[trigger] all[j]).0) && stats@[j] is None,
                focused_reappeared == exists|j: int|
                    0 <= j < i && fp == Some((#[trigger] all[j]).0) && stats@[j] is Some,
            decreases self.baselines.entries.len() - i,
        {
            let e = &self.baselines.entries[i];
            assert(all[i as int] == (e.key@, e.value));
            assert(all.take(i as int + 1).drop_last() =~= all.take(i as int));
            assert(all.take(i as int + 1)[i as int] == all[i as int]);
            let is_focused = match &focused {
                Some(f) => same(f.as_str(), e.key.as_str()),
                None => false,
            };
            match stats[i] {
                Some(s) => {
                    if s != e.value {
                        let ghost before = deep(reload@);
                        reload.push(e.key.clone());
                        assert(deep(reload@) =~= before.push(e.key@));
                    }
                    if is_focused {
                        focused_reappeared = true;
                    }
                },
                None => {
                    if is_focused {
                        focused_deleted = true;
                    }
                },
            }
            i = i + 1;
        }
        assert(all.take(all.len() as int) =~= all);
        WatchPlan { reload, focused_deleted, focused_reappeared }
    }

    /// Notes that the focused document has gone from the disk, or is there again.
    pub fn note_presence(&mut self, plan: &WatchPlan)
        requires
            old(self).wf(),
            old(self).log@.room(1),
        ensures
            final(self).wf(),
            *final(self) == (Daemon {
                deleted: final(self).deleted,
                log: final(self).log,
                ..*old(self)
            }),
            final(self).log@ == gone_log(*old(self), *plan),
            opt_view(final(self).deleted) == presence(*old(self), *plan),
    {
        if plan.focused_deleted && self.deleted.is_none() {
            match self.editor.focused_path() {
                Some(p) => {
                    self.deleted = Some(p);
                    self.log.record_event(
                        EventSource::External,
                        EventKind::ExternalChange,
                        None,
                        None,
                    );
                },
                None => {},
            }
        } else if plan.focused_reappeared && self.deleted.is_some() {
            self.deleted = None;
        }
    }

    /// Takes over one file that was read again. Says whether the document was reloaded and whether
    /// an insert session was closed for it. A file that is not open any more is passed over.
    pub fn take_reread(&mut self, one: Reread) -> (r: (bool, bool))
        requires
            old(self).wf(),
            old(self).log@.room(1),
        ensures
            final(self).wf(),
            r.0 == (old(self).editor@.has_path(one.path@) && one.disk.facts.reloaded),
            r.1 == (old(self).editor@.has_path(one.path@) && old(self).insert_owner is Some),
            final(self).editor@ == with_disk_text(
                old(self).editor@,
                old(self).insert_owner,
                one.path@,
                Some(one.disk),
            ),
            final(self).insert_owner == if old(self).editor@.has_path(one.path@) {
                None::<u64>
            } else {
                old(self).insert_owner
            },
            final(self).baselines@ == match one.stat {
                Some(b) if r.0 => put(old(self).baselines@, one.path@, b),
                _ => old(self).baselines@,
            },
            final(self).log@ == if r.0 {
                old(self).log@.event(
                    EventSource::External,
                    EventKind::ExternalChange,
                    None,
                    None,
                )
            } else {
                old(self).log@
            },
            *final(self) == (Daemon {
                editor: final(self).editor,
                insert_owner: final(self).insert_owner,
                baselines: final(self).baselines,
                log: final(self).log,
                ..*old(self)
            }),
    {
        let open = self.editor.path_index(one.path.as_str()) < self.editor.documents.len();
        let reloaded = open && one.disk.facts.reloaded;
        let closed = self.reload(one.path.as_str(), one.disk.text, one.disk.facts);
        if reloaded {
            match one.stat {
                Some(b) => {
                    self.baselines.insert(one.path.as_str(), b);
                },
                None => {},
            }
        }
        (reloaded, closed)
    }

    /// Takes over a look at the disk: the presence of the focused document is noted, then the files
    /// that were read again replace their documents' texts, in order. If the focused document is
    /// among them its last text is to be told to the language server. The clients are told if
    /// anything happened.
    pub fn watch_apply(&mut self, plan: &WatchPlan, contents: Vec<Reread>) -> (r: WatchResult)
        requires
            old(self).wf(),
            old(self).log@.room(1 + contents@.len() as int),
        ensures
            final(self).wf(),
            *final(self) == (Daemon {
                editor: final(self).editor,
                insert_owner: final(self).insert_owner,
                baselines: final(self).baselines,
                deleted: final(self).deleted,
                log: final(self).log,
                ..*old(self)
            }),
            opt_view(final(self).deleted) == presence(*old(self), *plan),
            ({
                let end = reread_all(
                    WatchState {
                        editor: old(self).editor@,
                        owner: old(self).insert_owner,
                        baselines: old(self).baselines@,
                        log: gone_log(*old(self), *plan),
                        reloaded: false,
                        closed: false,
                        sync: None,
                    },
                    contents@,
                );
                &&& final(self).editor@ == end.editor
                &&& final(self).insert_owner == end.owner
                &&& final(self).baselines@ == end.baselines
                &&& final(self).log@ == end.log
                &&& r.reloaded == end.reloaded
                &&& r.closed_group == end.closed
                &&& opt_view(r.sync) == end.sync
                &&& r.tell == (end.reloaded || plan.focused_deleted || plan.focused_reappeared)
            }),
    {
        self.note_presence(plan);
        let ghost all = contents@;
        let ghost first = WatchState {
            editor: self.editor@,
            owner: self.insert_owner,
            baselines: self.baselines@,
            log: self.log@,
            reloaded: false,
            closed: false,
            sync: None,
        };
        let mut reloaded = false;
        let mut closed_group = false;
        let mut sync: Option<String> = None;
        let mut front = reversed(contents);
        let ghost start = *self;
        assert(all.take(0) =~= seq![]);
        while front.len() > 0
            invariant
                self.wf(),
                front@.len() <= all.len(),
                forall|j: int| 0 <= j < front@.len() ==> front@[j] == all[all.len() - 1 - j],
                self.log@.room(front@.len() as int),
                reread_all(first, all.take(all.len() - front@.len())) == (WatchState {
                    editor: self.editor@,
                    owner: self.insert_owner,
                    baselines: self.baselines@,
                    log: self.log@,
                    reloaded,
                    closed: closed_group,
                    sync: opt_view(sync),
                }),
                *self == (Daemon {
                    editor: self.editor,
                    insert_owner: self.insert_owner,
                    baselines: self.baselines,
                    log: self.log,
                    ..start
                }),
            decreases front@.len(),
        {
            let ghost n = all.len() - front@.len();
            assert(all.take(n + 1).drop_last() =~= all.take(n));
            match front.pop() {
                Some(one) => {
                    assert(one == all[n]);
                    let path = one.path.clone();
                    let text = one.disk.text.clone();
                    let (did, closed) = self.take_reread(one);
                    if closed {
                        closed_group = true;
                    }
                    if did {
                        reloaded = true;
                        match self.editor.focused_path() {
                            Some(f) => {
                                if same(f.as_str(), path.as_str()) {
                                    sync = Some(text);
                                }
                            },
                            None => {},
                        }
                    }
                },
                None => {},
            }
        }
        assert(all.take(all.len() as int) =~= all);
        let tell = reloaded || plan.focused_deleted || plan.focused_reappeared;
        WatchResult { reloaded, closed_group, tell, sync }
    }
}

/// The path that is waiting to be closed because its file has gone, after a look at the disk.
pub open spec fn presence(d: Daemon, plan: WatchPlan) -> Option<Seq<char>> {
    if plan.focused_deleted && d.deleted is None {
        d.editor@.current().path
    } else if plan.focused_reappeared {
        None
    } else {
        opt_view(d.deleted)
    }
}

/// What rereading files changes, and what it reports.
#[verifier::ext_equal]
pub struct WatchState {
    pub editor: EditorView,
    pub owner: Option<u64>,
    pub baselines: Seq<(Seq<char>, DiskBaseline)>,
    pub log: LogView,
    pub reloaded: bool,
    pub closed: bool,
    pub sync: Option<Seq<char>>,
}

/// The state after one file was read again. One that is not open any more is passed over; an open
/// one closes the insert session, and is reloaded if the engine took its text.
pub open spec fn reread_one(s: WatchState, one: Reread) -> WatchState {
    let open = s.editor.has_path(one.path@);
    let did = open && one.disk.facts.reloaded;
    let editor = with_disk_text(s.editor, s.owner, one.path@, Some(one.disk));
    WatchState {
        editor,
        owner: if open {
            None
        } else {
            s.owner
        },
        baselines: match one.stat {
            Some(b) if did => put(s.baselines, one.path@, b),
            _ => s.baselines,
        },
        log: if did {
            s.log.event(EventSource::External, EventKind::ExternalChange, None, None)
        } else {
            s.log
        },
        reloaded: s.reloaded || did,
        closed: s.closed || (open && s.owner is Some),
        sync: if did && editor.current().path == Some(one.path@) {
            Some(one.disk.text@)
        } else {
            s.sync
        },
    }
}

/// The state after files were read again, in order.
pub open spec fn reread_all(s: WatchState, contents: Seq<Reread>) -> WatchState
    decreases contents.len(),
{
    if contents.len() == 0 {
        s
    } else {
        reread_one(reread_all(s, contents.drop_last()), contents.last())
    }
}

/// Whether a snapshot is to be sent to the other clients: the generation is another than that of
/// the one that was sent last.
pub fn publish(last_generation: u64, generation: u64) -> (r: bool)
    ensures
        r == (last_generation != generation),
{
    last_generation != generation
}

/// After a reread the document holds what the disk holds and is clean, if the engine took the text.
pub proof fn reread_matches_disk(
    e: EditorView,
    owner: Option<u64>,
    path: Seq<char>,
    disk: DiskText,
)
    requires
        e.ok(),
        e.has_path(path),
        disk.facts.reloaded,
    ensures
        ({
            let n = with_disk_text(e, owner, path, Some(disk));
            &&& n.doc(e.doc_at(path).id).text == disk.text@
            &&& !n.doc(e.doc_at(path).id).dirty
            &&& n.panes == e.panes
            &&& n.mode == if owner is Some {
                Mode::Normal
            } else {
                e.mode
            }
        }),
{
    let e1 = if owner is Some {
        session_closed(e, Mode::Normal)
    } else {
        e
    };
    crate::editor::mode_keeps_ok(e, e1);
    crate::editor::path_from_bounds(e.documents, path, 0);
    let k = crate::editor::path_from(e.documents, path, 0);
    let id = e.documents[k].id;
    crate::editor::doc_from_bounds(e.documents, id, 0);
    assert(e1.has_doc(id)) by {
        if crate::editor::doc_from(e.documents, id, 0) >= e.documents.len() {
            assert(e.documents[k].id != id);
        }
    }
    crate::editor::with_doc_ok(
        e1,
        id,
        disk.text@,
        false,
        disk.facts.can_undo,
        disk.facts.can_redo,
    );
}

} // verus!
