//! The daemon's state, and what connections, caches and language server sessions do to it.
use std::collections::{HashMap, HashSet};

use vstd::prelude::*;

use crate::editor::{one_range, DocView, Editor, EditorView, PaneView};
use crate::languages::{language_of, server_of, LanguageDef, LanguageTable};
use crate::log::{ChangeLog, LogView};
use crate::paths::deep;
use crate::sessions::{serves, serves_best, KeyView, SessionKey, SessionTable};
use crate::strings::same;
use crate::table::{has_key, newest, put, put_laws, value_of, without, without_laws, Table};
use crate::text::{checksum, fnv1a64};
use crate::types::{
    copy_diagnostics, copy_hints, no_counts, Activity, ActivityKind, Diagnostic, InlayHint, Mode,
    OutlineSymbol, ReviewComment, ServerMetrics,
};

verus! {

/// How many files' inlay hints are kept, and how many files' outlines.
pub const MAX_HINT_CACHE: usize = 64;

/// How many base files' diagnostics are kept.
pub const MAX_BASE_DIAG_CACHE: usize = 64;

/// The height that a screen is taken to have until it tells its own.
pub const DEFAULT_VIEWPORT: usize = 24;

/// The greatest screen height that is believed.
pub const MAX_VIEWPORT_HEIGHT: usize = 10_000;

/// The time a file was last written, as far as the file system tells it.
#[derive(Clone, Copy, Debug, PartialEq, Eq, Structural)]
pub struct FileTime {
    pub secs: u64,
    pub nanos: u32,
}

/// What the disk said of a file when it was last read or written.
#[derive(Clone, Copy, Debug, PartialEq, Eq, Structural)]
pub struct DiskBaseline {
    pub mtime: FileTime,
    pub size: u64,
}

/// A registered base: its commit, and the live repository it is compared with, if known.
pub struct BaseRootReg {
    pub commit: String,
    pub repo: Option<String>,
}

/// Inlay hints and the checksum of the text they were made for.
pub struct HintCache {
    pub text_checksum: u64,
    pub hints: Vec<InlayHint>,
}

/// An outline and the checksum of the text it was made for.
pub struct OutlineCache {
    pub text_checksum: u64,
    pub symbols: Vec<OutlineSymbol>,
}

/// A connection's pane and the height of its screen.
#[derive(Clone, Copy, Debug, PartialEq, Eq, Structural)]
pub struct ClientView {
    pub view_id: u64,
    pub viewport: usize,
}

/// The last search and the stretch that it found.
pub struct SearchState {
    pub query: String,
    pub found_start: usize,
    pub found_end: usize,
}

/// The state that all clients share.
///
/// `sessions` maps each live language server session to the number by which its process is known.
/// `analysis_focus` names, per session, the one document that the server is looking at. A
/// connection with a screen has a pane of its own; all others look through the idle pane.
pub struct Daemon {
    pub editor: Editor,
    pub viewport_height: usize,
    pub next_pane: u64,
    pub sessions: SessionTable<u64>,
    pub base_roots: Table<BaseRootReg>,
    pub base_diagnostics: Table<Vec<Diagnostic>>,
    pub base_diag_inflight: Table<()>,
    pub review_comments: Vec<ReviewComment>,
    pub languages: LanguageTable,
    pub languages_mtime: Option<FileTime>,
    pub diagnostics: Table<Vec<Diagnostic>>,
    pub analysis_focus: SessionTable<String>,
    pub hints: Table<HintCache>,
    pub outlines: Table<OutlineCache>,
    pub insert_owner: Option<u64>,
    pub last_search: Option<SearchState>,
    pub interactive_clients: HashSet<u64>,
    pub conn_views: HashMap<u64, ClientView>,
    pub idle_view: u64,
    pub conn_names: HashMap<u64, String>,
    pub activities: Table<Vec<Activity>>,
    pub baselines: Table<DiskBaseline>,
    pub deleted: Option<String>,
    pub log: ChangeLog,
    pub metrics: ServerMetrics,
}

/// Whether two review comments are attached to the same line of the same side of the same file.
pub open spec fn same_anchor(a: ReviewComment, b: ReviewComment) -> bool {
    a.path@ == b.path@ && a.side == b.side && a.line == b.line
}

/// Whether no line has two review comments.
pub open spec fn anchors_differ(v: Seq<ReviewComment>) -> bool {
    forall|i: int, j: int|
        0 <= i < j < v.len() ==> !same_anchor(#[trigger] v[i], #[trigger] v[j])
}

/// Whether no kind of work is listed twice.
pub open spec fn kinds_differ(v: Seq<Activity>) -> bool {
    forall|i: int, j: int|
        0 <= i < j < v.len() ==> (#[trigger] v[i]).kind != (#[trigger] v[j]).kind
}

/// Whether a kind of work is listed.
pub open spec fn has_kind(v: Seq<Activity>, kind: ActivityKind) -> bool {
    exists|i: int| 0 <= i < v.len() && (#[trigger] v[i]).kind == kind
}

/// The work in progress on a file.
pub open spec fn work_on(t: Seq<(Seq<char>, Vec<Activity>)>, path: Seq<char>) -> Seq<Activity> {
    match value_of(t, path) {
        Some(v) => v@,
        None => Seq::empty(),
    }
}

/// Whether `new` is `old` with a kind of work listed for a file. Work of a kind that is listed
/// already changes nothing.
pub open spec fn work_listed(
    old_work: Seq<(Seq<char>, Vec<Activity>)>,
    new_work: Seq<(Seq<char>, Vec<Activity>)>,
    path: Seq<char>,
    kind: ActivityKind,
    label: Seq<char>,
) -> bool {
    let before = work_on(old_work, path);
    let after = work_on(new_work, path);
    if has_kind(before, kind) {
        new_work == old_work
    } else {
        &&& after.len() == before.len() + 1
        &&& after.drop_last() == before
        &&& after.last().kind == kind
        &&& after.last().label@ == label
        &&& forall|o: Seq<char>|
            o != path ==> #[trigger] value_of(new_work, o) == value_of(old_work, o)
    }
}

/// The log once a kind of work is listed for a file.
pub open spec fn listed_log(
    l: LogView,
    work: Seq<(Seq<char>, Vec<Activity>)>,
    path: Seq<char>,
    kind: ActivityKind,
) -> LogView {
    if has_kind(work_on(work, path), kind) {
        l
    } else {
        l.bump()
    }
}

/// Whether `new` is `old` with a kind of work taken off a file's list.
pub open spec fn work_unlisted(
    old_work: Seq<(Seq<char>, Vec<Activity>)>,
    new_work: Seq<(Seq<char>, Vec<Activity>)>,
    path: Seq<char>,
    kind: ActivityKind,
) -> bool {
    if has_kind(work_on(old_work, path), kind) {
        &&& work_on(new_work, path) == work_on(old_work, path).filter(
            |a: Activity| a.kind != kind,
        )
        &&& forall|o: Seq<char>|
            o != path ==> #[trigger] value_of(new_work, o) == value_of(old_work, o)
    } else {
        new_work == old_work
    }
}

/// The log once a kind of work is off a file's list.
pub open spec fn unlisted_log(
    l: LogView,
    work: Seq<(Seq<char>, Vec<Activity>)>,
    path: Seq<char>,
    kind: ActivityKind,
) -> LogView {
    if has_kind(work_on(work, path), kind) {
        l.bump()
    } else {
        l
    }
}

/// Whether every file with work in progress lists some, and none of it twice.
pub open spec fn work_ok(t: Seq<(Seq<char>, Vec<Activity>)>) -> bool {
    forall|i: int|
        0 <= i < t.len() ==> (#[trigger] t[i]).1@.len() > 0 && kinds_differ(t[i].1@)
}

/// Whether the panes of the connections exist, belong to one connection each, and are not the idle
/// pane; the idle pane exists; and no screen is too high.
pub open spec fn panes_ok(
    e: EditorView,
    conns: Map<u64, ClientView>,
    idle: u64,
    next_pane: u64,
) -> bool {
    &&& e.has_pane(idle)
    &&& idle < next_pane
    &&& forall|i: int| 0 <= i < e.panes.len() ==> (#[trigger] e.panes[i]).id < next_pane
    &&& forall|c: u64| #[trigger]
        conns.contains_key(c) ==> e.has_pane(conns[c].view_id) && conns[c].view_id != idle
            && conns[c].viewport <= MAX_VIEWPORT_HEIGHT
    &&& forall|c: u64, d: u64|
        c != d && #[trigger] conns.contains_key(c) && #[trigger] conns.contains_key(d)
            ==> conns[c].view_id != conns[d].view_id
}

/// Whether the mode, the owner of the insert session and the undo group agree: a session is open,
/// and owned, exactly in insert mode.
pub open spec fn mode_ok(e: EditorView, owner: Option<u64>) -> bool {
    &&& (e.mode == Mode::Insert) == (owner is Some)
    &&& e.group_open == (e.mode == Mode::Insert)
}

impl Daemon {
    /// Whether the tables hold no key twice and keep to their bounds.
    pub open spec fn tables_ok(&self) -> bool {
        &&& self.sessions.wf()
        &&& self.base_roots.wf()
        &&& self.base_diagnostics.wf()
        &&& self.base_diagnostics@.len() <= MAX_BASE_DIAG_CACHE
        &&& self.base_diag_inflight.wf()
        &&& self.languages.wf()
        &&& self.diagnostics.wf()
        &&& self.analysis_focus.wf()
        &&& self.hints.wf()
        &&& self.hints@.len() <= MAX_HINT_CACHE
        &&& self.outlines.wf()
        &&& self.outlines@.len() <= MAX_HINT_CACHE
        &&& self.activities.wf()
        &&& work_ok(self.activities@)
        &&& self.baselines.wf()
    }

    /// The daemon's invariant.
    pub open spec fn wf(&self) -> bool {
        &&& self.editor@.ok()
        &&& self.tables_ok()
        &&& panes_ok(self.editor@, self.conn_views@, self.idle_view, self.next_pane)
        &&& mode_ok(self.editor@, self.insert_owner)
        &&& self.viewport_height <= MAX_VIEWPORT_HEIGHT
        &&& self.log@.ok()
        &&& anchors_differ(self.review_comments@)
    }

    /// A daemon with one empty document and no clients.
    pub fn new(languages: LanguageTable, languages_mtime: Option<FileTime>) -> (r: Daemon)
        requires
            languages.wf(),
        ensures
            r.wf(),
            r.log@ == (LogView { generation: 0, events: Seq::empty(), activity: Seq::empty() }),
            r.editor@.documents == seq![
                DocView {
                    id: 0,
                    path: None,
                    text: Seq::empty(),
                    dirty: false,
                    can_undo: false,
                    can_redo: false,
                },
            ],
            r.editor@.panes == seq![
                PaneView { id: 0, doc: 0, selection: one_range(0, 0), first_line: 0 },
            ],
            r.editor@.mode == Mode::Normal,
            r.next_pane == 1,
            r.metrics == no_counts(),
            r.viewport_height == DEFAULT_VIEWPORT,
            r.idle_view == 0,
            r.editor@.focused == 0,
            r.insert_owner is None,
            r.last_search is None,
            r.deleted is None,
            r.languages == languages,
            r.languages_mtime == languages_mtime,
            r.sessions@.len() == 0,
            r.base_roots@.len() == 0,
            r.base_diagnostics@.len() == 0,
            r.base_diag_inflight@.len() == 0,
            r.review_comments@.len() == 0,
            r.diagnostics@.len() == 0,
            r.analysis_focus@.len() == 0,
            r.hints@.len() == 0,
            r.outlines@.len() == 0,
            r.activities@.len() == 0,
            r.baselines@.len() == 0,
            r.conn_views@ == Map::<u64, ClientView>::empty(),
            r.conn_names@ == Map::<u64, String>::empty(),
            r.interactive_clients@ == Set::<u64>::empty(),
    {
        broadcast use vstd::std_specs::hash::group_hash_axioms;

        let editor = Editor::new();
        proof {
            assert(crate::editor::pane_from(editor@.panes, 0, 0) == 0);
            assert(crate::editor::doc_from(editor@.documents, 0, 0) == 0);
        }
        Daemon {
            editor,
            viewport_height: DEFAULT_VIEWPORT,
            next_pane: 1,
            sessions: SessionTable::new(),
            base_roots: Table::new(),
            base_diagnostics: Table::new(),
            base_diag_inflight: Table::new(),
            review_comments: Vec::new(),
            languages,
            languages_mtime,
            diagnostics: Table::new(),
            analysis_focus: SessionTable::new(),
            hints: Table::new(),
            outlines: Table::new(),
            insert_owner: None,
            last_search: None,
            interactive_clients: HashSet::new(),
            conn_views: HashMap::new(),
            idle_view: 0,
            conn_names: HashMap::new(),
            activities: Table::new(),
            baselines: Table::new(),
            deleted: None,
            log: ChangeLog::new(),
            metrics: ServerMetrics::zero(),
        }
    }

    /// Whether the language table has to be read again: the file's time is another than when it
    /// was read.
    pub fn languages_stale(&self, mtime: Option<FileTime>) -> (r: bool)
        ensures
            r == (mtime != self.languages_mtime),
    {
        match (mtime, self.languages_mtime) {
            (Some(a), Some(b)) => a != b,
            (None, None) => false,
            _ => true,
        }
    }

    /// Takes over a language table that was read anew if the file's time says so, and else keeps
    /// the present one.
    pub fn languages_refresh(&mut self, mtime: Option<FileTime>, table: LanguageTable)
        requires
            old(self).wf(),
            table.wf(),
        ensures
            final(self).wf(),
            *final(self) == if mtime != old(self).languages_mtime {
                Daemon { languages: table, languages_mtime: mtime, ..*old(self) }
            } else {
                *old(self)
            },
    {
        if self.languages_stale(mtime) {
            self.languages = table;
            self.languages_mtime = mtime;
        }
    }

    /// Keeps the inlay hints of a file for the text they were made for. Beyond the bound the file
    /// that came first is forgotten.
    pub fn cache_hints(&mut self, path: &str, text: &str, hints: Vec<InlayHint>)
        requires
            old(self).wf(),
        ensures
            final(self).wf(),
            *final(self) == (Daemon { hints: final(self).hints, ..*old(self) }),
            final(self).hints@ == newest(
                put(
                    old(self).hints@,
                    path@,
                    HintCache { text_checksum: checksum(text@), hints },
                ),
                MAX_HINT_CACHE as int,
            ),
    {
        let sum = fnv1a64(text.as_bytes());
        let entry = HintCache { text_checksum: sum, hints };
        proof {
            put_laws(self.hints@, path@, entry);
        }
        self.hints.insert(path, entry);
        self.hints.shrink_to(MAX_HINT_CACHE);
    }

    /// Keeps the outline of a file for the text it was made for. Beyond the bound the file that
    /// came first is forgotten.
    pub fn cache_outline(&mut self, path: &str, text: &str, symbols: Vec<OutlineSymbol>)
        requires
            old(self).wf(),
        ensures
            final(self).wf(),
            *final(self) == (Daemon { outlines: final(self).outlines, ..*old(self) }),
            final(self).outlines@ == newest(
                put(
                    old(self).outlines@,
                    path@,
                    OutlineCache { text_checksum: checksum(text@), symbols },
                ),
                MAX_HINT_CACHE as int,
            ),
    {
        let sum = fnv1a64(text.as_bytes());
        let entry = OutlineCache { text_checksum: sum, symbols };
        proof {
            put_laws(self.outlines@, path@, entry);
        }
        self.outlines.insert(path, entry);
        self.outlines.shrink_to(MAX_HINT_CACHE);
    }

    /// The inlay hints of a file, if they were made for this very text.
    pub fn fresh_hints(&self, path: &str, text: &str) -> (r: Option<Vec<InlayHint>>)
        requires
            self.wf(),
        ensures
            match (r, value_of(self.hints@, path@)) {
                (Some(h), Some(c)) => c.text_checksum == checksum(text@) && h@ == c.hints@,
                (None, Some(c)) => c.text_checksum != checksum(text@),
                (None, None) => true,
                _ => false,
            },
    {
        let sum = fnv1a64(text.as_bytes());
        match self.hints.get(path) {
            Some(c) => {
                if c.text_checksum == sum {
                    Some(copy_hints(&c.hints))
                } else {
                    None
                }
            },
            None => None,
        }
    }

    /// The outline of a file, if it was made for this very text.
    pub fn cached_outline(&self, path: &str, text: &str) -> (r: Option<&Vec<OutlineSymbol>>)
        requires
            self.wf(),
        ensures
            match (r, value_of(self.outlines@, path@)) {
                (Some(s), Some(c)) => c.text_checksum == checksum(text@) && *s == c.symbols,
                (None, Some(c)) => c.text_checksum != checksum(text@),
                (None, None) => true,
                _ => false,
            },
    {
        let sum = fnv1a64(text.as_bytes());
        match self.outlines.get(path) {
            Some(c) => {
                if c.text_checksum == sum {
                    Some(&c.symbols)
                } else {
                    None
                }
            },
            None => None,
        }
    }

    /// Lists work in progress on a file and counts a change. Work of a kind that is listed already
    /// changes nothing.
    pub fn add_activity(&mut self, path: &str, kind: ActivityKind, label: String)
        requires
            old(self).wf(),
            old(self).log@.room(1),
        ensures
            final(self).wf(),
            *final(self) == (Daemon {
                activities: final(self).activities,
                log: final(self).log,
                ..*old(self)
            }),
            work_listed(old(self).activities@, final(self).activities@, path@, kind, label@),
            final(self).log@ == listed_log(old(self).log@, old(self).activities@, path@, kind),
    {
        let ghost before = self.activities@;
        let mut list: Vec<Activity> = Vec::new();
        match self.activities.find(path) {
            Some(i) => {
                proof {
                    crate::table::row_is(before, path@, i as int);
                    assert(before[i as int].1 == self.activities.entries@[i as int].value);
                }
                let present = &self.activities.entries[i].value;
                let mut j: usize = 0;
                while j < present.len()
                    invariant
                        j <= present.len(),
                        present@ == work_on(before, path@),
                        *self == *old(self),
                        old(self).wf(),
                        before == self.activities@,
                        forall|k: int| 0 <= k < j ==> (#[trigger] present@[k]).kind != kind,
                    decreases present.len() - j,
                {
                    if present[j].kind == kind {
                        assert(has_kind(work_on(before, path@), kind));
                        return;
                    }
                    j = j + 1;
                }
                list = crate::types::copy_activities(present);
            },
            None => {},
        }
        assert(list@ =~= work_on(before, path@));
        assert(!has_kind(list@, kind));
        list.push(Activity { kind, label });
        assert(list@.drop_last() =~= work_on(before, path@));
        proof {
            put_laws(before, path@, list);
            assert forall|i: int| 0 <= i < before.len() implies kinds_differ(
                #[trigger] before[i].1@,
            ) by {}
            assert(kinds_differ(list@)) by {
                let a = work_on(before, path@);
                assert(kinds_differ(a)) by {
                    if has_key(before, path@) {
                        let r = crate::table::row_of(before, path@);
                        assert(crate::table::key_at(before, path@, r));
                        assert(kinds_differ(before[r].1@));
                    }
                }
            }
        }
        self.activities.insert(path, list);
        proof {
            let t = self.activities@;
            assert forall|i: int| 0 <= i < t.len() implies (#[trigger] t[i]).1@.len() > 0
                && kinds_differ(t[i].1@) by {
                if has_key(before, path@) {
                    let r = crate::table::row_of(before, path@);
                    assert(crate::table::key_at(before, path@, r));
                    if i != r {
                        assert(t[i] == before[i]);
                    }
                } else if i < before.len() {
                    assert(t[i] == before[i]);
                }
            }
        }
        self.log.bump();
    }

    /// Takes work off a file's list and counts a change. Work that is not listed changes nothing.
    pub fn remove_activity(&mut self, path: &str, kind: ActivityKind)
        requires
            old(self).wf(),
            old(self).log@.room(1),
        ensures
            final(self).wf(),
            *final(self) == (Daemon {
                activities: final(self).activities,
                log: final(self).log,
                ..*old(self)
            }),
            work_unlisted(old(self).activities@, final(self).activities@, path@, kind),
            final(self).log@ == unlisted_log(old(self).log@, old(self).activities@, path@, kind),
    {
        let ghost before = self.activities@;
        let i = match self.activities.find(path) {
            Some(i) => i,
            None => {
                return;
            },
        };
        proof {
            crate::table::row_is(before, path@, i as int);
            assert(before[i as int].1 == self.activities.entries@[i as int].value);
        }
        let ghost keep = |a: Activity| a.kind != kind;
        let ghost all = work_on(before, path@);
        let mut rest: Vec<Activity> = Vec::new();
        let present = &self.activities.entries[i].value;
        let mut j: usize = 0;
        proof {
            reveal(Seq::filter);
            assert(all.take(0).filter(keep) =~= seq![]);
        }
        while j < present.len()
            invariant
                j <= present.len(),
                present@ == all,
                rest@ == all.take(j as int).filter(keep),
                keep == (|a: Activity| a.kind != kind),
                rest@.len() <= j,
                rest@.len() == j <==> forall|k: int| 0 <= k < j ==> (#[trigger] all[k]).kind != kind,
            decreases present.len() - j,
        {
            proof {
                reveal(Seq::filter);
                assert(all.take(j as int + 1).drop_last() =~= all.take(j as int));
                assert(all.take(j as int + 1).last() == all[j as int]);
            }
            if present[j].kind != kind {
                rest.push(present[j].clone());
            }
            j = j + 1;
        }
        assert(all.take(all.len() as int) =~= all);
        if rest.len() == present.len() {
            assert(!has_kind(all, kind));
            return;
        }
        assert(has_kind(all, kind)) by {
            let k = choose|k: int| 0 <= k < all.len() && (#[trigger] all[k]).kind == kind;
            assert(all[k].kind == kind);
        }
        proof {
            put_laws(before, path@, rest);
            without_laws(before, path@);
            assert(kinds_differ(all)) by {
                assert(kinds_differ(before[i as int].1@));
            }
            filter_keeps_kinds_apart(all, keep);
        }
        if rest.len() == 0 {
            self.activities.remove(path);
            proof {
                let t = self.activities@;
                assert forall|k: int| 0 <= k < t.len() implies (#[trigger] t[k]).1@.len() > 0
                    && kinds_differ(t[k].1@) by {
                    let m = if k < i { k } else { k + 1 };
                    assert(t[k] == before[m]);
                }
                assert(work_on(t, path@) =~= all.filter(keep));
            }
        } else {
            self.activities.insert(path, rest);
            proof {
                let t = self.activities@;
                assert forall|k: int| 0 <= k < t.len() implies (#[trigger] t[k]).1@.len() > 0
                    && kinds_differ(t[k].1@) by {
                    if k != i {
                        assert(t[k] == before[k]);
                    }
                }
            }
        }
        self.log.bump();
    }

    /// The name that a connection gave itself.
    pub fn actor_for(&self, conn_id: u64) -> (r: String)
        ensures
            r@ == actor_name(self.conn_names@, conn_id),
    {
        broadcast use vstd::std_specs::hash::group_hash_axioms;

        match self.conn_names.get(&conn_id) {
            Some(n) => n.clone(),
            None => "unknown".to_owned(),
        }
    }

    /// The session of a file whose workspace root is `root`, if its language names a server.
    pub fn session_key(&self, path: &str, root: &str) -> (r: Option<SessionKey>)
        ensures
            key_view(r) == session_of(self.languages.languages@, path@, root@),
    {
        match self.languages.language_for_path(path) {
            Some(l) => match &l.language_server {
                Some(_) => Some(SessionKey { root: root.to_owned(), language: l.name.clone() }),
                None => None,
            },
            None => None,
        }
    }

    /// Whether work on `target` takes away the session in which the server is looking at
    /// `focused`: another file with a server, in the same workspace and language.
    pub fn borrows_focus_session(
        &self,
        focused: Option<&str>,
        focused_root: &str,
        target: &str,
        target_root: &str,
    ) -> (r: bool)
        requires
            self.wf(),
        ensures
            r == (focused matches Some(fp) && borrows(
                *self,
                fp@,
                focused_root@,
                target@,
                target_root@,
            )),
    {
        let fp = match focused {
            Some(fp) => fp,
            None => {
                return false;
            },
        };
        if same(fp, target) || !self.languages.has_server(fp) {
            return false;
        }
        let a = self.session_key(fp, focused_root);
        let b = self.session_key(target, target_root);
        match (a, b) {
            (Some(a), Some(b)) => a.same_as(&b),
            (None, None) => true,
            _ => false,
        }
    }

    /// The live session of a file: its own, or else the one of the same language from the deepest
    /// root that contains the file.
    pub fn session_root_for(&self, path: &str, root: &str) -> (r: Option<SessionKey>)
        requires
            self.wf(),
        ensures
            match session_of(self.languages.languages@, path@, root@) {
                Some(k) => if has_key(self.sessions@, k) {
                    key_view(r) == Some(k)
                } else {
                    match r {
                        Some(key) => exists|i: int| #[trigger]
                            serves_best(self.sessions@, path@, k.1, i) && self.sessions@[i].0
                                == key@,
                        None => forall|i: int| !#[trigger] serves(self.sessions@, path@, k.1, i),
                    }
                },
                None => r is None,
            },
    {
        let fresh = match self.session_key(path, root) {
            Some(k) => k,
            None => {
                return None;
            },
        };
        if self.sessions.find(&fresh).is_some() {
            return Some(fresh);
        }
        match self.sessions.serving(path, fresh.language.as_str()) {
            Some(i) => {
                assert(self.sessions@[i as int].0 == self.sessions.entries@[i as int].key@);
                let key = self.sessions.entries[i].key.copy();
                assert(serves_best(self.sessions@, path@, fresh@.1, i as int)
                    && self.sessions@[i as int].0 == key@);
                Some(key)
            },
            None => None,
        }
    }

    /// The number of a file's live session.
    pub fn session_for(&self, path: &str, root: &str) -> (r: Option<u64>)
        requires
            self.wf(),
        ensures
            is_live_session(*self, path@, root@, r),
    {
        match self.session_root_for(path, root) {
            Some(key) => {
                let h = self.sessions.get(&key);
                proof {
                    let k = session_of(self.languages.languages@, path@, root@)->0;
                    if !has_key(self.sessions@, k) {
                        let i = choose|i: int| #[trigger]
                            serves_best(self.sessions@, path@, k.1, i) && self.sessions@[i].0
                                == key@;
                        crate::table::row_is(self.sessions@, key@, i);
                    }
                }
                match h {
                    Some(h) => Some(*h),
                    None => None,
                }
            },
            None => None,
        }
    }

    /// Whether a file is the one that its session's server is looking at.
    pub fn is_analysis_focus(&self, path: &str, root: &str) -> (r: bool)
        requires
            self.wf(),
        ensures
            r == focused_on(*self, path@, root@),
    {
        match self.session_key(path, root) {
            Some(key) => match self.analysis_focus.get(&key) {
                Some(f) => same(f.as_str(), path),
                None => false,
            },
            None => false,
        }
    }

    /// Notes that a file's session is now looking at it. The diagnostics of the file that it was
    /// looking at before are dropped.
    pub fn set_analysis_focus(&mut self, path: &str, root: &str)
        requires
            old(self).wf(),
        ensures
            final(self).wf(),
            *final(self) == (Daemon {
                analysis_focus: final(self).analysis_focus,
                diagnostics: final(self).diagnostics,
                ..*old(self)
            }),
            refocused(
                old(self).analysis_focus@,
                final(self).analysis_focus@,
                session_of(old(self).languages.languages@, path@, root@),
                path@,
            ),
            final(self).diagnostics@ == after_focus(
                old(self).diagnostics@,
                old(self).analysis_focus@,
                session_of(old(self).languages.languages@, path@, root@),
                path@,
            ),
    {
        match self.session_key(path, root) {
            Some(key) => {
                let ghost before = self.analysis_focus@;
                let ghost k = key@;
                let now = path.to_owned();
                proof {
                    put_laws(before, k, now);
                }
                match self.analysis_focus.insert(key, now) {
                    Some(prev) => {
                        if !same(prev.as_str(), path) {
                            self.diagnostics.remove(prev.as_str());
                        }
                    },
                    None => {},
                }
            },
            None => {},
        }
    }

    /// Keeps the diagnostics of a file that its session's server has looked at, and notes that it
    /// is looking at it.
    pub fn set_focus_diagnostics(&mut self, path: &str, root: &str, diags: Vec<Diagnostic>)
        requires
            old(self).wf(),
        ensures
            final(self).wf(),
            *final(self) == (Daemon {
                analysis_focus: final(self).analysis_focus,
                diagnostics: final(self).diagnostics,
                ..*old(self)
            }),
            refocused(
                old(self).analysis_focus@,
                final(self).analysis_focus@,
                session_of(old(self).languages.languages@, path@, root@),
                path@,
            ),
            value_of(final(self).diagnostics@, path@) == Some(diags),
            final(self).diagnostics@ == put(
                after_focus(
                    old(self).diagnostics@,
                    old(self).analysis_focus@,
                    session_of(old(self).languages.languages@, path@, root@),
                    path@,
                ),
                path@,
                diags,
            ),
    {
        self.set_analysis_focus(path, root);
        proof {
            put_laws(self.diagnostics@, path@, diags);
        }
        self.diagnostics.insert(path, diags);
    }

    /// The diagnostics that a view of a file shows: those of the file that its session's server is
    /// looking at, none for any other file.
    pub fn focus_diagnostics(&self, path: &str, root: &str) -> (r: Vec<Diagnostic>)
        requires
            self.wf(),
        ensures
            r@ == shown_diagnostics(*self, path@, root@),
    {
        if !self.is_analysis_focus(path, root) {
            return Vec::new();
        }
        match self.diagnostics.get(path) {
            Some(d) => copy_diagnostics(d),
            None => Vec::new(),
        }
    }

    /// The inlay hints that a view of a file shows: those of the file that its session's server is
    /// looking at, be they of an older text or not.
    pub fn focus_inlay_hints(&self, path: &str, root: &str) -> (r: Vec<InlayHint>)
        requires
            self.wf(),
        ensures
            r@ == shown_hints(*self, path@, root@),
    {
        if !self.is_analysis_focus(path, root) {
            return Vec::new();
        }
        match self.hints.get(path) {
            Some(c) => copy_hints(&c.hints),
            None => Vec::new(),
        }
    }

    /// The files whose live sessions are among the dead ones, in their order.
    pub fn dead_files(&self, files: &Vec<FileAt>, dead: &Vec<u64>) -> (r: Vec<String>)
        requires
            self.wf(),
        ensures
            exists|hs: Seq<Option<u64>>| #[trigger]
                live_sessions(*self, files@, hs) && deep(r@) == with_dead(
                    files@,
                    hs,
                    dead@,
                    files@.len() as int,
                ),
    {
        let mut out: Vec<String> = Vec::new();
        let ghost mut hs: Seq<Option<u64>> = Seq::empty();
        let mut i: usize = 0;
        assert(deep(out@) =~= with_dead(files@, hs, dead@, 0));
        while i < files.len()
            invariant
                i <= files.len(),
                self.wf(),
                hs.len() == i,
                forall|j: int|
                    0 <= j < i ==> is_live_session(
                        *self,
                        (#[trigger] files@[j]).path@,
                        files@[j].root@,
                        hs[j],
                    ),
                deep(out@) == with_dead(files@, hs, dead@, i as int),
            decreases files.len() - i,
        {
            let h = self.session_for(files[i].path.as_str(), files[i].root.as_str());
            let ghost before = hs;
            let ghost so_far = out@;
            proof {
                hs = hs.push(h);
                with_dead_same(files@, before, hs, dead@, i as int);
            }
            match h {
                Some(n) => {
                    if has_number(dead, n) {
                        out.push(files[i].path.clone());
                        assert(deep(out@) =~= deep(so_far).push(files@[i as int].path@));
                    }
                },
                None => {},
            }
            i = i + 1;
        }
        assert(live_sessions(*self, files@, hs));
        out
    }

    /// Forgets the diagnostics and the inlay hints of files whose sessions have died.
    pub fn drain_into(&mut self, dead: &Vec<String>)
        requires
            old(self).wf(),
        ensures
            final(self).wf(),
            *final(self) == (Daemon {
                diagnostics: final(self).diagnostics,
                hints: final(self).hints,
                ..*old(self)
            }),
            final(self).diagnostics@ == without_all(old(self).diagnostics@, dead@),
            final(self).hints@ == without_all(old(self).hints@, dead@),
    {
        let mut i: usize = 0;
        assert(dead@.take(0) =~= seq![]);
        while i < dead.len()
            invariant
                i <= dead.len(),
                self.wf(),
                *self == (Daemon {
                    diagnostics: self.diagnostics,
                    hints: self.hints,
                    ..*old(self)
                }),
                self.diagnostics@ == without_all(old(self).diagnostics@, dead@.take(i as int)),
                self.hints@ == without_all(old(self).hints@, dead@.take(i as int)),
            decreases dead.len() - i,
        {
            assert(dead@.take(i as int + 1).drop_last() =~= dead@.take(i as int));
            proof {
                without_laws(self.hints@, dead@[i as int]@);
            }
            self.diagnostics.remove(dead[i].as_str());
            self.hints.remove(dead[i].as_str());
            i = i + 1;
        }
        assert(dead@.take(dead@.len() as int) =~= dead@);
    }
}

/// A file and its workspace's root.
pub struct FileAt {
    pub path: String,
    pub root: String,
}

/// Whether `hs` are the live sessions of files.
pub open spec fn live_sessions(d: Daemon, files: Seq<FileAt>, hs: Seq<Option<u64>>) -> bool {
    &&& hs.len() == files.len()
    &&& forall|i: int|
        0 <= i < files.len() ==> is_live_session(
            d,
            (#[trigger] files[i]).path@,
            files[i].root@,
            hs[i],
        )
}

/// The paths of the first `n` files whose sessions are among the dead ones.
pub open spec fn with_dead(
    files: Seq<FileAt>,
    hs: Seq<Option<u64>>,
    dead: Seq<u64>,
    n: int,
) -> Seq<Seq<char>>
    decreases n,
{
    if n <= 0 {
        Seq::empty()
    } else {
        let before = with_dead(files, hs, dead, n - 1);
        match hs[n - 1] {
            Some(h) if dead.contains(h) => before.push(files[n - 1].path@),
            _ => before,
        }
    }
}

proof fn with_dead_same(
    files: Seq<FileAt>,
    a: Seq<Option<u64>>,
    b: Seq<Option<u64>>,
    dead: Seq<u64>,
    n: int,
)
    requires
        n <= a.len() <= b.len(),
        forall|i: int| 0 <= i < n ==> a[i] == b[i],
    ensures
        with_dead(files, a, dead, n) == with_dead(files, b, dead, n),
    decreases n,
{
    if n > 0 {
        with_dead_same(files, a, b, dead, n - 1);
    }
}

fn has_number(v: &Vec<u64>, n: u64) -> (r: bool)
    ensures
        r == v@.contains(n),
{
    let mut i: usize = 0;
    while i < v.len()
        invariant
            i <= v.len(),
            forall|j: int| 0 <= j < i ==> v@[j] != n,
        decreases v.len() - i,
    {
        if v[i] == n {
            assert(v@[i as int] == n);
            return true;
        }
        i = i + 1;
    }
    false
}

/// The table without the rows of any of `keys`.
pub open spec fn without_all<V>(t: Seq<(Seq<char>, V)>, keys: Seq<String>) -> Seq<(Seq<char>, V)>
    decreases keys.len(),
{
    if keys.len() == 0 {
        t
    } else {
        without(without_all(t, keys.drop_last()), keys.last()@)
    }
}

proof fn filter_keeps_kinds_apart(v: Seq<Activity>, keep: spec_fn(Activity) -> bool)
    requires
        kinds_differ(v),
    ensures
        kinds_differ(v.filter(keep)),
        forall|i: int|
            0 <= i < v.filter(keep).len() ==> v.contains(#[trigger] v.filter(keep)[i]),
    decreases v.len(),
{
    reveal(Seq::filter);
    if v.len() > 0 {
        let s = v.drop_last();
        filter_keeps_kinds_apart(s, keep);
        let f = v.filter(keep);
        let g = s.filter(keep);
        assert forall|i: int| 0 <= i < f.len() implies v.contains(#[trigger] f[i]) by {
            if i < g.len() {
                assert(f[i] == g[i]);
                assert(s.contains(g[i]));
                let m = s.index_of(g[i]);
                assert(v[m] == g[i]);
            } else {
                assert(f[i] == v[v.len() - 1]);
            }
        }
        assert forall|i: int, j: int| 0 <= i < j < f.len() implies (#[trigger] f[i]).kind != (
        #[trigger] f[j]).kind by {
            if j == g.len() {
                assert(s.contains(g[i]));
                let m = s.index_of(g[i]);
                assert(v[m] == f[i]);
                assert(v[v.len() - 1] == f[j]);
            }
        }
    }
}

/// The name of a connection, or `unknown`.
pub open spec fn actor_name(names: Map<u64, String>, conn_id: u64) -> Seq<char> {
    if names.contains_key(conn_id) {
        names[conn_id]@
    } else {
        "unknown"@
    }
}

/// An optional session key by its characters.
pub open spec fn key_view(k: Option<SessionKey>) -> Option<KeyView> {
    match k {
        Some(k) => Some(k@),
        None => None,
    }
}

/// The session of a file: its workspace root and its language, if the language names a server.
pub open spec fn session_of(ls: Seq<LanguageDef>, path: Seq<char>, root: Seq<char>) -> Option<KeyView> {
    match language_of(ls, path) {
        Some(l) => if l.language_server is Some {
            Some((root, l.name@))
        } else {
            None
        },
        None => None,
    }
}

/// Whether `h` is the live session of a file: its own, or else one of the same language from the
/// deepest root that contains the file, or nothing if there is none.
pub open spec fn is_live_session(
    d: Daemon,
    path: Seq<char>,
    root: Seq<char>,
    h: Option<u64>,
) -> bool {
    match session_of(d.languages.languages@, path, root) {
        Some(k) => match value_of(d.sessions@, k) {
            Some(own) => h == Some(own),
            None => match h {
                Some(n) => exists|i: int| #[trigger]
                    serves_best(d.sessions@, path, k.1, i) && d.sessions@[i].1 == n,
                None => forall|i: int| !#[trigger] serves(d.sessions@, path, k.1, i),
            },
        },
        None => h is None,
    }
}

/// Whether work on `target` takes the session of `focused`.
pub open spec fn borrows(
    d: Daemon,
    focused: Seq<char>,
    focused_root: Seq<char>,
    target: Seq<char>,
    target_root: Seq<char>,
) -> bool {
    &&& focused != target
    &&& server_of(d.languages.languages@, d.languages.servers@, focused) is Some
    &&& session_of(d.languages.languages@, focused, focused_root) == session_of(
        d.languages.languages@,
        target,
        target_root,
    )
}

/// Whether a file is the one that its session's server is looking at.
pub open spec fn focused_on(d: Daemon, path: Seq<char>, root: Seq<char>) -> bool {
    match session_of(d.languages.languages@, path, root) {
        Some(k) => match value_of(d.analysis_focus@, k) {
            Some(f) => f@ == path,
            None => false,
        },
        None => false,
    }
}

/// Whether `new` is `old` with a session's server looking at `path`.
pub open spec fn refocused(
    old_focus: Seq<(KeyView, String)>,
    new_focus: Seq<(KeyView, String)>,
    session: Option<KeyView>,
    path: Seq<char>,
) -> bool {
    match session {
        Some(k) => {
            &&& value_of(new_focus, k) matches Some(f) && f@ == path
            &&& forall|o: KeyView|
                o != k ==> #[trigger] value_of(new_focus, o) == value_of(old_focus, o)
        },
        None => new_focus == old_focus,
    }
}

/// The diagnostics that are left when a session turns to `path`.
pub open spec fn after_focus(
    diagnostics: Seq<(Seq<char>, Vec<Diagnostic>)>,
    focus: Seq<(KeyView, String)>,
    session: Option<KeyView>,
    path: Seq<char>,
) -> Seq<(Seq<char>, Vec<Diagnostic>)> {
    match session {
        Some(k) => match value_of(focus, k) {
            Some(prev) => if prev@ != path {
                without(diagnostics, prev@)
            } else {
                diagnostics
            },
            None => diagnostics,
        },
        None => diagnostics,
    }
}

/// The diagnostics that a view of a file shows.
pub open spec fn shown_diagnostics(d: Daemon, path: Seq<char>, root: Seq<char>) -> Seq<Diagnostic> {
    if focused_on(d, path, root) {
        match value_of(d.diagnostics@, path) {
            Some(v) => v@,
            None => Seq::empty(),
        }
    } else {
        Seq::empty()
    }
}

/// The inlay hints that a view of a file shows.
pub open spec fn shown_hints(d: Daemon, path: Seq<char>, root: Seq<char>) -> Seq<InlayHint> {
    if focused_on(d, path, root) {
        match value_of(d.hints@, path) {
            Some(c) => c.hints@,
            None => Seq::empty(),
        }
    } else {
        Seq::empty()
    }
}

} // verus!
