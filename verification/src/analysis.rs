//! Language server sessions at work: when one is started or reused, when fresh diagnostics have
//! settled, and which files of a workspace a server is shown.
use vstd::prelude::*;

use crate::daemon::{
    after_focus, focused_on, refocused, session_of, unlisted_log, without_all, work_unlisted,
    Daemon, HintCache, MAX_HINT_CACHE,
};
use crate::languages::server_of;
use crate::paths::{comps, components, extension, extension_of};
use crate::sessions::SessionKey;
use crate::strings::{joined, same};
use crate::table::{newest, put, put_laws, value_of};
use crate::text::checksum;
use crate::types::{ActivityKind, Diagnostic, InlayHint};

verus! {

/// How a session is had: reused if it is alive, or started.
pub enum EnsureStep {
    Unsupported(String),
    Ask { key: SessionKey, session: u64 },
    Start { key: SessionKey },
}

impl Daemon {
    /// The first step to a session for a file in the workspace `root`. A session that is there is
    /// reused if its server is alive.
    pub fn ensure(&self, path: &str, root: &str) -> (r: EnsureStep)
        requires
            self.wf(),
        ensures
            match server_of(self.languages.languages@, self.languages.servers@, path@) {
                None => r matches EnsureStep::Unsupported(m) && m@ == "LSP 非対応のパスです: "@
                    + path@,
                Some((l, _)) => match value_of(self.sessions@, (root@, l.name@)) {
                    Some(h) => r matches EnsureStep::Ask { key, session } && key@ == (
                        root@,
                        l.name@,
                    ) && session == h,
                    None => r matches EnsureStep::Start { key } && key@ == (root@, l.name@),
                },
            },
    {
        let key = match self.languages.server_for(path) {
            Some(spec) => SessionKey { root: root.to_owned(), language: spec.language_id.to_owned() },
            None => {
                return EnsureStep::Unsupported(joined("LSP 非対応のパスです: ", path));
            },
        };
        match self.sessions.get(&key) {
            Some(h) => {
                let session = *h;
                EnsureStep::Ask { key, session }
            },
            None => EnsureStep::Start { key },
        }
    }

    /// Takes a session that was started. One that came in the meantime and is alive is kept and
    /// used in its place; a dead one is replaced.
    pub fn adopt_session(&mut self, key: SessionKey, started: u64, other_alive: bool) -> (r: u64)
        requires
            old(self).wf(),
        ensures
            final(self).wf(),
            *final(self) == (Daemon { sessions: final(self).sessions, ..*old(self) }),
            match value_of(old(self).sessions@, key@) {
                Some(h) if other_alive => r == h && final(self).sessions == old(self).sessions,
                _ => r == started && final(self).sessions@ == put(
                    old(self).sessions@,
                    key@,
                    started,
                ),
            },
            value_of(final(self).sessions@, key@) == Some(r),
    {
        if other_alive {
            match self.sessions.get(&key) {
                Some(h) => {
                    return *h;
                },
                None => {},
            }
        }
        proof {
            put_laws(self.sessions@, key@, started);
        }
        self.sessions.insert(key, started);
        started
    }
}

/// How often diagnostics are asked for after a file was opened, at most.
pub const SETTLE_ROUNDS: u32 = 120;

/// Whether the diagnostics of a file have settled: the same number came twice and is not 0, or none
/// came for `empty_rounds` rounds. Before the server has looked at the file there are none either,
/// so that none came twice says nothing.
pub fn is_settled(prev: Option<usize>, n: usize, round: u32, empty_rounds: u32) -> (r: bool)
    ensures
        r == has_settled(prev, n as int, round, empty_rounds),
{
    if n > 0 {
        match prev {
            Some(p) => p == n,
            None => false,
        }
    } else {
        round >= empty_rounds
    }
}

/// Whether diagnostics have settled, given the number that came before, the number that came now,
/// and the round.
pub open spec fn has_settled(prev: Option<usize>, n: int, round: u32, empty_rounds: u32) -> bool {
    if n > 0 {
        prev matches Some(p) && p == n
    } else {
        round >= empty_rounds
    }
}

/// Where the fetching of a file's diagnostics stands: its round, and how many came last.
#[derive(Clone, Copy, Debug, PartialEq, Eq, Structural)]
pub struct Settling {
    pub round: u32,
    pub prev: Option<usize>,
}

/// The next round, if there is one.
pub open spec fn next_round(s: Settling, prev: Option<usize>) -> Option<Settling> {
    if s.round + 1 < SETTLE_ROUNDS {
        Some(Settling { round: (s.round + 1) as u32, prev })
    } else {
        None
    }
}

/// Whether `after` is `before` with what a server gave for a file that was opened. If its session
/// has turned to another file nothing is taken.
pub open spec fn settled_with(
    before: Daemon,
    after: Daemon,
    path: Seq<char>,
    root: Seq<char>,
    text: Seq<char>,
    diags: Vec<Diagnostic>,
    hints: Option<Vec<InlayHint>>,
) -> bool {
    if focused_on(before, path, root) {
        &&& after == (Daemon {
            analysis_focus: after.analysis_focus,
            diagnostics: after.diagnostics,
            hints: after.hints,
            ..before
        })
        &&& refocused(
            before.analysis_focus@,
            after.analysis_focus@,
            session_of(before.languages.languages@, path, root),
            path,
        )
        &&& after.diagnostics@ == put(before.diagnostics@, path, diags)
        &&& after.hints@ == match hints {
            Some(h) => newest(
                put(
                    before.hints@,
                    path,
                    HintCache { text_checksum: checksum(text), hints: h },
                ),
                MAX_HINT_CACHE as int,
            ),
            None => before.hints@,
        }
    } else {
        after == before
    }
}

impl Daemon {
    /// Takes what the server gave for a file that was opened. If its session has turned to another
    /// file in the meantime nothing is taken. Says whether it was.
    pub fn settle_step(
        &mut self,
        path: &str,
        root: &str,
        text: &str,
        diags: Vec<Diagnostic>,
        hints: Option<Vec<InlayHint>>,
    ) -> (r: bool)
        requires
            old(self).wf(),
        ensures
            final(self).wf(),
            r == focused_on(*old(self), path@, root@),
            settled_with(*old(self), *final(self), path@, root@, text@, diags, hints),
    {
        if !self.is_analysis_focus(path, root) {
            return false;
        }
        self.set_focus_diagnostics(path, root, diags);
        match hints {
            Some(h) => {
                self.cache_hints(path, text, h);
            },
            None => {},
        }
        true
    }

    /// One round of asking for the diagnostics of a file that was opened. A server that is still at
    /// work gives none, and the round is passed over. What it gives is taken, unless its session has
    /// turned to another file. Gives the next round, if there is one, and whether the clients are to
    /// be told.
    pub fn settle_round(
        &mut self,
        s: Settling,
        path: &str,
        root: &str,
        text: &str,
        diags: Option<Vec<Diagnostic>>,
        hints: Option<Vec<InlayHint>>,
        empty_rounds: u32,
    ) -> (r: (Option<Settling>, bool))
        requires
            old(self).wf(),
            s.round < SETTLE_ROUNDS,
        ensures
            final(self).wf(),
            r.0 matches Some(n) ==> n.round == s.round + 1 && n.round < SETTLE_ROUNDS,
            r.1 == (diags is Some && focused_on(*old(self), path@, root@)),
            match diags {
                None => r.0 == next_round(s, s.prev) && *final(self) == *old(self),
                Some(v) => {
                    &&& r.0 == if r.1 && !has_settled(s.prev, v@.len() as int, s.round, empty_rounds) {
                        next_round(s, Some(v@.len() as usize))
                    } else {
                        None
                    }
                    &&& settled_with(*old(self), *final(self), path@, root@, text@, v, hints)
                },
            },
    {
        let again = s.round + 1 < SETTLE_ROUNDS;
        let v = match diags {
            Some(v) => v,
            None => {
                let next = if again {
                    Some(Settling { round: s.round + 1, prev: s.prev })
                } else {
                    None
                };
                return (next, false);
            },
        };
        let n: usize = v.len();
        if !self.settle_step(path, root, text, v, hints) {
            return (None, false);
        }
        if is_settled(s.prev, n, s.round, empty_rounds) || !again {
            return (None, true);
        }
        (Some(Settling { round: s.round + 1, prev: Some(n) }), true)
    }

    /// Takes what the server gave after an edit or a reload: the work is off the list, fresh
    /// diagnostics and hints are kept, and those of dead sessions are forgotten.
    pub fn reflect(
        &mut self,
        path: &str,
        root: &str,
        text: &str,
        work: Option<ActivityKind>,
        diags: Option<Vec<Diagnostic>>,
        hints: Option<Vec<InlayHint>>,
        dead: &Vec<String>,
    )
        requires
            old(self).wf(),
            old(self).log@.room(1),
        ensures
            final(self).wf(),
            *final(self) == (Daemon {
                activities: final(self).activities,
                log: final(self).log,
                analysis_focus: final(self).analysis_focus,
                diagnostics: final(self).diagnostics,
                hints: final(self).hints,
                ..*old(self)
            }),
            match work {
                Some(k) => {
                    &&& work_unlisted(old(self).activities@, final(self).activities@, path@, k)
                    &&& final(self).log@ == unlisted_log(
                        old(self).log@,
                        old(self).activities@,
                        path@,
                        k,
                    )
                },
                None => final(self).log == old(self).log && final(self).activities == old(
                    self,
                ).activities,
            },
            final(self).diagnostics@ == without_all(
                match diags {
                    Some(d) => put(
                        after_focus(
                            old(self).diagnostics@,
                            old(self).analysis_focus@,
                            session_of(old(self).languages.languages@, path@, root@),
                            path@,
                        ),
                        path@,
                        d,
                    ),
                    None => old(self).diagnostics@,
                },
                dead@,
            ),
            final(self).hints@ == without_all(
                match hints {
                    Some(h) => newest(
                        put(
                            old(self).hints@,
                            path@,
                            HintCache { text_checksum: checksum(text@), hints: h },
                        ),
                        MAX_HINT_CACHE as int,
                    ),
                    None => old(self).hints@,
                },
                dead@,
            ),
            diags is None ==> final(self).analysis_focus == old(self).analysis_focus,
            diags is Some ==> refocused(
                old(self).analysis_focus@,
                final(self).analysis_focus@,
                session_of(old(self).languages.languages@, path@, root@),
                path@,
            ),
    {
        match work {
            Some(k) => {
                self.remove_activity(path, k);
            },
            None => {},
        }
        match diags {
            Some(d) => {
                self.set_focus_diagnostics(path, root, d);
            },
            None => {},
        }
        match hints {
            Some(h) => {
                self.cache_hints(path, text, h);
            },
            None => {},
        }
        self.drain_into(dead);
    }
}

/// How many files of a workspace a server is shown, at most.
pub const MAX_WORKSPACE_OPEN_FILES: usize = 400;

/// How many bytes of a workspace a server is shown, at most; a file that would cross the line is
/// passed over.
pub const MAX_WORKSPACE_OPEN_BYTES: u64 = 64 * 1024 * 1024;

/// The files of a workspace that a server is shown, gathered so far.
pub struct WorkspaceScan {
    pub files: Vec<String>,
    pub bytes: u64,
}

/// What a scan does at a directory entry.
#[derive(Clone, Copy, Debug, PartialEq, Eq, Structural)]
pub enum ScanStep {
    Stop,
    Skip,
    Enter,
    Take,
}

/// What the disk says of a directory entry: whether it is a directory, and how long it is if it is
/// a regular file.
#[derive(Clone, Copy, Debug, PartialEq, Eq, Structural)]
pub struct EntryLook {
    pub is_dir: bool,
    pub file_len: Option<u64>,
}

/// Whether a directory holds what tools made, not what people wrote.
pub open spec fn is_made(name: Seq<char>) -> bool {
    name == "target"@ || name == ".git"@ || name == "node_modules"@ || name == "vendor"@ || name
        == "build"@ || name == "dist"@
}

/// What a scan does at a directory entry.
pub open spec fn scan_step(
    found: nat,
    bytes: u64,
    path: Seq<char>,
    look: EntryLook,
    ext: Seq<char>,
) -> ScanStep {
    if found >= MAX_WORKSPACE_OPEN_FILES || bytes >= MAX_WORKSPACE_OPEN_BYTES {
        ScanStep::Stop
    } else if look.is_dir {
        if comps(path).len() > 0 && is_made(comps(path).last()) {
            ScanStep::Skip
        } else {
            ScanStep::Enter
        }
    } else if extension_of(path) != Some(ext) {
        ScanStep::Skip
    } else {
        match look.file_len {
            Some(n) => if bytes + n <= MAX_WORKSPACE_OPEN_BYTES {
                ScanStep::Take
            } else {
                ScanStep::Skip
            },
            None => ScanStep::Skip,
        }
    }
}

impl WorkspaceScan {
    /// Whether no more files and bytes were taken than may be.
    pub open spec fn wf(&self) -> bool {
        &&& self.files@.len() <= MAX_WORKSPACE_OPEN_FILES
        &&& self.bytes <= MAX_WORKSPACE_OPEN_BYTES
    }

    /// A scan that has found nothing.
    pub fn new() -> (r: WorkspaceScan)
        ensures
            r.wf(),
            r.files@.len() == 0,
            r.bytes == 0,
    {
        WorkspaceScan { files: Vec::new(), bytes: 0 }
    }

    /// Looks at a directory entry. A file of the wanted extension is taken if it fits, a directory
    /// is to be entered unless it holds what tools made, and a scan that is full stops.
    pub fn visit(&mut self, path: String, look: EntryLook, ext: &str) -> (r: ScanStep)
        requires
            old(self).wf(),
        ensures
            final(self).wf(),
            r == scan_step(old(self).files@.len(), old(self).bytes, path@, look, ext@),
            r != ScanStep::Take ==> *final(self) == *old(self),
            r == ScanStep::Take ==> final(self).files@ == old(self).files@.push(path)
                && final(self).bytes == old(self).bytes + look.file_len->0,
    {
        if self.files.len() >= MAX_WORKSPACE_OPEN_FILES || self.bytes >= MAX_WORKSPACE_OPEN_BYTES {
            return ScanStep::Stop;
        }
        if look.is_dir {
            let parts = components(path.as_str());
            if parts.len() > 0 {
                assert(crate::paths::deep(parts@).last() == parts@.last()@);
                if made_by_tools(parts[parts.len() - 1].as_str()) {
                    return ScanStep::Skip;
                }
            }
            return ScanStep::Enter;
        }
        match extension(path.as_str()) {
            Some(e) => {
                if !same(e.as_str(), ext) {
                    return ScanStep::Skip;
                }
            },
            None => {
                return ScanStep::Skip;
            },
        }
        match look.file_len {
            Some(n) => {
                if n <= MAX_WORKSPACE_OPEN_BYTES - self.bytes {
                    self.bytes = self.bytes + n;
                    self.files.push(path);
                    ScanStep::Take
                } else {
                    ScanStep::Skip
                }
            },
            None => ScanStep::Skip,
        }
    }
}

/// Whether a directory of this name holds what tools made.
fn made_by_tools(name: &str) -> (r: bool)
    ensures
        r == is_made(name@),
{
    same(name, "target") || same(name, ".git") || same(name, "node_modules") || same(name, "vendor")
        || same(name, "build") || same(name, "dist")
}

/// Whether a file of a workspace may be shown to a server: a regular file that is not too long, by
/// what the disk says and by what was read.
pub fn fits_workspace(is_file: bool, len: u64, read: u64) -> (r: bool)
    ensures
        r == (is_file && len <= MAX_WORKSPACE_OPEN_BYTES && read <= MAX_WORKSPACE_OPEN_BYTES),
{
    is_file && len <= MAX_WORKSPACE_OPEN_BYTES && read <= MAX_WORKSPACE_OPEN_BYTES
}

} // verus!
