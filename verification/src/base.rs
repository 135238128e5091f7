//! Base roots: read-only trees that live files are compared with, and their diagnostics.
use vstd::prelude::*;
use vstd::utf8::*;

use crate::daemon::{BaseRootReg, Daemon, MAX_BASE_DIAG_CACHE};
use crate::paths::{components, comps, deep, from_components, path_text, starts_with, under};
use crate::sessions::{focus_outside, sessions_outside, some_rows_laws, KeyView};
use crate::strings::{joined, same};
use crate::table::{
    has_key, key_at, keys_differ, lists, newest, outside, outside_laws, put, put_laws, row_is,
    row_of, value_of, without,
};
use crate::types::{
    copy_diagnostics, BaseDiagnostic, BaseRootInfo, Diagnostic, EventKind, EventSource,
};

verus! {

/// Whether row `i` is the first root that a path is at or below.
pub open spec fn first_root(t: Seq<(Seq<char>, BaseRootReg)>, path: Seq<char>, i: int) -> bool {
    &&& 0 <= i < t.len()
    &&& under(path, t[i].0)
    &&& forall|j: int| 0 <= j < i ==> !under(path, (#[trigger] t[j]).0)
}

/// Whether a path is at or below a registered base root.
pub open spec fn in_base(t: Seq<(Seq<char>, BaseRootReg)>, path: Seq<char>) -> bool {
    exists|i: int| 0 <= i < t.len() && under(path, (#[trigger] t[i]).0)
}

/// What is shown of a commit: its first seven bytes if they are whole characters, else all of it.
pub open spec fn short_commit(commit: Seq<char>) -> Seq<char> {
    let b = encode_utf8(commit);
    if b.len() >= 7 && is_char_boundary(b, 7) {
        decode_utf8(b.subrange(0, 7))
    } else {
        commit
    }
}

/// The refusal to write below a base.
pub open spec fn read_only_notice(commit: Seq<char>, path: Seq<char>) -> Seq<char> {
    "基準 "@ + short_commit(commit) + " 配下は読取り専用です: "@ + path
}

/// Whether a registration says the same as another.
pub open spec fn same_base(r: BaseRootReg, commit: Seq<char>, repo: Option<String>) -> bool {
    r.commit@ == commit && match (r.repo, repo) {
        (Some(a), Some(b)) => a@ == b@,
        (None, None) => true,
        _ => false,
    }
}

/// The base counterpart of a live path under one root: the path itself if it is below the root,
/// or its place below the root if it is below the root's repository.
pub open spec fn counterpart(
    root: Seq<char>,
    reg: BaseRootReg,
    focused: Seq<char>,
) -> Option<Seq<char>> {
    if under(focused, root) {
        Some(focused)
    } else {
        match reg.repo {
            Some(repo) => if under(focused, repo@) {
                Some(path_text(comps(root) + comps(focused).skip(comps(repo@).len() as int)))
            } else {
                None
            },
            None => None,
        }
    }
}

/// The sequence with `x` at its end unless it is there already.
pub open spec fn push_new(s: Seq<Seq<char>>, x: Seq<char>) -> Seq<Seq<char>> {
    if s.contains(x) {
        s
    } else {
        s.push(x)
    }
}

/// The base counterparts of a live path under the roots, in order and without repetition.
pub open spec fn counterparts(
    roots: Seq<(Seq<char>, BaseRootReg)>,
    focused: Seq<char>,
) -> Seq<Seq<char>>
    decreases roots.len(),
{
    if roots.len() == 0 {
        seq![]
    } else {
        let before = counterparts(roots.drop_last(), focused);
        match counterpart(roots.last().0, roots.last().1, focused) {
            Some(c) => push_new(before, c),
            None => before,
        }
    }
}

/// The cached diagnostics of the paths, in order; paths without any are left out.
pub open spec fn cached_only(
    paths: Seq<Seq<char>>,
    cache: Seq<(Seq<char>, Vec<Diagnostic>)>,
) -> Seq<(Seq<char>, Seq<Diagnostic>)>
    decreases paths.len(),
{
    if paths.len() == 0 {
        seq![]
    } else {
        let before = cached_only(paths.drop_last(), cache);
        match value_of(cache, paths.last()) {
            Some(v) => before.push((paths.last(), v@)),
            None => before,
        }
    }
}

/// Base diagnostics by their values.
pub open spec fn base_views(v: Seq<BaseDiagnostic>) -> Seq<(Seq<char>, Seq<Diagnostic>)> {
    v.map_values(|b: BaseDiagnostic| (b.path@, b.diagnostics@))
}

/// Whether path `i` is the first that is neither cached nor being fetched.
pub open spec fn first_missing(d: Daemon, paths: Seq<Seq<char>>, i: int) -> bool {
    &&& 0 <= i < paths.len()
    &&& !has_key(d.base_diagnostics@, paths[i])
    &&& !has_key(d.base_diag_inflight@, paths[i])
    &&& forall|j: int|
        0 <= j < i ==> has_key(d.base_diagnostics@, #[trigger] paths[j]) || has_key(
            d.base_diag_inflight@,
            paths[j],
        )
}

fn short(commit: &str) -> (r: String)
    ensures
        r@ == short_commit(commit@),
{
    broadcast use is_char_boundary_start_end_of_seq;

    proof {
        encode_utf8_valid_utf8(commit@);
    }
    if commit.as_bytes().len() >= 7 && commit.is_char_boundary(7) {
        let (front, _back) = commit.split_at(7);
        proof {
            assert(encode_utf8(front@) =~= encode_utf8(commit@).subrange(0, 7));
            encode_utf8_decode_utf8(front@);
        }
        front.to_owned()
    } else {
        commit.to_owned()
    }
}

fn same_opt(a: &Option<String>, b: &Option<String>) -> (r: bool)
    ensures
        r == match (*a, *b) {
            (Some(x), Some(y)) => x@ == y@,
            (None, None) => true,
            _ => false,
        },
{
    match (a, b) {
        (Some(x), Some(y)) => same(x.as_str(), y.as_str()),
        (None, None) => true,
        _ => false,
    }
}

/// The base counterpart of a live path under one root.
fn counterpart_of(root: &str, reg: &BaseRootReg, focused: &str) -> (r: Option<String>)
    ensures
        crate::editor::opt_view(r) == counterpart(root@, *reg, focused@),
{
    if starts_with(focused, root) {
        return Some(focused.to_owned());
    }
    match &reg.repo {
        Some(repo) => {
            if !starts_with(focused, repo.as_str()) {
                return None;
            }
            let mut out = components(root);
            let rel = components(focused);
            let skip = components(repo.as_str()).len();
            proof {
                assert(deep(rel@).len() == rel@.len());
            }
            let ghost front = out@;
            let mut i: usize = skip;
            assert(out@ =~= front + rel@.subrange(skip as int, skip as int));
            while i < rel.len()
                invariant
                    skip <= i <= rel.len(),
                    out@ == front + rel@.subrange(skip as int, i as int),
                decreases rel.len() - i,
            {
                out.push(rel[i].clone());
                i = i + 1;
                assert(out@ =~= front + rel@.subrange(skip as int, i as int));
            }
            proof {
                assert(deep(out@) =~= deep(front) + deep(rel@).skip(skip as int));
            }
            Some(from_components(&out))
        },
        None => None,
    }
}

impl Daemon {
    /// Whether a path is at or below a registered base root.
    pub fn is_base_path(&self, path: &str) -> (r: bool)
        ensures
            r == in_base(self.base_roots@, path@),
    {
        let mut i: usize = 0;
        while i < self.base_roots.entries.len()
            invariant
                i <= self.base_roots.entries.len(),
                forall|j: int| 0 <= j < i ==> !under(path@, (#[trigger] self.base_roots@[j]).0),
            decreases self.base_roots.entries.len() - i,
        {
            assert(self.base_roots@[i as int].0 == self.base_roots.entries@[i as int].key@);
            if starts_with(path, self.base_roots.entries[i].key.as_str()) {
                return true;
            }
            i = i + 1;
        }
        false
    }

    /// The refusal to write to a path below a base, or nothing if the path is not below one.
    pub fn base_reject(&self, path: &str) -> (r: Option<String>)
        ensures
            r is Some <==> in_base(self.base_roots@, path@),
            r matches Some(m) ==> exists|i: int| #[trigger]
                first_root(self.base_roots@, path@, i) && m@ == read_only_notice(
                    self.base_roots@[i].1.commit@,
                    path@,
                ),
    {
        let mut i: usize = 0;
        while i < self.base_roots.entries.len()
            invariant
                i <= self.base_roots.entries.len(),
                forall|j: int| 0 <= j < i ==> !under(path@, (#[trigger] self.base_roots@[j]).0),
            decreases self.base_roots.entries.len() - i,
        {
            assert(self.base_roots@[i as int].0 == self.base_roots.entries@[i as int].key@);
            if starts_with(path, self.base_roots.entries[i].key.as_str()) {
                let mut m = "基準 ".to_owned();
                let s = short(self.base_roots.entries[i].value.commit.as_str());
                m.append(s.as_str());
                m.append(" 配下は読取り専用です: ");
                m.append(path);
                assert(first_root(self.base_roots@, path@, i as int));
                assert(m@ =~= read_only_notice(self.base_roots@[i as int].1.commit@, path@));
                return Some(m);
            }
            i = i + 1;
        }
        None
    }

    /// Registers a base root, or updates it. The review comments are dropped unless the root was
    /// registered with the same commit and repository.
    pub fn register_base_root(
        &mut self,
        root: &str,
        commit: String,
        repo: Option<String>,
        source: EventSource,
    )
        requires
            old(self).wf(),
            old(self).log@.room(1),
        ensures
            final(self).wf(),
            *final(self) == (Daemon {
                base_roots: final(self).base_roots,
                review_comments: final(self).review_comments,
                log: final(self).log,
                ..*old(self)
            }),
            final(self).base_roots@ == put(
                old(self).base_roots@,
                root@,
                BaseRootReg { commit, repo },
            ),
            final(self).review_comments@ == if value_of(old(self).base_roots@, root@) matches Some(
                r,
            ) && same_base(r, commit@, repo) {
                old(self).review_comments@
            } else {
                Seq::empty()
            },
            final(self).log@ == old(self).log@.event(source, EventKind::BaseRoot, None, None),
    {
        let unchanged = match self.base_roots.get(root) {
            Some(r) => same(r.commit.as_str(), commit.as_str()) && same_opt(&r.repo, &repo),
            None => false,
        };
        if !unchanged {
            self.review_comments = Vec::new();
        }
        self.base_roots.insert(root, BaseRootReg { commit, repo });
        self.log.record_event(source, EventKind::BaseRoot, None, None);
    }

    /// Finishes a request to register a base root, with the paths as the disk resolves them. A root
    /// or a repository that is not there is not registered, and the client is told.
    pub fn finish_register(
        &mut self,
        root: &str,
        resolved: Option<String>,
        commit: String,
        repo: Option<&str>,
        repo_resolved: Option<String>,
        source: EventSource,
    ) -> (r: Option<String>)
        requires
            old(self).wf(),
            old(self).log@.room(1),
        ensures
            final(self).wf(),
            r is None <==> resolved is Some && (repo is None || repo_resolved is Some),
            match r {
                Some(m) => {
                    &&& *final(self) == *old(self)
                    &&& m@ == if resolved is None {
                        "基準 root がありません: "@ + root@
                    } else {
                        "対応リポジトリがありません: "@ + repo->0@
                    }
                },
                None => {
                    &&& *final(self) == (Daemon {
                        base_roots: final(self).base_roots,
                        review_comments: final(self).review_comments,
                        log: final(self).log,
                        ..*old(self)
                    })
                    &&& final(self).base_roots@ == put(
                        old(self).base_roots@,
                        resolved->0@,
                        BaseRootReg {
                            commit,
                            repo: if repo is Some {
                                repo_resolved
                            } else {
                                None
                            },
                        },
                    )
                    &&& final(self).review_comments@ == if value_of(
                        old(self).base_roots@,
                        resolved->0@,
                    ) matches Some(reg) && same_base(
                        reg,
                        commit@,
                        if repo is Some {
                            repo_resolved
                        } else {
                            None
                        },
                    ) {
                        old(self).review_comments@
                    } else {
                        Seq::empty()
                    }
                    &&& final(self).log@ == old(self).log@.event(
                        source,
                        EventKind::BaseRoot,
                        None,
                        None,
                    )
                },
            },
    {
        let root_path = match resolved {
            Some(p) => p,
            None => {
                return Some(joined("基準 root がありません: ", root));
            },
        };
        let repo_path = match repo {
            Some(asked) => match repo_resolved {
                Some(p) => Some(p),
                None => {
                    return Some(joined("対応リポジトリがありません: ", asked));
                },
            },
            None => None,
        };
        self.register_base_root(root_path.as_str(), commit, repo_path, source);
        None
    }

    /// Takes a base root off the register, with all that was kept for it: review comments, sessions
    /// and what they were looking at, files below the root that any session was looking at,
    /// outlines, hints and diagnostics. Gives the numbers of the
    /// sessions back whose processes have to be ended. A root that is not registered changes
    /// nothing.
    pub fn unregister_base_root(&mut self, root: &str, source: EventSource) -> (r: Vec<u64>)
        requires
            old(self).wf(),
            old(self).log@.room(1),
        ensures
            final(self).wf(),
            !has_key(old(self).base_roots@, root@) ==> *final(self) == *old(self) && r@.len() == 0,
            has_key(old(self).base_roots@, root@) ==> {
                &&& *final(self) == (Daemon {
                    base_roots: final(self).base_roots,
                    review_comments: final(self).review_comments,
                    sessions: final(self).sessions,
                    outlines: final(self).outlines,
                    hints: final(self).hints,
                    diagnostics: final(self).diagnostics,
                    base_diagnostics: final(self).base_diagnostics,
                    base_diag_inflight: final(self).base_diag_inflight,
                    analysis_focus: final(self).analysis_focus,
                    log: final(self).log,
                    ..*old(self)
                })
                &&& final(self).base_roots@ == without(old(self).base_roots@, root@)
                &&& final(self).review_comments@.len() == 0
                &&& final(self).sessions@ == sessions_outside(old(self).sessions@, root@)
                &&& r@ == old(self).sessions@.filter(
                    |e: (KeyView, u64)| under(e.0.0, root@),
                ).map_values(|e: (KeyView, u64)| e.1)
                &&& final(self).outlines@ == outside(old(self).outlines@, root@)
                &&& final(self).hints@ == outside(old(self).hints@, root@)
                &&& final(self).diagnostics@ == outside(old(self).diagnostics@, root@)
                &&& final(self).base_diagnostics@ == outside(old(self).base_diagnostics@, root@)
                &&& final(self).base_diag_inflight@ == outside(
                    old(self).base_diag_inflight@,
                    root@,
                )
                &&& final(self).analysis_focus@ == focus_outside(
                    old(self).analysis_focus@,
                    root@,
                )
                &&& final(self).log@ == old(self).log@.event(
                    source,
                    EventKind::BaseRoot,
                    None,
                    None,
                )
            },
    {
        if !self.base_roots.contains(root) {
            return Vec::new();
        }
        proof {
            outside_laws(self.outlines@, root@);
            outside_laws(self.hints@, root@);
            outside_laws(self.base_diagnostics@, root@);
        }
        self.base_roots.remove(root);
        self.review_comments = Vec::new();
        let ended = self.sessions.take_under(root);
        self.outlines.remove_under(root);
        self.hints.remove_under(root);
        self.diagnostics.remove_under(root);
        self.base_diagnostics.remove_under(root);
        self.base_diag_inflight.remove_under(root);
        self.analysis_focus.forget_under(root);
        self.log.record_event(source, EventKind::BaseRoot, None, None);
        ended
    }

    /// The base counterparts of a live path.
    pub fn base_counterparts(&self, focused: &str) -> (r: Vec<String>)
        ensures
            deep(r@) == counterparts(self.base_roots@, focused@),
    {
        let mut out: Vec<String> = Vec::new();
        let mut i: usize = 0;
        let ghost roots = self.base_roots@;
        assert(roots.take(0) =~= seq![]);
        assert(deep(out@) =~= seq![]);
        while i < self.base_roots.entries.len()
            invariant
                i <= self.base_roots.entries.len(),
                roots == self.base_roots@,
                deep(out@) == counterparts(roots.take(i as int), focused@),
            decreases self.base_roots.entries.len() - i,
        {
            assert(roots.take(i as int + 1).drop_last() =~= roots.take(i as int));
            assert(roots.take(i as int + 1).last() == roots[i as int]);
            assert(roots[i as int] == (
                self.base_roots.entries@[i as int].key@,
                self.base_roots.entries@[i as int].value,
            ));
            let c = counterpart_of(
                self.base_roots.entries[i].key.as_str(),
                &self.base_roots.entries[i].value,
                focused,
            );
            match c {
                Some(c) => {
                    if !lists(&out, c.as_str()) {
                        let ghost before = deep(out@);
                        let ghost cv = c@;
                        out.push(c);
                        assert(deep(out@) =~= before.push(cv));
                    }
                },
                None => {},
            }
            i = i + 1;
        }
        assert(roots.take(roots.len() as int) =~= roots);
        out
    }

    /// The base diagnostics that a view of a file shows: those that are cached. The others are
    /// fetched in the background.
    pub fn snapshot_base_diagnostics(&self, focused: Option<&str>) -> (r: Vec<BaseDiagnostic>)
        requires
            self.wf(),
        ensures
            base_views(r@) == match focused {
                Some(f) => cached_only(
                    counterparts(self.base_roots@, f@),
                    self.base_diagnostics@,
                ),
                None => Seq::empty(),
            },
    {
        let mut out: Vec<BaseDiagnostic> = Vec::new();
        assert(base_views(out@) =~= seq![]);
        let focused = match focused {
            Some(f) => f,
            None => {
                return out;
            },
        };
        let paths = self.base_counterparts(focused);
        let ghost ps = deep(paths@);
        let mut i: usize = 0;
        assert(ps.take(0) =~= seq![]);
        while i < paths.len()
            invariant
                i <= paths.len(),
                self.wf(),
                ps == deep(paths@),
                base_views(out@) == cached_only(ps.take(i as int), self.base_diagnostics@),
            decreases paths.len() - i,
        {
            assert(ps.take(i as int + 1).drop_last() =~= ps.take(i as int));
            assert(ps.take(i as int + 1).last() == paths@[i as int]@);
            match self.base_diagnostics.get(paths[i].as_str()) {
                Some(v) => {
                    let ghost before = base_views(out@);
                    let b = BaseDiagnostic {
                        path: paths[i].clone(),
                        diagnostics: copy_diagnostics(v),
                    };
                    out.push(b);
                    assert(base_views(out@) =~= before.push((paths@[i as int]@, v@)));
                },
                None => {},
            }
            i = i + 1;
        }
        assert(ps.take(paths@.len() as int) =~= ps);
        out
    }

    /// Picks the next base file whose diagnostics are to be fetched, and marks it as being fetched.
    pub fn take_base_pull(&mut self, focused: Option<&str>) -> (r: Option<String>)
        requires
            old(self).wf(),
        ensures
            final(self).wf(),
            focused is None ==> r is None,
            r is None ==> *final(self) == *old(self),
            r is None && focused is Some ==> forall|i: int|
                !#[trigger] first_missing(
                    *old(self),
                    counterparts(old(self).base_roots@, focused->0@),
                    i,
                ),
            r is Some ==> *final(self) == (Daemon {
                base_diag_inflight: final(self).base_diag_inflight,
                ..*old(self)
            }),
            r is Some ==> final(self).base_diag_inflight@ == put(
                old(self).base_diag_inflight@,
                r->0@,
                (),
            ),
            r is Some ==> exists|i: int| #[trigger]
                first_missing(
                    *old(self),
                    counterparts(old(self).base_roots@, focused->0@),
                    i,
                ) && r->0@ == counterparts(old(self).base_roots@, focused->0@)[i],
    {
        let f = match focused {
            Some(f) => f,
            None => {
                return None;
            },
        };
        let paths = self.base_counterparts(f);
        let ghost ps = deep(paths@);
        let mut i: usize = 0;
        while i < paths.len()
            invariant
                i <= paths.len(),
                *self == *old(self),
                old(self).wf(),
                ps == deep(paths@),
                ps == counterparts(old(self).base_roots@, f@),
                focused == Some(f),
                forall|j: int|
                    0 <= j < i ==> has_key(old(self).base_diagnostics@, #[trigger] ps[j])
                        || has_key(old(self).base_diag_inflight@, ps[j]),
            decreases paths.len() - i,
        {
            assert(ps[i as int] == paths@[i as int]@);
            if !self.base_diagnostics.contains(paths[i].as_str())
                && !self.base_diag_inflight.contains(paths[i].as_str()) {
                assert(first_missing(
                    *old(self),
                    counterparts(old(self).base_roots@, focused->0@),
                    i as int,
                ));
                self.base_diag_inflight.insert(paths[i].as_str(), ());
                return Some(paths[i].clone());
            }
            i = i + 1;
        }
        assert(ps.len() == paths@.len());
        None
    }

    /// Keeps the diagnostics of a base file, which is then no longer being fetched. Beyond the
    /// bound the file that came first is forgotten. The generation does not count this.
    pub fn store_base_diagnostics(&mut self, path: &str, diags: Vec<Diagnostic>)
        requires
            old(self).wf(),
        ensures
            final(self).wf(),
            *final(self) == (Daemon {
                base_diagnostics: final(self).base_diagnostics,
                base_diag_inflight: final(self).base_diag_inflight,
                ..*old(self)
            }),
            final(self).base_diag_inflight@ == without(old(self).base_diag_inflight@, path@),
            final(self).base_diagnostics@ == newest(
                put(old(self).base_diagnostics@, path@, diags),
                MAX_BASE_DIAG_CACHE as int,
            ),
    {
        self.base_diag_inflight.remove(path);
        proof {
            put_laws(self.base_diagnostics@, path@, diags);
        }
        self.base_diagnostics.insert(path, diags);
        self.base_diagnostics.shrink_to(MAX_BASE_DIAG_CACHE);
    }

    /// Takes the outcome of a background fetch. A file that is no longer being fetched, because its
    /// root was taken off the register meanwhile, is ignored. A server that could not be started is
    /// tried again later; a file without server, or one that cannot be read, counts as clean. Says
    /// whether the clients are to be told.
    pub fn finish_base_pull(&mut self, path: &str, outcome: BasePull) -> (r: bool)
        requires
            old(self).wf(),
        ensures
            final(self).wf(),
            match outcome {
                BasePull::NotStarted => {
                    &&& !r
                    &&& *final(self) == (Daemon {
                        base_diag_inflight: final(self).base_diag_inflight,
                        ..*old(self)
                    })
                    &&& final(self).base_diag_inflight@ == without(
                        old(self).base_diag_inflight@,
                        path@,
                    )
                },
                BasePull::Unsupported => {
                    &&& r
                    &&& *final(self) == (Daemon {
                        base_diagnostics: final(self).base_diagnostics,
                        base_diag_inflight: final(self).base_diag_inflight,
                        ..*old(self)
                    })
                    &&& exists|none: Vec<Diagnostic>|
                        (#[trigger] none@).len() == 0 && final(self).base_diagnostics@ == newest(
                            put(old(self).base_diagnostics@, path@, none),
                            MAX_BASE_DIAG_CACHE as int,
                        )
                    &&& final(self).base_diag_inflight@ == without(
                        old(self).base_diag_inflight@,
                        path@,
                    )
                },
                BasePull::Pulled(diags) => {
                    &&& r == has_key(old(self).base_diag_inflight@, path@)
                    &&& !r ==> *final(self) == *old(self)
                    &&& r ==> {
                        &&& *final(self) == (Daemon {
                            base_diagnostics: final(self).base_diagnostics,
                            base_diag_inflight: final(self).base_diag_inflight,
                            ..*old(self)
                        })
                        &&& final(self).base_diagnostics@ == newest(
                            put(old(self).base_diagnostics@, path@, diags),
                            MAX_BASE_DIAG_CACHE as int,
                        )
                        &&& final(self).base_diag_inflight@ == without(
                            old(self).base_diag_inflight@,
                            path@,
                        )
                    }
                },
            },
    {
        match outcome {
            BasePull::NotStarted => {
                self.base_diag_inflight.remove(path);
                false
            },
            BasePull::Unsupported => {
                let none: Vec<Diagnostic> = Vec::new();
                let ghost witness = none;
                self.store_base_diagnostics(path, none);
                assert(witness@.len() == 0);
                true
            },
            BasePull::Pulled(diags) => {
                if !self.base_diag_inflight.contains(path) {
                    return false;
                }
                self.store_base_diagnostics(path, diags);
                true
            },
        }
    }
}

/// How a background fetch of base diagnostics went.
pub enum BasePull {
    NotStarted,
    Unsupported,
    Pulled(Vec<Diagnostic>),
}

/// Once a root is registered every path at or below it is refused, and no path that was refused
/// before is let through.
pub proof fn registered_root_is_guarded(
    t: Seq<(Seq<char>, BaseRootReg)>,
    root: Seq<char>,
    reg: BaseRootReg,
    path: Seq<char>,
)
    requires
        keys_differ(t),
        under(path, root) || in_base(t, path),
    ensures
        in_base(put(t, root, reg), path),
{
    let p = put(t, root, reg);
    put_laws(t, root, reg);
    if under(path, root) {
        let i = row_of(p, root);
        assert(value_of(p, root) is Some);
        assert(key_at(p, root, i));
        assert(under(path, p[i].0));
    } else {
        let i = choose|i: int| 0 <= i < t.len() && under(path, (#[trigger] t[i]).0);
        if has_key(t, root) {
            assert(key_at(t, root, row_of(t, root)));
            assert(p[i].0 == t[i].0);
        } else {
            assert(p[i] == t[i]);
        }
        assert(under(path, p[i].0));
    }
}

/// Registering a root and taking it off again leaves the register as it was, if the root was not
/// in it.
pub proof fn unregister_undoes_register(
    t: Seq<(Seq<char>, BaseRootReg)>,
    root: Seq<char>,
    reg: BaseRootReg,
)
    requires
        keys_differ(t),
        !has_key(t, root),
    ensures
        without(put(t, root, reg), root) == t,
{
    let p = put(t, root, reg);
    put_laws(t, root, reg);
    assert(key_at(p, root, t.len() as int));
    row_is(p, root, t.len() as int);
    assert(p.remove(t.len() as int) =~= t);
}

/// After a root is taken off the register, none of the kept outlines, hints or diagnostics belongs
/// to a path at or below it, and those of all other paths are still there.
pub proof fn unregister_forgets_below<V>(t: Seq<(Seq<char>, V)>, root: Seq<char>, path: Seq<char>)
    requires
        keys_differ(t),
    ensures
        under(path, root) ==> !has_key(outside(t, root), path),
        !under(path, root) ==> value_of(outside(t, root), path) == value_of(t, path),
{
    outside_laws(t, root);
}

/// No session looks at a file below a root that was taken off the register, and none of a workspace
/// below it looks at anything.
pub proof fn unregister_forgets_focus_below(t: Seq<(KeyView, String)>, root: Seq<char>, i: int)
    requires
        keys_differ(t),
        0 <= i < focus_outside(t, root).len(),
    ensures
        t.contains(focus_outside(t, root)[i]),
        !under(focus_outside(t, root)[i].0.0, root),
        !under(focus_outside(t, root)[i].1@, root),
{
    some_rows_laws(t, |e: (KeyView, String)| !under(e.0.0, root) && !under(e.1@, root));
}

/// Whether a text comes before another or is the same, character by character.
pub open spec fn text_le(a: Seq<char>, b: Seq<char>, i: int) -> bool
    decreases a.len() - i,
{
    if i >= a.len() {
        true
    } else if i >= b.len() {
        false
    } else if a[i] != b[i] {
        (a[i] as u32) < (b[i] as u32)
    } else {
        text_le(a, b, i + 1)
    }
}

fn is_le(a: &str, b: &str) -> (r: bool)
    ensures
        r == text_le(a@, b@, 0),
{
    let x = crate::strings::chars_of(a);
    let y = crate::strings::chars_of(b);
    let mut i: usize = 0;
    while i < x.len()
        invariant
            i <= x.len(),
            x@ == a@,
            y@ == b@,
            text_le(a@, b@, 0) == text_le(a@, b@, i as int),
        decreases x.len() - i,
    {
        if i >= y.len() {
            return false;
        }
        let p: char = x[i];
        let q: char = y[i];
        if p != q {
            return (p as u32) < (q as u32);
        }
        i = i + 1;
    }
    true
}

/// Any two texts are in order one way or the other.
pub proof fn text_le_total(a: Seq<char>, b: Seq<char>, i: int)
    requires
        0 <= i,
    ensures
        text_le(a, b, i) || text_le(b, a, i),
    decreases a.len() - i,
{
    if i < a.len() && i < b.len() {
        if a[i] == b[i] {
            text_le_total(a, b, i + 1);
        } else {
            char_u32_cast(a[i], a[i] as u32);
            char_u32_cast(b[i], b[i] as u32);
        }
    }
}

/// The order of texts carries over.
pub proof fn text_le_transitive(a: Seq<char>, b: Seq<char>, c: Seq<char>, i: int)
    requires
        0 <= i,
        text_le(a, b, i),
        text_le(b, c, i),
    ensures
        text_le(a, c, i),
    decreases a.len() - i,
{
    if i < a.len() && i < b.len() && i < c.len() && a[i] == b[i] && b[i] == c[i] {
        text_le_transitive(a, b, c, i + 1);
    }
}

/// Base roots by their values.
pub open spec fn info_views(v: Seq<BaseRootInfo>) -> Seq<(Seq<char>, Seq<char>)> {
    v.map_values(|b: BaseRootInfo| (b.root@, b.commit@))
}

/// The registered roots and their commits.
pub open spec fn root_commits(t: Seq<(Seq<char>, BaseRootReg)>) -> Seq<(Seq<char>, Seq<char>)> {
    t.map_values(|r: (Seq<char>, BaseRootReg)| (r.0, r.1.commit@))
}

/// Whether the list is in the order of its first parts.
pub open spec fn in_order(v: Seq<(Seq<char>, Seq<char>)>) -> bool {
    forall|i: int, j: int| 0 <= i < j < v.len() ==> text_le((#[trigger] v[i]).0, (#[trigger] v[j]).0, 0)
}

impl Daemon {
    /// The registered base roots in the order of their paths.
    pub fn base_root_infos(&self) -> (r: Vec<BaseRootInfo>)
        ensures
            in_order(info_views(r@)),
            info_views(r@).to_multiset() == root_commits(self.base_roots@).to_multiset(),
    {
        broadcast use vstd::seq_lib::group_to_multiset_ensures;

        let mut out: Vec<BaseRootInfo> = Vec::new();
        let ghost all = root_commits(self.base_roots@);
        let mut i: usize = 0;
        assert(info_views(out@) =~= all.take(0));
        while i < self.base_roots.entries.len()
            invariant
                i <= self.base_roots.entries.len(),
                all == root_commits(self.base_roots@),
                in_order(info_views(out@)),
                info_views(out@).to_multiset() == all.take(i as int).to_multiset(),
            decreases self.base_roots.entries.len() - i,
        {
            let e = &self.base_roots.entries[i];
            let one = BaseRootInfo { root: e.key.clone(), commit: e.value.commit.clone() };
            let ghost x = (one.root@, one.commit@);
            assert(self.base_roots@[i as int] == (e.key@, e.value));
            assert(all[i as int] == x);
            let ghost v = info_views(out@);
            let mut at: usize = out.len();
            while at > 0 && !is_le(out[at - 1].root.as_str(), one.root.as_str())
                invariant
                    at <= out@.len(),
                    v == info_views(out@),
                    x == (one.root@, one.commit@),
                    in_order(v),
                    forall|j: int|
                        at <= j < v.len() ==> !text_le((#[trigger] v[j]).0, x.0, 0),
                decreases at,
            {
                assert(v[at - 1].0 == out@[at - 1].root@);
                at = at - 1;
            }
            proof {
                if at > 0 {
                    assert(v[at - 1].0 == out@[at - 1].root@);
                }
                let w = v.insert(at as int, x);
                assert forall|p: int, q: int| 0 <= p < q < w.len() implies text_le(
                    (#[trigger] w[p]).0,
                    (#[trigger] w[q]).0,
                    0,
                ) by {
                    if p < at && q == at {
                        assert(w[p] == v[p]);
                        if p < at - 1 {
                            text_le_transitive(v[p].0, v[at - 1].0, x.0, 0);
                        }
                    } else if p == at {
                        assert(w[q] == v[q - 1]);
                        text_le_total(x.0, v[q - 1].0, 0);
                    } else {
                        let p2 = if p < at { p } else { p - 1 };
                        let q2 = if q < at { q } else { q - 1 };
                        assert(w[p] == v[p2]);
                        assert(w[q] == v[q2]);
                    }
                }
                assert(all.take(i as int + 1) =~= all.take(i as int).push(x));
                w.to_multiset_ensures();
                assert(w.remove(at as int) =~= v);
                assert(w[at as int] == x);
                assert(w.contains(x));
                assert(w.to_multiset() =~= v.to_multiset().insert(x));
                all.take(i as int).to_multiset_ensures();
            }
            out.insert(at, one);
            assert(info_views(out@) =~= v.insert(at as int, x));
            i = i + 1;
        }
        assert(all.take(all.len() as int) =~= all);
        out
    }
}

} // verus!
