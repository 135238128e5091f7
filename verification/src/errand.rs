//! Errands: requests for which a file is brought before its language server.
//!
//! A session's server looks at one file at a time. An errand turns it to a file, asks, and turns it
//! back to the file that it was looking at. It goes from stage to stage: each stage says what has to
//! be done outside, and [`Daemon::errand_step`] takes what came of it.
use vstd::prelude::*;

use crate::daemon::{after_focus, borrows, focused_on, refocused, session_of, without_all, Daemon};
use crate::editor::opt_view;
use crate::opening::has_server;
use crate::serve::{
    borrow_error, borrow_notice, file_text, lacking_error, lacking_notice, BorrowFail,
};
use crate::table::{put, value_of};
use crate::types::Diagnostic;

verus! {

/// What an errand wants of a server. `BaseCheck` are the diagnostics of a base file.
#[derive(Clone, Copy, Debug, PartialEq, Eq, Structural)]
pub enum Want {
    Hints,
    PeekAt,
    Outline,
    SymbolRange,
    Hover,
    SymbolSearch,
    Check,
    BaseCheck,
    References,
    Rename,
}

/// What a request is called in messages.
pub open spec fn feature_of(w: Want) -> Seq<char> {
    match w {
        Want::Hints => "hints"@,
        Want::PeekAt => "peek"@,
        Want::Outline => "outline"@,
        Want::SymbolRange => "symbol range"@,
        Want::Hover => "hover"@,
        Want::SymbolSearch => "symbol search"@,
        Want::Check | Want::BaseCheck => "check"@,
        Want::References => "references"@,
        Want::Rename => "rename"@,
    }
}

/// The capability that a request needs, if it needs one that a server may lack.
pub open spec fn provider_of(w: Want) -> Option<Seq<char>> {
    match w {
        Want::Hints | Want::BaseCheck => None,
        Want::PeekAt => Some("definitionProvider"@),
        Want::Outline | Want::SymbolRange => Some("documentSymbolProvider"@),
        Want::Hover => Some("hoverProvider"@),
        Want::SymbolSearch => Some("workspaceSymbolProvider"@),
        Want::Check => Some("diagnosticProvider"@),
        Want::References => Some("references"@),
        Want::Rename => Some("rename"@),
    }
}

/// Whether a request shows the server other files of the workspace too.
pub open spec fn is_wide(w: Want) -> bool {
    w == Want::References || w == Want::Rename
}

/// What a request is called in messages.
pub fn feature_name(w: Want) -> (r: &'static str)
    ensures
        r@ == feature_of(w),
{
    match w {
        Want::Hints => "hints",
        Want::PeekAt => "peek",
        Want::Outline => "outline",
        Want::SymbolRange => "symbol range",
        Want::Hover => "hover",
        Want::SymbolSearch => "symbol search",
        Want::Check | Want::BaseCheck => "check",
        Want::References => "references",
        Want::Rename => "rename",
    }
}

/// The capability that a request needs, if it needs one that a server may lack.
pub fn provider_name(w: Want) -> (r: Option<&'static str>)
    ensures
        match r {
            Some(p) => provider_of(w) == Some(p@),
            None => provider_of(w) is None,
        },
{
    match w {
        Want::Hints | Want::BaseCheck => None,
        Want::PeekAt => Some("definitionProvider"),
        Want::Outline | Want::SymbolRange => Some("documentSymbolProvider"),
        Want::Hover => Some("hoverProvider"),
        Want::SymbolSearch => Some("workspaceSymbolProvider"),
        Want::Check => Some("diagnosticProvider"),
        Want::References => Some("references"),
        Want::Rename => Some("rename"),
    }
}

/// A request that needs a file's server.
///
/// `asked` is the path as the client gave it, `path` the one that the document is known by, and
/// `root` its workspace's root. `focused` is the file that the session was looking at.
pub struct Errand {
    pub want: Want,
    pub asked: String,
    pub path: String,
    pub root: String,
    pub text: String,
    pub focused: Option<String>,
    pub stage: Stage,
}

/// What an errand waits for: that the file has a session, that its server is shown the file, that it
/// says whether it offers the capability, that it answers, and that it is turned back to the file
/// that it was looking at, whose text is `text`.
pub enum Stage {
    Start,
    Show { session: u64 },
    Probe { session: u64 },
    Ask { session: u64, back: bool },
    Back { session: u64, text: String, failure: Option<ErrandFail> },
    Over { failure: Option<ErrandFail> },
}

/// Why an errand failed: no server could be started, the server lacks the capability, or the request
/// itself failed.
pub enum ErrandFail {
    NotStarted(String),
    Lacking,
    Failed(String),
}

/// What came of the work that a stage waits for. `dead` lists the files whose sessions have died.
pub enum Outcome {
    Started(Result<u64, String>),
    Shown,
    Offers(bool),
    Replied(Option<String>),
    Returned { diagnostics: Option<Vec<Diagnostic>>, dead: Vec<String> },
}

/// Whether an outcome is one of the work that a stage waits for.
pub open spec fn comes_of(stage: Stage, o: Outcome) -> bool {
    match stage {
        Stage::Start => o is Started,
        Stage::Show { .. } => o is Shown,
        Stage::Probe { .. } => o is Offers,
        Stage::Ask { .. } => o is Replied,
        Stage::Back { .. } => o is Returned,
        Stage::Over { .. } => false,
    }
}

/// Whether an errand takes the session away from another file of the same session.
pub open spec fn takes_away(d: Daemon, e: Errand, focused_root: Seq<char>) -> bool {
    e.focused matches Some(f) && borrows(d, f@, focused_root, e.path@, e.root@)
}

/// Whether a wide errand, or one that was turned down, has moved the session: it took it away, or
/// was about the very file that the session was looking at.
pub open spec fn has_moved(d: Daemon, e: Errand, focused_root: Seq<char>) -> bool {
    e.focused matches Some(f) && (f@ == e.path@ || borrows(
        d,
        f@,
        focused_root,
        e.path@,
        e.root@,
    ))
}

/// The text with which the session is turned back: that of the file it was looking at, if it is
/// still to look at it and the file is still open.
pub open spec fn text_back(d: Daemon, e: Errand, focused_root: Seq<char>) -> Option<Seq<char>> {
    match e.focused {
        Some(f) => if focused_on(d, f@, focused_root) && d.editor@.has_path(f@) {
            Some(d.editor@.doc_at(f@).text)
        } else {
            None
        },
        None => None,
    }
}

/// Whether `to` is the stage after the request: the session is turned back if it has to be and can
/// be, and else the errand is over.
pub open spec fn leaves(
    d: Daemon,
    e: Errand,
    focused_root: Seq<char>,
    session: u64,
    moved: bool,
    failure: Option<ErrandFail>,
    to: Stage,
) -> bool {
    match text_back(d, e, focused_root) {
        Some(t) if moved => to matches Stage::Back { session: s, text, failure: f } && s == session
            && text@ == t && f == failure,
        _ => to == (Stage::Over { failure }),
    }
}

/// Whether an errand goes on to the stage `to` with an outcome.
pub open spec fn goes_on(
    d: Daemon,
    e: Errand,
    o: Outcome,
    focused_root: Seq<char>,
    to: Stage,
) -> bool {
    match (e.stage, o) {
        (Stage::Start, Outcome::Started(Ok(session))) => to == (Stage::Show { session }),
        (Stage::Start, Outcome::Started(Err(m))) => to == (Stage::Over {
            failure: Some(ErrandFail::NotStarted(m)),
        }),
        (Stage::Show { session }, Outcome::Shown) => to == if provider_of(e.want) is Some {
            Stage::Probe { session }
        } else {
            Stage::Ask { session, back: takes_away(d, e, focused_root) }
        },
        (Stage::Probe { session }, Outcome::Offers(offered)) => if offered {
            to == (Stage::Ask { session, back: takes_away(d, e, focused_root) })
        } else {
            leaves(
                d,
                e,
                focused_root,
                session,
                has_moved(d, e, focused_root),
                Some(ErrandFail::Lacking),
                to,
            )
        },
        (Stage::Ask { session, back }, Outcome::Replied(failed)) => leaves(
            d,
            e,
            focused_root,
            session,
            if is_wide(e.want) {
                has_moved(d, e, focused_root)
            } else {
                back
            },
            match failed {
                Some(m) => Some(ErrandFail::Failed(m)),
                None => None,
            },
            to,
        ),
        (Stage::Back { failure, .. }, Outcome::Returned { .. }) => to == (Stage::Over { failure }),
        _ => false,
    }
}

/// How many stages are before an errand at most.
pub open spec fn stages_left(s: Stage) -> nat {
    match s {
        Stage::Start => 5,
        Stage::Show { .. } => 4,
        Stage::Probe { .. } => 3,
        Stage::Ask { .. } => 2,
        Stage::Back { .. } => 1,
        Stage::Over { .. } => 0,
    }
}

/// Every outcome brings an errand closer to its end.
pub proof fn errands_end(d: Daemon, e: Errand, o: Outcome, focused_root: Seq<char>, to: Stage)
    requires
        goes_on(d, e, o, focused_root, to),
    ensures
        stages_left(to) < stages_left(e.stage),
{
}

/// A server that lacks the capability is not asked.
pub proof fn only_what_is_offered_is_asked(
    d: Daemon,
    e: Errand,
    o: Outcome,
    focused_root: Seq<char>,
    to: Stage,
)
    requires
        goes_on(d, e, o, focused_root, to),
        to is Ask,
    ensures
        provider_of(e.want) is Some ==> o == Outcome::Offers(true),
{
}

/// A session that an errand took away from an open file that it is still to look at is turned back
/// to that file, with its present text, whatever came of the request, and what came of it is kept.
pub proof fn borrowed_session_is_given_back(
    d: Daemon,
    e: Errand,
    o: Outcome,
    focused_root: Seq<char>,
    to: Stage,
)
    requires
        goes_on(d, e, o, focused_root, to),
        e.stage matches Stage::Ask { back, .. } && (is_wide(e.want) || back == takes_away(
            d,
            e,
            focused_root,
        )),
        takes_away(d, e, focused_root),
        focused_on(d, e.focused->0@, focused_root),
        d.editor@.has_path(e.focused->0@),
    ensures
        to matches Stage::Back { session, text, failure } && {
            &&& session == e.stage->Ask_session
            &&& text@ == d.editor@.doc_at(e.focused->0@).text
            &&& failure is None <==> o == Outcome::Replied(None)
        },
{
}

impl Daemon {
    /// Starts an errand about a file, or says why it cannot be brought before a server.
    pub fn begin_errand(
        &self,
        want: Want,
        asked: &str,
        path: &str,
        root: &str,
        disk: Option<String>,
    ) -> (r: Result<Errand, BorrowFail>)
        requires
            self.wf(),
        ensures
            match file_text(*self, path@, opt_view(disk)) {
                Some(t) => if has_server(*self, path@) {
                    r matches Ok(e) && {
                        &&& e.want == want
                        &&& e.asked@ == asked@
                        &&& e.path@ == path@
                        &&& e.root@ == root@
                        &&& e.text@ == t
                        &&& opt_view(e.focused) == match session_of(
                            self.languages.languages@,
                            path@,
                            root@,
                        ) {
                            Some(k) => match value_of(self.analysis_focus@, k) {
                                Some(f) => Some(f@),
                                None => None,
                            },
                            None => None,
                        }
                        &&& e.stage is Start
                    }
                } else {
                    r matches Err(BorrowFail::NoServer(p)) && p@ == path@
                },
                None => r matches Err(BorrowFail::CannotOpen),
            },
    {
        let text = match self.borrow_text(path, disk) {
            Ok(t) => t,
            Err(f) => {
                return Err(f);
            },
        };
        Ok(
            Errand {
                want,
                asked: asked.to_owned(),
                path: path.to_owned(),
                root: root.to_owned(),
                text,
                focused: self.looked_at(path, root),
                stage: Stage::Start,
            },
        )
    }

    /// The stage after the request of an errand.
    fn leave(
        &self,
        e: &Errand,
        focused_root: &str,
        session: u64,
        moved: bool,
        failure: Option<ErrandFail>,
    ) -> (r: Stage)
        requires
            self.wf(),
        ensures
            leaves(*self, *e, focused_root@, session, moved, failure, r),
    {
        if moved {
            match &e.focused {
                Some(f) => match self.restore_text(f.as_str(), focused_root) {
                    Some(text) => {
                        return Stage::Back { session, text, failure };
                    },
                    None => {},
                },
                None => {},
            }
        }
        Stage::Over { failure }
    }

    /// Takes an errand on with what came of the work that it waited for. `focused_root` is the
    /// workspace root of the file that the session was looking at. Only once the session is turned
    /// back the state changes: the diagnostics that came with it are kept.
    pub fn errand_step(&mut self, e: Errand, o: Outcome, focused_root: &str) -> (r: Errand)
        requires
            old(self).wf(),
            comes_of(e.stage, o),
        ensures
            final(self).wf(),
            r == (Errand { stage: r.stage, ..e }),
            goes_on(*old(self), e, o, focused_root@, r.stage),
            match (o, e.focused) {
                (Outcome::Returned { diagnostics, dead }, Some(f)) => {
                    &&& *final(self) == (Daemon {
                        analysis_focus: final(self).analysis_focus,
                        diagnostics: final(self).diagnostics,
                        hints: final(self).hints,
                        ..*old(self)
                    })
                    &&& match diagnostics {
                        Some(v) => {
                            &&& refocused(
                                old(self).analysis_focus@,
                                final(self).analysis_focus@,
                                session_of(old(self).languages.languages@, f@, focused_root@),
                                f@,
                            )
                            &&& final(self).diagnostics@ == without_all(
                                put(
                                    after_focus(
                                        old(self).diagnostics@,
                                        old(self).analysis_focus@,
                                        session_of(
                                            old(self).languages.languages@,
                                            f@,
                                            focused_root@,
                                        ),
                                        f@,
                                    ),
                                    f@,
                                    v,
                                ),
                                dead@,
                            )
                        },
                        None => {
                            &&& final(self).analysis_focus == old(self).analysis_focus
                            &&& final(self).diagnostics@ == without_all(
                                old(self).diagnostics@,
                                dead@,
                            )
                        },
                    }
                    &&& final(self).hints@ == without_all(old(self).hints@, dead@)
                },
                _ => *final(self) == *old(self),
            },
    {
        let mut e = e;
        let away = match &e.focused {
            Some(f) => self.borrows_focus_session(
                Some(f.as_str()),
                focused_root,
                e.path.as_str(),
                e.root.as_str(),
            ),
            None => false,
        };
        let moved = match &e.focused {
            Some(f) => self.must_restore(
                Some(f.as_str()),
                focused_root,
                e.path.as_str(),
                e.root.as_str(),
            ),
            None => false,
        };
        let mut stage = Stage::Start;
        std::mem::swap(&mut e.stage, &mut stage);
        let next = match (stage, o) {
            (Stage::Start, Outcome::Started(Ok(session))) => Stage::Show { session },
            (Stage::Start, Outcome::Started(Err(m))) => Stage::Over {
                failure: Some(ErrandFail::NotStarted(m)),
            },
            (Stage::Show { session }, _) => {
                if provider_name(e.want).is_some() {
                    Stage::Probe { session }
                } else {
                    Stage::Ask { session, back: away }
                }
            },
            (Stage::Probe { session }, Outcome::Offers(offered)) => {
                if offered {
                    Stage::Ask { session, back: away }
                } else {
                    self.leave(&e, focused_root, session, moved, Some(ErrandFail::Lacking))
                }
            },
            (Stage::Ask { session, back }, Outcome::Replied(failed)) => {
                let failure = match failed {
                    Some(m) => Some(ErrandFail::Failed(m)),
                    None => None,
                };
                let turn = if e.want == Want::References || e.want == Want::Rename {
                    moved
                } else {
                    back
                };
                self.leave(&e, focused_root, session, turn, failure)
            },
            (Stage::Back { failure, .. }, Outcome::Returned { diagnostics, dead }) => {
                match &e.focused {
                    Some(f) => {
                        match diagnostics {
                            Some(v) => {
                                self.set_focus_diagnostics(f.as_str(), focused_root, v);
                            },
                            None => {},
                        }
                        self.drain_into(&dead);
                    },
                    None => {},
                }
                Stage::Over { failure }
            },
            _ => Stage::Over { failure: None },
        };
        e.stage = next;
        e
    }
}

/// What a client is told of an errand that failed.
pub open spec fn fail_notice(e: Errand, fail: ErrandFail) -> Seq<char> {
    match fail {
        ErrandFail::NotStarted(m) => borrow_notice(
            feature_of(e.want),
            e.asked@,
            BorrowFail::SpawnFailed(m),
        ),
        ErrandFail::Lacking => lacking_notice(
            feature_of(e.want),
            e.path@,
            match provider_of(e.want) {
                Some(p) => p,
                None => Seq::empty(),
            },
        ),
        ErrandFail::Failed(m) => m@,
    }
}

/// What a client is told of an errand that failed.
pub fn errand_error(e: &Errand, fail: ErrandFail) -> (r: String)
    ensures
        r@ == fail_notice(*e, fail),
{
    match fail {
        ErrandFail::NotStarted(m) => borrow_error(
            feature_name(e.want),
            e.asked.as_str(),
            &BorrowFail::SpawnFailed(m),
        ),
        ErrandFail::Lacking => match provider_name(e.want) {
            Some(p) => lacking_error(feature_name(e.want), e.path.as_str(), p),
            None => {
                let none = String::new();
                lacking_error(feature_name(e.want), e.path.as_str(), none.as_str())
            },
        },
        ErrandFail::Failed(m) => m,
    }
}

} // verus!
