//! Client requests: who may ask for what, what is recorded, and the steps of opening and saving.
use vstd::prelude::*;

use crate::base::{first_root, in_base, read_only_notice};
use crate::clients::{foreign_session, view_of};
use crate::commands::{closes_session, is_call, started, too_large, Begin};
use crate::daemon::{listed_log, work_listed, Daemon};
use crate::editor::{front_ok, opt_view, EditorView};
use crate::review::with_comment;
use crate::types::{
    ActivityKind, Command, DocumentEdit, EventKind, EventSource, Mode, Range, ReviewComment,
    ServerMetrics,
};

verus! {

/// What a headless client may ask for besides edits by position. All else would take the screen,
/// the mode, the cursor or the history away from those who have a screen.
pub open spec fn open_to_headless(c: Command) -> bool {
    match c {
        Command::GetState | Command::Save | Command::WaitFor { .. } | Command::Open { .. }
        | Command::Close | Command::ListReviewComments | Command::ClearReviewComments
        | Command::RegisterBaseRoot { .. } | Command::UnregisterBaseRoot { .. } => true,
        _ => false,
    }
}

/// Whether a headless client may ask for a command.
pub fn headless_may(c: &Command) -> (r: bool)
    ensures
        r == open_to_headless(*c),
{
    match c {
        Command::GetState | Command::Save | Command::WaitFor { .. } | Command::Open { .. }
        | Command::Close | Command::ListReviewComments | Command::ClearReviewComments
        | Command::RegisterBaseRoot { .. } | Command::UnregisterBaseRoot { .. } => true,
        _ => false,
    }
}

/// What a headless client is told that asks for something else.
pub open spec fn headless_notice() -> Seq<char> {
    "headless clients can only use GetState, Save, WaitFor, DocumentEdit, Open, Close, ListReviewComments, ClearReviewComments, RegisterBaseRoot, and UnregisterBaseRoot"@
}

/// Whether a command can change the text, so that the language server has to be told.
pub open spec fn edits_text(c: Command) -> bool {
    match c {
        Command::Insert { .. } | Command::DeleteBackward | Command::DeleteForward
        | Command::DeleteWordBackward | Command::DeleteWordForward | Command::DeleteRange
        | Command::Change | Command::OpenBelow | Command::OpenAbove | Command::Replace { .. }
        | Command::SurroundAdd { .. } | Command::SurroundDelete { .. }
        | Command::SurroundReplace { .. } | Command::KillToLineStart | Command::KillToLineEnd
        | Command::Undo | Command::Redo => true,
        _ => false,
    }
}

/// Whether a command can change the text.
pub fn is_edit(c: &Command) -> (r: bool)
    ensures
        r == edits_text(*c),
{
    match c {
        Command::Insert { .. } | Command::DeleteBackward | Command::DeleteForward
        | Command::DeleteWordBackward | Command::DeleteWordForward | Command::DeleteRange
        | Command::Change | Command::OpenBelow | Command::OpenAbove | Command::Replace { .. }
        | Command::SurroundAdd { .. } | Command::SurroundDelete { .. }
        | Command::SurroundReplace { .. } | Command::KillToLineStart | Command::KillToLineEnd
        | Command::Undo | Command::Redo => true,
        _ => false,
    }
}

/// A change as it will be recorded, if the command makes it.
pub struct Change {
    pub kind: EventKind,
    pub range: Option<Range>,
    pub text: Option<String>,
}

/// A change by its values.
#[verifier::ext_equal]
pub struct ChangeView {
    pub kind: EventKind,
    pub range: Option<Range>,
    pub text: Option<Seq<char>>,
}

/// An optional change by its values.
pub open spec fn change_view(c: Option<Change>) -> Option<ChangeView> {
    match c {
        Some(c) => Some(ChangeView { kind: c.kind, range: c.range, text: opt_view(c.text) }),
        None => None,
    }
}

/// A change of a kind, with nothing more to say of it.
pub open spec fn plain_change(kind: EventKind) -> Option<ChangeView> {
    Some(ChangeView { kind, range: None, text: None })
}

/// The selected stretch of a pane, lower end first.
pub open spec fn selected(e: EditorView) -> Range {
    let r = e.front().selection.primary();
    Range { anchor: r.lo(), head: r.hi() }
}

/// What a command will be recorded as, seen from the state before it. Movements, searches and
/// scrolling are not recorded: where they lead is seen in the snapshot.
pub open spec fn change_for(e: EditorView, c: Command) -> Option<ChangeView> {
    match c {
        Command::Insert { text } => Some(
            ChangeView { kind: EventKind::Insert, range: None, text: Some(text@) },
        ),
        Command::OpenBelow | Command::OpenAbove => Some(
            ChangeView { kind: EventKind::Insert, range: None, text: Some("\n"@) },
        ),
        Command::DeleteBackward | Command::DeleteForward | Command::DeleteWordBackward
        | Command::DeleteWordForward | Command::DeleteRange | Command::KillToLineStart
        | Command::KillToLineEnd => Some(
            ChangeView { kind: EventKind::Delete, range: Some(selected(e)), text: None },
        ),
        Command::Replace { text } => Some(
            ChangeView {
                kind: EventKind::ReplaceRange,
                range: Some(selected(e)),
                text: Some(text@),
            },
        ),
        Command::SurroundAdd { .. } | Command::SurroundDelete { .. }
        | Command::SurroundReplace { .. } => Some(
            ChangeView { kind: EventKind::ReplaceRange, range: Some(selected(e)), text: None },
        ),
        Command::Change => if e.front().selection.primary().anchor
            == e.front().selection.primary().head {
            plain_change(EventKind::SetMode)
        } else {
            Some(ChangeView { kind: EventKind::Delete, range: Some(selected(e)), text: None })
        },
        Command::InsertAtLineEnd | Command::InsertAtLineStart | Command::Append => if e.mode
            != Mode::Insert {
            plain_change(EventKind::SetMode)
        } else {
            None
        },
        Command::Undo => if e.current().can_undo {
            plain_change(EventKind::Undo)
        } else {
            None
        },
        Command::Redo => if e.current().can_redo {
            plain_change(EventKind::Redo)
        } else {
            None
        },
        Command::Close => plain_change(EventKind::Close),
        Command::SetMode { mode } => if mode != e.mode {
            plain_change(EventKind::SetMode)
        } else {
            None
        },
        _ => None,
    }
}

/// Whether a change of a kind alters the text, and so is refused below a base.
pub open spec fn alters_text(kind: EventKind) -> bool {
    kind == EventKind::Insert || kind == EventKind::Delete || kind == EventKind::ReplaceRange
        || kind == EventKind::Undo || kind == EventKind::Redo
}

/// Whether a command is refused because the document lies below a base.
pub open spec fn base_refuses(d: Daemon, e: EditorView, c: Command) -> bool {
    change_for(e, c) matches Some(ch) && alters_text(ch.kind) && (e.current().path matches Some(p)
        && in_base(d.base_roots@, p))
}

/// Whether a message is the refusal to write to a path below a base.
pub open spec fn is_refusal(d: Daemon, path: Seq<char>, m: Seq<char>) -> bool {
    exists|i: int| #[trigger]
        first_root(d.base_roots@, path, i) && m == read_only_notice(
            d.base_roots@[i].1.commit@,
            path,
        )
}

fn kind_only(kind: EventKind) -> (r: Option<Change>)
    ensures
        change_view(r) == plain_change(kind),
{
    Some(Change { kind, range: None, text: None })
}

impl Daemon {
    /// What a command will be recorded as, if it makes a change.
    pub fn classify(&self, c: &Command) -> (r: Option<Change>)
        requires
            self.wf(),
        ensures
            change_view(r) == change_for(self.editor@, *c),
    {
        proof {
            front_ok(self.editor@);
        }
        let p = self.editor.selection().primary();
        let stretch = Range { anchor: p.start(), head: p.end() };
        match c {
            Command::Insert { text } => Some(
                Change { kind: EventKind::Insert, range: None, text: Some(text.clone()) },
            ),
            Command::OpenBelow | Command::OpenAbove => Some(
                Change { kind: EventKind::Insert, range: None, text: Some("\n".to_owned()) },
            ),
            Command::DeleteBackward | Command::DeleteForward | Command::DeleteWordBackward
            | Command::DeleteWordForward | Command::DeleteRange | Command::KillToLineStart
            | Command::KillToLineEnd => Some(
                Change { kind: EventKind::Delete, range: Some(stretch), text: None },
            ),
            Command::Replace { text } => Some(
                Change {
                    kind: EventKind::ReplaceRange,
                    range: Some(stretch),
                    text: Some(text.clone()),
                },
            ),
            Command::SurroundAdd { .. } | Command::SurroundDelete { .. }
            | Command::SurroundReplace { .. } => Some(
                Change { kind: EventKind::ReplaceRange, range: Some(stretch), text: None },
            ),
            Command::Change => {
                if p.is_cursor() {
                    kind_only(EventKind::SetMode)
                } else {
                    Some(Change { kind: EventKind::Delete, range: Some(stretch), text: None })
                }
            },
            Command::InsertAtLineEnd | Command::InsertAtLineStart | Command::Append => {
                if self.editor.mode != Mode::Insert {
                    kind_only(EventKind::SetMode)
                } else {
                    None
                }
            },
            Command::Undo => {
                if self.editor.current().can_undo {
                    kind_only(EventKind::Undo)
                } else {
                    None
                }
            },
            Command::Redo => {
                if self.editor.current().can_redo {
                    kind_only(EventKind::Redo)
                } else {
                    None
                }
            },
            Command::Close => kind_only(EventKind::Close),
            Command::SetMode { mode } => {
                if *mode != self.editor.mode {
                    kind_only(EventKind::SetMode)
                } else {
                    None
                }
            },
            _ => None,
        }
    }

    /// The refusal to write to the focused document, if it lies below a base.
    pub fn focused_refusal(&self) -> (r: Option<String>)
        requires
            self.wf(),
        ensures
            r is Some <==> (self.editor@.current().path matches Some(p) && in_base(
                self.base_roots@,
                p,
            )),
            r matches Some(m) ==> is_refusal(*self, self.editor@.current().path->0, m@),
    {
        match &self.editor.current().path {
            Some(p) => self.base_reject(p.as_str()),
            None => None,
        }
    }
}

fn kind_alters_text(kind: EventKind) -> (r: bool)
    ensures
        r == alters_text(kind),
{
    match kind {
        EventKind::Insert | EventKind::Delete | EventKind::ReplaceRange | EventKind::Undo
        | EventKind::Redo => true,
        _ => false,
    }
}

/// A request line, as it was read.
pub enum Request {
    Command(Command),
    Edit(DocumentEdit),
    Invalid,
}

/// A command that waits for the text engine: what it will be recorded as, the path that a headless
/// client closes, and the engine call.
pub struct Pending {
    pub change: Option<Change>,
    pub closing: Option<String>,
    pub begin: Begin,
}

/// A document that is to be written to the disk.
pub struct SaveJob {
    pub path: Option<String>,
    pub text: String,
    pub doc: u64,
}

/// What has to be done next for a request.
pub enum Step {
    /// Answer with a snapshot and this status.
    Respond(Option<String>),
    /// Answer once the generation is beyond this one.
    Wait(u64),
    /// Look at the disk for this path, then open it.
    Open(String),
    /// Write this to the disk, then finish the save.
    Save(SaveJob),
    /// Resolve the root on the disk, then register it.
    Register,
    /// Resolve the root on the disk, then take it off the register.
    Unregister,
    /// Ask the text engine, then finish the command.
    Engine(Pending),
    /// Ask the text engine about the edit, then finish it.
    Edit,
}

/// Whether every request can be counted and recorded.
pub open spec fn request_room(d: Daemon) -> bool {
    &&& d.log@.room(4)
    &&& d.metrics.wait_total < u64::MAX
    &&& d.metrics.save_total < u64::MAX
    &&& d.metrics.get_state_total < u64::MAX
    &&& d.metrics.edit_room()
}

/// Whether a request is answered at once with a refusal, and which it is.
pub open spec fn refused(d: Daemon, e: EditorView, q: Request, source: EventSource, m: Seq<char>) -> bool {
    match q {
        Request::Command(c) => if source == EventSource::Headless && !open_to_headless(c) {
            m == headless_notice()
        } else if c is Save {
            e.current().path matches Some(p) && in_base(d.base_roots@, p) && is_refusal(d, p, m)
        } else {
            !goes_elsewhere(c) && base_refuses(d, e, c) && is_refusal(d, e.current().path->0, m)
        },
        Request::Edit(_) => false,
        Request::Invalid => m == "invalid command"@,
    }
}

/// Whether a command has steps of its own and is not handed to the text engine.
pub open spec fn goes_elsewhere(c: Command) -> bool {
    match c {
        Command::WaitFor { .. } | Command::Open { .. } | Command::Save
        | Command::RegisterBaseRoot { .. } | Command::UnregisterBaseRoot { .. }
        | Command::AddReviewComment { .. } | Command::ClearReviewComments => true,
        _ => false,
    }
}

/// Whether a request is refused at once.
pub open spec fn is_refused(d: Daemon, e: EditorView, q: Request, source: EventSource) -> bool {
    match q {
        Request::Command(c) => if source == EventSource::Headless && !open_to_headless(c) {
            true
        } else if c is Save {
            e.current().path matches Some(p) && in_base(d.base_roots@, p)
        } else {
            !goes_elsewhere(c) && base_refuses(d, e, c)
        },
        Request::Edit(_) => false,
        Request::Invalid => true,
    }
}

impl Daemon {
    /// The first step of a request: the client's pane gets the focus, what is not allowed is
    /// refused, and the next step is named. A refused request changes nothing but the focus.
    pub fn begin_request(&mut self, q: &Request, conn_id: u64, source: EventSource) -> (r: Step)
        requires
            old(self).wf(),
            request_room(*old(self)),
        ensures
            final(self).wf(),
            ({
                let view = view_of(*old(self), conn_id);
                let e = old(self).editor@.focus(view.view_id);
                let quiet = *final(self) == (Daemon {
                    editor: final(self).editor,
                    viewport_height: view.viewport,
                    ..*old(self)
                }) && final(self).editor@ == e;
                &&& is_refused(*old(self), e, *q, source) ==> quiet && (r matches Step::Respond(
                    Some(m),
                ) && refused(*old(self), e, *q, source, m@))
                &&& !is_refused(*old(self), e, *q, source) ==> match *q {
                    Request::Edit(_) => quiet && r is Edit,
                    Request::Invalid => false,
                    Request::Command(c) => match c {
                        Command::WaitFor { generation } => {
                            &&& r == Step::Wait(generation)
                            &&& *final(self) == (Daemon {
                                editor: final(self).editor,
                                viewport_height: view.viewport,
                                metrics: final(self).metrics,
                                ..*old(self)
                            })
                            &&& final(self).editor@ == e
                            &&& final(self).metrics == (ServerMetrics {
                                wait_total: (old(self).metrics.wait_total + 1) as u64,
                                ..old(self).metrics
                            })
                        },
                        Command::Open { path } => quiet && (r matches Step::Open(p) && p@ == path@),
                        Command::RegisterBaseRoot { .. } => quiet && r is Register,
                        Command::UnregisterBaseRoot { .. } => quiet && r is Unregister,
                        Command::Save => {
                            &&& *final(self) == (Daemon {
                                editor: final(self).editor,
                                viewport_height: view.viewport,
                                metrics: final(self).metrics,
                                activities: final(self).activities,
                                log: final(self).log,
                                ..*old(self)
                            })
                            &&& final(self).editor@ == e
                            &&& final(self).metrics == (ServerMetrics {
                                save_total: (old(self).metrics.save_total + 1) as u64,
                                ..old(self).metrics
                            })
                            &&& r matches Step::Save(job) && {
                                &&& opt_view(job.path) == e.current().path
                                &&& job.text@ == e.current().text
                                &&& job.doc == e.front().doc
                            }
                            &&& match e.current().path {
                                Some(p) => {
                                    &&& work_listed(
                                        old(self).activities@,
                                        final(self).activities@,
                                        p,
                                        ActivityKind::Save,
                                        "保存中"@,
                                    )
                                    &&& final(self).log@ == listed_log(
                                        old(self).log@,
                                        old(self).activities@,
                                        p,
                                        ActivityKind::Save,
                                    )
                                },
                                None => {
                                    &&& final(self).activities == old(self).activities
                                    &&& final(self).log == old(self).log
                                },
                            }
                        },
                        Command::AddReviewComment { path, side, line, snippet, body, base } => {
                            let c = ReviewComment {
                                path,
                                side,
                                line,
                                snippet,
                                body,
                                base,
                                generation: (old(self).log@.generation + 1) as u64,
                            };
                            &&& r == Step::Respond(None)
                            &&& *final(self) == (Daemon {
                                editor: final(self).editor,
                                viewport_height: view.viewport,
                                review_comments: final(self).review_comments,
                                log: final(self).log,
                                ..*old(self)
                            })
                            &&& final(self).editor@ == e
                            &&& final(self).review_comments@ == with_comment(
                                old(self).review_comments@,
                                c,
                            )
                            &&& final(self).log@ == old(self).log@.event(
                                source,
                                EventKind::ReviewComment,
                                None,
                                None,
                            )
                        },
                        Command::ClearReviewComments => {
                            &&& r == Step::Respond(None)
                            &&& *final(self) == (Daemon {
                                editor: final(self).editor,
                                viewport_height: view.viewport,
                                review_comments: final(self).review_comments,
                                log: final(self).log,
                                ..*old(self)
                            })
                            &&& final(self).editor@ == e
                            &&& final(self).review_comments@.len() == 0
                            &&& final(self).log@ == if old(self).review_comments@.len() == 0 {
                                old(self).log@
                            } else {
                                old(self).log@.event(source, EventKind::ReviewComment, None, None)
                            }
                        },
                        _ => {
                            &&& r matches Step::Engine(p) && {
                                &&& change_view(p.change) == change_for(e, c)
                                &&& opt_view(p.closing) == if source == EventSource::Headless
                                    && c is Close {
                                    e.current().path
                                } else {
                                    None
                                }
                                &&& p.begin.rejected == too_large(e, c)
                                &&& p.begin.preempted == closes_session(*old(self), c, conn_id)
                                &&& p.begin.own == (p.begin.preempted && !foreign_session(
                                    *old(self),
                                    conn_id,
                                ))
                                &&& is_call(
                                    p.begin.call,
                                    final(self).editor@,
                                    c,
                                    final(self).viewport_height,
                                    final(self).last_search,
                                )
                                &&& final(self).insert_owner == if p.begin.preempted {
                                    None
                                } else {
                                    old(self).insert_owner
                                }
                            }
                            &&& final(self).editor@ == started(*old(self), c, conn_id)
                            &&& *final(self) == (Daemon {
                                editor: final(self).editor,
                                viewport_height: view.viewport,
                                insert_owner: final(self).insert_owner,
                                ..*old(self)
                            })
                        },
                    },
                }
            }),
    {
        self.focus_for(conn_id);
        let ghost e = self.editor@;
        proof {
            front_ok(e);
        }
        let c = match q {
            Request::Command(c) => c,
            Request::Edit(_) => {
                return Step::Edit;
            },
            Request::Invalid => {
                return Step::Respond(Some("invalid command".to_owned()));
            },
        };
        if source == EventSource::Headless && !headless_may(c) {
            let m = "headless clients can only use GetState, Save, WaitFor, DocumentEdit, Open, Close, ListReviewComments, ClearReviewComments, RegisterBaseRoot, and UnregisterBaseRoot".to_owned();
            return Step::Respond(Some(m));
        }
        match c {
            Command::WaitFor { generation } => {
                self.metrics.wait_total = self.metrics.wait_total + 1;
                Step::Wait(*generation)
            },
            Command::Open { path } => Step::Open(path.clone()),
            Command::RegisterBaseRoot { .. } => Step::Register,
            Command::UnregisterBaseRoot { .. } => Step::Unregister,
            Command::Save => {
                match self.focused_refusal() {
                    Some(m) => {
                        return Step::Respond(Some(m));
                    },
                    None => {},
                }
                self.metrics.save_total = self.metrics.save_total + 1;
                let job = SaveJob {
                    path: self.editor.focused_path(),
                    text: self.editor.current().text.clone(),
                    doc: self.editor.pane(self.editor.focused).doc,
                };
                match &job.path {
                    Some(p) => {
                        self.add_activity(p.as_str(), ActivityKind::Save, "保存中".to_owned());
                    },
                    None => {},
                }
                Step::Save(job)
            },
            Command::AddReviewComment { path, side, line, snippet, body, base } => {
                let comment = ReviewComment {
                    path: path.clone(),
                    side: *side,
                    line: *line,
                    snippet: snippet.clone(),
                    body: body.clone(),
                    base: base.clone(),
                    generation: self.log.generation + 1,
                };
                self.add_review_comment(comment, source);
                Step::Respond(None)
            },
            Command::ClearReviewComments => {
                self.clear_review_comments(source);
                Step::Respond(None)
            },
            _ => {
                let change = self.classify(c);
                let mut writes = false;
                match &change {
                    Some(ch) => {
                        writes = kind_alters_text(ch.kind);
                    },
                    None => {},
                }
                if writes {
                    match self.focused_refusal() {
                        Some(m) => {
                            return Step::Respond(Some(m));
                        },
                        None => {},
                    }
                }
                let closing = if source == EventSource::Headless && is_close(c) {
                    self.editor.focused_path()
                } else {
                    None
                };
                let begin = self.begin_command(c, conn_id);
                proof {
                    again_is_same(*old(self), conn_id);
                }
                Step::Engine(Pending { change, closing, begin })
            },
        }
    }
}

fn is_close(c: &Command) -> (r: bool)
    ensures
        r == (c is Close),
{
    match c {
        Command::Close => true,
        _ => false,
    }
}

/// Turning to a client's pane twice is the same as once.
proof fn again_is_same(d: Daemon, conn_id: u64)
    ensures
        ({
            let v = view_of(d, conn_id);
            let d2 = Daemon { viewport_height: v.viewport, ..d };
            view_of(d2, conn_id) == v
        }),
        d.editor@.focus(view_of(d, conn_id).view_id).focus(view_of(d, conn_id).view_id)
            == d.editor@.focus(view_of(d, conn_id).view_id),
{
}

} // verus!
