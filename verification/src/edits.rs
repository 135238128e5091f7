//! Edits by position: bound to the text that the client has read, refused with a reason if it is
//! not the text that is there.
use vstd::prelude::*;
use vstd::utf8::*;

use crate::base::{first_root, in_base, read_only_notice};
use crate::clients::{foreign_session, panes_ok_same_ids, session_closed};
use crate::commands::placed_keeps;
use crate::daemon::{actor_name, Daemon};
use crate::editor::{front_ok, opt_view, placed_ok, with_doc_ok, EditorView};
use crate::log::LogView;
use crate::strings::{debug_quoted, decimal, decimal_digits, quoted, same, text_of, chars_of};
use crate::text::{checksum, fnv1a64, mismatch_snippet, snippet, splice, spliced};
use crate::types::{ActivityRecord, DocumentEdit, EventKind, EventSource, ServerMetrics};

verus! {

impl ServerMetrics {
    /// Whether every counter of edits can count one more.
    pub open spec fn edit_room(self) -> bool {
        &&& self.edits_total < u64::MAX
        &&& self.edits_rejected_checksum < u64::MAX
        &&& self.edits_rejected_expected_text < u64::MAX
        &&& self.edits_expected_text_used < u64::MAX
        &&& self.edits_noop < u64::MAX
    }
}

/// How the engine finds an edit: whether it does nothing, and what it leaves the document's flags
/// as.
#[derive(Clone, Copy, Debug, PartialEq, Eq, Structural)]
pub struct EditFacts {
    pub noop: bool,
    pub dirty: bool,
    pub can_undo: bool,
    pub can_redo: bool,
}

/// What became of an edit. `preempted` says whether the undo history has to close a group first.
pub struct EditOutcome {
    pub applied: bool,
    pub status: Option<String>,
    pub preempted: bool,
}

/// What is to become of an edit: refused below a base, refused because the text has changed since
/// it was read, refused because the replaced text is not the expected one, without effect, or
/// accepted.
#[derive(Clone, Copy, Debug, PartialEq, Eq, Structural)]
pub enum Verdict {
    ReadOnly,
    Stale,
    Unexpected,
    Noop,
    Accepted,
}

/// The kind of an edit, for the record.
pub open spec fn kind_of(edit: DocumentEdit) -> EventKind {
    if edit.start == edit.end {
        EventKind::Insert
    } else if edit.text@.len() == 0 {
        EventKind::Delete
    } else {
        EventKind::ReplaceRange
    }
}

/// The kind of an edit, for the record.
pub fn edit_kind(edit: &DocumentEdit) -> (r: EventKind)
    ensures
        r == kind_of(*edit),
{
    if edit.start == edit.end {
        EventKind::Insert
    } else if edit.text.as_str().is_empty() {
        EventKind::Delete
    } else {
        EventKind::ReplaceRange
    }
}

/// The lower end of the stretch that an edit replaces, held within a text of `len` characters.
pub open spec fn edit_lo(edit: DocumentEdit, len: int) -> int {
    let a = if edit.start <= edit.end {
        edit.start as int
    } else {
        edit.end as int
    };
    if a <= len {
        a
    } else {
        len
    }
}

/// The upper end of the stretch that an edit replaces, held within a text of `len` characters.
pub open spec fn edit_hi(edit: DocumentEdit, len: int) -> int {
    let b = if edit.start <= edit.end {
        edit.end as int
    } else {
        edit.start as int
    };
    if b <= len {
        b
    } else {
        len
    }
}

/// The text that an edit replaces.
pub open spec fn replaced(text: Seq<char>, edit: DocumentEdit) -> Seq<char> {
    text.subrange(edit_lo(edit, text.len() as int), edit_hi(edit, text.len() as int))
}

/// The text after an edit.
pub open spec fn edit_text(text: Seq<char>, edit: DocumentEdit) -> Seq<char> {
    spliced(
        text,
        edit_lo(edit, text.len() as int),
        edit_hi(edit, text.len() as int),
        edit.text@,
    )
}

/// Whether what the engine says of an edit can be: one that it takes for a no-op leaves the text as it
/// is, and putting nothing in where nothing is taken out is a no-op.
pub open spec fn weighed(text: Seq<char>, edit: DocumentEdit, noop: bool) -> bool {
    &&& noop ==> edit_text(text, edit) == text
    &&& replaced(text, edit).len() == 0 && edit.text@.len() == 0 ==> noop
}

/// An edit leaves the text as it is exactly if it puts in what it takes out.
proof fn same_text_again(text: Seq<char>, edit: DocumentEdit)
    ensures
        edit_text(text, edit) == text <==> replaced(text, edit) == edit.text@,
{
    let (lo, hi) = (edit_lo(edit, text.len() as int), edit_hi(edit, text.len() as int));
    let out = replaced(text, edit);
    let now = edit_text(text, edit);
    assert(text.take(lo) + out + text.skip(hi) =~= text);
    if now == text {
        assert(now.len() == lo + edit.text@.len() + (text.len() - hi));
        assert forall|i: int| 0 <= i < out.len() implies out[i] == edit.text@[i] by {
            assert(now[lo + i] == edit.text@[i]);
        }
        assert(out =~= edit.text@);
    }
}

/// What is to become of an edit.
pub open spec fn verdict(d: Daemon, edit: DocumentEdit, noop: bool) -> Verdict {
    let doc = d.editor@.current();
    if doc.path matches Some(p) && in_base(d.base_roots@, p) {
        Verdict::ReadOnly
    } else if checksum(doc.text) != edit.checksum {
        Verdict::Stale
    } else if edit.expected_text matches Some(x) && x@ != replaced(doc.text, edit) {
        Verdict::Unexpected
    } else if noop {
        Verdict::Noop
    } else {
        Verdict::Accepted
    }
}

/// A stretch of a text, for a message.
pub open spec fn bracket(lo: int, hi: int) -> Seq<char> {
    "["@ + decimal_digits(lo as nat) + ", "@ + decimal_digits(hi as nat) + ")"@
}

/// The refusal of an edit whose replaced text is not the expected one.
pub open spec fn mismatch_status(expected: Seq<char>, actual: Seq<char>, lo: int, hi: int) -> Seq<
    char,
> {
    "expected text mismatch: expected "@ + debug_quoted(snippet(expected)) + ", found "@
        + debug_quoted(snippet(actual)) + " at "@ + bracket(lo, hi)
}

/// What the record says of such an edit.
pub open spec fn mismatch_detail(expected: Seq<char>, actual: Seq<char>, lo: int, hi: int) -> Seq<
    char,
> {
    "expected text mismatch at "@ + bracket(lo, hi) + ": expected "@ + debug_quoted(
        snippet(expected),
    ) + ", found "@ + debug_quoted(snippet(actual))
}

/// What the record says of an edit that was made.
pub open spec fn applied_detail(path: Option<Seq<char>>, edit: DocumentEdit) -> Seq<char> {
    (match path {
        Some(p) => p,
        None => "(scratch)"@,
    }) + " ["@ + decimal_digits(edit.start as nat) + ".."@ + decimal_digits(edit.end as nat) + "]"@
}

/// The state after an edit: the document holds the new text, and what was selected in the focused
/// pane still is, held within the new text.
pub open spec fn spliced_state(e: EditorView, edit: DocumentEdit, f: EditFacts) -> EditorView {
    let text = edit_text(e.current().text, edit);
    e.with_doc(e.front().doc, text, f.dirty, f.can_undo, f.can_redo).select(
        e.front().selection.clamp(text.len() as usize),
    )
}

/// Whether `new` is `old` with one more attempt in its record.
pub open spec fn one_attempt(
    old_log: LogView,
    new_log: LogView,
    actor: Seq<char>,
    kind: EventKind,
    ok: bool,
    detail: Seq<char>,
) -> bool {
    &&& new_log.activity.len() > 0
    &&& new_log == old_log.attempt(new_log.activity.last())
    &&& new_log.activity.last().actor@ == actor
    &&& new_log.activity.last().kind == kind
    &&& new_log.activity.last().ok == ok
    &&& new_log.activity.last().detail@ == detail
}

/// The counters after an edit.
pub open spec fn counted(m: ServerMetrics, edit: DocumentEdit, v: Verdict) -> ServerMetrics {
    let m1 = ServerMetrics { edits_total: (m.edits_total + 1) as u64, ..m };
    let m2 = if edit.expected_text is Some && v != Verdict::ReadOnly && v != Verdict::Stale {
        ServerMetrics {
            edits_expected_text_used: (m.edits_expected_text_used + 1) as u64,
            ..m1
        }
    } else {
        m1
    };
    match v {
        Verdict::Stale => ServerMetrics {
            edits_rejected_checksum: (m.edits_rejected_checksum + 1) as u64,
            ..m2
        },
        Verdict::Unexpected => ServerMetrics {
            edits_rejected_expected_text: (m.edits_rejected_expected_text + 1) as u64,
            ..m2
        },
        Verdict::Noop => ServerMetrics { edits_noop: (m.edits_noop + 1) as u64, ..m2 },
        _ => m2,
    }
}

/// What the record says of an edit.
pub open spec fn edit_detail(d: Daemon, edit: DocumentEdit, v: Verdict, status: Option<Seq<char>>) -> Seq<
    char,
> {
    let text = d.editor@.current().text;
    let len = text.len() as int;
    match v {
        Verdict::ReadOnly => status->0,
        Verdict::Stale => "document changed since read"@,
        Verdict::Unexpected => mismatch_detail(
            edit.expected_text->0@,
            replaced(text, edit),
            edit_lo(edit, len),
            edit_hi(edit, len),
        ),
        Verdict::Noop => "no-op (unchanged)"@,
        Verdict::Accepted => applied_detail(d.editor@.current().path, edit),
    }
}

/// What a client is told of its edit.
pub open spec fn edit_status_ok(d: Daemon, edit: DocumentEdit, v: Verdict, status: Option<String>) -> bool {
    let text = d.editor@.current().text;
    let len = text.len() as int;
    match v {
        Verdict::ReadOnly => status matches Some(m) && exists|i: int| #[trigger]
            first_root(d.base_roots@, d.editor@.current().path->0, i) && m@ == read_only_notice(
                d.base_roots@[i].1.commit@,
                d.editor@.current().path->0,
            ),
        Verdict::Stale => status matches Some(m) && m@ == "document changed since read"@,
        Verdict::Unexpected => status matches Some(m) && m@ == mismatch_status(
            edit.expected_text->0@,
            replaced(text, edit),
            edit_lo(edit, len),
            edit_hi(edit, len),
        ),
        Verdict::Noop | Verdict::Accepted => status is None,
    }
}

fn bracketed(lo: usize, hi: usize) -> (r: String)
    ensures
        r@ == bracket(lo as int, hi as int),
{
    let mut m = "[".to_owned();
    let a = decimal(lo as u64);
    m.append(a.as_str());
    m.append(", ");
    let b = decimal(hi as u64);
    m.append(b.as_str());
    m.append(")");
    m
}

fn mismatch_messages(expected: &str, actual: &str, lo: usize, hi: usize) -> (r: (String, String))
    ensures
        r.0@ == mismatch_status(expected@, actual@, lo as int, hi as int),
        r.1@ == mismatch_detail(expected@, actual@, lo as int, hi as int),
{
    let x = quoted(mismatch_snippet(expected).as_str());
    let y = quoted(mismatch_snippet(actual).as_str());
    let at = bracketed(lo, hi);
    let mut status = "expected text mismatch: expected ".to_owned();
    status.append(x.as_str());
    status.append(", found ");
    status.append(y.as_str());
    status.append(" at ");
    status.append(at.as_str());
    let mut detail = "expected text mismatch at ".to_owned();
    detail.append(at.as_str());
    detail.append(": expected ");
    detail.append(x.as_str());
    detail.append(", found ");
    detail.append(y.as_str());
    (status, detail)
}

/// An edit keeps the state consistent, and what is selected lies within the new text.
pub proof fn spliced_keeps(e: EditorView, edit: DocumentEdit, f: EditFacts)
    requires
        e.ok(),
        edit_text(e.current().text, edit).len() <= usize::MAX,
    ensures
        ({
            let n = spliced_state(e, edit, f);
            &&& n.ok()
            &&& n.panes.len() == e.panes.len()
            &&& forall|i: int|
                0 <= i < e.panes.len() ==> (#[trigger] e.panes[i]).id == n.panes[i].id
            &&& n.mode == e.mode
            &&& n.group_open == e.group_open
            &&& n.focused == e.focused
            &&& n.current().text == edit_text(e.current().text, edit)
            &&& n.current().path == e.current().path
            &&& n.front().selection.within(n.current().text.len() as int)
        }),
{
    front_ok(e);
    let text = edit_text(e.current().text, edit);
    with_doc_ok(e, e.front().doc, text, f.dirty, f.can_undo, f.can_redo);
    let m = e.with_doc(e.front().doc, text, f.dirty, f.can_undo, f.can_redo);
    let s = e.front().selection.clamp(text.len() as usize);
    assert(s.ok());
    placed_keeps(m, m.focused, s, m.front().first_line);
    placed_ok(m, m.focused, s, m.front().first_line);
}

/// An edit of text within the document replaces exactly the stretch that it names, and leaves what
/// is before and behind it.
pub proof fn edit_replaces_its_stretch(text: Seq<char>, edit: DocumentEdit)
    requires
        edit.start <= edit.end <= text.len(),
    ensures
        edit_text(text, edit).take(edit.start as int) == text.take(edit.start as int),
        edit_text(text, edit).skip(edit.start + edit.text@.len()) == text.skip(edit.end as int),
        edit_text(text, edit).subrange(edit.start as int, edit.start + edit.text@.len())
            == edit.text@,
{
    let n = edit_text(text, edit);
    assert(n.take(edit.start as int) =~= text.take(edit.start as int));
    assert(n.skip(edit.start + edit.text@.len()) =~= text.skip(edit.end as int));
    assert(n.subrange(edit.start as int, edit.start + edit.text@.len()) =~= edit.text@);
}

/// A selection that lies within the new text is not changed by an edit.
pub proof fn edit_keeps_selection(e: EditorView, edit: DocumentEdit, f: EditFacts)
    requires
        e.ok(),
        edit_text(e.current().text, edit).len() <= usize::MAX,
        e.front().selection.within(edit_text(e.current().text, edit).len() as int),
    ensures
        spliced_state(e, edit, f).front().selection == e.front().selection,
{
    front_ok(e);
    let text = edit_text(e.current().text, edit);
    with_doc_ok(e, e.front().doc, text, f.dirty, f.can_undo, f.can_redo);
    let m = e.with_doc(e.front().doc, text, f.dirty, f.can_undo, f.can_redo);
    let s = e.front().selection.clamp(text.len() as usize);
    placed_ok(m, m.focused, s, m.front().first_line);
    assert(s.ranges =~= e.front().selection.ranges);
}

impl Daemon {
    /// Records what a headless client tried and how it went.
    pub fn record_attempt(&mut self, conn_id: u64, kind: EventKind, ok: bool, detail: String)
        requires
            old(self).wf(),
            old(self).log@.room(1),
        ensures
            final(self).wf(),
            *final(self) == (Daemon { log: final(self).log, ..*old(self) }),
            one_attempt(
                old(self).log@,
                final(self).log@,
                actor_name(old(self).conn_names@, conn_id),
                kind,
                ok,
                detail@,
            ),
    {
        let actor = self.actor_for(conn_id);
        let record = ActivityRecord { actor, kind, ok, detail };
        proof {
            crate::log::attempt_laws(self.log@, record);
        }
        self.log.record_activity(record);
    }

    /// Records an attempt if it came from a headless client.
    fn note(&mut self, source: EventSource, conn_id: u64, kind: EventKind, ok: bool, detail: String)
        requires
            old(self).wf(),
            old(self).log@.room(1),
        ensures
            final(self).wf(),
            *final(self) == (Daemon { log: final(self).log, ..*old(self) }),
            source == EventSource::Headless ==> one_attempt(
                old(self).log@,
                final(self).log@,
                actor_name(old(self).conn_names@, conn_id),
                kind,
                ok,
                detail@,
            ),
            source != EventSource::Headless ==> final(self).log == old(self).log,
    {
        if source == EventSource::Headless {
            self.record_attempt(conn_id, kind, ok, detail);
        }
    }

    /// Whether what the engine says of an edit of the focused pane's document can be.
    pub fn is_weighed(&self, edit: &DocumentEdit, noop: bool) -> (r: bool)
        requires
            self.wf(),
        ensures
            r == weighed(self.editor@.current().text, *edit, noop),
    {
        let cs = chars_of(self.editor.current().text.as_str());
        let len: usize = cs.len();
        let (a, b): (usize, usize) = if edit.start <= edit.end {
            (edit.start, edit.end)
        } else {
            (edit.end, edit.start)
        };
        let lo: usize = if a <= len {
            a
        } else {
            len
        };
        let hi: usize = if b <= len {
            b
        } else {
            len
        };
        proof {
            same_text_again(cs@, *edit);
        }
        if noop {
            same(text_of(&cs, lo, hi).as_str(), edit.text.as_str())
        } else {
            lo < hi || !edit.text.as_str().is_empty()
        }
    }

    /// Carries out an edit by position in the focused pane's document, or refuses it.
    ///
    /// A refused edit changes neither the documents nor the panes nor the mode, and says why; nor
    /// does one without effect, which would have left the text as it is. An accepted one closes a
    /// foreign insert session and replaces its stretch of the text.
    pub fn apply_edit(
        &mut self,
        edit: &DocumentEdit,
        conn_id: u64,
        source: EventSource,
        facts: EditFacts,
    ) -> (r: EditOutcome)
        requires
            old(self).wf(),
            old(self).log@.room(1),
            old(self).metrics.edit_room(),
            edit_text(old(self).editor@.current().text, *edit).len() <= usize::MAX,
            weighed(old(self).editor@.current().text, *edit, facts.noop),
        ensures
            final(self).wf(),
            *final(self) == (Daemon {
                editor: final(self).editor,
                insert_owner: final(self).insert_owner,
                log: final(self).log,
                metrics: final(self).metrics,
                ..*old(self)
            }),
            ({
                let v = verdict(*old(self), *edit, facts.noop);
                let e = old(self).editor@;
                let e1 = if foreign_session(*old(self), conn_id) {
                    session_closed(e, crate::types::Mode::Normal)
                } else {
                    e
                };
                &&& r.applied == (v == Verdict::Accepted)
                &&& edit_status_ok(*old(self), *edit, v, r.status)
                &&& final(self).metrics == counted(old(self).metrics, *edit, v)
                &&& if v == Verdict::Accepted {
                    &&& r.preempted == foreign_session(*old(self), conn_id)
                    &&& final(self).editor@ == spliced_state(e1, *edit, facts)
                    &&& final(self).insert_owner == if r.preempted {
                        None
                    } else {
                        old(self).insert_owner
                    }
                } else {
                    &&& !r.preempted
                    &&& final(self).editor == old(self).editor
                    &&& final(self).insert_owner == old(self).insert_owner
                }
                &&& source == EventSource::Headless ==> one_attempt(
                    old(self).log@,
                    final(self).log@,
                    actor_name(old(self).conn_names@, conn_id),
                    kind_of(*edit),
                    v == Verdict::Accepted,
                    edit_detail(*old(self), *edit, v, opt_view(r.status)),
                )
                &&& source != EventSource::Headless ==> final(self).log == old(self).log
            }),
    {
        let judged = self.judge_edit(edit, facts.noop);
        let v = judged.verdict;
        self.count_edit(edit, v);
        let kind = edit_kind(edit);
        let accepted = v == Verdict::Accepted;
        let mut preempted = false;
        if accepted {
            preempted = self.preempt(conn_id);
        }
        self.note(source, conn_id, kind, accepted, judged.detail);
        if accepted {
            self.splice_in(edit, judged.lo, judged.hi, facts);
        }
        EditOutcome { applied: accepted, status: judged.status, preempted }
    }

    /// Decides what is to become of an edit, and what the client and the record are told.
    fn judge_edit(&self, edit: &DocumentEdit, noop: bool) -> (r: Judged)
        requires
            self.wf(),
        ensures
            r.verdict == verdict(*self, *edit, noop),
            edit_status_ok(*self, *edit, r.verdict, r.status),
            r.detail@ == edit_detail(*self, *edit, r.verdict, opt_view(r.status)),
            r.lo == edit_lo(*edit, self.editor@.current().text.len() as int),
            r.hi == edit_hi(*edit, self.editor@.current().text.len() as int),
            r.lo <= r.hi <= self.editor@.current().text.len(),
    {
        let doc = self.editor.current();
        let cs = chars_of(doc.text.as_str());
        let len: usize = cs.len();
        let a: usize = if edit.start <= len {
            edit.start
        } else {
            len
        };
        let b: usize = if edit.end <= len {
            edit.end
        } else {
            len
        };
        let (lo, hi): (usize, usize) = if a <= b {
            (a, b)
        } else {
            (b, a)
        };
        let blocked = match &doc.path {
            Some(p) => self.base_reject(p.as_str()),
            None => None,
        };
        match blocked {
            Some(msg) => {
                return Judged {
                    verdict: Verdict::ReadOnly,
                    status: Some(msg.clone()),
                    detail: msg,
                    lo,
                    hi,
                };
            },
            None => {},
        }
        if fnv1a64(doc.text.as_str().as_bytes()) != edit.checksum {
            return Judged {
                verdict: Verdict::Stale,
                status: Some("document changed since read".to_owned()),
                detail: "document changed since read".to_owned(),
                lo,
                hi,
            };
        }
        match &edit.expected_text {
            Some(expected) => {
                let actual = text_of(&cs, lo, hi);
                assert(actual@ =~= replaced(doc.text@, *edit));
                if !same(actual.as_str(), expected.as_str()) {
                    let (status, detail) = mismatch_messages(
                        expected.as_str(),
                        actual.as_str(),
                        lo,
                        hi,
                    );
                    return Judged {
                        verdict: Verdict::Unexpected,
                        status: Some(status),
                        detail,
                        lo,
                        hi,
                    };
                }
            },
            None => {},
        }
        if noop {
            return Judged {
                verdict: Verdict::Noop,
                status: None,
                detail: "no-op (unchanged)".to_owned(),
                lo,
                hi,
            };
        }
        let mut detail = match self.editor.focused_path() {
            Some(p) => p,
            None => "(scratch)".to_owned(),
        };
        detail.append(" [");
        let start_text = decimal(edit.start as u64);
        detail.append(start_text.as_str());
        detail.append("..");
        let end_text = decimal(edit.end as u64);
        detail.append(end_text.as_str());
        detail.append("]");
        Judged { verdict: Verdict::Accepted, status: None, detail, lo, hi }
    }

    /// Counts an edit.
    fn count_edit(&mut self, edit: &DocumentEdit, v: Verdict)
        requires
            old(self).wf(),
            old(self).metrics.edit_room(),
        ensures
            final(self).wf(),
            *final(self) == (Daemon { metrics: final(self).metrics, ..*old(self) }),
            final(self).metrics == counted(old(self).metrics, *edit, v),
    {
        let mut m = self.metrics;
        m.edits_total = m.edits_total + 1;
        if edit.expected_text.is_some() && v != Verdict::ReadOnly && v != Verdict::Stale {
            m.edits_expected_text_used = m.edits_expected_text_used + 1;
        }
        match v {
            Verdict::Stale => {
                m.edits_rejected_checksum = m.edits_rejected_checksum + 1;
            },
            Verdict::Unexpected => {
                m.edits_rejected_expected_text = m.edits_rejected_expected_text + 1;
            },
            Verdict::Noop => {
                m.edits_noop = m.edits_noop + 1;
            },
            _ => {},
        }
        self.metrics = m;
    }

    /// Replaces a stretch of the focused pane's document.
    fn splice_in(&mut self, edit: &DocumentEdit, lo: usize, hi: usize, facts: EditFacts)
        requires
            old(self).wf(),
            lo == edit_lo(*edit, old(self).editor@.current().text.len() as int),
            hi == edit_hi(*edit, old(self).editor@.current().text.len() as int),
            edit_text(old(self).editor@.current().text, *edit).len() <= usize::MAX,
        ensures
            final(self).wf(),
            *final(self) == (Daemon { editor: final(self).editor, ..*old(self) }),
            final(self).editor@ == spliced_state(old(self).editor@, *edit, facts),
    {
        let ghost e1 = self.editor@;
        proof {
            front_ok(e1);
            spliced_keeps(e1, *edit, facts);
        }
        let new_text = splice(
            self.editor.current().text.as_str(),
            lo,
            hi,
            edit.text.as_str(),
        );
        let new_len: usize = new_text.as_str().unicode_len();
        let selection = self.editor.selection().clamped(new_len);
        let doc = self.editor.pane(self.editor.focused).doc;
        self.editor.set_doc(doc, new_text, facts.dirty, facts.can_undo, facts.can_redo);
        self.editor.set_selection(selection);
        assert(self.editor@ =~= spliced_state(e1, *edit, facts));
        proof {
            panes_ok_same_ids(
                e1,
                self.editor@,
                self.conn_views@,
                self.idle_view,
                self.next_pane,
            );
        }
    }
}

/// A decision on an edit, with the messages for it and the stretch that it would replace.
pub struct Judged {
    pub verdict: Verdict,
    pub status: Option<String>,
    pub detail: String,
    pub lo: usize,
    pub hi: usize,
}

} // verus!
