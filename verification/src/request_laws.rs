//! What becomes of edits and requests, what is recorded of them, and what clients see.
use vstd::prelude::*;

use crate::base::{first_root, in_base, read_only_notice};
use crate::clients::{
    entering, foreign_session, session_closed, view_of, without_view, GroupChange,
};
use crate::commands::{command_done, preempts, Applied, EngineReply};
use crate::daemon::{actor_name, Daemon};
use crate::editor::{
    doc_from_bounds, doc_from_same, front_ok, opt_view, pane_from_bounds, pane_from_same, placed_ok,
    with_doc_ok, EditorView,
};
use crate::connection::{headless_served, route_of, Route};
use crate::edits::{
    counted, edit_hi, edit_lo, edit_status_ok, edit_text, kind_of, replaced, spliced_keeps,
    spliced_state, verdict, EditFacts, Verdict,
};
use crate::finish::{edit_recorded, one_event, saved, saved_status, tried};
use crate::log::{attempt_laws, event_laws, LogView};
use crate::process::{
    alters_text, change_for, edits_text, goes_elsewhere, headless_notice, is_refused,
    open_to_headless, refused, Request,
};
use crate::snapshot::shows;
use crate::strings::{debug_quoted, decimal_digits};
use crate::table::{has_key, kept_laws, value_of};
use crate::text::{checksum, snippet, spliced};
use crate::types::{
    Command, DocumentEdit, EventKind, EventSource, HighlightRange, Mode, Range, ServerMetrics,
    StateSnapshot,
};

verus! {

/// What is put in place of a stretch of a text is there, and what was in front of the stretch and
/// behind it stays, each character of it.
pub proof fn splice_keeps_both_sides(s: Seq<char>, lo: int, hi: int, new: Seq<char>)
    requires
        0 <= lo <= hi <= s.len(),
    ensures
        spliced(s, lo, hi, new).len() == s.len() - (hi - lo) + new.len(),
        forall|i: int| 0 <= i < lo ==> #[trigger] spliced(s, lo, hi, new)[i] == s[i],
        forall|i: int| 0 <= i < new.len() ==> spliced(s, lo, hi, new)[lo + i] == #[trigger] new[i],
        forall|i: int|
            hi <= i < s.len() ==> spliced(s, lo, hi, new)[i - hi + lo + new.len()] == #[trigger] s[i],
{
}

/// An edit speaks of the characters between its two ends, in whichever order they are given; an end
/// behind the text is the end of the text.
pub proof fn edit_speaks_of_its_stretch(text: Seq<char>, edit: DocumentEdit, other: DocumentEdit)
    requires
        other.start == edit.end,
        other.end == edit.start,
        other.text@ == edit.text@,
    ensures
        edit.start <= edit.end <= text.len() ==> replaced(text, edit) == text.subrange(
            edit.start as int,
            edit.end as int,
        ) && edit_text(text, edit) == text.take(edit.start as int) + edit.text@ + text.skip(
            edit.end as int,
        ),
        edit.start <= text.len() < edit.end ==> replaced(text, edit) == text.skip(edit.start as int)
            && edit_text(text, edit) == text.take(edit.start as int) + edit.text@,
        text.len() < edit.start <= edit.end ==> replaced(text, edit).len() == 0 && edit_text(
            text,
            edit,
        ) == text + edit.text@,
        replaced(text, other) == replaced(text, edit),
        edit_text(text, other) == edit_text(text, edit),
{
    let n = text.len() as int;
    assert(edit_lo(other, n) == edit_lo(edit, n));
    assert(edit_hi(other, n) == edit_hi(edit, n));
    if edit.start <= text.len() < edit.end {
        assert(replaced(text, edit) =~= text.skip(edit.start as int));
        assert(edit_text(text, edit) =~= text.take(edit.start as int) + edit.text@);
    }
    if text.len() < edit.start <= edit.end {
        assert(edit_text(text, edit) =~= text + edit.text@);
    }
}

/// An edit is refused for the first reason that holds: the document lies below a base, it is not the
/// one that was read, or what is replaced is not what was expected. An edit that passes is made, unless
/// it does nothing.
pub proof fn edits_are_refused_for_the_first_reason(d: Daemon, edit: DocumentEdit, noop: bool)
    ensures
        ({
            let doc = d.editor@.current();
            let below = doc.path is Some && in_base(d.base_roots@, doc.path->0);
            let stale = checksum(doc.text) != edit.checksum;
            let other = edit.expected_text is Some && edit.expected_text->0@ != replaced(
                doc.text,
                edit,
            );
            let v = verdict(d, edit, noop);
            &&& v == Verdict::ReadOnly <==> below
            &&& v == Verdict::Stale <==> !below && stale
            &&& v == Verdict::Unexpected <==> !below && !stale && other
            &&& v == Verdict::Noop <==> !below && !stale && !other && noop
            &&& v == Verdict::Accepted <==> !below && !stale && !other && !noop
        }),
{
}

/// Every edit is counted once, refused ones by their reason too; an expected text counts as used if
/// the edit came as far as to hold it against the document. No other counter moves.
pub proof fn edits_are_counted_by_what_became_of_them(m: ServerMetrics, edit: DocumentEdit, v: Verdict)
    requires
        m.edit_room(),
    ensures
        ({
            let n = counted(m, edit, v);
            &&& n.edits_total == m.edits_total + 1
            &&& n.edits_rejected_checksum == m.edits_rejected_checksum + if v == Verdict::Stale {
                1int
            } else {
                0
            }
            &&& n.edits_rejected_expected_text == m.edits_rejected_expected_text + if v
                == Verdict::Unexpected {
                1int
            } else {
                0
            }
            &&& n.edits_noop == m.edits_noop + if v == Verdict::Noop {
                1int
            } else {
                0
            }
            &&& n.edits_expected_text_used == m.edits_expected_text_used + if edit.expected_text
                is Some && (v == Verdict::Unexpected || v == Verdict::Noop || v
                == Verdict::Accepted) {
                1int
            } else {
                0
            }
            &&& n == (ServerMetrics {
                edits_total: n.edits_total,
                edits_rejected_checksum: n.edits_rejected_checksum,
                edits_rejected_expected_text: n.edits_rejected_expected_text,
                edits_noop: n.edits_noop,
                edits_expected_text_used: n.edits_expected_text_used,
                ..m
            })
        }),
{
}

/// An edit that is made changes its document alone. What was selected in the client's pane still is,
/// as far as the text goes; every other pane and document stays.
pub proof fn edit_changes_its_document_alone(e: EditorView, edit: DocumentEdit, f: EditFacts)
    requires
        e.ok(),
        edit_text(e.current().text, edit).len() <= usize::MAX,
    ensures
        ({
            let n = spliced_state(e, edit, f);
            let len = edit_text(e.current().text, edit).len();
            let (was, is) = (e.front().selection.ranges, n.front().selection.ranges);
            &&& n.current().id == e.current().id
            &&& n.current().text == edit_text(e.current().text, edit)
            &&& n.current().dirty == f.dirty
            &&& n.current().can_undo == f.can_undo
            &&& n.current().can_redo == f.can_redo
            &&& n.front().first_line == e.front().first_line
            &&& n.front().selection.primary_index == e.front().selection.primary_index
            &&& is.len() == was.len()
            &&& forall|i: int|
                0 <= i < was.len() ==> {
                    &&& (#[trigger] was[i]).anchor <= len ==> is[i].anchor == was[i].anchor
                    &&& was[i].anchor > len ==> is[i].anchor == len
                    &&& was[i].head <= len ==> is[i].head == was[i].head
                    &&& was[i].head > len ==> is[i].head == len
                }
            &&& n.documents.len() == e.documents.len()
            &&& forall|i: int|
                0 <= i < e.documents.len() && (#[trigger] e.documents[i]).id != e.front().doc
                    ==> n.documents[i] == e.documents[i]
            &&& forall|i: int|
                0 <= i < e.panes.len() && (#[trigger] e.panes[i]).id != e.focused ==> n.panes[i]
                    == e.panes[i]
        }),
{
    spliced_keeps(e, edit, f);
    front_ok(e);
    let text = edit_text(e.current().text, edit);
    with_doc_ok(e, e.front().doc, text, f.dirty, f.can_undo, f.can_redo);
    let m = e.with_doc(e.front().doc, text, f.dirty, f.can_undo, f.can_redo);
    doc_from_bounds(e.documents, e.front().doc, 0);
    pane_from_bounds(e.panes, e.focused, 0);
    let s = e.front().selection.clamp(text.len() as usize);
    placed_ok(m, m.focused, s, m.front().first_line);
    let n = spliced_state(e, edit, f);
    pane_from_same(n.panes, e.panes, e.focused, 0);
    doc_from_same(n.documents, e.documents, e.front().doc, 0);
}

/// An edit at one place inserts, one without a text deletes, and any other replaces.
pub proof fn edits_have_kinds(edit: DocumentEdit)
    ensures
        edit.start == edit.end ==> kind_of(edit) == EventKind::Insert,
        edit.start != edit.end && edit.text@.len() == 0 ==> kind_of(edit) == EventKind::Delete,
        edit.start != edit.end && edit.text@.len() > 0 ==> kind_of(edit) == EventKind::ReplaceRange,
{
}

/// An edit that was made is the last change on record, as a replacement of the stretch that it names by
/// its text, by the client that made it. A headless client's attempt is on record too, by its name,
/// with what became of it, whether the edit was made or not.
pub proof fn accepted_edit_is_recorded(
    d: Daemon,
    log: LogView,
    edit: DocumentEdit,
    conn_id: u64,
    source: EventSource,
    v: Verdict,
    status: Option<String>,
)
    requires
        d.wf(),
        d.log@.room(2),
        edit_recorded(d, log, edit, conn_id, source, v, status),
    ensures
        v == Verdict::Accepted ==> {
            let e = log.events.last();
            &&& log.events.len() > 0
            &&& e.kind == EventKind::ReplaceRange
            &&& e.source == source
            &&& e.range == Some(Range { anchor: edit.start, head: edit.end })
            &&& opt_view(e.text) == Some(edit.text@)
            &&& e.generation == log.generation
        },
        source == EventSource::Headless ==> {
            let a = log.activity.last();
            &&& log.activity.len() > 0
            &&& a.actor@ == actor_name(d.conn_names@, conn_id)
            &&& a.kind == kind_of(edit)
            &&& a.ok == (v == Verdict::Accepted)
        },
        source != EventSource::Headless ==> log.activity == d.log@.activity,
        log.generation == d.log@.generation + (if source == EventSource::Headless {
            1int
        } else {
            0
        }) + (if v == Verdict::Accepted {
            1int
        } else {
            0
        }),
{
    let mid = choose|mid: LogView| #[trigger]
        tried(d, mid, edit, conn_id, source, v, status) && if v == Verdict::Accepted {
            one_event(
                mid,
                log,
                source,
                EventKind::ReplaceRange,
                Some(Range { anchor: edit.start, head: edit.end }),
                Some(edit.text@),
            )
        } else {
            log == mid
        };
    if source == EventSource::Headless {
        attempt_laws(d.log@, mid.activity.last());
    }
    if v == Verdict::Accepted {
        event_laws(
            mid,
            source,
            EventKind::ReplaceRange,
            Some(Range { anchor: edit.start, head: edit.end }),
            log.events.last().text,
        );
    }
}

/// What a headless client may ask for, and nothing that edits at a cursor, moves one, changes the mode,
/// searches, scrolls or walks the history.
pub proof fn headless_clients_leave_the_screen_alone(c: Command)
    ensures
        open_to_headless(c) <==> (c is GetState || c is Save || c is WaitFor || c is Open || c is Close
            || c is ListReviewComments || c is ClearReviewComments || c is RegisterBaseRoot || c
            is UnregisterBaseRoot),
        preempts(c) || c is Move || c is Extend || c is SetMode || c is Search || c is SearchNext || c
            is SearchSelection || c is Scroll || c is ScrollHalf || c is Goto || c is SelectAll || c
            is SetViewport || c is AddReviewComment ==> !open_to_headless(c),
{
}

/// A language server is told of exactly the commands that write, and these close another client's
/// session. What such a command is recorded as alters the text, but for a change on a cursor and an undo
/// or a redo without anything to undo or redo; no other command is recorded so.
pub proof fn writing_commands_are_known_everywhere(e: EditorView, c: Command)
    ensures
        edits_text(c) <==> preempts(c),
        change_for(e, c) matches Some(ch) && alters_text(ch.kind) ==> edits_text(c),
        edits_text(c) ==> (change_for(e, c) matches Some(ch) && alters_text(ch.kind)) || (c is Change
            && e.front().selection.primary().anchor == e.front().selection.primary().head) || (c
            is Undo && !e.current().can_undo) || (c is Redo && !e.current().can_redo),
{
}

/// What is recorded of a command: what was typed or put in, where something was selected, and what kind
/// of change it is.
pub proof fn changes_are_recorded_as_what_they_are(e: EditorView, c: Command)
    ensures
        ({
            let r = e.front().selection.primary();
            let there = if r.anchor <= r.head {
                Some(r)
            } else {
                Some(Range { anchor: r.head, head: r.anchor })
            };
            let ch = change_for(e, c);
            &&& c matches Command::Insert { text } ==> ch is Some && ch->0.kind == EventKind::Insert
                && ch->0.text == Some(text@) && ch->0.range is None
            &&& c is OpenBelow || c is OpenAbove ==> ch is Some && ch->0.kind == EventKind::Insert
                && ch->0.text == Some("\n"@) && ch->0.range is None
            &&& c is DeleteBackward || c is DeleteForward || c is DeleteWordBackward || c
                is DeleteWordForward || c is DeleteRange || c is KillToLineStart || c
                is KillToLineEnd || (c is Change && r.anchor != r.head) ==> ch is Some && ch->0.kind
                == EventKind::Delete && ch->0.range == there && ch->0.text is None
            &&& c matches Command::Replace { text } ==> ch is Some && ch->0.kind
                == EventKind::ReplaceRange && ch->0.range == there && ch->0.text == Some(text@)
            &&& c is SurroundAdd || c is SurroundDelete || c is SurroundReplace ==> ch is Some
                && ch->0.kind == EventKind::ReplaceRange && ch->0.range == there && ch->0.text
                is None
            &&& c is Change && r.anchor == r.head ==> ch is Some && ch->0.kind == EventKind::SetMode
            &&& (c is Append || c is InsertAtLineStart || c is InsertAtLineEnd) ==> (ch is Some
                <==> e.mode != Mode::Insert) && (ch is Some ==> ch->0.kind == EventKind::SetMode)
            &&& c matches Command::SetMode { mode } ==> (ch is Some <==> e.mode != mode) && (ch
                is Some ==> ch->0.kind == EventKind::SetMode)
            &&& c is Undo ==> (ch is Some <==> e.current().can_undo) && (ch is Some ==> ch->0.kind
                == EventKind::Undo)
            &&& c is Redo ==> (ch is Some <==> e.current().can_redo) && (ch is Some ==> ch->0.kind
                == EventKind::Redo)
            &&& c is Close ==> ch is Some && ch->0.kind == EventKind::Close
            &&& c is Move || c is Extend || c is SelectLine || c is ExtendLineBelow || c is SelectAll
                || c is Search || c is SearchNext || c is SearchSelection || c is Goto || c is Scroll
                || c is ScrollHalf || c is SetViewport || c is GetState || c is Save || c is Open || c
                is WaitFor ==> ch is None
        }),
{
}

/// A request is refused at once exactly if it cannot be read, if a headless client may not ask for it,
/// or if it would write below a base; an edit by position never is, as it is judged later.
pub proof fn requests_are_refused_for_a_reason(
    d: Daemon,
    e: EditorView,
    q: Request,
    source: EventSource,
)
    ensures
        ({
            let below = e.current().path is Some && in_base(d.base_roots@, e.current().path->0);
            match q {
                Request::Invalid => is_refused(d, e, q, source),
                Request::Edit(_) => !is_refused(d, e, q, source),
                Request::Command(c) => {
                    &&& source == EventSource::Headless && !open_to_headless(c) ==> is_refused(
                        d,
                        e,
                        q,
                        source,
                    )
                    &&& source != EventSource::Headless || open_to_headless(c) ==> {
                        &&& c is Save ==> (is_refused(d, e, q, source) <==> below)
                        &&& c is Insert || c is DeleteBackward || c is DeleteForward || c
                            is DeleteWordBackward || c is DeleteWordForward || c is DeleteRange || c
                            is KillToLineStart || c is KillToLineEnd || c is Replace || c
                            is SurroundAdd || c is SurroundDelete || c is SurroundReplace || c
                            is OpenBelow || c is OpenAbove ==> (is_refused(d, e, q, source)
                            <==> below)
                        &&& is_refused(d, e, q, source) ==> below && (c is Save || preempts(c))
                        &&& !below ==> !is_refused(d, e, q, source)
                    }
                },
            }
        }),
{
}

/// Commands with steps of their own are those that wait, open, save, register or comment.
pub proof fn some_commands_go_elsewhere(c: Command)
    ensures
        goes_elsewhere(c) <==> (c is WaitFor || c is Open || c is Save || c is RegisterBaseRoot || c
            is UnregisterBaseRoot || c is AddReviewComment || c is ClearReviewComments),
        goes_elsewhere(c) ==> !preempts(c),
{
}

/// A client's screen height is taken over up to the greatest that there may be, for its own pane alone;
/// no other command changes one.
pub proof fn screen_height_is_the_clients_own(
    before: Daemon,
    after: Daemon,
    c: Command,
    conn_id: u64,
    reply: EngineReply,
    r: Applied,
)
    requires
        before.wf(),
        command_done(before, after, c, conn_id, reply, r),
    ensures
        forall|o: u64|
            o != conn_id && before.conn_views@.contains_key(o) ==> #[trigger] after.conn_views@[o]
                == before.conn_views@[o],
        c matches Command::SetViewport { height } ==> after.viewport_height == if height <= 10_000 {
            height
        } else {
            10_000
        },
        c matches Command::SetViewport { height } && before.conn_views@.contains_key(conn_id)
            ==> after.conn_views@[conn_id].viewport == after.viewport_height
            && after.conn_views@[conn_id].view_id == before.conn_views@[conn_id].view_id,
        !(c is SetViewport) ==> after.conn_views@ == before.conn_views@ && after.viewport_height
            == view_of(before, conn_id).viewport,
{
}

/// A document that was written is clean if nobody has changed it meanwhile, and else stays as it is; no
/// other document is touched.
pub proof fn only_the_written_document_is_clean(e: EditorView, doc: u64, text: Seq<char>)
    requires
        e.ok(),
        e.has_doc(doc),
    ensures
        ({
            let n = saved(e, doc, text);
            &&& n.documents.len() == e.documents.len()
            &&& forall|i: int|
                0 <= i < e.documents.len() && (#[trigger] e.documents[i]).id != doc
                    ==> n.documents[i] == e.documents[i]
            &&& n.doc(doc).text == e.doc(doc).text
            &&& n.doc(doc).dirty == (e.doc(doc).dirty && e.doc(doc).text != text)
            &&& n.doc(doc).can_undo == e.doc(doc).can_undo
            &&& n.doc(doc).can_redo == e.doc(doc).can_redo
            &&& n.doc(doc).path == e.doc(doc).path
            &&& n.mode == e.mode
        }),
{
    doc_from_bounds(e.documents, doc, 0);
    with_doc_ok(e, doc, text, false, e.doc(doc).can_undo, e.doc(doc).can_redo);
}

/// What a snapshot says of the document that its pane shows, and of what all clients share.
pub proof fn snapshot_is_what_there_is(
    d: Daemon,
    view_id: u64,
    root: Seq<char>,
    highlights: Seq<HighlightRange>,
    status: Option<Seq<char>>,
    s: StateSnapshot,
)
    requires
        shows(d, view_id, root, highlights, status, s),
    ensures
        ({
            let pane = d.editor@.pane(view_id);
            let doc = d.editor@.doc(pane.doc);
            &&& s.text@ == doc.text
            &&& opt_view(s.path) == doc.path
            &&& s.dirty == doc.dirty
            &&& s.selection@ == pane.selection.ranges
            &&& s.primary_index == pane.selection.primary_index
            &&& s.first_line == pane.first_line
            &&& s.highlights@ == highlights
            &&& opt_view(s.status) == status
        }),
        s.mode == d.editor@.mode,
        s.generation == d.log@.generation,
        s.events@ == d.log@.events,
        s.activity@ == d.log@.activity,
        s.review_comment_count == d.review_comments@.len(),
        opt_view(s.deleted) == opt_view(d.deleted),
{
}

/// Two clients that look at one document see the same text, path and flags, and the same shared state;
/// only their selections and first lines are their own.
pub proof fn clients_see_the_same_document(
    d: Daemon,
    a: u64,
    b: u64,
    root: Seq<char>,
    highlights: Seq<HighlightRange>,
    status: Option<Seq<char>>,
    s: StateSnapshot,
    t: StateSnapshot,
)
    requires
        shows(d, a, root, highlights, status, s),
        shows(d, b, root, highlights, status, t),
        d.editor@.pane(a).doc == d.editor@.pane(b).doc,
    ensures
        s.text@ == t.text@,
        s.checksum == t.checksum,
        opt_view(s.path) == opt_view(t.path),
        s.dirty == t.dirty,
        s.mode == t.mode,
        s.generation == t.generation,
        s.events@ == t.events@,
        s.activity@ == t.activity@,
        s.diagnostics@ == t.diagnostics@,
        s.inlay_hints@ == t.inlay_hints@,
        s.activities@ == t.activities@,
        s.review_comment_count == t.review_comment_count,
{
}

/// The commands that write to the document.
pub proof fn writing_commands_are_listed(c: Command)
    ensures
        preempts(c) <==> (c is Insert || c is DeleteBackward || c is DeleteForward || c
            is DeleteWordBackward || c is DeleteWordForward || c is DeleteRange || c is Change || c
            is Replace || c is SurroundAdd || c is SurroundDelete || c is SurroundReplace || c
            is KillToLineStart || c is KillToLineEnd || c is OpenBelow || c is OpenAbove || c is Undo
            || c is Redo),
{
}

/// A client works with its own pane and its own screen height; one without a pane with the idle pane.
pub proof fn clients_work_with_their_own_panes(d: Daemon, conn_id: u64)
    ensures
        d.conn_views@.contains_key(conn_id) ==> view_of(d, conn_id) == d.conn_views@[conn_id],
        !d.conn_views@.contains_key(conn_id) ==> view_of(d, conn_id).view_id == d.idle_view
            && view_of(d, conn_id).viewport == d.viewport_height,
{
}

/// A session is foreign to everyone but its owner, and a session that is closed leaves neither insert
/// mode nor a group behind, and nothing else changed.
pub proof fn sessions_have_one_owner(d: Daemon, conn_id: u64, e: EditorView, mode: Mode)
    ensures
        foreign_session(d, conn_id) <==> d.insert_owner is Some && d.insert_owner->0 != conn_id,
        session_closed(e, mode).mode == mode,
        !session_closed(e, mode).group_open,
        session_closed(e, mode).documents == e.documents,
        session_closed(e, mode).panes == e.panes,
        session_closed(e, mode).focused == e.focused,
        entering(d, conn_id) == GroupChange::Begin <==> d.editor@.mode != Mode::Insert,
        entering(d, conn_id) == GroupChange::Keep <==> d.editor@.mode == Mode::Insert
            && d.insert_owner == Some(conn_id),
        entering(d, conn_id) == GroupChange::Restart <==> d.editor@.mode == Mode::Insert
            && d.insert_owner != Some(conn_id),
{
}

/// When a client goes its pane goes with it, and no other; whoever else looked through a pane still
/// does, at the same place.
pub proof fn only_the_clients_pane_goes(d: Daemon, conn_id: u64, o: u64)
    requires
        d.wf(),
    ensures
        ({
            let n = without_view(d, conn_id);
            &&& n.documents == d.editor@.documents
            &&& n.mode == d.editor@.mode
            &&& !d.conn_views@.contains_key(conn_id) ==> n == d.editor@
            &&& d.conn_views@.contains_key(conn_id) ==> {
                let gone = d.conn_views@[conn_id].view_id;
                &&& n.panes.len() == d.editor@.panes.len() - 1
                &&& o != gone && d.editor@.has_pane(o) ==> n.has_pane(o) && n.pane(o)
                    == d.editor@.pane(o)
                &&& d.editor@.focused == gone ==> n.focused == d.idle_view
                &&& d.editor@.focused != gone ==> n.focused == d.editor@.focused
            }
        }),
{
    if d.conn_views@.contains_key(conn_id) {
        let gone = d.conn_views@[conn_id].view_id;
        let e = if d.editor@.focused == gone {
            d.editor@.focus(d.idle_view)
        } else {
            d.editor@
        };
        pane_from_bounds(d.editor@.panes, gone, 0);
        crate::editor::without_pane_laws(e, gone);
        assert(e.pane(o) == d.editor@.pane(o));
    }
}

/// What a client is told of its edit: nothing if it was made or does nothing, that the document has
/// changed, or what was expected and what was found there, where.
pub proof fn edits_are_answered(d: Daemon, edit: DocumentEdit, v: Verdict, status: Option<String>)
    requires
        edit_status_ok(d, edit, v, status),
    ensures
        v == Verdict::Accepted || v == Verdict::Noop ==> status is None,
        v == Verdict::Stale ==> status is Some && status->0@ == "document changed since read"@,
        v == Verdict::Unexpected && edit.start <= edit.end <= d.editor@.current().text.len()
            ==> status is Some && status->0@ == "expected text mismatch: expected "@ + debug_quoted(
            snippet(edit.expected_text->0@),
        ) + ", found "@ + debug_quoted(
            snippet(d.editor@.current().text.subrange(edit.start as int, edit.end as int)),
        ) + " at "@ + ("["@ + decimal_digits(edit.start as nat) + ", "@ + decimal_digits(
            edit.end as nat,
        ) + ")"@),
        v == Verdict::ReadOnly ==> status is Some,
{
}

/// What a client is told after a save, and that a document that was edited meanwhile is still dirty.
pub proof fn saves_are_answered(path: Seq<char>)
    ensures
        saved_status(path, true) == "saved: "@ + path,
        saved_status(path, false) == "saved: "@ + path + " (edited during save, still dirty)"@,
{
}

/// What a headless client is told that asks for what it may not.
pub proof fn headless_clients_are_told()
    ensures
        headless_notice()
            == "headless clients can only use GetState, Save, WaitFor, DocumentEdit, Open, Close, ListReviewComments, ClearReviewComments, RegisterBaseRoot, and UnregisterBaseRoot"@,
{
}

/// A refusal is what the request was refused for.
pub proof fn refusals_name_the_reason(
    d: Daemon,
    e: EditorView,
    q: Request,
    source: EventSource,
    m: Seq<char>,
)
    requires
        refused(d, e, q, source, m),
    ensures
        is_refused(d, e, q, source),
        q is Invalid ==> m == "invalid command"@,
        q matches Request::Command(c) && source == EventSource::Headless && !open_to_headless(c) ==> m
            == headless_notice(),
        q matches Request::Command(c) && (source != EventSource::Headless || open_to_headless(c))
            ==> exists|i: int| #[trigger]
            first_root(d.base_roots@, e.current().path->0, i) && m == read_only_notice(
                d.base_roots@[i].1.commit@,
                e.current().path->0,
            ),
{
}

/// A headless client is answered exactly if its request leaves the screen alone.
pub proof fn headless_requests_are_answered(c: Command)
    ensures
        headless_served(Request::Command(c)) <==> route_of(Request::Command(c)) != Route::Process
            || open_to_headless(c),
{
}

/// A command asks for the state to be counted if it reads it, and for no other counter.
pub proof fn reading_the_state_is_counted(
    before: Daemon,
    after: Daemon,
    c: Command,
    conn_id: u64,
    reply: EngineReply,
    r: Applied,
)
    requires
        command_done(before, after, c, conn_id, reply, r),
        before.metrics.get_state_total < u64::MAX,
    ensures
        after.metrics.get_state_total == before.metrics.get_state_total + if c is GetState {
            1int
        } else {
            0
        },
        !(c is GetState) ==> after.metrics == before.metrics,
        after.metrics.edits_total == before.metrics.edits_total,
        !(c is Close) ==> after.deleted == before.deleted && after.baselines == before.baselines,
        after.log == before.log,
        after.review_comments == before.review_comments,
        after.base_roots == before.base_roots,
        after.diagnostics == before.diagnostics,
{
}

/// Once a document is closed, only what is still open is watched, and no file waits to be closed.
pub proof fn closed_files_are_not_watched(
    before: Daemon,
    after: Daemon,
    conn_id: u64,
    reply: EngineReply,
    r: Applied,
    path: Seq<char>,
)
    requires
        before.wf(),
        command_done(before, after, Command::Close, conn_id, reply, r),
        reply matches EngineReply::Arranged(a) && a is Some,
    ensures
        after.deleted is None,
        !after.editor@.has_path(path) ==> !has_key(after.baselines@, path),
        after.editor@.has_path(path) ==> value_of(after.baselines@, path) == value_of(
            before.baselines@,
            path,
        ),
{
    let open = |k: Seq<char>| after.editor@.has_path(k);
    kept_laws(before.baselines@, open);
    if after.editor@.has_path(path) {
        assert(open(path));
    } else {
        assert(!open(path));
    }
}

/// What the record says of a headless client's edit: that the document had changed, that nothing was to
/// do, where what was found is not what was expected, or which stretch of which file was replaced.
pub proof fn records_say_what_became_of_an_edit(
    d: Daemon,
    log: LogView,
    edit: DocumentEdit,
    conn_id: u64,
    v: Verdict,
    status: Option<String>,
)
    requires
        d.wf(),
        d.log@.room(1),
        tried(d, log, edit, conn_id, EventSource::Headless, v, status),
    ensures
        log.activity.len() > 0,
        log.events == d.log@.events,
        v == Verdict::Stale ==> log.activity.last().detail@ == "document changed since read"@,
        v == Verdict::Noop ==> log.activity.last().detail@ == "no-op (unchanged)"@,
        v == Verdict::ReadOnly && status is Some ==> log.activity.last().detail@ == status->0@,
        v == Verdict::Accepted ==> log.activity.last().detail@ == (match d.editor@.current().path {
            Some(p) => p,
            None => "(scratch)"@,
        }) + " ["@ + decimal_digits(edit.start as nat) + ".."@ + decimal_digits(edit.end as nat)
            + "]"@,
        v == Verdict::Unexpected && edit.start <= edit.end <= d.editor@.current().text.len()
            ==> log.activity.last().detail@ == "expected text mismatch at "@ + ("["@
            + decimal_digits(edit.start as nat) + ", "@ + decimal_digits(edit.end as nat) + ")"@)
            + ": expected "@ + debug_quoted(snippet(edit.expected_text->0@)) + ", found "@
            + debug_quoted(
            snippet(d.editor@.current().text.subrange(edit.start as int, edit.end as int)),
        ),
{
    attempt_laws(d.log@, log.activity.last());
}

} // verus!
