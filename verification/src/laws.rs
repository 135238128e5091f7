//! What holds of the daemon as a whole.
use vstd::prelude::*;

use crate::base::in_base;
use crate::clients::{foreign_session, view_of, GroupChange};
use crate::commands::{
    call_for, command_done, did_edit, edits_first, held_pages, is_call, outcome, preempts,
    search_view, started, too_large, Applied, EngineCall, EngineReply,
};
use crate::daemon::{focused_on, has_kind, session_of, shown_diagnostics, shown_hints, Daemon};
use crate::editor::{doc_from_bounds, opt_view, pane_from_bounds, with_doc_ok, EditorView};
use crate::edits::{
    edit_text, replaced, spliced_keeps, spliced_state, verdict, weighed, EditFacts, Verdict,
};
use crate::finish::{edit_recorded, saved, tried};
use crate::log::{attempt_laws, LogView};
use crate::open::{opened, opened_shows};
use crate::process::{base_refuses, change_for, goes_elsewhere};
use crate::snapshot::shows;
use crate::strings::has_upper;
use crate::text::checksum;
use crate::types::{
    Activity, Command, DocumentEdit, EventSource, HighlightRange, Mode, Range, StateSnapshot,
};

verus! {

/// Insert mode, its owner and the open group of edits come and go together: a daemon in insert mode
/// has exactly one owner, and outside of insert mode there is neither an owner nor an open group.
pub proof fn insert_mode_has_one_owner(d: Daemon)
    requires
        d.wf(),
    ensures
        d.editor@.mode == Mode::Insert <==> d.insert_owner is Some,
        d.editor@.mode == Mode::Insert <==> d.editor@.group_open,
{
}

/// Work that is listed and taken off again leaves the list as it was.
pub proof fn work_comes_and_goes(work: Seq<Activity>, a: Activity)
    requires
        !has_kind(work, a.kind),
    ensures
        work.push(a).filter(|x: Activity| x.kind != a.kind) == work,
{
    let keep = |x: Activity| x.kind != a.kind;
    all_kept(work, keep);
    reveal(Seq::filter);
    assert(work.push(a).drop_last() =~= work);
    assert(work.push(a).last() == a);
    assert(!keep(a));
}

proof fn all_kept(v: Seq<Activity>, keep: spec_fn(Activity) -> bool)
    requires
        forall|i: int| 0 <= i < v.len() ==> keep(#[trigger] v[i]),
    ensures
        v.filter(keep) == v,
    decreases v.len(),
{
    reveal(Seq::filter);
    if v.len() > 0 {
        let rest = v.drop_last();
        assert forall|i: int| 0 <= i < rest.len() implies keep(#[trigger] rest[i]) by {
            assert(keep(v[i]));
        }
        all_kept(rest, keep);
        assert(keep(v[v.len() - 1]));
        assert(rest.push(v.last()) =~= v);
    }
}

/// A session's server looks at one file, and only that file's diagnostics and hints are shown.
pub proof fn only_the_focus_shows(
    d: Daemon,
    a: Seq<char>,
    b: Seq<char>,
    a_root: Seq<char>,
    b_root: Seq<char>,
)
    requires
        focused_on(d, a, a_root),
        a != b,
        session_of(d.languages.languages@, a, a_root) == session_of(
            d.languages.languages@,
            b,
            b_root,
        ),
    ensures
        !focused_on(d, b, b_root),
        shown_diagnostics(d, b, b_root).len() == 0,
        shown_hints(d, b, b_root).len() == 0,
{
}

/// Whether a command can change a document's text.
pub open spec fn writes(c: Command) -> bool {
    preempts(c) || c is Close
}

/// Commands that do not write leave every document as it is.
pub proof fn moving_changes_no_document(d: Daemon, c: Command, conn_id: u64, reply: EngineReply)
    requires
        d.wf(),
        !writes(c),
    ensures
        outcome(d, c, conn_id, reply).editor.documents == d.editor@.documents,
{
}

/// What a command that reports no change leaves behind: every document, with its text and its
/// dirty flag, and the mode are as they were.
pub proof fn without_change_the_state_stays(
    before: Daemon,
    after: Daemon,
    c: Command,
    conn_id: u64,
    reply: EngineReply,
    r: Applied,
)
    requires
        before.wf(),
        after.wf(),
        command_done(before, after, c, conn_id, reply, r),
        !r.changed,
    ensures
        after.editor@.documents == before.editor@.documents,
        after.editor@.mode == before.editor@.mode,
{
}

/// What a command that changed the mode alone leaves behind: every document is as it was, and the
/// mode is another.
pub proof fn mode_only_keeps_documents(d: Daemon, c: Command, conn_id: u64, reply: EngineReply)
    requires
        d.wf(),
        outcome(d, c, conn_id, reply).mode_only,
    ensures
        outcome(d, c, conn_id, reply).changed,
        outcome(d, c, conn_id, reply).editor.documents == d.editor@.documents,
        outcome(d, c, conn_id, reply).editor.mode != d.editor@.mode,
{
}

/// After a command, insert mode is on exactly if someone owns the session, and a command that moved
/// the mode to insert mode has made its client the owner.
pub proof fn command_keeps_one_owner(
    before: Daemon,
    after: Daemon,
    c: Command,
    conn_id: u64,
    reply: EngineReply,
    r: Applied,
)
    requires
        before.wf(),
        after.wf(),
        command_done(before, after, c, conn_id, reply, r),
    ensures
        after.editor@.mode == Mode::Insert <==> after.insert_owner is Some,
        after.editor@.mode == Mode::Insert && before.editor@.mode != Mode::Insert
            ==> after.insert_owner == Some(conn_id),
{
}

/// No command that writes leaves an insert session of another client open, unless it was refused
/// for size, so no group of edits mixes two clients.
pub proof fn writing_closes_foreign_sessions(
    d: Daemon,
    c: Command,
    conn_id: u64,
    reply: EngineReply,
)
    requires
        d.wf(),
        writes(c),
        !(c is Close),
        !too_large(started(d, c, conn_id), c),
        foreign_session(d, conn_id),
    ensures
        outcome(d, c, conn_id, reply).owner is None || outcome(d, c, conn_id, reply).owner == Some(
            conn_id,
        ),
        started(d, c, conn_id).mode == Mode::Normal,
        !started(d, c, conn_id).group_open,
{
}

/// A line that is opened, or a change of what is selected, is in no group of edits: the command starts
/// without one, whoever had it, and a new one begins behind the edit, with the client as its owner.
pub proof fn first_edit_is_in_no_group(d: Daemon, c: Command, conn_id: u64, reply: EngineReply)
    requires
        d.wf(),
        edits_first(c),
    ensures
        !started(d, c, conn_id).group_open,
        outcome(d, c, conn_id, reply).group == GroupChange::Begin,
        outcome(d, c, conn_id, reply).owner == Some(conn_id),
        outcome(d, c, conn_id, reply).editor.mode == Mode::Insert,
{
}

/// An insertion that would make the document too large changes nothing but the focus.
pub proof fn too_large_insertion_changes_nothing(
    d: Daemon,
    c: Command,
    conn_id: u64,
    reply: EngineReply,
)
    requires
        d.wf(),
        too_large(started(d, c, conn_id), c),
    ensures
        !outcome(d, c, conn_id, reply).changed,
        outcome(d, c, conn_id, reply).editor == d.editor@.focus(view_of(d, conn_id).view_id),
        outcome(d, c, conn_id, reply).owner == d.insert_owner,
{
}

/// A search without a match moves no cursor, leaves the last search as it was and is reported; one
/// with a match selects it and is remembered.
pub proof fn search_selects_what_it_finds(d: Daemon, c: Command, conn_id: u64, reply: EngineReply)
    requires
        d.wf(),
        c is Search || c is SearchNext || c is SearchSelection,
    ensures
        ({
            let o = outcome(d, c, conn_id, reply);
            let e = started(d, c, conn_id);
            &&& o.editor.documents == e.documents
            &&& o.changed <==> o.status is None
            &&& !o.changed ==> o.editor == e
            &&& o.changed ==> o.search is Some
            &&& !o.changed ==> o.search == search_view(d.last_search)
            &&& o.editor.mode == e.mode
        }),
{
}

/// Searches tell upper and lower case apart exactly if what is looked for holds an upper case letter.
/// A repeated search looks for what the last one found.
pub proof fn searches_use_smart_case(d: Daemon, c: Command, viewport: usize, call: EngineCall)
    requires
        is_call(call, d.editor@, c, viewport, d.last_search),
    ensures
        match c {
            Command::Search { query, direction } if query@.len() > 0 => {
                call matches EngineCall::Find { query: q, exact, direction: way, .. } && q@
                    == query@ && exact == has_upper(query@) && way == direction
            },
            Command::SearchNext { direction } if d.last_search is Some => {
                call matches EngineCall::Find { query: q, exact, direction: way, .. } && q@
                    == d.last_search->0.query@ && exact == has_upper(q@) && way == direction
            },
            _ => true,
        },
{
}

/// A scroll by no lines asks the engine for nothing and moves nothing.
pub proof fn empty_scroll_moves_nothing(d: Daemon, c: Command, conn_id: u64, reply: EngineReply)
    requires
        d.wf(),
        c matches Command::Scroll { pages } && (pages == 0 || view_of(d, conn_id).viewport == 0),
    ensures
        outcome(d, c, conn_id, reply).editor == d.editor@.focus(view_of(d, conn_id).view_id),
        call_for(
            started(d, c, conn_id),
            c,
            view_of(d, conn_id).viewport,
            d.last_search,
        ) is Nothing,
{
    let p = held_pages(c->pages) as int;
    let h = view_of(d, conn_id).viewport as int;
    assert(p * h == 0) by (nonlinear_arith)
        requires
            p == 0 || h == 0,
    ;
}

/// A search is not recorded: it moves cursors and selections, and neither counts as a change nor
/// changes the mode.
pub proof fn search_is_not_recorded(d: Daemon, c: Command, conn_id: u64, reply: EngineReply)
    requires
        d.wf(),
        c is Search || c is SearchNext || c is SearchSelection,
    ensures
        change_for(d.editor@.focus(view_of(d, conn_id).view_id), c) is None,
        !outcome(d, c, conn_id, reply).mode_only,
{
}

/// Documents below a base are read only: a command that is not refused leaves every document as it
/// is. The engine deletes nothing where nothing is selected, and does not undo or redo where the
/// history has nothing to undo or redo.
pub proof fn base_documents_stay(d: Daemon, c: Command, conn_id: u64, reply: EngineReply)
    requires
        d.wf(),
        !goes_elsewhere(c),
        !(c is Close),
        ({
            let e = d.editor@.focus(view_of(d, conn_id).view_id);
            &&& e.current().path matches Some(p) && in_base(d.base_roots@, p)
            &&& !base_refuses(d, e, c)
            &&& c is Change && e.front().selection.primary().anchor
                == e.front().selection.primary().head ==> !did_edit(reply)
            &&& c is Undo && !e.current().can_undo ==> !did_edit(reply)
            &&& c is Redo && !e.current().can_redo ==> !did_edit(reply)
        }),
    ensures
        outcome(d, c, conn_id, reply).editor.documents == d.editor@.documents,
{
}

/// What a client does moves no other client's pane. Closing a document is the exception: the panes
/// that showed it show another.
pub proof fn others_keep_their_panes(d: Daemon, c: Command, conn_id: u64, reply: EngineReply)
    requires
        d.wf(),
        !(c is Close),
    ensures
        ({
            let now = outcome(d, c, conn_id, reply).editor.panes;
            let before = d.editor@.panes;
            &&& now.len() == before.len()
            &&& forall|i: int|
                0 <= i < before.len() && (#[trigger] before[i]).id != view_of(d, conn_id).view_id
                    ==> now[i] == before[i]
        }),
{
    let e = started(d, c, conn_id);
    pane_from_bounds(e.panes, e.focused, 0);
}

/// An edit that was accepted is seen: a snapshot of the document shows the text with the edit, and
/// its checksum admits the next edit.
pub proof fn accepted_edit_is_seen(
    before: Daemon,
    after: Daemon,
    edit: DocumentEdit,
    facts: EditFacts,
    root: Seq<char>,
    highlights: Seq<HighlightRange>,
    status: Option<Seq<char>>,
    s: StateSnapshot,
)
    requires
        before.wf(),
        edit_text(before.editor@.current().text, edit).len() <= usize::MAX,
        after.editor@ == spliced_state(before.editor@, edit, facts),
        shows(after, after.editor@.focused, root, highlights, status, s),
    ensures
        s.text@ == edit_text(before.editor@.current().text, edit),
        s.checksum == checksum(edit_text(before.editor@.current().text, edit)),
        opt_view(s.path) == before.editor@.current().path,
        s.mode == before.editor@.mode,
{
    spliced_keeps(before.editor@, edit, facts);
}

/// A file that was opened is seen as it was read, and is clean.
pub proof fn opened_file_is_seen(
    before: Daemon,
    after: Daemon,
    id: u64,
    path: Seq<char>,
    text: Seq<char>,
    root: Seq<char>,
    highlights: Seq<HighlightRange>,
    status: Option<Seq<char>>,
    s: StateSnapshot,
)
    requires
        before.wf(),
        !before.editor@.has_doc(id),
        after.editor@ == opened(before.editor@, id, path, text),
        shows(after, after.editor@.focused, root, highlights, status, s),
    ensures
        s.text@ == text,
        opt_view(s.path) == Some(path),
        !s.dirty,
        s.selection@ == seq![Range { anchor: 0, head: 0 }],
{
    opened_shows(before.editor@, id, path, text);
}

/// A document that was written as it is, is clean then, and no text changes by writing it.
pub proof fn saved_document_is_clean(e: EditorView, doc: u64, text: Seq<char>)
    requires
        e.ok(),
        e.has_doc(doc),
    ensures
        e.doc(doc).text == text ==> !saved(e, doc, text).doc(doc).dirty,
        e.doc(doc).text != text ==> saved(e, doc, text) == e,
        saved(e, doc, text).panes == e.panes,
        saved(e, doc, text).documents.len() == e.documents.len(),
        forall|i: int|
            0 <= i < e.documents.len() ==> (#[trigger] saved(e, doc, text).documents[i]).text
                == e.documents[i].text,
{
    with_doc_ok(e, doc, text, false, e.doc(doc).can_undo, e.doc(doc).can_redo);
    doc_from_bounds(e.documents, doc, 0);
}

/// An edit is made exactly if it may be: the document is not below a base, it is still what the
/// client has read, the replaced text is the one that the client expects if it names one, and the
/// edit does something.
pub proof fn accepted_only_if_checked(d: Daemon, edit: DocumentEdit, noop: bool)
    ensures
        ({
            let doc = d.editor@.current();
            verdict(d, edit, noop) == Verdict::Accepted <==> {
                &&& !(doc.path matches Some(p) && in_base(d.base_roots@, p))
                &&& edit.checksum == checksum(doc.text)
                &&& edit.expected_text matches Some(x) ==> x@ == replaced(doc.text, edit)
                &&& !noop
            }
        }),
{
}

/// After an edit that was taken the text is the one that the client asked for, whether the edit was
/// made or had nothing to do.
pub proof fn taken_edit_leads_to_its_text(e: EditorView, edit: DocumentEdit, facts: EditFacts)
    requires
        e.ok(),
        edit_text(e.current().text, edit).len() <= usize::MAX,
        weighed(e.current().text, edit, facts.noop),
    ensures
        facts.noop ==> e.current().text == edit_text(e.current().text, edit),
        !facts.noop ==> spliced_state(e, edit, facts).current().text == edit_text(
            e.current().text,
            edit,
        ),
{
    spliced_keeps(e, edit, facts);
}

/// An edit that was not made is not recorded as a change, and only a headless client's attempt
/// counts as one.
pub proof fn refused_edit_is_not_recorded(
    d: Daemon,
    log: LogView,
    edit: DocumentEdit,
    conn_id: u64,
    source: EventSource,
    v: Verdict,
    status: Option<String>,
)
    requires
        d.wf(),
        d.log@.room(1),
        v != Verdict::Accepted,
        edit_recorded(d, log, edit, conn_id, source, v, status),
    ensures
        log.events == d.log@.events,
        source != EventSource::Headless ==> log == d.log@,
        source == EventSource::Headless ==> log.generation == d.log@.generation + 1,
{
    let mid = choose|mid: LogView| #[trigger]
        tried(d, mid, edit, conn_id, source, v, status) && log == mid;
    if source == EventSource::Headless {
        attempt_laws(d.log@, mid.activity.last());
    }
}

} // verus!
