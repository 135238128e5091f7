//! What the text engine is asked for, and what its answers come to.
use vstd::prelude::*;

use crate::clients::{foreign_session, view_of, GroupChange};
use crate::commands::{
    did_edit, edited, edited_keeps, held_pages, is_call, outcome, preempts, reply_ok, search_view,
    selection_target, slice_within, started, too_large, EngineCall, EngineReply, WordMoveTarget,
};
use crate::daemon::{Daemon, SearchState};
use crate::editor::{
    doc_from_bounds, doc_from_same, front_ok, pane_from_bounds, pane_from_same, placed_ok,
    with_doc_ok, EditorView, PaneView, SelectionView,
};
use crate::strings::trimmed;
use crate::text::{is_line, line_break, line_head, position_lies_in_its_line};
use crate::types::{Command, Direction, GotoTarget, Mode, Movement, Range};

verus! {

/// A client's pane is there.
proof fn view_has_pane(d: Daemon, conn_id: u64)
    requires
        d.wf(),
    ensures
        d.editor@.has_pane(view_of(d, conn_id).view_id),
        d.editor@.focus(view_of(d, conn_id).view_id).ok(),
        forall|c: Command| #[trigger] started(d, c, conn_id).ok(),
{
}

/// What is selected is the selection of the focused pane.
proof fn selected_in_front(e: EditorView)
    requires
        e.ok(),
    ensures
        forall|s: SelectionView|
            s.ok() ==> (#[trigger] e.select(s)).front() == (PaneView { selection: s, ..e.front() }),
{
    assert forall|s: SelectionView| s.ok() implies (#[trigger] e.select(s)).front() == (PaneView {
        selection: s,
        ..e.front()
    }) by {
        placed_ok(e, e.focused, s, e.front().first_line);
    }
}

/// A search starts at the cursor of the primary selection and starts over at the other end of the
/// text. A repeated search starts behind the last match, or one character in front of it going back.
pub proof fn search_starts_at_the_cursor(
    e: EditorView,
    c: Command,
    viewport: usize,
    search: Option<SearchState>,
    call: EngineCall,
)
    requires
        is_call(call, e, c, viewport, search),
        e.current().text.len() <= usize::MAX,
    ensures
        match c {
            Command::Search { query, direction } => if query@.len() == 0 {
                call is Nothing
            } else {
                call matches EngineCall::Find { query: q, direction: way, from, wrap_from, .. } && {
                    let s = e.front().selection;
                    &&& q@ == query@
                    &&& way == direction
                    &&& from == s.ranges[s.primary_index as int].head
                    &&& direction == Direction::Forward ==> wrap_from == 0
                    &&& direction == Direction::Backward ==> wrap_from == e.current().text.len()
                }
            },
            Command::SearchNext { direction } => match search {
                None => call is Nothing,
                Some(s) => call matches EngineCall::Find {
                    query: q,
                    direction: way,
                    from,
                    wrap_from,
                    ..
                } && {
                    &&& q@ == s.query@
                    &&& way == direction
                    &&& direction == Direction::Forward ==> from == s.found_end && wrap_from == 0
                    &&& direction == Direction::Backward && s.found_start > 0 ==> from + 1
                        == s.found_start
                    &&& direction == Direction::Backward && s.found_start == 0 ==> from == 0
                    &&& direction == Direction::Backward ==> wrap_from == e.current().text.len()
                },
            },
            Command::SearchSelection => {
                let s = e.front().selection;
                call == (EngineCall::WordAt { at: s.ranges[s.primary_index as int].head })
            },
            _ => true,
        },
{
}

/// Whether a pane selects one range alone, its ends in order.
pub open spec fn selects(p: PaneView, r: Range) -> bool {
    p.selection.ranges == if r.anchor <= r.head {
        seq![r]
    } else {
        seq![Range { anchor: r.head, head: r.anchor }]
    } && p.selection.primary_index == 0
}

/// A search selects the match that was found from the cursor on, and the one found from the other
/// end only if there is none. It is remembered with the query. Without a match nothing is selected,
/// the last search stays, and the query is reported.
pub proof fn search_selects_the_near_match_first(
    d: Daemon,
    c: Command,
    conn_id: u64,
    near: Option<Range>,
    wrapped: Option<Range>,
)
    requires
        d.wf(),
        c matches Command::Search { query, .. } && query@.len() > 0,
    ensures
        ({
            let o = outcome(d, c, conn_id, EngineReply::Found { near, wrapped });
            let q = c->Search_query@;
            let hit = if near is Some {
                near
            } else {
                wrapped
            };
            &&& hit matches Some(r) ==> {
                &&& selects(o.editor.front(), r)
                &&& o.editor.focused == view_of(d, conn_id).view_id
                &&& o.search matches Some(s) && s.query == q && s.found_start
                    == o.editor.front().selection.ranges[0].anchor && s.found_end
                    == o.editor.front().selection.ranges[0].head
                &&& o.status is None
                &&& o.scroll
            }
            &&& hit is None ==> {
                &&& o.status == Some("no match: "@ + q)
                &&& o.editor.panes == d.editor@.panes
                &&& o.search == search_view(d.last_search)
            }
        }),
{
    let e = started(d, c, conn_id);
    view_has_pane(d, conn_id);
    selected_in_front(e);
}

/// A repeated search goes on to another match: the match that was found last is not found again, going
/// back or from the other end. Going on forward, what is found behind the last match counts.
pub proof fn search_goes_on_to_another_match(
    d: Daemon,
    c: Command,
    conn_id: u64,
    near: Option<Range>,
    wrapped: Option<Range>,
)
    requires
        d.wf(),
        c is SearchNext,
    ensures
        ({
            let o = outcome(d, c, conn_id, EngineReply::Found { near, wrapped });
            match d.last_search {
                None => o.status == Some("no previous search"@) && o.editor.panes == d.editor@.panes
                    && o.search is None,
                Some(s) => {
                    let again = |r: Range|
                        if r.anchor <= r.head {
                            r.anchor == s.found_start && r.head == s.found_end
                        } else {
                            r.head == s.found_start && r.anchor == s.found_end
                        };
                    let first = near is Some && (c->SearchNext_direction == Direction::Forward
                        || !again(near->0));
                    let second = !first && wrapped is Some && !again(wrapped->0);
                    &&& first ==> selects(o.editor.front(), near->0)
                    &&& second ==> selects(o.editor.front(), wrapped->0)
                    &&& first || second ==> o.status is None && o.search is Some
                        && o.search->0.query == s.query@ && o.search->0.found_start
                        == o.editor.front().selection.ranges[0].anchor && o.search->0.found_end
                        == o.editor.front().selection.ranges[0].head
                    &&& !first && !second ==> o.status == Some("no more matches: "@ + s.query@)
                        && o.editor.panes == d.editor@.panes && o.search == search_view(
                        d.last_search,
                    )
                },
            }
        }),
{
    let e = started(d, c, conn_id);
    view_has_pane(d, conn_id);
    selected_in_front(e);
}

/// A search for the selection selects every match and remembers the primary one. Without a word, with
/// nothing but white space, or without a match nothing is selected, and which of these it was is
/// reported.
pub proof fn selection_search_selects_all(
    d: Daemon,
    conn_id: u64,
    word: Option<Range>,
    reply: EngineReply,
)
    requires
        d.wf(),
        reply matches EngineReply::Matches { word: w, .. } && w == word,
        reply_ok(started(d, Command::SearchSelection, conn_id), reply),
    ensures
        ({
            let e = started(d, Command::SearchSelection, conn_id);
            let o = outcome(d, Command::SearchSelection, conn_id, reply);
            let found = reply->Matches_matches;
            let r = e.front().selection.primary();
            let cursor = r.anchor == r.head;
            match selection_target(e, word) {
                None => cursor && word is None && o.status == Some("no word under cursor"@),
                Some(q) => {
                    &&& !cursor ==> q == trimmed(
                        slice_within(e.current().text, r.lo() as int, r.hi() as int),
                    )
                    &&& cursor ==> word is Some && q == trimmed(
                        slice_within(e.current().text, word->0.lo() as int, word->0.hi() as int),
                    )
                    &&& q.len() == 0 ==> o.status == Some("no selection to search"@)
                    &&& q.len() > 0 && found is None ==> o.status == Some("no match: "@ + q)
                    &&& q.len() > 0 && found is Some ==> {
                        &&& o.status is None
                        &&& o.editor.front().selection == found->0@
                        &&& o.search is Some
                        &&& o.search->0.query == q
                        &&& o.search->0.found_start == found->0@.primary().lo()
                        &&& o.search->0.found_end == found->0@.primary().hi()
                    }
                },
            }
        }),
        outcome(d, Command::SearchSelection, conn_id, reply).status is Some ==> outcome(
            d,
            Command::SearchSelection,
            conn_id,
            reply,
        ).editor.panes == d.editor@.panes,
{
    let e = started(d, Command::SearchSelection, conn_id);
    view_has_pane(d, conn_id);
    selected_in_front(e);
}

/// Of a text, a slice holds the characters between its ends, as far as there are any.
pub proof fn slice_holds_what_lies_between(s: Seq<char>, lo: int, hi: int)
    requires
        0 <= lo <= hi,
    ensures
        hi <= s.len() ==> slice_within(s, lo, hi) == s.subrange(lo, hi),
        lo <= s.len() < hi ==> slice_within(s, lo, hi) == s.skip(lo),
        s.len() < lo ==> slice_within(s, lo, hi).len() == 0,
{
    if lo <= s.len() && s.len() < hi {
        assert(slice_within(s, lo, hi) =~= s.skip(lo));
    }
}

/// What is typed or put in place of something is put in with the cursor behind it; what is deleted
/// leaves the cursor where it was; a line that is opened gets a line feed at the end of the cursor's
/// line with the cursor behind it, or at its beginning with the cursor in front.
pub proof fn edits_are_asked_for(
    e: EditorView,
    c: Command,
    viewport: usize,
    search: Option<SearchState>,
    call: EngineCall,
)
    requires
        is_call(call, e, c, viewport, search),
        preempts(c),
    ensures
        c matches Command::Insert { text } ==> if too_large(e, c) {
            call is Nothing
        } else {
            call == (EngineCall::Insert { text, after: true })
        },
        c matches Command::Replace { text } ==> if text@.len() == 0 {
            call is Nothing
        } else {
            call == (EngineCall::Replace { text, after: true })
        },
        c is DeleteBackward ==> call == (EngineCall::DeleteBackward { after: false }),
        c is DeleteForward ==> call == (EngineCall::DeleteForward { after: false }),
        c is DeleteWordBackward ==> call == (EngineCall::DeleteWordBackward { after: false }),
        c is DeleteWordForward ==> call == (EngineCall::DeleteWordForward { after: false }),
        c is DeleteRange || c is Change ==> call == (EngineCall::DeleteSelection { after: false }),
        c is KillToLineStart || c is KillToLineEnd ==> (call matches EngineCall::DeleteRanges {
            after,
            ..
        } && !after),
        c matches Command::SurroundAdd { ch } ==> call == (EngineCall::SurroundAdd { ch }),
        c matches Command::SurroundDelete { ch } ==> call == (EngineCall::SurroundDelete { ch }),
        c matches Command::SurroundReplace { from, to } ==> call == (EngineCall::SurroundReplace {
            from,
            to,
        }),
        c is OpenBelow ==> (call matches EngineCall::OpenLine { movement, ch, after, .. } && movement
            == Movement::LineEnd && ch == '\n' && after),
        c is OpenAbove ==> (call matches EngineCall::OpenLine { movement, ch, after, .. } && movement
            == Movement::LineStart && ch == '\n' && !after),
        c is Undo ==> call is Undo,
        c is Redo ==> call is Redo,
{
}

/// A kill deletes, for each selected range, from the beginning of the cursor's line to the upper end
/// of the range, or from its lower end to the end of the cursor's line.
pub proof fn kills_reach_the_line_ends(
    e: EditorView,
    c: Command,
    viewport: usize,
    search: Option<SearchState>,
    call: EngineCall,
    i: int,
)
    requires
        is_call(call, e, c, viewport, search),
        c is KillToLineStart || c is KillToLineEnd,
        e.current().text.len() <= usize::MAX,
        0 <= i < e.front().selection.ranges.len(),
        e.front().selection.ranges[i].head <= e.current().text.len(),
    ensures
        call is DeleteRanges,
        ({
            let text = e.current().text;
            let all = e.front().selection.ranges;
            let r = all[i];
            let k = call->DeleteRanges_ranges@;
            &&& k.ranges.len() == all.len()
            &&& k.primary_index == e.front().selection.primary_index
            &&& exists|a: int, b: int|
                {
                    &&& #[trigger] is_line(text, a, b)
                    &&& a <= r.head <= b
                    &&& c is KillToLineStart ==> k.ranges[i].anchor == a && k.ranges[i].head
                        >= r.anchor && k.ranges[i].head >= r.head && (k.ranges[i].head == r.anchor
                        || k.ranges[i].head == r.head)
                    &&& c is KillToLineEnd ==> k.ranges[i].head == b && k.ranges[i].anchor
                        <= r.anchor && k.ranges[i].anchor <= r.head && (k.ranges[i].anchor
                        == r.anchor || k.ranges[i].anchor == r.head)
                }
        }),
{
    let text = e.current().text;
    let r = e.front().selection.ranges[i];
    position_lies_in_its_line(text, r.head as int);
    assert(is_line(text, line_head(text, r.head as int), line_break(text, r.head as int)));
}

/// Movements are asked for as they are; by words, the engine is told where a word is to be reached.
/// In select mode a jump and a scroll carry the end of the selection along.
pub proof fn movements_are_asked_for(
    e: EditorView,
    c: Command,
    viewport: usize,
    search: Option<SearchState>,
    call: EngineCall,
)
    requires
        is_call(call, e, c, viewport, search),
        e.current().text.len() <= usize::MAX,
        viewport <= isize::MAX,
    ensures
        c matches Command::Move { movement, direction } ==> if movement == Movement::Word {
            call == (EngineCall::MoveWord {
                target: if direction == Direction::Forward {
                    WordMoveTarget::NextWordStart
                } else {
                    WordMoveTarget::PrevWordStart
                },
            })
        } else if movement == Movement::WordEnd {
            call == (EngineCall::MoveWord {
                target: if direction == Direction::Forward {
                    WordMoveTarget::NextWordEnd
                } else {
                    WordMoveTarget::PrevWordEnd
                },
            })
        } else {
            call == (EngineCall::Move { movement, direction })
        },
        c matches Command::Extend { movement, direction } ==> call == (EngineCall::Extend {
            movement,
            direction,
        }),
        c is SelectLine ==> call is SelectLine,
        c is ExtendLineBelow ==> call is ExtendLineBelow,
        c is Append ==> call is Append,
        c is InsertAtLineStart ==> call is LineFirstNonWhitespace,
        c is InsertAtLineEnd ==> (call matches EngineCall::Move { movement, .. } && movement
            == Movement::LineEnd),
        c is Close ==> call is Close,
        c matches Command::Goto { target } ==> if e.mode == Mode::Select {
            call matches EngineCall::ExtendTo { pos } && pos == if target
                == GotoTarget::DocumentStart {
                0
            } else {
                e.current().text.len()
            }
        } else {
            call is Nothing
        },
        c matches Command::ScrollHalf { direction } ==> if viewport < 2 {
            call is Nothing
        } else {
            call matches EngineCall::ScrollLines { delta, extend } && extend == (e.mode
                == Mode::Select) && (direction == Direction::Forward ==> 2 * delta <= viewport < 2 * (
            delta + 1)) && (direction == Direction::Backward ==> 2 * -delta <= viewport < 2 * (1
                - delta))
        },
{
}

/// A scroll goes the number of pages that was asked for, a million at most, each as high as the
/// screen, as far as the number of lines can be written down.
pub proof fn scroll_goes_whole_pages(
    e: EditorView,
    pages: isize,
    viewport: usize,
    search: Option<SearchState>,
    call: EngineCall,
)
    requires
        is_call(call, e, Command::Scroll { pages }, viewport, search),
    ensures
        pages == 0 || viewport == 0 ==> call is Nothing,
        pages != 0 && viewport > 0 ==> (call matches EngineCall::ScrollPages {
            pages: n,
            height,
            delta,
            extend,
        } && {
            &&& height == viewport
            &&& extend == (e.mode == Mode::Select)
            &&& -1_000_000 <= pages <= 1_000_000 ==> n == pages
            &&& pages > 1_000_000 ==> n == 1_000_000
            &&& pages < -1_000_000 ==> n == -1_000_000
            &&& isize::MIN <= n * viewport <= isize::MAX ==> delta == n * viewport
            &&& n * viewport > isize::MAX ==> delta == isize::MAX
            &&& n * viewport < isize::MIN ==> delta == isize::MIN
        }),
{
    let n = held_pages(pages) as int;
    let h = viewport as int;
    assert(n == 0 || h == 0 ==> n * h == 0) by (nonlinear_arith);
    assert(n != 0 && h > 0 ==> n * h != 0) by (nonlinear_arith);
}

/// Commands that neither write, move, search nor close ask the engine for nothing.
pub proof fn other_commands_ask_for_nothing(
    e: EditorView,
    c: Command,
    viewport: usize,
    search: Option<SearchState>,
    call: EngineCall,
)
    requires
        is_call(call, e, c, viewport, search),
        c is SelectAll || c is SetMode || c is SetViewport || c is GetState || c is WaitFor || c is Open
            || c is Save,
    ensures
        call is Nothing,
{
}

/// An edit is taken over as the engine gives it: the document in the client's pane has the text, the
/// pane the selection, every other document stays, and it is a change.
pub proof fn edit_is_taken_over(d: Daemon, c: Command, conn_id: u64, reply: EngineReply)
    requires
        d.wf(),
        preempts(c),
        !too_large(started(d, c, conn_id), c),
        c matches Command::Replace { text } ==> text@.len() > 0,
        reply matches EngineReply::Edited(r) && r.selection@.ok(),
    ensures
        ({
            let r = reply->Edited_0;
            let o = outcome(d, c, conn_id, reply);
            let before = d.editor@.focus(view_of(d, conn_id).view_id);
            let now = o.editor;
            &&& now.focused == view_of(d, conn_id).view_id
            &&& now.front().selection == r.selection@
            &&& now.front().doc == before.front().doc
            &&& now.front().first_line == before.front().first_line
            &&& !r.noop ==> o.changed && now.current().text == r.text@ && now.current().dirty
                == r.dirty && now.current().can_undo == r.can_undo && now.current().can_redo
                == r.can_redo && now.current().path == before.current().path && now.current().id
                == before.current().id
            &&& r.noop ==> now.documents == before.documents
            &&& now.documents.len() == before.documents.len()
            &&& forall|i: int|
                0 <= i < before.documents.len() && (#[trigger] before.documents[i]).id
                    != before.front().doc ==> now.documents[i] == before.documents[i]
            &&& o.scroll
            &&& o.status is None
            &&& o.search == search_view(d.last_search)
        }),
{
    let e = started(d, c, conn_id);
    let r = reply->Edited_0;
    view_has_pane(d, conn_id);
    front_ok(e);
    edited_keeps(e, r);
    with_doc_ok(e, e.front().doc, r.text@, r.dirty, r.can_undo, r.can_redo);
    doc_from_bounds(e.documents, e.front().doc, 0);
    pane_from_bounds(e.panes, e.focused, 0);
    let n = edited(e, r);
    pane_from_same(n.panes, e.panes, e.focused, 0);
    doc_from_same(n.documents, e.documents, e.front().doc, 0);
}

/// An engine that makes no edit has changed no document and moved no cursor. A pair that is not there
/// is reported.
pub proof fn without_an_edit_nothing_is_taken_over(
    d: Daemon,
    c: Command,
    conn_id: u64,
    reply: EngineReply,
)
    requires
        d.wf(),
        preempts(c),
        !(reply is Edited),
    ensures
        ({
            let o = outcome(d, c, conn_id, reply);
            &&& o.editor.documents == d.editor@.documents
            &&& o.editor.panes == d.editor@.panes
            &&& c is SurroundDelete || c is SurroundReplace ==> o.status == Some(
                "surround pair not found"@,
            )
            &&& !(c is SurroundDelete || c is SurroundReplace) && !too_large(
                started(d, c, conn_id),
                c,
            ) ==> o.status is None
            &&& too_large(started(d, c, conn_id), c) ==> o.status == Some(
                "file too large: insert rejected"@,
            )
        }),
{
}

/// A movement places the client's pane where the engine says; nothing else changes.
pub proof fn movement_is_taken_over(d: Daemon, c: Command, conn_id: u64, reply: EngineReply)
    requires
        d.wf(),
        c is Move || c is Extend || c is SelectLine || c is ExtendLineBelow || c is Append || c
            is InsertAtLineEnd || c is InsertAtLineStart || (c matches Command::ScrollHalf { .. }
            && view_of(d, conn_id).viewport >= 2) || (c matches Command::Scroll { pages } && pages
            != 0 && view_of(d, conn_id).viewport > 0) || (c is Goto && d.editor@.mode
            == Mode::Select),
        reply matches EngineReply::Moved { selection, .. } && selection@.ok(),
    ensures
        ({
            let o = outcome(d, c, conn_id, reply);
            &&& o.editor.front().selection == reply->Moved_selection@
            &&& o.editor.front().first_line == reply->Moved_first_line
            &&& o.editor.front().doc == d.editor@.focus(view_of(d, conn_id).view_id).front().doc
            &&& o.editor.focused == view_of(d, conn_id).view_id
            &&& o.editor.documents == d.editor@.documents
            &&& o.scroll
            &&& o.status is None
        }),
{
    if c is Scroll {
        let n = held_pages(c->pages) as int;
        let h = view_of(d, conn_id).viewport as int;
        assert(n != 0 && h > 0 ==> n * h != 0) by (nonlinear_arith);
    }
    let e = started(d, c, conn_id);
    view_has_pane(d, conn_id);
    pane_from_bounds(e.panes, e.focused, 0);
    placed_ok(e, e.focused, reply->Moved_selection@, reply->Moved_first_line);
}

/// All of a text is selected from its start to its end, and a jump outside of select mode puts one
/// cursor at the start or the end of the text.
pub proof fn jumps_reach_the_ends(d: Daemon, c: Command, conn_id: u64, reply: EngineReply)
    requires
        d.wf(),
        c is SelectAll || (c is Goto && d.editor@.mode != Mode::Select),
        d.editor@.focus(view_of(d, conn_id).view_id).current().text.len() <= usize::MAX,
    ensures
        ({
            let o = outcome(d, c, conn_id, reply);
            let n = d.editor@.focus(view_of(d, conn_id).view_id).current().text.len();
            let s = o.editor.front().selection.ranges;
            &&& s.len() == 1
            &&& c is SelectAll ==> s[0].anchor == 0 && s[0].head == n
            &&& c matches Command::Goto { target } ==> s[0].anchor == s[0].head && s[0].head
                == if target == GotoTarget::DocumentStart {
                0
            } else {
                n
            }
            &&& o.editor.documents == d.editor@.documents
        }),
{
    let e = started(d, c, conn_id);
    view_has_pane(d, conn_id);
    selected_in_front(e);
}

/// Which mode a command leads to. Insert mode is entered by the commands that begin to insert; a
/// selection that was deleted or surrounded ends select mode; a mode is entered as it is asked for;
/// a session that had to be closed leads to normal mode; and every other command keeps the mode.
pub proof fn commands_lead_to_modes(d: Daemon, c: Command, conn_id: u64, reply: EngineReply)
    requires
        d.wf(),
        !(c is Close),
    ensures
        ({
            let m = outcome(d, c, conn_id, reply).editor.mode;
            let closed = foreign_session(d, conn_id) && preempts(c) && !too_large(
                started(d, c, conn_id),
                c,
            );
            &&& c is Change || c is OpenBelow || c is OpenAbove || c is Append || c
                is InsertAtLineStart || c is InsertAtLineEnd ==> m == Mode::Insert
            &&& c matches Command::SetMode { mode } ==> m == mode
            &&& (c is DeleteRange || c is SurroundAdd || ((c is SurroundDelete || c
                is SurroundReplace) && reply is Edited)) && d.editor@.mode == Mode::Select ==> m
                == Mode::Normal
            &&& (c is Insert || c is DeleteBackward || c is DeleteForward || c is DeleteWordBackward
                || c is DeleteWordForward || c is Replace || c is KillToLineStart || c
                is KillToLineEnd || c is Undo || c is Redo) ==> m == if closed {
                Mode::Normal
            } else {
                d.editor@.mode
            }
            &&& (c is Move || c is Extend || c is SelectLine || c is ExtendLineBelow || c
                is SelectAll || c is Search || c is SearchNext || c is SearchSelection || c is Goto
                || c is Scroll || c is ScrollHalf || c is SetViewport) ==> m == d.editor@.mode
        }),
{
}

/// Who owns the insert session after a command, and what becomes of the group of edits: whoever begins
/// to insert owns the session, in a group that was begun for them or that was theirs already; one who
/// leaves insert mode ends it; and no other command hands a session on.
pub proof fn sessions_are_handed_on(d: Daemon, c: Command, conn_id: u64, reply: EngineReply)
    requires
        d.wf(),
        !(c is Close),
    ensures
        ({
            let o = outcome(d, c, conn_id, reply);
            let begins = c is Change || c is OpenBelow || c is OpenAbove || c is Append || c
                is InsertAtLineStart || c is InsertAtLineEnd || (c matches Command::SetMode { mode }
                && mode == Mode::Insert);
            let ends = c matches Command::SetMode { mode } && mode != Mode::Insert;
            let taken = foreign_session(d, conn_id) && preempts(c) && !too_large(
                started(d, c, conn_id),
                c,
            );
            &&& begins ==> o.owner == Some(conn_id) && o.editor.group_open
            &&& ends ==> o.owner is None && !o.editor.group_open
            &&& !begins && !ends ==> o.owner == if taken {
                None
            } else {
                d.insert_owner
            }
            &&& ends && d.insert_owner is Some ==> o.group == GroupChange::End && o.changed
            &&& ends && d.insert_owner is None ==> o.group == GroupChange::Keep
            &&& begins && !preempts(c) && d.insert_owner is None ==> o.group == GroupChange::Begin
            &&& begins && !preempts(c) && d.insert_owner == Some(conn_id) ==> o.group
                == GroupChange::Keep
            &&& begins && !preempts(c) && foreign_session(d, conn_id) ==> o.group
                == GroupChange::Restart
            &&& !begins && !ends ==> o.group == GroupChange::Keep
        }),
{
}

/// What counts as a change. An edit that did something does, an undo or a redo where there was
/// something to undo or redo, a mode that is another than before, and a search that selected a match.
/// Moving about does not.
pub proof fn what_counts_as_a_change(d: Daemon, c: Command, conn_id: u64, reply: EngineReply)
    requires
        d.wf(),
        !(c is Close),
    ensures
        ({
            let o = outcome(d, c, conn_id, reply);
            let e = started(d, c, conn_id);
            &&& o.editor.mode != d.editor@.mode ==> o.changed
            &&& c is Move || c is Extend || c is SelectLine || c is ExtendLineBelow || c is SelectAll
                || c is Goto || c is Scroll || c is ScrollHalf || c is SetViewport ==> !o.changed
            &&& c is Insert || c is DeleteBackward || c is DeleteForward || c is DeleteWordBackward
                || c is DeleteWordForward || c is KillToLineStart || c is KillToLineEnd || c
                is Replace ==> (o.changed && !did_edit(reply) ==> o.mode_only)
            &&& c is Undo && e.current().can_undo ==> o.changed && !o.mode_only
            &&& c is Redo && e.current().can_redo ==> o.changed && !o.mode_only
            &&& c is Undo && !e.current().can_undo && !did_edit(reply) ==> (o.changed
                <==> o.mode_only)
            &&& c is Redo && !e.current().can_redo && !did_edit(reply) ==> (o.changed
                <==> o.mode_only)
            &&& o.mode_only ==> o.changed && o.editor.mode != d.editor@.mode
            &&& (c is Append || c is InsertAtLineStart || c is InsertAtLineEnd || c is SetMode) ==> (
            o.changed <==> o.editor.mode != d.editor@.mode)
            &&& c is Search || c is SearchNext || c is SearchSelection ==> (o.changed
                <==> o.status is None)
        }),
{
}

/// Only searches change what the last search was.
pub proof fn only_searches_are_remembered(d: Daemon, c: Command, conn_id: u64, reply: EngineReply)
    requires
        !(c is Search || c is SearchNext || c is SearchSelection),
    ensures
        outcome(d, c, conn_id, reply).search == search_view(d.last_search),
{
}

/// A document that is closed leaves what the engine has arranged; one that is not closed leaves all
/// as it is.
pub proof fn closing_leaves_the_rest(d: Daemon, conn_id: u64, reply: EngineReply)
    requires
        d.wf(),
    ensures
        ({
            let o = outcome(d, Command::Close, conn_id, reply);
            match reply {
                EngineReply::Arranged(Some(a)) => {
                    &&& o.changed
                    &&& o.editor.documents.len() == a.documents@.len()
                    &&& o.editor.panes.len() == a.panes@.len()
                    &&& forall|i: int|
                        0 <= i < a.documents@.len() ==> #[trigger] o.editor.documents[i]
                            == a.documents@[i]@
                    &&& forall|i: int|
                        0 <= i < a.panes@.len() ==> #[trigger] o.editor.panes[i] == a.panes@[i]@
                    &&& o.editor.mode == d.editor@.mode
                },
                _ => !o.changed && o.editor.documents == d.editor@.documents && o.editor.panes
                    == d.editor@.panes,
            }
        }),
{
}

} // verus!
