//! Editing commands: what the text engine is asked for, and what its answer does to the state.
//!
//! A command is carried out in two steps. [`Daemon::begin_command`] turns to the client's pane,
//! closes an insert session if the command has to, and names the engine call. [`Daemon::apply_from`]
//! takes the engine's answer. A search for the selection has one step more: the word under the
//! cursor comes first, and [`Daemon::after_word`] then names the search.
use vstd::prelude::*;
use vstd::utf8::*;

use crate::clients::{foreign_session, panes_ok_same_ids, session_closed, view_of, GroupChange};
use crate::daemon::{ClientView, Daemon, SearchState, MAX_VIEWPORT_HEIGHT};
use crate::editor::{
    front_ok, one_range, opt_view, pane_from_bounds, path_from, path_from_bounds, placed_ok, with_doc_ok,
    DocView, Document, Editor, EditorView, Pane, Selection, SelectionView,
};
use crate::paths::deep;
use crate::strings::{chars_of, has_upper, has_upper_case, joined, text_of, trim, trimmed};
use crate::table::kept;
use crate::text::{clamped, line_break, line_end_of, line_head, line_start_of};
use crate::types::{Command, Direction, GotoTarget, Mode, Movement, Range, ServerMetrics};

verus! {

/// The greatest size of a document, in bytes.
pub const MAX_FILE_SIZE: u64 = 16 * 1024 * 1024;

/// The greatest number of pages that one command scrolls.
pub const MAX_SCROLL_PAGES: isize = 1_000_000;

/// Where a movement by words ends.
#[derive(Clone, Copy, Debug, PartialEq, Eq, Structural)]
pub enum WordMoveTarget {
    NextWordStart,
    PrevWordStart,
    NextWordEnd,
    PrevWordEnd,
}

/// What the text engine is asked for, on the focused pane's document and selection.
///
/// `after` says on which side of what an edit puts in the ends of the selection stand. `OpenLine`
/// puts a character in where a movement from the selection leads. `exact` says whether a search
/// tells upper and lower case apart.
#[allow(inconsistent_fields)]
#[derive(Debug, PartialEq, Eq)]
pub enum EngineCall {
    Nothing,
    Insert { text: String, after: bool },
    DeleteBackward { after: bool },
    DeleteForward { after: bool },
    DeleteWordBackward { after: bool },
    DeleteWordForward { after: bool },
    DeleteSelection { after: bool },
    DeleteRanges { ranges: Selection, after: bool },
    Replace { text: String, after: bool },
    SurroundAdd { ch: char },
    SurroundDelete { ch: char },
    SurroundReplace { from: char, to: char },
    OpenLine { movement: Movement, direction: Direction, ch: char, after: bool },
    Undo,
    Redo,
    Move { movement: Movement, direction: Direction },
    MoveWord { target: WordMoveTarget },
    Extend { movement: Movement, direction: Direction },
    SelectLine,
    ExtendLineBelow,
    Append,
    LineFirstNonWhitespace,
    ExtendTo { pos: usize },
    ScrollPages { pages: isize, height: usize, delta: isize, extend: bool },
    ScrollLines { delta: isize, extend: bool },
    Find { query: String, exact: bool, direction: Direction, from: usize, wrap_from: usize },
    WordAt { at: usize },
    FindAll { query: String, exact: bool, word: Option<Range> },
    Close,
}

/// How a search for the selection goes on, once the word under the cursor is known.
pub enum AfterWord {
    Ask(EngineCall),
    Answer(EngineReply),
}

/// What an edit made of the document and of the pane's selection. An edit that did nothing is a
/// `noop`; it leaves the document as it is.
pub struct EditReply {
    pub noop: bool,
    pub text: String,
    pub dirty: bool,
    pub can_undo: bool,
    pub can_redo: bool,
    pub selection: Selection,
}

/// The documents and the panes after a document was closed or another one shown.
pub struct Arrangement {
    pub documents: Vec<Document>,
    pub panes: Vec<Pane>,
}

/// The text engine's answer.
pub enum EngineReply {
    Nothing,
    NoPair,
    Edited(EditReply),
    Moved { selection: Selection, first_line: usize },
    Found { near: Option<Range>, wrapped: Option<Range> },
    Word(Option<Range>),
    Matches { word: Option<Range>, matches: Option<Selection> },
    Arranged(Option<Arrangement>),
}

/// What a command did. `changed` says whether the shared state did change, and `mode_only` whether
/// the mode alone did: an insert session or select mode ended and nothing else came of it.
/// `preempted` and `group` say what the undo history has to do, before the edit and after it.
/// `scroll` says whether the pane has to follow its cursor.
pub struct Applied {
    pub changed: bool,
    pub mode_only: bool,
    pub status: Option<String>,
    pub preempted: bool,
    pub group: GroupChange,
    pub scroll: bool,
}

/// The first step of a command. `preempted` says whether an insert session was closed, and `own`
/// whether it was the client's own.
pub struct Begin {
    pub rejected: bool,
    pub preempted: bool,
    pub own: bool,
    pub call: EngineCall,
}

/// Whether a selection in an answer has a primary range, and an arrangement fits the panes.
pub open spec fn reply_ok(e: EditorView, reply: EngineReply) -> bool {
    match reply {
        EngineReply::Edited(r) => r.selection@.ok(),
        EngineReply::Moved { selection, .. } => selection@.ok(),
        EngineReply::Matches { matches, .. } => matches matches Some(m) ==> m@.ok(),
        EngineReply::Arranged(Some(a)) => arrangement_fits(e, a),
        _ => true,
    }
}

/// The state in another arrangement.
pub open spec fn arranged(e: EditorView, a: Arrangement) -> EditorView {
    EditorView {
        documents: a.documents@.map_values(|d: Document| d@),
        panes: a.panes@.map_values(|p: Pane| p@),
        ..e
    }
}

/// Whether an arrangement has the same panes and is consistent.
pub open spec fn arrangement_fits(e: EditorView, a: Arrangement) -> bool {
    &&& arranged(e, a).ok()
    &&& a.panes@.len() == e.panes.len()
    &&& forall|i: int| 0 <= i < e.panes.len() ==> (#[trigger] e.panes[i]).id == arranged(
        e,
        a,
    ).panes[i].id
}

/// Whether a command writes to the document, and so closes a foreign insert session.
pub open spec fn preempts(c: Command) -> bool {
    match c {
        Command::Insert { .. } | Command::DeleteBackward | Command::DeleteForward
        | Command::DeleteWordBackward | Command::DeleteWordForward | Command::DeleteRange
        | Command::Change | Command::Replace { .. } | Command::SurroundAdd { .. }
        | Command::SurroundDelete { .. } | Command::SurroundReplace { .. }
        | Command::KillToLineStart | Command::KillToLineEnd | Command::OpenBelow
        | Command::OpenAbove | Command::Undo | Command::Redo => true,
        _ => false,
    }
}

/// Whether an insertion would make the document too large.
pub open spec fn too_large(e: EditorView, c: Command) -> bool {
    c matches Command::Insert { text } && encode_utf8(e.current().text).len() + encode_utf8(
        text@,
    ).len() > MAX_FILE_SIZE
}

/// Whether a command edits the text and then begins to insert: it opens a line, or changes what is
/// selected.
pub open spec fn edits_first(c: Command) -> bool {
    c is OpenBelow || c is OpenAbove || c is Change
}

/// Whether a command first closes the open insert session: another client's if the command writes,
/// and the client's own too if it edits first, since that edit is in no group of edits.
pub open spec fn closes_session(d: Daemon, c: Command, conn_id: u64) -> bool {
    &&& preempts(c)
    &&& !too_large(d.editor@.focus(view_of(d, conn_id).view_id), c)
    &&& foreign_session(d, conn_id) || (edits_first(c) && d.insert_owner is Some)
}

/// The editing state that a command starts from: the client's pane has the focus, and an insert
/// session is closed if the command has to.
pub open spec fn started(d: Daemon, c: Command, conn_id: u64) -> EditorView {
    let e = d.editor@.focus(view_of(d, conn_id).view_id);
    if closes_session(d, c, conn_id) {
        session_closed(e, Mode::Normal)
    } else {
        e
    }
}

/// The product of pages and lines, held within the range of the type.
pub open spec fn saturated(pages: int, height: int) -> int {
    let p = pages * height;
    if p > isize::MAX {
        isize::MAX as int
    } else if p < isize::MIN {
        isize::MIN as int
    } else {
        p
    }
}

/// The number of pages that are scrolled when `pages` are asked for.
pub open spec fn held_pages(pages: isize) -> isize {
    if pages < -MAX_SCROLL_PAGES {
        (-MAX_SCROLL_PAGES) as isize
    } else if pages > MAX_SCROLL_PAGES {
        MAX_SCROLL_PAGES
    } else {
        pages
    }
}

/// Where a search starts over when it has reached the end: at the start, or at the end going back.
pub open spec fn wrap_start(direction: Direction, len: int) -> int {
    match direction {
        Direction::Forward => 0,
        Direction::Backward => len,
    }
}

/// The ranges from the beginnings of the lines that hold the cursors to the ends of the selected
/// ranges.
pub open spec fn to_line_starts(text: Seq<char>, s: SelectionView) -> SelectionView {
    SelectionView {
        ranges: s.ranges.map_values(
            |r: Range|
                Range {
                    anchor: line_head(text, clamped(text, r.head as int)) as usize,
                    head: r.hi(),
                },
        ),
        primary_index: s.primary_index,
    }
}

/// The ranges from the starts of the selected ranges to the ends of the lines that hold the cursors.
pub open spec fn to_line_ends(text: Seq<char>, s: SelectionView) -> SelectionView {
    SelectionView {
        ranges: s.ranges.map_values(
            |r: Range|
                Range { anchor: r.lo(), head: line_break(text, r.head as int) as usize },
        ),
        primary_index: s.primary_index,
    }
}

/// Whether a call is what the text engine is asked for a command, in the state that the command
/// starts from.
pub open spec fn is_call(
    r: EngineCall,
    e: EditorView,
    c: Command,
    viewport: usize,
    search: Option<SearchState>,
) -> bool {
    match c {
        Command::KillToLineStart => r matches EngineCall::DeleteRanges { ranges, after } && !after
            && ranges@ == to_line_starts(e.current().text, e.front().selection),
        Command::KillToLineEnd => r matches EngineCall::DeleteRanges { ranges, after } && !after
            && ranges@ == to_line_ends(e.current().text, e.front().selection),
        _ => r == call_for(e, c, viewport, search),
    }
}

/// What the text engine is asked for a command other than a kill, in the state that the command
/// starts from.
pub open spec fn call_for(
    e: EditorView,
    c: Command,
    viewport: usize,
    search: Option<SearchState>,
) -> EngineCall {
    let len = e.current().text.len();
    let select = e.mode == Mode::Select;
    match c {
        Command::Insert { text } => if too_large(e, c) {
            EngineCall::Nothing
        } else {
            EngineCall::Insert { text, after: true }
        },
        Command::DeleteBackward => EngineCall::DeleteBackward { after: false },
        Command::DeleteForward => EngineCall::DeleteForward { after: false },
        Command::DeleteWordBackward => EngineCall::DeleteWordBackward { after: false },
        Command::DeleteWordForward => EngineCall::DeleteWordForward { after: false },
        Command::DeleteRange | Command::Change => EngineCall::DeleteSelection { after: false },
        Command::Replace { text } => if text@.len() == 0 {
            EngineCall::Nothing
        } else {
            EngineCall::Replace { text, after: true }
        },
        Command::SurroundAdd { ch } => EngineCall::SurroundAdd { ch },
        Command::SurroundDelete { ch } => EngineCall::SurroundDelete { ch },
        Command::SurroundReplace { from, to } => EngineCall::SurroundReplace { from, to },
        Command::OpenBelow => EngineCall::OpenLine {
            movement: Movement::LineEnd,
            direction: Direction::Forward,
            ch: '\n',
            after: true,
        },
        Command::OpenAbove => EngineCall::OpenLine {
            movement: Movement::LineStart,
            direction: Direction::Forward,
            ch: '\n',
            after: false,
        },
        Command::Undo => EngineCall::Undo,
        Command::Redo => EngineCall::Redo,
        Command::Move { movement, direction } => match (movement, direction) {
            (Movement::Word, Direction::Forward) => EngineCall::MoveWord {
                target: WordMoveTarget::NextWordStart,
            },
            (Movement::Word, Direction::Backward) => EngineCall::MoveWord {
                target: WordMoveTarget::PrevWordStart,
            },
            (Movement::WordEnd, Direction::Forward) => EngineCall::MoveWord {
                target: WordMoveTarget::NextWordEnd,
            },
            (Movement::WordEnd, Direction::Backward) => EngineCall::MoveWord {
                target: WordMoveTarget::PrevWordEnd,
            },
            _ => EngineCall::Move { movement, direction },
        },
        Command::Extend { movement, direction } => EngineCall::Extend { movement, direction },
        Command::SelectLine => EngineCall::SelectLine,
        Command::ExtendLineBelow => EngineCall::ExtendLineBelow,
        Command::Append => EngineCall::Append,
        Command::InsertAtLineEnd => EngineCall::Move {
            movement: Movement::LineEnd,
            direction: Direction::Forward,
        },
        Command::InsertAtLineStart => EngineCall::LineFirstNonWhitespace,
        Command::Goto { target } => if select {
            EngineCall::ExtendTo {
                pos: match target {
                    GotoTarget::DocumentStart => 0,
                    GotoTarget::DocumentEnd => len as usize,
                },
            }
        } else {
            EngineCall::Nothing
        },
        Command::Scroll { pages } => {
            let delta = saturated(held_pages(pages) as int, viewport as int) as isize;
            if delta == 0 {
                EngineCall::Nothing
            } else {
                EngineCall::ScrollPages {
                    pages: held_pages(pages),
                    height: viewport,
                    delta,
                    extend: select,
                }
            }
        },
        Command::ScrollHalf { direction } => if viewport < 2 {
            EngineCall::Nothing
        } else {
            EngineCall::ScrollLines {
                delta: match direction {
                    Direction::Forward => (viewport / 2) as isize,
                    Direction::Backward => (-((viewport / 2) as int)) as isize,
                },
                extend: select,
            }
        },
        Command::Search { query, direction } => if query@.len() == 0 {
            EngineCall::Nothing
        } else {
            EngineCall::Find {
                query,
                exact: has_upper(query@),
                direction,
                from: e.front().selection.primary().head,
                wrap_from: wrap_start(direction, len as int) as usize,
            }
        },
        Command::SearchNext { direction } => match search {
            Some(s) => EngineCall::Find {
                query: s.query,
                exact: has_upper(s.query@),
                direction,
                from: match direction {
                    Direction::Forward => s.found_end,
                    Direction::Backward => if s.found_start > 0 {
                        (s.found_start - 1) as usize
                    } else {
                        0
                    },
                },
                wrap_from: wrap_start(direction, len as int) as usize,
            },
            None => EngineCall::Nothing,
        },
        Command::SearchSelection => EngineCall::WordAt { at: e.front().selection.primary().head },
        Command::Close => EngineCall::Close,
        _ => EngineCall::Nothing,
    }
}

/// The state after an edit.
pub open spec fn edited(e: EditorView, r: EditReply) -> EditorView {
    let n = if r.noop {
        e
    } else {
        e.with_doc(e.front().doc, r.text@, r.dirty, r.can_undo, r.can_redo)
    };
    n.select(r.selection@)
}

/// The state after the engine's answer to an edit; without an edit in the answer nothing changes.
pub open spec fn after_edit(e: EditorView, reply: EngineReply) -> EditorView {
    match reply {
        EngineReply::Edited(r) => edited(e, r),
        _ => e,
    }
}

/// Whether the engine's answer holds an edit that did something.
pub open spec fn did_edit(reply: EngineReply) -> bool {
    reply matches EngineReply::Edited(r) && !r.noop
}

/// The state after the engine's answer to a movement.
pub open spec fn after_move(e: EditorView, reply: EngineReply) -> EditorView {
    match reply {
        EngineReply::Moved { selection, first_line } => e.placed(
            e.focused,
            selection@,
            first_line,
        ),
        _ => e,
    }
}

/// The state after select mode is left, if it is on.
pub open spec fn out_of_select(e: EditorView) -> EditorView {
    if e.mode == Mode::Select {
        e.in_mode(Mode::Normal)
    } else {
        e
    }
}

/// The last search by its values.
#[verifier::ext_equal]
pub struct SearchView {
    pub query: Seq<char>,
    pub found_start: usize,
    pub found_end: usize,
}

/// An optional search by its values.
pub open spec fn search_view(s: Option<SearchState>) -> Option<SearchView> {
    match s {
        Some(s) => Some(
            SearchView {
                query: s.query@,
                found_start: s.found_start,
                found_end: s.found_end,
            },
        ),
        None => None,
    }
}

/// A match other than the one that was found last.
pub open spec fn other_match(r: Option<Range>, s: SearchState) -> Option<Range> {
    match r {
        Some(r) => if r.lo() != s.found_start || r.hi() != s.found_end {
            Some(r)
        } else {
            None
        },
        None => None,
    }
}

/// The first of two matches that is there.
pub open spec fn either(a: Option<Range>, b: Option<Range>) -> Option<Range> {
    match a {
        Some(r) => Some(r),
        None => b,
    }
}

/// What a search found in the engine's answer: near the cursor, or else from the other end.
pub open spec fn search_hit(reply: EngineReply) -> Option<Range> {
    match reply {
        EngineReply::Found { near, wrapped } => either(near, wrapped),
        _ => None,
    }
}

/// What a repeated search found: going on, or else from the other end, but not the same match
/// again. Going on forward starts behind the match, so only the second part can find it again.
pub open spec fn next_hit(s: SearchState, direction: Direction, reply: EngineReply) -> Option<Range> {
    match reply {
        EngineReply::Found { near, wrapped } => match direction {
            Direction::Forward => either(near, other_match(wrapped, s)),
            Direction::Backward => either(other_match(near, s), other_match(wrapped, s)),
        },
        _ => None,
    }
}

/// The text that a search for the selection looks for: the selected text, or the word under the
/// cursor, without white space at its ends. Nothing if there is no word or nothing is left.
pub open spec fn selection_target(e: EditorView, word: Option<Range>) -> Option<Seq<char>> {
    let text = e.current().text;
    let r = e.front().selection.primary();
    if r.anchor == r.head {
        match word {
            Some(w) => Some(trimmed(slice_within(text, w.lo() as int, w.hi() as int))),
            None => None,
        }
    } else {
        Some(trimmed(slice_within(text, r.lo() as int, r.hi() as int)))
    }
}

/// The characters `lo..hi` of `s`, as far as there are any.
pub open spec fn slice_within(s: Seq<char>, lo: int, hi: int) -> Seq<char> {
    let a = if lo <= s.len() {
        lo
    } else {
        s.len() as int
    };
    let b = if hi <= s.len() {
        hi
    } else {
        s.len() as int
    };
    s.subrange(a, if a <= b {
        b
    } else {
        a
    })
}

/// All that a command does to the editing state and what it reports.
#[verifier::ext_equal]
pub struct Outcome {
    pub editor: EditorView,
    pub owner: Option<u64>,
    pub search: Option<SearchView>,
    pub changed: bool,
    pub mode_only: bool,
    pub status: Option<Seq<char>>,
    pub group: GroupChange,
    pub scroll: bool,
}

/// The outcome of a command that leaves the editing state as `e`.
pub open spec fn rests(e: EditorView, owner: Option<u64>, search: Option<SearchView>) -> Outcome {
    Outcome {
        editor: e,
        owner,
        search,
        changed: false,
        mode_only: false,
        status: None,
        group: GroupChange::Keep,
        scroll: false,
    }
}

/// The outcome of a found or missed match. A missed one leaves the last search as it was.
pub open spec fn search_outcome(
    o: Outcome,
    hit: Option<Range>,
    query: Seq<char>,
    notice: Seq<char>,
) -> Outcome {
    match hit {
        Some(r) => Outcome {
            editor: o.editor.select(one_range(r.lo(), r.hi())),
            search: Some(SearchView { query, found_start: r.lo(), found_end: r.hi() }),
            changed: true,
            ..o
        },
        None => Outcome { status: Some(notice), ..o },
    }
}

/// The outcome of entering insert mode in state `e`.
pub open spec fn inserting(o: Outcome, conn_id: u64) -> Outcome {
    Outcome {
        editor: o.editor.with_group(true).in_mode(Mode::Insert),
        owner: Some(conn_id),
        group: if o.editor.mode != Mode::Insert {
            GroupChange::Begin
        } else if o.owner == Some(conn_id) {
            GroupChange::Keep
        } else {
            GroupChange::Restart
        },
        ..o
    }
}

/// The outcome of a command, given the engine's answer. A command that ends a mode has changed the
/// state, though nothing else came of it.
pub open spec fn outcome(d: Daemon, c: Command, conn_id: u64, reply: EngineReply) -> Outcome {
    let o = effect(d, c, conn_id, reply);
    let moved = o.editor.mode != d.editor@.mode;
    Outcome { changed: o.changed || moved, mode_only: !o.changed && moved, ..o }
}

/// What a command does by itself, given the engine's answer.
pub open spec fn effect(d: Daemon, c: Command, conn_id: u64, reply: EngineReply) -> Outcome {
    let e = started(d, c, conn_id);
    let owner = if closes_session(d, c, conn_id) {
        None
    } else {
        d.insert_owner
    };
    let rest = rests(e, owner, search_view(d.last_search));
    let follow = Outcome { scroll: true, ..rest };
    match c {
        Command::Insert { .. } => if too_large(e, c) {
            Outcome { status: Some("file too large: insert rejected"@), ..rest }
        } else {
            Outcome { editor: after_edit(e, reply), changed: did_edit(reply), ..follow }
        },
        Command::DeleteBackward | Command::DeleteForward | Command::DeleteWordBackward
        | Command::DeleteWordForward | Command::KillToLineStart | Command::KillToLineEnd =>
            Outcome { editor: after_edit(e, reply), changed: did_edit(reply), ..follow },
        Command::Replace { text } => if text@.len() == 0 {
            rest
        } else {
            Outcome { editor: after_edit(e, reply), changed: did_edit(reply), ..follow }
        },
        Command::DeleteRange | Command::SurroundAdd { .. } => Outcome {
            editor: out_of_select(after_edit(e, reply)),
            changed: did_edit(reply),
            ..follow
        },
        Command::SurroundDelete { .. } | Command::SurroundReplace { .. } => match reply {
            EngineReply::Edited(_) => Outcome {
                editor: out_of_select(after_edit(e, reply)),
                changed: did_edit(reply),
                ..follow
            },
            _ => Outcome { status: Some("surround pair not found"@), ..rest },
        },
        Command::Change | Command::OpenBelow | Command::OpenAbove => Outcome {
            changed: did_edit(reply) || d.insert_owner != Some(conn_id),
            ..inserting(Outcome { editor: after_edit(e, reply), ..follow }, conn_id)
        },
        Command::InsertAtLineEnd | Command::InsertAtLineStart | Command::Append => Outcome {
            changed: e.mode != Mode::Insert,
            ..inserting(Outcome { editor: after_move(e, reply), ..follow }, conn_id)
        },
        Command::Undo => Outcome {
            editor: after_edit(e, reply),
            changed: e.current().can_undo || did_edit(reply),
            ..follow
        },
        Command::Redo => Outcome {
            editor: after_edit(e, reply),
            changed: e.current().can_redo || did_edit(reply),
            ..follow
        },
        Command::Move { .. } | Command::Extend { .. } | Command::SelectLine
        | Command::ExtendLineBelow => Outcome { editor: after_move(e, reply), ..follow },
        Command::Scroll { .. } | Command::ScrollHalf { .. } => if call_for(
            e,
            c,
            view_of(d, conn_id).viewport,
            d.last_search,
        ) is Nothing {
            follow
        } else {
            Outcome { editor: after_move(e, reply), ..follow }
        },
        Command::SelectAll => Outcome {
            editor: e.select(one_range(0, e.current().text.len() as usize)),
            ..follow
        },
        Command::Goto { target } => if e.mode == Mode::Select {
            Outcome { editor: after_move(e, reply), ..follow }
        } else {
            let pos = match target {
                GotoTarget::DocumentStart => 0,
                GotoTarget::DocumentEnd => e.current().text.len() as usize,
            };
            Outcome { editor: e.select(one_range(pos, pos)), ..follow }
        },
        Command::Search { query, .. } => if query@.len() == 0 {
            Outcome { status: Some("empty search"@), ..follow }
        } else {
            search_outcome(follow, search_hit(reply), query@, "no match: "@ + query@)
        },
        Command::SearchNext { direction } => match d.last_search {
            None => Outcome { status: Some("no previous search"@), ..follow },
            Some(s) => search_outcome(
                follow,
                next_hit(s, direction, reply),
                s.query@,
                "no more matches: "@ + s.query@,
            ),
        },
        Command::SearchSelection => match reply {
            EngineReply::Matches { word, matches } => match selection_target(e, word) {
                None => Outcome { status: Some("no word under cursor"@), ..follow },
                Some(q) => if q.len() == 0 {
                    Outcome { status: Some("no selection to search"@), ..follow }
                } else {
                    match matches {
                        Some(m) => Outcome {
                            editor: e.select(m@),
                            search: Some(
                                SearchView {
                                    query: q,
                                    found_start: m@.primary().lo(),
                                    found_end: m@.primary().hi(),
                                },
                            ),
                            changed: true,
                            ..follow
                        },
                        None => Outcome { status: Some("no match: "@ + q), ..follow },
                    }
                },
            },
            _ => Outcome { status: Some("no word under cursor"@), ..follow },
        },
        Command::SetMode { mode } => if mode == Mode::Insert {
            Outcome { changed: e.mode != Mode::Insert, ..inserting(rest, conn_id) }
        } else if e.mode == Mode::Insert {
            Outcome {
                editor: session_closed(e, mode),
                owner: None,
                group: GroupChange::End,
                changed: true,
                ..rest
            }
        } else {
            Outcome { editor: e.in_mode(mode), changed: mode != e.mode, ..rest }
        },
        Command::Close => match reply {
            EngineReply::Arranged(Some(a)) => Outcome {
                editor: arranged(e, a),
                changed: true,
                ..rest
            },
            _ => rest,
        },
        _ => rest,
    }
}

/// An edit keeps the state consistent, the ids of the panes, the mode and the undo group.
pub proof fn edited_keeps(e: EditorView, r: EditReply)
    requires
        e.ok(),
        r.selection@.ok(),
    ensures
        edited(e, r).ok(),
        edited(e, r).panes.len() == e.panes.len(),
        forall|i: int|
            0 <= i < e.panes.len() ==> (#[trigger] e.panes[i]).id == edited(e, r).panes[i].id,
        edited(e, r).mode == e.mode,
        edited(e, r).group_open == e.group_open,
        edited(e, r).focused == e.focused,
        edited(e, r).front().doc == e.front().doc,
        edited(e, r).front().selection == r.selection@,
        !r.noop ==> edited(e, r).current().text == r.text@,
        r.noop ==> edited(e, r).documents == e.documents,
{
    front_ok(e);
    let n = if r.noop {
        e
    } else {
        with_doc_ok(e, e.front().doc, r.text@, r.dirty, r.can_undo, r.can_redo);
        e.with_doc(e.front().doc, r.text@, r.dirty, r.can_undo, r.can_redo)
    };
    placed_ok(n, n.focused, r.selection@, n.front().first_line);
    pane_from_bounds(n.panes, n.focused, 0);
}

/// Placing a pane keeps the ids of the panes, the mode and the undo group.
pub proof fn placed_keeps(e: EditorView, id: u64, s: SelectionView, first_line: usize)
    requires
        e.ok(),
        e.has_pane(id),
        s.ok(),
    ensures
        e.placed(id, s, first_line).ok(),
        e.placed(id, s, first_line).panes.len() == e.panes.len(),
        forall|i: int|
            0 <= i < e.panes.len() ==> (#[trigger] e.panes[i]).id == e.placed(
                id,
                s,
                first_line,
            ).panes[i].id,
        e.placed(id, s, first_line).mode == e.mode,
        e.placed(id, s, first_line).group_open == e.group_open,
        e.placed(id, s, first_line).focused == e.focused,
{
    placed_ok(e, id, s, first_line);
    pane_from_bounds(e.panes, id, 0);
}

impl Daemon {
    /// Takes over an edit in the focused pane.
    fn store_edit(&mut self, r: EditReply)
        requires
            old(self).wf(),
            r.selection@.ok(),
        ensures
            final(self).wf(),
            *final(self) == (Daemon { editor: final(self).editor, ..*old(self) }),
            final(self).editor@ == edited(old(self).editor@, r),
    {
        let ghost before = self.editor@;
        proof {
            edited_keeps(before, r);
            front_ok(before);
        }
        if !r.noop {
            let doc = self.editor.pane(self.editor.focused).doc;
            self.editor.set_doc(doc, r.text, r.dirty, r.can_undo, r.can_redo);
        }
        self.editor.set_selection(r.selection);
        proof {
            panes_ok_same_ids(
                before,
                self.editor@,
                self.conn_views@,
                self.idle_view,
                self.next_pane,
            );
        }
    }

    /// Takes over a pane's new selection and first line, as the engine gives them after an edit to
    /// its document.
    pub fn place_pane(&mut self, id: u64, selection: Selection, first_line: usize)
        requires
            old(self).wf(),
            old(self).editor@.has_pane(id),
            selection@.ok(),
        ensures
            final(self).wf(),
            *final(self) == (Daemon { editor: final(self).editor, ..*old(self) }),
            final(self).editor@ == old(self).editor@.placed(id, selection@, first_line),
    {
        let ghost before = self.editor@;
        proof {
            placed_keeps(before, id, selection@, first_line);
        }
        self.editor.place(id, selection, first_line);
        proof {
            panes_ok_same_ids(
                before,
                self.editor@,
                self.conn_views@,
                self.idle_view,
                self.next_pane,
            );
        }
    }

    /// Selects something in the focused pane.
    fn select(&mut self, selection: Selection)
        requires
            old(self).wf(),
            selection@.ok(),
        ensures
            final(self).wf(),
            *final(self) == (Daemon { editor: final(self).editor, ..*old(self) }),
            final(self).editor@ == old(self).editor@.select(selection@),
    {
        let first_line = self.editor.pane(self.editor.focused).first_line;
        self.place_pane(self.editor.focused, selection, first_line);
    }

    /// Takes over the engine's answer to an edit. Says whether the edit did something.
    fn take_edit(&mut self, reply: EngineReply) -> (r: bool)
        requires
            old(self).wf(),
            reply_ok(old(self).editor@, reply),
        ensures
            final(self).wf(),
            *final(self) == (Daemon { editor: final(self).editor, ..*old(self) }),
            final(self).editor@ == after_edit(old(self).editor@, reply),
            r == did_edit(reply),
            final(self).editor@.mode == old(self).editor@.mode,
            final(self).editor@.group_open == old(self).editor@.group_open,
    {
        match reply {
            EngineReply::Edited(e) => {
                let did = !e.noop;
                proof {
                    edited_keeps(self.editor@, e);
                }
                self.store_edit(e);
                did
            },
            _ => false,
        }
    }

    /// Takes over the engine's answer to a movement.
    fn take_move(&mut self, reply: EngineReply)
        requires
            old(self).wf(),
            reply_ok(old(self).editor@, reply),
        ensures
            final(self).wf(),
            *final(self) == (Daemon { editor: final(self).editor, ..*old(self) }),
            final(self).editor@ == after_move(old(self).editor@, reply),
            final(self).editor@.mode == old(self).editor@.mode,
            final(self).editor@.group_open == old(self).editor@.group_open,
    {
        match reply {
            EngineReply::Moved { selection, first_line } => {
                self.place_pane(self.editor.focused, selection, first_line);
            },
            _ => {},
        }
    }

    /// Changes between modes other than insert mode.
    fn change_mode(&mut self, mode: Mode)
        requires
            old(self).wf(),
            mode != Mode::Insert,
            old(self).editor@.mode != Mode::Insert,
        ensures
            final(self).wf(),
            *final(self) == (Daemon { editor: final(self).editor, ..*old(self) }),
            final(self).editor@ == old(self).editor@.in_mode(mode),
    {
        let ghost before = self.editor@;
        self.editor.set_mode(mode);
        proof {
            panes_ok_same_ids(
                before,
                self.editor@,
                self.conn_views@,
                self.idle_view,
                self.next_pane,
            );
        }
    }

    /// Leaves select mode, if it is on.
    fn exit_select_mode(&mut self)
        requires
            old(self).wf(),
        ensures
            final(self).wf(),
            *final(self) == (Daemon { editor: final(self).editor, ..*old(self) }),
            final(self).editor@ == out_of_select(old(self).editor@),
    {
        if self.editor.mode == Mode::Select {
            self.change_mode(Mode::Normal);
        }
    }
}

/// Whether a command writes to the document.
fn is_write(c: &Command) -> (r: bool)
    ensures
        r == preempts(*c),
{
    match c {
        Command::Insert { .. } | Command::DeleteBackward | Command::DeleteForward
        | Command::DeleteWordBackward | Command::DeleteWordForward | Command::DeleteRange
        | Command::Change | Command::Replace { .. } | Command::SurroundAdd { .. }
        | Command::SurroundDelete { .. } | Command::SurroundReplace { .. }
        | Command::KillToLineStart | Command::KillToLineEnd | Command::OpenBelow
        | Command::OpenAbove | Command::Undo | Command::Redo => true,
        _ => false,
    }
}

/// Where a movement by words ends.
pub fn word_move_target(movement: Movement, direction: Direction) -> (r: Option<WordMoveTarget>)
    ensures
        r == match (movement, direction) {
            (Movement::Word, Direction::Forward) => Some(WordMoveTarget::NextWordStart),
            (Movement::Word, Direction::Backward) => Some(WordMoveTarget::PrevWordStart),
            (Movement::WordEnd, Direction::Forward) => Some(WordMoveTarget::NextWordEnd),
            (Movement::WordEnd, Direction::Backward) => Some(WordMoveTarget::PrevWordEnd),
            _ => None::<WordMoveTarget>,
        },
{
    match (movement, direction) {
        (Movement::Word, Direction::Forward) => Some(WordMoveTarget::NextWordStart),
        (Movement::Word, Direction::Backward) => Some(WordMoveTarget::PrevWordStart),
        (Movement::WordEnd, Direction::Forward) => Some(WordMoveTarget::NextWordEnd),
        (Movement::WordEnd, Direction::Backward) => Some(WordMoveTarget::PrevWordEnd),
        _ => None,
    }
}

fn hold_pages(pages: isize) -> (r: isize)
    ensures
        r == held_pages(pages),
{
    if pages < -MAX_SCROLL_PAGES {
        -MAX_SCROLL_PAGES
    } else if pages > MAX_SCROLL_PAGES {
        MAX_SCROLL_PAGES
    } else {
        pages
    }
}

fn saturate(pages: isize, height: usize) -> (r: isize)
    requires
        height <= MAX_VIEWPORT_HEIGHT,
    ensures
        r == saturated(pages as int, height as int),
{
    match pages.checked_mul(height as isize) {
        Some(p) => p,
        None => {
            proof {
                assert(pages < 0 ==> pages * height <= 0) by (nonlinear_arith)
                    requires
                        height >= 0,
                ;
                assert(pages >= 0 ==> pages * height >= 0) by (nonlinear_arith)
                    requires
                        height >= 0,
                ;
            }
            if pages < 0 {
                isize::MIN
            } else {
                isize::MAX
            }
        },
    }
}

fn wrap_from(direction: Direction, len: usize) -> (r: usize)
    ensures
        r == wrap_start(direction, len as int),
{
    match direction {
        Direction::Forward => 0,
        Direction::Backward => len,
    }
}

impl Daemon {
    /// Whether an insertion would make the document too large.
    fn insert_too_large(&self, c: &Command) -> (r: bool)
        requires
            self.wf(),
        ensures
            r == too_large(self.editor@, *c),
    {
        match c {
            Command::Insert { text } => {
                let have: u64 = self.editor.current().text.as_str().as_bytes().len() as u64;
                let more: u64 = text.as_str().as_bytes().len() as u64;
                match have.checked_add(more) {
                    Some(total) => total > MAX_FILE_SIZE,
                    None => true,
                }
            },
            _ => false,
        }
    }

    /// The ranges between the selection and the starts or the ends of its lines.
    fn kill_ranges(&self, to_start: bool) -> (r: Selection)
        requires
            self.wf(),
        ensures
            r@ == if to_start {
                to_line_starts(self.editor@.current().text, self.editor@.front().selection)
            } else {
                to_line_ends(self.editor@.current().text, self.editor@.front().selection)
            },
    {
        proof {
            front_ok(self.editor@);
        }
        let cs = chars_of(self.editor.current().text.as_str());
        let s = self.editor.selection();
        let mut ranges: Vec<Range> = Vec::new();
        let mut i: usize = 0;
        while i < s.ranges.len()
            invariant
                i <= s.ranges@.len(),
                ranges@.len() == i,
                forall|j: int|
                    0 <= j < i ==> #[trigger] ranges@[j] == if to_start {
                        to_line_starts(cs@, s@).ranges[j]
                    } else {
                        to_line_ends(cs@, s@).ranges[j]
                    },
            decreases s.ranges@.len() - i,
        {
            let r = s.ranges[i];
            if to_start {
                ranges.push(Range { anchor: line_start_of(&cs, r.head), head: r.end() });
            } else {
                ranges.push(Range { anchor: r.start(), head: line_end_of(&cs, r.head) });
            }
            i = i + 1;
        }
        let killed = Selection { ranges, primary_index: s.primary_index };
        assert(to_start ==> killed@.ranges =~= to_line_starts(cs@, s@).ranges);
        assert(!to_start ==> killed@.ranges =~= to_line_ends(cs@, s@).ranges);
        killed
    }

    /// What the text engine is asked for a command, in the present state.
    pub fn engine_call(&self, c: &Command) -> (r: EngineCall)
        requires
            self.wf(),
        ensures
            is_call(r, self.editor@, *c, self.viewport_height, self.last_search),
    {
        proof {
            front_ok(self.editor@);
        }
        let len: usize = self.editor.current().text.as_str().unicode_len();
        let select = self.editor.mode == Mode::Select;
        match c {
            Command::Insert { text } => if self.insert_too_large(c) {
                EngineCall::Nothing
            } else {
                EngineCall::Insert { text: text.clone(), after: true }
            },
            Command::DeleteBackward => EngineCall::DeleteBackward { after: false },
            Command::DeleteForward => EngineCall::DeleteForward { after: false },
            Command::DeleteWordBackward => EngineCall::DeleteWordBackward { after: false },
            Command::DeleteWordForward => EngineCall::DeleteWordForward { after: false },
            Command::DeleteRange | Command::Change => EngineCall::DeleteSelection { after: false },
            Command::KillToLineStart => EngineCall::DeleteRanges {
                ranges: self.kill_ranges(true),
                after: false,
            },
            Command::KillToLineEnd => EngineCall::DeleteRanges {
                ranges: self.kill_ranges(false),
                after: false,
            },
            Command::Replace { text } => if text.as_str().is_empty() {
                EngineCall::Nothing
            } else {
                EngineCall::Replace { text: text.clone(), after: true }
            },
            Command::SurroundAdd { ch } => EngineCall::SurroundAdd { ch: *ch },
            Command::SurroundDelete { ch } => EngineCall::SurroundDelete { ch: *ch },
            Command::SurroundReplace { from, to } => EngineCall::SurroundReplace {
                from: *from,
                to: *to,
            },
            Command::OpenBelow => EngineCall::OpenLine {
                movement: Movement::LineEnd,
                direction: Direction::Forward,
                ch: '\n',
                after: true,
            },
            Command::OpenAbove => EngineCall::OpenLine {
                movement: Movement::LineStart,
                direction: Direction::Forward,
                ch: '\n',
                after: false,
            },
            Command::Undo => EngineCall::Undo,
            Command::Redo => EngineCall::Redo,
            Command::Move { movement, direction } => match word_move_target(*movement, *direction) {
                Some(target) => EngineCall::MoveWord { target },
                None => EngineCall::Move { movement: *movement, direction: *direction },
            },
            Command::Extend { movement, direction } => EngineCall::Extend {
                movement: *movement,
                direction: *direction,
            },
            Command::SelectLine => EngineCall::SelectLine,
            Command::ExtendLineBelow => EngineCall::ExtendLineBelow,
            Command::Append => EngineCall::Append,
            Command::InsertAtLineEnd => EngineCall::Move {
                movement: Movement::LineEnd,
                direction: Direction::Forward,
            },
            Command::InsertAtLineStart => EngineCall::LineFirstNonWhitespace,
            Command::Goto { target } => if select {
                let pos: usize = match target {
                    GotoTarget::DocumentStart => 0,
                    GotoTarget::DocumentEnd => len,
                };
                EngineCall::ExtendTo { pos }
            } else {
                EngineCall::Nothing
            },
            Command::Scroll { pages } => {
                let held: isize = hold_pages(*pages);
                let delta: isize = saturate(held, self.viewport_height);
                if delta == 0 {
                    EngineCall::Nothing
                } else {
                    EngineCall::ScrollPages {
                        pages: held,
                        height: self.viewport_height,
                        delta,
                        extend: select,
                    }
                }
            },
            Command::ScrollHalf { direction } => if self.viewport_height < 2 {
                EngineCall::Nothing
            } else {
                let half: isize = (self.viewport_height / 2) as isize;
                let delta: isize = match direction {
                    Direction::Forward => half,
                    Direction::Backward => -half,
                };
                EngineCall::ScrollLines { delta, extend: select }
            },
            Command::Search { query, direction } => if query.as_str().is_empty() {
                EngineCall::Nothing
            } else {
                EngineCall::Find {
                    query: query.clone(),
                    exact: has_upper_case(query.as_str()),
                    direction: *direction,
                    from: self.editor.selection().primary().head,
                    wrap_from: wrap_from(*direction, len),
                }
            },
            Command::SearchNext { direction } => match &self.last_search {
                Some(s) => {
                    let from: usize = match direction {
                        Direction::Forward => s.found_end,
                        Direction::Backward => if s.found_start > 0 {
                            s.found_start - 1
                        } else {
                            0
                        },
                    };
                    EngineCall::Find {
                        query: s.query.clone(),
                        exact: has_upper_case(s.query.as_str()),
                        direction: *direction,
                        from,
                        wrap_from: wrap_from(*direction, len),
                    }
                },
                None => EngineCall::Nothing,
            },
            Command::SearchSelection => EngineCall::WordAt {
                at: self.editor.selection().primary().head,
            },
            Command::Close => EngineCall::Close,
            _ => EngineCall::Nothing,
        }
    }

    /// The first step of a command: the client's pane gets the focus, an insertion that is too
    /// large is rejected, an insert session is closed if the command has to, and the engine call is
    /// named.
    pub fn begin_command(&mut self, c: &Command, conn_id: u64) -> (r: Begin)
        requires
            old(self).wf(),
        ensures
            final(self).wf(),
            *final(self) == (Daemon {
                editor: final(self).editor,
                viewport_height: view_of(*old(self), conn_id).viewport,
                insert_owner: final(self).insert_owner,
                ..*old(self)
            }),
            final(self).editor@ == started(*old(self), *c, conn_id),
            r.rejected == too_large(final(self).editor@, *c),
            r.preempted == closes_session(*old(self), *c, conn_id),
            final(self).insert_owner == if r.preempted {
                None
            } else {
                old(self).insert_owner
            },
            r.own == (r.preempted && !foreign_session(*old(self), conn_id)),
            is_call(
                r.call,
                final(self).editor@,
                *c,
                final(self).viewport_height,
                final(self).last_search,
            ),
    {
        self.focus_for(conn_id);
        let rejected = self.insert_too_large(c);
        let mut preempted = false;
        let mut own = false;
        if is_write(c) && !rejected {
            let ghost e = self.editor@;
            preempted = self.preempt(conn_id);
            match c {
                Command::OpenBelow | Command::OpenAbove | Command::Change => {
                    if self.insert_owner.is_some() {
                        self.close_insert_session(Mode::Normal);
                        preempted = true;
                        own = true;
                    }
                },
                _ => {},
            }
            assert(too_large(self.editor@, *c) == too_large(e, *c));
        }
        let call = self.engine_call(c);
        Begin { rejected, preempted, own, call }
    }

    /// The text that a search for the selection looks for, given the word under the cursor.
    pub fn search_target(&self, word: Option<Range>) -> (r: Option<String>)
        requires
            self.wf(),
        ensures
            match r {
                Some(q) => selection_target(self.editor@, word) == Some(q@),
                None => selection_target(self.editor@, word) is None,
            },
    {
        proof {
            front_ok(self.editor@);
        }
        let p = self.editor.selection().primary();
        let range = if p.is_cursor() {
            match word {
                Some(w) => w,
                None => {
                    return None;
                },
            }
        } else {
            p
        };
        let cs = chars_of(self.editor.current().text.as_str());
        let lo: usize = if range.start() <= cs.len() {
            range.start()
        } else {
            cs.len()
        };
        let hi: usize = if range.end() <= cs.len() {
            range.end()
        } else {
            cs.len()
        };
        let target = text_of(&cs, lo, hi);
        assert(target@ =~= slice_within(
            self.editor@.current().text,
            range.lo() as int,
            range.hi() as int,
        ));
        Some(trim(target.as_str()))
    }

    /// Stores a found match and selects it, or stores what a miss leaves.
    fn take_hit(&mut self, hit: Option<Range>, query: String) -> (r: bool)
        requires
            old(self).wf(),
        ensures
            final(self).wf(),
            *final(self) == (Daemon {
                editor: final(self).editor,
                last_search: final(self).last_search,
                ..*old(self)
            }),
            r == hit is Some,
            match hit {
                Some(h) => {
                    &&& final(self).editor@ == old(self).editor@.select(one_range(h.lo(), h.hi()))
                    &&& search_view(final(self).last_search) == Some(
                        SearchView { query: query@, found_start: h.lo(), found_end: h.hi() },
                    )
                },
                None => *final(self) == *old(self),
            },
    {
        match hit {
            Some(h) => {
                self.last_search = Some(
                    SearchState { query, found_start: h.start(), found_end: h.end() },
                );
                self.select(Selection::single(h.start(), h.end()));
                true
            },
            None => false,
        }
    }
}

fn another(r: Option<Range>, s: &SearchState) -> (o: Option<Range>)
    ensures
        o == other_match(r, *s),
{
    match r {
        Some(r) => if r.start() != s.found_start || r.end() != s.found_end {
            Some(r)
        } else {
            None
        },
        None => None,
    }
}

fn first_of(a: Option<Range>, b: Option<Range>) -> (r: Option<Range>)
    ensures
        r == either(a, b),
{
    match a {
        Some(x) => Some(x),
        None => b,
    }
}

/// The paths of the documents, in order.
pub open spec fn doc_paths(docs: Seq<DocView>) -> Seq<Seq<char>>
    decreases docs.len(),
{
    if docs.len() == 0 {
        seq![]
    } else {
        match docs.last().path {
            Some(p) => doc_paths(docs.drop_last()).push(p),
            None => doc_paths(docs.drop_last()),
        }
    }
}

proof fn listed_paths_are_open(docs: Seq<DocView>, path: Seq<char>)
    ensures
        doc_paths(docs).contains(path) <==> path_from(docs, path, 0) < docs.len(),
    decreases docs.len(),
{
    path_from_bounds(docs, path, 0);
    if docs.len() > 0 {
        let s = docs.drop_last();
        listed_paths_are_open(s, path);
        path_from_bounds(s, path, 0);
        let f = path_from(docs, path, 0);
        let g = path_from(s, path, 0);
        let all = doc_paths(docs);
        let some = doc_paths(s);
        if g < s.len() {
            assert(docs[g].path == Some(path));
            assert(f <= g) by {
                if f > g {
                    assert(docs[g].path != Some(path));
                }
            }
            let k = some.index_of(path);
            assert(all[k] == path);
        } else {
            if docs.last().path == Some(path) {
                assert(all[some.len() as int] == path);
                assert(f <= docs.len() - 1) by {
                    if f > docs.len() - 1 {
                        assert(docs[docs.len() - 1].path != Some(path));
                    }
                }
            } else {
                assert(f == docs.len()) by {
                    if f < docs.len() {
                        if f < s.len() {
                            assert(s[f].path == Some(path));
                            assert(s[f].path != Some(path));
                        }
                    }
                }
                if all.contains(path) {
                    let k = all.index_of(path);
                    if k < some.len() {
                        assert(some[k] == path);
                        assert(some.contains(path));
                    }
                }
            }
        }
    }
}

impl Editor {
    /// The paths of the open documents.
    pub fn open_paths(&self) -> (r: Vec<String>)
        ensures
            deep(r@) == doc_paths(self@.documents),
            forall|p: Seq<char>| #[trigger] deep(r@).contains(p) <==> self@.has_path(p),
    {
        let mut out: Vec<String> = Vec::new();
        let ghost docs = self@.documents;
        let mut i: usize = 0;
        assert(docs.take(0) =~= seq![]);
        assert(deep(out@) =~= seq![]);
        while i < self.documents.len()
            invariant
                i <= self.documents.len(),
                docs == self@.documents,
                deep(out@) == doc_paths(docs.take(i as int)),
            decreases self.documents.len() - i,
        {
            assert(docs.take(i as int + 1).drop_last() =~= docs.take(i as int));
            assert(docs.take(i as int + 1).last() == self.documents@[i as int]@);
            match &self.documents[i].path {
                Some(p) => {
                    let ghost before = deep(out@);
                    out.push(p.clone());
                    assert(deep(out@) =~= before.push(p@));
                },
                None => {},
            }
            i = i + 1;
        }
        assert(docs.take(docs.len() as int) =~= docs);
        proof {
            assert forall|p: Seq<char>| #[trigger] deep(out@).contains(p) <==> self@.has_path(p) by {
                listed_paths_are_open(docs, p);
            }
        }
        out
    }
}

/// The height that a screen is believed to have.
pub open spec fn held_height(height: usize) -> usize {
    if height <= MAX_VIEWPORT_HEIGHT {
        height
    } else {
        MAX_VIEWPORT_HEIGHT
    }
}

/// Whether a command closed a document.
pub open spec fn closed_one(c: Command, reply: EngineReply) -> bool {
    c is Close && (reply matches EngineReply::Arranged(a) && a is Some)
}

/// What a command has done to the state, given the engine's answer: [`outcome`] says what became of
/// the documents, the panes, the mode and the last search. Closing a document also forgets what the
/// disk said of files that are not open any more.
pub open spec fn command_done(
    before: Daemon,
    after: Daemon,
    c: Command,
    conn_id: u64,
    reply: EngineReply,
    r: Applied,
) -> bool {
    let o = outcome(before, c, conn_id, reply);
    let view = view_of(before, conn_id);
    &&& after == (Daemon {
        editor: after.editor,
        insert_owner: after.insert_owner,
        last_search: after.last_search,
        viewport_height: after.viewport_height,
        conn_views: after.conn_views,
        baselines: after.baselines,
        deleted: after.deleted,
        metrics: after.metrics,
        ..before
    })
    &&& after.editor@ == o.editor
    &&& after.insert_owner == o.owner
    &&& search_view(after.last_search) == o.search
    &&& r.changed == o.changed
    &&& r.mode_only == o.mode_only
    &&& opt_view(r.status) == o.status
    &&& r.group == o.group
    &&& r.scroll == o.scroll
    &&& r.preempted == closes_session(before, c, conn_id)
    &&& after.viewport_height == match c {
        Command::SetViewport { height } => held_height(height),
        _ => view.viewport,
    }
    &&& after.conn_views@ == match c {
        Command::SetViewport { height } if before.conn_views@.contains_key(conn_id) => {
            before.conn_views@.insert(
                conn_id,
                ClientView {
                    view_id: before.conn_views@[conn_id].view_id,
                    viewport: held_height(height),
                },
            )
        },
        _ => before.conn_views@,
    }
    &&& closed_one(c, reply) ==> after.deleted is None && after.baselines@ == kept(
        before.baselines@,
        |k: Seq<char>| after.editor@.has_path(k),
    )
    &&& !closed_one(c, reply) ==> after.deleted == before.deleted && after.baselines
        == before.baselines
    &&& after.metrics == if c is GetState {
        ServerMetrics {
            get_state_total: (before.metrics.get_state_total + 1) as u64,
            ..before.metrics
        }
    } else {
        before.metrics
    }
}

impl Daemon {
    /// Takes over a new arrangement of documents and panes.
    fn arrange(&mut self, a: Arrangement)
        requires
            old(self).wf(),
            arrangement_fits(old(self).editor@, a),
        ensures
            final(self).wf(),
            *final(self) == (Daemon { editor: final(self).editor, ..*old(self) }),
            final(self).editor@ == arranged(old(self).editor@, a),
    {
        let ghost before = self.editor@;
        self.editor.documents = a.documents;
        self.editor.panes = a.panes;
        assert(self.editor@ =~= arranged(before, a));
        proof {
            panes_ok_same_ids(
                before,
                self.editor@,
                self.conn_views@,
                self.idle_view,
                self.next_pane,
            );
        }
    }

    /// Notes the height of a client's screen.
    fn set_viewport(&mut self, conn_id: u64, height: usize)
        requires
            old(self).wf(),
        ensures
            final(self).wf(),
            *final(self) == (Daemon {
                viewport_height: held_height(height),
                conn_views: final(self).conn_views,
                ..*old(self)
            }),
            final(self).conn_views@ == if old(self).conn_views@.contains_key(conn_id) {
                old(self).conn_views@.insert(
                    conn_id,
                    ClientView {
                        view_id: old(self).conn_views@[conn_id].view_id,
                        viewport: held_height(height),
                    },
                )
            } else {
                old(self).conn_views@
            },
    {
        broadcast use vstd::std_specs::hash::group_hash_axioms;

        let held: usize = if height <= MAX_VIEWPORT_HEIGHT {
            height
        } else {
            MAX_VIEWPORT_HEIGHT
        };
        let ghost conns = self.conn_views@;
        let known = match self.conn_views.get(&conn_id) {
            Some(v) => Some(v.view_id),
            None => None,
        };
        match known {
            Some(view_id) => {
                self.conn_views.insert(conn_id, ClientView { view_id, viewport: held });
                proof {
                    let now = self.conn_views@;
                    let e = self.editor@;
                    assert forall|c: u64| #[trigger] now.contains_key(c) implies e.has_pane(
                        now[c].view_id,
                    ) && now[c].view_id != self.idle_view && now[c].viewport
                        <= MAX_VIEWPORT_HEIGHT by {
                        assert(conns.contains_key(c));
                    }
                    assert forall|c: u64, d: u64|
                        c != d && #[trigger] now.contains_key(c) && #[trigger] now.contains_key(
                            d,
                        ) implies now[c].view_id != now[d].view_id by {
                        assert(conns.contains_key(c));
                        assert(conns.contains_key(d));
                    }
                }
            },
            None => {},
        }
        self.viewport_height = held;
    }

    /// Carries a command out, given the engine's answer. [`outcome`] says what it does.
    #[verifier::spinoff_prover]
    #[verifier::rlimit(60)]
    pub fn apply_from(&mut self, c: &Command, conn_id: u64, reply: EngineReply) -> (r: Applied)
        requires
            old(self).wf(),
            !(c is Open),
            !(c is Save),
            reply_ok(started(*old(self), *c, conn_id), reply),
            old(self).metrics.get_state_total < u64::MAX,
        ensures
            final(self).wf(),
            command_done(*old(self), *final(self), *c, conn_id, reply, r),
    {
        let mode = self.editor.mode;
        let begin = self.begin_command(c, conn_id);
        let preempted = begin.preempted;
        let ghost e = self.editor@;
        proof {
            front_ok(e);
        }
        let mut changed = false;
        let mut status: Option<String> = None;
        let mut group = GroupChange::Keep;
        let mut scroll = true;
        match c {
            Command::Insert { .. } => {
                if begin.rejected {
                    status = Some("file too large: insert rejected".to_owned());
                    scroll = false;
                } else {
                    changed = self.take_edit(reply);
                }
            },
            Command::DeleteBackward | Command::DeleteForward | Command::DeleteWordBackward
            | Command::DeleteWordForward | Command::KillToLineStart | Command::KillToLineEnd => {
                changed = self.take_edit(reply);
            },
            Command::Replace { text } => {
                if text.as_str().is_empty() {
                    scroll = false;
                } else {
                    changed = self.take_edit(reply);
                }
            },
            Command::DeleteRange | Command::SurroundAdd { .. } => {
                changed = self.take_edit(reply);
                self.exit_select_mode();
            },
            Command::SurroundDelete { .. } | Command::SurroundReplace { .. } => match reply {
                EngineReply::Edited(r) => {
                    changed = self.take_edit(EngineReply::Edited(r));
                    self.exit_select_mode();
                },
                _ => {
                    status = Some("surround pair not found".to_owned());
                    scroll = false;
                },
            },
            Command::Change | Command::OpenBelow | Command::OpenAbove => {
                let did = self.take_edit(reply);
                group = self.enter_insert(conn_id);
                changed = did || !begin.own;
            },
            Command::InsertAtLineEnd | Command::InsertAtLineStart | Command::Append => {
                changed = self.editor.mode != Mode::Insert;
                self.take_move(reply);
                group = self.enter_insert(conn_id);
            },
            Command::Undo => {
                let can = self.editor.current().can_undo;
                changed = self.take_edit(reply) || can;
            },
            Command::Redo => {
                let can = self.editor.current().can_redo;
                changed = self.take_edit(reply) || can;
            },
            Command::Move { .. } | Command::Extend { .. } | Command::SelectLine
            | Command::ExtendLineBelow => {
                self.take_move(reply);
            },
            Command::Scroll { .. } | Command::ScrollHalf { .. } => match &begin.call {
                EngineCall::Nothing => {},
                _ => {
                    self.take_move(reply);
                },
            },
            Command::SelectAll => {
                let len: usize = self.editor.current().text.as_str().unicode_len();
                self.select(Selection::single(0, len));
            },
            Command::Goto { target } => {
                if self.editor.mode == Mode::Select {
                    self.take_move(reply);
                } else {
                    let pos: usize = match target {
                        GotoTarget::DocumentStart => 0,
                        GotoTarget::DocumentEnd => {
                            self.editor.current().text.as_str().unicode_len()
                        },
                    };
                    self.select(Selection::single(pos, pos));
                }
            },
            Command::Search { query, .. } => {
                let (found, notice) = self.search_with(query.as_str(), reply);
                changed = found;
                status = notice;
            },
            Command::SearchNext { direction } => {
                let (found, notice) = self.search_next(*direction, reply);
                changed = found;
                status = notice;
            },
            Command::SearchSelection => {
                let (found, notice) = self.search_selection(reply);
                changed = found;
                status = notice;
            },
            Command::SetMode { mode } => {
                scroll = false;
                if *mode == Mode::Insert {
                    changed = self.editor.mode != Mode::Insert;
                    group = self.enter_insert(conn_id);
                } else if self.editor.mode == Mode::Insert {
                    changed = true;
                    group = GroupChange::End;
                    self.close_insert_session(*mode);
                } else {
                    changed = self.editor.mode != *mode;
                    self.change_mode(*mode);
                }
            },
            Command::SetViewport { height } => {
                scroll = false;
                self.set_viewport(conn_id, *height);
            },
            Command::Close => {
                scroll = false;
                match reply {
                    EngineReply::Arranged(Some(a)) => {
                        self.arrange(a);
                        let open = self.editor.open_paths();
                        proof {
                            let f = |k: Seq<char>| deep(open@).contains(k);
                            let g = |k: Seq<char>| self.editor@.has_path(k);
                            assert(f =~= g);
                        }
                        self.baselines.keep_listed(&open);
                        self.deleted = None;
                        changed = true;
                    },
                    _ => {},
                }
            },
            Command::GetState => {
                scroll = false;
                self.metrics.get_state_total = self.metrics.get_state_total + 1;
            },
            _ => {
                scroll = false;
            },
        }
        let moved = self.editor.mode != mode;
        Applied {
            changed: changed || moved,
            mode_only: !changed && moved,
            status,
            preempted,
            group,
            scroll,
        }
    }

    /// How a search for the selection goes on, given the word under the cursor: all matches of the
    /// selected text, or of the word, are asked for, if there is a text to look for.
    pub fn after_word(&self, word: Option<Range>) -> (r: AfterWord)
        requires
            self.wf(),
        ensures
            match selection_target(self.editor@, word) {
                Some(q) if q.len() > 0 => r matches AfterWord::Ask(
                    EngineCall::FindAll { query, exact, word: w },
                ) && query@ == q && exact == has_upper(q) && w == word,
                _ => r == AfterWord::Answer(EngineReply::Matches { word, matches: None }),
            },
    {
        match self.search_target(word) {
            Some(query) => {
                if query.as_str().is_empty() {
                    return AfterWord::Answer(EngineReply::Matches { word, matches: None });
                }
                let exact = has_upper_case(query.as_str());
                AfterWord::Ask(EngineCall::FindAll { query, exact, word })
            },
            None => AfterWord::Answer(EngineReply::Matches { word, matches: None }),
        }
    }

    /// Searches for a text: the engine has looked from the cursor on, and from the other end.
    pub fn search_with(&mut self, query: &str, reply: EngineReply) -> (r: (bool, Option<String>))
        requires
            old(self).wf(),
        ensures
            final(self).wf(),
            *final(self) == (Daemon {
                editor: final(self).editor,
                last_search: final(self).last_search,
                ..*old(self)
            }),
            query@.len() == 0 ==> !r.0 && (r.1 matches Some(m) && m@ == "empty search"@)
                && *final(self) == *old(self),
            query@.len() > 0 ==> match search_hit(reply) {
                Some(h) => {
                    &&& r.0
                    &&& r.1 is None
                    &&& final(self).editor@ == old(self).editor@.select(one_range(h.lo(), h.hi()))
                    &&& search_view(final(self).last_search) == Some(
                        SearchView { query: query@, found_start: h.lo(), found_end: h.hi() },
                    )
                },
                None => {
                    &&& !r.0
                    &&& r.1 matches Some(m) && m@ == "no match: "@ + query@
                    &&& *final(self) == *old(self)
                },
            },
    {
        if query.is_empty() {
            return (false, Some("empty search".to_owned()));
        }
        let hit = match reply {
            EngineReply::Found { near, wrapped } => first_of(near, wrapped),
            _ => None,
        };
        if self.take_hit(hit, query.to_owned()) {
            (true, None)
        } else {
            (false, Some(joined("no match: ", query)))
        }
    }

    /// Repeats the last search.
    pub fn search_next(&mut self, direction: Direction, reply: EngineReply) -> (r: (
        bool,
        Option<String>,
    ))
        requires
            old(self).wf(),
        ensures
            final(self).wf(),
            *final(self) == (Daemon {
                editor: final(self).editor,
                last_search: final(self).last_search,
                ..*old(self)
            }),
            match old(self).last_search {
                None => !r.0 && (r.1 matches Some(m) && m@ == "no previous search"@)
                    && *final(self) == *old(self),
                Some(s) => match next_hit(s, direction, reply) {
                    Some(h) => {
                        &&& r.0
                        &&& r.1 is None
                        &&& final(self).editor@ == old(self).editor@.select(
                            one_range(h.lo(), h.hi()),
                        )
                        &&& search_view(final(self).last_search) == Some(
                            SearchView {
                                query: s.query@,
                                found_start: h.lo(),
                                found_end: h.hi(),
                            },
                        )
                    },
                    None => {
                        &&& !r.0
                        &&& r.1 matches Some(m) && m@ == "no more matches: "@ + s.query@
                        &&& *final(self) == *old(self)
                    },
                },
            },
    {
        let (hit, query) = match &self.last_search {
            Some(s) => {
                let hit = match reply {
                    EngineReply::Found { near, wrapped } => match direction {
                        Direction::Forward => first_of(near, another(wrapped, s)),
                        Direction::Backward => first_of(another(near, s), another(wrapped, s)),
                    },
                    _ => None,
                };
                (hit, s.query.clone())
            },
            None => {
                return (false, Some("no previous search".to_owned()));
            },
        };
        let notice = joined("no more matches: ", query.as_str());
        if self.take_hit(hit, query) {
            (true, None)
        } else {
            (false, Some(notice))
        }
    }

    /// Searches for the selected text, or the word under the cursor, and selects all matches.
    pub fn search_selection(&mut self, reply: EngineReply) -> (r: (bool, Option<String>))
        requires
            old(self).wf(),
            reply_ok(old(self).editor@, reply),
        ensures
            final(self).wf(),
            *final(self) == (Daemon {
                editor: final(self).editor,
                last_search: final(self).last_search,
                ..*old(self)
            }),
            match reply {
                EngineReply::Matches { word, matches } => match selection_target(
                    old(self).editor@,
                    word,
                ) {
                    None => !r.0 && (r.1 matches Some(m) && m@ == "no word under cursor"@)
                        && *final(self) == *old(self),
                    Some(q) => if q.len() == 0 {
                        !r.0 && (r.1 matches Some(m) && m@ == "no selection to search"@)
                            && *final(self) == *old(self)
                    } else {
                        match matches {
                            Some(found) => {
                                &&& r.0
                                &&& r.1 is None
                                &&& final(self).editor@ == old(self).editor@.select(found@)
                                &&& search_view(final(self).last_search) == Some(
                                    SearchView {
                                        query: q,
                                        found_start: found@.primary().lo(),
                                        found_end: found@.primary().hi(),
                                    },
                                )
                            },
                            None => !r.0 && (r.1 matches Some(m) && m@ == "no match: "@ + q)
                                && *final(self) == *old(self),
                        }
                    },
                },
                _ => !r.0 && (r.1 matches Some(m) && m@ == "no word under cursor"@) && *final(self)
                    == *old(self),
            },
    {
        match reply {
            EngineReply::Matches { word, matches } => {
                let query = match self.search_target(word) {
                    Some(q) => q,
                    None => {
                        return (false, Some("no word under cursor".to_owned()));
                    },
                };
                if query.as_str().is_empty() {
                    return (false, Some("no selection to search".to_owned()));
                }
                match matches {
                    Some(m) => {
                        let p = m.primary();
                        self.last_search = Some(
                            SearchState { query, found_start: p.start(), found_end: p.end() },
                        );
                        self.select(m);
                        (true, None)
                    },
                    None => (false, Some(joined("no match: ", query.as_str()))),
                }
            },
            _ => (false, Some("no word under cursor".to_owned())),
        }
    }
}

} // verus!
