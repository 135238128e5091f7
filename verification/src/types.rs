//! The messages and records that clients and the daemon exchange.
use vstd::prelude::*;

use crate::strings::copy_opt;

verus! {

/// The editing mode, shared by all clients.
#[derive(Clone, Copy, Debug, PartialEq, Eq, Structural)]
pub enum Mode {
    Normal,
    Insert,
    Select,
}

/// The unit of a cursor movement.
#[derive(Clone, Copy, Debug, PartialEq, Eq, Structural)]
pub enum Movement {
    Char,
    Line,
    Word,
    WordEnd,
    LineStart,
    LineEnd,
    FirstNonWhitespace,
}

/// The way of a movement or a search.
#[derive(Clone, Copy, Debug, PartialEq, Eq, Structural)]
pub enum Direction {
    Forward,
    Backward,
}

/// Where a jump goes.
#[derive(Clone, Copy, Debug, PartialEq, Eq, Structural)]
pub enum GotoTarget {
    DocumentStart,
    DocumentEnd,
}

/// How a client uses the daemon: with a screen of its own, or as a one-shot tool.
#[derive(Clone, Copy, Debug, PartialEq, Eq, Structural)]
pub enum ClientKind {
    Interactive,
    Headless,
}

/// Who caused a change.
#[derive(Clone, Copy, Debug, PartialEq, Eq, Structural)]
pub enum EventSource {
    Interactive,
    Headless,
    External,
}

/// What a change did.
#[derive(Clone, Copy, Debug, PartialEq, Eq, Structural)]
pub enum EventKind {
    Insert,
    Delete,
    ReplaceRange,
    Undo,
    Redo,
    SetMode,
    Open,
    Save,
    Close,
    Rename,
    ExternalChange,
    SelectionReset,
    BaseRoot,
    ReviewComment,
}

/// Work in progress that a client can be told of.
#[derive(Clone, Copy, Debug, PartialEq, Eq, Structural)]
pub enum ActivityKind {
    LspInit,
    DiagnosticsSettle,
    Save,
    ReloadSync,
}

/// The side of a comparison that a review comment is attached to.
#[derive(Clone, Copy, Debug, PartialEq, Eq, Structural)]
pub enum ReviewSide {
    Base,
    Current,
}

/// What kind of thing a symbol names.
#[derive(Clone, Copy, Debug, PartialEq, Eq, Structural)]
pub enum SymbolKind {
    Module,
    Type,
    Function,
    Variable,
    Other,
}

/// How grave a diagnostic is.
#[derive(Clone, Copy, Debug, PartialEq, Eq, Structural)]
pub enum Severity {
    Error,
    Warning,
    Info,
    Hint,
}

/// A stretch of characters: `head` moves, `anchor` stays.
#[derive(Clone, Copy, Debug, PartialEq, Eq, Structural)]
pub struct Range {
    pub anchor: usize,
    pub head: usize,
}

impl Range {
    /// The lower end.
    pub open spec fn lo(self) -> usize {
        if self.anchor <= self.head {
            self.anchor
        } else {
            self.head
        }
    }

    /// The upper end.
    pub open spec fn hi(self) -> usize {
        if self.anchor <= self.head {
            self.head
        } else {
            self.anchor
        }
    }

    /// The lower end.
    pub fn start(&self) -> (r: usize)
        ensures
            r == self.lo(),
    {
        if self.anchor <= self.head {
            self.anchor
        } else {
            self.head
        }
    }

    /// The upper end.
    pub fn end(&self) -> (r: usize)
        ensures
            r == self.hi(),
    {
        if self.anchor <= self.head {
            self.head
        } else {
            self.anchor
        }
    }

    /// Whether nothing is selected.
    pub fn is_cursor(&self) -> (r: bool)
        ensures
            r == (self.anchor == self.head),
    {
        self.anchor == self.head
    }
}

/// A finding of a language server.
#[derive(Debug, PartialEq, Eq)]
pub struct Diagnostic {
    pub start: usize,
    pub end: usize,
    pub severity: Severity,
    pub message: String,
}

impl Clone for Diagnostic {
    fn clone(&self) -> (r: Self)
        ensures
            r == *self,
    {
        Diagnostic {
            start: self.start,
            end: self.end,
            severity: self.severity,
            message: self.message.clone(),
        }
    }
}

/// A note that a language server shows inside a line.
#[derive(Debug, PartialEq, Eq)]
pub struct InlayHint {
    pub position: usize,
    pub text: String,
    pub padding_left: bool,
    pub padding_right: bool,
}

impl Clone for InlayHint {
    fn clone(&self) -> (r: Self)
        ensures
            r == *self,
    {
        InlayHint {
            position: self.position,
            text: self.text.clone(),
            padding_left: self.padding_left,
            padding_right: self.padding_right,
        }
    }
}

/// A stretch of characters and the number of its highlight group.
#[derive(Clone, Copy, Debug, PartialEq, Eq, Structural)]
pub struct HighlightRange {
    pub start: usize,
    pub end: usize,
    pub group: u32,
}

/// A symbol of a document, with the symbols inside it.
#[derive(Debug, PartialEq, Eq)]
pub struct OutlineSymbol {
    pub name: String,
    pub kind: SymbolKind,
    pub range: Range,
    pub selection_range: Range,
    pub children: Vec<OutlineSymbol>,
}

/// Whether two symbols agree in everything, down to the innermost symbols.
pub open spec fn same_symbol(a: OutlineSymbol, b: OutlineSymbol) -> bool
    decreases a,
{
    &&& a.name@ == b.name@
    &&& a.kind == b.kind
    &&& a.range == b.range
    &&& a.selection_range == b.selection_range
    &&& a.children@.len() == b.children@.len()
    &&& forall|i: int|
        0 <= i < a.children@.len() ==> same_symbol(#[trigger] a.children@[i], b.children@[i])
}

/// Whether two lists of symbols agree in everything.
pub open spec fn same_symbols(a: Seq<OutlineSymbol>, b: Seq<OutlineSymbol>) -> bool {
    &&& a.len() == b.len()
    &&& forall|i: int| 0 <= i < a.len() ==> same_symbol(#[trigger] a[i], b[i])
}

impl OutlineSymbol {
    /// A copy of a symbol and all that is inside it.
    pub fn copy(&self) -> (r: OutlineSymbol)
        ensures
            same_symbol(*self, r),
        decreases self,
    {
        let mut children: Vec<OutlineSymbol> = Vec::new();
        let mut i: usize = 0;
        while i < self.children.len()
            invariant
                i <= self.children.len(),
                children@.len() == i,
                forall|j: int|
                    0 <= j < i ==> same_symbol(#[trigger] self.children@[j], children@[j]),
            decreases self.children.len() - i,
        {
            let c = self.children[i].copy();
            children.push(c);
            i = i + 1;
        }
        OutlineSymbol {
            name: self.name.clone(),
            kind: self.kind,
            range: self.range,
            selection_range: self.selection_range,
            children,
        }
    }
}

/// A copy of a list of symbols.
pub fn copy_symbols(v: &Vec<OutlineSymbol>) -> (r: Vec<OutlineSymbol>)
    ensures
        same_symbols(v@, r@),
{
    let mut out: Vec<OutlineSymbol> = Vec::new();
    let mut i: usize = 0;
    while i < v.len()
        invariant
            i <= v.len(),
            out@.len() == i,
            forall|j: int| 0 <= j < i ==> same_symbol(#[trigger] v@[j], out@[j]),
        decreases v.len() - i,
    {
        let c = v[i].copy();
        out.push(c);
        i = i + 1;
    }
    out
}

/// A symbol found in a workspace, with its 1-based line.
#[derive(Debug, PartialEq, Eq)]
pub struct WorkspaceSymbol {
    pub name: String,
    pub kind: SymbolKind,
    pub path: String,
    pub line: u32,
}

/// A diagnostic with its 1-based line and column.
#[derive(Debug, PartialEq, Eq)]
pub struct CheckDiagnostic {
    pub severity: Severity,
    pub line: u32,
    pub col: u32,
    pub start: usize,
    pub end: usize,
    pub message: String,
}

/// Where a symbol is referred to.
#[derive(Debug, PartialEq, Eq)]
pub struct ReferenceLocation {
    pub path: String,
    pub line: u32,
}

/// The text at a symbol's definition.
#[derive(Debug, PartialEq, Eq)]
pub struct DefinitionPeek {
    pub path: String,
    pub line: u32,
    pub text: String,
}

/// A comment of a review, attached to a line of one side of the comparison.
#[derive(Debug, PartialEq, Eq)]
pub struct ReviewComment {
    pub path: String,
    pub side: ReviewSide,
    pub line: u32,
    pub snippet: String,
    pub body: String,
    pub base: String,
    pub generation: u64,
}

/// A review comment together with where its line is now.
#[derive(Debug, PartialEq, Eq)]
pub struct ReviewCommentView {
    pub path: String,
    pub side: ReviewSide,
    pub line: u32,
    pub resolved_line: u32,
    pub stale: bool,
    pub snippet: String,
    pub body: String,
    pub base: String,
}

/// The diagnostics of a file on the base side of a comparison.
#[derive(Debug, PartialEq, Eq)]
pub struct BaseDiagnostic {
    pub path: String,
    pub diagnostics: Vec<Diagnostic>,
}

/// A registered base root, for display.
#[derive(Debug, PartialEq, Eq)]
pub struct BaseRootInfo {
    pub root: String,
    pub commit: String,
}

/// One recorded change of the shared state.
#[derive(Debug, PartialEq, Eq)]
pub struct ChangeEvent {
    pub generation: u64,
    pub source: EventSource,
    pub kind: EventKind,
    pub range: Option<Range>,
    pub text: Option<String>,
}

impl Clone for ChangeEvent {
    fn clone(&self) -> (r: Self)
        ensures
            r == *self,
    {
        ChangeEvent {
            generation: self.generation,
            source: self.source,
            kind: self.kind,
            range: self.range,
            text: copy_opt(&self.text),
        }
    }
}

/// Work in progress on a document.
#[derive(Debug, PartialEq, Eq)]
pub struct Activity {
    pub kind: ActivityKind,
    pub label: String,
}

impl Clone for Activity {
    fn clone(&self) -> (r: Self)
        ensures
            r == *self,
    {
        Activity { kind: self.kind, label: self.label.clone() }
    }
}

/// One attempt of a headless client to change something, and how it went.
#[derive(Debug, PartialEq, Eq)]
pub struct ActivityRecord {
    pub actor: String,
    pub kind: EventKind,
    pub ok: bool,
    pub detail: String,
}

impl Clone for ActivityRecord {
    fn clone(&self) -> (r: Self)
        ensures
            r == *self,
    {
        ActivityRecord {
            actor: self.actor.clone(),
            kind: self.kind,
            ok: self.ok,
            detail: self.detail.clone(),
        }
    }
}

/// What the daemon has counted since it started.
#[derive(Clone, Copy, Debug, PartialEq, Eq, Structural)]
pub struct ServerMetrics {
    pub edits_total: u64,
    pub edits_rejected_checksum: u64,
    pub edits_rejected_expected_text: u64,
    pub edits_expected_text_used: u64,
    pub edits_noop: u64,
    pub get_state_total: u64,
    pub save_total: u64,
    pub wait_total: u64,
    pub outline_total: u64,
    pub outline_bytes: u64,
    pub symbol_range_total: u64,
    pub symbol_range_bytes: u64,
    pub hover_total: u64,
    pub hover_bytes: u64,
    pub symbol_search_total: u64,
    pub symbol_search_bytes: u64,
    pub check_total: u64,
    pub check_bytes: u64,
    pub read_total: u64,
    pub read_bytes: u64,
}

/// A replacement at a position, bound to the text that the client has read.
#[derive(Debug, PartialEq, Eq)]
pub struct DocumentEdit {
    pub start: usize,
    pub end: usize,
    pub text: String,
    pub checksum: u64,
    pub expected_text: Option<String>,
}

/// The first message of a connection.
#[derive(Debug, PartialEq, Eq)]
pub struct Hello {
    pub kind: ClientKind,
    pub reset_cursor_on_disconnect: bool,
    pub name: String,
}

/// A client's request.
#[derive(Debug, PartialEq, Eq)]
pub enum Command {
    GetState,
    WaitFor { generation: u64 },
    Open { path: String },
    Save,
    Close,
    Insert { text: String },
    DeleteBackward,
    DeleteForward,
    DeleteWordBackward,
    DeleteWordForward,
    DeleteRange,
    Change,
    InsertAtLineEnd,
    InsertAtLineStart,
    Append,
    OpenBelow,
    OpenAbove,
    Replace { text: String },
    SurroundAdd { ch: char },
    SurroundDelete { ch: char },
    SurroundReplace { from: char, to: char },
    KillToLineStart,
    KillToLineEnd,
    Undo,
    Redo,
    Move { movement: Movement, direction: Direction },
    Extend { movement: Movement, direction: Direction },
    SelectLine,
    ExtendLineBelow,
    SelectAll,
    Search { query: String, direction: Direction },
    SearchNext { direction: Direction },
    SearchSelection,
    Goto { target: GotoTarget },
    Scroll { pages: isize },
    ScrollHalf { direction: Direction },
    SetMode { mode: Mode },
    SetViewport { height: usize },
    GetInlayHints { path: String },
    PeekDefinition,
    PeekDefinitionAt { path: String, line: u32, col: u32 },
    Rename { path: String, old: String, new: String },
    References { path: String, old: String },
    Outline { path: String },
    OutlineRecursive { path: String, depth: u32 },
    ReadPath { path: String },
    EnclosingSymbol { path: String, line: u32, col: u32 },
    HoverAt { path: String, line: u32, col: u32 },
    WorkspaceSymbol { path: String, query: String },
    CheckDiagnostics { path: String },
    GetServerInfo,
    RegisterBaseRoot { root: String, commit: String, repo: Option<String> },
    UnregisterBaseRoot { root: String },
    AddReviewComment {
        path: String,
        side: ReviewSide,
        line: u32,
        snippet: String,
        body: String,
        base: String,
    },
    ClearReviewComments,
    ListReviewComments,
}

/// What a client sees: a document through a view, and the shared state around it.
#[derive(Debug, PartialEq, Eq)]
pub struct StateSnapshot {
    pub activity: Vec<ActivityRecord>,
    pub checksum: u64,
    pub text: String,
    pub selection: Vec<Range>,
    pub primary_index: usize,
    pub mode: Mode,
    pub first_line: usize,
    pub diagnostics: Vec<Diagnostic>,
    pub inlay_hints: Vec<InlayHint>,
    pub highlights: Vec<HighlightRange>,
    pub path: Option<String>,
    pub dirty: bool,
    pub status: Option<String>,
    pub activities: Vec<Activity>,
    pub generation: u64,
    pub events: Vec<ChangeEvent>,
    pub deleted: Option<String>,
    pub peek: Option<DefinitionPeek>,
    pub review_comment_count: usize,
    pub base_diagnostics: Vec<BaseDiagnostic>,
}

/// The daemon's answers, other than state snapshots, and its notices.
#[allow(inconsistent_fields)]
#[derive(Debug, PartialEq, Eq)]
pub enum ServerMessage {
    Response { snapshot: StateSnapshot },
    Push { snapshot: StateSnapshot },
    Hints { path: String, generation: u64, hints: Vec<InlayHint> },
    Peek { path: String, line: u32, text: String },
    Outline {
        path: String,
        generation: u64,
        symbols: Vec<OutlineSymbol>,
        error: Option<String>,
        truncated: bool,
    },
    EnclosingSymbol {
        path: String,
        name: String,
        kind: SymbolKind,
        range: Range,
        selection_range: Range,
        found: bool,
        error: Option<String>,
    },
    Hover { path: String, generation: u64, text: String, error: Option<String> },
    WorkspaceSymbols { generation: u64, symbols: Vec<WorkspaceSymbol>, error: Option<String> },
    Check {
        path: String,
        generation: u64,
        total: usize,
        diagnostics: Vec<CheckDiagnostic>,
        settled: bool,
        error: Option<String>,
    },
    ReadPath { path: String, generation: u64, text: String, error: Option<String> },
    RenameResult {
        generation: u64,
        files: usize,
        edits: usize,
        changed: Vec<String>,
        error: Option<String>,
    },
    ReferencesResult {
        path: String,
        locations: Vec<ReferenceLocation>,
        total: usize,
        error: Option<String>,
    },
    ServerInfo {
        generation: String,
        daemon_build_ts: u64,
        metrics: ServerMetrics,
        base_roots: Vec<BaseRootInfo>,
    },
    ReviewComments { generation: u64, comments: Vec<ReviewCommentView> },
}

/// A copy of a list of diagnostics.
pub fn copy_diagnostics(v: &Vec<Diagnostic>) -> (r: Vec<Diagnostic>)
    ensures
        r@ == v@,
{
    let r = v.clone();
    assert(r@ =~= v@);
    r
}

/// A copy of a list of inlay hints.
pub fn copy_hints(v: &Vec<InlayHint>) -> (r: Vec<InlayHint>)
    ensures
        r@ == v@,
{
    let r = v.clone();
    assert(r@ =~= v@);
    r
}

/// A copy of a list of activities.
pub fn copy_activities(v: &Vec<Activity>) -> (r: Vec<Activity>)
    ensures
        r@ == v@,
{
    let r = v.clone();
    assert(r@ =~= v@);
    r
}

/// A copy of a list of ranges.
pub fn copy_ranges(v: &Vec<Range>) -> (r: Vec<Range>)
    ensures
        r@ == v@,
{
    let r = v.clone();
    assert(r@ =~= v@);
    r
}

/// A copy of a list of highlights.
pub fn copy_highlights(v: &Vec<HighlightRange>) -> (r: Vec<HighlightRange>)
    ensures
        r@ == v@,
{
    let r = v.clone();
    assert(r@ =~= v@);
    r
}

/// All counters at zero.
pub open spec fn no_counts() -> ServerMetrics {
    ServerMetrics {
        edits_total: 0,
        edits_rejected_checksum: 0,
        edits_rejected_expected_text: 0,
        edits_expected_text_used: 0,
        edits_noop: 0,
        get_state_total: 0,
        save_total: 0,
        wait_total: 0,
        outline_total: 0,
        outline_bytes: 0,
        symbol_range_total: 0,
        symbol_range_bytes: 0,
        hover_total: 0,
        hover_bytes: 0,
        symbol_search_total: 0,
        symbol_search_bytes: 0,
        check_total: 0,
        check_bytes: 0,
        read_total: 0,
        read_bytes: 0,
    }
}

impl ServerMetrics {
    /// All counters at zero.
    pub fn zero() -> (r: Self)
        ensures
            r == no_counts(),
    {
        ServerMetrics {
            edits_total: 0,
            edits_rejected_checksum: 0,
            edits_rejected_expected_text: 0,
            edits_expected_text_used: 0,
            edits_noop: 0,
            get_state_total: 0,
            save_total: 0,
            wait_total: 0,
            outline_total: 0,
            outline_bytes: 0,
            symbol_range_total: 0,
            symbol_range_bytes: 0,
            hover_total: 0,
            hover_bytes: 0,
            symbol_search_total: 0,
            symbol_search_bytes: 0,
            check_total: 0,
            check_bytes: 0,
            read_total: 0,
            read_bytes: 0,
        }
    }
}

} // verus!
