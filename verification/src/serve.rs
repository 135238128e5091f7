//! Answers that need a language server: what is asked of it, and what its replies become.
use vstd::prelude::*;

use crate::base::{in_order, info_views, root_commits};
use crate::clients::view_of;
use crate::daemon::{
    borrows, focused_on, refocused, session_of, Daemon, HintCache, OutlineCache, MAX_HINT_CACHE,
};
use crate::editor::{front_ok, opt_view};
use crate::opening::has_server;
use crate::paths::path_from_uri;
use crate::strings::{after_prefix, has_prefix, joined, same};
use crate::table::{newest, put, value_of, without};
use crate::text::{checksum, clamped, col_of_char, line_head, line_of_char, newlines_before};
use crate::types::{
    copy_hints, copy_symbols, same_symbols, CheckDiagnostic, DefinitionPeek, Diagnostic, InlayHint,
    OutlineSymbol, Range, ReferenceLocation, ServerMessage, ServerMetrics, SymbolKind,
    WorkspaceSymbol,
};

verus! {

/// Why a file could not be brought before its language server.
pub enum BorrowFail {
    CannotOpen,
    NoServer(String),
    SpawnFailed(String),
}

/// What a client is told when a file could not be brought before its language server.
pub open spec fn borrow_notice(feature: Seq<char>, path: Seq<char>, fail: BorrowFail) -> Seq<char> {
    match fail {
        BorrowFail::CannotOpen => "cannot open "@ + path,
        BorrowFail::NoServer(p) => feature + " not supported for "@ + p@
            + " (no LSP server configured)"@,
        BorrowFail::SpawnFailed(e) => "LSP error: "@ + e@,
    }
}

/// What a client is told when the server lacks a capability.
pub open spec fn lacking_notice(feature: Seq<char>, path: Seq<char>, provider: Seq<char>) -> Seq<
    char,
> {
    feature + " not supported for "@ + path + " (LSP server が "@ + provider
        + " を advertise していません)"@
}

/// What a client is told when a file could not be brought before its language server.
pub fn borrow_error(feature: &str, path: &str, fail: &BorrowFail) -> (r: String)
    ensures
        r@ == borrow_notice(feature@, path@, *fail),
{
    match fail {
        BorrowFail::CannotOpen => joined("cannot open ", path),
        BorrowFail::NoServer(p) => {
            let mut m = joined(feature, " not supported for ");
            m.append(p.as_str());
            m.append(" (no LSP server configured)");
            m
        },
        BorrowFail::SpawnFailed(e) => joined("LSP error: ", e.as_str()),
    }
}

/// What a client is told when the server lacks a capability.
pub fn lacking_error(feature: &str, path: &str, provider: &str) -> (r: String)
    ensures
        r@ == lacking_notice(feature@, path@, provider@),
{
    let mut m = joined(feature, " not supported for ");
    m.append(path);
    m.append(" (LSP server が ");
    m.append(provider);
    m.append(" を advertise していません)");
    m
}

/// The text of a file: the open document's, with its unsaved edits, or else the disk's.
pub open spec fn file_text(d: Daemon, path: Seq<char>, disk: Option<Seq<char>>) -> Option<Seq<char>> {
    if d.editor@.has_path(path) {
        Some(d.editor@.doc_at(path).text)
    } else {
        disk
    }
}

impl Daemon {
    /// The text of a file: the open document's, or else the disk's.
    pub fn resolve_doc_text(&self, path: &str, disk: Option<String>) -> (r: Option<String>)
        ensures
            opt_view(r) == file_text(*self, path@, opt_view(disk)),
    {
        match self.editor.doc_for_path(path) {
            Some(d) => Some(d.text.clone()),
            None => disk,
        }
    }

    /// Whether a file can be brought before its language server: its text, or why not.
    pub fn borrow_text(&self, path: &str, disk: Option<String>) -> (r: Result<String, BorrowFail>)
        requires
            self.wf(),
        ensures
            match file_text(*self, path@, opt_view(disk)) {
                Some(t) => if has_server(*self, path@) {
                    r matches Ok(s) && s@ == t
                } else {
                    r matches Err(BorrowFail::NoServer(p)) && p@ == path@
                },
                None => r matches Err(BorrowFail::CannotOpen),
            },
    {
        match self.resolve_doc_text(path, disk) {
            Some(t) => {
                if self.languages.has_server(path) {
                    Ok(t)
                } else {
                    Err(BorrowFail::NoServer(path.to_owned()))
                }
            },
            None => Err(BorrowFail::CannotOpen),
        }
    }

    /// The document that a file's session is looking at.
    pub fn looked_at(&self, path: &str, root: &str) -> (r: Option<String>)
        requires
            self.wf(),
        ensures
            opt_view(r) == match session_of(self.languages.languages@, path@, root@) {
                Some(k) => match value_of(self.analysis_focus@, k) {
                    Some(f) => Some(f@),
                    None => None,
                },
                None => None,
            },
    {
        match self.session_key(path, root) {
            Some(k) => match self.analysis_focus.get(&k) {
                Some(f) => Some(f.clone()),
                None => None,
            },
            None => None,
        }
    }

    /// Whether, after a request about a whole workspace, the session has to be turned back to the
    /// document that it was looking at: the request was about that document, or about another one
    /// of the same session.
    pub fn must_restore(
        &self,
        focused: Option<&str>,
        focused_root: &str,
        target: &str,
        target_root: &str,
    ) -> (r: bool)
        requires
            self.wf(),
        ensures
            r == (focused matches Some(fp) && (fp@ == target@ || borrows(
                *self,
                fp@,
                focused_root@,
                target@,
                target_root@,
            ))),
    {
        match focused {
            Some(fp) => {
                same(fp, target) || self.borrows_focus_session(
                    focused,
                    focused_root,
                    target,
                    target_root,
                )
            },
            None => false,
        }
    }

    /// The text to turn a session back with: that of the document it was looking at, if it is still
    /// to look at it and the document is still open.
    pub fn restore_text(&self, focused: &str, root: &str) -> (r: Option<String>)
        requires
            self.wf(),
        ensures
            opt_view(r) == if focused_on(*self, focused@, root@) && self.editor@.has_path(focused@) {
                Some(self.editor@.doc_at(focused@).text)
            } else {
                None
            },
    {
        if !self.is_analysis_focus(focused, root) {
            return None;
        }
        match self.editor.doc_for_path(focused) {
            Some(d) => Some(d.text.clone()),
            None => None,
        }
    }
}

/// The next step of a request for inlay hints.
pub enum HintStep {
    Answer(ServerMessage),
    Pull(String),
}

/// Whether a message is an answer with the given inlay hints.
pub open spec fn is_hints(m: ServerMessage, path: Seq<char>, generation: u64, hints: Seq<InlayHint>) -> bool {
    m matches ServerMessage::Hints { path: p, generation: g, hints: h } && p@ == path && g
        == generation && h@ == hints
}

impl Daemon {
    /// An answer without inlay hints.
    pub fn no_hints(&self, path: &str) -> (r: ServerMessage)
        ensures
            is_hints(r, path@, self.log@.generation, Seq::empty()),
    {
        ServerMessage::Hints {
            path: path.to_owned(),
            generation: self.log.generation,
            hints: Vec::new(),
        }
    }

    /// The first step of a request for inlay hints: a file that cannot be read or has no server has
    /// none, hints for this very text are given from the cache, and else the server is asked.
    pub fn begin_hints(&self, path: &str, disk: Option<String>) -> (r: HintStep)
        requires
            self.wf(),
        ensures
            match file_text(*self, path@, opt_view(disk)) {
                None => r matches HintStep::Answer(m) && is_hints(
                    m,
                    path@,
                    self.log@.generation,
                    Seq::empty(),
                ),
                Some(t) => if !has_server(*self, path@) {
                    r matches HintStep::Answer(m) && is_hints(
                        m,
                        path@,
                        self.log@.generation,
                        Seq::empty(),
                    )
                } else {
                    match value_of(self.hints@, path@) {
                        Some(c) if c.text_checksum == checksum(t) => r matches HintStep::Answer(m)
                            && is_hints(m, path@, self.log@.generation, c.hints@),
                        _ => r matches HintStep::Pull(s) && s@ == t,
                    }
                },
            },
    {
        let text = match self.borrow_text(path, disk) {
            Ok(t) => t,
            Err(_) => {
                return HintStep::Answer(self.no_hints(path));
            },
        };
        match self.fresh_hints(path, text.as_str()) {
            Some(hints) => HintStep::Answer(
                ServerMessage::Hints {
                    path: path.to_owned(),
                    generation: self.log.generation,
                    hints,
                },
            ),
            None => HintStep::Pull(text),
        }
    }

    /// The last step of a request for inlay hints: what the server gave, or nothing, is kept for
    /// the text it was asked about, and given to the client.
    pub fn finish_hints(&mut self, path: &str, text: &str, pulled: Option<Vec<InlayHint>>) -> (r:
        ServerMessage)
        requires
            old(self).wf(),
        ensures
            final(self).wf(),
            *final(self) == (Daemon { hints: final(self).hints, ..*old(self) }),
            is_hints(
                r,
                path@,
                old(self).log@.generation,
                match pulled {
                    Some(h) => h@,
                    None => Seq::empty(),
                },
            ),
            exists|kept: Vec<InlayHint>|
                #[trigger] kept@ == (match pulled {
                    Some(h) => h@,
                    None => Seq::empty(),
                }) && final(self).hints@ == newest(
                    put(
                        old(self).hints@,
                        path@,
                        HintCache { text_checksum: checksum(text@), hints: kept },
                    ),
                    MAX_HINT_CACHE as int,
                ),
    {
        let hints: Vec<InlayHint> = match pulled {
            Some(h) => h,
            None => Vec::new(),
        };
        let shown = copy_hints(&hints);
        self.cache_hints(path, text, hints);
        ServerMessage::Hints {
            path: path.to_owned(),
            generation: self.log.generation,
            hints: shown,
        }
    }
}

/// What a peek at a definition starts from.
pub struct PeekJob {
    pub path: String,
    pub head: usize,
    pub text: String,
    pub supported: bool,
}

impl Daemon {
    /// The first step of a peek at the definition under a client's cursor: where the cursor is.
    /// Nothing if the client's document has no path.
    pub fn begin_peek(&mut self, conn_id: u64) -> (r: Option<PeekJob>)
        requires
            old(self).wf(),
        ensures
            final(self).wf(),
            *final(self) == (Daemon {
                editor: final(self).editor,
                viewport_height: view_of(*old(self), conn_id).viewport,
                ..*old(self)
            }),
            final(self).editor@ == old(self).editor@.focus(view_of(*old(self), conn_id).view_id),
            match final(self).editor@.current().path {
                Some(p) => r matches Some(j) && j.path@ == p && j.head
                    == final(self).editor@.front().selection.primary().head && j.text@
                    == final(self).editor@.current().text && j.supported == has_server(
                    *old(self),
                    p,
                ),
                None => r is None,
            },
    {
        self.focus_for(conn_id);
        proof {
            front_ok(self.editor@);
        }
        match self.editor.focused_path() {
            Some(path) => {
                let supported = self.languages.has_server(path.as_str());
                let head = self.editor.selection().primary().head;
                let text = self.editor.current().text.clone();
                Some(PeekJob { path, head, text, supported })
            },
            None => None,
        }
    }

    /// Notes that a session was turned to a client's document for a peek. If it was looking at
    /// another one, the document's diagnostics are hidden until they are fetched again.
    pub fn peek_turn(&mut self, path: &str, root: &str)
        requires
            old(self).wf(),
        ensures
            final(self).wf(),
            *final(self) == (Daemon {
                analysis_focus: final(self).analysis_focus,
                diagnostics: final(self).diagnostics,
                ..*old(self)
            }),
            refocused(
                old(self).analysis_focus@,
                final(self).analysis_focus@,
                session_of(old(self).languages.languages@, path@, root@),
                path@,
            ),
            focused_on(*old(self), path@, root@) ==> final(self).diagnostics@ == old(
                self,
            ).diagnostics@,
            !focused_on(*old(self), path@, root@) ==> final(self).diagnostics@ == without(
                crate::daemon::after_focus(
                    old(self).diagnostics@,
                    old(self).analysis_focus@,
                    session_of(old(self).languages.languages@, path@, root@),
                    path@,
                ),
                path@,
            ),
    {
        let moved = !self.is_analysis_focus(path, root);
        self.set_analysis_focus(path, root);
        if moved {
            self.diagnostics.remove(path);
        }
    }
}

/// The answer to a peek at a position: the definition, or an empty one with the path as asked.
pub fn peek_answer(path: &str, peek: Option<DefinitionPeek>) -> (r: ServerMessage)
    ensures
        r matches ServerMessage::Peek { path: p, line, text } && match peek {
            Some(k) => p@ == k.path@ && line == k.line && text@ == k.text@,
            None => p@ == path@ && line == 0 && text@.len() == 0,
        },
{
    match peek {
        Some(k) => ServerMessage::Peek { path: k.path, line: k.line, text: k.text },
        None => ServerMessage::Peek { path: path.to_owned(), line: 0, text: String::new() },
    }
}

/// Whether a message is a failed outline.
pub open spec fn is_outline_error(m: ServerMessage, path: Seq<char>, error: Seq<char>) -> bool {
    m matches ServerMessage::Outline { path: p, generation, symbols, error: e, truncated } && p@
        == path && generation == 0 && symbols@.len() == 0 && opt_view(e) == Some(error) && !truncated
}

/// Whether a message is an outline.
pub open spec fn is_outline(
    m: ServerMessage,
    path: Seq<char>,
    generation: u64,
    symbols: Seq<OutlineSymbol>,
    error: Option<Seq<char>>,
    truncated: bool,
) -> bool {
    m matches ServerMessage::Outline { path: p, generation: g, symbols: s, error: e, truncated: t }
        && p@ == path && g == generation && same_symbols(symbols, s@) && opt_view(e) == error && t
        == truncated
}

/// The answer to a request for an outline that failed before the server was asked.
pub fn outline_error(path: &str, error: String) -> (r: ServerMessage)
    ensures
        is_outline_error(r, path@, error@),
{
    ServerMessage::Outline {
        path: path.to_owned(),
        generation: 0,
        symbols: Vec::new(),
        error: Some(error),
        truncated: false,
    }
}

/// Whether a recursive outline may go to a depth; the answer if it may not.
pub fn check_depth(path: &str, depth: u32) -> (r: Option<ServerMessage>)
    ensures
        r is None <==> depth > 0,
        r matches Some(m) ==> is_outline_error(m, path@, "invalid input: depth must be >= 1"@),
{
    if depth == 0 {
        Some(outline_error(path, "invalid input: depth must be >= 1".to_owned()))
    } else {
        None
    }
}

proof fn same_symbols_refl(a: Seq<OutlineSymbol>)
    ensures
        same_symbols(a, a),
{
    assert forall|i: int| 0 <= i < a.len() implies crate::types::same_symbol(#[trigger] a[i], a[i]) by {
        same_symbol_refl(a[i]);
    }
}

proof fn same_symbol_refl(a: OutlineSymbol)
    ensures
        crate::types::same_symbol(a, a),
    decreases a,
{
    assert forall|i: int| 0 <= i < a.children@.len() implies crate::types::same_symbol(
        #[trigger] a.children@[i],
        a.children@[i],
    ) by {
        same_symbol_refl(a.children@[i]);
    }
}

impl Daemon {
    /// The answer to a request for an outline from the cache, if it holds one for this very text.
    pub fn outline_from_cache(&self, path: &str, text: &str) -> (r: Option<ServerMessage>)
        requires
            self.wf(),
        ensures
            match value_of(self.outlines@, path@) {
                Some(c) if c.text_checksum == checksum(text@) => r matches Some(m) && is_outline(
                    m,
                    path@,
                    self.log@.generation,
                    c.symbols@,
                    None,
                    false,
                ),
                _ => r is None,
            },
    {
        match self.cached_outline(path, text) {
            Some(s) => Some(
                ServerMessage::Outline {
                    path: path.to_owned(),
                    generation: self.log.generation,
                    symbols: copy_symbols(s),
                    error: None,
                    truncated: false,
                },
            ),
            None => None,
        }
    }

    /// The answer to a request for an outline, with what the server gave. A tree is kept for the
    /// text it was made for; an error is passed on.
    pub fn finish_outline(
        &mut self,
        path: &str,
        text: &str,
        fetched: Result<Vec<OutlineSymbol>, String>,
    ) -> (r: ServerMessage)
        requires
            old(self).wf(),
        ensures
            final(self).wf(),
            *final(self) == (Daemon { outlines: final(self).outlines, ..*old(self) }),
            match fetched {
                Ok(s) => {
                    &&& is_outline(r, path@, old(self).log@.generation, s@, None, false)
                    &&& final(self).outlines@ == newest(
                        put(
                            old(self).outlines@,
                            path@,
                            OutlineCache { text_checksum: checksum(text@), symbols: s },
                        ),
                        MAX_HINT_CACHE as int,
                    )
                },
                Err(e) => {
                    &&& is_outline(
                        r,
                        path@,
                        old(self).log@.generation,
                        Seq::empty(),
                        Some(e@),
                        false,
                    )
                    &&& final(self).outlines == old(self).outlines
                },
            },
    {
        match fetched {
            Ok(s) => {
                let shown = copy_symbols(&s);
                self.cache_outline(path, text, s);
                ServerMessage::Outline {
                    path: path.to_owned(),
                    generation: self.log.generation,
                    symbols: shown,
                    error: None,
                    truncated: false,
                }
            },
            Err(e) => ServerMessage::Outline {
                path: path.to_owned(),
                generation: self.log.generation,
                symbols: Vec::new(),
                error: Some(e),
                truncated: false,
            },
        }
    }

    /// The answer to a request for a recursive outline.
    pub fn outline_recursive_answer(
        &self,
        path: &str,
        symbols: Vec<OutlineSymbol>,
        error: Option<String>,
        truncated: bool,
    ) -> (r: ServerMessage)
        ensures
            is_outline(
                r,
                path@,
                self.log@.generation,
                symbols@,
                opt_view(error),
                truncated,
            ),
    {
        proof {
            same_symbols_refl(symbols@);
        }
        ServerMessage::Outline {
            path: path.to_owned(),
            generation: self.log.generation,
            symbols,
            error,
            truncated,
        }
    }
}

/// Whether a symbol's range holds a character.
pub open spec fn holds(s: OutlineSymbol, at: usize) -> bool {
    s.range.lo() <= at < s.range.hi()
}

/// The innermost symbol around a character: the first symbol of the list that holds it, or the
/// innermost one among its children if one of them does.
pub open spec fn innermost(v: Seq<OutlineSymbol>, at: usize) -> Option<OutlineSymbol>
    decreases v,
{
    if v.len() == 0 {
        None
    } else if holds(v[0], at) {
        match innermost(v[0].children@, at) {
            Some(s) => Some(s),
            None => Some(v[0]),
        }
    } else {
        innermost(v.subrange(1, v.len() as int), at)
    }
}

/// Whether a symbol is in a list, or below one of its symbols.
pub open spec fn occurs(v: Seq<OutlineSymbol>, s: OutlineSymbol) -> bool
    decreases v,
{
    exists|i: int|
        0 <= i < v.len() && (#[trigger] v[i] == s || occurs(v[i].children@, s))
}

/// The innermost symbol is one of the symbols, it holds the character, and none of its children
/// does. There is none exactly if no symbol of the list holds the character.
pub proof fn innermost_laws(v: Seq<OutlineSymbol>, at: usize)
    ensures
        match innermost(v, at) {
            Some(s) => {
                &&& occurs(v, s)
                &&& holds(s, at)
                &&& forall|i: int|
                    0 <= i < s.children@.len() ==> !holds(#[trigger] s.children@[i], at)
            },
            None => forall|i: int| 0 <= i < v.len() ==> !holds(#[trigger] v[i], at),
        },
    decreases v,
{
    if v.len() > 0 {
        let rest = v.subrange(1, v.len() as int);
        if holds(v[0], at) {
            innermost_laws(v[0].children@, at);
            assert(v[0] == v[0]);
        } else {
            innermost_laws(rest, at);
            match innermost(rest, at) {
                Some(s) => {
                    let i = choose|i: int|
                        0 <= i < rest.len() && (#[trigger] rest[i] == s || occurs(
                            rest[i].children@,
                            s,
                        ));
                    assert(v[i + 1] == rest[i]);
                },
                None => {
                    assert forall|i: int| 0 <= i < v.len() implies !holds(#[trigger] v[i], at) by {
                        if i > 0 {
                            assert(rest[i - 1] == v[i]);
                        }
                    }
                },
            }
        }
    }
}

/// The innermost symbol around a character.
pub fn enclosing_symbol(symbols: &Vec<OutlineSymbol>, at: usize) -> (r: Option<&OutlineSymbol>)
    ensures
        match innermost(symbols@, at) {
            Some(s) => r == Some(&s),
            None => r is None,
        },
    decreases symbols,
{
    let mut i: usize = 0;
    assert(symbols@.subrange(0, symbols@.len() as int) =~= symbols@);
    while i < symbols.len()
        invariant
            i <= symbols@.len(),
            innermost(symbols@, at) == innermost(
                symbols@.subrange(i as int, symbols@.len() as int),
                at,
            ),
        decreases symbols@.len() - i,
    {
        let s = &symbols[i];
        let ghost from = symbols@.subrange(i as int, symbols@.len() as int);
        assert(from[0] == *s);
        assert(from.subrange(1, from.len() as int) =~= symbols@.subrange(
            i + 1,
            symbols@.len() as int,
        ));
        if s.range.start() <= at && at < s.range.end() {
            return match enclosing_symbol(&s.children, at) {
                Some(inner) => Some(inner),
                None => Some(s),
            };
        }
        i = i + 1;
    }
    None
}

/// Whether a message names the symbol around a position, or says that there is none.
pub open spec fn is_enclosing(
    m: ServerMessage,
    path: Seq<char>,
    hit: Option<OutlineSymbol>,
    error: Option<Seq<char>>,
) -> bool {
    m matches ServerMessage::EnclosingSymbol {
        path: p,
        name,
        kind,
        range,
        selection_range,
        found,
        error: e,
    } && p@ == path && opt_view(e) == error && match hit {
        Some(h) => found && name@ == h.name@ && kind == h.kind && range == h.range
            && selection_range == h.selection_range,
        None => !found && name@.len() == 0 && kind == SymbolKind::Other && range == (Range {
            anchor: 0,
            head: 0,
        }) && selection_range == (Range { anchor: 0, head: 0 }),
    }
}

/// The answer to a request for the symbol around a position that failed.
pub fn enclosing_error(path: &str, error: String) -> (r: ServerMessage)
    ensures
        is_enclosing(r, path@, None, Some(error@)),
{
    no_symbol(path, Some(error))
}

/// The answer that names no symbol.
fn no_symbol(path: &str, error: Option<String>) -> (r: ServerMessage)
    ensures
        is_enclosing(r, path@, None, opt_view(error)),
{
    ServerMessage::EnclosingSymbol {
        path: path.to_owned(),
        name: String::new(),
        kind: SymbolKind::Other,
        range: Range { anchor: 0, head: 0 },
        selection_range: Range { anchor: 0, head: 0 },
        found: false,
        error,
    }
}

/// The answer to a request for the symbol around a character, given the file's symbols. Nothing
/// around it is no error.
pub fn enclosing_answer(path: &str, symbols: &Vec<OutlineSymbol>, at: usize) -> (r: ServerMessage)
    ensures
        is_enclosing(r, path@, innermost(symbols@, at), None),
{
    match enclosing_symbol(symbols, at) {
        Some(s) => ServerMessage::EnclosingSymbol {
            path: path.to_owned(),
            name: s.name.clone(),
            kind: s.kind,
            range: s.range,
            selection_range: s.selection_range,
            found: true,
            error: None,
        },
        None => no_symbol(path, None),
    }
}

impl Daemon {
    /// The answer to a request for the symbol around a character from the cache, if it holds the
    /// symbols of this very text.
    pub fn enclosing_from_cache(&self, path: &str, text: &str, at: usize) -> (r: Option<
        ServerMessage,
    >)
        requires
            self.wf(),
        ensures
            match value_of(self.outlines@, path@) {
                Some(c) if c.text_checksum == checksum(text@) => r matches Some(m) && is_enclosing(
                    m,
                    path@,
                    innermost(c.symbols@, at),
                    None,
                ),
                _ => r is None,
            },
    {
        match self.cached_outline(path, text) {
            Some(s) => Some(enclosing_answer(path, s, at)),
            None => None,
        }
    }

    /// The last step of a request for the symbol around a character: the tree that the server gave
    /// is kept for its text, and the innermost symbol around the character is given to the client.
    /// Without a tree the server's error is.
    pub fn finish_enclosing(
        &mut self,
        path: &str,
        text: &str,
        fetched: Result<Vec<OutlineSymbol>, String>,
        at: usize,
    ) -> (r: ServerMessage)
        requires
            old(self).wf(),
        ensures
            final(self).wf(),
            *final(self) == (Daemon { outlines: final(self).outlines, ..*old(self) }),
            match fetched {
                Ok(s) => {
                    &&& is_enclosing(r, path@, innermost(s@, at), None)
                    &&& final(self).outlines@ == newest(
                        put(
                            old(self).outlines@,
                            path@,
                            OutlineCache { text_checksum: checksum(text@), symbols: s },
                        ),
                        MAX_HINT_CACHE as int,
                    )
                },
                Err(e) => {
                    &&& is_enclosing(r, path@, None, Some(e@))
                    &&& final(self).outlines == old(self).outlines
                },
            },
    {
        match fetched {
            Ok(s) => {
                let m = enclosing_answer(path, &s, at);
                self.cache_outline(path, text, s);
                m
            },
            Err(e) => enclosing_error(path, e),
        }
    }
}

/// Whether a message is an answer about the hover text at a position.
pub open spec fn is_hover(
    m: ServerMessage,
    path: Seq<char>,
    generation: u64,
    text: Seq<char>,
    error: Option<Seq<char>>,
) -> bool {
    m matches ServerMessage::Hover { path: p, generation: g, text: t, error: e } && p@ == path && g
        == generation && t@ == text && opt_view(e) == error
}

/// The answer to a hover request that failed.
pub fn hover_error(path: &str, error: String) -> (r: ServerMessage)
    ensures
        is_hover(r, path@, 0, Seq::empty(), Some(error@)),
{
    ServerMessage::Hover {
        path: path.to_owned(),
        generation: 0,
        text: String::new(),
        error: Some(error),
    }
}

impl Daemon {
    /// The answer to a hover request. Nothing at the position is an empty text.
    pub fn hover_answer(&self, path: &str, hovered: Option<String>) -> (r: ServerMessage)
        ensures
            is_hover(
                r,
                path@,
                self.log@.generation,
                match hovered {
                    Some(h) => h@,
                    None => Seq::empty(),
                },
                None,
            ),
    {
        ServerMessage::Hover {
            path: path.to_owned(),
            generation: self.log.generation,
            text: match hovered {
                Some(h) => h,
                None => String::new(),
            },
            error: None,
        }
    }
}

/// A symbol as a language server gives it: an address, and a line counted from 0.
pub struct FoundSymbol {
    pub uri: String,
    pub kind: SymbolKind,
    pub name: String,
    pub line: u32,
}

/// The path of a file address; any other address is left as it is.
pub open spec fn uri_path(uri: Seq<char>) -> Seq<char> {
    if has_prefix(uri, "file://"@) {
        uri.skip("file://"@.len() as int)
    } else {
        uri
    }
}

/// Whether `s` is `f` with its path, and its line counted from 1.
pub open spec fn is_symbol_of(f: FoundSymbol, s: WorkspaceSymbol) -> bool {
    s.name@ == f.name@ && s.kind == f.kind && s.path@ == uri_path(f.uri@) && s.line == f.line + 1
}

/// The answer to a symbol search that failed.
pub fn symbols_error(error: String) -> (r: ServerMessage)
    ensures
        r matches ServerMessage::WorkspaceSymbols { generation, symbols, error: e } && generation
            == 0 && symbols@.len() == 0 && opt_view(e) == Some(error@),
{
    ServerMessage::WorkspaceSymbols { generation: 0, symbols: Vec::new(), error: Some(error) }
}

/// Whether a text may be searched for; the answer if it may not.
pub fn check_query(query: &str) -> (r: Option<ServerMessage>)
    ensures
        r is None <==> query@.len() > 0,
        r matches Some(m) ==> (m matches ServerMessage::WorkspaceSymbols {
            generation,
            symbols,
            error,
        } && generation == 0 && symbols@.len() == 0 && opt_view(error) == Some(
            "invalid input: query must be non-empty"@,
        )),
{
    if query.is_empty() {
        Some(symbols_error("invalid input: query must be non-empty".to_owned()))
    } else {
        None
    }
}

impl Daemon {
    /// The answer to a symbol search.
    pub fn symbols_answer(&self, fetched: Result<Vec<FoundSymbol>, String>) -> (r: ServerMessage)
        requires
            fetched matches Ok(v) ==> forall|i: int|
                0 <= i < v@.len() ==> (#[trigger] v@[i]).line < u32::MAX,
        ensures
            r matches ServerMessage::WorkspaceSymbols { generation, symbols, error } && {
                &&& generation == self.log@.generation
                &&& match fetched {
                    Ok(v) => {
                        &&& error is None
                        &&& symbols@.len() == v@.len()
                        &&& forall|i: int|
                            0 <= i < v@.len() ==> is_symbol_of(v@[i], #[trigger] symbols@[i])
                    },
                    Err(e) => symbols@.len() == 0 && opt_view(error) == Some(e@),
                }
            },
    {
        match fetched {
            Ok(v) => {
                let mut symbols: Vec<WorkspaceSymbol> = Vec::new();
                let mut i: usize = 0;
                while i < v.len()
                    invariant
                        i <= v.len(),
                        symbols@.len() == i,
                        forall|j: int| 0 <= j < v@.len() ==> (#[trigger] v@[j]).line < u32::MAX,
                        forall|j: int|
                            0 <= j < i ==> is_symbol_of(v@[j], #[trigger] symbols@[j]),
                    decreases v.len() - i,
                {
                    let path = match after_prefix(v[i].uri.as_str(), "file://") {
                        Some(p) => p,
                        None => v[i].uri.clone(),
                    };
                    let line: u32 = v[i].line + 1;
                    symbols.push(
                        WorkspaceSymbol { name: v[i].name.clone(), kind: v[i].kind, path, line },
                    );
                    i = i + 1;
                }
                ServerMessage::WorkspaceSymbols {
                    generation: self.log.generation,
                    symbols,
                    error: None,
                }
            },
            Err(e) => ServerMessage::WorkspaceSymbols {
                generation: self.log.generation,
                symbols: Vec::new(),
                error: Some(e),
            },
        }
    }
}

/// Whether `c` is diagnostic `d` of a text with its line and column, both counted from 1.
pub open spec fn is_check_of(text: Seq<char>, d: Diagnostic, c: CheckDiagnostic) -> bool {
    let n = clamped(text, d.start as int);
    &&& c.severity == d.severity
    &&& c.line == newlines_before(text, n) + 1
    &&& c.col == (n - line_head(text, n) + 1) as u32
    &&& c.start == d.start
    &&& c.end == d.end
    &&& c.message@ == d.message@
}

/// The answer to a check that failed. A failed check does not count as settled.
pub fn check_error(path: &str, error: String) -> (r: ServerMessage)
    ensures
        r matches ServerMessage::Check { path: p, generation, total, diagnostics, settled, error: e }
            && p@ == path@ && generation == 0 && total == 0 && diagnostics@.len() == 0 && !settled
            && opt_view(e) == Some(error@),
{
    ServerMessage::Check {
        path: path.to_owned(),
        generation: 0,
        total: 0,
        diagnostics: Vec::new(),
        settled: false,
        error: Some(error),
    }
}

impl Daemon {
    /// The answer to a check: the diagnostics with their lines and columns. Whether they have
    /// settled is passed on; an empty list alone does not mean that the file is clean.
    pub fn check_answer(&self, path: &str, text: &str, diags: &Vec<Diagnostic>, settled: bool) -> (r:
        ServerMessage)
        requires
            newlines_before(text@, text@.len() as int) < u32::MAX,
            text@.len() < usize::MAX,
        ensures
            r matches ServerMessage::Check {
                path: p,
                generation,
                total,
                diagnostics,
                settled: s,
                error,
            } && {
                &&& p@ == path@
                &&& generation == self.log@.generation
                &&& total == diags@.len()
                &&& diagnostics@.len() == diags@.len()
                &&& forall|i: int|
                    0 <= i < diags@.len() ==> is_check_of(
                        text@,
                        diags@[i],
                        #[trigger] diagnostics@[i],
                    )
                &&& s == settled
                &&& error is None
            },
    {
        let mut diagnostics: Vec<CheckDiagnostic> = Vec::new();
        let mut i: usize = 0;
        while i < diags.len()
            invariant
                i <= diags.len(),
                newlines_before(text@, text@.len() as int) < u32::MAX,
                text@.len() < usize::MAX,
                diagnostics@.len() == i,
                forall|j: int|
                    0 <= j < i ==> is_check_of(text@, diags@[j], #[trigger] diagnostics@[j]),
            decreases diags.len() - i,
        {
            let start = diags[i].start;
            proof {
                let n = clamped(text@, start as int);
                if start <= text@.len() {
                    crate::text::newlines_step(text@, start as int, text@.len() as int);
                } else {
                    crate::text::newlines_step(text@, text@.len() as int, start as int);
                }
            }
            let line: u32 = line_of_char(text, start) + 1;
            diagnostics.push(
                CheckDiagnostic {
                    severity: diags[i].severity,
                    line,
                    col: col_of_char(text, start),
                    start,
                    end: diags[i].end,
                    message: diags[i].message.clone(),
                },
            );
            i = i + 1;
        }
        let total = diagnostics.len();
        ServerMessage::Check {
            path: path.to_owned(),
            generation: self.log.generation,
            total,
            diagnostics,
            settled,
            error: None,
        }
    }

    /// The answer to a request for a file's text. Nothing else changes, whether the file is open or
    /// not.
    pub fn read_path_answer(&self, asked: &str, path: &str, disk: Option<String>) -> (r:
        ServerMessage)
        ensures
            r matches ServerMessage::ReadPath { path: p, generation, text, error } && p@ == path@
                && match file_text(*self, path@, opt_view(disk)) {
                Some(t) => generation == self.log@.generation && text@ == t && error is None,
                None => generation == 0 && text@.len() == 0 && opt_view(error) == Some(
                    "cannot open "@ + asked@,
                ),
            },
    {
        match self.resolve_doc_text(path, disk) {
            Some(text) => ServerMessage::ReadPath {
                path: path.to_owned(),
                generation: self.log.generation,
                text,
                error: None,
            },
            None => ServerMessage::ReadPath {
                path: path.to_owned(),
                generation: 0,
                text: String::new(),
                error: Some(joined("cannot open ", asked)),
            },
        }
    }

    /// The answer to a request about the daemon itself: its build, what it has counted, and the
    /// registered base roots in the order of their paths.
    pub fn serve_server_info(&self, build: Option<String>, build_ts: Option<u64>) -> (r:
        ServerMessage)
        ensures
            r matches ServerMessage::ServerInfo { generation, daemon_build_ts, metrics, base_roots }
                && {
                &&& generation@ == match build {
                    Some(b) => b@,
                    None => "unknown"@,
                }
                &&& daemon_build_ts == match build_ts {
                    Some(t) => t,
                    None => 0,
                }
                &&& metrics == self.metrics
                &&& in_order(info_views(base_roots@))
                &&& info_views(base_roots@).to_multiset() == root_commits(
                    self.base_roots@,
                ).to_multiset()
            },
    {
        ServerMessage::ServerInfo {
            generation: match build {
                Some(b) => b,
                None => "unknown".to_owned(),
            },
            daemon_build_ts: match build_ts {
                Some(t) => t,
                None => 0,
            },
            metrics: self.metrics,
            base_roots: self.base_root_infos(),
        }
    }
}

/// Where a symbol is referred to, as a language server gives it.
pub struct FoundReference {
    pub uri: String,
    pub line: u32,
}

/// Whether every address is a file's.
pub open spec fn all_files(v: Seq<FoundReference>) -> bool {
    forall|i: int| 0 <= i < v.len() ==> has_prefix((#[trigger] v[i]).uri@, "file://"@)
}

/// Whether address `i` is the first that is not a file's.
pub open spec fn first_stranger(v: Seq<FoundReference>, i: int) -> bool {
    &&& 0 <= i < v.len()
    &&& !has_prefix(v[i].uri@, "file://"@)
    &&& forall|j: int| 0 <= j < i ==> has_prefix((#[trigger] v[j]).uri@, "file://"@)
}

/// The answer to a request for references that failed.
pub fn err_refs(path: &str, msg: String) -> (r: ServerMessage)
    ensures
        r matches ServerMessage::ReferencesResult { path: p, locations, total, error } && p@ == path@
            && locations@.len() == 0 && total == 0 && opt_view(error) == Some(msg@),
{
    ServerMessage::ReferencesResult {
        path: path.to_owned(),
        locations: Vec::new(),
        total: 0,
        error: Some(msg),
    }
}

/// Whether references to a name may be asked for; the answer if they may not.
pub fn check_reference_name(path: &str, name: &str) -> (r: Option<ServerMessage>)
    ensures
        r is None <==> name@.len() > 0,
        r matches Some(m) ==> (m matches ServerMessage::ReferencesResult {
            path: p,
            locations,
            total,
            error,
        } && p@ == path@ && locations@.len() == 0 && total == 0 && opt_view(error) == Some(
            "invalid input: old must be non-empty"@,
        )),
{
    if name.is_empty() {
        Some(err_refs(path, "invalid input: old must be non-empty".to_owned()))
    } else {
        None
    }
}

/// The answer to a request for references. One place that is not in a file fails the whole answer.
pub fn references_answer(path: &str, found: &Vec<FoundReference>) -> (r: ServerMessage)
    ensures
        r matches ServerMessage::ReferencesResult { path: p, locations, total, error } && {
            &&& p@ == path@
            &&& all_files(found@) ==> {
                &&& error is None
                &&& total == found@.len()
                &&& locations@.len() == found@.len()
                &&& forall|i: int|
                    0 <= i < found@.len() ==> (#[trigger] locations@[i]).path@ == uri_path(
                        found@[i].uri@,
                    ) && locations@[i].line == found@[i].line
            }
            &&& !all_files(found@) ==> {
                &&& locations@.len() == 0
                &&& total == 0
                &&& exists|i: int| #[trigger]
                    first_stranger(found@, i) && opt_view(error) == Some(
                        "LSP 応答に file:// 以外の URI が含まれています: "@
                            + found@[i].uri@,
                    )
            }
        },
{
    let mut out: Vec<ReferenceLocation> = Vec::new();
    let mut i: usize = 0;
    while i < found.len()
        invariant
            i <= found.len(),
            out@.len() == i,
            forall|j: int| 0 <= j < i ==> has_prefix((#[trigger] found@[j]).uri@, "file://"@),
            forall|j: int|
                0 <= j < i ==> (#[trigger] out@[j]).path@ == uri_path(found@[j].uri@)
                    && out@[j].line == found@[j].line,
        decreases found.len() - i,
    {
        match path_from_uri(found[i].uri.as_str()) {
            Ok(p) => {
                out.push(ReferenceLocation { path: p, line: found[i].line });
            },
            Err(_) => {
                assert(first_stranger(found@, i as int));
                let m = joined(
                    "LSP 応答に file:// 以外の URI が含まれています: ",
                    found[i].uri.as_str(),
                );
                return err_refs(path, m);
            },
        }
        i = i + 1;
    }
    let total = out.len();
    ServerMessage::ReferencesResult { path: path.to_owned(), locations: out, total, error: None }
}

impl ServerMetrics {
    /// Whether every counter of answers can count one more, and `bytes` more bytes.
    pub open spec fn answer_room(self, bytes: u64) -> bool {
        &&& self.outline_total < u64::MAX
        &&& self.outline_bytes + bytes <= u64::MAX
        &&& self.symbol_range_total < u64::MAX
        &&& self.symbol_range_bytes + bytes <= u64::MAX
        &&& self.hover_total < u64::MAX
        &&& self.hover_bytes + bytes <= u64::MAX
        &&& self.symbol_search_total < u64::MAX
        &&& self.symbol_search_bytes + bytes <= u64::MAX
        &&& self.check_total < u64::MAX
        &&& self.check_bytes + bytes <= u64::MAX
        &&& self.read_total < u64::MAX
        &&& self.read_bytes + bytes <= u64::MAX
    }
}

/// The counters after an answer of `bytes` bytes.
pub open spec fn answer_counted(m: ServerMetrics, message: ServerMessage, bytes: u64) -> ServerMetrics {
    match message {
        ServerMessage::Outline { .. } => ServerMetrics {
            outline_total: (m.outline_total + 1) as u64,
            outline_bytes: (m.outline_bytes + bytes) as u64,
            ..m
        },
        ServerMessage::EnclosingSymbol { .. } => ServerMetrics {
            symbol_range_total: (m.symbol_range_total + 1) as u64,
            symbol_range_bytes: (m.symbol_range_bytes + bytes) as u64,
            ..m
        },
        ServerMessage::Hover { .. } => ServerMetrics {
            hover_total: (m.hover_total + 1) as u64,
            hover_bytes: (m.hover_bytes + bytes) as u64,
            ..m
        },
        ServerMessage::WorkspaceSymbols { .. } => ServerMetrics {
            symbol_search_total: (m.symbol_search_total + 1) as u64,
            symbol_search_bytes: (m.symbol_search_bytes + bytes) as u64,
            ..m
        },
        ServerMessage::Check { .. } => ServerMetrics {
            check_total: (m.check_total + 1) as u64,
            check_bytes: (m.check_bytes + bytes) as u64,
            ..m
        },
        ServerMessage::ReadPath { .. } => ServerMetrics {
            read_total: (m.read_total + 1) as u64,
            read_bytes: (m.read_bytes + bytes) as u64,
            ..m
        },
        _ => m,
    }
}

impl Daemon {
    /// Counts an answer and its size on the wire. An answer that tells of an error counts too.
    pub fn record_metric(&mut self, message: &ServerMessage, bytes: u64)
        requires
            old(self).wf(),
            old(self).metrics.answer_room(bytes),
        ensures
            final(self).wf(),
            *final(self) == (Daemon { metrics: final(self).metrics, ..*old(self) }),
            final(self).metrics == answer_counted(old(self).metrics, *message, bytes),
    {
        let mut m = self.metrics;
        match message {
            ServerMessage::Outline { .. } => {
                m.outline_total = m.outline_total + 1;
                m.outline_bytes = m.outline_bytes + bytes;
            },
            ServerMessage::EnclosingSymbol { .. } => {
                m.symbol_range_total = m.symbol_range_total + 1;
                m.symbol_range_bytes = m.symbol_range_bytes + bytes;
            },
            ServerMessage::Hover { .. } => {
                m.hover_total = m.hover_total + 1;
                m.hover_bytes = m.hover_bytes + bytes;
            },
            ServerMessage::WorkspaceSymbols { .. } => {
                m.symbol_search_total = m.symbol_search_total + 1;
                m.symbol_search_bytes = m.symbol_search_bytes + bytes;
            },
            ServerMessage::Check { .. } => {
                m.check_total = m.check_total + 1;
                m.check_bytes = m.check_bytes + bytes;
            },
            ServerMessage::ReadPath { .. } => {
                m.read_total = m.read_total + 1;
                m.read_bytes = m.read_bytes + bytes;
            },
            _ => {},
        }
        self.metrics = m;
    }
}

} // verus!
