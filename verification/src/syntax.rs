//! Syntax trees of open documents and the highlights of what is on the screen.
//!
//! A document is parsed once and from there on only where its text has changed. Highlights are kept
//! for the last window that was looked at.
use vstd::prelude::*;

use crate::daemon::Daemon;
use crate::editor::Editor;
use crate::languages::language_of;
use crate::lists::{picked_is_filter, split_marked};
use crate::strings::chars_of;
use crate::text::{
    checksum, fnv1a64, input_edit_from_diff, is_diff, line_byte, visible_window_range, InputEdit,
};
use crate::types::{copy_highlights, HighlightRange};

verus! {

/// A syntax tree; nothing is known of what is in it.
#[verifier::external_type_specification]
#[verifier::external_body]
pub struct ExTree(tree_sitter::Tree);

/// A language's parse tables.
#[verifier::external_type_specification]
#[verifier::external_body]
pub struct ExLanguage(tree_sitter::Language);

/// A compiled highlight query.
#[verifier::external_type_specification]
#[verifier::external_body]
pub struct ExQuery(tree_sitter::Query);

/// Why a query does not compile.
#[verifier::external_type_specification]
#[verifier::external_body]
pub struct ExQueryError(tree_sitter::QueryError);

/// A parser.
#[verifier::external_type_specification]
#[verifier::external_body]
pub struct ExParser(tree_sitter::Parser);

/// Why a parser does not take a language.
#[verifier::external_type_specification]
#[verifier::external_body]
pub struct ExLanguageError(tree_sitter::LanguageError);

/// The language that a parser has been given, if any.
pub uninterp spec fn parser_language(parser: tree_sitter::Parser) -> Option<tree_sitter::Language>;

/// Whether a parser takes a language.
pub uninterp spec fn takes(language: tree_sitter::Language) -> bool;

/// The tree that a parser makes of a text, with an older tree of it to start from.
pub uninterp spec fn parse_tree(
    parser: tree_sitter::Parser,
    text: Seq<char>,
    old_tree: Option<tree_sitter::Tree>,
) -> tree_sitter::Tree;

/// The language whose tables a tree was made with.
pub uninterp spec fn tree_language(tree: tree_sitter::Tree) -> tree_sitter::Language;

/// A tree whose nodes were moved by an edit of its text.
pub uninterp spec fn moved_tree(tree: tree_sitter::Tree, edit: InputEdit) -> tree_sitter::Tree;

/// What a query compiles to for a language, or nothing if it does not compile.
pub uninterp spec fn compiled(language: tree_sitter::Language, source: Seq<char>) -> Option<
    tree_sitter::Query,
>;

/// `tree_sitter::Parser::new` gives a parser without a language.
pub assume_specification[ tree_sitter::Parser::new ]() -> (r: tree_sitter::Parser)
    ensures
        parser_language(r) is None,
;

/// `tree_sitter::Parser::set_language` gives a parser its language, or refuses one whose tables it
/// cannot read. Whether it refuses depends on the language alone.
pub assume_specification[ tree_sitter::Parser::set_language ](
    parser: &mut tree_sitter::Parser,
    language: &tree_sitter::Language,
) -> (r: Result<(), tree_sitter::LanguageError>)
    ensures
        r is Ok <==> takes(*language),
        r is Ok ==> parser_language(*final(parser)) == Some(*language),
;

/// `tree_sitter::Query::new` compiles a query for a language, or refuses it. The outcome depends on
/// the language and the query's text alone.
pub assume_specification[ tree_sitter::Query::new ](
    language: &tree_sitter::Language,
    source: &str,
) -> (r: Result<tree_sitter::Query, tree_sitter::QueryError>)
    ensures
        match compiled(*language, source@) {
            Some(q) => r matches Ok(x) && x == q,
            None => r is Err,
        },
;

/// Whether a parser gives a tree of a text: it has a language, and an older tree to start from is of
/// that language.
pub open spec fn parses(
    parser: tree_sitter::Parser,
    old_tree: Option<tree_sitter::Tree>,
) -> bool {
    match parser_language(parser) {
        Some(l) => old_tree matches Some(t) ==> tree_language(t) == l,
        None => false,
    }
}

/// `tree_sitter::Parser::parse` parses a text, with an older tree of it to start from. It gives
/// nothing if the parser has no language or the older tree is of another language, and else a tree
/// of the parser's language. The tree depends on the parser, the text and the older tree alone. The
/// parser keeps its language.
#[verifier::external_body]
fn parse(
    parser: &mut tree_sitter::Parser,
    text: &str,
    old_tree: Option<&tree_sitter::Tree>,
) -> (r: Option<tree_sitter::Tree>)
    ensures
        parser_language(*final(parser)) == parser_language(*old(parser)),
        ({
            let older = match old_tree {
                Some(t) => Some(*t),
                None => None,
            };
            if parses(*old(parser), older) {
                &&& r == Some(parse_tree(*old(parser), text@, older))
                &&& Some(tree_language(r.unwrap())) == parser_language(*old(parser))
            } else {
                r is None
            }
        }),
{
    parser.parse(text, old_tree)
}

/// `tree_sitter::Tree::edit` moves the places of a tree's nodes by an edit. The moved tree depends
/// on the tree and the edit alone, and is of the same language.
#[verifier::external_body]
fn edit_tree(tree: &mut tree_sitter::Tree, edit: &InputEdit)
    ensures
        *final(tree) == moved_tree(*old(tree), *edit),
        tree_language(*final(tree)) == tree_language(*old(tree)),
{
    let (from, old_to, new_to) =
        (&edit.start_position, &edit.old_end_position, &edit.new_end_position);
    tree.edit(&tree_sitter::InputEdit {
        start_byte: edit.start_byte,
        old_end_byte: edit.old_end_byte,
        new_end_byte: edit.new_end_byte,
        start_position: tree_sitter::Point::new(from.row, from.column),
        old_end_position: tree_sitter::Point::new(old_to.row, old_to.column),
        new_end_position: tree_sitter::Point::new(new_to.row, new_to.column),
    });
}

/// How a language is parsed and highlighted.
pub struct Grammar {
    pub language: tree_sitter::Language,
    pub highlights: String,
}

/// The highlights of a window of a text.
pub struct Window {
    pub text_checksum: u64,
    pub first_line: usize,
    pub height: usize,
    pub ranges: Vec<HighlightRange>,
}

/// What is kept of a document: the text that was parsed last and its tree, the language, the query,
/// and the highlights of the last window.
pub struct SyntaxCache {
    pub doc: u64,
    pub text_checksum: u64,
    pub old_text: String,
    pub tree: tree_sitter::Tree,
    pub language: tree_sitter::Language,
    pub query: tree_sitter::Query,
    pub window: Option<Window>,
}

/// What is kept of the open documents.
pub struct SyntaxStore {
    pub entries: Vec<SyntaxCache>,
}

/// What is to be highlighted: a stretch of bytes and the character at which it starts.
pub struct WindowJob {
    pub start: usize,
    pub end: usize,
    pub first_char: usize,
}

/// The highlights of a window, or what the query has to be run on to get them.
pub enum Highlights {
    Ready(Vec<HighlightRange>),
    Run(WindowJob),
}

/// The place of the first row of a document from row `i` on, or the number of rows.
pub open spec fn row_from(v: Seq<SyntaxCache>, doc: u64, i: int) -> int
    decreases v.len() - i,
{
    if i >= v.len() {
        v.len() as int
    } else if v[i].doc == doc {
        i
    } else {
        row_from(v, doc, i + 1)
    }
}

/// The rows of documents that are open.
pub open spec fn live(v: Seq<SyntaxCache>, e: crate::editor::EditorView) -> Seq<SyntaxCache> {
    v.filter(|x: SyntaxCache| e.has_doc(x.doc))
}

/// The place of the first character after `k` line feeds, counted from `at`, or the text's length.
pub open spec fn char_line_from(s: Seq<char>, at: int, k: int) -> int
    decreases s.len() - at,
{
    if k <= 0 || at >= s.len() {
        at
    } else {
        char_line_from(
            s,
            at + 1,
            if s[at] == '\n' {
                k - 1
            } else {
                k
            },
        )
    }
}

/// What is seen of a document through a window: the kept highlights, if they are of this text and
/// this window, and else the window's bytes and first character.
pub open spec fn seen(
    x: SyntaxCache,
    text: Seq<char>,
    first_line: usize,
    height: usize,
    r: Highlights,
) -> bool {
    match x.window {
        Some(w) if w.text_checksum == checksum(text) && w.first_line == first_line && w.height
            == height => r matches Highlights::Ready(v) && v@ == w.ranges@,
        _ => r matches Highlights::Run(job) && {
            let b = vstd::utf8::encode_utf8(text);
            &&& job.start == line_byte(b, first_line as int)
            &&& job.end == line_byte(b, first_line + height)
            &&& job.first_char == char_line_from(text, 0, first_line as int)
        },
    }
}

/// Whether a row was made for a text of a document.
pub open spec fn made_for(x: SyntaxCache, doc: u64, text: Seq<char>) -> bool {
    x.doc == doc && x.text_checksum == checksum(text) && x.old_text@ == text
}

/// Whether a parser with a language makes a tree of a text, with an older tree to start from.
pub open spec fn is_tree(
    tree: tree_sitter::Tree,
    language: tree_sitter::Language,
    text: Seq<char>,
    old_tree: Option<tree_sitter::Tree>,
) -> bool {
    exists|p: tree_sitter::Parser|
        parser_language(p) == Some(language) && tree == #[trigger] parse_tree(p, text, old_tree)
}

impl SyntaxCache {
    /// Whether a row's tree is of the row's language.
    pub open spec fn wf(self) -> bool {
        tree_language(self.tree) == self.language
    }
}

/// Whether a row is made anew for a text: the text is parsed from nothing, and the grammar's query
/// is compiled.
pub open spec fn new_row(x: SyntaxCache, doc: u64, text: Seq<char>, g: Grammar) -> bool {
    &&& made_for(x, doc, text)
    &&& x.wf()
    &&& x.window is None
    &&& x.language == g.language
    &&& Some(x.query) == compiled(g.language, g.highlights@)
    &&& is_tree(x.tree, g.language, text, None)
}

/// Whether a row is brought up to a changed text: the older tree is moved by what has changed, and
/// the text is parsed from there.
pub open spec fn updated_row(old_row: SyntaxCache, x: SyntaxCache, text: Seq<char>) -> bool {
    &&& made_for(x, old_row.doc, text)
    &&& x.wf()
    &&& x.window == old_row.window
    &&& x.language == old_row.language
    &&& x.query == old_row.query
    &&& exists|e: InputEdit| #[trigger]
        is_diff(old_row.old_text@, text, e) && is_tree(x.tree, x.language, text, Some(moved_tree(old_row.tree, e)))
}

/// Whether there are no highlights.
pub open spec fn is_plain(r: Highlights) -> bool {
    r matches Highlights::Ready(v) && v@.len() == 0
}

/// The first character of a line, or the text's length if there is no such line.
fn line_first_char(text: &str, line: usize) -> (r: usize)
    ensures
        r == char_line_from(text@, 0, line as int),
{
    let cs = chars_of(text);
    let mut at: usize = 0;
    let mut left: usize = line;
    while left > 0 && at < cs.len()
        invariant
            at <= cs@.len(),
            cs@ == text@,
            char_line_from(text@, at as int, left as int) == char_line_from(text@, 0, line as int),
        decreases cs@.len() - at,
    {
        if cs[at] == '\n' {
            left = left - 1;
        }
        at = at + 1;
    }
    at
}

/// Parses a text from nothing.
fn parse_whole(language: &tree_sitter::Language, text: &str) -> (r: Option<tree_sitter::Tree>)
    ensures
        r is Some <==> takes(*language),
        r matches Some(t) ==> is_tree(t, *language, text@, None) && tree_language(t) == *language,
{
    let mut parser = tree_sitter::Parser::new();
    if parser.set_language(language).is_err() {
        return None;
    }
    parse(&mut parser, text, None)
}

/// Parses a text from a tree of an older text, or from nothing if that tree is of another language.
fn parse_again(language: &tree_sitter::Language, text: &str, tree: &tree_sitter::Tree) -> (r: Option<
    tree_sitter::Tree,
>)
    ensures
        r is Some <==> takes(*language),
        r matches Some(t) ==> tree_language(t) == *language && is_tree(
            t,
            *language,
            text@,
            if tree_language(*tree) == *language {
                Some(*tree)
            } else {
                None
            },
        ),
{
    let mut parser = tree_sitter::Parser::new();
    if parser.set_language(language).is_err() {
        return None;
    }
    match parse(&mut parser, text, Some(tree)) {
        Some(t) => Some(t),
        None => parse(&mut parser, text, None),
    }
}

impl SyntaxStore {
    /// Whether each row's tree is of the row's language.
    pub open spec fn wf(self) -> bool {
        forall|i: int| 0 <= i < self.entries@.len() ==> (#[trigger] self.entries@[i]).wf()
    }

    /// A store without rows.
    pub fn new() -> (r: SyntaxStore)
        ensures
            r.entries@.len() == 0,
            r.wf(),
    {
        SyntaxStore { entries: Vec::new() }
    }

    /// The place of a document's row, or the number of rows.
    pub fn row(&self, doc: u64) -> (r: usize)
        ensures
            r == row_from(self.entries@, doc, 0),
            r <= self.entries@.len(),
    {
        let mut i: usize = 0;
        while i < self.entries.len()
            invariant
                i <= self.entries@.len(),
                row_from(self.entries@, doc, 0) == row_from(self.entries@, doc, i as int),
            decreases self.entries@.len() - i,
        {
            if self.entries[i].doc == doc {
                return i;
            }
            i = i + 1;
        }
        i
    }

    /// Drops the rows of documents that are not open any more.
    fn keep_live(&mut self, editor: &Editor)
        requires
            old(self).wf(),
        ensures
            final(self).entries@ == live(old(self).entries@, editor@),
            final(self).wf(),
    {
        let ghost all = self.entries@;
        let ghost open = |x: SyntaxCache| editor@.has_doc(x.doc);
        let mut marks: Vec<bool> = Vec::new();
        let mut i: usize = 0;
        while i < self.entries.len()
            invariant
                i <= self.entries@.len(),
                marks@.len() == i,
                forall|j: int|
                    0 <= j < i ==> #[trigger] marks@[j] == editor@.has_doc(self.entries@[j].doc),
            decreases self.entries@.len() - i,
        {
            marks.push(editor.doc_index(self.entries[i].doc) < editor.documents.len());
            i = i + 1;
        }
        proof {
            picked_is_filter(all, marks@, open);
            let stay = all.filter(open);
            assert forall|j: int| 0 <= j < stay.len() implies (#[trigger] stay[j]).wf() by {
                all.lemma_filter_contains_rev(open, stay[j]);
            }
        }
        let _gone = split_marked(&mut self.entries, &marks);
    }

    /// The highlights of a document's window. Rows of documents that are gone are dropped. Without
    /// a grammar there are no highlights. A text that was parsed already is not parsed again; one
    /// that has changed is parsed from the tree of the older text, and one that cannot be parsed has
    /// no highlights and no row.
    pub fn syntax_highlights(
        &mut self,
        editor: &Editor,
        doc: u64,
        text: &str,
        first_line: usize,
        height: usize,
        grammar: Option<Grammar>,
    ) -> (r: Highlights)
        requires
            old(self).wf(),
        ensures
            final(self).wf(),
            ({
                let rows = live(old(self).entries@, editor@);
                let i = row_from(rows, doc, 0);
                let now = final(self).entries@;
                match grammar {
                    None => is_plain(r) && now == if i < rows.len() {
                        rows.remove(i)
                    } else {
                        rows
                    },
                    Some(g) => if i < rows.len() {
                        if rows[i].text_checksum == checksum(text@) {
                            now == rows && seen(rows[i], text@, first_line, height, r)
                        } else if takes(rows[i].language) {
                            &&& now == rows.update(i, now[i])
                            &&& updated_row(rows[i], now[i], text@)
                            &&& seen(now[i], text@, first_line, height, r)
                        } else {
                            is_plain(r) && now == rows.remove(i)
                        }
                    } else if takes(g.language) && compiled(g.language, g.highlights@) is Some {
                        &&& now == rows.push(now[i])
                        &&& new_row(now[i], doc, text@, g)
                        &&& seen(now[i], text@, first_line, height, r)
                    } else {
                        is_plain(r) && now == rows
                    },
                }
            }),
    {
        self.keep_live(editor);
        let ghost rows = self.entries@;
        let i = self.row(doc);
        proof {
            row_is_docs(rows, doc, 0);
        }
        let g = match grammar {
            Some(g) => g,
            None => {
                if i < self.entries.len() {
                    self.entries.remove(i);
                }
                return Highlights::Ready(Vec::new());
            },
        };
        let sum = fnv1a64(text.as_bytes());
        if i >= self.entries.len() {
            let tree = match parse_whole(&g.language, text) {
                Some(t) => t,
                None => {
                    return Highlights::Ready(Vec::new());
                },
            };
            let query = match tree_sitter::Query::new(&g.language, g.highlights.as_str()) {
                Ok(q) => q,
                Err(_) => {
                    return Highlights::Ready(Vec::new());
                },
            };
            self.entries.push(
                SyntaxCache {
                    doc,
                    text_checksum: sum,
                    old_text: text.to_owned(),
                    tree,
                    language: g.language,
                    query,
                    window: None,
                },
            );
        } else if self.entries[i].text_checksum != sum {
            let mut x = self.entries.remove(i);
            let edit = input_edit_from_diff(x.old_text.as_str(), text);
            edit_tree(&mut x.tree, &edit);
            match parse_again(&x.language, text, &x.tree) {
                Some(t) => {
                    x.tree = t;
                },
                None => {
                    return Highlights::Ready(Vec::new());
                },
            }
            x.old_text = text.to_owned();
            x.text_checksum = sum;
            self.entries.insert(i, x);
            assert(self.entries@ =~= rows.update(i as int, x));
        }
        match &self.entries[i].window {
            Some(w) => {
                if w.text_checksum == sum && w.first_line == first_line && w.height == height {
                    return Highlights::Ready(copy_highlights(&w.ranges));
                }
            },
            None => {},
        }
        let window = visible_window_range(text, first_line, height);
        let first_char = line_first_char(text, first_line);
        Highlights::Run(WindowJob { start: window.start, end: window.end, first_char })
    }

    /// Keeps the highlights of a document's window, if the document has a row.
    pub fn keep_window(
        &mut self,
        doc: u64,
        text: &str,
        first_line: usize,
        height: usize,
        ranges: Vec<HighlightRange>,
    )
        requires
            old(self).wf(),
        ensures
            final(self).wf(),
            ({
                let rows = old(self).entries@;
                let i = row_from(rows, doc, 0);
                if i < rows.len() {
                    final(self).entries@ == rows.update(
                        i,
                        SyntaxCache {
                            window: Some(
                                Window { text_checksum: checksum(text@), first_line, height, ranges },
                            ),
                            ..rows[i]
                        },
                    )
                } else {
                    *final(self) == *old(self)
                }
            }),
    {
        let i = self.row(doc);
        if i < self.entries.len() {
            let ghost rows = self.entries@;
            let text_checksum = fnv1a64(text.as_bytes());
            let mut x = self.entries.remove(i);
            x.window = Some(Window { text_checksum, first_line, height, ranges });
            self.entries.insert(i, x);
            assert(self.entries@ =~= rows.update(i as int, x));
        }
    }
}

proof fn row_is_docs(v: Seq<SyntaxCache>, doc: u64, i: int)
    requires
        0 <= i <= v.len(),
    ensures
        i <= row_from(v, doc, i) <= v.len(),
        row_from(v, doc, i) < v.len() ==> v[row_from(v, doc, i)].doc == doc,
    decreases v.len() - i,
{
    if i < v.len() && v[i].doc != doc {
        row_is_docs(v, doc, i + 1);
    }
}

/// Highlights that were kept are given again for the same text and window.
pub proof fn kept_window_is_seen(x: SyntaxCache, text: Seq<char>, w: Window, r: Highlights)
    requires
        x.window == Some(w),
        w.text_checksum == checksum(text),
        seen(x, text, w.first_line, w.height, r),
    ensures
        r matches Highlights::Ready(v) && v@ == w.ranges@,
{
}

impl Daemon {
    /// The name of the grammar that a document is parsed with: its path's language's.
    pub fn grammar_name(&self, doc: u64) -> (r: Option<String>)
        ensures
            r == if self.editor@.has_doc(doc) {
                match self.editor@.doc(doc).path {
                    Some(p) => match language_of(self.languages.languages@, p) {
                        Some(l) => l.grammar,
                        None => None,
                    },
                    None => None,
                }
            } else {
                None
            },
    {
        let i = self.editor.doc_index(doc);
        if i >= self.editor.documents.len() {
            return None;
        }
        assert(self.editor@.documents[i as int] == self.editor.documents@[i as int]@);
        match &self.editor.documents[i].path {
            Some(p) => self.languages.grammar_for_path(p.as_str()),
            None => None,
        }
    }
}

} // verus!
