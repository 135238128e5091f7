//! Syntax trees and highlights, with the real parser.
use minad::daemon::Daemon;
use minad::editor::Selection;
use minad::edits::EditFacts;
use minad::languages::{LanguageDef, LanguageTable, RawFile};
use minad::open::Place;
use minad::syntax::{Grammar, Highlights, SyntaxStore};
use minad::text::fnv1a64;
use minad::types::{DocumentEdit, EventSource, HighlightRange};
use tree_sitter::{Query, QueryCursor, StreamingIterator, Tree};

const KEYWORD: u32 = 1;
const COMMENT: u32 = 2;
const OTHER: u32 = 3;

struct Bench {
    d: Daemon,
    store: SyntaxStore,
}

fn daemon() -> Bench {
    let table = LanguageTable::from_parts(RawFile {
        language_server: vec![],
        language: vec![LanguageDef {
            name: "rust".to_string(),
            file_types: vec!["rs".to_string()],
            language_server: None,
            root_markers: None,
            grammar: Some("rust".to_string()),
        }],
    });
    Bench { d: Daemon::new(table, None), store: SyntaxStore::new() }
}

fn language() -> tree_sitter::Language {
    tree_sitter_rust::LANGUAGE.into()
}

fn grammar(name: Option<String>) -> Option<Grammar> {
    match name.as_deref() {
        Some("rust") => Some(Grammar {
            language: language(),
            highlights: tree_sitter_rust::HIGHLIGHTS_QUERY.to_string(),
        }),
        _ => None,
    }
}

/// The highlights of a stretch of bytes, without overlaps, in order, by characters.
fn run(query: &Query, text: &str, tree: &Tree, start: usize, end: usize, first: usize) -> Vec<HighlightRange> {
    let mut cursor = QueryCursor::new();
    cursor.set_byte_range(start..end);
    let mut found: Vec<(usize, usize, u32)> = Vec::new();
    let mut captures = cursor.captures(query, tree.root_node(), text.as_bytes());
    while let Some((m, i)) = captures.next() {
        let c = m.captures()[*i];
        let name = query.capture_names()[c.index as usize];
        let group = if name.starts_with("keyword") {
            KEYWORD
        } else if name.starts_with("comment") {
            COMMENT
        } else {
            OTHER
        };
        let (lo, hi) = (c.node.start_byte().max(start), c.node.end_byte().min(end));
        if lo < hi && found.last().map_or(true, |f| lo >= f.1) {
            found.push((lo, hi, group));
        }
    }
    found
        .iter()
        .map(|(lo, hi, group)| HighlightRange {
            start: first + text[start..*lo].chars().count(),
            end: first + text[start..*hi].chars().count(),
            group: *group,
        })
        .collect()
}

/// The highlights of a text that is parsed for itself.
fn fresh(text: &str) -> Vec<HighlightRange> {
    let mut parser = tree_sitter::Parser::new();
    parser.set_language(&language()).unwrap();
    let tree = parser.parse(text, None).unwrap();
    let query = Query::new(&language(), tree_sitter_rust::HIGHLIGHTS_QUERY).unwrap();
    run(&query, text, &tree, 0, text.len(), 0)
}

impl Bench {
    fn open(&mut self, path: &str, text: &str) {
        self.d.open_document(path, text.to_string());
    }

    fn text(&self) -> String {
        self.d.editor.current().text.clone()
    }

    fn set(&mut self, text: &str) {
        let id = self.d.editor.current().id;
        self.d.editor.set_doc(id, text.to_string(), true, true, false);
    }

    fn insert(&mut self, at: usize, new: &str) {
        let text = self.text();
        self.set(&minad::text::splice(&text, at, at, new));
    }

    /// The highlights on the screen, and whether the query had to be run for them.
    fn look(&mut self, first_line: usize, height: usize) -> (Vec<HighlightRange>, bool) {
        let doc = self.d.editor.current().id;
        let text = self.text();
        let g = grammar(self.d.grammar_name(doc));
        match self.store.syntax_highlights(&self.d.editor, doc, &text, first_line, height, g) {
            Highlights::Ready(v) => (v, false),
            Highlights::Run(job) => {
                let row = &self.store.entries[self.store.row(doc)];
                let v = run(&row.query, &text, &row.tree, job.start, job.end, job.first_char);
                self.store.keep_window(doc, &text, first_line, height, v.clone());
                (v, true)
            }
        }
    }

    fn highlights(&mut self) -> Vec<HighlightRange> {
        let v = self.look(0, 24).0;
        let n = self.text().chars().count();
        let mut end = 0;
        for r in &v {
            assert!(r.start < r.end && r.end <= n, "{r:?}");
            assert!(r.start >= end, "{r:?}");
            end = r.end;
        }
        v
    }

    fn has(&mut self, group: u32) -> bool {
        self.highlights().iter().any(|r| r.group == group)
    }
}

#[test]
fn rust_file_highlights_in_snapshot() {
    let mut b = daemon();
    b.open("test.rs", "// comment\nfn add(a: i32) -> i32 { a + 1 }\n");
    let v = b.highlights();
    let text = b.text();
    let keyword = v.iter().find(|r| &text[r.start..r.end] == "fn").expect("a keyword");
    assert_eq!(keyword.group, KEYWORD);
    let comment = v.iter().find(|r| r.group == COMMENT).expect("a comment");
    assert_eq!(&text[comment.start..comment.end], "// comment");
}

#[test]
fn unknown_extension_has_no_highlights() {
    let mut b = daemon();
    b.open("test.txt", "// not a comment in txt\nfn f() {}\n");
    assert!(b.highlights().is_empty());
    let mut scratch = daemon();
    assert!(scratch.highlights().is_empty());
}

#[test]
fn insert_edit_reparses_highlights() {
    let mut b = daemon();
    b.open("test.rs", "fn f() {}\n");
    assert!(!b.has(COMMENT));
    b.insert(0, "// note\n");
    assert!(b.has(COMMENT));
}

#[test]
fn external_reload_reparses_highlights() {
    let mut b = daemon();
    b.open("test.rs", "fn f() {}\n");
    b.highlights();
    b.set("// replaced\nfn g() {}\n");
    assert!(b.has(COMMENT));
    let text = b.text();
    assert!(b.highlights().iter().any(|r| &text[r.start..r.end] == "fn"));
}

#[test]
fn focus_switch_keeps_highlights_per_document() {
    let mut b = daemon();
    b.open("a.rs", "fn a() {}\n");
    b.insert(0, "// x\n");
    assert!(b.has(COMMENT));
    b.open("b.txt", "plain text\n");
    assert!(b.highlights().is_empty());
    let pane = b.d.editor.focused;
    b.d.show_path(pane, "a.rs", Place { selection: Selection::single(0, 0), first_line: 0 });
    let (v, ran) = b.look(0, 24);
    assert!(!ran);
    assert!(v.iter().any(|r| r.group == COMMENT));
}

#[test]
fn undo_removes_cleared_highlights() {
    let mut b = daemon();
    b.open("a.rs", "fn f() {}\n");
    b.insert(0, "// x\n");
    assert!(b.has(COMMENT));
    b.set("fn f() {}\n");
    assert!(!b.has(COMMENT));
}

#[test]
fn incremental_edits_match_fresh_parse() {
    let mut b = daemon();
    b.open("test.rs", "fn a() {}\n// note\nfn b(x: i32) -> i32 { x + 1 }\n");
    assert_eq!(b.highlights(), fresh(&b.text()));
    for (at, ch) in ["x", "y", "z"].iter().enumerate() {
        b.insert(at, ch);
        assert_eq!(b.highlights(), fresh(&b.text()));
    }
    let whole = b.text();
    b.set(&whole[1..]);
    assert_eq!(b.highlights(), fresh(&b.text()));
    b.set(&whole);
    assert_eq!(b.highlights(), fresh(&b.text()));
    for cut in 1..3 {
        b.set(&whole[..whole.len() - cut]);
        assert_eq!(b.highlights(), fresh(&b.text()));
    }
    let end = b.text().chars().count();
    b.insert(end, "\n// tail\nfn z() {}\n");
    assert_eq!(b.highlights(), fresh(&b.text()));
    b.insert(3, "あ");
    assert_eq!(b.highlights(), fresh(&b.text()));
}

#[test]
fn highlights_cover_only_visible_window_and_follow_scroll() {
    let mut b = daemon();
    let mut src = String::new();
    for i in 0..60 {
        src.push_str(&format!("fn f{i}() {{}}\n"));
    }
    b.open("test.rs", &src);
    let (v, _) = b.look(0, 24);
    let line24 = src.match_indices('\n').nth(23).map(|(i, _)| i + 1).unwrap();
    assert!(!v.is_empty());
    assert!(v.iter().all(|r| r.start < line24));
    let (v, ran) = b.look(24, 24);
    assert!(ran);
    assert!(v.iter().all(|r| r.start >= line24));
    assert!(v.iter().any(|r| &src[r.start..r.end] == "f30"));
    let (again, ran) = b.look(24, 24);
    assert!(!ran);
    assert_eq!(again, v);
}

#[test]
fn rows_of_closed_documents_are_dropped() {
    let mut b = daemon();
    b.open("a.rs", "fn a() {}\n");
    b.highlights();
    assert_eq!(b.store.entries.len(), 1);
    let mut other = daemon();
    std::mem::swap(&mut other.store, &mut b.store);
    other.highlights();
    assert_eq!(other.store.entries.len(), 0);
}

#[test]
fn a_broken_query_gives_no_highlights() {
    let mut b = daemon();
    b.open("a.rs", "fn a() {}\n");
    let doc = b.d.editor.current().id;
    let text = b.text();
    let bad = Grammar { language: language(), highlights: "(no_such_node) @x".to_string() };
    let r = b.store.syntax_highlights(&b.d.editor, doc, &text, 0, 24, Some(bad));
    assert!(matches!(r, Highlights::Ready(v) if v.is_empty()));
    assert_eq!(b.store.entries.len(), 0);
    assert!(b.has(KEYWORD));
}

#[test]
fn document_edit_reparses_highlights() {
    let mut b = daemon();
    b.open("test.rs", "fn f() {}\n");
    b.highlights();
    let edit = DocumentEdit {
        start: 0,
        end: 0,
        text: "// agent note\n".to_string(),
        checksum: fnv1a64(b.text().as_bytes()),
        expected_text: None,
    };
    let facts = EditFacts { noop: false, dirty: true, can_undo: true, can_redo: false };
    let r = b.d.apply_edit(&edit, 0, EventSource::Interactive, facts);
    assert!(r.applied && r.status.is_none());
    assert!(b.has(COMMENT));
}
