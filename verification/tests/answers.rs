//! Answers that need a language server, with the server's replies given.
use minad::analysis::{
    fits_workspace, is_settled, EnsureStep, EntryLook, ScanStep, Settling, WorkspaceScan,
    MAX_WORKSPACE_OPEN_BYTES, MAX_WORKSPACE_OPEN_FILES, SETTLE_ROUNDS,
};
use minad::commands::EngineReply;
use minad::connection::{route, source_of, subscribes, Route};
use minad::daemon::{Daemon, DiskBaseline, FileTime};
use minad::edits::EditFacts;
use minad::errand::{
    errand_error, feature_name, provider_name, Errand, ErrandFail, Outcome, Stage, Want,
};
use minad::languages::{LanguageDef, LanguageTable, NamedServer, RawFile, ServerConfig};
use minad::outline::{expand_outline_modules, Question, Reply, Stand};
use minad::process::Request;
use minad::rename::{
    apply_char_edits, check_edits, rename_answer, rename_error, rename_files, rename_on_disk,
    rename_unsaved, symbol_missing, CharEdit, RenameFact, RenameFile,
};
use minad::serve::{
    borrow_error, check_depth, check_error, check_query, check_reference_name, enclosing_answer,
    enclosing_error, enclosing_symbol, err_refs, hover_error, lacking_error, outline_error,
    peek_answer, references_answer, symbols_error, BorrowFail, FoundReference, FoundSymbol,
    HintStep,
};
use minad::sessions::SessionKey;
use minad::types::{
    ActivityKind, ClientKind, Command, DefinitionPeek, Diagnostic, EventKind, EventSource, InlayHint,
    Mode, OutlineSymbol, Range, ServerMessage, Severity, SymbolKind,
};

fn daemon() -> Daemon {
    Daemon::new(
        LanguageTable::from_parts(RawFile {
            language_server: vec![NamedServer {
                id: "ra".to_string(),
                server: ServerConfig { command: "ra".to_string(), args: vec![], config: None },
            }],
            language: vec![LanguageDef {
                name: "rust".to_string(),
                file_types: vec!["rs".to_string()],
                language_server: Some("ra".to_string()),
                root_markers: None,
                grammar: None,
            }],
        }),
        None,
    )
}

fn some(s: &str) -> Option<String> {
    Some(s.to_string())
}

fn hint(position: usize) -> InlayHint {
    InlayHint { position, text: ": u8".to_string(), padding_left: false, padding_right: false }
}

fn symbol(name: &str, kind: SymbolKind, at: usize, children: Vec<OutlineSymbol>) -> OutlineSymbol {
    OutlineSymbol {
        name: name.to_string(),
        kind,
        range: Range { anchor: at, head: at + 5 },
        selection_range: Range { anchor: at, head: at + 3 },
        children,
    }
}

fn function(name: &str) -> OutlineSymbol {
    symbol(name, SymbolKind::Function, 0, vec![])
}

fn module(name: &str, at: usize) -> OutlineSymbol {
    symbol(name, SymbolKind::Module, at, vec![])
}

#[test]
fn text_of_an_open_document_comes_before_the_disk() {
    let mut d = daemon();
    d.open_document("/a.rs", "edited".to_string());
    assert_eq!(d.resolve_doc_text("/a.rs", some("disk")).as_deref(), Some("edited"));
    assert_eq!(d.resolve_doc_text("/b.rs", some("disk")).as_deref(), Some("disk"));
    assert_eq!(d.resolve_doc_text("/c.rs", None), None);
}

#[test]
fn failures_name_the_feature_and_the_file() {
    let d = daemon();
    assert!(matches!(d.borrow_text("/a.rs", some("x")), Ok(t) if t == "x"));
    let fail = d.borrow_text("/a.rs", None).unwrap_err();
    assert_eq!(borrow_error("outline", "a.rs", &fail), "cannot open a.rs");
    let fail = d.borrow_text("/a.txt", some("x")).unwrap_err();
    assert_eq!(
        borrow_error("hover", "a.txt", &fail),
        "hover not supported for /a.txt (no LSP server configured)"
    );
    assert_eq!(
        borrow_error("check", "a.rs", &BorrowFail::SpawnFailed("no such program".to_string())),
        "LSP error: no such program"
    );
    assert_eq!(
        lacking_error("outline", "/a.rs", "documentSymbolProvider"),
        "outline not supported for /a.rs (LSP server が documentSymbolProvider を advertise していません)"
    );
}

#[test]
fn inlay_hints_come_from_the_cache_or_the_server() {
    let mut d = daemon();
    let HintStep::Answer(m) = d.begin_hints("/a.txt", some("x")) else { panic!("asked") };
    assert_eq!(m, ServerMessage::Hints { path: "/a.txt".into(), generation: 0, hints: vec![] });
    let HintStep::Pull(text) = d.begin_hints("/a.rs", some("let x = 5")) else { panic!("answered") };
    assert_eq!(text, "let x = 5");
    let m = d.finish_hints("/a.rs", &text, Some(vec![hint(5)]));
    assert_eq!(
        m,
        ServerMessage::Hints { path: "/a.rs".into(), generation: 0, hints: vec![hint(5)] }
    );
    let HintStep::Answer(again) = d.begin_hints("/a.rs", some("let x = 5")) else {
        panic!("asked again")
    };
    assert_eq!(again, m);
    assert!(matches!(d.begin_hints("/a.rs", some("let y = 5")), HintStep::Pull(_)));
    let m = d.finish_hints("/a.rs", "let y = 5", None);
    assert_eq!(m, ServerMessage::Hints { path: "/a.rs".into(), generation: 0, hints: vec![] });
}

#[test]
fn session_is_turned_back_where_it_was_borrowed() {
    let mut d = daemon();
    d.open_document("/w/a.rs", "fn a() {}".to_string());
    d.set_analysis_focus("/w/a.rs", "/w");
    assert_eq!(d.looked_at("/w/b.rs", "/w").as_deref(), Some("/w/a.rs"));
    assert!(d.must_restore(Some("/w/a.rs"), "/w", "/w/b.rs", "/w"));
    assert!(d.must_restore(Some("/w/a.rs"), "/w", "/w/a.rs", "/w"));
    assert!(!d.must_restore(Some("/w/a.rs"), "/w", "/v/b.rs", "/v"));
    assert!(!d.must_restore(None, "/w", "/w/b.rs", "/w"));
    assert_eq!(d.restore_text("/w/a.rs", "/w").as_deref(), Some("fn a() {}"));
    d.set_analysis_focus("/w/b.rs", "/w");
    assert_eq!(d.restore_text("/w/a.rs", "/w"), None);
}

#[test]
fn peek_without_a_definition_is_empty() {
    let found = DefinitionPeek { path: "/b.rs".into(), line: 3, text: "fn f()".into() };
    assert_eq!(
        peek_answer("a.rs", Some(found)),
        ServerMessage::Peek { path: "/b.rs".into(), line: 3, text: "fn f()".into() }
    );
    assert_eq!(
        peek_answer("a.rs", None),
        ServerMessage::Peek { path: "a.rs".into(), line: 0, text: "".into() }
    );
}

#[test]
fn peek_starts_at_the_clients_cursor() {
    let mut d = daemon();
    assert!(d.begin_peek(1).is_none());
    d.open_document("/w/a.rs", "fn a() {}".to_string());
    let job = d.begin_peek(1).expect("a place");
    assert_eq!((job.path.as_str(), job.head, job.supported), ("/w/a.rs", 0, true));
    d.set_focus_diagnostics("/w/a.rs", "/w", vec![]);
    d.diagnostics.insert("/w/b.rs", vec![]);
    d.peek_turn("/w/b.rs", "/w");
    assert!(!d.diagnostics.contains("/w/b.rs"));
    assert!(!d.diagnostics.contains("/w/a.rs"));
    assert!(d.is_analysis_focus("/w/b.rs", "/w"));
}

#[test]
fn outline_and_enclosing_symbol_via_mock() {
    let text = "pub fn run() {}\nstruct Thing;\nfn go() {}\nlet top = 1;\n";
    let line = |name: &str, kind: SymbolKind, lo: usize, hi: usize, at: usize| OutlineSymbol {
        name: name.to_string(),
        kind,
        range: Range { anchor: lo, head: hi },
        selection_range: Range { anchor: at, head: at + name.len() },
        children: vec![],
    };
    let given = vec![
        line("run", SymbolKind::Function, 0, 15, 7),
        line("Thing", SymbolKind::Type, 16, 29, 23),
        line("go", SymbolKind::Function, 30, 40, 33),
        line("top", SymbolKind::Variable, 41, 53, 45),
    ];
    let mut d = daemon();
    let ServerMessage::Outline { symbols, error, .. } = d.finish_outline("/w/fixture.rs", text, Ok(given))
    else {
        panic!("another answer")
    };
    assert_eq!(error, None);
    assert_eq!(symbols.len(), 4);
    let thing = symbols.iter().find(|s| s.name == "Thing").unwrap();
    assert_eq!(thing.kind, SymbolKind::Type);
    assert_eq!(thing.selection_range.anchor, 23);
    assert_eq!(thing.selection_range.head, 28);
    assert!(symbols.iter().any(|s| s.kind == SymbolKind::Function));
    assert!(symbols.iter().any(|s| s.kind == SymbolKind::Variable));
    // Line 2, column 9.
    let Some(ServerMessage::EnclosingSymbol { name, kind, range, selection_range, found, error, .. }) =
        d.enclosing_from_cache("/w/fixture.rs", text, 24)
    else {
        panic!("another answer")
    };
    assert_eq!(error, None);
    assert!(found);
    assert_eq!(name, "Thing");
    assert_eq!(kind, SymbolKind::Type);
    assert_eq!(range.anchor, 16);
    assert_eq!(range.head, 29);
    assert_eq!(selection_range.anchor, 23);
    assert_eq!(selection_range.head, 28);
    // A line behind the last.
    let Some(ServerMessage::EnclosingSymbol { found, error, .. }) =
        d.enclosing_from_cache("/w/fixture.rs", text, text.len())
    else {
        panic!("another answer")
    };
    assert_eq!(error, None);
    assert!(!found);
}

#[test]
fn hover_symbol_check_via_mock() {
    let d = daemon();
    let hovered = some("fn run()\n\nmock doc for run");
    let ServerMessage::Hover { text, error, .. } = d.hover_answer("/w/fixture.rs", hovered) else {
        panic!("another answer")
    };
    assert_eq!(error, None);
    assert!(text.contains("run"));
    assert!(text.contains("mock doc for run"));
    let found = vec![FoundSymbol {
        uri: "file:///w/fixture.rs".into(),
        kind: SymbolKind::Type,
        name: "Thing".into(),
        line: 1,
    }];
    let ServerMessage::WorkspaceSymbols { symbols, error, .. } = d.symbols_answer(Ok(found)) else {
        panic!("another answer")
    };
    assert_eq!(error, None);
    assert_eq!(symbols.len(), 1);
    assert_eq!(symbols[0].name, "Thing");
    assert_eq!(symbols[0].kind, SymbolKind::Type);
    assert_eq!(symbols[0].line, 2);
    assert!(symbols[0].path.ends_with("fixture.rs"));
    let Some(ServerMessage::WorkspaceSymbols { symbols, error, .. }) = check_query("") else {
        panic!("another answer")
    };
    assert_eq!(symbols.len(), 0);
    assert!(error.as_deref().unwrap_or("").starts_with("invalid input"));
    let todo = vec![Diagnostic {
        start: 15,
        end: 19,
        severity: Severity::Error,
        message: "mock: TODO found".into(),
    }];
    let text = "pub fn run() { TODO }\nstruct Thing;\nfn go() {}\n";
    let ServerMessage::Check { total, diagnostics, error, .. } =
        d.check_answer("/w/fixture.rs", text, &todo, true)
    else {
        panic!("another answer")
    };
    assert_eq!(error, None);
    assert_eq!(total, 1);
    assert_eq!(diagnostics[0].severity, Severity::Error);
    assert_eq!(diagnostics[0].line, 1);
    assert_eq!(diagnostics[0].col, 16);
    assert_eq!(diagnostics[0].message, "mock: TODO found");
}

#[test]
fn get_inlay_hints_serves_arbitrary_path_and_restores_focus() {
    let mut d = daemon();
    let finding = |start: usize| Diagnostic {
        start,
        end: start + 4,
        severity: Severity::Error,
        message: "mock: TODO found".into(),
    };
    d.open_document("/w/a.rs", "let x = 5\nTODO\n".to_string());
    d.set_focus_diagnostics("/w/a.rs", "/w", vec![finding(9)]);
    d.cache_hints("/w/a.rs", "let x = 5\nTODO\n", vec![hint(5)]);
    assert_eq!(d.focus_diagnostics("/w/a.rs", "/w")[0].message, "mock: TODO found");
    assert_eq!(d.focus_inlay_hints("/w/a.rs", "/w")[0].position, 5);
    let HintStep::Pull(text) = d.begin_hints("/w/b.rs", some("foo(1)\n")) else {
        panic!("answered")
    };
    assert_eq!(text, "foo(1)\n");
    assert!(d.must_restore(Some("/w/a.rs"), "/w", "/w/b.rs", "/w"));
    let arg = InlayHint { text: "arg:".to_string(), ..hint(4) };
    let m = d.finish_hints("/w/b.rs", &text, Some(vec![arg]));
    let HintStep::Answer(again) = d.begin_hints("/w/b.rs", some("foo(1)\n")) else {
        panic!("asked again")
    };
    assert_eq!(again, m);
    let ServerMessage::Hints { path, hints, .. } = m else { panic!("another answer") };
    assert!(path.ends_with("/b.rs"));
    assert_eq!(hints.len(), 1);
    assert_eq!(hints[0].position, 4);
    assert_eq!(hints[0].text, "arg:");
    assert_eq!(d.restore_text("/w/a.rs", "/w").as_deref(), Some("let x = 5\nTODO\n"));
    let id = d.editor.current().id;
    d.editor.set_doc(id, "alet x = 5\nTODO\n".to_string(), true, true, false);
    assert_eq!(d.restore_text("/w/a.rs", "/w").as_deref(), Some("alet x = 5\nTODO\n"));
    d.set_focus_diagnostics("/w/a.rs", "/w", vec![finding(10)]);
    d.cache_hints("/w/a.rs", "alet x = 5\nTODO\n", vec![hint(6)]);
    assert_eq!(d.focus_diagnostics("/w/a.rs", "/w")[0].start, 10);
    assert_eq!(d.focus_inlay_hints("/w/a.rs", "/w")[0].position, 6);
}

#[test]
fn peek_definition_at_returns_lightweight_peek_for_headless() {
    let found = DefinitionPeek {
        path: "/w/file.rs".into(),
        line: 1,
        text: "fn peek_target(x: i32) -> i32 {\n    x\n}\n".into(),
    };
    let ServerMessage::Peek { path, line, text } = peek_answer("/w/file.rs", Some(found)) else {
        panic!("another answer")
    };
    assert!(path.ends_with("/w/file.rs"));
    assert_eq!(line, 1);
    assert!(text.contains("fn peek_target") && text.contains("    x"));
}

#[test]
fn outlines_are_kept_for_their_text() {
    let mut d = daemon();
    assert!(d.outline_from_cache("/a.rs", "t").is_none());
    let m = d.finish_outline("/a.rs", "t", Ok(vec![function("f")]));
    let expected = ServerMessage::Outline {
        path: "/a.rs".into(),
        generation: 0,
        symbols: vec![function("f")],
        error: None,
        truncated: false,
    };
    assert_eq!(m, expected);
    assert_eq!(d.outline_from_cache("/a.rs", "t"), Some(expected));
    assert!(d.outline_from_cache("/a.rs", "u").is_none());
    let m = d.finish_outline("/b.rs", "t", Err("busy".to_string()));
    assert_eq!(
        m,
        ServerMessage::Outline {
            path: "/b.rs".into(),
            generation: 0,
            symbols: vec![],
            error: some("busy"),
            truncated: false,
        }
    );
    assert!(d.outline_from_cache("/b.rs", "t").is_none());

    let m = d.finish_enclosing("/c.rs", "t", Ok(vec![function("f")]), 4);
    assert!(matches!(
        m,
        ServerMessage::EnclosingSymbol { found: true, error: None, ref name, .. } if name == "f"
    ));
    assert!(d.outline_from_cache("/c.rs", "t").is_some());
    assert!(d.enclosing_from_cache("/c.rs", "other", 4).is_none());
    assert!(matches!(
        d.enclosing_from_cache("/c.rs", "t", 5),
        Some(ServerMessage::EnclosingSymbol { found: false, error: None, .. })
    ));
    let m = d.finish_enclosing("/d.rs", "t", Err("busy".to_string()), 0);
    assert!(matches!(
        m,
        ServerMessage::EnclosingSymbol { found: false, error: Some(ref e), .. } if e == "busy"
    ));
    let m = enclosing_answer("/d.rs", &vec![], 0);
    assert!(matches!(
        m,
        ServerMessage::EnclosingSymbol { found: false, error: None, kind: SymbolKind::Other, .. }
    ));
}

#[test]
fn errors_carry_the_path_as_asked() {
    assert_eq!(
        outline_error("a.rs", "e".to_string()),
        ServerMessage::Outline {
            path: "a.rs".into(),
            generation: 0,
            symbols: vec![],
            error: some("e"),
            truncated: false,
        }
    );
    assert_eq!(
        hover_error("a.rs", "e".to_string()),
        ServerMessage::Hover { path: "a.rs".into(), generation: 0, text: "".into(), error: some("e") }
    );
    assert_eq!(
        symbols_error("e".to_string()),
        ServerMessage::WorkspaceSymbols { generation: 0, symbols: vec![], error: some("e") }
    );
    assert_eq!(
        err_refs("a.rs", "e".to_string()),
        ServerMessage::ReferencesResult {
            path: "a.rs".into(),
            locations: vec![],
            total: 0,
            error: some("e"),
        }
    );
    assert_eq!(
        check_error("a.rs", "e".to_string()),
        ServerMessage::Check {
            path: "a.rs".into(),
            generation: 0,
            total: 0,
            diagnostics: vec![],
            settled: false,
            error: some("e"),
        }
    );
}

#[test]
fn empty_inputs_are_refused() {
    assert!(check_depth("a.rs", 1).is_none());
    let Some(ServerMessage::Outline { error, .. }) = check_depth("a.rs", 0) else { panic!("let in") };
    assert_eq!(error.as_deref(), Some("invalid input: depth must be >= 1"));
    assert!(check_query("x").is_none());
    let Some(ServerMessage::WorkspaceSymbols { error, .. }) = check_query("") else {
        panic!("let in")
    };
    assert_eq!(error.as_deref(), Some("invalid input: query must be non-empty"));
    assert!(check_reference_name("a.rs", "f").is_none());
    let Some(ServerMessage::ReferencesResult { error, .. }) = check_reference_name("a.rs", "") else {
        panic!("let in")
    };
    assert_eq!(error.as_deref(), Some("invalid input: old must be non-empty"));
}

#[test]
fn answers_hold_what_the_server_found() {
    let d = daemon();
    assert_eq!(
        d.hover_answer("/a.rs", some("docs")),
        ServerMessage::Hover { path: "/a.rs".into(), generation: 0, text: "docs".into(), error: None }
    );
    assert_eq!(
        d.hover_answer("/a.rs", None),
        ServerMessage::Hover { path: "/a.rs".into(), generation: 0, text: "".into(), error: None }
    );
    let found = vec![
        FoundSymbol { uri: "file:///a.rs".into(), kind: SymbolKind::Type, name: "A".into(), line: 0 },
        FoundSymbol { uri: "mem:/b".into(), kind: SymbolKind::Other, name: "B".into(), line: 9 },
    ];
    let ServerMessage::WorkspaceSymbols { symbols, error, .. } = d.symbols_answer(Ok(found)) else {
        panic!("another answer")
    };
    assert_eq!(error, None);
    assert_eq!((symbols[0].path.as_str(), symbols[0].line), ("/a.rs", 1));
    assert_eq!((symbols[1].path.as_str(), symbols[1].line), ("mem:/b", 10));
    let diags = vec![Diagnostic {
        start: 19,
        end: 23,
        severity: Severity::Warning,
        message: "todo".into(),
    }];
    let text = "fn a() {}\nfn b() { TODO }";
    let ServerMessage::Check { total, diagnostics, settled, .. } =
        d.check_answer("/a.rs", text, &diags, true)
    else {
        panic!("another answer")
    };
    assert_eq!((total, settled), (1, true));
    assert_eq!((diagnostics[0].line, diagnostics[0].col), (2, 10));
    assert_eq!((diagnostics[0].start, diagnostics[0].end), (19, 23));
}

#[test]
fn references_outside_of_files_are_refused() {
    let at = |uri: &str, line: u32| FoundReference { uri: uri.to_string(), line };
    let m = references_answer("/a.rs", &vec![at("file:///a.rs", 1), at("file:///b.rs", 7)]);
    let ServerMessage::ReferencesResult { locations, total, error, .. } = m else {
        panic!("another answer")
    };
    assert_eq!((total, error), (2, None));
    assert_eq!((locations[1].path.as_str(), locations[1].line), ("/b.rs", 7));
    let m = references_answer("/a.rs", &vec![at("file:///a.rs", 1), at("git:/b.rs", 7)]);
    let ServerMessage::ReferencesResult { locations, total, error, .. } = m else {
        panic!("another answer")
    };
    assert!(locations.is_empty());
    assert_eq!(total, 0);
    assert_eq!(
        error.as_deref(),
        Some("LSP 応答に file:// 以外の URI が含まれています: git:/b.rs")
    );
}

#[test]
fn read_path_returns_text_without_touching_focus() {
    let mut d = daemon();
    let text = "line one\nline two\nline three\n";
    let m = d.read_path_answer("notes.txt", "/d/notes.txt", some(text));
    assert_eq!(
        m,
        ServerMessage::ReadPath {
            path: "/d/notes.txt".into(),
            generation: 0,
            text: text.into(),
            error: None,
        }
    );
    d.record_metric(&m, 40);
    assert_eq!((d.metrics.read_total, d.metrics.read_bytes), (1, 40));
    assert_eq!(d.editor.current().path, None);
    let m = d.read_path_answer("gone", "/d/gone", None);
    assert_eq!(
        m,
        ServerMessage::ReadPath {
            path: "/d/gone".into(),
            generation: 0,
            text: "".into(),
            error: some("cannot open gone"),
        }
    );
    d.open_document("/d/notes.txt", text.to_string());
    let ServerMessage::ReadPath { text: read, error, .. } =
        d.read_path_answer("notes.txt", "/d/notes.txt", None)
    else {
        panic!("another answer")
    };
    assert_eq!(error, None);
    assert_eq!(read, text);
}

#[test]
fn answers_are_counted_by_their_kind() {
    let mut d = daemon();
    d.record_metric(&hover_error("a", "e".to_string()), 5);
    d.record_metric(&outline_error("a", "e".to_string()), 6);
    d.record_metric(&enclosing_answer("a", &vec![], 0), 7);
    d.record_metric(&symbols_error("e".to_string()), 8);
    d.record_metric(&check_error("a", "e".to_string()), 9);
    let m = &d.metrics;
    assert_eq!((m.hover_total, m.hover_bytes), (1, 5));
    assert_eq!((m.outline_total, m.outline_bytes), (1, 6));
    assert_eq!((m.symbol_range_total, m.symbol_range_bytes), (1, 7));
    assert_eq!((m.symbol_search_total, m.symbol_search_bytes), (1, 8));
    assert_eq!((m.check_total, m.check_bytes), (1, 9));
    assert_eq!(m.read_total, 0);
}

#[test]
fn server_info_lists_base_roots_in_order() {
    let mut d = daemon();
    d.register_base_root("/z", "c1".into(), None, EventSource::Interactive);
    d.register_base_root("/a", "c2".into(), None, EventSource::Interactive);
    let ServerMessage::ServerInfo { generation, daemon_build_ts, base_roots, .. } =
        d.serve_server_info(None, Some(12))
    else {
        panic!("another answer")
    };
    assert_eq!((generation.as_str(), daemon_build_ts), ("unknown", 12));
    assert_eq!(base_roots[0].root, "/a");
    assert_eq!(base_roots[1].root, "/z");
}

/// Runs the walk, answering from a list of modules: the file and the character at which a module is
/// named, and the file it is defined in with that file's symbols.
fn walk(
    path: &str,
    symbols: Vec<OutlineSymbol>,
    depth: u32,
    files: &[((&str, usize), &str)],
    inside: &dyn Fn(&str) -> Option<Vec<OutlineSymbol>>,
) -> (Vec<OutlineSymbol>, bool, Vec<String>) {
    let mut replies: Vec<Reply> = Vec::new();
    let mut asked = Vec::new();
    loop {
        match expand_outline_modules(path, &symbols, depth, &replies) {
            Stand::Done { symbols, truncated } => return (symbols, truncated, asked),
            Stand::Ask(Question::Where { owner, at }) => {
                replies.push(
                    match files.iter().find(|f| f.0 == (owner.as_str(), at)) {
                        Some(f) => Reply::Place(f.1.to_string()),
                        None => Reply::Nowhere,
                    },
                );
            }
            Stand::Ask(Question::Inside { path }) => {
                asked.push(path.clone());
                replies.push(Reply::Outline(inside(&path)));
            }
        }
    }
}

#[test]
fn recursive_outline_goes_as_deep_as_asked() {
    let files = [(("/lib.rs", 10), "/model.rs"), (("/model.rs", 20), "/deep.rs")];
    let inside = |p: &str| match p {
        "/model.rs" => Some(vec![function("load"), module("deep", 20)]),
        "/deep.rs" => Some(vec![function("deepest")]),
        _ => None,
    };
    let top = || vec![function("main"), module("model", 10)];
    let (tree, truncated, asked) = walk("/lib.rs", top(), 1, &files, &inside);
    assert!(!truncated);
    assert_eq!(asked, vec!["/model.rs"]);
    assert_eq!(tree.len(), 2);
    assert_eq!(tree[1].children.len(), 2);
    assert_eq!(tree[1].children[0].name, "load");
    assert!(tree[1].children[1].children.is_empty());

    let (tree, _, asked) = walk("/lib.rs", top(), 2, &files, &inside);
    assert_eq!(asked, vec!["/model.rs", "/deep.rs"]);
    assert_eq!(tree[1].children[1].children[0].name, "deepest");

    let (tree, _, asked) = walk("/lib.rs", top(), 0, &files, &inside);
    assert!(asked.is_empty());
    assert_eq!(tree, top());
}

#[test]
fn recursive_outline_looks_into_no_file_twice() {
    let files = [
        (("/lib.rs", 1), "/a.rs"),
        (("/lib.rs", 2), "/a.rs"),
        (("/lib.rs", 3), "/lib.rs"),
        (("/a.rs", 4), "/lib.rs"),
    ];
    let inside = |_: &str| Some(vec![module("back", 4)]);
    let top = vec![module("a", 1), module("b", 2), module("c", 3)];
    let (tree, _, asked) = walk("/lib.rs", top, 9, &files, &inside);
    assert_eq!(asked, vec!["/a.rs"]);
    assert_eq!(tree[0].children.len(), 1);
    assert!(tree[1].children.is_empty());
    assert!(tree[2].children.is_empty());
}

#[test]
fn recursive_outline_stops_at_its_bound() {
    let files = [(("/lib.rs", 1), "/a.rs"), (("/lib.rs", 2), "/b.rs"), (("/lib.rs", 3), "/c.rs")];
    let inside = |p: &str| {
        let n = if p == "/b.rs" { 200 } else { 300 };
        Some((0..n).map(|i| function(&format!("f{i}"))).collect())
    };
    let top = vec![module("a", 1), module("b", 2), module("c", 3)];
    let (tree, truncated, _) = walk("/lib.rs", top, 1, &files, &inside);
    assert!(truncated);
    assert_eq!(tree[0].children.len(), 300);
    assert!(tree[1].children.is_empty());
    assert!(tree[2].children.is_empty());
}

#[test]
fn recursive_outline_without_room_is_truncated() {
    let files = [(("/lib.rs", 1), "/a.rs"), (("/lib.rs", 2), "/b.rs")];
    let inside = |p: &str| {
        let n = if p == "/a.rs" { 499 } else { 1 };
        Some((0..n).map(|i| function(&format!("f{i}"))).collect())
    };
    let top = || vec![module("a", 1), module("b", 2)];
    let (tree, truncated, asked) = walk("/lib.rs", top(), 1, &files, &inside);
    assert_eq!(asked, vec!["/a.rs"]);
    assert_eq!(tree[0].children.len(), 499);
    assert!(tree[1].children.is_empty());
    assert!(truncated);
    let (_, truncated, _) = walk("/lib.rs", vec![module("a", 1)], 1, &files, &inside);
    assert!(!truncated);
}

#[test]
fn innermost_symbol_around_a_character_is_found() {
    let wide = |name: &str, lo: usize, hi: usize, children: Vec<OutlineSymbol>| OutlineSymbol {
        name: name.to_string(),
        kind: SymbolKind::Module,
        range: Range { anchor: lo, head: hi },
        selection_range: Range { anchor: lo, head: lo },
        children,
    };
    let tree = vec![
        wide("a", 0, 10, vec![wide("b", 2, 8, vec![wide("c", 3, 5, vec![])])]),
        wide("d", 10, 12, vec![]),
    ];
    let name = |at: usize| enclosing_symbol(&tree, at).map(|s| s.name.clone());
    assert_eq!(name(0).as_deref(), Some("a"));
    assert_eq!(name(2).as_deref(), Some("b"));
    assert_eq!(name(4).as_deref(), Some("c"));
    assert_eq!(name(5).as_deref(), Some("b"));
    assert_eq!(name(9).as_deref(), Some("a"));
    assert_eq!(name(10).as_deref(), Some("d"));
    assert_eq!(name(12), None);
    assert!(matches!(
        enclosing_error("/x.rs", "no".to_string()),
        ServerMessage::EnclosingSymbol { found: false, error: Some(ref e), .. } if e == "no"
    ));
}

#[test]
fn recursive_outline_walks_inline_modules_of_its_file() {
    let files = [(("/lib.rs", 7), "/x.rs")];
    let inside = |_: &str| Some(vec![function("x")]);
    let top = vec![symbol("outer", SymbolKind::Module, 0, vec![module("x", 7)])];
    let (tree, _, _) = walk("/lib.rs", top, 1, &files, &inside);
    assert_eq!(tree[0].children[0].children[0].name, "x");
}

#[test]
fn recursive_outline_ends_its_list_when_the_session_is_busy() {
    let top = vec![module("a", 1), module("b", 2)];
    let Stand::Done { symbols, truncated } =
        expand_outline_modules("/lib.rs", &top, 3, &vec![Reply::Busy])
    else {
        panic!("went on")
    };
    assert_eq!(symbols, top);
    assert!(!truncated);
}

fn edit(start: usize, end: usize, text: &str) -> CharEdit {
    CharEdit { start, end, text: text.to_string() }
}

#[test]
fn rename_edits_open_files_and_the_disk() {
    let mut d = daemon();
    d.open_document("/w/a.rs", "fn old() { old() }".to_string());
    let facts = vec![
        RenameFact {
            uri: "file:///w/a.rs".into(),
            readable: true,
            edits: Ok(vec![edit(3, 6, "new_fn"), edit(11, 14, "new_fn")]),
        },
        RenameFact { uri: "file:///w/none.rs".into(), readable: true, edits: Ok(vec![]) },
        RenameFact {
            uri: "file:///w/b.rs".into(),
            readable: true,
            edits: Ok(vec![edit(0, 3, "new_fn")]),
        },
    ];
    let Ok(files) = rename_files(facts, "old", "/w/a.rs") else { panic!("refused") };
    assert_eq!(files.len(), 2);
    let at = EditFacts { noop: false, dirty: true, can_undo: true, can_redo: false };
    let a = d.apply_rename(&files[0], at, 7).expect("open");
    assert_eq!(a.text, "fn new_fn() { new_fn() }");
    assert!(d.editor.current().dirty);
    assert_eq!(d.log.events.last().unwrap().kind, EventKind::ReplaceRange);
    assert_eq!(d.log.events.last().unwrap().text.as_deref(), Some("new_fn"));
    assert!(d.apply_rename(&files[1], at, 7).is_none());
    let Ok(b) = rename_on_disk(&files[1], some("old();")) else { panic!("unreadable") };
    assert_eq!(b.text, "new_fn();");
    let stat = DiskBaseline { mtime: FileTime { secs: 3, nanos: 0 }, size: 24 };
    let generation = d.finish_rename(&vec![a, b], &vec![Some(stat), Some(stat)]);
    assert_eq!(generation, 2);
    assert!(!d.editor.current().dirty);
    assert!(d.baselines.contains("/w/a.rs"));
    assert!(!d.baselines.contains("/w/b.rs"));
    assert_eq!(d.log.events.last().unwrap().kind, EventKind::Save);
    let m = rename_answer(generation, &files);
    assert_eq!(
        m,
        ServerMessage::RenameResult {
            generation: 2,
            files: 2,
            edits: 3,
            changed: vec!["/w/a.rs".into(), "/w/b.rs".into()],
            error: None,
        }
    );
    d.record_rename(4, "a.rs", "old", "new_fn", &m);
    let last = d.log.activity.last().unwrap();
    assert!(last.ok);
    assert_eq!(last.detail, "old → new_fn in a.rs: 2 files, 3 edits");
    d.record_rename(4, "a.rs", "old", "new_fn", &rename_error("no".to_string()));
    assert!(!d.log.activity.last().unwrap().ok);
}

#[test]
fn rename_is_refused_as_a_whole() {
    let fact = |uri: &str, readable: bool, edits: Result<Vec<CharEdit>, String>| RenameFact {
        uri: uri.to_string(),
        readable,
        edits,
    };
    let one = || Ok(vec![edit(0, 1, "x")]);
    let r = rename_files(vec![fact("file:///a", true, one()), fact("git:/b", true, one())], "o", "/a");
    assert_eq!(r.err().as_deref(), Some("file:// 以外の URI です: git:/b"));
    let r = rename_files(vec![fact("file:///a", false, one())], "o", "/a");
    assert_eq!(r.err().as_deref(), Some("cannot open /a (rename target)"));
    let r = rename_files(vec![fact("file:///a", true, Err("overlap".to_string()))], "o", "/a");
    assert_eq!(r.err().as_deref(), Some("/a: overlap"));
    let r = rename_files(vec![fact("file:///a", true, Ok(vec![]))], "o\"", "/a");
    assert_eq!(
        r.err().as_deref(),
        Some("symbol not found: \"o\\\"\" in /a (rename produced no edits)")
    );
    assert_eq!(symbol_missing("f", "/a"), "symbol not found: \"f\" in /a");
    let file = RenameFile { path: "/a".into(), edits: vec![] };
    assert_eq!(rename_on_disk(&file, None).err().as_deref(), Some("cannot read /a for rename"));
    assert_eq!(rename_unsaved("/a", "disk full"), "save failed: /a: disk full");
}

#[test]
fn base_rename_anchor_rejected() {
    let mut d = daemon();
    d.register_base_root("/base", "abc1234".into(), None, EventSource::Interactive);
    let m = d.check_rename("old_fn", "new_fn", Some("/base/a.rs")).expect("refused");
    let ServerMessage::RenameResult { error: Some(e), files: 0, edits: 0, .. } = m else {
        panic!("another answer")
    };
    assert!(e.contains("読取り専用"), "{e}");
    assert!(d.check_rename("old_fn", "new_fn", Some("/live/a.rs")).is_none());
    assert!(d.check_rename("old_fn", "new_fn", None).is_none());
    assert!(d.check_rename("", "new_fn", None).is_some());
    assert!(d.check_rename("old_fn", "", None).is_some());
}

#[test]
fn edits_of_a_file_speak_of_its_old_text() {
    let edits = vec![edit(0, 1, "あいう"), edit(2, 2, "-"), edit(3, 4, "")];
    assert!(check_edits(&edits, 4));
    assert!(!check_edits(&edits, 3));
    assert!(!check_edits(&vec![edit(2, 1, "x")], 4));
    assert!(!check_edits(&vec![edit(0, 2, "x"), edit(1, 3, "y")], 4));
    assert_eq!(apply_char_edits("abcd", &edits), "あいうb-c");
}

#[test]
fn ensure_replaces_dead_session() {
    let mut d = daemon();
    let EnsureStep::Unsupported(m) = d.ensure("/tmp/x.txt", "/tmp") else { panic!("supported") };
    assert_eq!(m, "LSP 非対応のパスです: /tmp/x.txt");
    let EnsureStep::Start { key } = d.ensure("/tmp/x.rs", "/tmp") else { panic!("not started") };
    assert_eq!(d.adopt_session(key, 1, false), 1);
    let EnsureStep::Ask { key, session } = d.ensure("/tmp/x.rs", "/tmp") else { panic!("forgotten") };
    assert_eq!(session, 1);
    let same = SessionKey { root: key.root.clone(), language: key.language.clone() };
    assert_eq!(d.adopt_session(key, 2, true), 1);
    assert_eq!(d.adopt_session(same, 3, false), 3);
    assert_eq!(d.session_for("/tmp/x.rs", "/tmp"), Some(3));
}

#[test]
fn diagnostics_settle_when_their_number_repeats() {
    assert!(!is_settled(None, 2, 0, 4));
    assert!(is_settled(Some(2), 2, 1, 4));
    assert!(!is_settled(Some(3), 2, 9, 4));
    assert!(!is_settled(Some(0), 0, 3, 4));
    assert!(is_settled(Some(0), 0, 4, 4));
}

#[test]
fn settling_stops_when_the_session_turns_away() {
    let mut d = daemon();
    d.set_analysis_focus("/w/a.rs", "/w");
    assert!(d.settle_step("/w/a.rs", "/w", "t", vec![], Some(vec![hint(1)])));
    assert!(d.diagnostics.contains("/w/a.rs"));
    assert_eq!(d.fresh_hints("/w/a.rs", "t").map(|h| h.len()), Some(1));
    d.set_analysis_focus("/w/b.rs", "/w");
    assert!(!d.settle_step("/w/a.rs", "/w", "t", vec![], None));
    assert!(!d.diagnostics.contains("/w/a.rs"));
}

#[test]
fn reflection_takes_work_off_the_list() {
    let mut d = daemon();
    d.add_activity("/w/a.rs", ActivityKind::ReloadSync, "再読込同期中".to_string());
    d.reflect(
        "/w/a.rs",
        "/w",
        "t",
        Some(ActivityKind::ReloadSync),
        Some(vec![]),
        None,
        &vec!["/w/dead.rs".to_string()],
    );
    assert_eq!(d.activities.len(), 0);
    assert_eq!(d.log.generation, 2);
    assert!(d.is_analysis_focus("/w/a.rs", "/w"));
}

#[test]
fn rename_closes_the_insert_session_of_another_client() {
    let at = EditFacts { noop: false, dirty: true, can_undo: true, can_redo: false };
    for (owner, closed) in [(1, true), (7, false)] {
        let mut d = daemon();
        d.open_document("/w/a.rs", "old".to_string());
        d.apply_from(&Command::SetMode { mode: Mode::Insert }, owner, EngineReply::Nothing);
        let f = RenameFile { path: "/w/a.rs".to_string(), edits: vec![edit(0, 3, "new")] };
        let w = d.apply_rename(&f, at, 7).expect("open");
        assert_eq!(w.text, "new");
        assert_eq!(w.preempted, closed);
        assert_eq!(d.insert_owner, if closed { None } else { Some(7) });
        assert_eq!(d.editor.mode == Mode::Insert, !closed);
    }
}

#[test]
fn workspace_scan_takes_sources_only() {
    let mut scan = WorkspaceScan::new();
    let dir = EntryLook { is_dir: true, file_len: None };
    let file = |n: u64| EntryLook { is_dir: false, file_len: Some(n) };
    assert_eq!(scan.visit("/w/src".into(), dir, "rs"), ScanStep::Enter);
    assert_eq!(scan.visit("/w/target".into(), dir, "rs"), ScanStep::Skip);
    assert_eq!(scan.visit("/w/.git".into(), dir, "rs"), ScanStep::Skip);
    assert_eq!(scan.visit("/w/a.md".into(), file(1), "rs"), ScanStep::Skip);
    assert_eq!(scan.visit("/w/a.rs".into(), file(7), "rs"), ScanStep::Take);
    assert_eq!(
        scan.visit("/w/b.rs".into(), EntryLook { is_dir: false, file_len: None }, "rs"),
        ScanStep::Skip
    );
    assert_eq!(
        scan.visit("/w/c.rs".into(), file(MAX_WORKSPACE_OPEN_BYTES + 1), "rs"),
        ScanStep::Skip
    );
    assert_eq!((scan.files.len(), scan.bytes), (1, 7));
    assert_eq!(scan.visit("/w/d.rs".into(), file(MAX_WORKSPACE_OPEN_BYTES - 6), "rs"), ScanStep::Skip);
    assert_eq!(scan.visit("/w/d.rs".into(), file(MAX_WORKSPACE_OPEN_BYTES - 7), "rs"), ScanStep::Take);
    assert_eq!(scan.visit("/w/e.rs".into(), file(1), "rs"), ScanStep::Stop);
}

#[test]
fn workspace_scan_is_bounded_by_its_bytes() {
    let mut scan = WorkspaceScan::new();
    let file = |n: u64| EntryLook { is_dir: false, file_len: Some(n) };
    let forty: u64 = 40 * 1024 * 1024;
    assert_eq!(scan.visit("/w/a.rs".into(), file(forty), "rs"), ScanStep::Take);
    assert_eq!(scan.visit("/w/b.rs".into(), file(forty), "rs"), ScanStep::Skip);
    assert_eq!(scan.visit("/w/c.rs".into(), file(1), "rs"), ScanStep::Take);
    assert_eq!((scan.files.len(), scan.bytes), (2, forty + 1));
}

#[test]
fn workspace_scan_is_bounded_by_its_files() {
    let mut scan = WorkspaceScan::new();
    let file = EntryLook { is_dir: false, file_len: Some(1) };
    for i in 0..MAX_WORKSPACE_OPEN_FILES {
        assert_eq!(scan.visit(format!("/w/{i}.rs"), file, "rs"), ScanStep::Take);
    }
    assert_eq!(scan.visit("/w/more.rs".into(), file, "rs"), ScanStep::Stop);
    assert!(fits_workspace(true, 5, 5));
    assert!(!fits_workspace(false, 5, 5));
    assert!(!fits_workspace(true, 5, MAX_WORKSPACE_OPEN_BYTES + 1));
}

#[test]
fn requests_go_to_their_answers() {
    let r = |c: Command| route(&Request::Command(c));
    assert_eq!(r(Command::Outline { path: "a".into() }), Route::Outline);
    assert_eq!(r(Command::GetServerInfo), Route::ServerInfo);
    assert_eq!(r(Command::Undo), Route::Process);
    assert_eq!(route(&Request::Invalid), Route::Process);
    assert_eq!(source_of(ClientKind::Headless), EventSource::Headless);
    assert!(subscribes(ClientKind::Interactive));
    assert!(!subscribes(ClientKind::Headless));
}

/// A daemon whose session for `/w` is looking at `/w/a.rs`, which is open with another text than on
/// the disk.
fn looking() -> Daemon {
    let mut d = daemon();
    d.open_document("/w/a.rs", "edited".to_string());
    d.set_analysis_focus("/w/a.rs", "/w");
    d
}

fn errand(d: &Daemon, want: Want, path: &str) -> Errand {
    d.begin_errand(want, path, path, "/w", some("on disk")).ok().unwrap()
}

/// Takes an errand to where the server is asked.
fn asking(d: &mut Daemon, want: Want, path: &str) -> Errand {
    let e = errand(d, want, path);
    let e = d.errand_step(e, Outcome::Started(Ok(7)), "/w");
    assert!(matches!(e.stage, Stage::Show { session: 7 }));
    let e = d.errand_step(e, Outcome::Shown, "/w");
    if matches!(e.stage, Stage::Probe { .. }) {
        d.errand_step(e, Outcome::Offers(true), "/w")
    } else {
        e
    }
}

#[test]
fn an_errand_gives_the_session_back() {
    let mut d = looking();
    let e = asking(&mut d, Want::Hover, "/w/b.rs");
    assert_eq!(e.text, "on disk");
    assert_eq!(e.focused.as_deref(), Some("/w/a.rs"));
    assert!(matches!(e.stage, Stage::Ask { session: 7, back: true }));
    let e = d.errand_step(e, Outcome::Replied(None), "/w");
    assert!(
        matches!(&e.stage, Stage::Back { session: 7, text, failure: None } if text == "edited")
    );
    let found = Diagnostic { start: 0, end: 1, severity: Severity::Error, message: "e".into() };
    let back = Outcome::Returned { diagnostics: Some(vec![found.clone()]), dead: vec![] };
    let e = d.errand_step(e, back, "/w");
    assert!(matches!(e.stage, Stage::Over { failure: None }));
    assert_eq!(d.focus_diagnostics("/w/a.rs", "/w"), vec![found]);
}

#[test]
fn an_errand_about_the_focus_gives_nothing_back() {
    let mut d = looking();
    let e = asking(&mut d, Want::Hover, "/w/a.rs");
    assert_eq!(e.text, "edited");
    let e = d.errand_step(e, Outcome::Replied(None), "/w");
    assert!(matches!(e.stage, Stage::Over { failure: None }));
    let e = asking(&mut d, Want::References, "/w/a.rs");
    let e = d.errand_step(e, Outcome::Replied(some("symbol not found")), "/w");
    assert!(matches!(&e.stage, Stage::Back { text, failure: Some(_), .. } if text == "edited"));
    let e = d.errand_step(e, Outcome::Returned { diagnostics: None, dead: vec![] }, "/w");
    let Stage::Over { failure: Some(fail) } = e.stage else { panic!("not over") };
    let e = errand(&d, Want::References, "/w/a.rs");
    assert_eq!(errand_error(&e, fail), "symbol not found");
}

#[test]
fn an_errand_that_is_turned_down_gives_the_session_back() {
    let mut d = looking();
    let e = errand(&d, Want::Outline, "/w/b.rs");
    let e = d.errand_step(e, Outcome::Started(Ok(7)), "/w");
    let e = d.errand_step(e, Outcome::Shown, "/w");
    assert!(matches!(e.stage, Stage::Probe { session: 7 }));
    let e = d.errand_step(e, Outcome::Offers(false), "/w");
    assert!(matches!(e.stage, Stage::Back { failure: Some(ErrandFail::Lacking), .. }));
    assert_eq!(
        errand_error(&e, ErrandFail::Lacking),
        "outline not supported for /w/b.rs (LSP server が documentSymbolProvider を advertise していません)"
    );
}

#[test]
fn an_errand_ends_if_no_server_starts() {
    let mut d = looking();
    let e = errand(&d, Want::Rename, "/w/b.rs");
    let e = d.errand_step(e, Outcome::Started(Err("no such program".to_string())), "/w");
    assert!(matches!(
        &e.stage,
        Stage::Over { failure: Some(ErrandFail::NotStarted(m)) } if m == "no such program"
    ));
    let fail = ErrandFail::NotStarted("no such program".to_string());
    assert_eq!(errand_error(&e, fail), "LSP error: no such program");
    assert!(matches!(
        d.begin_errand(Want::Check, "/w/a.txt", "/w/a.txt", "/w", some("x")),
        Err(BorrowFail::NoServer(p)) if p == "/w/a.txt"
    ));
    assert!(matches!(
        d.begin_errand(Want::Check, "/w/none.rs", "/w/none.rs", "/w", None),
        Err(BorrowFail::CannotOpen)
    ));
}

#[test]
fn hints_are_asked_for_without_a_capability() {
    let mut d = looking();
    let e = asking(&mut d, Want::Hints, "/w/b.rs");
    assert!(matches!(e.stage, Stage::Ask { back: true, .. }));
    assert_eq!(provider_name(Want::Hints), None);
    assert_eq!(provider_name(Want::Check), Some("diagnosticProvider"));
    assert_eq!(feature_name(Want::SymbolSearch), "symbol search");
}

#[test]
fn settling_goes_round_by_round() {
    let mut d = looking();
    let one = || Diagnostic { start: 0, end: 1, severity: Severity::Error, message: "e".into() };
    let first = Settling { round: 0, prev: None };
    let (next, tell) = d.settle_round(first, "/w/a.rs", "/w", "edited", None, None, 3);
    assert_eq!((next, tell), (Some(Settling { round: 1, prev: None }), false));
    let now = Settling { round: 1, prev: None };
    let (next, tell) =
        d.settle_round(now, "/w/a.rs", "/w", "edited", Some(vec![one()]), None, 3);
    assert_eq!((next, tell), (Some(Settling { round: 2, prev: Some(1) }), true));
    let now = Settling { round: 2, prev: Some(1) };
    let (next, tell) =
        d.settle_round(now, "/w/a.rs", "/w", "edited", Some(vec![one()]), None, 3);
    assert_eq!((next, tell), (None, true));
    let last = Settling { round: SETTLE_ROUNDS - 1, prev: None };
    let (next, tell) = d.settle_round(last, "/w/a.rs", "/w", "edited", None, None, 3);
    assert_eq!((next, tell), (None, false));
    let (next, tell) = d.settle_round(first, "/w/b.rs", "/w", "x", Some(vec![one()]), None, 3);
    assert_eq!((next, tell), (None, false));
}

#[test]
fn references_lists_symbol_locations() {
    let at = |line: u32| FoundReference { uri: "file:///w/fixture.rs".to_string(), line };
    let m = references_answer("/w/fixture.rs", &vec![at(0), at(1)]);
    let ServerMessage::ReferencesResult { locations, total, error, .. } = m else {
        panic!("another answer")
    };
    assert_eq!(error, None);
    assert_eq!(total, 2);
    assert_eq!(locations.len(), 2);
    assert_eq!(locations[0].line, 0);
    assert_eq!(locations[1].line, 1);
}

#[test]
fn rename_applies_workspace_edit_saves_and_reports_impact() {
    let path = "/w/fixture.rs";
    let mut d = daemon();
    d.open_document(path, "let fee = 1\nlet tax = fee + 2\n".to_string());
    let facts = vec![RenameFact {
        uri: "file:///w/fixture.rs".into(),
        readable: true,
        edits: Ok(vec![edit(4, 7, "dues"), edit(22, 25, "dues")]),
    }];
    let Ok(files) = rename_files(facts, "fee", path) else { panic!("refused") };
    let at = EditFacts { noop: false, dirty: true, can_undo: true, can_redo: false };
    let w = d.apply_rename(&files[0], at, 1).expect("open");
    assert_eq!(w.text, "let dues = 1\nlet tax = dues + 2\n");
    let stat = DiskBaseline { mtime: FileTime { secs: 3, nanos: 0 }, size: 32 };
    let written = d.finish_rename(&vec![w], &vec![Some(stat)]);
    let ServerMessage::RenameResult { generation, files, edits, changed, error } =
        rename_answer(written, &files)
    else {
        panic!("another answer")
    };
    assert_eq!(error, None);
    assert!(generation > 0);
    assert_eq!(files, 1);
    assert_eq!(edits, 2);
    assert_eq!(changed.len(), 1);
    assert!(changed[0].ends_with(".rs"));
    assert_eq!(d.editor.current().text, "let dues = 1\nlet tax = dues + 2\n");
    assert!(!d.editor.current().dirty);
    let missing = symbol_missing("nosuch", path);
    let ServerMessage::RenameResult { error, .. } = rename_error(missing) else {
        panic!("another answer")
    };
    assert!(error.expect("an error").contains("nosuch"));
}

#[test]
fn capabilities_gate_features_for_bare_server() {
    let path = "/w/x.rs";
    let lacking = |w: Want| lacking_error(feature_name(w), path, provider_name(w).unwrap());
    let ServerMessage::RenameResult { error: Some(e), .. } = rename_error(lacking(Want::Rename)) else {
        panic!("another answer")
    };
    assert!(e.starts_with("rename not supported"), "{e}");
    let ServerMessage::ReferencesResult { error: Some(e), .. } =
        err_refs(path, lacking(Want::References))
    else {
        panic!("another answer")
    };
    assert!(e.starts_with("references not supported"), "{e}");
    let ServerMessage::Peek { text, .. } = peek_answer(path, None) else { panic!("another answer") };
    assert!(text.is_empty());
    let mut d = daemon();
    let key = d.session_key(path, "/w").unwrap();
    d.adopt_session(key, 1, false);
    assert_eq!(d.session_for(path, "/w"), Some(1));
}

#[test]
fn outline_recursive_follows_file_modules_via_mock() {
    let files = [(("/w/lib.rs", 4), "/w/model.rs")];
    let inside = |p: &str| match p {
        "/w/model.rs" => Some(vec![
            symbol("Task", SymbolKind::Type, 11, vec![]),
            symbol("make", SymbolKind::Function, 24, vec![]),
        ]),
        _ => None,
    };
    let flat = vec![module("model", 4), symbol("run", SymbolKind::Function, 18, vec![])];
    assert!(flat.iter().find(|s| s.name == "model").unwrap().children.is_empty());
    let (symbols, truncated, _) = walk("/w/lib.rs", flat, 1, &files, &inside);
    assert!(!truncated);
    let model = symbols.iter().find(|s| s.name == "model").expect("the module");
    let names: Vec<_> = model.children.iter().map(|s| s.name.as_str()).collect();
    assert!(names.contains(&"Task") && names.contains(&"make"), "{names:?}");
    let Some(ServerMessage::Outline { error, .. }) = check_depth("/w/lib.rs", 0) else {
        panic!("not refused")
    };
    assert!(error.as_deref().unwrap_or("").starts_with("invalid input"));
}
