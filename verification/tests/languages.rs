//! The table of languages and servers.
use minad::daemon::{Daemon, FileTime};
use minad::languages::{search_dirs, LanguageDef, LanguageTable, NamedServer, RawFile, ServerConfig};
use serde_json::Value;

fn server(id: &str, command: &str, args: &[&str], config: Option<Value>) -> NamedServer {
    NamedServer {
        id: id.to_string(),
        server: ServerConfig {
            command: command.to_string(),
            args: args.iter().map(|a| a.to_string()).collect(),
            config,
        },
    }
}

fn language(name: &str, types: &[&str]) -> LanguageDef {
    LanguageDef {
        name: name.to_string(),
        file_types: types.iter().map(|t| t.to_string()).collect(),
        language_server: None,
        root_markers: None,
        grammar: None,
    }
}

fn hints_on() -> Value {
    serde_json::from_str(
        r#"{"rust-analyzer":{"inlayHints":{"typeHints":{"enable":true}}}}"#,
    )
    .unwrap()
}

/// The languages that are known without a user's file.
fn embedded() -> RawFile {
    RawFile {
        language_server: vec![server("rust-analyzer", "rust-analyzer", &[], Some(hints_on()))],
        language: vec![LanguageDef {
            language_server: Some("rust-analyzer".to_string()),
            grammar: Some("rust".to_string()),
            ..language("rust", &["rs"])
        }],
    }
}

fn with_user(language_server: Vec<NamedServer>, language: Vec<LanguageDef>) -> LanguageTable {
    LanguageTable::load(embedded(), Some(RawFile { language_server, language }))
}

fn embedded_table() -> LanguageTable {
    LanguageTable::load(embedded(), None)
}

/// The root of a file's workspace, where `there` lists what is on the disk.
fn root(table: &LanguageTable, path: &str, there: &[&str]) -> String {
    let markers = table.root_markers(path);
    let marked = search_dirs(path)
        .iter()
        .map(|d| markers.iter().any(|m| there.contains(&format!("{d}/{m}").as_str())))
        .collect();
    table.workspace_root(path, &marked)
}

#[test]
fn embedded_default_maps_rust_to_rust_analyzer() {
    let table = embedded_table();
    let spec = table.server_for("/tmp/src/main.rs").expect("a server");
    assert_eq!(spec.language_id, "rust");
    assert_eq!(spec.command, "rust-analyzer");
    assert!(spec.args.is_empty());
    let config = spec.config.expect("options");
    assert_eq!(
        config.pointer("/rust-analyzer/inlayHints/typeHints/enable"),
        Some(&Value::Bool(true))
    );
    assert!(table.server_for("/tmp/notes.md").is_none());
    assert!(table.server_for("/tmp/noext").is_none());
}

#[test]
fn user_file_overrides_and_appends_by_name() {
    let table = with_user(
        vec![
            server("rust-analyzer", "ra-override", &[], serde_json::from_str(r#"{"demo":true}"#).ok()),
            server("typescript-language-server", "typescript-language-server", &["--stdio"], None),
        ],
        vec![
            language("rust", &["rs"]),
            LanguageDef {
                language_server: Some("typescript-language-server".to_string()),
                ..language("typescript", &["ts", "tsx"])
            },
        ],
    );
    assert!(table.server_for("/tmp/main.rs").is_none());
    let spec = table
        .language_for_path("/tmp/main.ts")
        .and_then(|l| l.language_server.as_deref())
        .and_then(|id| table.server_by_id(id))
        .expect("a server");
    assert_eq!(spec.command, "typescript-language-server");
    assert_eq!(spec.args, vec!["--stdio"]);
    let ra = table.server_by_id("rust-analyzer").expect("still there");
    assert_eq!(ra.command, "ra-override");
}

#[test]
fn lang_referencing_missing_server_is_none_not_panic() {
    let table = with_user(
        vec![],
        vec![LanguageDef {
            language_server: Some("no-such-server".to_string()),
            ..language("text", &["txt"])
        }],
    );
    assert!(table.server_for("/tmp/a.txt").is_none());
}

#[test]
fn empty_and_server_only_user_files_are_accepted() {
    let table = with_user(vec![], vec![]);
    assert!(table.server_for("/tmp/a.rs").is_some());
    let table = with_user(vec![server("extra", "extra-lsp", &[], None)], vec![]);
    assert!(table.server_for("/tmp/a.rs").is_some());
    assert_eq!(table.server_by_id("extra").unwrap().command, "extra-lsp");
}

#[test]
fn grammar_key_resolves_loader_language() {
    let table = with_user(
        vec![],
        vec![
            LanguageDef { grammar: Some("typescript".to_string()), ..language("ts", &["ts"]) },
            language("text", &["txt"]),
        ],
    );
    assert_eq!(table.grammar_for_path("/tmp/a.ts").unwrap(), "typescript");
    assert!(table.grammar_for_path("/tmp/a.txt").is_none());
}

#[test]
fn workspace_root_treats_git_file_as_marker() {
    let table = embedded_table();
    let file = "/t/wt/proj/src/main.rs";
    assert_eq!(root(&table, file, &["/t/wt/.git"]), "/t/wt");
    assert_ne!(root(&table, file, &[]), "/t/wt");
}

#[test]
fn workspace_root_prefers_nearest_manifest_over_outer_git() {
    let there = ["/d/crates/foo/Cargo.toml", "/d/.git"];
    assert_eq!(
        root(&embedded_table(), "/d/crates/foo/src/main.rs", &there),
        "/d/crates/foo"
    );
}

#[test]
fn workspace_root_prefers_nearest_git_over_outer_manifest() {
    let there = ["/d/repo/.git", "/d/Cargo.toml"];
    assert_eq!(root(&embedded_table(), "/d/repo/src/main.rs", &there), "/d/repo");
}

#[test]
fn workspace_root_accepts_git_file_worktree() {
    assert_eq!(root(&embedded_table(), "/d/lib.rs", &["/d/.git"]), "/d");
}

#[test]
fn workspace_root_falls_back_to_file_parent() {
    assert_eq!(root(&embedded_table(), "/d/notes.txt", &[]), "/d");
}

#[test]
fn explicit_root_markers_replace_generic_set() {
    let table = with_user(
        vec![],
        vec![LanguageDef {
            root_markers: Some(vec![".myroot".to_string()]),
            ..language("text", &["txt"])
        }],
    );
    let there = ["/d/.myroot", "/d/sub/package.json"];
    assert_eq!(root(&table, "/d/sub/notes.txt", &there), "/d");
}

#[test]
fn explicit_empty_root_markers_ignore_git() {
    let table = with_user(
        vec![],
        vec![LanguageDef { root_markers: Some(vec![]), ..language("text", &["txt"]) }],
    );
    assert_eq!(root(&table, "/d/repo/docs/memo.txt", &["/d/repo/.git"]), "/d/repo/docs");
}

#[test]
fn rust_without_explicit_markers_uses_generic_set() {
    let table = with_user(vec![], vec![language("rust", &["rs"])]);
    assert_eq!(root(&table, "/d/src/main.rs", &["/d/Cargo.toml"]), "/d");
}

#[test]
fn languages_refresh_picks_up_newly_added_language() {
    let at = |secs: u64| Some(FileTime { secs, nanos: 0 });
    let mut d = Daemon::new(embedded_table(), at(1));
    assert!(d.languages.server_for("/tmp/x.py").is_none());
    assert!(!d.languages_stale(at(1)));
    assert!(d.languages_stale(at(2)));
    let table = with_user(
        vec![server("pyright", "pyright-langserver", &[], None)],
        vec![LanguageDef {
            language_server: Some("pyright".to_string()),
            ..language("python", &["py"])
        }],
    );
    d.languages_refresh(at(2), table);
    let spec = d.languages.server_for("/tmp/x.py").expect("a server");
    assert_eq!(spec.language_id, "python");
    assert_eq!(spec.command, "pyright-langserver");
    assert!(d.languages.has_server("/tmp/a.rs"));
    assert!(!d.languages_stale(at(2)));
}
