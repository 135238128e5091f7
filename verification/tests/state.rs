//! The state that clients share: caches, records, base roots, review comments, views and the disk.
use minad::base::BasePull;
use minad::daemon::{
    Daemon, DiskBaseline, FileAt, FileTime, DEFAULT_VIEWPORT, MAX_BASE_DIAG_CACHE, MAX_HINT_CACHE,
};
use minad::editor::Selection;
use minad::languages::{search_dirs, LanguageDef, LanguageTable, NamedServer, RawFile, ServerConfig};
use minad::log::{MAX_ACTIVITY_LOG, MAX_EVENTS};
use minad::open::{check_after_open, check_before_open, check_contents, FileLook, Place, ReloadFacts};
use minad::opening::{DiskText, OpenFacts};
use minad::process::{Request, Step};
use minad::review::{resolve_current_line, DiskFact};
use minad::sessions::SessionKey;
use minad::types::{
    ActivityRecord, ClientKind, Command, Diagnostic, EventKind, EventSource, Hello, InlayHint, Mode,
    OutlineSymbol, Range, ReviewComment, ReviewSide, ServerMessage, Severity, SymbolKind,
};
use minad::watch::{publish, Reread};

fn language(name: &str, ext: &str, server: &str) -> LanguageDef {
    LanguageDef {
        name: name.to_string(),
        file_types: vec![ext.to_string()],
        language_server: Some(server.to_string()),
        root_markers: None,
        grammar: None,
    }
}

fn named(id: &str) -> NamedServer {
    NamedServer {
        id: id.to_string(),
        server: ServerConfig { command: id.to_string(), args: vec![], config: None },
    }
}

fn daemon() -> Daemon {
    Daemon::new(
        LanguageTable::from_parts(RawFile {
            language_server: vec![named("ra"), named("ts")],
            language: vec![language("rust", "rs", "ra"), language("typescript", "ts", "ts")],
        }),
        None,
    )
}

fn hint(position: usize) -> InlayHint {
    InlayHint { position, text: ": i32".to_string(), padding_left: true, padding_right: false }
}

fn finding(message: &str) -> Diagnostic {
    Diagnostic { start: 0, end: 1, severity: Severity::Error, message: message.to_string() }
}

fn stat(secs: u64, size: u64) -> DiskBaseline {
    DiskBaseline { mtime: FileTime { secs, nanos: 0 }, size }
}

fn start() -> Place {
    Place { selection: Selection::single(0, 0), first_line: 0 }
}

fn open_facts(at: Option<DiskBaseline>) -> OpenFacts {
    OpenFacts { stat: at, dead: vec![], idle: start() }
}

fn hello(name: &str, kind: ClientKind) -> Hello {
    Hello { kind, reset_cursor_on_disconnect: true, name: name.to_string() }
}

#[test]
fn hint_cache_evicts_oldest_over_cap() {
    let mut d = daemon();
    for i in 0..(MAX_HINT_CACHE + 5) {
        let p = format!("/tmp/hint-cache-evict-{i}.rs");
        d.cache_hints(&p, "let x = 5", vec![hint(5)]);
    }
    assert_eq!(d.hints.len(), MAX_HINT_CACHE);
    assert!(!d.hints.contains("/tmp/hint-cache-evict-0.rs"));
    assert!(d.hints.contains(&format!("/tmp/hint-cache-evict-{}.rs", MAX_HINT_CACHE + 4)));
}

fn function(name: &str) -> OutlineSymbol {
    OutlineSymbol {
        name: name.to_string(),
        kind: SymbolKind::Function,
        range: Range { anchor: 0, head: 10 },
        selection_range: Range { anchor: 3, head: 4 },
        children: Vec::new(),
    }
}

#[test]
fn outline_cache_invalidates_on_text_change_and_evicts_fifo() {
    let mut d = daemon();
    let p = "/tmp/outline-cache.rs";
    d.cache_outline(p, "pub fn f() {}", vec![function("f")]);
    assert_eq!(d.outlines.get(p).map(|c| c.symbols.len()), Some(1));
    assert!(d.cached_outline(p, "pub fn f() {}").is_some());
    assert!(d.cached_outline(p, "pub fn g() {}").is_none());
    d.cache_outline(p, "pub fn g() {}", vec![]);
    assert_eq!(d.outlines.get(p).map(|c| c.symbols.len()), Some(0));
    for i in 0..(MAX_HINT_CACHE + 5) {
        d.cache_outline(&format!("/tmp/outline-evict-{i}.rs"), "x", vec![]);
    }
    assert_eq!(d.outlines.len(), MAX_HINT_CACHE);
    assert!(!d.outlines.contains("/tmp/outline-evict-0.rs"));
}

#[test]
fn hints_are_fresh_for_their_text_only() {
    let mut d = daemon();
    d.cache_hints("/a.rs", "one", vec![hint(1)]);
    assert_eq!(d.fresh_hints("/a.rs", "one").map(|h| h.len()), Some(1));
    assert!(d.fresh_hints("/a.rs", "two").is_none());
    assert!(d.fresh_hints("/b.rs", "one").is_none());
}

#[test]
fn a_file_that_comes_again_keeps_its_place_in_the_cache() {
    let mut d = daemon();
    for i in 0..MAX_HINT_CACHE {
        d.cache_hints(&format!("/{i}.rs"), "x", vec![]);
    }
    d.cache_hints("/0.rs", "y", vec![hint(2)]);
    assert_eq!(d.hints.len(), MAX_HINT_CACHE);
    assert_eq!(d.fresh_hints("/0.rs", "y").map(|h| h.len()), Some(1));
    d.cache_hints("/new.rs", "x", vec![]);
    assert!(!d.hints.contains("/0.rs"));
    assert!(d.hints.contains("/1.rs"));
}

#[test]
fn activity_ring_is_bounded() {
    let mut d = daemon();
    for i in 0..(MAX_ACTIVITY_LOG + 5) {
        d.log.record_activity(ActivityRecord {
            actor: "agent".to_string(),
            kind: EventKind::Insert,
            ok: true,
            detail: format!("edit {i}"),
        });
    }
    assert_eq!(d.log.activity.len(), MAX_ACTIVITY_LOG);
    assert_eq!(d.log.activity[0].detail, "edit 5");
    assert_eq!(
        d.log.activity[MAX_ACTIVITY_LOG - 1].detail,
        format!("edit {}", MAX_ACTIVITY_LOG + 4)
    );
}

#[test]
fn event_ring_is_bounded_and_evicts_oldest() {
    let mut d = daemon();
    for i in 0..(MAX_EVENTS + 7) {
        d.log.record_event(EventSource::Interactive, EventKind::Insert, None, Some(format!("{i}")));
    }
    assert_eq!(d.log.events.len(), MAX_EVENTS);
    assert_eq!(d.log.events[0].text.as_deref(), Some("7"));
    assert_eq!(d.log.generation, (MAX_EVENTS + 7) as u64);
    assert_eq!(d.log.events[MAX_EVENTS - 1].generation, d.log.generation);
}

#[test]
fn drop_conn_view_restores_idle_focus() {
    let mut d = daemon();
    d.register_conn_view(7);
    let vid = d.conn_views.get(&7).expect("registered").view_id;
    d.editor.set_focused(vid);
    assert_eq!(d.editor.focused, vid);
    d.drop_conn_view(7);
    assert_eq!(d.editor.focused, d.idle_view);
    let _ = d.editor.focused_path();
}

#[test]
fn base_registry_prefix_caches_and_generation() {
    let mut d = daemon();
    assert!(!d.is_base_path("/r/a.rs"));
    d.register_base_root("/r", "abc1234".into(), None, EventSource::Interactive);
    assert_eq!(d.log.generation, 1);
    assert!(d.is_base_path("/r/a.rs"));
    assert!(d.is_base_path("/r"));
    assert!(!d.is_base_path("/other/a.rs"));
    assert!(!d.is_base_path("/r2/a.rs"));
    let msg = d.base_reject("/r/a.rs").unwrap();
    assert!(msg.contains("abc1234") && msg.contains("読取り専用"), "{msg}");
    assert!(d.base_reject("/o/b.rs").is_none());
    d.diagnostics.insert("/r/a.rs", Vec::new());
    d.diagnostics.insert("/o/b.rs", Vec::new());
    let before = d.log.generation;
    let sessions = d.unregister_base_root("/r", EventSource::Interactive);
    assert!(sessions.is_empty());
    assert!(!d.is_base_path("/r/a.rs"));
    assert!(d.diagnostics.contains("/o/b.rs"));
    assert!(!d.diagnostics.contains("/r/a.rs"));
    assert_eq!(d.log.generation, before + 1);
    let before2 = d.log.generation;
    assert!(d.unregister_base_root("/nope", EventSource::Interactive).is_empty());
    assert_eq!(d.log.generation, before2);
}

#[test]
fn unregistering_gives_the_sessions_back() {
    let mut d = daemon();
    d.register_base_root("/r", "c".into(), None, EventSource::Interactive);
    let key = |root: &str| SessionKey { root: root.to_string(), language: "rust".to_string() };
    d.adopt_session(key("/r/p"), 5, false);
    d.adopt_session(key("/o"), 6, false);
    assert_eq!(d.unregister_base_root("/r", EventSource::Interactive), vec![5]);
    assert_eq!(d.session_for("/o/x.rs", "/o"), Some(6));
    assert_eq!(d.session_for("/r/p/x.rs", "/r/p"), None);
}

#[test]
fn roots_that_are_not_there_are_refused() {
    let mut d = daemon();
    let m = d.finish_register("/gone", None, "c".into(), None, None, EventSource::Interactive);
    assert_eq!(m.as_deref(), Some("基準 root がありません: /gone"));
    assert_eq!(d.base_roots.len(), 0);
    let m = d.finish_register(
        "/r",
        Some("/r".to_string()),
        "c".into(),
        Some("/repo"),
        None,
        EventSource::Interactive,
    );
    assert_eq!(m.as_deref(), Some("対応リポジトリがありません: /repo"));
    assert_eq!(d.base_roots.len(), 0);
    assert_eq!(d.log.generation, 0);
    let m = d.finish_register(
        "/r",
        Some("/r".to_string()),
        "c".into(),
        Some("/repo"),
        Some("/repo".to_string()),
        EventSource::Interactive,
    );
    assert_eq!(m, None);
    assert_eq!(d.log.generation, 1);
}

#[test]
fn base_diagnostics_mapping_cache_and_clear() {
    let mut d = daemon();
    d.register_base_root("/base", "abc1234".into(), Some("/repo".into()), EventSource::Interactive);
    d.register_base_root("/other", "def5678".into(), None, EventSource::Interactive);
    assert_eq!(d.base_counterparts("/repo/a.rs"), vec!["/base/a.rs"]);
    assert!(d.snapshot_base_diagnostics(Some("/repo/a.rs")).is_empty());
    assert!(d.snapshot_base_diagnostics(None).is_empty());
    d.store_base_diagnostics("/base/a.rs", vec![finding("e")]);
    let got = d.snapshot_base_diagnostics(Some("/repo/a.rs"));
    assert_eq!(got.len(), 1);
    assert_eq!(got[0].path, "/base/a.rs");
    assert_eq!(got[0].diagnostics.len(), 1);
    assert!(d.take_base_pull(Some("/repo/a.rs")).is_none());
    assert_eq!(d.take_base_pull(Some("/repo/b.rs")).as_deref(), Some("/base/b.rs"));
    assert!(d.take_base_pull(Some("/repo/b.rs")).is_none());
    assert!(d.take_base_pull(None).is_none());
    d.unregister_base_root("/base", EventSource::Interactive);
    assert!(d.snapshot_base_diagnostics(Some("/repo/a.rs")).is_empty());
    assert!(d.base_counterparts("/repo/a.rs").is_empty());
    assert_eq!(d.base_diag_inflight.len(), 0);
}

#[test]
fn pulled_base_diagnostics_are_shown() {
    let mut d = daemon();
    d.register_base_root("/base", "c".into(), Some("/live".into()), EventSource::Interactive);
    assert_eq!(d.take_base_pull(Some("/live/src/a.rs")).as_deref(), Some("/base/src/a.rs"));
    assert!(d.finish_base_pull("/base/src/a.rs", BasePull::Pulled(vec![finding("old")])));
    let shown = d.snapshot_base_diagnostics(Some("/live/src/a.rs"));
    assert_eq!(shown.len(), 1);
    assert_eq!(shown[0].path, "/base/src/a.rs");
    assert!(d.base_counterparts("/elsewhere/a.rs").is_empty());
}

#[test]
fn unregistering_forgets_files_below_the_root_that_are_looked_at() {
    let mut d = daemon();
    d.register_base_root("/w/base", "c".into(), None, EventSource::Interactive);
    d.set_analysis_focus("/w/base/a.rs", "/w");
    d.set_analysis_focus("/v/b.rs", "/v");
    assert!(d.is_analysis_focus("/w/base/a.rs", "/w"));
    d.unregister_base_root("/w/base", EventSource::Interactive);
    assert!(!d.is_analysis_focus("/w/base/a.rs", "/w"));
    assert!(d.is_analysis_focus("/v/b.rs", "/v"));
}

#[test]
fn base_diagnostics_are_bounded() {
    let mut d = daemon();
    for i in 0..(MAX_BASE_DIAG_CACHE + 3) {
        d.store_base_diagnostics(&format!("/b/{i}.rs"), vec![]);
    }
    assert_eq!(d.base_diagnostics.len(), MAX_BASE_DIAG_CACHE);
    assert!(!d.base_diagnostics.contains("/b/2.rs"));
    assert!(d.base_diagnostics.contains("/b/3.rs"));
}

fn comment(path: &str, line: u32, snippet: &str, body: &str) -> ReviewComment {
    ReviewComment {
        path: path.to_string(),
        side: ReviewSide::Current,
        line,
        snippet: snippet.to_string(),
        body: body.to_string(),
        base: "c".to_string(),
        generation: 0,
    }
}

#[test]
fn review_comments_are_replaced_and_taken_away_at_their_line() {
    let mut d = daemon();
    d.add_review_comment(comment("/a.rs", 2, "b", "why?"), EventSource::Interactive);
    d.add_review_comment(comment("/a.rs", 5, "e", "nice"), EventSource::Interactive);
    assert_eq!(d.review_comments.len(), 2);
    d.add_review_comment(comment("/a.rs", 2, "b", "really?"), EventSource::Interactive);
    assert_eq!(d.review_comments.len(), 2);
    assert_eq!(d.review_comments[0].body, "really?");
    d.add_review_comment(comment("/a.rs", 2, "b", "  "), EventSource::Interactive);
    assert_eq!(d.review_comments.len(), 1);
    assert_eq!(d.review_comments[0].line, 5);
    d.clear_review_comments(EventSource::Headless);
    assert_eq!(d.review_comments.len(), 0);
}

#[test]
fn review_lines_are_found_again_by_their_text() {
    assert_eq!(resolve_current_line(Some("a\nb\nc"), 2, "b"), (2, false));
    assert_eq!(resolve_current_line(Some("x\na\nb"), 2, "b"), (3, true));
    assert_eq!(resolve_current_line(Some("x\ny"), 2, "b"), (2, true));
    assert_eq!(resolve_current_line(None, 2, "b"), (2, true));
}

#[test]
fn review_comments_are_listed_with_their_lines_now() {
    let mut d = daemon();
    d.open_document("/a.rs", "new\na\nb".to_string());
    d.add_review_comment(comment("/a.rs", 2, "b", "why?"), EventSource::Interactive);
    let m = d.serve_review_comments(&vec![DiskFact { exists: true, text: None }]);
    let ServerMessage::ReviewComments { comments, .. } = m else { panic!("another answer") };
    assert_eq!(comments.len(), 1);
    assert_eq!(comments[0].resolved_line, 3);
    assert!(comments[0].stale);
}

#[test]
fn registering_anew_drops_review_comments() {
    let mut d = daemon();
    d.register_base_root("/r", "one".into(), None, EventSource::Interactive);
    d.add_review_comment(comment("/a.rs", 1, "x", "y"), EventSource::Interactive);
    d.register_base_root("/r", "one".into(), None, EventSource::Interactive);
    assert_eq!(d.review_comments.len(), 1);
    d.register_base_root("/r", "two".into(), None, EventSource::Interactive);
    assert_eq!(d.review_comments.len(), 0);
}

#[test]
fn panes_of_clients_are_independent() {
    let mut d = daemon();
    d.connect(1, &hello("a", ClientKind::Interactive));
    d.connect(2, &hello("b", ClientKind::Interactive));
    d.focus_for(1);
    d.open_new(
        "/f.txt",
        "/",
        "line one\nline two\nline three\n".to_string(),
        1,
        EventSource::Interactive,
        open_facts(None),
    );
    d.focus_for(2);
    assert!(d.show_path(d.editor.focused, "/f.txt", start()));
    d.place_pane(d.editor.focused, Selection::single(18, 18), 0);
    d.focus_for(1);
    assert_eq!(d.editor.selection().ranges[0].anchor, 0);
    assert_eq!(d.editor.current().text, "line one\nline two\nline three\n");
    d.focus_for(2);
    assert_eq!(d.editor.selection().ranges[0].anchor, 18);
}

#[test]
fn last_disconnect_resets_the_idle_pane() {
    let mut d = daemon();
    d.connect(1, &hello("tui", ClientKind::Interactive));
    d.open_document("/f.txt", "hello".to_string());
    let idle = d.idle_view;
    d.show_path(idle, "/f.txt", Place { selection: Selection::single(5, 5), first_line: 0 });
    let before = d.log.generation;
    d.disconnect(1, ClientKind::Interactive, true);
    assert_eq!(d.editor.pane(idle).selection.ranges[0].anchor, 0);
    assert!(d.log.generation > before);
    assert_eq!(d.log.events.last().unwrap().kind, EventKind::SelectionReset);
    assert!(d.conn_views.is_empty());
}

#[test]
fn first_line_is_kept_without_the_flag() {
    let mut d = daemon();
    d.connect(1, &hello("tui", ClientKind::Interactive));
    let idle = d.idle_view;
    d.place_pane(idle, Selection::single(0, 0), 7);
    d.disconnect(1, ClientKind::Interactive, false);
    assert_eq!(d.editor.pane(idle).first_line, 7);
    assert_eq!(d.log.generation, 0);
}

#[test]
fn first_line_is_reset_by_the_last_disconnect() {
    let mut d = daemon();
    d.connect(1, &hello("a", ClientKind::Interactive));
    d.connect(2, &hello("b", ClientKind::Interactive));
    let idle = d.idle_view;
    d.place_pane(idle, Selection::single(0, 0), 7);
    d.disconnect(1, ClientKind::Interactive, true);
    assert_eq!(d.editor.pane(idle).first_line, 7);
    d.disconnect(2, ClientKind::Interactive, true);
    assert_eq!(d.editor.pane(idle).first_line, 0);
}

#[test]
fn notices_skip_their_originator() {
    let mut d = daemon();
    d.connect(1, &hello("a", ClientKind::Interactive));
    d.connect(2, &hello("b", ClientKind::Interactive));
    assert!(d.push_view(Some(1), 1).is_none());
    let v = d.push_view(Some(1), 2).expect("a notice");
    assert_eq!(v.view_id, d.conn_views.get(&2).unwrap().view_id);
    let other = d.push_view(None, 9).expect("a notice");
    assert_eq!(other.view_id, d.idle_view);
    assert_eq!(other.viewport, DEFAULT_VIEWPORT);
}

#[test]
fn headless_requests_are_refused_at_their_first_step() {
    let mut d = daemon();
    for c in [
        Command::Insert { text: "x".into() },
        Command::SetMode { mode: Mode::Insert },
        Command::Undo,
        Command::SelectAll,
        Command::SetViewport { height: 3 },
    ] {
        let s = d.begin_request(&Request::Command(c), 1, EventSource::Headless);
        let Step::Respond(Some(status)) = s else { panic!("not refused") };
        assert!(status.starts_with("headless clients can only use"), "{status}");
    }
    assert_eq!(d.log.generation, 0);
    assert!(matches!(
        d.begin_request(&Request::Command(Command::GetState), 1, EventSource::Headless),
        Step::Engine(_)
    ));
    assert!(matches!(
        d.begin_request(&Request::Invalid, 1, EventSource::Headless),
        Step::Respond(Some(_))
    ));
    assert!(matches!(
        d.begin_request(
            &Request::Command(Command::WaitFor { generation: 3 }),
            1,
            EventSource::Headless
        ),
        Step::Wait(3)
    ));
}

#[test]
fn wait_for_generation_returns_immediately_when_already_passed() {
    let mut d = daemon();
    assert!(!d.wait_over(0));
    d.log.bump();
    assert!(d.wait_over(0));
    assert!(!d.wait_over(1));
}

#[test]
fn open_rejects_oversized_file() {
    let size = minad::commands::MAX_FILE_SIZE + 1;
    let m = check_before_open("/big", FileLook::Regular { len: size }).expect("a reason");
    assert!(m.starts_with("file too large"), "{m}");
    assert!(check_before_open("/ok", FileLook::Regular { len: size - 1 }).is_none());
    let m = check_after_open("/big", Some(FileLook::Regular { len: size })).expect("a reason");
    assert!(m.starts_with("file too large"), "{m}");
}

#[test]
fn open_rejects_non_regular_file() {
    let m = check_before_open("/dir", FileLook::Special { len: 0 }).expect("a reason");
    assert!(m.starts_with("cannot open"), "{m}");
}

#[test]
fn open_reports_non_utf8_as_cannot_read() {
    let (text, status) = check_contents("/x", Err("stream did not contain valid UTF-8".into()));
    assert!(text.is_none());
    assert!(status.unwrap().starts_with("cannot read"));
}

#[test]
fn opened_and_failed_files_are_recorded() {
    let mut d = daemon();
    d.connect(4, &hello("agent", ClientKind::Headless));
    d.open_new("/f.txt", "/", "base\n".into(), 4, EventSource::Headless, open_facts(None));
    d.open_failed("cannot open /nope", 4, EventSource::Headless, &vec![]);
    assert_eq!(d.log.activity.len(), 2);
    assert!(d.log.activity[0].ok);
    assert_eq!(d.log.activity[0].actor, "agent");
    assert_eq!(d.log.activity[0].detail, "/f.txt");
    assert!(!d.log.activity[1].ok);
    assert_eq!(d.log.activity[1].detail, "cannot open /nope");
}

fn reread(path: &str, text: &str, at: DiskBaseline) -> Reread {
    Reread {
        path: path.to_string(),
        disk: DiskText {
            text: text.to_string(),
            facts: ReloadFacts { reloaded: true, can_undo: true, can_redo: false },
        },
        stat: Some(at),
    }
}

#[test]
fn diverged_file_is_read_again() {
    let mut d = daemon();
    d.open_new("/f", "/", "old".into(), 1, EventSource::Interactive, open_facts(Some(stat(1, 3))));
    let plan = d.watch_plan(&vec![Some(stat(1, 3))]);
    assert!(plan.reload.is_empty());
    let plan = d.watch_plan(&vec![Some(stat(2, 3))]);
    assert_eq!(plan.reload, vec!["/f"]);
    let before = d.log.generation;
    let r = d.watch_apply(&plan, vec![reread("/f", "new", stat(2, 3))]);
    assert!(r.reloaded && r.tell);
    assert_eq!(r.sync.as_deref(), Some("new"));
    assert_eq!(d.editor.current().text, "new");
    assert!(!d.editor.current().dirty);
    assert!(d.editor.current().can_undo);
    assert_eq!(d.log.generation, before + 1);
    assert_eq!(d.log.events.last().unwrap().kind, EventKind::ExternalChange);
    assert!(d.watch_plan(&vec![Some(stat(2, 3))]).reload.is_empty());
}

#[test]
fn deleted_file_reappears() {
    let mut d = daemon();
    d.open_new("/f", "/", "x".into(), 1, EventSource::Interactive, open_facts(Some(stat(1, 1))));
    let plan = d.watch_plan(&vec![None]);
    assert!(plan.focused_deleted);
    d.watch_apply(&plan, vec![]);
    assert_eq!(d.deleted.as_deref(), Some("/f"));
    let g = d.log.generation;
    let plan = d.watch_plan(&vec![None]);
    d.watch_apply(&plan, vec![]);
    assert_eq!(d.log.generation, g);
    let plan = d.watch_plan(&vec![Some(stat(1, 1))]);
    assert!(plan.focused_reappeared);
    d.watch_apply(&plan, vec![]);
    assert_eq!(d.deleted, None);
}

#[test]
fn reload_closes_the_insert_session() {
    let mut d = daemon();
    d.open_new("/f", "/", "x".into(), 1, EventSource::Interactive, open_facts(Some(stat(1, 1))));
    d.enter_insert(1);
    let plan = d.watch_plan(&vec![Some(stat(2, 2))]);
    let r = d.watch_apply(&plan, vec![reread("/f", "yy", stat(2, 2))]);
    assert!(r.closed_group);
    assert_eq!(d.editor.mode, Mode::Normal);
    assert_eq!(d.insert_owner, None);
}

#[test]
fn notices_are_published_once_per_generation() {
    assert!(publish(3, 4));
    assert!(!publish(4, 4));
}

#[test]
fn save_names_what_it_wrote() {
    let mut d = daemon();
    d.open_new("/f", "/", "x".into(), 1, EventSource::Interactive, open_facts(None));
    let s = d.begin_request(&Request::Command(Command::Save), 1, EventSource::Interactive);
    let Step::Save(job) = s else { panic!("not a save") };
    assert_eq!(job.path.as_deref(), Some("/f"));
    assert_eq!(job.text, "x");
    let status = d.finish_save(&job, 1, EventSource::Interactive, None, Some(stat(9, 1)));
    assert_eq!(status, "saved: /f");
    assert_eq!(d.log.events.last().unwrap().kind, EventKind::Save);
    assert!(!d.diverged("/f", stat(9, 1)));
    assert!(d.diverged("/f", stat(9, 2)));
    let status =
        d.finish_save(&job, 1, EventSource::Headless, Some("disk full".to_string()), None);
    assert_eq!(status, "save failed: disk full");
    assert_eq!(d.log.activity.last().unwrap().detail, "save failed: disk full");
}

#[test]
fn writes_below_a_base_are_refused() {
    let mut d = daemon();
    d.open_new("/r/f", "/r", "x".into(), 1, EventSource::Interactive, open_facts(None));
    d.register_base_root("/r", "abcdef0123".into(), None, EventSource::Interactive);
    for c in [Command::Save, Command::Insert { text: "y".into() }, Command::OpenBelow] {
        let s = d.begin_request(&Request::Command(c), 1, EventSource::Interactive);
        let Step::Respond(Some(m)) = s else { panic!("not refused") };
        assert!(m.contains("読取り専用"), "{m}");
    }
    assert_eq!(d.editor.current().text, "x");
}

#[test]
fn session_keys_split_mixed_language_same_root() {
    let mut d = daemon();
    let rs = d.session_key("/w/a.rs", "/w").unwrap();
    let ts = d.session_key("/w/a.ts", "/w").unwrap();
    assert_eq!(rs.root, ts.root);
    assert!(d.session_key("/w/c.txt", "/w").is_none());
    d.adopt_session(rs, 1, false);
    d.adopt_session(ts, 2, false);
    let got_rs = d.session_for("/w/a.rs", "/w").expect("a session");
    let got_ts = d.session_for("/w/a.ts", "/w").expect("a session");
    assert_eq!(got_rs, 1);
    assert_eq!(got_ts, 2);
    assert_ne!(got_rs, got_ts);
}

#[test]
fn session_lookup_survives_root_marker_edit() {
    let table = |markers: Option<Vec<String>>| {
        LanguageTable::from_parts(RawFile {
            language_server: vec![named("mock")],
            language: vec![LanguageDef { root_markers: markers, ..language("text", "txt", "mock") }],
        })
    };
    let file = "/proj/docs/memo.txt";
    let root = |t: &LanguageTable| {
        let markers = t.root_markers(file);
        let marked = search_dirs(file)
            .iter()
            .map(|d| d == "/proj" && markers.contains(&".docsroot".to_string()))
            .collect();
        t.workspace_root(file, &marked)
    };
    let mut d = Daemon::new(table(None), None);
    let old_root = root(&d.languages);
    let key = || SessionKey { root: "/proj/docs".to_string(), language: "text".to_string() };
    assert_eq!(old_root, key().root);
    d.adopt_session(key(), 3, false);
    let later = Some(FileTime { secs: 1, nanos: 0 });
    d.languages_refresh(later, table(Some(vec![".docsroot".to_string()])));
    let fresh = root(&d.languages);
    assert_ne!(fresh, old_root);
    assert!(d
        .sessions
        .get(&SessionKey { root: fresh.clone(), language: "text".to_string() })
        .is_none());
    assert_eq!(d.session_for(file, &fresh), Some(3));
}

#[test]
fn session_of_a_root_above_serves_a_file() {
    let mut d = daemon();
    let key = SessionKey { root: "/w".to_string(), language: "rust".to_string() };
    d.adopt_session(key, 3, false);
    assert_eq!(d.session_for("/w/sub/a.rs", "/w/sub"), Some(3));
    assert_eq!(d.session_for("/w2/a.rs", "/w2"), None);
    assert_eq!(d.session_for("/w/sub/a.ts", "/w/sub"), None);
}

#[test]
fn drain_into_clears_stale_diagnostics_when_server_dies() {
    let mut d = daemon();
    d.open_document("/tmp/x.rs", "fn main() { TODO }".to_string());
    d.set_focus_diagnostics("/tmp/x.rs", "/tmp", vec![finding("TODO")]);
    d.cache_hints("/tmp/x.rs", "x", vec![hint(1)]);
    assert_eq!(d.focus_diagnostics("/tmp/x.rs", "/tmp").len(), 1);
    let key = SessionKey { root: "/tmp".to_string(), language: "rust".to_string() };
    d.adopt_session(key, 3, false);
    let at = |path: &str| FileAt { path: path.to_string(), root: "/tmp".to_string() };
    let files = vec![at("/tmp/x.rs"), at("/tmp/b.ts")];
    assert!(d.dead_files(&files, &vec![4]).is_empty());
    let dead = d.dead_files(&files, &vec![4, 3]);
    assert_eq!(dead, vec!["/tmp/x.rs".to_string()]);
    d.drain_into(&dead);
    assert!(d.focus_diagnostics("/tmp/x.rs", "/tmp").is_empty());
    assert!(d.focus_inlay_hints("/tmp/x.rs", "/tmp").is_empty());
}

#[test]
fn idle_pane_follows_to_what_was_opened_last() {
    let mut d = daemon();
    let idle = d.idle_view;
    let known = || open_facts(Some(stat(1, 5)));
    d.open_new("/f", "/", "hello".into(), 1, EventSource::Interactive, known());
    d.place_pane(idle, Selection::single(3, 3), 0);
    d.open_existing("/f", "/", 1, EventSource::Interactive, None, known());
    assert_eq!(d.editor.pane(idle).selection.ranges[0].anchor, 3);
    d.open_new("/g", "/", "other".into(), 1, EventSource::Interactive, known());
    let doc = d.editor.pane(idle).doc;
    assert_eq!(d.editor.doc(doc).path.as_deref(), Some("/g"));
    assert_eq!(d.editor.pane(idle).selection.ranges[0].anchor, 0);
}

#[test]
fn closing_forgets_what_the_disk_said() {
    let mut d = daemon();
    d.open_new("/f", "/", "x".into(), 1, EventSource::Interactive, open_facts(Some(stat(1, 1))));
    let mut left = minad::commands::Arrangement { documents: vec![], panes: vec![] };
    left.documents.push(minad::editor::Document {
        id: 0,
        path: None,
        text: String::new(),
        dirty: false,
        can_undo: false,
        can_redo: false,
    });
    for p in &d.editor.panes {
        left.panes.push(minad::editor::Pane {
            id: p.id,
            doc: 0,
            selection: Selection::single(0, 0),
            first_line: 0,
        });
    }
    let applied = d.apply_from(
        &Command::Close,
        1,
        minad::commands::EngineReply::Arranged(Some(left)),
    );
    assert!(applied.changed);
    assert_eq!(d.editor.current().path, None);
    assert_eq!(d.baselines.len(), 0);
}
