//! Commands and edits, run with a small text engine in place of the real one.
use std::collections::HashMap;

use minad::clients::GroupChange;
use minad::commands::{
    AfterWord, Arrangement, EditReply, EngineCall, EngineReply, WordMoveTarget, MAX_FILE_SIZE,
};
use minad::connection::{line_too_long, route, source_of, subscribes, Route, MAX_CMD_LINE};
use minad::daemon::{Daemon, DiskBaseline, FileTime, MAX_VIEWPORT_HEIGHT};
use minad::editor::{Document, Pane, Selection};
use minad::edits::EditFacts;
use minad::languages::{search_dirs, LanguageDef, LanguageTable, NamedServer, RawFile, ServerConfig};
use minad::open::{check_after_open, Place, ReloadFacts};
use minad::opening::{DiskText, OpenFacts};
use minad::process::{Request, Step};
use minad::review::DiskFact;
use minad::text::fnv1a64;
use minad::types::{
    ActivityKind, ClientKind, Command, Diagnostic, Direction, DocumentEdit, EventKind, EventSource,
    GotoTarget, Hello, InlayHint, Mode, Movement, Range, ReviewCommentView, ReviewSide,
    ServerMessage, Severity, StateSnapshot,
};
use minad::watch::{publish, Reread};

/// What one change did to a document.
struct Change {
    before: (String, Selection),
    after: (String, Selection),
}

/// A document's changes, in groups that are undone together.
#[derive(Default)]
struct History {
    done: Vec<Vec<Change>>,
    undone: Vec<Vec<Change>>,
    open: bool,
    started: bool,
}

impl History {
    fn begin(&mut self) {
        self.open = true;
        self.started = false;
    }

    fn end(&mut self) {
        self.open = false;
        self.started = false;
    }

    fn push(&mut self, c: Change) {
        self.undone.clear();
        if self.open && self.started {
            self.done.last_mut().unwrap().push(c);
        } else {
            self.done.push(vec![c]);
            self.started = self.open;
        }
    }
}

struct Bench {
    d: Daemon,
    history: HashMap<u64, History>,
}

fn language(name: &str, ext: &str, server: Option<&str>) -> LanguageDef {
    LanguageDef {
        name: name.to_string(),
        file_types: vec![ext.to_string()],
        language_server: server.map(|s| s.to_string()),
        root_markers: None,
        grammar: None,
    }
}

fn table() -> LanguageTable {
    LanguageTable::from_parts(RawFile {
        language_server: vec![NamedServer {
            id: "rust-analyzer".to_string(),
            server: ServerConfig {
                command: "rust-analyzer".to_string(),
                args: vec![],
                config: None,
            },
        }],
        language: vec![language("rust", "rs", Some("rust-analyzer"))],
    })
}

fn daemon() -> Bench {
    Bench { d: Daemon::new(table(), None), history: HashMap::new() }
}

fn root_of(path: &str) -> String {
    table().workspace_root(path, &vec![false; search_dirs(path).len()])
}

fn chars(s: &str) -> Vec<char> {
    s.chars().collect()
}

fn text_of(cs: &[char]) -> String {
    cs.iter().collect()
}

fn line_start(cs: &[char], at: usize) -> usize {
    let mut i = at;
    while i > 0 && cs[i - 1] != '\n' {
        i -= 1;
    }
    i
}

fn line_end(cs: &[char], at: usize) -> usize {
    let mut i = at;
    while i < cs.len() && cs[i] != '\n' {
        i += 1;
    }
    i
}

fn line_number(cs: &[char], at: usize) -> usize {
    cs[..at].iter().filter(|c| **c == '\n').count()
}

/// The place `lines` lines further, in the same column as far as the line goes.
fn by_lines(cs: &[char], at: usize, lines: isize) -> usize {
    let starts: Vec<usize> = std::iter::once(0)
        .chain(cs.iter().enumerate().filter(|(_, c)| **c == '\n').map(|(i, _)| i + 1))
        .collect();
    let here = line_number(cs, at) as isize;
    let col = at - line_start(cs, at);
    let there = here.saturating_add(lines).clamp(0, starts.len() as isize - 1) as usize;
    (starts[there] + col).min(line_end(cs, starts[there]))
}

fn first_non_white(cs: &[char], at: usize) -> usize {
    let s = line_start(cs, at);
    let e = line_end(cs, at);
    (s..e).find(|i| !cs[*i].is_whitespace()).unwrap_or(s)
}

fn word_end(cs: &[char], at: usize) -> usize {
    let mut i = at;
    while i < cs.len() && cs[i].is_whitespace() {
        i += 1;
    }
    while i < cs.len() && !cs[i].is_whitespace() {
        i += 1;
    }
    i
}

fn word_start(cs: &[char], at: usize) -> usize {
    let mut i = at;
    while i > 0 && cs[i - 1].is_whitespace() {
        i -= 1;
    }
    while i > 0 && !cs[i - 1].is_whitespace() {
        i -= 1;
    }
    i
}

fn next_word(cs: &[char], at: usize) -> usize {
    let mut i = at;
    while i < cs.len() && !cs[i].is_whitespace() {
        i += 1;
    }
    while i < cs.len() && cs[i].is_whitespace() {
        i += 1;
    }
    i
}

fn moved(cs: &[char], at: usize, m: Movement, d: Direction) -> usize {
    let ahead = d == Direction::Forward;
    match m {
        Movement::Char => if ahead { (at + 1).min(cs.len()) } else { at.saturating_sub(1) },
        Movement::Line => by_lines(cs, at, if ahead { 1 } else { -1 }),
        Movement::Word => if ahead { next_word(cs, at) } else { word_start(cs, at) },
        Movement::WordEnd => if ahead { word_end(cs, at) } else { word_start(cs, at) },
        Movement::LineStart => line_start(cs, at),
        Movement::LineEnd => line_end(cs, at),
        Movement::FirstNonWhitespace => first_non_white(cs, at),
    }
}

fn pair(ch: char) -> (char, char) {
    match ch {
        '(' | ')' => ('(', ')'),
        '[' | ']' => ('[', ']'),
        '{' | '}' => ('{', '}'),
        c => (c, c),
    }
}

/// A place within a selection, from which the pair around it is looked for.
fn inside(r: Range) -> usize {
    if r.is_cursor() {
        r.head
    } else {
        r.start() + 1
    }
}

fn enclosing(cs: &[char], at: usize, ch: char) -> Option<(usize, usize)> {
    let (open, close) = pair(ch);
    let lo = (0..at).rev().find(|i| cs[*i] == open)?;
    let hi = (at..cs.len()).find(|i| cs[*i] == close)?;
    Some((lo, hi))
}

/// The matches of a query. Upper and lower case are told apart in an exact search.
fn matches_of(text: &str, query: &str, exact: bool) -> Vec<Range> {
    let f = |c: char| if exact { c } else { c.to_lowercase().next().unwrap() };
    let t: Vec<char> = text.chars().map(f).collect();
    let q: Vec<char> = query.chars().map(f).collect();
    (0..t.len())
        .filter(|i| !q.is_empty() && t[*i..].starts_with(&q))
        .map(|i| Range { anchor: i, head: i + q.len() })
        .collect()
}

/// Replaces stretches, given in order, and says where each replacement ends.
fn replaced(cs: &[char], edits: &[(usize, usize, String)]) -> (String, Vec<usize>) {
    let mut out: Vec<char> = Vec::new();
    let mut ends = Vec::new();
    let mut at = 0;
    for (lo, hi, new) in edits {
        out.extend(&cs[at..*lo]);
        out.extend(new.chars());
        ends.push(out.len());
        at = *hi;
    }
    out.extend(&cs[at..]);
    (text_of(&out), ends)
}

fn points(at: &[usize]) -> Selection {
    Selection { ranges: at.iter().map(|p| Range { anchor: *p, head: *p }).collect(), primary_index: 0 }
}

impl Bench {
    fn doc(&self) -> u64 {
        self.d.editor.current().id
    }

    fn text(&self) -> String {
        self.d.editor.current().text.clone()
    }

    fn can_undo(&self) -> bool {
        self.d.editor.current().can_undo
    }

    fn log(&mut self) -> &mut History {
        let id = self.doc();
        self.history.entry(id).or_default()
    }

    fn edit(&mut self, edits: Vec<(usize, usize, String)>, shape: Option<Selection>) -> EngineReply {
        let text = self.text();
        let before = self.d.editor.selection();
        let cs = chars(&text);
        let noop = edits.iter().all(|(lo, hi, new)| lo == hi && new.is_empty());
        if noop {
            let can_redo = self.d.editor.current().can_redo;
            return EngineReply::Edited(EditReply {
                noop: true,
                text,
                dirty: self.d.editor.current().dirty,
                can_undo: self.can_undo(),
                can_redo,
                selection: before,
            });
        }
        let (new_text, ends) = replaced(&cs, &edits);
        let selection = shape.unwrap_or_else(|| points(&ends));
        self.log().push(Change {
            before: (text, before),
            after: (new_text.clone(), selection.copy()),
        });
        EngineReply::Edited(EditReply {
            noop: false,
            text: new_text,
            dirty: true,
            can_undo: true,
            can_redo: false,
            selection,
        })
    }

    fn step_back(&mut self, back: bool) -> EngineReply {
        let h = self.log();
        h.started = false;
        let unit = if back { h.done.pop() } else { h.undone.pop() };
        let Some(unit) = unit else {
            return EngineReply::Nothing;
        };
        let (text, selection) = if back {
            (unit[0].before.0.clone(), unit[0].before.1.copy())
        } else {
            let last = unit.last().unwrap();
            (last.after.0.clone(), last.after.1.copy())
        };
        if back {
            h.undone.push(unit);
        } else {
            h.done.push(unit);
        }
        let (can_undo, can_redo) = (!h.done.is_empty(), !h.undone.is_empty());
        EngineReply::Edited(EditReply { noop: false, text, dirty: true, can_undo, can_redo, selection })
    }

    fn go(&self, f: impl Fn(&[char], Range) -> Range, lines: isize) -> EngineReply {
        let cs = chars(&self.text());
        let s = self.d.editor.selection();
        let last = line_number(&cs, cs.len()) as isize;
        let first = self.d.editor.pane(self.d.editor.focused).first_line as isize;
        EngineReply::Moved {
            selection: Selection {
                ranges: s.ranges.iter().map(|r| f(&cs, *r)).collect(),
                primary_index: s.primary_index,
            },
            first_line: first.saturating_add(lines).clamp(0, last) as usize,
        }
    }

    fn point_go(&self, f: impl Fn(&[char], usize) -> usize) -> EngineReply {
        self.go(
            |cs, r| {
                let p = f(cs, r.head);
                Range { anchor: p, head: p }
            },
            0,
        )
    }

    /// Answers a call, and the call that the word under the cursor leads to.
    fn answer(&mut self, call: &EngineCall) -> EngineReply {
        match self.one_answer(call) {
            EngineReply::Word(word) => match self.d.after_word(word) {
                AfterWord::Ask(next) => self.one_answer(&next),
                AfterWord::Answer(reply) => reply,
            },
            reply => reply,
        }
    }

    fn one_answer(&mut self, call: &EngineCall) -> EngineReply {
        let cs = chars(&self.text());
        let ranges = self.d.editor.selection().ranges;
        let spans = |f: &dyn Fn(Range) -> (usize, usize, String)| -> Vec<(usize, usize, String)> {
            ranges.iter().map(|r| f(*r)).collect()
        };
        let cut = |f: &dyn Fn(usize) -> (usize, usize)| {
            spans(&|r: Range| {
                if r.is_cursor() {
                    let (lo, hi) = f(r.head);
                    (lo, hi, String::new())
                } else {
                    (r.start(), r.end(), String::new())
                }
            })
        };
        match call {
            EngineCall::Nothing => EngineReply::Nothing,
            EngineCall::Insert { text, .. } => {
                let e = spans(&|r: Range| (r.start(), r.end(), text.clone()));
                self.edit(e, None)
            }
            EngineCall::DeleteBackward { .. } => {
                let e = cut(&|p| (p.saturating_sub(1), p));
                self.edit(e, None)
            }
            EngineCall::DeleteForward { .. } => {
                let e = cut(&|p| (p, (p + 1).min(cs.len())));
                self.edit(e, None)
            }
            EngineCall::DeleteWordBackward { .. } => {
                let e = cut(&|p| (word_start(&cs, p), p));
                self.edit(e, None)
            }
            EngineCall::DeleteWordForward { .. } => {
                let e = cut(&|p| (p, word_end(&cs, p)));
                self.edit(e, None)
            }
            EngineCall::DeleteSelection { .. } => {
                let e = cut(&|p| (p, p));
                self.edit(e, None)
            }
            EngineCall::DeleteRanges { ranges, .. } => {
                let cuts = ranges.ranges.iter().map(|r| (r.start(), r.end(), String::new()));
                self.edit(cuts.collect(), None)
            }
            EngineCall::Replace { text, .. } => {
                let e = spans(&|r: Range| {
                    if !r.is_cursor() {
                        (r.start(), r.end(), text.clone())
                    } else if r.head < line_end(&cs, r.head) {
                        (r.head, r.head + 1, text.clone())
                    } else {
                        (r.head, r.head, String::new())
                    }
                });
                self.edit(e, None)
            }
            EngineCall::SurroundAdd { ch } => {
                let (open, close) = pair(*ch);
                let r = ranges[0];
                let e = vec![
                    (r.start(), r.start(), open.to_string()),
                    (r.end(), r.end(), close.to_string()),
                ];
                self.edit(e, Some(Selection::single(r.start(), r.end() + 2)))
            }
            EngineCall::SurroundDelete { ch } => match enclosing(&cs, inside(ranges[0]), *ch) {
                Some((lo, hi)) => self.edit(
                    vec![(lo, lo + 1, String::new()), (hi, hi + 1, String::new())],
                    Some(Selection::single(lo, lo)),
                ),
                None => EngineReply::NoPair,
            },
            EngineCall::SurroundReplace { from, to } => match enclosing(&cs, inside(ranges[0]), *from) {
                Some((lo, hi)) => {
                    let (open, close) = pair(*to);
                    self.edit(
                        vec![(lo, lo + 1, open.to_string()), (hi, hi + 1, close.to_string())],
                        Some(Selection::single(lo, lo)),
                    )
                }
                None => EngineReply::NoPair,
            },
            EngineCall::OpenLine { movement, direction, ch, after } => {
                let p = moved(&cs, ranges[0].head, *movement, *direction);
                let at = if *after { p + 1 } else { p };
                self.edit(vec![(p, p, ch.to_string())], Some(Selection::single(at, at)))
            }
            EngineCall::Undo => self.step_back(true),
            EngineCall::Redo => self.step_back(false),
            EngineCall::Move { movement, direction } => {
                self.point_go(|cs, p| moved(cs, p, *movement, *direction))
            }
            EngineCall::MoveWord { target } => self.go(
                |cs, r| match target {
                    WordMoveTarget::NextWordStart | WordMoveTarget::NextWordEnd => {
                        Range { anchor: r.head, head: word_end(cs, r.head) }
                    }
                    WordMoveTarget::PrevWordStart | WordMoveTarget::PrevWordEnd => {
                        Range { anchor: (r.head + 1).min(cs.len()), head: word_start(cs, r.head) }
                    }
                },
                0,
            ),
            EngineCall::Extend { movement, direction } => self.go(
                |cs, r| Range { anchor: r.anchor, head: moved(cs, r.head, *movement, *direction) },
                0,
            ),
            EngineCall::SelectLine => self.go(
                |cs, r| Range {
                    anchor: line_start(cs, r.head),
                    head: (line_end(cs, r.head) + 1).min(cs.len()),
                },
                0,
            ),
            EngineCall::ExtendLineBelow => self.go(
                |cs, r| Range {
                    anchor: line_start(cs, r.start()),
                    head: (line_end(cs, r.end()) + 1).min(cs.len()),
                },
                0,
            ),
            EngineCall::Append => self.point_go(|cs, p| (p + 1).min(line_end(cs, p))),
            EngineCall::LineFirstNonWhitespace => self.point_go(first_non_white),
            EngineCall::ExtendTo { pos } => {
                self.go(|_, r| Range { anchor: r.anchor, head: *pos }, 0)
            }
            EngineCall::ScrollPages { delta, extend, .. }
            | EngineCall::ScrollLines { delta, extend } => self.go(
                |cs, r| {
                    let head = by_lines(cs, r.head, *delta);
                    Range { anchor: if *extend { r.anchor } else { head }, head }
                },
                *delta,
            ),
            EngineCall::Find { query, exact, direction, from, wrap_from } => {
                let all = matches_of(&self.text(), query, *exact);
                let find = |at: usize| match direction {
                    Direction::Forward => all.iter().find(|r| r.anchor >= at).copied(),
                    Direction::Backward => all.iter().rev().find(|r| r.anchor <= at).copied(),
                };
                EngineReply::Found { near: find(*from), wrapped: find(*wrap_from) }
            }
            EngineCall::WordAt { at } => {
                let p = *at;
                let lo = (0..p).rev().find(|i| cs[*i].is_whitespace()).map_or(0, |i| i + 1);
                let hi = (p..cs.len()).find(|i| cs[*i].is_whitespace()).unwrap_or(cs.len());
                EngineReply::Word(if lo < hi { Some(Range { anchor: lo, head: hi }) } else { None })
            }
            EngineCall::FindAll { query, exact, word } => {
                let all = matches_of(&self.text(), query, *exact);
                let matches = if all.is_empty() {
                    None
                } else {
                    Some(Selection { ranges: all, primary_index: 0 })
                };
                EngineReply::Matches { word: *word, matches }
            }
            EngineCall::Close => EngineReply::Arranged(None),
        }
    }

    /// Lets the focused pane follow its cursor.
    fn follow(&mut self) {
        let id = self.d.editor.focused;
        let selection = self.d.editor.selection();
        let cs = chars(&self.text());
        let line = line_number(&cs, selection.primary().head.min(cs.len()));
        let first = self.d.editor.pane(id).first_line;
        let height = self.d.viewport_height.max(1);
        let first = if line < first {
            line
        } else if line >= first + height {
            line + 1 - height
        } else {
            first
        };
        self.d.place_pane(id, selection, first);
    }

    fn snapshot(&mut self, status: Option<String>) -> StateSnapshot {
        let root = root_of(self.d.editor.focused_path().as_deref().unwrap_or(""));
        self.d.snapshot(&root, vec![], status)
    }

    fn set_selection(&mut self, at: usize) {
        let id = self.d.editor.focused;
        let first = self.d.editor.pane(id).first_line;
        self.d.place_pane(id, Selection::single(at, at), first);
    }

    fn show(&mut self, path: &str) {
        let id = self.d.idle_view;
        self.d.editor.set_focused(id);
        assert!(self.d.show_path(
            id,
            path,
            Place { selection: Selection::single(0, 0), first_line: 0 }
        ));
    }
}

fn open_path(b: &mut Bench, path: &str, text: &str) -> StateSnapshot {
    b.d.open_document(path, text.to_string());
    b.snapshot(None)
}

fn open(b: &mut Bench, text: &str) -> StateSnapshot {
    open_path(b, "test.txt", text)
}

fn apply_from(b: &mut Bench, c: Command, conn: u64) -> (StateSnapshot, bool) {
    let begin = b.d.begin_command(&c, conn);
    if begin.preempted {
        b.log().end();
    }
    let reply = b.answer(&begin.call);
    let applied = b.d.apply_from(&c, conn, reply);
    assert!(!applied.preempted, "the foreign session was closed at the start");
    match applied.group {
        GroupChange::Keep => {}
        GroupChange::Begin => b.log().begin(),
        GroupChange::End => b.log().end(),
        GroupChange::Restart => {
            b.log().end();
            b.log().begin();
        }
    }
    if applied.scroll {
        b.follow();
    }
    (b.snapshot(applied.status), applied.changed)
}

fn apply(b: &mut Bench, c: Command) -> StateSnapshot {
    apply_from(b, c, 0).0
}

/// Makes an edit by position. An edit that was not applied is answered with a snapshot.
fn apply_edit(b: &mut Bench, edit: &DocumentEdit, conn: u64, source: EventSource) -> Option<StateSnapshot> {
    let before = (b.text(), b.d.editor.selection());
    let noop = edit.start == edit.end && edit.text.is_empty();
    let facts = EditFacts { noop, dirty: true, can_undo: true, can_redo: false };
    let r = b.d.apply_edit(edit, conn, source, facts);
    if r.preempted {
        b.log().end();
    }
    if r.applied {
        let after = (b.text(), b.d.editor.selection());
        b.log().push(Change { before, after });
        return None;
    }
    Some(b.snapshot(r.status))
}

fn mv(movement: Movement, direction: Direction) -> Command {
    Command::Move { movement, direction }
}

fn ext(movement: Movement, direction: Direction) -> Command {
    Command::Extend { movement, direction }
}

fn insert(text: &str) -> Command {
    Command::Insert { text: text.to_string() }
}

fn mode(mode: Mode) -> Command {
    Command::SetMode { mode }
}

fn range(anchor: usize, head: usize) -> Range {
    Range { anchor, head }
}

#[test]
fn open_loads_file_into_snapshot() {
    let mut d = daemon();
    let s = open(&mut d, "hello\nworld");
    assert_eq!(s.text, "hello\nworld");
    assert_eq!(s.path.as_deref(), Some("test.txt"));
    assert!(!s.dirty);
    assert_eq!(s.status, None);
    assert_eq!(s.selection[0], range(0, 0));
}

#[test]
fn open_failure_reports_status() {
    let mut d = daemon();
    let (text, status) = minad::open::check_contents("missing", Err("no such file".to_string()));
    assert!(text.is_none());
    let status = status.unwrap();
    d.d.open_failed(&status, 0, EventSource::Interactive, &vec![]);
    let s = d.snapshot(Some(status));
    assert!(s.status.is_some());
    assert!(s.path.is_none());
}

#[test]
fn activity_add_remove_bumps_generation() {
    let mut b = daemon();
    let d = &mut b.d;
    let g = d.log.generation;
    let a = "a.rs";
    d.add_activity(a, ActivityKind::LspInit, "LSP 初期化中".to_string());
    assert_eq!(d.log.generation, g + 1);
    d.add_activity(a, ActivityKind::Save, "保存中".to_string());
    assert_eq!(d.log.generation, g + 2);
    d.add_activity(a, ActivityKind::LspInit, "LSP 初期化中".to_string());
    assert_eq!(d.log.generation, g + 2);
    d.remove_activity(a, ActivityKind::Save);
    assert_eq!(d.log.generation, g + 3);
    d.remove_activity(a, ActivityKind::Save);
    assert_eq!(d.log.generation, g + 3);
    d.remove_activity(a, ActivityKind::LspInit);
    assert_eq!(d.log.generation, g + 4);
    assert_eq!(d.activities.len(), 0);
}

#[test]
fn snapshot_carries_focused_activities() {
    let mut d = daemon();
    let a = open_path(&mut d, "a.rs", "fn a() {}\n");
    assert!(a.activities.is_empty());

    d.d.add_activity("a.rs", ActivityKind::DiagnosticsSettle, "診断取得中".to_string());
    let s = apply(&mut d, Command::GetState);
    assert_eq!(s.activities.len(), 1);
    assert_eq!(s.activities[0].kind, ActivityKind::DiagnosticsSettle);

    let _ = open_path(&mut d, "b.txt", "plain text\n");
    let s = apply(&mut d, Command::GetState);
    assert!(s.activities.is_empty());

    d.d.remove_activity("a.rs", ActivityKind::DiagnosticsSettle);
    let s = apply(&mut d, Command::GetState);
    assert!(s.activities.is_empty());
}

#[test]
fn expected_text_match_applies() {
    let mut d = daemon();
    open(&mut d, "hello world");
    let edit = DocumentEdit {
        start: 6,
        end: 11,
        text: "minae".into(),
        checksum: fnv1a64(b"hello world"),
        expected_text: Some("world".into()),
    };
    assert!(apply_edit(&mut d, &edit, 0, EventSource::Interactive).is_none());
    let s = apply(&mut d, Command::GetState);
    assert_eq!(s.text, "hello minae");
}

#[test]
fn expected_text_mismatch_rejected_but_checksum_passed() {
    let mut d = daemon();
    open(&mut d, "hello world");
    let edit = DocumentEdit {
        start: 6,
        end: 11,
        text: "X".into(),
        checksum: fnv1a64(b"hello world"),
        expected_text: Some("worl".into()),
    };
    let snap = apply_edit(&mut d, &edit, 0, EventSource::Interactive).expect("a refusal");
    let status = snap.status.as_deref().expect("a reason");
    assert!(status.starts_with("expected text mismatch"), "{status}");
    assert!(status.contains("\"worl\""), "{status}");
    assert!(status.contains("\"world\""), "{status}");
    assert_eq!(snap.text, "hello world");
    assert!(!d.can_undo());
}

#[test]
fn expected_text_none_behaves_like_before() {
    let mut d = daemon();
    open(&mut d, "hello world");
    let edit = DocumentEdit {
        start: 6,
        end: 11,
        text: "minae".into(),
        checksum: fnv1a64(b"hello world"),
        expected_text: None,
    };
    assert!(apply_edit(&mut d, &edit, 0, EventSource::Interactive).is_none());
    let s = apply(&mut d, Command::GetState);
    assert_eq!(s.text, "hello minae");
}

#[test]
fn expected_text_mismatch_snippet_is_truncated() {
    let mut d = daemon();
    open(&mut d, "a");
    let long = "x".repeat(200);
    let edit = DocumentEdit {
        start: 0,
        end: 1,
        text: "".into(),
        checksum: fnv1a64(b"a"),
        expected_text: Some(long.clone()),
    };
    let snap = apply_edit(&mut d, &edit, 0, EventSource::Interactive).expect("a refusal");
    let status = snap.status.as_deref().unwrap();
    assert!(!status.contains(&long));
    assert!(status.contains('…'), "{status}");
}

#[test]
fn set_viewport_huge_height_is_clamped() {
    let mut d = daemon();
    open(&mut d, "a\nb\nc\nd\ne");
    apply(&mut d, Command::SetViewport { height: usize::MAX });
    assert_eq!(d.d.viewport_height, MAX_VIEWPORT_HEIGHT);
    let _ = apply(&mut d, Command::Goto { target: GotoTarget::DocumentEnd });
    let _ = apply(&mut d, mv(Movement::Char, Direction::Forward));
}

#[test]
fn scroll_huge_pages_do_not_panic() {
    let mut d = daemon();
    open(&mut d, "a\nb\nc\nd\ne");
    for pages in [isize::MAX, isize::MIN, 0] {
        let s = apply(&mut d, Command::Scroll { pages });
        assert_eq!(s.text, "a\nb\nc\nd\ne");
    }
    let _ = apply(&mut d, Command::Scroll { pages: isize::MAX });
}

#[test]
fn insert_marks_dirty_and_moves_cursor() {
    let mut d = daemon();
    open(&mut d, "hello");
    let s = apply(&mut d, insert("X"));
    assert_eq!(s.text, "Xhello");
    assert!(s.dirty);
    assert_eq!(s.selection[0].head, 1);
}

#[test]
fn insert_over_max_file_size_is_rejected_without_changes() {
    let mut d = daemon();
    let base = "x".repeat(MAX_FILE_SIZE as usize - 10);
    open(&mut d, &base);
    apply(&mut d, Command::Goto { target: GotoTarget::DocumentEnd });
    let before = d.d.editor.selection().ranges[0];
    let s = apply(&mut d, insert(&"y".repeat(11)));
    let msg = s.status.as_deref().expect("a reason");
    assert!(msg.starts_with("file too large"), "{msg}");
    assert_eq!(s.text.len() as u64, MAX_FILE_SIZE - 10);
    assert!(!s.dirty);
    assert_eq!(s.selection[0], before);

    let s = apply(&mut d, insert(&"z".repeat(10)));
    assert_eq!(s.text.len() as u64, MAX_FILE_SIZE);
    assert!(s.dirty);
}

#[test]
fn rejected_insert_keeps_undo_group_open() {
    let mut d = daemon();
    open(&mut d, "");
    apply(&mut d, mode(Mode::Insert));
    apply(&mut d, insert("a"));
    let s = apply(&mut d, insert(&"x".repeat(MAX_FILE_SIZE as usize)));
    assert!(s.status.as_deref().unwrap().starts_with("file too large"));
    assert_eq!(s.mode, Mode::Insert);
    apply(&mut d, insert("b"));
    let s = apply(&mut d, mode(Mode::Normal));
    assert_eq!(s.text, "ab");
    let s = apply(&mut d, Command::Undo);
    assert_eq!(s.text, "");
}

#[test]
fn rejected_and_noop_ops_keep_state_and_undo_history() {
    let mut d = daemon();
    open(&mut d, "hello");
    assert!(!d.can_undo());
    let (s, changed) = apply_from(&mut d, Command::DeleteBackward, 0);
    assert_eq!(s.text, "hello");
    assert!(!changed);
    apply(&mut d, Command::Goto { target: GotoTarget::DocumentEnd });
    apply(&mut d, Command::DeleteForward);
    apply(&mut d, Command::Goto { target: GotoTarget::DocumentStart });
    apply(&mut d, Command::DeleteRange);
    apply(&mut d, insert(""));
    apply(&mut d, Command::Undo);
    let s = apply(&mut d, Command::GetState);
    assert_eq!(s.text, "hello");
    assert!(!d.can_undo());
    let (s, changed) = apply_from(&mut d, insert(&"x".repeat(MAX_FILE_SIZE as usize + 1)), 0);
    assert!(s.status.as_deref().unwrap().starts_with("file too large"));
    assert_eq!(s.text, "hello");
    assert!(!changed);
    assert!(!d.can_undo());
}

#[test]
fn search_forward_selects_match_and_next_advances() {
    let mut d = daemon();
    open(&mut d, "foo bar foo baz");
    let s = apply(&mut d, Command::Search { query: "foo".into(), direction: Direction::Forward });
    assert_eq!(s.selection, vec![range(0, 3)]);
    assert_eq!(s.status, None);
    let s = apply(&mut d, Command::SearchNext { direction: Direction::Forward });
    assert_eq!(s.selection, vec![range(8, 11)]);
    let s = apply(&mut d, Command::SearchNext { direction: Direction::Forward });
    assert_eq!(s.selection, vec![range(0, 3)]);
}

#[test]
fn search_backward_and_wrap_via_question() {
    let mut d = daemon();
    open(&mut d, "foo bar foo baz");
    apply(&mut d, Command::Goto { target: GotoTarget::DocumentEnd });
    let s = apply(&mut d, Command::Search { query: "foo".into(), direction: Direction::Backward });
    assert_eq!(s.selection, vec![range(8, 11)]);
    let s = apply(&mut d, Command::SearchNext { direction: Direction::Backward });
    assert_eq!(s.selection, vec![range(0, 3)]);
    let s = apply(&mut d, Command::SearchNext { direction: Direction::Backward });
    assert_eq!(s.selection, vec![range(8, 11)]);
}

#[test]
fn search_no_match_reports_status_without_changing_state() {
    let mut d = daemon();
    open(&mut d, "hello");
    let s = apply(&mut d, Command::Search { query: "xyz".into(), direction: Direction::Forward });
    assert!(s.status.as_deref().unwrap().contains("no match"));
    assert_eq!(s.selection, vec![range(0, 0)]);
    let s = apply(&mut d, Command::SearchNext { direction: Direction::Forward });
    assert!(s.status.as_deref().unwrap().contains("no previous search"));
    let s = apply(&mut d, Command::Search { query: "".into(), direction: Direction::Forward });
    assert!(s.status.as_deref().unwrap().contains("empty search"));
}

#[test]
fn search_selection_selects_all_word_matches() {
    let mut d = daemon();
    open(&mut d, "foo bar foo baz foo");
    apply(&mut d, mv(Movement::Word, Direction::Forward));
    let s = apply(&mut d, Command::SearchSelection);
    assert_eq!(s.selection, vec![range(0, 3), range(8, 11), range(16, 19)]);
    let mut d2 = daemon();
    open(&mut d2, "cat dog cat");
    apply(&mut d2, mv(Movement::Word, Direction::Forward));
    let s = apply(&mut d2, Command::SearchSelection);
    assert_eq!(s.selection.len(), 2);
}

#[test]
fn search_uses_smart_case() {
    let mut d = daemon();
    open(&mut d, "Hello hello");
    let s = apply(&mut d, Command::Search { query: "hello".into(), direction: Direction::Forward });
    assert_eq!(s.selection, vec![range(0, 5)]);
    let s = apply(&mut d, Command::Search { query: "Hello".into(), direction: Direction::Forward });
    assert_eq!(s.selection, vec![range(0, 5)]);
}

#[test]
#[allow(non_snake_case)]
fn append_o_and_O_reach_insert_and_edit() {
    let mut d = daemon();
    open(&mut d, "hello");
    let s = apply(&mut d, Command::Append);
    assert_eq!(s.mode, Mode::Insert);
    assert_eq!(s.selection, vec![range(1, 1)]);
    let s = apply(&mut d, insert("X"));
    assert_eq!(s.text, "hXello");

    let mut d2 = daemon();
    open(&mut d2, "abc");
    apply(&mut d2, Command::Goto { target: GotoTarget::DocumentEnd });
    let s = apply(&mut d2, Command::Append);
    assert_eq!(s.selection, vec![range(3, 3)]);

    let mut d3 = daemon();
    open(&mut d3, "abc\ndef");
    let s = apply(&mut d3, Command::OpenBelow);
    assert_eq!(s.mode, Mode::Insert);
    assert_eq!(s.text, "abc\n\ndef");
    assert_eq!(s.selection, vec![range(4, 4)]);
    apply(&mut d3, insert("z"));
    assert_eq!(d3.text(), "abc\nz\ndef");
    apply(&mut d3, mode(Mode::Normal));
    let s = apply(&mut d3, Command::Undo);
    assert_eq!(s.text, "abc\n\ndef");
    let s = apply(&mut d3, Command::Undo);
    assert_eq!(s.text, "abc\ndef");

    let mut d4 = daemon();
    open(&mut d4, "abc\ndef");
    apply(&mut d4, mv(Movement::Line, Direction::Forward));
    let s = apply(&mut d4, Command::OpenAbove);
    assert_eq!(s.mode, Mode::Insert);
    assert_eq!(s.text, "abc\n\ndef");
    assert_eq!(s.selection, vec![range(4, 4)]);
}

#[test]
fn replace_swaps_selection_and_cursor_char() {
    let mut d = daemon();
    open(&mut d, "hello");
    apply(&mut d, ext(Movement::Word, Direction::Forward));
    let s = apply(&mut d, Command::Replace { text: "X".into() });
    assert_eq!(s.text, "X");
    assert_eq!(s.mode, Mode::Normal);
    assert_eq!(s.selection, vec![range(1, 1)]);
    let mut d2 = daemon();
    open(&mut d2, "abc\ndef");
    apply(&mut d2, mv(Movement::LineEnd, Direction::Forward));
    let s = apply(&mut d2, Command::Replace { text: "Z".into() });
    assert_eq!(s.text, "abc\ndef");
    apply(&mut d2, mv(Movement::Char, Direction::Backward));
    let s = apply(&mut d2, Command::Replace { text: "Z".into() });
    assert_eq!(s.text, "abZ\ndef");
}

#[test]
fn extend_line_below_repeats_and_select_all() {
    let mut d = daemon();
    open(&mut d, "l0\nl1\nl2\nl3");
    let s = apply(&mut d, Command::ExtendLineBelow);
    assert_eq!(s.selection, vec![range(0, 3)]);
    let s = apply(&mut d, Command::ExtendLineBelow);
    assert_eq!(s.selection, vec![range(0, 6)]);
    let s = apply(&mut d, Command::ExtendLineBelow);
    assert_eq!(s.selection, vec![range(0, 9)]);
    let s = apply(&mut d, Command::SelectAll);
    assert_eq!(s.selection, vec![range(0, 11)]);
}

#[test]
fn surround_add_wraps_selection_and_cursor() {
    let mut d = daemon();
    open(&mut d, "hello world");
    apply(&mut d, mode(Mode::Select));
    apply(&mut d, ext(Movement::Word, Direction::Forward));
    let s = apply(&mut d, Command::SurroundAdd { ch: '(' });
    assert_eq!(s.text, "(hello )world");
    assert_eq!(s.mode, Mode::Normal);
    assert_eq!(s.selection, vec![range(0, 8)]);
    let mut d2 = daemon();
    open(&mut d2, "abc");
    let s = apply(&mut d2, Command::SurroundAdd { ch: '[' });
    assert_eq!(s.text, "[]abc");
    assert_eq!(s.selection, vec![range(0, 2)]);
    let s = apply(&mut d, Command::Undo);
    assert_eq!(s.text, "hello world");
}

#[test]
fn surround_delete_and_replace_with_status_on_missing_pair() {
    let mut d = daemon();
    open(&mut d, "(abc) def");
    apply(&mut d, mv(Movement::Char, Direction::Forward));
    apply(&mut d, mv(Movement::Char, Direction::Forward));
    let s = apply(&mut d, Command::SurroundDelete { ch: '(' });
    assert_eq!(s.text, "abc def");
    let mut d2 = daemon();
    open(&mut d2, "no pair");
    let s = apply(&mut d2, Command::SurroundDelete { ch: '(' });
    assert_eq!(s.text, "no pair");
    assert!(s.status.as_deref().unwrap_or("").contains("surround"), "{:?}", s.status);
    let mut d3 = daemon();
    open(&mut d3, "(ab) (cd)");
    apply(&mut d3, mode(Mode::Select));
    apply(&mut d3, ext(Movement::Char, Direction::Forward));
    let s = apply(&mut d3, Command::SurroundReplace { from: ')', to: '[' });
    assert_eq!(s.text, "[ab] (cd)");
}

#[test]
fn select_mode_goto_extends_selection() {
    let mut d = daemon();
    open(&mut d, "hello\nworld");
    apply(&mut d, mode(Mode::Select));
    apply(&mut d, mv(Movement::Line, Direction::Forward));
    let s = apply(&mut d, Command::Goto { target: GotoTarget::DocumentStart });
    assert_eq!(s.selection, vec![range(6, 0)]);
    let mut d2 = daemon();
    open(&mut d2, "hello\nworld");
    apply(&mut d2, Command::Goto { target: GotoTarget::DocumentStart });
    assert_eq!(d2.d.editor.selection().ranges, vec![range(0, 0)]);
}

#[test]
fn scroll_half_moves_by_half_viewport() {
    let mut d = daemon();
    let text = (0..40).map(|i| format!("l{i}")).collect::<Vec<_>>().join("\n");
    open(&mut d, &text);
    let s = apply(&mut d, Command::ScrollHalf { direction: Direction::Forward });
    assert_eq!(s.first_line, 12);
    let s = apply(&mut d, Command::ScrollHalf { direction: Direction::Backward });
    assert_eq!(s.first_line, 0);
}

#[test]
fn first_non_whitespace_movement_matches_g_s() {
    let mut d = daemon();
    open(&mut d, "  hello\n\n\t indented");
    apply(&mut d, mv(Movement::FirstNonWhitespace, Direction::Forward));
    assert_eq!(d.d.editor.selection().ranges, vec![range(2, 2)]);
    apply(&mut d, mv(Movement::Line, Direction::Forward));
    apply(&mut d, mv(Movement::Line, Direction::Forward));
    let s = apply(&mut d, mv(Movement::FirstNonWhitespace, Direction::Forward));
    let line_start = "  hello\n\n".chars().count();
    assert_eq!(s.selection[0].head, line_start + 2);
    let mut d2 = daemon();
    open(&mut d2, "  hi");
    apply(&mut d2, mode(Mode::Select));
    let s = apply(&mut d2, ext(Movement::FirstNonWhitespace, Direction::Forward));
    assert_eq!(s.selection, vec![range(0, 2)]);
}

#[test]
fn kill_to_line_bounds_in_insert_mode() {
    let mut d = daemon();
    open(&mut d, "hello");
    apply(&mut d, Command::Goto { target: GotoTarget::DocumentEnd });
    let s = apply(&mut d, Command::KillToLineStart);
    assert_eq!(s.text, "");
    let mut d2 = daemon();
    open(&mut d2, "hello");
    apply(&mut d2, mv(Movement::Char, Direction::Forward));
    apply(&mut d2, mv(Movement::Char, Direction::Forward));
    let s = apply(&mut d2, Command::KillToLineEnd);
    assert_eq!(s.text, "he");
    let s = apply(&mut d2, Command::KillToLineEnd);
    assert_eq!(s.text, "he");
}

#[test]
fn noop_document_edit_keeps_state_and_undo_history() {
    let mut d = daemon();
    open(&mut d, "hello");
    let edit = DocumentEdit {
        start: 2,
        end: 2,
        text: "".into(),
        checksum: fnv1a64(b"hello"),
        expected_text: None,
    };
    let s = apply_edit(&mut d, &edit, 0, EventSource::Interactive).expect("an answer");
    assert_eq!(s.status, None);
    assert_eq!(s.text, "hello");
    assert!(!d.can_undo());
}

#[test]
fn delete_backward_and_undo() {
    let mut d = daemon();
    open(&mut d, "hello");
    apply(&mut d, mv(Movement::Char, Direction::Forward));
    apply(&mut d, mv(Movement::Char, Direction::Forward));
    let s = apply(&mut d, Command::DeleteBackward);
    assert_eq!(s.text, "hllo");
    let s = apply(&mut d, Command::Undo);
    assert_eq!(s.text, "hello");
    let s = apply(&mut d, Command::Redo);
    assert_eq!(s.text, "hllo");
}

#[test]
fn delete_forward_deletes_next_char() {
    let mut d = daemon();
    open(&mut d, "hello");
    let s = apply(&mut d, Command::DeleteForward);
    assert_eq!(s.text, "ello");
}

#[test]
fn delete_word_forward_and_backward() {
    let mut d = daemon();
    open(&mut d, "hello world foo");
    apply(&mut d, mv(Movement::Char, Direction::Forward));
    apply(&mut d, mv(Movement::Char, Direction::Forward));
    let s = apply(&mut d, Command::DeleteWordForward);
    assert_eq!(s.text, "he world foo");
    apply(&mut d, Command::Goto { target: GotoTarget::DocumentStart });
    let s = apply(&mut d, Command::DeleteWordBackward);
    assert_eq!(s.text, "he world foo");
    apply(&mut d, Command::Goto { target: GotoTarget::DocumentEnd });
    let s = apply(&mut d, Command::DeleteWordBackward);
    assert_eq!(s.text, "he world ");
    let s = apply(&mut d, Command::Undo);
    assert_eq!(s.text, "he world foo");
}

#[test]
fn word_move_bw_then_delete_removes_word() {
    let mut d = daemon();
    open(&mut d, "hello world foo");
    apply(&mut d, mv(Movement::Char, Direction::Forward));
    apply(&mut d, mv(Movement::Char, Direction::Forward));
    let s = apply(&mut d, mv(Movement::Word, Direction::Backward));
    assert_eq!(s.selection[0].anchor, 3);
    assert_eq!(s.selection[0].head, 0);
    let s = apply(&mut d, mv(Movement::Word, Direction::Forward));
    assert_eq!((s.selection[0].anchor, s.selection[0].head), (0, 5));
    let s = apply(&mut d, Command::DeleteRange);
    assert_eq!(s.text, " world foo");
    let s = apply(&mut d, Command::Undo);
    assert_eq!(s.text, "hello world foo");
}

#[test]
fn change_deletes_selection_and_enters_insert() {
    let mut d = daemon();
    open(&mut d, "hello world");
    apply(&mut d, mode(Mode::Select));
    apply(&mut d, ext(Movement::Word, Direction::Forward));
    let s = apply(&mut d, Command::Change);
    assert_eq!(s.text, "world");
    assert_eq!(s.mode, Mode::Insert);
    let s = apply(&mut d, insert("bye "));
    assert_eq!(s.text, "bye world");
    apply(&mut d, mode(Mode::Normal));
    let s = apply(&mut d, Command::Undo);
    assert_eq!(s.text, "world");
    let s = apply(&mut d, Command::Undo);
    assert_eq!(s.text, "hello world");
}

#[test]
fn change_on_cursor_just_enters_insert() {
    let mut d = daemon();
    open(&mut d, "hello");
    let s = apply(&mut d, Command::Change);
    assert_eq!(s.text, "hello");
    assert_eq!(s.mode, Mode::Insert);
    let s = apply(&mut d, insert("X"));
    assert_eq!(s.text, "Xhello");
}

fn eighty_lines() -> String {
    let mut src = String::new();
    for i in 0..80 {
        src.push_str(&format!("line{i:02}\n"));
    }
    src
}

#[test]
fn scroll_moves_cursor_keeping_relative_position() {
    let mut d = daemon();
    open(&mut d, &eighty_lines());
    for _ in 0..20 {
        apply(&mut d, mv(Movement::Line, Direction::Forward));
    }
    apply(&mut d, mv(Movement::Char, Direction::Forward));
    apply(&mut d, mv(Movement::Char, Direction::Forward));
    let s = apply(&mut d, Command::Scroll { pages: 1 });
    assert_eq!(s.first_line, 24);
    assert_eq!(s.selection[0], range(310, 310));
    let s = apply(&mut d, Command::Scroll { pages: -1 });
    assert_eq!(s.first_line, 0);
    assert_eq!(s.selection[0], range(142, 142));
}

#[test]
fn scroll_in_select_mode_extends_selection() {
    let mut d = daemon();
    open(&mut d, &eighty_lines());
    for _ in 0..5 {
        apply(&mut d, mv(Movement::Line, Direction::Forward));
    }
    apply(&mut d, mv(Movement::Char, Direction::Forward));
    apply(&mut d, mv(Movement::Char, Direction::Forward));
    apply(&mut d, mode(Mode::Select));
    let s = apply(&mut d, Command::Scroll { pages: 1 });
    assert_eq!(s.first_line, 24);
    assert_eq!(s.selection[0], range(37, 205));
}

#[test]
fn insert_at_line_end_enters_insert_at_eol() {
    let mut d = daemon();
    open(&mut d, "hello\nworld");
    apply(&mut d, mv(Movement::Line, Direction::Forward));
    let s = apply(&mut d, Command::InsertAtLineEnd);
    assert_eq!(s.mode, Mode::Insert);
    assert_eq!(s.selection[0], range(11, 11));
    let s = apply(&mut d, insert("!"));
    assert_eq!(s.text, "hello\nworld!");
    apply(&mut d, mode(Mode::Normal));
    let s = apply(&mut d, Command::Undo);
    assert_eq!(s.text, "hello\nworld");
}

#[test]
fn insert_at_line_start_moves_to_first_non_whitespace() {
    let mut d = daemon();
    open(&mut d, "  hello\n   \nworld");
    let s = apply(&mut d, Command::InsertAtLineStart);
    assert_eq!(s.mode, Mode::Insert);
    assert_eq!(s.selection[0], range(2, 2));
    apply(&mut d, mode(Mode::Normal));
    apply(&mut d, mv(Movement::Line, Direction::Forward));
    let s = apply(&mut d, Command::InsertAtLineStart);
    assert_eq!(s.mode, Mode::Insert);
    assert_eq!(s.selection[0], range(8, 8));
}

#[test]
fn insert_at_line_end_in_select_collapses_to_line_end() {
    let mut d = daemon();
    open(&mut d, "abc\ndef");
    apply(&mut d, mv(Movement::Char, Direction::Forward));
    apply(&mut d, mode(Mode::Select));
    apply(&mut d, ext(Movement::Char, Direction::Forward));
    let s = apply(&mut d, Command::InsertAtLineEnd);
    assert_eq!(s.mode, Mode::Insert);
    assert_eq!(s.selection[0], range(3, 3));
    let s = apply(&mut d, insert("!"));
    assert_eq!(s.text, "abc!\ndef");
}

#[test]
fn insert_mode_typing_undoes_as_one_group() {
    let mut d = daemon();
    open(&mut d, "");
    apply(&mut d, mode(Mode::Insert));
    for ch in ["a", "b", "c"] {
        apply(&mut d, insert(ch));
    }
    let s = apply(&mut d, mode(Mode::Normal));
    assert_eq!(s.text, "abc");
    let s = apply(&mut d, Command::Undo);
    assert_eq!(s.text, "");
}

#[test]
fn leaving_insert_for_select_closes_undo_group() {
    let mut d = daemon();
    open(&mut d, "");
    apply(&mut d, mode(Mode::Insert));
    apply(&mut d, insert("a"));
    apply(&mut d, mode(Mode::Select));
    apply(&mut d, mode(Mode::Insert));
    apply(&mut d, insert("b"));
    let s = apply(&mut d, mode(Mode::Normal));
    assert_eq!(s.text, "ab");

    let s = apply(&mut d, Command::Undo);
    assert_eq!(s.text, "a");
    let s = apply(&mut d, Command::Undo);
    assert_eq!(s.text, "");
}

#[test]
fn disconnect_in_insert_mode_closes_group_and_resets_mode() {
    let mut d = daemon();
    open(&mut d, "");
    apply(&mut d, mode(Mode::Insert));
    apply(&mut d, insert("a"));
    if d.d.on_client_disconnect(0, ClientKind::Interactive, true) {
        d.log().end();
    }
    assert_eq!(d.d.editor.mode, Mode::Normal);
    assert_eq!(d.d.editor.selection().ranges[0].anchor, 0);
    d.set_selection(1);

    apply(&mut d, mode(Mode::Insert));
    apply(&mut d, insert("b"));
    let s = apply(&mut d, mode(Mode::Normal));
    assert_eq!(s.text, "ab");
    let s = apply(&mut d, Command::Undo);
    assert_eq!(s.text, "a");
    let s = apply(&mut d, Command::Undo);
    assert_eq!(s.text, "");
}

#[test]
fn disconnect_in_normal_mode_keeps_document_but_resets_cursor() {
    let mut d = daemon();
    open(&mut d, "hello");
    d.set_selection(3);
    let before = d.d.log.generation;
    d.d.on_client_disconnect(0, ClientKind::Interactive, true);
    assert_eq!(d.d.editor.mode, Mode::Normal);
    assert_eq!(d.text(), "hello");
    assert_eq!(d.d.editor.selection().ranges[0].anchor, 0);
    assert_eq!(d.d.editor.pane(d.d.editor.focused).first_line, 0);
    assert!(d.d.log.generation > before);
    let snap = d.snapshot(None);
    assert_eq!(snap.events.last().unwrap().kind, EventKind::SelectionReset);
    assert_eq!(snap.events.last().unwrap().source, EventSource::External);
}

#[test]
fn non_owner_disconnect_keeps_insert_session() {
    let mut d = daemon();
    open(&mut d, "");
    apply(&mut d, mode(Mode::Insert));
    apply(&mut d, insert("a"));
    assert!(!d.d.on_client_disconnect(9, ClientKind::Headless, true));
    assert_eq!(d.d.editor.mode, Mode::Insert);
    apply(&mut d, insert("b"));
    apply(&mut d, mode(Mode::Normal));
    let s = apply(&mut d, Command::Undo);
    assert_eq!(s.text, "");
}

#[test]
fn non_owner_edit_takes_over_closing_owners_group() {
    let mut d = daemon();
    open(&mut d, "");
    apply(&mut d, mode(Mode::Insert));
    apply(&mut d, insert("a"));
    let s = apply_from(&mut d, insert("X"), 9);
    assert_eq!(s.0.text, "aX");
    assert_eq!(d.d.editor.mode, Mode::Normal);
    assert_eq!(d.d.insert_owner, None);
    let s = apply(&mut d, Command::Undo);
    assert_eq!(s.text, "a");
    let s = apply(&mut d, Command::Undo);
    assert_eq!(s.text, "");
}

#[test]
fn owner_edit_after_non_owner_takeover_starts_fresh_group() {
    let mut d = daemon();
    open(&mut d, "");
    apply(&mut d, mode(Mode::Insert));
    apply(&mut d, insert("a"));
    apply_from(&mut d, insert("X"), 9);
    apply(&mut d, insert("b"));
    assert_eq!(d.text(), "aXb");
    let s = apply(&mut d, Command::Undo);
    assert_eq!(s.text, "aX");
    let s = apply(&mut d, Command::Undo);
    assert_eq!(s.text, "a");
    let s = apply(&mut d, Command::Undo);
    assert_eq!(s.text, "");
}

#[test]
fn non_owner_set_mode_insert_takes_over_open_group() {
    let mut d = daemon();
    open(&mut d, "");
    apply(&mut d, mode(Mode::Insert));
    apply(&mut d, insert("a"));
    apply_from(&mut d, mode(Mode::Insert), 9);
    apply_from(&mut d, insert("X"), 9);
    apply_from(&mut d, mode(Mode::Normal), 9);
    assert_eq!(d.text(), "aX");
    let s = apply(&mut d, Command::Undo);
    assert_eq!(s.text, "a");
    let s = apply(&mut d, Command::Undo);
    assert_eq!(s.text, "");
}

#[test]
fn delete_selection_exits_select_mode() {
    let mut d = daemon();
    open(&mut d, "hello");
    apply(&mut d, mode(Mode::Select));
    for _ in 0..3 {
        apply(&mut d, ext(Movement::Char, Direction::Forward));
    }
    let s = apply(&mut d, Command::DeleteRange);
    assert_eq!(s.text, "lo");
    assert_eq!(s.mode, Mode::Normal);
}

#[test]
fn save_writes_file_and_clears_dirty() {
    let mut d = daemon();
    open_path(&mut d, "/tmp/save-test.txt", "hello");
    apply(&mut d, Command::Goto { target: GotoTarget::DocumentEnd });
    apply(&mut d, insert(" world"));
    let (text, doc) = (d.text(), d.doc());
    assert_eq!(text, "hello world");
    assert!(d.d.mark_saved_doc(doc, &text));
    let s = d.snapshot(Some("saved".into()));
    assert!(!s.dirty);
}

#[test]
fn save_marks_the_saved_doc_not_the_current_focus() {
    let mut d = daemon();
    open_path(&mut d, "/tmp/h3-a.txt", "hello");
    apply(&mut d, insert(" X"));
    let (text_a, doc_a) = (d.text(), d.doc());
    open_path(&mut d, "/tmp/h3-b.txt", "world");
    apply(&mut d, insert(" Y"));
    assert!(d.d.mark_saved_doc(doc_a, &text_a));
    let s = d.snapshot(Some("saved".into()));
    assert!(s.dirty);
}

#[test]
fn save_keeps_dirty_if_edited_during_write() {
    let mut d = daemon();
    open_path(&mut d, "/tmp/high1.txt", "hello");
    let (text, doc) = (d.text(), d.doc());
    apply(&mut d, insert(" X"));
    assert!(d.d.editor.current().dirty);
    assert!(!d.d.mark_saved_doc(doc, &text));
    let s = d.snapshot(Some("saved".into()));
    assert!(s.dirty);
}

#[test]
fn undo_after_save_marks_dirty() {
    let mut d = daemon();
    open_path(&mut d, "/tmp/undo-dirty.txt", "hello");
    apply(&mut d, mode(Mode::Insert));
    apply(&mut d, insert("a"));
    apply(&mut d, mode(Mode::Normal));
    apply(&mut d, mode(Mode::Insert));
    apply(&mut d, insert("b"));
    apply(&mut d, mode(Mode::Normal));
    let (text, doc) = (d.text(), d.doc());
    assert!(d.d.mark_saved_doc(doc, &text));
    assert!(!d.d.editor.current().dirty);
    apply(&mut d, Command::Undo);
    assert_eq!(d.text(), "ahello");
    assert!(d.d.editor.current().dirty);
    apply(&mut d, Command::Redo);
    assert_eq!(d.text(), "abhello");
    assert!(d.d.editor.current().dirty);
}

#[test]
fn move_advances_cursor() {
    let mut d = daemon();
    open(&mut d, "hello");
    let s = apply(&mut d, mv(Movement::Char, Direction::Forward));
    assert_eq!(s.selection[0].head, 1);
}

#[test]
fn goto_end_scrolls_viewport() {
    let mut d = daemon();
    let text = "a\nb\nc\nd\ne\nf\ng\nh\ni\nj\nk\nl\nm\nn\no\np\nq\nr\ns\nt\nu\nv\nw\nx\ny\nz\n";
    open(&mut d, text);
    apply(&mut d, Command::SetViewport { height: 5 });
    let s = apply(&mut d, Command::Goto { target: GotoTarget::DocumentEnd });
    assert_eq!(s.selection[0].head, text.chars().count());
    assert!(s.first_line > 0, "{}", s.first_line);
}

fn type_hint(position: usize, text: &str, left: bool) -> InlayHint {
    InlayHint { position, text: text.to_string(), padding_left: left, padding_right: false }
}

#[test]
fn snapshot_keeps_stale_hints_until_new_pull() {
    let mut d = daemon();
    open_path(&mut d, "test.rs", "let x = 5");
    let path = "test.rs";
    let root = root_of(path);
    d.d.set_analysis_focus(path, &root);
    d.d.cache_hints(path, "let x = 5", vec![type_hint(5, ": i32", true)]);
    apply(&mut d, insert("aaa"));
    let snap = d.snapshot(None);
    assert_eq!(snap.inlay_hints.len(), 1);
    assert_eq!(snap.inlay_hints[0].position, 5);
    d.d.cache_hints(path, &snap.text, Vec::new());
    let snap = d.snapshot(None);
    assert!(snap.inlay_hints.is_empty());
}

fn finding(severity: Severity, message: &str) -> Diagnostic {
    Diagnostic { start: 0, end: 2, severity, message: message.to_string() }
}

#[test]
fn diagnostics_and_hints_follow_analysis_focus() {
    let mut d = daemon();
    let a = "/ws1/a.rs";
    let b = "/ws2/b.rs";
    open_path(&mut d, a, "fn a() {}");
    open_path(&mut d, b, "fn b() {}");
    d.d.set_focus_diagnostics(a, &root_of(a), vec![finding(Severity::Error, "a の診断")]);
    d.d.cache_hints(a, "fn a() {}", vec![type_hint(3, ": i32", true)]);
    d.d.set_focus_diagnostics(b, &root_of(b), vec![finding(Severity::Warning, "b の診断")]);

    d.show(a);
    let snap = d.snapshot(None);
    assert_eq!(snap.path.as_deref(), Some("/ws1/a.rs"));
    assert_eq!(snap.diagnostics.len(), 1);
    assert_eq!(snap.diagnostics[0].message, "a の診断");
    assert_eq!(snap.inlay_hints.len(), 1);

    d.show(b);
    let snap = d.snapshot(None);
    assert_eq!(snap.diagnostics.len(), 1);
    assert_eq!(snap.diagnostics[0].message, "b の診断");
    assert!(snap.inlay_hints.is_empty());

    let mut d2 = daemon();
    open_path(&mut d2, a, "fn a() {}");
    let c = "/ws1/c.rs";
    open_path(&mut d2, c, "fn c() {}");
    d2.d.set_focus_diagnostics(a, &root_of(a), vec![finding(Severity::Error, "a の診断")]);
    d2.d.set_analysis_focus(c, &root_of(c));
    d2.show(a);
    let snap = d2.snapshot(None);
    assert!(snap.diagnostics.is_empty());
}

#[test]
fn undo_with_nothing_to_undo_changes_nothing() {
    let mut d = daemon();
    open(&mut d, "hello");
    let (s, changed) = apply_from(&mut d, Command::Undo, 0);
    assert_eq!(s.text, "hello");
    assert!(!changed);
    assert_eq!(s.generation, 0);
}

#[test]
fn edit_after_a_snapshot_is_accepted_by_its_checksum() {
    let mut d = daemon();
    let s = open(&mut d, "one two");
    let edit = DocumentEdit {
        start: 4,
        end: 7,
        text: "three".into(),
        checksum: s.checksum,
        expected_text: None,
    };
    assert!(apply_edit(&mut d, &edit, 7, EventSource::Headless).is_none());
    assert_eq!(d.text(), "one three");
    assert_eq!(d.d.metrics.edits_total, 1);
    let again = apply_edit(&mut d, &edit, 7, EventSource::Headless).expect("a refusal");
    assert!(again.status.unwrap() == "document changed since read");
    assert_eq!(d.text(), "one three");
    assert_eq!(d.d.metrics.edits_rejected_checksum, 1);
    let s = d.snapshot(None);
    assert_eq!(s.activity.len(), 2);
    assert!(s.activity[0].ok);
    assert!(!s.activity[1].ok);
}

#[test]
fn edit_preempts_a_foreign_insert_session() {
    let mut d = daemon();
    open(&mut d, "");
    apply(&mut d, mode(Mode::Insert));
    apply(&mut d, insert("a"));
    let edit = DocumentEdit {
        start: 1,
        end: 1,
        text: "b".into(),
        checksum: fnv1a64(b"a"),
        expected_text: None,
    };
    assert!(apply_edit(&mut d, &edit, 9, EventSource::Headless).is_none());
    assert_eq!(d.d.editor.mode, Mode::Normal);
    assert_eq!(d.d.insert_owner, None);
    let s = apply(&mut d, Command::Undo);
    assert_eq!(s.text, "a");
    let s = apply(&mut d, Command::Undo);
    assert_eq!(s.text, "");
}

#[test]
fn search_selection_without_a_word_is_reported() {
    let mut d = daemon();
    open(&mut d, "   ");
    apply(&mut d, mv(Movement::Char, Direction::Forward));
    let s = apply(&mut d, Command::SearchSelection);
    assert_eq!(s.status.as_deref(), Some("no word under cursor"));
    apply(&mut d, mode(Mode::Select));
    apply(&mut d, ext(Movement::Char, Direction::Forward));
    let s = apply(&mut d, Command::SearchSelection);
    assert_eq!(s.status.as_deref(), Some("no selection to search"));
}

/// A daemon with clients and a disk, driven by whole requests.
struct World {
    b: Bench,
    files: HashMap<String, (String, u64)>,
    dirs: Vec<String>,
    clock: u64,
    clients: HashMap<u64, ClientKind>,
    next: u64,
}

fn world(files: &[(&str, &str)]) -> World {
    let mut w = World {
        b: daemon(),
        files: HashMap::new(),
        dirs: vec![],
        clock: 0,
        clients: HashMap::new(),
        next: 1,
    };
    for (path, text) in files {
        w.write(path, text);
    }
    w
}

fn edit(start: usize, end: usize, text: &str, read: &str) -> DocumentEdit {
    DocumentEdit {
        start,
        end,
        text: text.to_string(),
        checksum: fnv1a64(read.as_bytes()),
        expected_text: None,
    }
}

impl World {
    fn write(&mut self, path: &str, text: &str) {
        self.clock += 1;
        self.files.insert(path.to_string(), (text.to_string(), self.clock));
    }

    fn stat(&self, path: &str) -> Option<DiskBaseline> {
        self.files.get(path).map(|(text, time)| DiskBaseline {
            mtime: FileTime { secs: *time, nanos: 0 },
            size: text.len() as u64,
        })
    }

    fn connect(&mut self, kind: ClientKind) -> u64 {
        let id = self.next;
        self.next += 1;
        let hello = Hello { kind, reset_cursor_on_disconnect: false, name: "test".to_string() };
        self.b.d.connect(id, &hello);
        self.clients.insert(id, kind);
        id
    }

    fn drop_client(&mut self, id: u64) {
        let kind = self.clients.remove(&id).unwrap();
        if self.b.d.disconnect(id, kind, false) {
            self.end_group();
        }
    }

    /// Disconnects a client that wants the cursor reset.
    fn leave(&mut self, id: u64) {
        let kind = self.clients.remove(&id).unwrap();
        if self.b.d.disconnect(id, kind, true) {
            self.end_group();
        }
    }

    fn end_group(&mut self) {
        for h in self.b.history.values_mut() {
            h.end();
        }
    }

    fn cmd(&mut self, conn: u64, c: Command) -> StateSnapshot {
        self.send(conn, Request::Command(c))
    }

    fn open(&mut self, conn: u64, path: &str) -> StateSnapshot {
        self.cmd(conn, Command::Open { path: path.to_string() })
    }

    fn edit(&mut self, conn: u64, e: DocumentEdit) -> StateSnapshot {
        self.send(conn, Request::Edit(e))
    }

    /// Sends a request and checks that it is one of those that change the state.
    fn send(&mut self, conn: u64, q: Request) -> StateSnapshot {
        assert_eq!(route(&q), Route::Process);
        let source = source_of(self.clients[&conn]);
        match (self.b.d.begin_request(&q, conn, source), &q) {
            (Step::Respond(status), _) => self.b.snapshot(status),
            (Step::Wait(generation), _) => {
                assert!(self.b.d.wait_over(generation));
                self.b.snapshot(None)
            }
            (Step::Open(path), _) => self.opened(&path, conn, source),
            (Step::Save(job), _) => {
                if let Some(p) = &job.path {
                    self.write(p, &job.text);
                }
                let stat = job.path.as_deref().and_then(|p| self.stat(p));
                let status = self.b.d.finish_save(&job, conn, source, None, stat);
                self.b.snapshot(Some(status))
            }
            (Step::Register, Request::Command(Command::RegisterBaseRoot { root, commit, repo })) => {
                let there = |p: &String| if self.dirs.contains(p) { Some(p.clone()) } else { None };
                let (resolved, repo_there) = (there(root), repo.as_ref().and_then(there));
                let status = self.b.d.finish_register(
                    root,
                    resolved,
                    commit.clone(),
                    repo.as_deref(),
                    repo_there,
                    source,
                );
                self.b.snapshot(status)
            }
            (Step::Unregister, Request::Command(Command::UnregisterBaseRoot { root })) => {
                self.b.d.unregister_base_root(root, source);
                self.b.snapshot(None)
            }
            (Step::Engine(pending), Request::Command(c)) => {
                if pending.begin.preempted {
                    self.end_group();
                }
                let reply = match &pending.begin.call {
                    EngineCall::Close => self.closed(),
                    call => self.b.answer(call),
                };
                let done = self.b.d.finish_command(c, conn, source, pending, reply);
                match done.group {
                    GroupChange::Keep => {}
                    GroupChange::Begin => self.b.log().begin(),
                    GroupChange::End => self.end_group(),
                    GroupChange::Restart => {
                        self.end_group();
                        self.b.log().begin();
                    }
                }
                if done.scroll {
                    self.b.follow();
                }
                self.b.snapshot(done.status)
            }
            (Step::Edit, Request::Edit(e)) => {
                let before = (self.b.text(), self.b.d.editor.selection());
                let noop = e.start == e.end && e.text.is_empty();
                let facts = EditFacts { noop, dirty: true, can_undo: true, can_redo: false };
                let done = self.b.d.finish_edit(e, conn, source, facts);
                if done.preempted {
                    self.end_group();
                }
                if done.applied {
                    let after = (self.b.text(), self.b.d.editor.selection());
                    self.b.log().push(Change { before, after });
                }
                self.b.snapshot(done.status)
            }
            _ => unreachable!(),
        }
    }

    fn opened(&mut self, path: &str, conn: u64, source: EventSource) -> StateSnapshot {
        let start = || Place { selection: Selection::single(0, 0), first_line: 0 };
        let pane = self.b.d.editor.focused;
        let root = root_of(path);
        let stat = self.stat(path);
        let facts = OpenFacts { stat, dead: vec![], idle: start() };
        if self.b.d.show_path(pane, path, start()) {
            let disk = match stat {
                Some(s) if self.b.d.diverged(path, s) => {
                    let text = self.files[path].0.clone();
                    let before = (self.b.text(), self.b.d.editor.selection());
                    let reloaded = before.0 != text;
                    let after = (text.clone(), before.1.copy());
                    if reloaded {
                        self.end_group();
                        self.b.log().push(Change { before, after });
                    }
                    let facts = ReloadFacts { reloaded, can_undo: true, can_redo: false };
                    Some(DiskText { text, facts })
                }
                _ => None,
            };
            if self.b.d.open_existing(path, &root, conn, source, disk, facts) {
                self.end_group();
            }
            return self.b.snapshot(None);
        }
        match self.files.get(path) {
            Some((text, _)) => {
                self.b.d.open_new(path, &root, text.clone(), conn, source, facts);
                self.b.snapshot(None)
            }
            None => {
                let status = check_after_open(path, None).unwrap();
                self.b.d.open_failed(&status, conn, source, &vec![]);
                self.b.snapshot(Some(status))
            }
        }
    }

    /// What is left when the focused document is closed. One without a path is not closed.
    fn closed(&self) -> EngineReply {
        let gone = self.b.d.editor.current();
        if gone.path.is_none() {
            return EngineReply::Arranged(None);
        }
        let documents: Vec<Document> = self
            .b
            .d
            .editor
            .documents
            .iter()
            .filter(|d| d.id != gone.id)
            .map(|d| Document {
                id: d.id,
                path: d.path.clone(),
                text: d.text.clone(),
                dirty: d.dirty,
                can_undo: d.can_undo,
                can_redo: d.can_redo,
            })
            .collect();
        let next = documents.last().unwrap().id;
        let panes = self
            .b
            .d
            .editor
            .panes
            .iter()
            .map(|p| {
                if p.doc == gone.id {
                    Pane { id: p.id, doc: next, selection: Selection::single(0, 0), first_line: 0 }
                } else {
                    Pane {
                        id: p.id,
                        doc: p.doc,
                        selection: p.selection.copy(),
                        first_line: p.first_line,
                    }
                }
            })
            .collect();
        EngineReply::Arranged(Some(Arrangement { documents, panes }))
    }

    /// One look at the disk.
    fn watch(&mut self) -> bool {
        let keys: Vec<String> = self.b.d.baselines.entries.iter().map(|e| e.key.clone()).collect();
        let stats = keys.iter().map(|k| self.stat(k)).collect();
        let plan = self.b.d.watch_plan(&stats);
        let mut contents = vec![];
        for path in &plan.reload {
            let text = self.files[path].0.clone();
            let reloaded = match self.b.d.editor.doc_for_path(path) {
                Some(d) => d.text != text,
                None => false,
            };
            contents.push(Reread {
                path: path.clone(),
                disk: DiskText {
                    text,
                    facts: ReloadFacts { reloaded, can_undo: true, can_redo: false },
                },
                stat: self.stat(path),
            });
        }
        let before = (self.b.text(), self.b.d.editor.selection());
        let r = self.b.d.watch_apply(&plan, contents);
        if r.closed_group {
            self.end_group();
        }
        let after = (self.b.text(), self.b.d.editor.selection());
        if after.0 != before.0 {
            self.b.log().push(Change { before, after });
        }
        r.tell
    }

    fn reviews(&self) -> Vec<ReviewCommentView> {
        let facts = self
            .b
            .d
            .review_comments
            .iter()
            .map(|c| DiskFact {
                exists: self.files.contains_key(&c.path),
                text: self.files.get(&c.path).map(|f| f.0.clone()),
            })
            .collect();
        match self.b.d.serve_review_comments(&facts) {
            ServerMessage::ReviewComments { comments, .. } => comments,
            _ => unreachable!(),
        }
    }

    /// What another client is told of a change.
    fn push(&self, origin: u64, conn: u64) -> Option<StateSnapshot> {
        let v = self.b.d.push_view(Some(origin), conn)?;
        Some(self.b.d.snapshot_from_view(v.view_id, "", vec![], None))
    }
}

#[test]
fn document_edit_replaces_range_without_touching_selection() {
    let mut w = world(&[("/f.txt", "hello world")]);
    let c = w.connect(ClientKind::Interactive);
    w.open(c, "/f.txt");
    w.cmd(c, Command::Goto { target: GotoTarget::DocumentStart });
    let s = w.edit(c, edit(6, 11, "W", "hello world"));
    assert_eq!(s.text, "hello W");
    assert!(s.dirty);
    assert_eq!(s.status, None);
    assert_eq!(s.selection[0], range(0, 0));
}

#[test]
fn document_edit_shrinking_doc_with_cursor_after_range_does_not_panic() {
    let mut w = world(&[("/f.txt", "hello world")]);
    let c = w.connect(ClientKind::Interactive);
    w.open(c, "/f.txt");
    w.cmd(c, Command::Goto { target: GotoTarget::DocumentEnd });
    let s = w.edit(c, edit(0, 11, "hi", "hello world"));
    assert_eq!(s.text, "hi");
    assert_eq!(s.status, None);
    assert_eq!(s.selection[0].anchor, 2);
    assert_eq!(s.selection[0].head, 2);
    assert_eq!(s.generation, 2);
    assert_eq!(s.events.last().unwrap().kind, EventKind::ReplaceRange);
    let s = w.cmd(c, mv(Movement::Line, Direction::Forward));
    assert_eq!(s.text, "hi");
    assert_eq!(s.selection[0].head, 2);
    let s = w.cmd(c, insert("!"));
    assert_eq!(s.text, "hi!");
}

#[test]
fn document_edit_insert_and_delete_share_one_variant() {
    let mut w = world(&[("/f.txt", "abc")]);
    let c = w.connect(ClientKind::Interactive);
    w.open(c, "/f.txt");
    assert_eq!(w.edit(c, edit(1, 1, "X", "abc")).text, "aXbc");
    assert_eq!(w.edit(c, edit(1, 2, "", "aXbc")).text, "abc");
}

#[test]
fn document_edit_clamps_out_of_bounds() {
    let mut w = world(&[("/f.txt", "abc")]);
    let c = w.connect(ClientKind::Interactive);
    w.open(c, "/f.txt");
    let s = w.edit(c, edit(2, 1, "X", "abc"));
    assert_eq!(s.status, None);
    assert_eq!(s.text, "aXc");
    let s = w.edit(c, edit(0, 100, "X", "aXc"));
    assert_eq!(s.status, None);
    assert_eq!(s.text, "X");
    assert_eq!(w.cmd(c, Command::Undo).text, "aXc");
    assert_eq!(w.cmd(c, Command::Undo).text, "abc");
}

#[test]
fn document_edit_rejects_stale_checksum() {
    let mut w = world(&[("/f.txt", "abc")]);
    let c = w.connect(ClientKind::Interactive);
    w.open(c, "/f.txt");
    let stale = DocumentEdit { checksum: 12345, ..edit(0, 1, "X", "abc") };
    let s = w.edit(c, stale);
    assert_eq!(s.status.as_deref(), Some("document changed since read"));
    assert_eq!(s.text, "abc");
    assert_eq!(w.edit(c, edit(0, 1, "X", "abc")).text, "Xbc");
}

#[test]
fn document_edit_is_undoable_as_one_group() {
    let mut w = world(&[("/f.txt", "abc")]);
    let c = w.connect(ClientKind::Interactive);
    w.open(c, "/f.txt");
    assert_eq!(w.edit(c, edit(0, 0, "X", "abc")).text, "Xabc");
    assert_eq!(w.cmd(c, Command::Undo).text, "abc");
    assert_eq!(w.cmd(c, Command::Redo).text, "Xabc");
}

#[test]
fn document_edit_preempts_open_insert_group() {
    let mut w = world(&[("/f.txt", "abc")]);
    let tui = w.connect(ClientKind::Interactive);
    w.open(tui, "/f.txt");
    w.cmd(tui, mode(Mode::Insert));
    let s = w.cmd(tui, insert("a"));
    assert_eq!(s.mode, Mode::Insert);
    assert_eq!(s.text, "aabc");
    let agent = w.connect(ClientKind::Headless);
    let s = w.edit(agent, edit(3, 3, "Z", "aabc"));
    assert_eq!(s.text, "aabZc");
    assert_eq!(s.mode, Mode::Normal);
    assert_eq!(w.cmd(tui, Command::Undo).text, "aabc");
}

#[test]
fn set_mode_normal_after_focus_switch_closes_orphaned_group() {
    let mut w = world(&[("/x.txt", ""), ("/y.txt", "")]);
    let tui = w.connect(ClientKind::Interactive);
    w.open(tui, "/x.txt");
    w.cmd(tui, mode(Mode::Insert));
    assert_eq!(w.cmd(tui, insert("a")).text, "a");
    let agent = w.connect(ClientKind::Interactive);
    let s = w.open(agent, "/y.txt");
    assert_eq!(s.text, "");
    assert_eq!(s.mode, Mode::Insert);
    assert_eq!(w.cmd(tui, mode(Mode::Normal)).mode, Mode::Normal);
    assert_eq!(w.open(agent, "/x.txt").text, "a");
    assert_eq!(w.edit(agent, edit(1, 1, "Z", "a")).text, "aZ");
    assert_eq!(w.cmd(agent, Command::Undo).text, "a");
    assert_eq!(w.cmd(agent, Command::Undo).text, "");
}

#[test]
fn owner_disconnect_after_focus_switch_closes_orphaned_group() {
    let mut w = world(&[("/x.txt", ""), ("/y.txt", "")]);
    let tui = w.connect(ClientKind::Interactive);
    w.open(tui, "/x.txt");
    w.cmd(tui, mode(Mode::Insert));
    assert_eq!(w.cmd(tui, insert("a")).text, "a");
    let agent = w.connect(ClientKind::Interactive);
    w.open(agent, "/y.txt");
    w.drop_client(tui);
    assert_eq!(w.cmd(agent, Command::GetState).mode, Mode::Normal);
    assert_eq!(w.open(agent, "/x.txt").text, "a");
    assert_eq!(w.edit(agent, edit(1, 1, "Z", "a")).text, "aZ");
    assert_eq!(w.cmd(agent, Command::Undo).text, "a");
    assert_eq!(w.cmd(agent, Command::Undo).text, "");
}

#[test]
fn m1_rejected_and_noop_ops_do_not_advance_generation_or_events() {
    let mut w = world(&[("/f.txt", "hello")]);
    let c = w.connect(ClientKind::Interactive);
    assert_eq!(w.open(c, "/f.txt").generation, 1);
    let s = w.cmd(c, Command::DeleteBackward);
    assert_eq!(s.text, "hello");
    assert_eq!(s.generation, 1);
    assert!(s.events.iter().all(|e| e.kind != EventKind::Delete));
    w.cmd(c, Command::Goto { target: GotoTarget::DocumentEnd });
    assert_eq!(w.cmd(c, Command::DeleteForward).generation, 1);
    w.cmd(c, Command::Goto { target: GotoTarget::DocumentStart });
    assert_eq!(w.cmd(c, Command::DeleteRange).generation, 1);
    assert_eq!(w.cmd(c, insert("")).generation, 1);
    assert_eq!(w.cmd(c, Command::Undo).generation, 1);
    let s = w.edit(c, edit(1, 1, "Y", "wrong"));
    assert!(s.status.is_some());
    assert_eq!(s.generation, 1);
    assert!(s.events.iter().all(|e| e.kind != EventKind::ReplaceRange));
    let s = w.cmd(c, insert("X"));
    assert_eq!(s.text, "Xhello");
    assert_eq!(s.generation, 2);
    assert_eq!(s.events.last().unwrap().kind, EventKind::Insert);
    w.cmd(c, Command::Goto { target: GotoTarget::DocumentStart });
    let s = w.cmd(c, Command::DeleteForward);
    assert_eq!(s.text, "hello");
    assert_eq!(s.generation, 3);
    assert_eq!(s.events.last().unwrap().kind, EventKind::Delete);
}

#[test]
fn generation_increments_on_state_changes_only() {
    let mut w = world(&[("/f.txt", "abc")]);
    let c = w.connect(ClientKind::Interactive);
    assert_eq!(w.open(c, "/f.txt").generation, 1);
    assert_eq!(w.cmd(c, insert("X")).generation, 2);
    assert_eq!(w.cmd(c, Command::Undo).generation, 3);
    assert_eq!(w.cmd(c, mode(Mode::Insert)).generation, 4);
    assert_eq!(w.cmd(c, mode(Mode::Insert)).generation, 4);
    assert_eq!(w.cmd(c, Command::GetState).generation, 4);
}

#[test]
fn events_carry_correct_source() {
    let mut w = world(&[("/f.txt", "abc")]);
    let tui = w.connect(ClientKind::Interactive);
    let s = w.open(tui, "/f.txt");
    assert!(s
        .events
        .iter()
        .any(|e| e.kind == EventKind::Open && e.source == EventSource::Interactive));
    let s = w.cmd(tui, insert("X"));
    assert!(s.events.iter().any(|e| e.kind == EventKind::Insert
        && e.source == EventSource::Interactive
        && e.text.as_deref() == Some("X")));
    let agent = w.connect(ClientKind::Headless);
    let s = w.edit(agent, edit(1, 1, "Y", "Xabc"));
    assert!(s.events.iter().any(|e| e.kind == EventKind::ReplaceRange
        && e.source == EventSource::Headless
        && e.text.as_deref() == Some("Y")));
}

#[test]
fn reuse_open_reloads_diverged_document() {
    let mut w = world(&[("/f.txt", "base\n")]);
    let c = w.connect(ClientKind::Interactive);
    assert_eq!(w.open(c, "/f.txt").text, "base\n");
    w.write("/f.txt", "changed by external tool\n");
    let s = w.open(c, "/f.txt");
    assert_eq!(s.text, "changed by external tool\n");
    assert!(s
        .events
        .iter()
        .any(|e| e.kind == EventKind::ExternalChange && e.source == EventSource::External));
    let s = w.cmd(c, Command::Save);
    assert!(s.status.as_deref().unwrap_or("").starts_with("saved:"));
}

#[test]
fn reopen_diverged_path_reloads_but_undo_recovers_unsaved_edits() {
    let mut w = world(&[("/f.txt", "base\n")]);
    let tui = w.connect(ClientKind::Interactive);
    assert_eq!(w.open(tui, "/f.txt").text, "base\n");
    let s = w.cmd(tui, insert("X"));
    assert_eq!(s.text, "Xbase\n");
    assert!(s.dirty);
    w.write("/f.txt", "changed\n");
    let agent = w.connect(ClientKind::Interactive);
    let s = w.open(agent, "/f.txt");
    assert_eq!(s.text, "changed\n");
    assert!(!s.dirty);
    assert!(s
        .events
        .iter()
        .any(|e| e.kind == EventKind::ExternalChange && e.source == EventSource::External));
    let s = w.cmd(agent, Command::Undo);
    assert_eq!(s.text, "Xbase\n");
    assert!(s.dirty);
}

#[test]
fn headless_client_is_restricted_to_document_edit_family() {
    let mut w = world(&[("/f.txt", "base\n")]);
    let tui = w.connect(ClientKind::Interactive);
    let agent = w.connect(ClientKind::Headless);
    w.open(tui, "/f.txt");
    for c in [
        mode(Mode::Insert),
        mv(Movement::Char, Direction::Forward),
        insert("X"),
        Command::Undo,
    ] {
        let s = w.cmd(agent, c);
        assert!(s.status.as_deref().is_some_and(|m| m.starts_with("headless clients can only use")));
        assert_eq!(s.text, "base\n");
        assert_eq!(s.generation, 1);
        assert_eq!(s.mode, Mode::Normal);
    }
    let s = w.open(agent, "/f.txt");
    assert!(s.status.is_none());
    assert_eq!(s.text, "base\n");
    assert!(s.path.as_deref().is_some_and(|p| p.ends_with("f.txt")));
    assert!(w.cmd(agent, Command::GetState).status.is_none());
    let s = w.edit(agent, edit(4, 4, "Z", "base\n"));
    assert_eq!(s.text, "baseZ\n");
    let s = w.cmd(agent, Command::Save);
    assert!(s.status.as_deref().is_some_and(|m| m.starts_with("saved:")));
    let s = w.cmd(agent, Command::Close);
    assert!(s.status.is_none());
    assert_eq!(s.path, None);
    assert!(s.text.is_empty());
    let s = w.cmd(tui, insert("Y"));
    assert!(s.status.is_none());
    assert!(s.text.contains("Y"));
}

#[test]
fn last_interactive_disconnect_resets_cursor_by_default() {
    let mut w = world(&[]);
    let tui = w.connect(ClientKind::Interactive);
    w.cmd(tui, mode(Mode::Insert));
    assert_eq!(w.cmd(tui, insert("hello")).text, "hello");
    let s = w.cmd(tui, mode(Mode::Normal));
    assert_eq!(s.selection[0].anchor, 5);
    let before = s.generation;
    w.leave(tui);
    let tui2 = w.connect(ClientKind::Interactive);
    let s = w.cmd(tui2, Command::GetState);
    assert_eq!(s.text, "hello");
    assert_eq!(s.selection[0].anchor, 0);
    assert!(s.generation > before);
    assert_eq!(s.events.last().unwrap().kind, EventKind::SelectionReset);
    assert_eq!(s.events.last().unwrap().source, EventSource::External);
}

#[test]
fn disconnect_does_not_reset_while_another_interactive_remains() {
    let mut w = world(&[("/f.txt", "hello\nworld\n")]);
    let a = w.connect(ClientKind::Interactive);
    w.open(a, "/f.txt");
    let s = w.cmd(a, mv(Movement::Line, Direction::Forward));
    assert_eq!(s.selection[0].anchor, 6);
    let b = w.connect(ClientKind::Interactive);
    let before = w.cmd(b, Command::GetState).generation;
    w.leave(a);
    let c = w.connect(ClientKind::Interactive);
    let s = w.cmd(c, Command::GetState);
    assert_eq!(s.selection[0].anchor, 0);
    assert_eq!(s.generation, before);
    w.leave(b);
    let s = w.cmd(c, Command::GetState);
    assert_eq!(s.selection[0].anchor, 0);
    assert_eq!(s.generation, before);
    w.leave(c);
    let observer = w.connect(ClientKind::Headless);
    let s = w.cmd(observer, Command::GetState);
    assert_eq!(s.selection[0].anchor, 0);
    assert_eq!(s.events.last().unwrap().kind, EventKind::SelectionReset);
    let d = w.connect(ClientKind::Interactive);
    let s = w.cmd(d, Command::GetState);
    assert_eq!(s.selection[0].anchor, 0);
    assert_eq!(s.text, "hello\nworld\n");
}

#[test]
fn ending_select_mode_is_a_change_of_the_mode() {
    let mut w = world(&[("/f.txt", "abc")]);
    let c = w.connect(ClientKind::Interactive);
    w.open(c, "/f.txt");
    let before = w.cmd(c, mode(Mode::Select)).generation;
    let s = w.cmd(c, Command::DeleteRange);
    assert_eq!(s.text, "abc");
    assert_eq!(s.mode, Mode::Normal);
    assert_eq!(s.generation, before + 1);
    assert_eq!(s.events.last().unwrap().kind, EventKind::SetMode);
    let mut d = daemon();
    open(&mut d, "abc");
    apply(&mut d, mode(Mode::Select));
    assert!(apply_from(&mut d, Command::DeleteRange, 0).1);
    assert!(!apply_from(&mut d, Command::DeleteRange, 0).1);
}

#[test]
fn closing_a_foreign_session_is_a_change_of_the_mode() {
    let mut w = world(&[("/f.txt", "abc")]);
    let a = w.connect(ClientKind::Interactive);
    let b = w.connect(ClientKind::Interactive);
    w.open(a, "/f.txt");
    w.open(b, "/f.txt");
    for write in [Command::DeleteBackward, Command::Undo, Command::SurroundDelete { ch: '(' }] {
        let before = w.cmd(a, mode(Mode::Insert)).generation;
        let s = w.cmd(b, write);
        assert_eq!(s.text, "abc");
        assert_eq!(s.mode, Mode::Normal);
        assert_eq!(s.generation, before + 1);
        assert_eq!(s.events.last().unwrap().kind, EventKind::SetMode);
        assert_eq!(w.b.d.insert_owner, None);
    }
}

#[test]
fn opened_line_is_not_in_the_group_of_another_client() {
    let mut w = world(&[("/f.txt", "")]);
    let a = w.connect(ClientKind::Interactive);
    let b = w.connect(ClientKind::Interactive);
    w.open(a, "/f.txt");
    w.open(b, "/f.txt");
    w.cmd(a, mode(Mode::Insert));
    assert_eq!(w.cmd(a, insert("a")).text, "a");
    let s = w.cmd(b, Command::OpenBelow);
    assert_eq!(s.text, "a\n");
    assert_eq!(s.mode, Mode::Insert);
    assert_eq!(w.b.d.insert_owner, Some(b));
    w.cmd(b, mode(Mode::Normal));
    assert_eq!(w.cmd(b, Command::Undo).text, "a");
    assert_eq!(w.cmd(b, Command::Undo).text, "");
}

#[test]
fn opened_line_is_not_in_the_own_group_either() {
    let mut d = daemon();
    open(&mut d, "");
    apply(&mut d, mode(Mode::Insert));
    apply(&mut d, insert("a"));
    assert_eq!(apply(&mut d, Command::OpenBelow).text, "a\n");
    assert_eq!(apply(&mut d, insert("b")).text, "a\nb");
    apply(&mut d, mode(Mode::Normal));
    assert_eq!(apply(&mut d, Command::Undo).text, "a\n");
    assert_eq!(apply(&mut d, Command::Undo).text, "a");
    assert_eq!(apply(&mut d, Command::Undo).text, "");
}

#[test]
fn changed_selection_is_not_in_the_own_group() {
    let mut d = daemon();
    open(&mut d, "");
    apply(&mut d, mode(Mode::Insert));
    assert_eq!(apply(&mut d, insert("one two")).text, "one two");
    apply(&mut d, Command::SelectAll);
    assert_eq!(apply(&mut d, Command::Change).text, "");
    assert_eq!(apply(&mut d, insert("b")).text, "b");
    assert_eq!(apply(&mut d, insert("c")).text, "bc");
    apply(&mut d, mode(Mode::Normal));
    assert_eq!(apply(&mut d, Command::Undo).text, "");
    assert_eq!(apply(&mut d, Command::Undo).text, "one two");
    assert_eq!(apply(&mut d, Command::Undo).text, "");
}

#[test]
fn change_on_a_cursor_in_the_own_session_starts_a_new_group_alone() {
    let mut w = world(&[("/f.txt", "")]);
    let a = w.connect(ClientKind::Interactive);
    w.open(a, "/f.txt");
    w.cmd(a, mode(Mode::Insert));
    let before = w.cmd(a, insert("a")).generation;
    let s = w.cmd(a, Command::Change);
    assert_eq!((s.text.as_str(), s.mode), ("a", Mode::Insert));
    assert_eq!(s.generation, before);
    assert_eq!(w.b.d.insert_owner, Some(a));
    assert_eq!(w.cmd(a, insert("b")).text, "ab");
    w.cmd(a, mode(Mode::Normal));
    assert_eq!(w.cmd(a, Command::Undo).text, "a");
    assert_eq!(w.cmd(a, Command::Undo).text, "");
}

#[test]
fn change_in_the_session_of_another_client_takes_it_over() {
    let mut w = world(&[("/f.txt", "")]);
    let a = w.connect(ClientKind::Interactive);
    let b = w.connect(ClientKind::Interactive);
    w.open(a, "/f.txt");
    w.open(b, "/f.txt");
    w.cmd(a, mode(Mode::Insert));
    let before = w.cmd(a, insert("ab")).generation;
    let s = w.cmd(b, Command::Change);
    assert_eq!((s.text.as_str(), s.mode), ("ab", Mode::Insert));
    assert!(s.generation > before);
    assert_eq!(w.b.d.insert_owner, Some(b));
}

#[test]
fn kills_name_the_ranges_that_are_deleted() {
    let mut d = daemon();
    open(&mut d, "one\ntwo three\n");
    let pane = d.d.editor.focused;
    d.d.place_pane(pane, Selection::single(10, 6), 0);
    assert_eq!(
        d.d.begin_command(&Command::KillToLineStart, 0).call,
        EngineCall::DeleteRanges { ranges: Selection::single(4, 10), after: false }
    );
    assert_eq!(
        d.d.begin_command(&Command::KillToLineEnd, 0).call,
        EngineCall::DeleteRanges { ranges: Selection::single(6, 13), after: false }
    );
    assert_eq!(apply(&mut d, Command::KillToLineStart).text, "one\nree\n");
}

#[test]
fn edits_say_on_which_side_the_cursor_stands() {
    let mut d = daemon();
    open(&mut d, "one");
    assert_eq!(
        d.d.begin_command(&insert("x"), 0).call,
        EngineCall::Insert { text: "x".to_string(), after: true }
    );
    assert_eq!(
        d.d.begin_command(&Command::Replace { text: "y".to_string() }, 0).call,
        EngineCall::Replace { text: "y".to_string(), after: true }
    );
    assert_eq!(
        d.d.begin_command(&Command::DeleteForward, 0).call,
        EngineCall::DeleteForward { after: false }
    );
    assert_eq!(
        d.d.begin_command(&Command::OpenBelow, 0).call,
        EngineCall::OpenLine {
            movement: Movement::LineEnd,
            direction: Direction::Forward,
            ch: '\n',
            after: true,
        }
    );
    assert_eq!(
        d.d.begin_command(&Command::OpenAbove, 0).call,
        EngineCall::OpenLine {
            movement: Movement::LineStart,
            direction: Direction::Forward,
            ch: '\n',
            after: false,
        }
    );
}

#[test]
fn searches_tell_case_apart_for_upper_case_queries_alone() {
    let exact = |call: &EngineCall| match call {
        EngineCall::Find { exact, .. } | EngineCall::FindAll { exact, .. } => *exact,
        _ => unreachable!(),
    };
    let mut d = daemon();
    open(&mut d, "foo Foo foo");
    for (query, told) in [("foo", false), ("Foo", true), ("fOo", true), ("été", false), ("Été", true)] {
        let c = Command::Search { query: query.to_string(), direction: Direction::Forward };
        assert_eq!(exact(&d.d.begin_command(&c, 0).call), told, "{}", query);
    }
    let s = apply(&mut d, Command::Search { query: "Foo".into(), direction: Direction::Forward });
    assert_eq!(s.selection, vec![range(4, 7)]);
    let next = Command::SearchNext { direction: Direction::Forward };
    assert!(exact(&d.d.begin_command(&next, 0).call));
    assert_eq!(apply(&mut d, next).selection, vec![range(4, 7)]);
    let AfterWord::Ask(call) = d.d.after_word(None) else { unreachable!() };
    assert_eq!(call, EngineCall::FindAll { query: "Foo".to_string(), exact: true, word: None });
    assert_eq!(apply(&mut d, Command::SearchSelection).selection, vec![range(4, 7)]);
    d.set_selection(1);
    assert_eq!(
        d.d.begin_command(&Command::SearchSelection, 0).call,
        EngineCall::WordAt { at: 1 }
    );
    assert_eq!(
        apply(&mut d, Command::SearchSelection).selection,
        vec![range(0, 3), range(4, 7), range(8, 11)]
    );
}

#[test]
fn a_search_for_no_word_asks_for_no_matches() {
    let mut d = daemon();
    open(&mut d, "");
    assert!(matches!(
        d.d.after_word(None),
        AfterWord::Answer(EngineReply::Matches { word: None, matches: None })
    ));
}

#[test]
fn a_scroll_of_no_lines_asks_for_nothing() {
    let mut d = daemon();
    open(&mut d, &eighty_lines());
    let before = apply(&mut d, mode(Mode::Select)).selection;
    assert_eq!(d.d.begin_command(&Command::Scroll { pages: 0 }, 0).call, EngineCall::Nothing);
    let (s, changed) = apply_from(&mut d, Command::Scroll { pages: 0 }, 0);
    assert!(!changed);
    assert_eq!((s.selection, s.first_line), (before, 0));
}

#[test]
fn an_edit_that_does_something_is_not_taken_for_nothing() {
    let mut d = daemon();
    open(&mut d, "abc");
    let edit = |start, end, text: &str| DocumentEdit {
        start,
        end,
        text: text.to_string(),
        checksum: 0,
        expected_text: None,
    };
    assert!(d.d.is_weighed(&edit(1, 2, "x"), false));
    assert!(!d.d.is_weighed(&edit(1, 2, "x"), true));
    assert!(d.d.is_weighed(&edit(1, 1, ""), true));
    assert!(!d.d.is_weighed(&edit(1, 1, ""), false));
    assert!(d.d.is_weighed(&edit(5, 9, ""), true));
    assert!(!d.d.is_weighed(&edit(5, 9, ""), false));
    assert!(d.d.is_weighed(&edit(2, 1, "b"), true));
    assert!(d.d.is_weighed(&edit(2, 1, "b"), false));
    assert!(!d.d.is_weighed(&edit(9, 9, "d"), true));
}

#[test]
fn missed_search_keeps_the_last_one() {
    let mut d = daemon();
    open(&mut d, "ab ab ab");
    apply(&mut d, Command::Search { query: "ab".into(), direction: Direction::Forward });
    let s = apply(&mut d, Command::Search { query: "xyz".into(), direction: Direction::Forward });
    assert_eq!(s.status.as_deref(), Some("no match: xyz"));
    assert_eq!(d.d.last_search.as_ref().unwrap().query, "ab");
    let s = apply(&mut d, Command::SearchNext { direction: Direction::Forward });
    assert_eq!(s.status, None);
}

#[test]
fn edit_without_effect_keeps_a_foreign_insert_session() {
    let mut d = daemon();
    open(&mut d, "");
    apply(&mut d, mode(Mode::Insert));
    apply(&mut d, insert("a"));
    let nothing = edit(1, 1, "", "a");
    let s = apply_edit(&mut d, &nothing, 9, EventSource::Interactive).expect("a snapshot");
    assert_eq!(s.status, None);
    assert_eq!(s.mode, Mode::Insert);
    assert_eq!(d.d.insert_owner, Some(0));
    assert_eq!(d.text(), "a");
}

#[test]
fn close_moves_to_next_document_then_empty() {
    let mut w = world(&[("/a.txt", "a\n"), ("/b.txt", "b\n")]);
    let c = w.connect(ClientKind::Interactive);
    assert_eq!(w.open(c, "/a.txt").text, "a\n");
    assert_eq!(w.open(c, "/b.txt").text, "b\n");
    let s = w.cmd(c, Command::Close);
    assert_eq!(s.path.as_deref(), Some("/a.txt"));
    assert_eq!(s.text, "a\n");
    let s = w.cmd(c, Command::Close);
    assert!(s.path.is_none());
    assert_eq!(s.text, "");
    let before = w.cmd(c, Command::GetState).generation;
    assert_eq!(w.cmd(c, Command::Close).generation, before);
    assert_eq!(w.b.d.baselines.len(), 0);
}

#[test]
fn save_recreates_deleted_file_and_clears_state() {
    let mut w = world(&[("/f.txt", "base\n")]);
    let c = w.connect(ClientKind::Interactive);
    w.open(c, "/f.txt");
    w.files.remove("/f.txt");
    assert!(w.watch());
    assert!(w.cmd(c, Command::GetState).deleted.is_some());
    let s = w.cmd(c, Command::Save);
    assert!(s.status.as_deref().unwrap_or("").starts_with("saved:"));
    assert!(s.deleted.is_none());
    assert!(w.files.contains_key("/f.txt"));
}

#[test]
fn external_change_reloads_non_focused_open_document() {
    let mut w = world(&[("/a.txt", "a\n"), ("/b.txt", "b\n")]);
    let c = w.connect(ClientKind::Interactive);
    w.open(c, "/a.txt");
    w.open(c, "/b.txt");
    w.write("/a.txt", "A changed\n");
    assert!(w.watch());
    let seen = w.cmd(c, Command::GetState);
    assert_eq!(seen.text, "b\n");
    w.watch();
    assert_eq!(w.cmd(c, Command::GetState).generation, seen.generation);
    let s = w.open(c, "/a.txt");
    assert_eq!(s.text, "A changed\n");
    assert!(!s.dirty);
}

#[test]
fn activity_records_document_edit_success_and_reject() {
    let mut w = world(&[("/f.txt", "hello world")]);
    let agent = w.connect(ClientKind::Headless);
    w.open(agent, "/f.txt");
    let s = w.edit(agent, edit(5, 5, "!", "hello world"));
    assert_eq!(s.text, "hello! world");
    let rec = s.activity.last().unwrap();
    assert_eq!(rec.actor, "test");
    assert_eq!(rec.kind, EventKind::Insert);
    assert!(rec.ok);
    let s = w.edit(agent, DocumentEdit { checksum: 12345, ..edit(0, 3, "bye", "") });
    assert_eq!(s.text, "hello! world");
    let rec = s.activity.last().unwrap();
    assert!(!rec.ok);
    assert!(rec.detail.contains("document changed since read"));
}

#[test]
fn activity_excludes_read_only_commands() {
    let mut w = world(&[("/f.txt", "abc")]);
    let agent = w.connect(ClientKind::Headless);
    assert_eq!(w.open(agent, "/f.txt").activity.len(), 1);
    w.cmd(agent, Command::GetState);
    w.cmd(agent, Command::WaitFor { generation: 0 });
    assert_eq!(w.cmd(agent, Command::GetState).activity.len(), 1);
}

#[test]
fn activity_reaches_subscribers_through_push() {
    let mut w = world(&[("/f.txt", "abc")]);
    let tui = w.connect(ClientKind::Interactive);
    let agent = w.connect(ClientKind::Headless);
    w.open(tui, "/f.txt");
    let s = w.edit(agent, edit(3, 3, "X", "abc"));
    let pushed = w.push(agent, tui).unwrap();
    assert_eq!(pushed.generation, s.generation);
    let rec = pushed.activity.last().unwrap();
    assert_eq!(rec.actor, "test");
    assert!(rec.ok);
    assert!(rec.detail.contains("/f.txt"), "{}", rec.detail);
}

#[test]
fn interactive_client_receives_push_of_headless_edit() {
    let mut w = world(&[("/f.txt", "")]);
    let tui = w.connect(ClientKind::Interactive);
    let agent = w.connect(ClientKind::Headless);
    w.open(tui, "/f.txt");
    let s = w.edit(agent, edit(0, 0, "hi", ""));
    assert_eq!(s.text, "hi");
    let pushed = w.push(agent, tui).unwrap();
    assert_eq!(pushed.text, "hi");
    assert_eq!(pushed.generation, s.generation);
    assert!(pushed
        .events
        .iter()
        .any(|e| e.kind == EventKind::ReplaceRange && e.source == EventSource::Headless));
}

#[test]
fn own_push_is_skipped_for_originator_but_reaches_other_clients() {
    let mut w = world(&[("/f.txt", "")]);
    let a = w.connect(ClientKind::Interactive);
    let b = w.connect(ClientKind::Interactive);
    w.open(a, "/f.txt");
    w.open(b, "/f.txt");
    let s = w.cmd(a, insert("x"));
    assert!(w.push(a, a).is_none());
    let pushed = w.push(a, b).unwrap();
    assert_eq!(pushed.generation, s.generation);
    assert_eq!(pushed.text, "x");
}

#[test]
fn headless_client_never_receives_push() {
    let mut w = world(&[("/f.txt", "")]);
    let tui = w.connect(ClientKind::Interactive);
    let agent = w.connect(ClientKind::Headless);
    w.open(tui, "/f.txt");
    assert_eq!(w.edit(agent, edit(0, 0, "hi", "")).text, "hi");
    assert!(w.push(agent, agent).is_none());
    assert!(subscribes(ClientKind::Interactive));
    assert!(!subscribes(ClientKind::Headless));
}

#[test]
fn no_push_for_read_only_command() {
    let mut w = world(&[("/f.txt", "base\n")]);
    let tui = w.connect(ClientKind::Interactive);
    let agent = w.connect(ClientKind::Headless);
    let last = w.open(tui, "/f.txt").generation;
    assert!(publish(0, last));
    assert!(!publish(last, w.cmd(agent, Command::GetState).generation));
    assert!(publish(last, w.cmd(tui, insert("x")).generation));
}

#[test]
fn wait_for_generation_blocks_until_change() {
    let mut w = world(&[("/f.txt", "")]);
    let tui = w.connect(ClientKind::Interactive);
    let s = w.open(tui, "/f.txt");
    assert_eq!(s.generation, 1);
    assert_eq!(s.checksum, fnv1a64(s.text.as_bytes()));
    let agent = w.connect(ClientKind::Headless);
    assert!(!w.b.d.wait_over(1));
    w.cmd(tui, insert("X"));
    let waited = w.cmd(agent, Command::WaitFor { generation: 1 });
    assert!(waited.generation > 1);
    assert_eq!(waited.text, "X");
    assert_eq!(w.b.d.metrics.wait_total, 1);
}

#[test]
fn disconnect_keeps_cursor_when_flag_disabled() {
    let mut w = world(&[("/f.txt", "hello\n")]);
    let c = w.connect(ClientKind::Interactive);
    w.open(c, "/f.txt");
    let s = w.cmd(c, mv(Movement::Line, Direction::Forward));
    assert_eq!(s.selection[0].anchor, 6);
    w.drop_client(c);
    let tui2 = w.connect(ClientKind::Interactive);
    let s = w.cmd(tui2, Command::GetState);
    assert_eq!(s.text, "hello\n");
    assert_eq!(s.selection[0].anchor, 0);
}

#[test]
fn per_client_views_are_independent_on_shared_document() {
    let text = "line one\nline two\nline three\n";
    let mut w = world(&[("/f.txt", text)]);
    let a = w.connect(ClientKind::Interactive);
    let b = w.connect(ClientKind::Interactive);
    w.open(a, "/f.txt");
    assert!(w.push(a, b).is_some());
    w.open(b, "/f.txt");
    assert!(w.push(b, a).is_some());
    let down = || mv(Movement::Line, Direction::Forward);
    assert_eq!(w.cmd(a, down()).selection[0].anchor, 9);
    w.cmd(a, Command::SetViewport { height: 10 });
    let s = w.cmd(b, Command::GetState);
    assert_eq!(s.text, text);
    assert_eq!(s.selection[0].anchor, 0);
    w.cmd(b, down());
    assert_eq!(w.cmd(b, down()).selection[0].anchor, 18);
    let s = w.cmd(a, Command::GetState);
    assert_eq!(s.selection[0].anchor, 9);
    assert_eq!(s.text, text);
}

#[test]
fn external_delete_sets_deleted_until_close() {
    let mut w = world(&[("/f.txt", "base\n")]);
    let c = w.connect(ClientKind::Interactive);
    let s = w.open(c, "/f.txt");
    assert!(s.deleted.is_none());
    w.files.remove("/f.txt");
    w.watch();
    let s = w.cmd(c, Command::GetState);
    assert_eq!(s.deleted, s.path);
    assert_eq!(s.deleted.as_deref(), Some("/f.txt"));
    assert_eq!(s.text, "base\n");
    let s = w.cmd(c, Command::Close);
    assert!(s.deleted.is_none());
    assert!(s.path.is_none());
    assert!(s.events.iter().any(|e| e.kind == EventKind::Close));
}

#[test]
fn external_reload_closes_insert_group_and_returns_to_normal() {
    let mut w = world(&[("/f.txt", "base\n")]);
    let c = w.connect(ClientKind::Interactive);
    assert_eq!(w.open(c, "/f.txt").text, "base\n");
    assert_eq!(w.cmd(c, mode(Mode::Insert)).mode, Mode::Insert);
    assert_eq!(w.cmd(c, insert("X")).text, "Xbase\n");
    w.write("/f.txt", "changed\n");
    w.watch();
    let s = w.cmd(c, Command::GetState);
    assert_eq!(s.text, "changed\n");
    assert_eq!(s.mode, Mode::Normal);
    assert_eq!(w.cmd(c, Command::Undo).text, "Xbase\n");
}

#[test]
fn activity_records_headless_open_success_and_failure() {
    let mut w = world(&[("/f.txt", "base\n")]);
    let agent = w.connect(ClientKind::Headless);
    let s = w.open(agent, "/f.txt");
    assert_eq!(s.text, "base\n");
    let rec = s.activity.last().expect("a record");
    assert_eq!(rec.actor, "test");
    assert_eq!(rec.kind, EventKind::Open);
    assert!(rec.ok);
    assert_eq!(rec.detail, "/f.txt");
    let agent2 = w.connect(ClientKind::Headless);
    let s = w.open(agent2, "/nonexistent-xyz-123.txt");
    let rec = s.activity.last().expect("a record");
    assert_eq!(rec.actor, "test");
    assert_eq!(rec.kind, EventKind::Open);
    assert!(!rec.ok);
}

#[test]
fn base_root_register_guard_unregister_e2e() {
    let mut w = world(&[("/base/a.txt", "hello\nworld\n")]);
    w.dirs.push("/base".to_string());
    let c = w.connect(ClientKind::Interactive);
    assert_eq!(w.open(c, "/base/a.txt").generation, 1);
    let register = Command::RegisterBaseRoot {
        root: "/base".to_string(),
        commit: "abc1234".to_string(),
        repo: None,
    };
    let s = w.cmd(c, register);
    assert_eq!(s.generation, 2);
    assert!(s.events.iter().any(|e| e.kind == EventKind::BaseRoot));
    let s = w.edit(c, edit(0, 0, "X", "hello\nworld\n"));
    assert_eq!(s.text, "hello\nworld\n");
    assert_eq!(s.generation, 2);
    assert!(s.status.as_deref().unwrap_or("").contains("読取り専用"));
    let s = w.cmd(c, Command::Save);
    assert_eq!(s.generation, 2);
    assert!(s.status.as_deref().unwrap_or("").contains("読取り専用"));
    assert_eq!(w.files["/base/a.txt"].0, "hello\nworld\n");
    let s = w.cmd(c, Command::UnregisterBaseRoot { root: "/base".to_string() });
    assert_eq!(s.generation, 3);
    let s = w.edit(c, edit(0, 0, "X", "hello\nworld\n"));
    assert_eq!(s.text, "Xhello\nworld\n");
    assert_eq!(s.generation, 4);
    let s = w.cmd(c, Command::UnregisterBaseRoot { root: "/base/nope".to_string() });
    assert_eq!(s.generation, 4);
}

#[test]
fn base_root_headless_register_unregister_e2e() {
    let mut w = world(&[("/base/a.txt", "hello\n")]);
    w.dirs.push("/base".to_string());
    let agent = w.connect(ClientKind::Headless);
    let gen0 = w.open(agent, "/base/a.txt").generation;
    let register = Command::RegisterBaseRoot {
        root: "/base".to_string(),
        commit: "abc1234".to_string(),
        repo: None,
    };
    let s = w.cmd(agent, register);
    assert!(s.status.is_none());
    assert_eq!(s.generation, gen0 + 1);
    assert!(s.events.iter().any(|e| e.kind == EventKind::BaseRoot));
    let s = w.cmd(agent, Command::Save);
    assert!(s.status.as_deref().unwrap_or("").contains("読取り専用"));
    let s = w.cmd(agent, Command::UnregisterBaseRoot { root: "/base".to_string() });
    assert!(s.status.is_none());
    let s = w.cmd(agent, Command::Save);
    assert!(s.status.as_deref().unwrap_or("").starts_with("saved"));
}

#[test]
fn a_root_that_is_not_there_is_not_registered() {
    let mut w = world(&[]);
    w.dirs.push("/base".to_string());
    let c = w.connect(ClientKind::Interactive);
    let register = |root: &str, repo: Option<&str>| Command::RegisterBaseRoot {
        root: root.to_string(),
        commit: "abc1234".to_string(),
        repo: repo.map(|r| r.to_string()),
    };
    let s = w.cmd(c, register("/nope", None));
    assert_eq!(s.status.as_deref(), Some("基準 root がありません: /nope"));
    let s = w.cmd(c, register("/base", Some("/gone")));
    assert_eq!(s.status.as_deref(), Some("対応リポジトリがありません: /gone"));
    assert_eq!(s.generation, 0);
    assert_eq!(w.b.d.base_roots.len(), 0);
}

#[test]
fn review_comments_add_list_stale_clear_e2e() {
    let mut w = world(&[("/r/a.txt", "alpha\nbeta\ngamma\n")]);
    w.dirs.push("/r".to_string());
    let tui = w.connect(ClientKind::Interactive);
    let s = w.open(tui, "/r/a.txt");
    assert_eq!(s.review_comment_count, 0);
    let gen0 = s.generation;
    let comment = |line: u32, snippet: &str, body: &str| Command::AddReviewComment {
        path: "/r/a.txt".to_string(),
        side: ReviewSide::Current,
        line,
        snippet: snippet.to_string(),
        body: body.to_string(),
        base: "abc1234".to_string(),
    };
    let register = || Command::RegisterBaseRoot {
        root: "/r".to_string(),
        commit: "def5678".to_string(),
        repo: None,
    };
    let s = w.cmd(tui, comment(2, "beta", "直して"));
    assert_eq!(s.generation, gen0 + 1);
    assert_eq!(s.review_comment_count, 1);
    assert!(s.events.iter().any(|e| e.kind == EventKind::ReviewComment));
    let s = w.cmd(tui, comment(2, "beta", "やっぱり直さないで"));
    assert_eq!(s.review_comment_count, 1);
    let agent = w.connect(ClientKind::Headless);
    let v = w.reviews();
    assert_eq!(v.len(), 1);
    assert_eq!(v[0].body, "やっぱり直さないで");
    assert!(!v[0].stale);
    assert_eq!((v[0].line, v[0].resolved_line), (2, 2));
    let s = w.edit(tui, edit(0, 0, "zero\n", "alpha\nbeta\ngamma\n"));
    assert_eq!(s.text, "zero\nalpha\nbeta\ngamma\n");
    let v = w.reviews();
    assert_eq!(v.len(), 1);
    assert!(v[0].stale);
    assert_eq!(v[0].resolved_line, 3);
    assert_eq!(v[0].line, 2);
    let s = w.cmd(tui, comment(2, "beta", "   "));
    assert_eq!(s.review_comment_count, 0);
    assert!(w.reviews().is_empty());
    w.cmd(tui, comment(1, "zero", "先頭メモ"));
    assert_eq!(w.cmd(tui, register()).review_comment_count, 0);
    w.cmd(tui, comment(1, "zero", "保持される"));
    assert_eq!(w.cmd(tui, register()).review_comment_count, 1);
    w.cmd(tui, comment(1, "zero", "先頭メモ2"));
    let s = w.cmd(tui, Command::UnregisterBaseRoot { root: "/r".to_string() });
    assert_eq!(s.review_comment_count, 0);
    w.cmd(tui, comment(1, "zero", "切断後も残る"));
    w.drop_client(tui);
    let v = w.reviews();
    assert_eq!(v.len(), 1);
    assert_eq!(v[0].body, "切断後も残る");
    let tui2 = w.connect(ClientKind::Interactive);
    let s = w.cmd(tui2, Command::ClearReviewComments);
    assert_eq!(s.review_comment_count, 0);
    let s2 = w.cmd(tui2, Command::ClearReviewComments);
    assert_eq!(s2.generation, s.generation);
    assert!(w.reviews().is_empty());
    let s = w.cmd(agent, comment(1, "zero", "agent書込み"));
    assert!(s.status.as_deref().unwrap_or("").contains("headless clients can only use"));
    assert_eq!(s.review_comment_count, 0);
}

#[test]
fn surround_commands_over_the_wire_as_interactive_client() {
    let mut w = world(&[("/f.txt", "(abc)")]);
    let tui = w.connect(ClientKind::Interactive);
    assert_eq!(w.open(tui, "/f.txt").text, "(abc)");
    for _ in 0..2 {
        w.cmd(tui, mv(Movement::Char, Direction::Forward));
    }
    assert_eq!(w.cmd(tui, Command::SurroundDelete { ch: '(' }).text, "abc");
    w.cmd(tui, Command::SelectAll);
    let s = w.cmd(tui, Command::SurroundAdd { ch: '[' });
    assert_eq!(s.text, "[abc]");
    assert_eq!(s.selection, vec![range(0, 5)]);
    assert_eq!(s.mode, Mode::Normal);
    let s = w.cmd(tui, Command::SurroundReplace { from: '[', to: '{' });
    assert_eq!(s.text, "{abc}");
    let s = w.cmd(tui, Command::SurroundDelete { ch: '(' });
    assert_eq!(s.text, "{abc}");
    assert!(s.status.as_deref().unwrap_or("").contains("surround pair"));
    let agent = w.connect(ClientKind::Headless);
    let s = w.cmd(agent, Command::SurroundAdd { ch: '(' });
    assert_eq!(s.text, "{abc}");
    assert!(s.status.as_deref().unwrap_or("").contains("headless"));
}

#[test]
fn oversized_command_line_closes_connection() {
    assert!(!line_too_long(MAX_CMD_LINE));
    assert!(line_too_long(MAX_CMD_LINE + 1));
}

#[test]
fn a_request_that_cannot_be_read_is_answered() {
    let mut w = world(&[]);
    let c = w.connect(ClientKind::Interactive);
    let s = w.send(c, Request::Invalid);
    assert_eq!(s.status.as_deref(), Some("invalid command"));
    assert_eq!(s.generation, 0);
}

#[test]
fn a_client_moves_no_other_clients_cursor() {
    let mut w = world(&[("/f.txt", "one\ntwo\n")]);
    let a = w.connect(ClientKind::Interactive);
    let b = w.connect(ClientKind::Interactive);
    w.open(a, "/f.txt");
    w.open(b, "/f.txt");
    w.cmd(b, Command::Goto { target: GotoTarget::DocumentEnd });
    let s = w.cmd(a, mv(Movement::Char, Direction::Forward));
    assert_eq!(s.selection, vec![range(1, 1)]);
    w.cmd(a, Command::SelectAll);
    let s = w.cmd(b, Command::GetState);
    assert_eq!(s.selection, vec![range(8, 8)]);
}

#[test]
fn external_change_auto_reloads_and_is_undoable() {
    let mut w = world(&[("/f.txt", "base\n")]);
    let c = w.connect(ClientKind::Interactive);
    let s = w.open(c, "/f.txt");
    assert_eq!(s.text, "base\n");
    assert!(s.deleted.is_none());
    w.write("/f.txt", "changed by external tool\n");
    w.watch();
    let s = w.cmd(c, Command::GetState);
    assert_eq!(s.text, "changed by external tool\n");
    assert!(s
        .events
        .iter()
        .any(|e| e.kind == EventKind::ExternalChange && e.source == EventSource::External));
    assert!(!s.dirty);
    assert_eq!(w.cmd(c, Command::Undo).text, "base\n");
    let s = w.cmd(c, Command::Save);
    assert!(s.status.as_deref().unwrap_or("").starts_with("saved:"));
}

#[test]
fn base_register_missing_root_rejected() {
    let mut w = world(&[]);
    let c = w.connect(ClientKind::Interactive);
    let before = w.b.d.log.generation;
    let s = w.cmd(
        c,
        Command::RegisterBaseRoot {
            root: "/definitely/not/here-49".to_string(),
            commit: "abc".to_string(),
            repo: None,
        },
    );
    assert!(s.status.as_deref().unwrap_or("").contains("ありません"));
    assert_eq!(w.b.d.log.generation, before);
    assert_eq!(w.b.d.base_roots.len(), 0);
}
