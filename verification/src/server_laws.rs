//! Language servers and what is seen with their help: sessions, diagnostics, answers, windows.
use vstd::prelude::*;

use crate::analysis::{
    has_settled, is_made, next_round, scan_step, settled_with, EntryLook, ScanStep, Settling,
};
use crate::base::{base_views, cached_only, counterparts};
use crate::caches::cached_last;
use crate::commands::too_large;
use crate::connection::{rename_detail, route_of, Route, MAX_CMD_LINE, MAX_CONNECTIONS};
use crate::daemon::{
    actor_name, after_focus, borrows, focused_on, has_kind, is_live_session, listed_log, refocused,
    session_of, shown_diagnostics, shown_hints, unlisted_log, with_dead, without_all, work_listed,
    work_on, work_unlisted, Daemon, FileAt, HintCache, DEFAULT_VIEWPORT, MAX_BASE_DIAG_CACHE,
    MAX_HINT_CACHE,
};
use crate::editor::{opt_view, EditorView};
use crate::errand::{
    fail_notice, feature_of, goes_on, has_moved, is_wide, provider_of, takes_away, text_back,
    Errand, ErrandFail, Outcome, Stage, Want,
};
use crate::languages::{language_of, server_of};
use crate::log::LogView;
use crate::opening::settling;
use crate::outline::{is_asked, same_symbol_same_tree, tree, trees, Asked, Question};
use crate::paths::{comps, extension_of, under};
use crate::process::Request;
use crate::rename::is_rename_error;
use crate::serve::{
    answer_counted, borrow_notice, file_text, holds, innermost, is_check_of, is_enclosing, is_hints,
    is_hover, is_outline, is_outline_error, is_symbol_of, lacking_notice, uri_path, BorrowFail,
    FoundSymbol,
};
use crate::sessions::KeyView;
use crate::snapshot::shows;
use crate::strings::decimal_digits;
use crate::syntax::{
    char_line_from, compiled, is_tree, live, moved_tree, new_row, row_from, seen, updated_row,
    Grammar, Highlights, SyntaxCache,
};
use crate::table::{has_key, keys_differ, newest, put, put_laws, value_of, without_laws};
use crate::text::{
    checksum, is_diff, is_line, is_point, line_break, line_byte, line_feeds, line_from, line_head,
    lines_are_numbered_by_line_feeds, position_lies_in_its_line, row_head, rows_before, snippet,
    InputEdit, Point,
};
use crate::types::{
    no_counts, Activity, ActivityKind, ActivityRecord, CheckDiagnostic, Command, Diagnostic,
    EventKind, EventSource, HighlightRange, InlayHint, OutlineSymbol, Range, ServerMessage,
    ServerMetrics, StateSnapshot, WorkspaceSymbol,
};

verus! {

/// The number of line feeds among bytes.
pub open spec fn byte_line_feeds(b: Seq<u8>) -> nat {
    b.filter(|x: u8| x == 10).len()
}

/// A line begins behind the line feed that ends the one before it, with as many line feeds in front of
/// it as there are lines; a line that is not there lies at the end.
pub proof fn window_line_begins_behind_its_line_feeds(b: Seq<u8>, k: int)
    requires
        k >= 0,
    ensures
        ({
            let at = line_byte(b, k);
            &&& 0 <= at <= b.len()
            &&& k == 0 ==> at == 0
            &&& k > 0 && k <= byte_line_feeds(b) ==> at > 0 && b[at - 1] == 10 && byte_line_feeds(
                b.take(at),
            ) == k
            &&& k > byte_line_feeds(b) ==> at == b.len()
        }),
{
    line_from_counts(b, 0, k);
    assert(b.skip(0) =~= b);
    assert(b.subrange(0, line_byte(b, k)) =~= b.take(line_byte(b, k)));
}

proof fn line_from_counts(b: Seq<u8>, i: int, k: int)
    requires
        0 <= i <= b.len(),
        k >= 0,
    ensures
        ({
            let at = line_from(b, i, k);
            &&& i <= at <= b.len()
            &&& k == 0 ==> at == i
            &&& 0 < k <= byte_line_feeds(b.skip(i)) ==> at > i && b[at - 1] == 10
                && byte_line_feeds(b.subrange(i, at)) == k
            &&& k > byte_line_feeds(b.skip(i)) ==> at == b.len()
        }),
    decreases b.len() - i,
{
    reveal(Seq::filter);
    let lf = |x: u8| x == 10;
    if i < b.len() {
        let one = seq![b[i]];
        assert(b.skip(i) =~= one + b.skip(i + 1));
        Seq::filter_distributes_over_add(one, b.skip(i + 1), lf);
        assert(one.drop_last() =~= Seq::<u8>::empty());
        one.drop_last().lemma_filter_len(lf);
        assert(one.last() == one[0]);
        assert(one.filter(lf).len() == if b[i] == 10 {
            1nat
        } else {
            0
        });
        if k > 0 {
            let j = if b[i] == 10 {
                k - 1
            } else {
                k
            };
            line_from_counts(b, i + 1, j);
            let at = line_from(b, i, k);
            assert(b.subrange(i, at) =~= one + b.subrange(i + 1, at));
            Seq::filter_distributes_over_add(one, b.subrange(i + 1, at), lf);
            if j == 0 {
                assert(b.subrange(i + 1, at) =~= Seq::<u8>::empty());
            }
        }
    } else {
        assert(b.skip(i) =~= Seq::<u8>::empty());
        assert(byte_line_feeds(b.skip(i)) == 0);
    }
}

/// The first character of a line stands behind as many line feeds as there are lines in front of it; a
/// line that is not there lies at the end.
pub proof fn line_begins_behind_its_line_feeds(s: Seq<char>, k: int)
    requires
        k >= 0,
    ensures
        ({
            let at = char_line_from(s, 0, k);
            &&& 0 <= at <= s.len()
            &&& k == 0 ==> at == 0
            &&& k > 0 && k <= line_feeds(s) ==> at > 0 && s[at - 1] == '\n' && line_feeds(
                s.take(at),
            ) == k
            &&& k > line_feeds(s) ==> at == s.len()
        }),
{
    char_line_counts(s, 0, k);
    assert(s.skip(0) =~= s);
    assert(s.subrange(0, char_line_from(s, 0, k)) =~= s.take(char_line_from(s, 0, k)));
}

proof fn char_line_counts(s: Seq<char>, i: int, k: int)
    requires
        0 <= i <= s.len(),
        k >= 0,
    ensures
        ({
            let at = char_line_from(s, i, k);
            &&& i <= at <= s.len()
            &&& k == 0 ==> at == i
            &&& 0 < k <= line_feeds(s.skip(i)) ==> at > i && s[at - 1] == '\n' && line_feeds(
                s.subrange(i, at),
            ) == k
            &&& k > line_feeds(s.skip(i)) ==> at == s.len()
        }),
    decreases s.len() - i,
{
    reveal(Seq::filter);
    let lf = |c: char| c == '\n';
    if i < s.len() {
        let one = seq![s[i]];
        assert(s.skip(i) =~= one + s.skip(i + 1));
        Seq::filter_distributes_over_add(one, s.skip(i + 1), lf);
        assert(one.drop_last() =~= Seq::<char>::empty());
        one.drop_last().lemma_filter_len(lf);
        assert(one.last() == one[0]);
        assert(one.filter(lf).len() == if s[i] == '\n' {
            1nat
        } else {
            0
        });
        if k > 0 {
            let j = if s[i] == '\n' {
                k - 1
            } else {
                k
            };
            char_line_counts(s, i + 1, j);
            let at = char_line_from(s, i, k);
            assert(s.subrange(i, at) =~= one + s.subrange(i + 1, at));
            Seq::filter_distributes_over_add(one, s.subrange(i + 1, at), lf);
            if j == 0 {
                assert(s.subrange(i + 1, at) =~= Seq::<char>::empty());
            }
        }
    } else {
        assert(s.skip(i) =~= Seq::<char>::empty());
        assert(line_feeds(s.skip(i)) == 0);
    }
}

/// The place of a byte is its number of line feeds in front, and its distance from the last of them.
pub proof fn place_is_counted_from_the_last_line_feed(b: Seq<u8>, n: int, p: Point)
    requires
        0 <= n <= b.len(),
        is_point(b, n, p),
    ensures
        p.row == byte_line_feeds(b.take(n)),
        p.column <= n,
        p.column < n ==> b[n - p.column - 1] == 10,
        forall|j: int| n - p.column <= j < n ==> b[j] != 10,
{
    row_counts(b, n);
}

proof fn row_counts(b: Seq<u8>, n: int)
    requires
        0 <= n <= b.len(),
    ensures
        rows_before(b, n) == byte_line_feeds(b.take(n)),
        0 <= row_head(b, n) <= n,
        row_head(b, n) > 0 ==> b[row_head(b, n) - 1] == 10,
        forall|j: int| row_head(b, n) <= j < n ==> b[j] != 10,
    decreases n,
{
    reveal(Seq::filter);
    if n > 0 {
        row_counts(b, n - 1);
        assert(b.take(n).drop_last() =~= b.take(n - 1));
        assert(b.take(n).last() == b[n - 1]);
    } else {
        assert(b.take(0).filter(|x: u8| x == 10).len() == 0);
    }
}

/// A text of up to 40 characters is quoted whole, and of a longer one the first 40 with an ellipsis.
pub proof fn quotes_are_cut_at_forty(s: Seq<char>)
    ensures
        s.len() <= 40 ==> snippet(s) == s,
        s.len() > 40 ==> snippet(s).len() == 41 && snippet(s).last() == '…' && forall|i: int|
            0 <= i < 40 ==> #[trigger] snippet(s)[i] == s[i],
{
}

/// The symbol around a character is looked for in the first symbol of a list that holds it, and in no
/// other. A symbol holds what lies from its lower end up to, but not at, its upper end.
pub proof fn first_symbol_that_holds_counts(v: Seq<OutlineSymbol>, at: usize, i: int)
    requires
        0 <= i < v.len(),
        holds(v[i], at),
        forall|j: int| 0 <= j < i ==> !holds(#[trigger] v[j], at),
    ensures
        innermost(v, at) == match innermost(v[i].children@, at) {
            Some(s) => Some(s),
            None => Some(v[i]),
        },
        ({
            let r = v[i].range;
            (r.anchor <= at && at < r.head) || (r.head <= at && at < r.anchor)
        }),
    decreases i,
{
    if i > 0 {
        let rest = v.subrange(1, v.len() as int);
        assert(!holds(v[0], at));
        assert forall|j: int| 0 <= j < i - 1 implies !holds(#[trigger] rest[j], at) by {
            assert(rest[j] == v[j + 1]);
        }
        assert(rest[i - 1] == v[i]);
        first_symbol_that_holds_counts(rest, at, i - 1);
    }
}

/// Whatever lies between the ends of a symbol's range is held by it.
pub proof fn symbol_holds_its_range(s: OutlineSymbol, at: usize)
    ensures
        holds(s, at) <==> (s.range.anchor <= at && at < s.range.head) || (s.range.head <= at && at
            < s.range.anchor),
{
}

/// A file's address without its beginning is its path; another address stays as it is.
pub proof fn address_is_read(path: Seq<char>, uri: Seq<char>)
    ensures
        uri_path("file://"@ + path) == path,
        uri.len() < "file://"@.len() ==> uri_path(uri) == uri,
        uri.len() > 0 && uri[0] != 'f' ==> uri_path(uri) == uri,
{
    crate::paths::file_uri_reads_back(path);
    reveal_strlit("file://");
    if uri.len() >= "file://"@.len() && uri[0] != 'f' {
        assert(uri.take("file://"@.len() as int)[0] == uri[0]);
        assert("file://"@[0] == 'f');
    }
}

/// A symbol that was found is named with its file and its line, the first of which is 1.
pub proof fn found_symbols_are_named(f: FoundSymbol, s: WorkspaceSymbol)
    requires
        is_symbol_of(f, s),
    ensures
        s.name@ == f.name@,
        s.kind == f.kind,
        s.line == f.line + 1,
        s.path@ == uri_path(f.uri@),
{
}

/// A diagnostic is named with the line and the column of its first character, both counted from 1: the
/// line by the line feeds in front of it, the column from the beginning of its line.
pub proof fn diagnostics_are_placed(text: Seq<char>, d: Diagnostic, c: CheckDiagnostic)
    requires
        is_check_of(text, d, c),
        d.start <= text.len(),
        text.len() < u32::MAX,
    ensures
        c.line == line_feeds(text.take(d.start as int)) + 1,
        exists|a: int, b: int| #[trigger]
            is_line(text, a, b) && a <= d.start <= b && c.col == d.start - a + 1,
        c.start == d.start,
        c.end == d.end,
        c.severity == d.severity,
        c.message@ == d.message@,
{
    let n = d.start as int;
    lines_are_numbered_by_line_feeds(text, n);
    position_lies_in_its_line(text, n);
    assert(is_line(text, line_head(text, n), line_break(text, n)));
}

/// An answer is counted once under its kind, with its bytes, and under no other.
pub proof fn answers_are_counted_by_kind(m: ServerMetrics, message: ServerMessage, bytes: u64)
    requires
        m.answer_room(bytes),
    ensures
        ({
            let n = answer_counted(m, message, bytes);
            let (outline, range, hover, search, check, read) = (
                message is Outline,
                message is EnclosingSymbol,
                message is Hover,
                message is WorkspaceSymbols,
                message is Check,
                message is ReadPath,
            );
            &&& n.outline_total - m.outline_total == if outline {
                1int
            } else {
                0
            }
            &&& n.outline_bytes - m.outline_bytes == if outline {
                bytes as int
            } else {
                0
            }
            &&& n.symbol_range_total - m.symbol_range_total == if range {
                1int
            } else {
                0
            }
            &&& n.symbol_range_bytes - m.symbol_range_bytes == if range {
                bytes as int
            } else {
                0
            }
            &&& n.hover_total - m.hover_total == if hover {
                1int
            } else {
                0
            }
            &&& n.hover_bytes - m.hover_bytes == if hover {
                bytes as int
            } else {
                0
            }
            &&& n.symbol_search_total - m.symbol_search_total == if search {
                1int
            } else {
                0
            }
            &&& n.symbol_search_bytes - m.symbol_search_bytes == if search {
                bytes as int
            } else {
                0
            }
            &&& n.check_total - m.check_total == if check {
                1int
            } else {
                0
            }
            &&& n.check_bytes - m.check_bytes == if check {
                bytes as int
            } else {
                0
            }
            &&& n.read_total - m.read_total == if read {
                1int
            } else {
                0
            }
            &&& n.read_bytes - m.read_bytes == if read {
                bytes as int
            } else {
                0
            }
            &&& n.edits_total == m.edits_total
            &&& n.get_state_total == m.get_state_total
            &&& n.save_total == m.save_total
            &&& n.wait_total == m.wait_total
        }),
{
}

/// A file that is open is read as its document stands, edits that were not saved and all; any other as
/// the disk has it.
pub proof fn open_documents_are_read_first(d: Daemon, path: Seq<char>, disk: Option<Seq<char>>, i: int)
    requires
        0 <= i < d.editor@.documents.len(),
    ensures
        d.editor@.documents[i].path == Some(path) && (forall|j: int|
            0 <= j < i ==> (#[trigger] d.editor@.documents[j]).path != Some(path)) ==> file_text(
            d,
            path,
            disk,
        ) == Some(d.editor@.documents[i].text),
        (forall|j: int|
            0 <= j < d.editor@.documents.len() ==> (#[trigger] d.editor@.documents[j]).path != Some(
                path,
            )) ==> file_text(d, path, disk) == disk,
{
    let docs = d.editor@.documents;
    crate::editor::path_from_bounds(docs, path, 0);
    let k = crate::editor::path_from(docs, path, 0);
    if docs[i].path == Some(path) && (forall|j: int|
        0 <= j < i ==> (#[trigger] docs[j]).path != Some(path)) {
        assert(k <= i) by {
            if k > i {
                assert(docs[i].path != Some(path));
            }
        }
        if k < i {
            assert(docs[k].path != Some(path));
        }
    }
}

/// A file's session is that of its workspace and its language; a file whose language names no server
/// has none. Its own session is used if there is one.
pub proof fn sessions_belong_to_workspace_and_language(
    d: Daemon,
    path: Seq<char>,
    root: Seq<char>,
    h: Option<u64>,
)
    ensures
        language_of(d.languages.languages@, path) is None ==> session_of(
            d.languages.languages@,
            path,
            root,
        ) is None,
        language_of(d.languages.languages@, path) matches Some(l) ==> session_of(
            d.languages.languages@,
            path,
            root,
        ) == if l.language_server is Some {
            Some((root, l.name@))
        } else {
            None::<KeyView>
        },
        session_of(d.languages.languages@, path, root) matches Some(k) && value_of(
            d.sessions@,
            k,
        ) is Some && is_live_session(d, path, root, h) ==> h == value_of(
            d.sessions@,
            session_of(d.languages.languages@, path, root)->0,
        ),
        session_of(d.languages.languages@, path, root) is None && is_live_session(d, path, root, h)
            ==> h is None,
{
}

/// A file without a session of its own is served by one of its language from a workspace that contains
/// it, and by none from a workspace further up than another such.
pub proof fn nearest_session_serves(d: Daemon, path: Seq<char>, root: Seq<char>, h: u64, j: int)
    requires
        session_of(d.languages.languages@, path, root) is Some,
        value_of(
            d.sessions@,
            session_of(d.languages.languages@, path, root)->0,
        ) is None,
        is_live_session(d, path, root, Some(h)),
        0 <= j < d.sessions@.len(),
        session_of(d.languages.languages@, path, root) matches Some(k) && d.sessions@[j].0.1 == k.1,
        under(path, d.sessions@[j].0.0),
    ensures
        exists|i: int|
            0 <= i < d.sessions@.len() && (#[trigger] d.sessions@[i]).1 == h && d.sessions@[i].0.1
                == d.sessions@[j].0.1 && under(path, d.sessions@[i].0.0) && comps(
                d.sessions@[j].0.0,
            ).len() <= comps(d.sessions@[i].0.0).len(),
{
    let k = session_of(d.languages.languages@, path, root)->0;
    let i = choose|i: int| #[trigger]
        crate::sessions::serves_best(d.sessions@, path, k.1, i) && d.sessions@[i].1 == h;
    assert(crate::sessions::serves(d.sessions@, path, k.1, j));
    assert(d.sessions@[i].1 == h);
}

/// Work on a file takes the session from another file exactly if both are of one session and the other
/// has a server.
pub proof fn work_borrows_the_session_of_another_file(
    d: Daemon,
    focused: Seq<char>,
    focused_root: Seq<char>,
    target: Seq<char>,
    target_root: Seq<char>,
)
    ensures
        !borrows(d, focused, focused_root, focused, target_root),
        borrows(d, focused, focused_root, target, target_root) <==> focused != target && server_of(
            d.languages.languages@,
            d.languages.servers@,
            focused,
        ) is Some && session_of(d.languages.languages@, focused, focused_root) == session_of(
            d.languages.languages@,
            target,
            target_root,
        ),
{
}

/// A session that turns to a file looks at that file and no other; the diagnostics of the file that it
/// looked at before are dropped, and of no other.
pub proof fn turning_drops_the_former_file(
    before: Daemon,
    after: Daemon,
    path: Seq<char>,
    root: Seq<char>,
    other: Seq<char>,
)
    requires
        before.wf(),
        after.languages == before.languages,
        session_of(before.languages.languages@, path, root) is Some,
        refocused(
            before.analysis_focus@,
            after.analysis_focus@,
            session_of(before.languages.languages@, path, root),
            path,
        ),
        after.diagnostics@ == after_focus(
            before.diagnostics@,
            before.analysis_focus@,
            session_of(before.languages.languages@, path, root),
            path,
        ),
    ensures
        focused_on(after, path, root),
        ({
            let k = session_of(before.languages.languages@, path, root)->0;
            let former = value_of(before.analysis_focus@, k);
            if former is Some && former->0@ == other && other != path {
                !has_key(after.diagnostics@, other)
            } else {
                value_of(after.diagnostics@, other) == value_of(before.diagnostics@, other)
            }
        }),
{
    let k = session_of(before.languages.languages@, path, root)->0;
    let former = value_of(before.analysis_focus@, k);
    if former is Some {
        without_laws(before.diagnostics@, former->0@);
    }
}

/// Diagnostics and hints are shown of the file that its session looks at, as they were kept, and of no
/// other.
pub proof fn what_is_kept_of_the_focus_is_shown(d: Daemon, path: Seq<char>, root: Seq<char>)
    ensures
        focused_on(d, path, root) <==> session_of(d.languages.languages@, path, root) is Some
            && value_of(
            d.analysis_focus@,
            session_of(d.languages.languages@, path, root)->0,
        ) is Some && value_of(
            d.analysis_focus@,
            session_of(d.languages.languages@, path, root)->0,
        )->0@ == path,
        focused_on(d, path, root) && value_of(d.diagnostics@, path) is Some ==> shown_diagnostics(
            d,
            path,
            root,
        ) == value_of(d.diagnostics@, path)->0@,
        focused_on(d, path, root) && value_of(d.hints@, path) is Some ==> shown_hints(d, path, root)
            == value_of(d.hints@, path)->0.hints@,
        !focused_on(d, path, root) || value_of(d.diagnostics@, path) is None ==> shown_diagnostics(
            d,
            path,
            root,
        ).len() == 0,
        !focused_on(d, path, root) || value_of(d.hints@, path) is None ==> shown_hints(
            d,
            path,
            root,
        ).len() == 0,
{
}

/// What was kept of files whose sessions have died is forgotten, of all of them, and of no others.
pub proof fn the_dead_are_forgotten<V>(t: Seq<(Seq<char>, V)>, keys: Seq<String>, o: Seq<char>)
    requires
        keys_differ(t),
    ensures
        keys_differ(without_all(t, keys)),
        (exists|i: int| 0 <= i < keys.len() && (#[trigger] keys[i])@ == o) ==> !has_key(
            without_all(t, keys),
            o,
        ),
        (forall|i: int| 0 <= i < keys.len() ==> (#[trigger] keys[i])@ != o) ==> value_of(
            without_all(t, keys),
            o,
        ) == value_of(t, o),
    decreases keys.len(),
{
    if keys.len() > 0 {
        let rest = keys.drop_last();
        the_dead_are_forgotten(t, rest, o);
        without_laws(without_all(t, rest), keys.last()@);
        assert(keys[keys.len() - 1] == keys.last());
        if exists|i: int| 0 <= i < keys.len() && (#[trigger] keys[i])@ == o {
            let i = choose|i: int| 0 <= i < keys.len() && (#[trigger] keys[i])@ == o;
            if keys.last()@ != o {
                assert(rest[i]@ == o);
                let all = without_all(t, keys);
                if has_key(all, o) {
                    assert(value_of(all, o) is Some);
                    assert(value_of(without_all(t, rest), o) is Some);
                }
            }
        }
        if forall|i: int| 0 <= i < keys.len() ==> (#[trigger] keys[i])@ != o {
            assert forall|i: int| 0 <= i < rest.len() implies (#[trigger] rest[i])@ != o by {
                assert(keys[i]@ != o);
            }
        }
    }
}

/// A file is among the dead exactly if its session is.
pub proof fn files_of_dead_sessions(
    files: Seq<FileAt>,
    hs: Seq<Option<u64>>,
    dead: Seq<u64>,
    n: int,
    p: Seq<char>,
)
    requires
        0 <= n <= files.len(),
        n <= hs.len(),
    ensures
        with_dead(files, hs, dead, n).contains(p) <==> exists|i: int|
            0 <= i < n && (#[trigger] files[i]).path@ == p && hs[i] is Some && dead.contains(
                hs[i]->0,
            ),
    decreases n,
{
    if n > 0 {
        files_of_dead_sessions(files, hs, dead, n - 1, p);
        let all = with_dead(files, hs, dead, n);
        let before = with_dead(files, hs, dead, n - 1);
        let takes = hs[n - 1] is Some && dead.contains(hs[n - 1]->0);
        if before.contains(p) {
            let i = before.index_of(p);
            assert(all[i] == p);
        }
        if takes && files[n - 1].path@ == p {
            assert(all[all.len() - 1] == p);
        }
    }
}

/// Errands go from stage to stage in order: a session first, then the file is shown, then the server is
/// asked whether it offers what is wanted, if that is in question, and only then for it. A failure ends
/// the errand with its reason, which is kept while the session is turned back.
pub proof fn errands_go_in_order(
    d: Daemon,
    e: Errand,
    o: Outcome,
    focused_root: Seq<char>,
    to: Stage,
)
    requires
        goes_on(d, e, o, focused_root, to),
    ensures
        e.stage is Start ==> match o {
            Outcome::Started(Ok(s)) => to == (Stage::Show { session: s }),
            Outcome::Started(Err(m)) => to == (Stage::Over {
                failure: Some(ErrandFail::NotStarted(m)),
            }),
            _ => false,
        },
        e.stage matches Stage::Show { session } ==> if provider_of(e.want) is Some {
            to == (Stage::Probe { session })
        } else {
            to matches Stage::Ask { session: s, .. } && s == session
        },
        e.stage matches Stage::Probe { session } ==> match o {
            Outcome::Offers(true) => to matches Stage::Ask { session: s, .. } && s == session,
            Outcome::Offers(false) => match to {
                Stage::Back { session: s, failure, .. } => s == session && failure == Some(
                    ErrandFail::Lacking,
                ),
                Stage::Over { failure } => failure == Some(ErrandFail::Lacking),
                _ => false,
            },
            _ => false,
        },
        e.stage matches Stage::Ask { session, .. } ==> match o {
            Outcome::Replied(failed) => {
                let kept = match to {
                    Stage::Back { failure, .. } => failure,
                    Stage::Over { failure } => failure,
                    _ => None,
                };
                &&& to is Back || to is Over
                &&& failed is None ==> kept is None
                &&& failed matches Some(m) ==> kept == Some(ErrandFail::Failed(m))
            },
            _ => false,
        },
        e.stage matches Stage::Back { failure, .. } ==> to == (Stage::Over { failure }),
        !(e.stage is Over),
        e.focused is None ==> !(to is Back),
{
}

/// An errand that has moved no session turns none back.
pub proof fn sessions_that_stayed_are_left_alone(
    d: Daemon,
    e: Errand,
    o: Outcome,
    focused_root: Seq<char>,
    to: Stage,
)
    requires
        goes_on(d, e, o, focused_root, to),
        e.stage matches Stage::Ask { back, .. } && !back,
        !is_wide(e.want),
    ensures
        to is Over,
{
}

/// What a server may lack, and which requests show it the whole workspace.
pub proof fn requests_need_capabilities(w: Want)
    ensures
        provider_of(w) is None <==> w == Want::Hints || w == Want::BaseCheck,
        w == Want::PeekAt ==> provider_of(w) == Some("definitionProvider"@),
        w == Want::Outline || w == Want::SymbolRange ==> provider_of(w) == Some(
            "documentSymbolProvider"@,
        ),
        w == Want::Hover ==> provider_of(w) == Some("hoverProvider"@),
        w == Want::SymbolSearch ==> provider_of(w) == Some("workspaceSymbolProvider"@),
        w == Want::Check ==> provider_of(w) == Some("diagnosticProvider"@),
        is_wide(w) <==> w == Want::References || w == Want::Rename,
        w == Want::Outline ==> feature_of(w) == "outline"@,
        w == Want::Hover ==> feature_of(w) == "hover"@,
        w == Want::References ==> feature_of(w) == "references"@,
        w == Want::Rename ==> feature_of(w) == "rename"@,
        w == Want::Check ==> feature_of(w) == "check"@,
        w == Want::SymbolRange ==> feature_of(w) == "symbol range"@,
        w == Want::SymbolSearch ==> feature_of(w) == "symbol search"@,
        w == Want::PeekAt ==> feature_of(w) == "peek"@,
{
}

/// Diagnostics have settled once as many came twice running, or none for long enough; that none came
/// is otherwise no sign. After 120 rounds at the latest the asking ends.
pub proof fn diagnostics_settle(prev: Option<usize>, n: int, round: u32, empty: u32, s: Settling)
    requires
        s.round < 120,
    ensures
        n > 0 ==> (has_settled(prev, n, round, empty) <==> prev is Some && prev->0 == n),
        n == 0 ==> (has_settled(prev, n, round, empty) <==> round >= empty),
        s.round < 119 ==> next_round(s, prev) == Some(
            Settling { round: (s.round + 1) as u32, prev },
        ),
        s.round == 119 ==> next_round(s, prev) is None,
{
}

/// A scan of a workspace takes the regular files with the extension, up to 400 of them and 64 MiB, and
/// enters every directory but those that tools fill.
pub proof fn scan_takes_what_people_wrote(
    found: nat,
    bytes: u64,
    path: Seq<char>,
    look: EntryLook,
    ext: Seq<char>,
)
    ensures
        ({
            let full = found >= 400 || bytes >= 67_108_864;
            let step = scan_step(found, bytes, path, look, ext);
            &&& full <==> step == ScanStep::Stop
            &&& step == ScanStep::Take <==> !full && !look.is_dir && extension_of(path) == Some(ext)
                && look.file_len is Some && bytes + look.file_len->0 <= 67_108_864
            &&& step == ScanStep::Enter <==> !full && look.is_dir && (comps(path).len() == 0
                || !is_made(comps(path).last()))
        }),
{
}

/// The directories that tools fill.
pub proof fn tools_fill_some_directories(name: Seq<char>)
    ensures
        is_made(name) <==> name == "target"@ || name == ".git"@ || name == "node_modules"@ || name
            == "vendor"@ || name == "build"@ || name == "dist"@,
{
}

/// Which requests are answered without the shared state, each by its own kind of answer.
pub proof fn requests_have_their_answers(c: Command)
    ensures
        ({
            let r = route_of(Request::Command(c));
            &&& r == Route::InlayHints <==> c is GetInlayHints
            &&& r == Route::PeekDefinition <==> c is PeekDefinition
            &&& r == Route::PeekDefinitionAt <==> c is PeekDefinitionAt
            &&& r == Route::Rename <==> c is Rename
            &&& r == Route::References <==> c is References
            &&& r == Route::Outline <==> c is Outline
            &&& r == Route::OutlineRecursive <==> c is OutlineRecursive
            &&& r == Route::ReadPath <==> c is ReadPath
            &&& r == Route::EnclosingSymbol <==> c is EnclosingSymbol
            &&& r == Route::HoverAt <==> c is HoverAt
            &&& r == Route::WorkspaceSymbol <==> c is WorkspaceSymbol
            &&& r == Route::CheckDiagnostics <==> c is CheckDiagnostics
            &&& r == Route::ServerInfo <==> c is GetServerInfo
            &&& r == Route::ReviewComments <==> c is ListReviewComments
        }),
        route_of(Request::Invalid) == Route::Process,
{
}

/// Highlights that are given without a run are of this very text, as far as its checksum tells, and of
/// this very window; else the bytes and the first character of the window's lines are handed out.
pub proof fn highlights_are_of_the_window(
    x: SyntaxCache,
    text: Seq<char>,
    first_line: usize,
    height: usize,
    r: Highlights,
)
    requires
        seen(x, text, first_line, height, r),
    ensures
        r matches Highlights::Ready(v) ==> x.window is Some && x.window->0.text_checksum == checksum(
            text,
        ) && x.window->0.first_line == first_line && x.window->0.height == height && v@
            == x.window->0.ranges@,
        r matches Highlights::Run(job) ==> {
            &&& job.start == line_byte(vstd::utf8::encode_utf8(text), first_line as int)
            &&& job.end == line_byte(vstd::utf8::encode_utf8(text), first_line + height)
            &&& job.first_char == char_line_from(text, 0, first_line as int)
        },
{
}

/// What is kept of documents that are open stays, in order; of the others nothing does.
pub proof fn trees_of_open_documents_stay(v: Seq<SyntaxCache>, e: EditorView, doc: u64, i: int)
    requires
        0 <= i < v.len(),
    ensures
        e.has_doc(v[i].doc) ==> live(v, e).contains(v[i]),
        forall|j: int| 0 <= j < live(v, e).len() ==> e.has_doc((#[trigger] live(v, e)[j]).doc),
        v[i].doc == doc && (forall|j: int| 0 <= j < i ==> (#[trigger] v[j]).doc != doc) ==> row_from(
            v,
            doc,
            0,
        ) == i,
        (forall|j: int| 0 <= j < v.len() ==> (#[trigger] v[j]).doc != doc) ==> row_from(v, doc, 0)
            == v.len(),
{
    let open = |x: SyntaxCache| e.has_doc(x.doc);
    if e.has_doc(v[i].doc) {
        assert(v.contains(v[i]));
        assert(open(v[i]));
        v.lemma_filter_contains(open, i);
    }
    assert forall|j: int| 0 <= j < live(v, e).len() implies e.has_doc(
        (#[trigger] live(v, e)[j]).doc,
    ) by {
        v.lemma_filter_contains_rev(open, live(v, e)[j]);
    }
    if v[i].doc == doc && (forall|j: int| 0 <= j < i ==> (#[trigger] v[j]).doc != doc) {
        row_is_at(v, doc, 0, i);
    }
    if forall|j: int| 0 <= j < v.len() ==> (#[trigger] v[j]).doc != doc {
        row_is_at(v, doc, 0, v.len() as int);
    }
}

proof fn row_is_at(v: Seq<SyntaxCache>, doc: u64, i: int, k: int)
    requires
        0 <= i <= k <= v.len(),
        k < v.len() ==> v[k].doc == doc,
        forall|j: int| i <= j < k ==> (#[trigger] v[j]).doc != doc,
    ensures
        row_from(v, doc, i) == k,
    decreases k - i,
{
    if i < k {
        row_is_at(v, doc, i + 1, k);
    }
}

/// What is kept of 64 files stays: as long as there are fewer, a new one drives no other out.
pub proof fn caches_hold_64_files<V>(t: Seq<(Seq<char>, V)>, k: Seq<char>, v: V, o: Seq<char>)
    requires
        keys_differ(t),
        t.len() < 64,
    ensures
        value_of(newest(put(t, k, v), MAX_HINT_CACHE as int), o) == value_of(put(t, k, v), o),
        value_of(newest(put(t, k, v), MAX_BASE_DIAG_CACHE as int), o) == value_of(put(t, k, v), o),
        newest(put(t, k, v), MAX_HINT_CACHE as int).len() <= 64,
        newest(put(t, k, v), MAX_BASE_DIAG_CACHE as int).len() <= 64,
{
    put_laws(t, k, v);
}

/// The records hold the last 128 changes and the last 100 attempts.
pub proof fn records_hold_what_came_last(
    l: LogView,
    source: EventSource,
    kind: EventKind,
    range: Option<Range>,
    text: Option<String>,
    record: ActivityRecord,
)
    requires
        l.ok(),
        l.room(1),
    ensures
        l.events.len() <= 128,
        l.activity.len() <= 100,
        l.events.len() < 128 ==> l.event(source, kind, range, text).events.drop_last() == l.events,
        l.events.len() == 128 ==> l.event(source, kind, range, text).events.drop_last()
            == l.events.skip(1),
        l.activity.len() < 100 ==> l.attempt(record).activity.drop_last() == l.activity,
        l.activity.len() == 100 ==> l.attempt(record).activity.drop_last() == l.activity.skip(1),
        l.bump().generation == l.generation + 1,
        l.bump().events == l.events,
        l.bump().activity == l.activity,
{
    crate::log::event_laws(l, source, kind, range, text);
    crate::log::attempt_laws(l, record);
}

/// An insertion is too large if the document would then have more than 16 MiB.
pub proof fn documents_hold_16_mib(e: EditorView, text: String)
    ensures
        too_large(e, Command::Insert { text }) <==> vstd::utf8::encode_utf8(e.current().text).len()
            + vstd::utf8::encode_utf8(text@).len() > 16_777_216,
        !too_large(e, Command::DeleteBackward),
{
}

/// A request line has a MiB at most, four clients are served at a time, and a screen that was not
/// measured has 24 lines.
pub proof fn connections_have_limits()
    ensures
        MAX_CMD_LINE == 1_048_576,
        MAX_CONNECTIONS == 4,
        DEFAULT_VIEWPORT == 24,
{
}

/// Work on a file is listed once by kind: it is there once it is listed, nothing that was listed goes,
/// and no other file's list changes. It counts as a change only if it was not listed before.
pub proof fn work_is_listed_once(
    before: Seq<(Seq<char>, Vec<Activity>)>,
    after: Seq<(Seq<char>, Vec<Activity>)>,
    path: Seq<char>,
    kind: ActivityKind,
    label: Seq<char>,
    other: Seq<char>,
    l: LogView,
)
    requires
        work_listed(before, after, path, kind, label),
        l.room(1),
    ensures
        has_kind(work_on(after, path), kind),
        forall|i: int|
            0 <= i < work_on(before, path).len() ==> #[trigger] work_on(after, path)[i] == work_on(
                before,
                path,
            )[i],
        work_on(after, path).len() == work_on(before, path).len() + if has_kind(
            work_on(before, path),
            kind,
        ) {
            0int
        } else {
            1
        },
        other != path ==> work_on(after, other) == work_on(before, other),
        listed_log(l, before, path, kind).generation == l.generation + if has_kind(
            work_on(before, path),
            kind,
        ) {
            0int
        } else {
            1
        },
        listed_log(l, before, path, kind).events == l.events,
{
    let (b, a) = (work_on(before, path), work_on(after, path));
    if !has_kind(b, kind) {
        assert(a[a.len() - 1].kind == kind);
        assert forall|i: int| 0 <= i < b.len() implies #[trigger] a[i] == b[i] by {
            assert(a.drop_last()[i] == b[i]);
        }
    }
}

/// Work that is done is listed no longer, and all other work still is. It counts as a change only if it
/// was listed.
pub proof fn work_that_is_done_is_off_the_list(
    before: Seq<(Seq<char>, Vec<Activity>)>,
    after: Seq<(Seq<char>, Vec<Activity>)>,
    path: Seq<char>,
    kind: ActivityKind,
    other: Seq<char>,
    a: Activity,
    l: LogView,
)
    requires
        work_unlisted(before, after, path, kind),
        l.room(1),
    ensures
        !has_kind(work_on(after, path), kind),
        a.kind != kind ==> (work_on(after, path).contains(a) <==> work_on(before, path).contains(a)),
        other != path ==> work_on(after, other) == work_on(before, other),
        unlisted_log(l, before, path, kind).generation == l.generation + if has_kind(
            work_on(before, path),
            kind,
        ) {
            1int
        } else {
            0
        },
        unlisted_log(l, before, path, kind).events == l.events,
{
    let b = work_on(before, path);
    let f = |x: Activity| x.kind != kind;
    if has_kind(b, kind) {
        let now = b.filter(f);
        assert forall|i: int| 0 <= i < now.len() implies (#[trigger] now[i]).kind != kind by {
            b.lemma_filter_contains_rev(f, now[i]);
        }
        if a.kind != kind && b.contains(a) {
            let i = b.index_of(a);
            assert(f(b[i]));
            b.lemma_filter_contains(f, i);
        }
        if now.contains(a) {
            b.lemma_filter_contains_rev(f, a);
        }
    }
}

/// The work on a file is what its row lists; a file without a row has none.
pub proof fn work_is_what_the_row_lists(t: Seq<(Seq<char>, Vec<Activity>)>, path: Seq<char>)
    ensures
        value_of(t, path) is Some ==> work_on(t, path) == value_of(t, path)->0@,
        value_of(t, path) is None ==> work_on(t, path).len() == 0,
{
}

/// What a server gave for a file that was opened is kept as it came, unless the session has turned to
/// another file; then nothing changes.
pub proof fn fresh_diagnostics_are_kept(
    before: Daemon,
    after: Daemon,
    path: Seq<char>,
    root: Seq<char>,
    text: Seq<char>,
    diags: Vec<Diagnostic>,
    hints: Option<Vec<InlayHint>>,
    other: Seq<char>,
)
    requires
        before.wf(),
        settled_with(before, after, path, root, text, diags, hints),
    ensures
        !focused_on(before, path, root) ==> after == before,
        focused_on(before, path, root) ==> {
            &&& value_of(after.diagnostics@, path) == Some(diags)
            &&& other != path ==> value_of(after.diagnostics@, other) == value_of(
                before.diagnostics@,
                other,
            )
            &&& hints matches Some(h) ==> (value_of(after.hints@, path) matches Some(c) && c.hints == h
                && c.text_checksum == checksum(text))
            &&& hints is None ==> after.hints@ == before.hints@
            &&& after.log == before.log
            &&& after.editor == before.editor
        },
{
    if focused_on(before, path, root) {
        put_laws(before.diagnostics@, path, diags);
        if hints is Some {
            cached_last(
                before.hints@,
                path,
                HintCache { text_checksum: checksum(text), hints: hints->0 },
                MAX_HINT_CACHE as int,
            );
        }
    }
}

/// A session is turned back to the file that it looked at, with the text that the file has now, as long
/// as the file is open and the session is still to look at it. An errand has moved the session if it
/// was about that very file, or took the session from it.
pub proof fn sessions_are_turned_back_with_the_present_text(
    d: Daemon,
    e: Errand,
    focused_root: Seq<char>,
)
    ensures
        e.focused is None ==> text_back(d, e, focused_root) is None && !has_moved(d, e, focused_root)
            && !takes_away(d, e, focused_root),
        e.focused matches Some(f) ==> {
            &&& focused_on(d, f@, focused_root) && d.editor@.has_path(f@) ==> text_back(
                d,
                e,
                focused_root,
            ) == Some(d.editor@.doc_at(f@).text)
            &&& !(focused_on(d, f@, focused_root) && d.editor@.has_path(f@)) ==> text_back(
                d,
                e,
                focused_root,
            ) is None
            &&& f@ == e.path@ ==> has_moved(d, e, focused_root) && !takes_away(d, e, focused_root)
            &&& takes_away(d, e, focused_root) ==> has_moved(d, e, focused_root)
            &&& has_moved(d, e, focused_root) && f@ != e.path@ ==> takes_away(d, e, focused_root)
        },
{
}

/// What a client is told of a request that its file's server could not be asked.
pub proof fn failures_are_told(feature: Seq<char>, path: Seq<char>, provider: Seq<char>, why: String)
    ensures
        borrow_notice(feature, path, BorrowFail::CannotOpen) == "cannot open "@ + path,
        borrow_notice(feature, path, BorrowFail::NoServer(why)) == feature + " not supported for "@
            + why@ + " (no LSP server configured)"@,
        borrow_notice(feature, path, BorrowFail::SpawnFailed(why)) == "LSP error: "@ + why@,
        lacking_notice(feature, path, provider) == feature + " not supported for "@ + path
            + " (LSP server が "@ + provider + " を advertise していません)"@,
{
}

/// A failed errand is told with what was wanted of it: the server's own words if it was asked, and else
/// that it could not be started or lacks what is needed.
pub proof fn failed_errands_are_told(e: Errand, why: String)
    ensures
        fail_notice(e, ErrandFail::Failed(why)) == why@,
        fail_notice(e, ErrandFail::NotStarted(why)) == "LSP error: "@ + why@,
        provider_of(e.want) matches Some(p) ==> fail_notice(e, ErrandFail::Lacking) == lacking_notice(
            feature_of(e.want),
            e.path@,
            p,
        ),
{
}

/// An answer names its file, the state that it was made from, and what was found.
pub proof fn answers_say_what_was_found(
    m: ServerMessage,
    path: Seq<char>,
    generation: u64,
    symbols: Seq<OutlineSymbol>,
    hints: Seq<InlayHint>,
    text: Seq<char>,
    error: Option<Seq<char>>,
    truncated: bool,
    hit: Option<OutlineSymbol>,
)
    ensures
        is_outline(m, path, generation, symbols, error, truncated) ==> (m matches ServerMessage::Outline {
            path: p,
            generation: g,
            symbols: s,
            error: e,
            truncated: t,
        } && p@ == path && g == generation && trees(s@) == trees(symbols) && opt_view(e) == error && t
            == truncated),
        is_hints(m, path, generation, hints) ==> (m matches ServerMessage::Hints {
            path: p,
            generation: g,
            hints: h,
        } && p@ == path && g == generation && h@ == hints),
        is_hover(m, path, generation, text, error) ==> (m matches ServerMessage::Hover {
            path: p,
            generation: g,
            text: t,
            error: e,
        } && p@ == path && g == generation && t@ == text && opt_view(e) == error),
        is_enclosing(m, path, hit, error) ==> (m matches ServerMessage::EnclosingSymbol {
            path: p,
            name,
            kind,
            range,
            selection_range,
            found,
            error: e,
        } && p@ == path && opt_view(e) == error && found == hit is Some && (hit matches Some(h) ==> name@
            == h.name@ && kind == h.kind && range == h.range && selection_range
            == h.selection_range)),
{
    if m is Outline && is_outline(m, path, generation, symbols, error, truncated) {
        let s = m->Outline_symbols;
        assert forall|i: int| 0 <= i < symbols.len() implies tree(#[trigger] symbols[i]) == tree(
            s@[i],
        ) by {
            same_symbol_same_tree(symbols[i], s@[i]);
        }
        assert(trees(s@) =~= trees(symbols));
    }
}

/// A symbol's tree has its name, its kind, its ranges and the trees of all that it holds.
pub proof fn tree_is_the_symbol(s: OutlineSymbol, i: int)
    ensures
        tree(s).name == s.name@,
        tree(s).kind == s.kind,
        tree(s).range == s.range,
        tree(s).selection_range == s.selection_range,
        tree(s).children.len() == s.children@.len(),
        0 <= i < s.children@.len() ==> tree(s).children[i] == tree(s.children@[i]),
        trees(s.children@) == tree(s).children,
{
    assert(trees(s.children@) =~= tree(s).children);
}

/// A question is put as the walk asks it.
pub proof fn questions_are_put_as_asked(q: Question, a: Asked)
    requires
        is_asked(q, a),
    ensures
        q matches Question::Where { owner, at } ==> a == (Asked::Where { owner: owner@, at }),
        q matches Question::Inside { path } ==> a == (Asked::Inside { path: path@ }),
{
}

/// A new daemon has counted nothing.
pub proof fn counting_starts_at_nothing()
    ensures
        no_counts().edits_total == 0,
        no_counts().edits_rejected_checksum == 0,
        no_counts().edits_rejected_expected_text == 0,
        no_counts().edits_noop == 0,
        no_counts().get_state_total == 0,
        no_counts().save_total == 0,
        no_counts().wait_total == 0,
        no_counts().outline_total == 0,
        no_counts().read_total == 0,
{
}

/// The tree of a document that has changed is made from the one before, moved by what has changed, and
/// kept with the text that it is of.
pub proof fn trees_follow_the_text(old_row: SyntaxCache, x: SyntaxCache, text: Seq<char>)
    requires
        updated_row(old_row, x, text),
    ensures
        x.doc == old_row.doc,
        x.old_text@ == text,
        x.text_checksum == checksum(text),
        x.language == old_row.language,
        x.query == old_row.query,
        exists|e: InputEdit| #[trigger]
            is_diff(old_row.old_text@, text, e) && is_tree(
                x.tree,
                x.language,
                text,
                Some(moved_tree(old_row.tree, e)),
            ),
{
}

/// The tree of a document that is seen for the first time is made from nothing, with its grammar's
/// language and query.
pub proof fn first_trees_are_made_from_nothing(x: SyntaxCache, doc: u64, text: Seq<char>, g: Grammar)
    requires
        new_row(x, doc, text, g),
    ensures
        x.doc == doc,
        x.old_text@ == text,
        x.text_checksum == checksum(text),
        x.language == g.language,
        compiled(g.language, g.highlights@) == Some(x.query),
        is_tree(x.tree, g.language, text, None),
        x.window is None,
{
}

/// A snapshot of a file shows the diagnostics, hints, work and base diagnostics of that file, and one of
/// a document without a path none.
pub proof fn snapshot_shows_what_servers_said(
    d: Daemon,
    view_id: u64,
    root: Seq<char>,
    highlights: Seq<HighlightRange>,
    status: Option<Seq<char>>,
    s: StateSnapshot,
)
    requires
        shows(d, view_id, root, highlights, status, s),
    ensures
        match d.editor@.doc(d.editor@.pane(view_id).doc).path {
            Some(p) => {
                &&& s.diagnostics@ == shown_diagnostics(d, p, root)
                &&& s.inlay_hints@ == shown_hints(d, p, root)
                &&& s.activities@ == work_on(d.activities@, p)
                &&& base_views(s.base_diagnostics@) == cached_only(
                    counterparts(d.base_roots@, p),
                    d.base_diagnostics@,
                )
            },
            None => s.diagnostics@.len() == 0 && s.inlay_hints@.len() == 0 && s.activities@.len() == 0
                && s.base_diagnostics@.len() == 0,
        },
{
}

/// A connection is known by the name that it gave itself.
pub proof fn clients_are_known_by_name(names: Map<u64, String>, conn_id: u64)
    ensures
        names.contains_key(conn_id) ==> actor_name(names, conn_id) == names[conn_id]@,
        !names.contains_key(conn_id) ==> actor_name(names, conn_id) == "unknown"@,
{
}

/// What the record says of a rename names the old and the new name, the file, and how many files and
/// edits there were.
pub proof fn renames_are_put_on_record(
    path: Seq<char>,
    old_name: Seq<char>,
    new_name: Seq<char>,
    files: usize,
    edits: usize,
)
    ensures
        rename_detail(path, old_name, new_name, files, edits) == old_name + " → "@ + new_name
            + " in "@ + path + ": "@ + decimal_digits(files as nat) + " files, "@ + decimal_digits(
            edits as nat,
        ) + " edits"@,
{
}

/// The fetching of diagnostics is listed for a file with a server, once, and for no other.
pub proof fn fetching_is_listed_for_files_with_servers(
    l: LogView,
    work: Seq<(Seq<char>, Vec<Activity>)>,
    path: Seq<char>,
    supported: bool,
)
    requires
        l.room(1),
    ensures
        settling(l, work, path, supported).generation == l.generation + if supported && !has_kind(
            work_on(work, path),
            ActivityKind::DiagnosticsSettle,
        ) {
            1int
        } else {
            0
        },
        settling(l, work, path, supported).events == l.events,
        settling(l, work, path, supported).activity == l.activity,
{
}

/// A failed request carries its reason and no result.
pub proof fn failures_carry_no_result(m: ServerMessage, path: Seq<char>, error: Seq<char>)
    ensures
        is_outline_error(m, path, error) ==> (m matches ServerMessage::Outline {
            path: p,
            generation,
            symbols,
            error: e,
            truncated,
        } && p@ == path && generation == 0 && symbols@.len() == 0 && e is Some && e->0@ == error
            && !truncated),
        is_rename_error(m, error) ==> (m matches ServerMessage::RenameResult {
            generation,
            files,
            edits,
            changed,
            error: e,
        } && generation == 0 && files == 0 && edits == 0 && changed@.len() == 0 && e is Some && e->0@
            == error),
{
}

} // verus!
