//! Files: how they are opened, reread, renamed in and compared with base trees.
use vstd::prelude::*;
use vstd::utf8::*;

use crate::base::{
    cached_only, counterpart, counterparts, first_missing, first_root, in_base, read_only_notice,
    root_commits, same_base, short_commit, text_le,
};
use crate::clients::session_closed;
use crate::daemon::{same_anchor, BaseRootReg, Daemon, DiskBaseline};
use crate::editor::{
    doc_from, doc_from_bounds, doc_from_same, front_ok, mode_keeps_ok, opt_view, pane_from_bounds,
    path_from, path_from_bounds, with_doc_ok, DocView, EditorView,
};
use crate::log::{event_laws, LogView};
use crate::open::{
    doc_at_has_id, followed_in, opened, shown_in, wrong_after, wrong_before, FileLook, Place,
};
use crate::opening::{with_disk_text, DiskText};
use crate::paths::{comps, normal, text_keeps_components, under};
use crate::rename::{
    all_known, all_saved, edit_count, edited, file_paths, files_of, open_count, recorded_one,
    rename_fault, renamed_one, saves_logged, with_edits, RenameFact, RenameFile, RenameWrite,
};
use crate::edits::EditFacts;
use crate::review::{is_resolved, line_now, DiskFact};
use crate::table::{has_key, keys_differ, put_laws, value_of};
use crate::text::{byte_of, bytes_split};
use crate::types::{
    Diagnostic, EventKind, EventSource, Mode, Range, ReviewComment, ReviewCommentView, ReviewSide,
};
use crate::watch::{
    changed_files, focused_file, gone_log, presence, reread_all, Reread, WatchPlan, WatchState,
};

verus! {

/// A file is read again exactly if the disk has it and has another version of it than the known one.
pub proof fn changed_files_are_read_again(
    baselines: Seq<(Seq<char>, DiskBaseline)>,
    stats: Seq<Option<DiskBaseline>>,
)
    requires
        keys_differ(baselines),
    ensures
        forall|k: int|
            0 <= k < baselines.len() ==> (changed_files(baselines, stats).contains(
                (#[trigger] baselines[k]).0,
            ) <==> k < stats.len() && stats[k] is Some && stats[k]->0 != baselines[k].1),
        forall|p: Seq<char>| #[trigger]
            changed_files(baselines, stats).contains(p) ==> has_key(baselines, p),
        changed_files(baselines, stats).no_duplicates(),
    decreases baselines.len(),
{
    let all = changed_files(baselines, stats);
    if baselines.len() > 0 {
        let front = baselines.drop_last();
        let before = changed_files(front, stats);
        let k = baselines.len() - 1;
        let last = baselines[k].0;
        changed_files_are_read_again(front, stats);
        if before.contains(last) {
            assert(has_key(front, last));
            let i = crate::table::row_of(front, last);
            assert(crate::table::key_at(front, last, i));
            assert(baselines[i].0 != baselines[k].0);
        }
        let differs = k < stats.len() && stats[k] is Some && stats[k]->0 != baselines[k].1;
        assert forall|p: Seq<char>| #[trigger] all.contains(p) <==> before.contains(p) || (differs
            && p == last) by {
            if before.contains(p) {
                let i = before.index_of(p);
                assert(all[i] == p);
            }
            if differs && p == last {
                assert(all[all.len() - 1] == p);
            }
        }
        assert forall|j: int| 0 <= j < baselines.len() implies (all.contains(
            (#[trigger] baselines[j]).0,
        ) <==> j < stats.len() && stats[j] is Some && stats[j]->0 != baselines[j].1) by {
            if j < k {
                assert(front[j] == baselines[j]);
                assert(baselines[j].0 != baselines[k].0);
            }
        }
        assert forall|p: Seq<char>| #[trigger] all.contains(p) implies has_key(baselines, p) by {
            if before.contains(p) {
                let i = crate::table::row_of(front, p);
                assert(crate::table::key_at(front, p, i));
                assert(crate::table::key_at(baselines, p, i));
            } else {
                assert(crate::table::key_at(baselines, p, k));
            }
        }
    }
}

/// A file that has gone is noticed once: the focused document waits to be closed and it counts as a
/// change. It no longer waits once the file is there again.
pub proof fn gone_file_is_noticed_once(d: Daemon, plan: WatchPlan)
    requires
        d.wf(),
        d.log@.room(1),
    ensures
        ({
            let path = d.editor@.current().path;
            let first = plan.focused_deleted && d.deleted is None;
            &&& first && path is Some ==> presence(d, plan) == path && gone_log(d, plan).generation
                == d.log@.generation + 1 && gone_log(d, plan).events.last().kind
                == EventKind::ExternalChange && gone_log(d, plan).events.last().source
                == EventSource::External
            &&& !first ==> gone_log(d, plan) == d.log@
            &&& !first && plan.focused_reappeared ==> presence(d, plan) is None
            &&& !first && !plan.focused_reappeared ==> presence(d, plan) == opt_view(d.deleted)
        }),
{
    event_laws(d.log@, EventSource::External, EventKind::ExternalChange, None, None);
}

/// What the disk holds comes into the document at its path and no other. A file that is not open changes
/// nothing; one that is ends the insert session, whether its text is taken or not.
pub proof fn disk_text_comes_into_its_document(
    e: EditorView,
    owner: Option<u64>,
    path: Seq<char>,
    disk: DiskText,
)
    requires
        e.ok(),
    ensures
        ({
            let n = with_disk_text(e, owner, path, Some(disk));
            let id = e.doc_at(path).id;
            &&& n.panes == e.panes
            &&& n.documents.len() == e.documents.len()
            &&& !e.has_path(path) ==> n == e
            &&& e.has_path(path) && owner is Some ==> n.mode == Mode::Normal && !n.group_open
            &&& e.has_path(path) && owner is None ==> n.mode == e.mode && n.group_open
                == e.group_open
            &&& e.has_path(path) && disk.facts.reloaded ==> {
                &&& n.doc(id).text == disk.text@
                &&& !n.doc(id).dirty
                &&& n.doc(id).can_undo == disk.facts.can_undo
                &&& n.doc(id).can_redo == disk.facts.can_redo
            }
            &&& !disk.facts.reloaded ==> n.documents == e.documents
            &&& forall|i: int|
                0 <= i < e.documents.len() ==> (#[trigger] n.documents[i]).id == e.documents[i].id
                    && n.documents[i].path == e.documents[i].path
            &&& forall|i: int|
                0 <= i < e.documents.len() && (#[trigger] e.documents[i]).id != id
                    ==> n.documents[i] == e.documents[i]
        }),
        with_disk_text(e, owner, path, None) == e,
{
    if e.has_path(path) {
        let e1 = if owner is Some {
            session_closed(e, Mode::Normal)
        } else {
            e
        };
        mode_keeps_ok(e, e1);
        doc_at_has_id(e, path);
        let id = e.doc_at(path).id;
        assert(e1.doc_at(path) == e.doc_at(path));
        assert(e1.has_doc(id));
        doc_from_bounds(e.documents, id, 0);
        with_doc_ok(e1, id, disk.text@, false, disk.facts.can_undo, disk.facts.can_redo);
    }
}

/// Documents whose ids and paths stay are found as before.
proof fn found_as_before(a: EditorView, b: EditorView)
    requires
        a.documents.len() == b.documents.len(),
        forall|i: int|
            0 <= i < a.documents.len() ==> (#[trigger] b.documents[i]).id == a.documents[i].id
                && b.documents[i].path == a.documents[i].path,
    ensures
        forall|p: Seq<char>| #[trigger] b.has_path(p) == a.has_path(p),
        forall|p: Seq<char>|
            a.has_path(p) ==> (#[trigger] b.doc_at(p)).id == a.doc_at(p).id,
        forall|id: u64| #[trigger]
            doc_from(b.documents, id, 0) == doc_from(a.documents, id, 0),
{
    assert forall|p: Seq<char>| #[trigger] path_from(b.documents, p, 0) == path_from(
        a.documents,
        p,
        0,
    ) by {
        path_from_alike(a.documents, b.documents, p, 0);
    }
    assert forall|p: Seq<char>| #[trigger] b.has_path(p) == a.has_path(p) by {
        assert(path_from(b.documents, p, 0) == path_from(a.documents, p, 0));
    }
    assert forall|p: Seq<char>| a.has_path(p) implies (#[trigger] b.doc_at(p)).id == a.doc_at(p).id by {
        assert(path_from(b.documents, p, 0) == path_from(a.documents, p, 0));
        path_from_bounds(a.documents, p, 0);
    }
    assert forall|id: u64| #[trigger] doc_from(b.documents, id, 0) == doc_from(a.documents, id, 0) by {
        doc_from_same(b.documents, a.documents, id, 0);
    }
}

proof fn path_from_alike(a: Seq<DocView>, b: Seq<DocView>, p: Seq<char>, i: int)
    requires
        0 <= i,
        a.len() == b.len(),
        forall|j: int| 0 <= j < a.len() ==> (#[trigger] b[j]).path == a[j].path,
    ensures
        path_from(b, p, i) == path_from(a, p, i),
    decreases a.len() - i,
{
    if i < a.len() {
        assert(b[i].path == a[i].path);
        if a[i].path != Some(p) {
            path_from_alike(a, b, p, i + 1);
        }
    }
}

/// Whether a file that was read again replaces the text of an open document.
pub open spec fn comes_in(e: EditorView, one: Reread) -> bool {
    e.has_path(one.path@) && one.disk.facts.reloaded
}

/// However many files were read again, each open one whose text the engine took holds what was read of
/// it last, and is clean; every document of which nothing was read stays as it is; each reload is
/// recorded; and an insert session ends if any of them is open.
pub proof fn every_reread_file_comes_in(s: WatchState, contents: Seq<Reread>, i: int)
    requires
        s.editor.ok(),
        s.log.ok(),
        s.log.room(contents.len() as int),
    ensures
        ({
            let n = reread_all(s, contents);
            &&& n.editor.ok()
            &&& n.log.ok()
            &&& n.log.generation == s.log.generation + contents.filter(
                |c: Reread| comes_in(s.editor, c),
            ).len()
            &&& n.editor.panes == s.editor.panes
            &&& n.editor.focused == s.editor.focused
            &&& n.editor.documents.len() == s.editor.documents.len()
            &&& forall|k: int|
                0 <= k < s.editor.documents.len() ==> (#[trigger] n.editor.documents[k]).id
                    == s.editor.documents[k].id && n.editor.documents[k].path
                    == s.editor.documents[k].path
            &&& n.reloaded <==> s.reloaded || exists|j: int|
                0 <= j < contents.len() && comes_in(s.editor, #[trigger] contents[j])
            &&& 0 <= i < contents.len() && comes_in(s.editor, contents[i]) && (forall|j: int|
                i < j < contents.len() && comes_in(s.editor, #[trigger] contents[j])
                    ==> s.editor.doc_at(contents[j].path@).id != s.editor.doc_at(
                    contents[i].path@,
                ).id) ==> {
                let d = n.editor.doc(s.editor.doc_at(contents[i].path@).id);
                d.text == contents[i].disk.text@ && !d.dirty
            }
            &&& forall|k: int|
                0 <= k < s.editor.documents.len() && (forall|j: int|
                    0 <= j < contents.len() && comes_in(s.editor, #[trigger] contents[j])
                        ==> s.editor.doc_at(contents[j].path@).id != s.editor.documents[k].id)
                    ==> #[trigger] n.editor.documents[k] == s.editor.documents[k]
            &&& (forall|j: int|
                0 <= j < contents.len() ==> !s.editor.has_path((#[trigger] contents[j]).path@))
                ==> n == s
        }),
    decreases contents.len(),
{
    reveal(Seq::filter);
    let f = |c: Reread| comes_in(s.editor, c);
    if contents.len() > 0 {
        let rest = contents.drop_last();
        let one = contents.last();
        every_reread_file_comes_in(s, rest, i);
        let m = reread_all(s, rest);
        let n = reread_all(s, contents);
        found_as_before(s.editor, m.editor);
        disk_text_comes_into_its_document(m.editor, m.owner, one.path@, one.disk);
        found_as_before(s.editor, n.editor);
        if m.editor.has_path(one.path@) {
            doc_at_has_id(m.editor, one.path@);
            let id = m.editor.doc_at(one.path@).id;
            let e1 = if m.owner is Some {
                session_closed(m.editor, Mode::Normal)
            } else {
                m.editor
            };
            mode_keeps_ok(m.editor, e1);
            assert(e1.doc_at(one.path@) == m.editor.doc_at(one.path@));
            assert(e1.has_doc(id));
            with_doc_ok(e1, id, one.disk.text@, false, one.disk.facts.can_undo, one.disk.facts.can_redo);
        }
        assert(comes_in(m.editor, one) == comes_in(s.editor, one));
        rest.lemma_filter_len(f);
        event_laws(m.log, EventSource::External, EventKind::ExternalChange, None, None);
        assert(contents[contents.len() - 1] == one);
        assert forall|j: int| 0 <= j < rest.len() implies rest[j] == #[trigger] contents[j] by {}
        if n.reloaded && !s.reloaded {
            if m.reloaded {
                let j = choose|j: int| 0 <= j < rest.len() && comes_in(s.editor, #[trigger] rest[j]);
                assert(comes_in(s.editor, contents[j]));
            } else {
                assert(comes_in(s.editor, contents[contents.len() - 1]));
            }
        }
        if exists|j: int| 0 <= j < contents.len() && comes_in(s.editor, #[trigger] contents[j]) {
            let j = choose|j: int|
                0 <= j < contents.len() && comes_in(s.editor, #[trigger] contents[j]);
            if j < rest.len() {
                assert(comes_in(s.editor, rest[j]));
            }
        }
        if 0 <= i < contents.len() && comes_in(s.editor, contents[i]) && (forall|j: int|
            i < j < contents.len() && comes_in(s.editor, #[trigger] contents[j])
                ==> s.editor.doc_at(contents[j].path@).id != s.editor.doc_at(contents[i].path@).id) {
            let id = s.editor.doc_at(contents[i].path@).id;
            doc_at_has_id(s.editor, contents[i].path@);
            doc_from_bounds(s.editor.documents, id, 0);
            let at = doc_from(s.editor.documents, id, 0);
            assert(doc_from(n.editor.documents, id, 0) == at);
            assert(doc_from(m.editor.documents, id, 0) == at);
            if i < rest.len() {
                assert(comes_in(s.editor, rest[i]));
                assert forall|j: int|
                    i < j < rest.len() && comes_in(s.editor, #[trigger] rest[j]) implies s.editor.doc_at(
                    rest[j].path@,
                ).id != s.editor.doc_at(rest[i].path@).id by {
                    assert(comes_in(s.editor, contents[j]));
                }
                if comes_in(s.editor, one) {
                    assert(comes_in(s.editor, contents[contents.len() - 1]));
                    assert(m.editor.documents[at].id != m.editor.doc_at(one.path@).id);
                    assert(n.editor.documents[at] == m.editor.documents[at]);
                }
            }
        }
        assert forall|k: int|
            0 <= k < s.editor.documents.len() && (forall|j: int|
                0 <= j < contents.len() && comes_in(s.editor, #[trigger] contents[j])
                    ==> s.editor.doc_at(contents[j].path@).id != s.editor.documents[k].id)
            implies #[trigger] n.editor.documents[k] == s.editor.documents[k] by {
            assert forall|j: int| 0 <= j < rest.len() && comes_in(s.editor, #[trigger] rest[j])
                implies s.editor.doc_at(rest[j].path@).id != s.editor.documents[k].id by {
                assert(comes_in(s.editor, contents[j]));
            }
            assert(m.editor.documents[k] == s.editor.documents[k]);
            if comes_in(s.editor, one) {
                assert(comes_in(s.editor, contents[contents.len() - 1]));
                assert(m.editor.documents[k].id != m.editor.doc_at(one.path@).id);
            }
        }
        if forall|j: int|
            0 <= j < contents.len() ==> !s.editor.has_path((#[trigger] contents[j]).path@) {
            assert forall|j: int| 0 <= j < rest.len() implies !s.editor.has_path(
                (#[trigger] rest[j]).path@,
            ) by {
                assert(!s.editor.has_path(contents[j].path@));
            }
            assert(!s.editor.has_path(contents[contents.len() - 1].path@));
        }
    } else {
        assert(contents.filter(f).len() == 0);
    }
}

/// A document that is opened comes behind the others, which all stay, and is shown in the focused pane
/// alone, at its start.
pub proof fn opening_leaves_the_rest(e: EditorView, id: u64, path: Seq<char>, text: Seq<char>)
    requires
        e.ok(),
        !e.has_doc(id),
    ensures
        ({
            let n = opened(e, id, path, text);
            &&& n.documents.len() == e.documents.len() + 1
            &&& n.documents.last() == (DocView {
                id,
                path: Some(path),
                text,
                dirty: false,
                can_undo: false,
                can_redo: false,
            })
            &&& forall|i: int|
                0 <= i < e.documents.len() ==> #[trigger] n.documents[i] == e.documents[i]
            &&& n.panes.len() == e.panes.len()
            &&& forall|i: int|
                0 <= i < e.panes.len() && (#[trigger] e.panes[i]).id != e.focused ==> n.panes[i]
                    == e.panes[i]
            &&& n.front().first_line == 0
            &&& n.mode == e.mode
        }),
{
    crate::open::opened_shows(e, id, path, text);
    pane_from_bounds(e.panes, e.focused, 0);
    let n = opened(e, id, path, text);
    crate::editor::pane_from_same(n.panes, e.panes, e.focused, 0);
}

/// An open document is shown in a pane where it is to stand; the documents and the other panes stay. A
/// pane that follows to a document that it shows stays where it is.
pub proof fn showing_leaves_the_rest(e: EditorView, pane: u64, path: Seq<char>, place: Place)
    requires
        e.ok(),
        e.has_pane(pane),
        place.selection@.ok(),
    ensures
        ({
            let n = shown_in(e, pane, path, place);
            &&& n.documents == e.documents
            &&& n.focused == e.focused
            &&& n.mode == e.mode
            &&& !e.has_path(path) ==> n == e
            &&& e.has_path(path) ==> n.pane(pane).doc == e.doc_at(path).id && n.pane(pane).selection
                == place.selection@ && n.pane(pane).first_line == place.first_line
            &&& n.panes.len() == e.panes.len()
            &&& forall|i: int|
                0 <= i < e.panes.len() && (#[trigger] e.panes[i]).id != pane ==> n.panes[i]
                    == e.panes[i]
        }),
        e.has_path(path) && e.pane(pane).doc == e.doc_at(path).id ==> followed_in(
            e,
            pane,
            path,
            place,
        ) == e,
        !(e.has_path(path) && e.pane(pane).doc == e.doc_at(path).id) ==> followed_in(
            e,
            pane,
            path,
            place,
        ) == shown_in(e, pane, path, place),
{
    pane_from_bounds(e.panes, pane, 0);
    let n = shown_in(e, pane, path, place);
    crate::editor::pane_from_same(n.panes, e.panes, pane, 0);
}

/// Files of more than 16 MiB are not opened, nor is anything that is no regular file; a file that the
/// disk says nothing of is tried, but counts as unopened once that was tried.
pub proof fn only_regular_files_of_a_size_are_opened(path: Seq<char>, len: u64)
    ensures
        wrong_before(path, FileLook::Unknown) is None,
        wrong_before(path, FileLook::Regular { len }) is None <==> len <= 16_777_216,
        len > 16_777_216 ==> wrong_before(path, FileLook::Regular { len }) == Some(
            "file too large: "@ + path,
        ) && wrong_before(path, FileLook::Special { len }) == Some("file too large: "@ + path),
        len <= 16_777_216 ==> wrong_before(path, FileLook::Special { len }) == Some(
            "cannot open "@ + path,
        ),
        wrong_after(path, None) == Some("cannot open "@ + path),
        wrong_after(path, Some(FileLook::Unknown)) == Some("cannot open "@ + path),
        wrong_after(path, Some(FileLook::Regular { len })) == wrong_before(
            path,
            FileLook::Regular { len },
        ),
        wrong_after(path, Some(FileLook::Special { len })) == wrong_before(
            path,
            FileLook::Special { len },
        ),
{
}

/// A file below a base root is its own counterpart; one below the root's repository has its counterpart
/// at the same place below the root; and any other has none.
pub proof fn counterpart_is_at_the_same_place(
    root: Seq<char>,
    reg: BaseRootReg,
    file: Seq<char>,
)
    ensures
        under(file, root) ==> counterpart(root, reg, file) == Some(file),
        !under(file, root) && (reg.repo is None || !under(file, reg.repo->0@)) ==> counterpart(
            root,
            reg,
            file,
        ) is None,
        !under(file, root) && reg.repo is Some && under(file, reg.repo->0@) && normal(comps(root))
            && normal(comps(file)) && comps(reg.repo->0@).len() > 0 ==> {
            let c = counterpart(root, reg, file)->0;
            &&& counterpart(root, reg, file) is Some
            &&& under(c, root)
            &&& comps(c).len() - comps(root).len() == comps(file).len() - comps(reg.repo->0@).len()
            &&& forall|i: int|
                comps(reg.repo->0@).len() <= i < comps(file).len() ==> comps(c)[i - comps(
                    reg.repo->0@,
                ).len() + comps(root).len()] == #[trigger] comps(file)[i]
        },
{
    if !under(file, root) && reg.repo is Some && under(file, reg.repo->0@) && normal(comps(root))
        && normal(comps(file)) && comps(reg.repo->0@).len() > 0 {
        let m = comps(reg.repo->0@).len() as int;
        let cs = comps(root) + comps(file).skip(m);
        assert forall|i: int| 1 <= i < cs.len() implies crate::paths::plain(#[trigger] cs[i]) by {
            if i < comps(root).len() {
                assert(cs[i] == comps(root)[i]);
            } else {
                assert(cs[i] == comps(file)[i - comps(root).len() + m]);
            }
        }
        text_keeps_components(cs);
        assert(cs.take(comps(root).len() as int) =~= comps(root));
        assert forall|i: int| m <= i < comps(file).len() implies cs[i - m + comps(root).len()]
            == #[trigger] comps(file)[i] by {
            assert(comps(file).skip(m)[i - m] == comps(file)[i]);
        }
    }
}

/// Every root gives its counterpart, once; there are no others.
pub proof fn every_root_gives_its_counterpart(
    roots: Seq<(Seq<char>, BaseRootReg)>,
    file: Seq<char>,
)
    ensures
        forall|c: Seq<char>| #[trigger]
            counterparts(roots, file).contains(c) <==> exists|i: int|
                0 <= i < roots.len() && counterpart((#[trigger] roots[i]).0, roots[i].1, file) == Some(
                    c,
                ),
        counterparts(roots, file).no_duplicates(),
    decreases roots.len(),
{
    let all = counterparts(roots, file);
    if roots.len() > 0 {
        let front = roots.drop_last();
        let before = counterparts(front, file);
        let last = counterpart(roots.last().0, roots.last().1, file);
        every_root_gives_its_counterpart(front, file);
        assert forall|c: Seq<char>| #[trigger] all.contains(c) <==> exists|i: int|
            0 <= i < roots.len() && counterpart((#[trigger] roots[i]).0, roots[i].1, file) == Some(
                c,
            ) by {
            assert(all.contains(c) <==> before.contains(c) || last == Some(c)) by {
                if before.contains(c) {
                    let i = before.index_of(c);
                    assert(all[i] == c);
                }
                if last == Some(c) && !before.contains(c) {
                    assert(all[all.len() - 1] == c);
                }
            }
            if before.contains(c) {
                let i = choose|i: int|
                    0 <= i < front.len() && counterpart((#[trigger] front[i]).0, front[i].1, file)
                        == Some(c);
                assert(roots[i] == front[i]);
            }
            if last == Some(c) {
                assert(counterpart(roots[roots.len() - 1].0, roots[roots.len() - 1].1, file) == Some(
                    c,
                ));
            }
            if exists|i: int|
                0 <= i < roots.len() && counterpart((#[trigger] roots[i]).0, roots[i].1, file) == Some(
                    c,
                ) {
                let i = choose|i: int|
                    0 <= i < roots.len() && counterpart((#[trigger] roots[i]).0, roots[i].1, file)
                        == Some(c);
                if i < front.len() {
                    assert(front[i] == roots[i]);
                }
            }
        }
    }
}

/// Of the files whose diagnostics are known, all are shown, in order and with all of their diagnostics;
/// the others are left out.
pub proof fn known_diagnostics_are_shown(
    paths: Seq<Seq<char>>,
    cache: Seq<(Seq<char>, Vec<Diagnostic>)>,
)
    ensures
        ({
            let shown = cached_only(paths, cache);
            &&& shown.map_values(|s: (Seq<char>, Seq<Diagnostic>)| s.0) == paths.filter(
                |p: Seq<char>| value_of(cache, p) is Some,
            )
            &&& forall|i: int|
                0 <= i < shown.len() ==> (value_of(cache, (#[trigger] shown[i]).0) matches Some(v)
                    && v@ == shown[i].1)
        }),
    decreases paths.len(),
{
    reveal(Seq::filter);
    let first = |s: (Seq<char>, Seq<Diagnostic>)| s.0;
    let known = |p: Seq<char>| value_of(cache, p) is Some;
    let shown = cached_only(paths, cache);
    if paths.len() > 0 {
        let front = paths.drop_last();
        known_diagnostics_are_shown(front, cache);
        let before = cached_only(front, cache);
        if value_of(cache, paths.last()) is Some {
            assert(shown.map_values(first) =~= before.map_values(first).push(paths.last()));
        }
    } else {
        assert(shown.map_values(first) =~= paths.filter(known));
    }
}

/// Of a commit its first characters are shown, as many as make up seven bytes; all of it if there are
/// fewer.
pub proof fn seven_bytes_of_a_commit_are_shown(commit: Seq<char>, n: int)
    requires
        0 <= n <= commit.len(),
    ensures
        byte_of(commit, n) == 7 ==> short_commit(commit) == commit.take(n),
        encode_utf8(commit).len() < 7 ==> short_commit(commit) == commit,
{
    if byte_of(commit, n) == 7 {
        bytes_split(commit, n);
        assert(encode_utf8(commit).subrange(0, 7) =~= encode_utf8(commit.take(n)));
        encode_utf8_decode_utf8(commit.take(n));
    }
}

/// A registration is the same only with the same commit and the same repository.
pub proof fn same_registration(r: BaseRootReg, commit: Seq<char>, repo: Option<String>)
    ensures
        same_base(r, commit, repo) <==> r.commit@ == commit && opt_view(r.repo) == opt_view(repo),
{
}

/// Texts are in the order of the first character in which they differ; a text comes before what goes on
/// from it.
pub proof fn texts_are_ordered_by_their_characters(a: Seq<char>, b: Seq<char>, k: int)
    requires
        0 <= k <= a.len(),
        k <= b.len(),
        a.take(k) == b.take(k),
    ensures
        k == a.len() ==> text_le(a, b, 0),
        k == b.len() && k < a.len() ==> !text_le(a, b, 0),
        k < a.len() && k < b.len() && (a[k] as u32) < (b[k] as u32) ==> text_le(a, b, 0),
        k < a.len() && k < b.len() && (b[k] as u32) < (a[k] as u32) ==> !text_le(a, b, 0),
{
    order_from(a, b, 0, k);
}

proof fn order_from(a: Seq<char>, b: Seq<char>, i: int, k: int)
    requires
        0 <= i <= k <= a.len(),
        k <= b.len(),
        a.take(k) == b.take(k),
    ensures
        text_le(a, b, i) == text_le(a, b, k),
    decreases k - i,
{
    if i < k {
        assert(a[i] == a.take(k)[i]);
        assert(b[i] == b.take(k)[i]);
        order_from(a, b, i + 1, k);
    }
}

/// Comments are attached to one place if the file, the side and the line are the same.
pub proof fn comments_are_attached_to_lines(a: ReviewComment, b: ReviewComment)
    ensures
        same_anchor(a, b) <==> a.path@ == b.path@ && a.side == b.side && a.line == b.line,
{
}

/// A rename goes on with exactly the files that have edits, in order.
pub proof fn files_with_edits_are_renamed_in(v: Seq<RenameFact>, n: int)
    requires
        0 <= n <= v.len(),
    ensures
        with_edits(v, n) == v.take(n).filter(|f: RenameFact| f.edits is Ok && f.edits->Ok_0@.len() > 0),
    decreases n,
{
    reveal(Seq::filter);
    let some = |f: RenameFact| f.edits is Ok && f.edits->Ok_0@.len() > 0;
    if n > 0 {
        files_with_edits_are_renamed_in(v, n - 1);
        assert(v.take(n).drop_last() =~= v.take(n - 1));
        assert(v.take(n).last() == v[n - 1]);
    } else {
        assert(v.take(0).filter(some) =~= Seq::<RenameFact>::empty());
    }
}

/// A rename in an open document makes all of its edits there, and leaves every other document as it is;
/// a file that is not open is left to the disk.
pub proof fn rename_edits_its_document_alone(e: EditorView, f: RenameFile, facts: EditFacts)
    requires
        e.ok(),
    ensures
        ({
            let n = renamed_one(e, f, facts);
            let id = e.doc_at(f.path@).id;
            &&& !e.has_path(f.path@) ==> n == e
            &&& e.has_path(f.path@) ==> n.doc(id).text == edited(e.doc_at(f.path@).text, f.edits@)
                && n.doc(id).dirty == facts.dirty && n.doc(id).can_undo == facts.can_undo
                && n.doc(id).can_redo == facts.can_redo
            &&& n.panes == e.panes
            &&& n.mode == e.mode
            &&& n.documents.len() == e.documents.len()
            &&& forall|i: int|
                0 <= i < e.documents.len() && (#[trigger] e.documents[i]).id != id
                    ==> n.documents[i] == e.documents[i]
        }),
{
    if e.has_path(f.path@) {
        doc_at_has_id(e, f.path@);
        let d = e.doc_at(f.path@);
        doc_from_bounds(e.documents, d.id, 0);
        with_doc_ok(
            e,
            d.id,
            edited(d.text, f.edits@),
            facts.dirty,
            facts.can_undo,
            facts.can_redo,
        );
    }
}

/// A rename reports every edit of every file.
pub proof fn every_edit_is_reported(files: Seq<RenameFile>, n: int)
    requires
        0 <= n <= files.len(),
    ensures
        edit_count(files, n) == files.take(n).map_values(
            |f: RenameFile| f.edits@.len() as int,
        ).fold_left(0, |a: int, b: int| a + b),
    decreases n,
{
    reveal(Seq::fold_left);
    let size = |f: RenameFile| f.edits@.len() as int;
    let plus = |a: int, b: int| a + b;
    let v = files.take(n).map_values(size);
    if n > 0 {
        every_edit_is_reported(files, n - 1);
        assert(v.drop_last() =~= files.take(n - 1).map_values(size));
        assert(v.last() == files[n - 1].edits@.len());
    }
}

/// Once the files of a rename are written, each open document among them that still holds what was
/// written is clean, and no text changes; each such write is recorded as a save, in order; and what the
/// disk then says of a file is noted, the last word of it.
pub proof fn every_written_file_is_saved(
    e: EditorView,
    log: LogView,
    known: Seq<(Seq<char>, DiskBaseline)>,
    w: Seq<RenameWrite>,
    stats: Seq<Option<DiskBaseline>>,
    n: int,
    i: int,
)
    requires
        e.ok(),
        log.ok(),
        log.room(n),
        keys_differ(known),
        0 <= n <= w.len(),
        stats.len() == w.len(),
    ensures
        ({
            let now = all_saved(e, w, n);
            &&& now.ok()
            &&& now.panes == e.panes
            &&& now.documents.len() == e.documents.len()
            &&& forall|k: int|
                0 <= k < e.documents.len() ==> (#[trigger] now.documents[k]).id == e.documents[k].id
                    && now.documents[k].path == e.documents[k].path && now.documents[k].text
                    == e.documents[k].text && (now.documents[k].dirty ==> e.documents[k].dirty)
            &&& 0 <= i < n && w[i].doc is Some && e.has_doc(w[i].doc->0) && e.doc(
                w[i].doc->0,
            ).text == w[i].text@ ==> !now.doc(w[i].doc->0).dirty
        }),
        saves_logged(log, w, n).ok(),
        saves_logged(log, w, n).generation == log.generation + open_count(w, n),
        open_count(w, n) == w.take(n).filter(|x: RenameWrite| x.doc is Some).len(),
        open_count(w, n) <= n,
        keys_differ(all_known(known, w, stats, n)),
        0 <= i < n && w[i].doc is Some && stats[i] is Some && (forall|j: int|
            i < j < n ==> (#[trigger] w[j]).path@ != w[i].path@) ==> value_of(
            all_known(known, w, stats, n),
            w[i].path@,
        ) == stats[i],
    decreases n,
{
    reveal(Seq::filter);
    let open = |x: RenameWrite| x.doc is Some;
    if n > 0 {
        every_written_file_is_saved(e, log, known, w, stats, n - 1, i);
        assert(w.take(n).drop_last() =~= w.take(n - 1));
        assert(w.take(n).last() == w[n - 1]);
        let before = all_saved(e, w, n - 1);
        let now = all_saved(e, w, n);
        found_as_before(e, before);
        let log1 = saves_logged(log, w, n - 1);
        if w[n - 1].doc is Some {
            let d = w[n - 1].doc->0;
            event_laws(log1, EventSource::Headless, EventKind::Save, None, None);
            doc_from_bounds(e.documents, d, 0);
            assert(doc_from(before.documents, d, 0) == doc_from(e.documents, d, 0));
            if before.has_doc(d) && before.doc(d).text == w[n - 1].text@ {
                with_doc_ok(
                    before,
                    d,
                    w[n - 1].text@,
                    false,
                    before.doc(d).can_undo,
                    before.doc(d).can_redo,
                );
            }
            if stats[n - 1] is Some {
                put_laws(all_known(known, w, stats, n - 1), w[n - 1].path@, stats[n - 1]->0);
            }
        }
        found_as_before(e, now);
        if 0 <= i < n && w[i].doc is Some && e.has_doc(w[i].doc->0) {
            let d = w[i].doc->0;
            doc_from_bounds(e.documents, d, 0);
            let at = doc_from(e.documents, d, 0);
            assert(doc_from(before.documents, d, 0) == at);
            assert(doc_from(now.documents, d, 0) == at);
            assert(before.documents[at].text == e.documents[at].text);
            assert(now.documents[at].dirty ==> before.documents[at].dirty);
        }
        if i < n - 1 && 0 <= i {
            assert(w[n - 1].path@ != w[i].path@ || !(forall|j: int|
                i < j < n ==> (#[trigger] w[j]).path@ != w[i].path@));
        }
    } else {
        assert(w.take(0).filter(open).len() == 0);
    }
}

/// A path is below a base exactly if it is below a registered root, whichever it is.
pub proof fn every_root_guards_its_files(t: Seq<(Seq<char>, BaseRootReg)>, path: Seq<char>, i: int)
    requires
        0 <= i < t.len(),
    ensures
        under(path, t[i].0) ==> in_base(t, path),
        (forall|j: int| 0 <= j < t.len() ==> !under(path, (#[trigger] t[j]).0)) ==> !in_base(t, path),
        first_root(t, path, i) <==> under(path, t[i].0) && forall|j: int|
            0 <= j < i ==> !under(path, (#[trigger] t[j]).0),
{
}

/// Without roots nothing is below a base.
pub proof fn without_roots_nothing_is_guarded(t: Seq<(Seq<char>, BaseRootReg)>, path: Seq<char>)
    requires
        t.len() == 0,
    ensures
        !in_base(t, path),
{
}

/// The refusal names the base's commit and the path.
pub proof fn refusal_names_base_and_path(commit: Seq<char>, path: Seq<char>)
    ensures
        read_only_notice(commit, path) == "基準 "@ + short_commit(commit) + " 配下は読取り専用です: "@
            + path,
{
}

/// Of the files that nothing is known of, the first that is not being fetched is fetched next.
pub proof fn next_fetch_is_the_first_missing(d: Daemon, paths: Seq<Seq<char>>, i: int)
    ensures
        first_missing(d, paths, i) <==> 0 <= i < paths.len() && !has_key(
            d.base_diagnostics@,
            paths[i],
        ) && !has_key(d.base_diag_inflight@, paths[i]) && forall|j: int|
            0 <= j < i ==> has_key(d.base_diagnostics@, #[trigger] paths[j]) || has_key(
                d.base_diag_inflight@,
                paths[j],
            ),
{
}

/// Every registered root is listed with its commit.
pub proof fn every_root_is_listed(t: Seq<(Seq<char>, BaseRootReg)>, i: int)
    requires
        0 <= i < t.len(),
    ensures
        root_commits(t).len() == t.len(),
        root_commits(t)[i] == (t[i].0, t[i].1.commit@),
{
}

/// A focused document that is known to the disk is noticed as there or as gone.
pub proof fn focused_file_is_held_against_the_disk(
    baselines: Seq<(Seq<char>, DiskBaseline)>,
    stats: Seq<Option<DiskBaseline>>,
    focused: Option<Seq<char>>,
    i: int,
)
    requires
        0 <= i < baselines.len(),
        i < stats.len(),
        focused == Some(baselines[i].0),
    ensures
        focused_file(baselines, stats, focused, stats[i] is Some),
        keys_differ(baselines) ==> !focused_file(baselines, stats, focused, stats[i] is None),
        !focused_file(baselines, stats, None, true),
{
    assert(focused == Some(baselines[i].0) && (stats[i] is Some) == (stats[i] is Some));
    if keys_differ(baselines) && focused_file(baselines, stats, focused, stats[i] is None) {
        let k = choose|k: int|
            0 <= k < baselines.len() && k < stats.len() && focused == Some(
                (#[trigger] baselines[k]).0,
            ) && (stats[k] is Some) == (stats[i] is None);
        if k < i {
            assert(baselines[k].0 != baselines[i].0);
        } else if i < k {
            assert(baselines[i].0 != baselines[k].0);
        }
    }
}

/// A comment on the current side is held against the open document, or else the disk; one on the base
/// side stays at its line and is stale once its file is gone.
pub proof fn comments_are_shown_where_they_belong(
    d: Daemon,
    c: ReviewComment,
    fact: DiskFact,
    v: ReviewCommentView,
)
    requires
        is_resolved(d, c, fact, v),
    ensures
        v.path@ == c.path@,
        v.side == c.side,
        v.line == c.line,
        v.snippet@ == c.snippet@,
        v.body@ == c.body@,
        v.base@ == c.base@,
        c.side == ReviewSide::Base ==> v.resolved_line == c.line && (v.stale <==> !fact.exists),
        ({
            let text = if d.editor@.has_path(c.path@) {
                Some(d.editor@.doc_at(c.path@).text)
            } else {
                opt_view(fact.text)
            };
            c.side == ReviewSide::Current ==> (v.resolved_line, v.stale) == line_now(
                text,
                c.line,
                c.snippet@,
            )
        }),
{
}

/// Without a text a comment stays at its line and is stale.
pub proof fn comments_without_a_text_are_stale(line: u32, snippet: Seq<char>)
    ensures
        line_now(None, line, snippet) == (line, true),
{
}

/// One file that cannot be renamed in stops a rename, with the first reason: it is no file, its text
/// cannot be had, or its edits do not fit.
pub proof fn faults_stop_a_rename(f: RenameFact, path: Seq<char>)
    requires
        f.uri@ == "file://"@ + path,
    ensures
        !f.readable ==> rename_fault(f) == Some("cannot open "@ + path + " (rename target)"@),
        f.readable && f.edits is Err ==> rename_fault(f) == Some(path + ": "@ + f.edits->Err_0@),
        f.readable && f.edits is Ok ==> rename_fault(f) is None,
{
    crate::paths::file_uri_reads_back(path);
}

/// An address that is no file's stops a rename too.
pub proof fn strange_addresses_stop_a_rename(f: RenameFact)
    requires
        f.uri@.len() > 0,
        f.uri@[0] != 'f',
    ensures
        rename_fault(f) == Some("file:// 以外の URI です: "@ + f.uri@),
{
    reveal_strlit("file://");
    if f.uri@.len() >= "file://"@.len() {
        assert(f.uri@.take("file://"@.len() as int)[0] == f.uri@[0]);
        assert("file://"@[0] == 'f');
    }
}

/// The files of a rename are those that it was told of, with their edits.
pub proof fn renamed_files_are_those_told(
    files: Seq<RenameFile>,
    v: Seq<RenameFact>,
    i: int,
    path: Seq<char>,
)
    requires
        files_of(files, v),
        0 <= i < v.len(),
        v[i].uri@ == "file://"@ + path,
        v[i].edits is Ok,
    ensures
        files.len() == v.len(),
        files[i].path@ == path,
        files[i].edits == v[i].edits->Ok_0,
        file_paths(files)[i] == path,
{
    crate::paths::file_uri_reads_back(path);
    assert(files[i].path@ == v[i].uri@.skip("file://"@.len() as int));
}

/// A rename in an open document is recorded as a headless replacement, with its first edit; one on the
/// disk alone is not recorded.
pub proof fn renames_are_recorded(e: EditorView, f: RenameFile, a: LogView, b: LogView)
    requires
        a.ok(),
        a.room(1),
        recorded_one(e, f, a, b),
    ensures
        !e.has_path(f.path@) ==> b == a,
        e.has_path(f.path@) ==> {
            &&& b.generation == a.generation + 1
            &&& b.events.len() > 0
            &&& b.events.last().source == EventSource::Headless
            &&& b.events.last().kind == EventKind::ReplaceRange
            &&& f.edits@.len() > 0 ==> b.events.last().range == Some(
                Range { anchor: f.edits@[0].start, head: f.edits@[0].end },
            ) && opt_view(b.events.last().text) == Some(f.edits@[0].text@)
        },
{
    if e.has_path(f.path@) {
        event_laws(
            a,
            EventSource::Headless,
            EventKind::ReplaceRange,
            if f.edits@.len() > 0 {
                Some(Range { anchor: f.edits@[0].start, head: f.edits@[0].end })
            } else {
                None
            },
            b.events.last().text,
        );
    }
}

/// Reading an open file again ends the insert session, whether or not its text was taken; reading only
/// files that are not open ends none. What the disk had of a file that was taken is known from then on,
/// and the server of the focused file is handed the text that was read of it last.
pub proof fn reread_files_end_the_session(
    s: WatchState,
    contents: Seq<Reread>,
    i: int,
    other: Seq<char>,
)
    requires
        s.editor.ok(),
        s.log.ok(),
        s.log.room(contents.len() as int),
        keys_differ(s.baselines),
    ensures
        ({
            let n = reread_all(s, contents);
            let any = exists|j: int|
                0 <= j < contents.len() && s.editor.has_path((#[trigger] contents[j]).path@);
            let focus = s.editor.current().path;
            &&& keys_differ(n.baselines)
            &&& any ==> n.owner is None && n.closed == (s.closed || s.owner is Some)
            &&& !any ==> n.owner == s.owner && n.closed == s.closed
            &&& 0 <= i < contents.len() && comes_in(s.editor, contents[i]) && contents[i].stat is Some
                && (forall|j: int|
                i < j < contents.len() ==> (#[trigger] contents[j]).path@ != contents[i].path@)
                ==> value_of(n.baselines, contents[i].path@) == contents[i].stat
            &&& (forall|j: int|
                0 <= j < contents.len() && comes_in(s.editor, #[trigger] contents[j])
                    ==> contents[j].path@ != other) ==> value_of(n.baselines, other) == value_of(
                s.baselines,
                other,
            )
            &&& 0 <= i < contents.len() && comes_in(s.editor, contents[i]) && focus == Some(
                contents[i].path@,
            ) && (forall|j: int|
                i < j < contents.len() ==> (#[trigger] contents[j]).path@ != contents[i].path@)
                ==> n.sync == Some(contents[i].disk.text@)
            &&& (forall|j: int|
                0 <= j < contents.len() && comes_in(s.editor, #[trigger] contents[j]) ==> focus != Some(
                    contents[j].path@,
                )) ==> n.sync == s.sync
        }),
    decreases contents.len(),
{
    if contents.len() > 0 {
        let rest = contents.drop_last();
        let one = contents.last();
        let (m, n) = (reread_all(s, rest), reread_all(s, contents));
        reread_files_end_the_session(s, rest, i, other);
        every_reread_file_comes_in(s, rest, i);
        every_reread_file_comes_in(s, contents, i);
        found_as_before(s.editor, m.editor);
        found_as_before(s.editor, n.editor);
        assert(contents[contents.len() - 1] == one);
        assert forall|j: int| 0 <= j < rest.len() implies rest[j] == #[trigger] contents[j] by {}
        assert(comes_in(m.editor, one) == comes_in(s.editor, one));
        if one.stat is Some {
            put_laws(m.baselines, one.path@, one.stat->0);
        }
        let any = exists|j: int|
            0 <= j < contents.len() && s.editor.has_path((#[trigger] contents[j]).path@);
        let before = exists|j: int|
            0 <= j < rest.len() && s.editor.has_path((#[trigger] rest[j]).path@);
        if any && !s.editor.has_path(one.path@) {
            let j = choose|j: int|
                0 <= j < contents.len() && s.editor.has_path((#[trigger] contents[j]).path@);
            assert(s.editor.has_path(rest[j].path@));
        }
        if before {
            let j = choose|j: int| 0 <= j < rest.len() && s.editor.has_path((#[trigger] rest[j]).path@);
            assert(s.editor.has_path(contents[j].path@));
        }
        let doc = s.editor.front().doc;
        front_ok(s.editor);
        doc_from_bounds(s.editor.documents, doc, 0);
        assert(doc_from(n.editor.documents, doc, 0) == doc_from(s.editor.documents, doc, 0));
        assert(n.editor.current().path == s.editor.current().path);
        assert(forall|j: int|
            0 <= j < rest.len() && comes_in(s.editor, #[trigger] rest[j]) ==> comes_in(
                s.editor,
                contents[j],
            ));
    }
}

} // verus!
