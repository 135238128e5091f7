//! Opening, reloading and saving documents.
use vstd::prelude::*;
use vstd::utf8::*;

use crate::clients::{panes_ok_same_ids, session_closed};
use crate::commands::MAX_FILE_SIZE;
use crate::daemon::{Daemon, DiskBaseline};
use crate::editor::{
    doc_from, doc_from_bounds, one_range, opt_view, pane_from, pane_from_bounds, pane_from_same,
    path_from, path_from_bounds, with_doc_ok, DocView, Document, EditorView, Pane, PaneView,
    Selection, SelectionView,
};
use crate::paths::{absolute_comps, lexical_normalize, path_text, resolved};
use crate::strings::joined;
use crate::table::value_of;
use crate::types::{EventKind, EventSource, Mode};

verus! {

/// Where a pane stands in a document.
pub struct Place {
    pub selection: Selection,
    pub first_line: usize,
}

/// The path by which a document is known: the one the disk resolves it to, or else, for a file that
/// is not there, its lexical normal form.
pub fn normalize_open_path(path: &str, canonical: Option<String>, cwd: Option<&str>) -> (r: String)
    ensures
        r@ == match canonical {
            Some(c) => c@,
            None => path_text(
                resolved(
                    absolute_comps(
                        path@,
                        match cwd {
                            Some(d) => Some(d@),
                            None => None,
                        },
                    ),
                ),
            ),
        },
{
    match canonical {
        Some(c) => c,
        None => lexical_normalize(path, cwd),
    }
}

/// What the disk says of a path.
#[derive(Clone, Copy, Debug, PartialEq, Eq, Structural)]
pub enum FileLook {
    Unknown,
    Regular { len: u64 },
    Special { len: u64 },
}

/// What is wrong with a file before it is opened: it is too large, or no regular file. A file that
/// the disk says nothing of is tried.
pub open spec fn wrong_before(path: Seq<char>, look: FileLook) -> Option<Seq<char>> {
    match look {
        FileLook::Unknown => None,
        FileLook::Regular { len } => if len > MAX_FILE_SIZE {
            Some("file too large: "@ + path)
        } else {
            None
        },
        FileLook::Special { len } => if len > MAX_FILE_SIZE {
            Some("file too large: "@ + path)
        } else {
            Some("cannot open "@ + path)
        },
    }
}

/// What is wrong with a file once it is opened, or that it could not be opened (`None`).
pub open spec fn wrong_after(path: Seq<char>, look: Option<FileLook>) -> Option<Seq<char>> {
    match look {
        None => Some("cannot open "@ + path),
        Some(FileLook::Unknown) => Some("cannot open "@ + path),
        Some(l) => wrong_before(path, l),
    }
}

/// Looks at a file before it is opened.
pub fn check_before_open(path: &str, look: FileLook) -> (r: Option<String>)
    ensures
        opt_view(r) == wrong_before(path@, look),
{
    match look {
        FileLook::Unknown => None,
        FileLook::Regular { len } => if len > MAX_FILE_SIZE {
            Some(joined("file too large: ", path))
        } else {
            None
        },
        FileLook::Special { len } => if len > MAX_FILE_SIZE {
            Some(joined("file too large: ", path))
        } else {
            Some(joined("cannot open ", path))
        },
    }
}

/// Looks at a file once it is opened, so that what is read is what was looked at.
pub fn check_after_open(path: &str, look: Option<FileLook>) -> (r: Option<String>)
    ensures
        opt_view(r) == wrong_after(path@, look),
{
    match look {
        None => Some(joined("cannot open ", path)),
        Some(FileLook::Unknown) => Some(joined("cannot open ", path)),
        Some(l) => check_before_open(path, l),
    }
}

/// Takes what was read from a file, up to one byte more than is allowed. Gives the text, or what is
/// wrong with it.
pub fn check_contents(path: &str, read: Result<String, String>) -> (r: (
    Option<String>,
    Option<String>,
))
    ensures
        match read {
            Ok(t) => if encode_utf8(t@).len() > MAX_FILE_SIZE {
                r.0 is None && opt_view(r.1) == Some("file too large: "@ + path@)
            } else {
                opt_view(r.0) == Some(t@) && r.1 is None
            },
            Err(e) => r.0 is None && opt_view(r.1) == Some(
                "cannot read "@ + path@ + ": "@ + e@,
            ),
        },
{
    match read {
        Ok(t) => {
            if t.as_str().as_bytes().len() as u64 > MAX_FILE_SIZE {
                (None, Some(joined("file too large: ", path)))
            } else {
                (Some(t), None)
            }
        },
        Err(e) => {
            let mut m = joined("cannot read ", path);
            m.append(": ");
            m.append(e.as_str());
            (None, Some(m))
        },
    }
}

impl EditorView {
    /// The state with a pane showing another document.
    pub open spec fn showing(
        self,
        id: u64,
        doc: u64,
        selection: SelectionView,
        first_line: usize,
    ) -> EditorView {
        EditorView {
            panes: self.panes.update(
                pane_from(self.panes, id, 0),
                PaneView { doc, selection, first_line, ..self.pane(id) },
            ),
            ..self
        }
    }

    /// The state with one more document.
    pub open spec fn with_new_doc(self, d: DocView) -> EditorView {
        EditorView { documents: self.documents.push(d), ..self }
    }
}

proof fn showing_keeps(
    e: EditorView,
    id: u64,
    doc: u64,
    selection: SelectionView,
    first_line: usize,
)
    requires
        e.ok(),
        e.has_pane(id),
        e.has_doc(doc),
        selection.ok(),
    ensures
        ({
            let n = e.showing(id, doc, selection, first_line);
            &&& n.ok()
            &&& n.panes.len() == e.panes.len()
            &&& forall|i: int|
                0 <= i < e.panes.len() ==> (#[trigger] e.panes[i]).id == n.panes[i].id
            &&& n.pane(id) == (PaneView { doc, selection, first_line, ..e.pane(id) })
        }),
{
    let n = e.showing(id, doc, selection, first_line);
    pane_from_bounds(e.panes, id, 0);
    pane_from_bounds(e.panes, e.focused, 0);
    pane_from_same(n.panes, e.panes, e.focused, 0);
    pane_from_same(n.panes, e.panes, id, 0);
    assert forall|i: int| 0 <= i < n.panes.len() implies n.has_doc((#[trigger] n.panes[i]).doc)
        && n.panes[i].selection.ok() by {
        assert(e.has_doc(e.panes[i].doc));
    }
}

proof fn doc_from_pushed(docs: Seq<DocView>, d: DocView, id: u64, i: int)
    requires
        0 <= i <= docs.len(),
        doc_from(docs, id, i) < docs.len() || d.id == id,
    ensures
        doc_from(docs.push(d), id, i) == doc_from(docs, id, i),
    decreases docs.len() - i,
{
    let more = docs.push(d);
    if i < docs.len() {
        assert(more[i] == docs[i]);
        if docs[i].id != id {
            doc_from_pushed(docs, d, id, i + 1);
        }
    }
}

proof fn with_new_doc_keeps(e: EditorView, d: DocView)
    requires
        e.ok(),
        !e.has_doc(d.id),
    ensures
        e.with_new_doc(d).ok(),
        e.with_new_doc(d).has_doc(d.id),
        e.with_new_doc(d).doc(d.id) == d,
        forall|o: u64| e.has_doc(o) ==> #[trigger] e.with_new_doc(d).doc(o) == e.doc(o),
{
    let n = e.with_new_doc(d);
    doc_from_bounds(e.documents, d.id, 0);
    doc_from_pushed(e.documents, d, d.id, 0);
    assert forall|o: u64| e.has_doc(o) implies #[trigger] n.doc(o) == e.doc(o) by {
        doc_from_pushed(e.documents, d, o, 0);
        doc_from_bounds(e.documents, o, 0);
    }
    assert forall|i: int| 0 <= i < n.panes.len() implies n.has_doc((#[trigger] n.panes[i]).doc)
        && n.panes[i].selection.ok() by {
        assert(e.has_doc(e.panes[i].doc));
        doc_from_pushed(e.documents, d, e.panes[i].doc, 0);
    }
}

/// The ids of documents with a path are ids of documents.
pub proof fn doc_at_has_id(e: EditorView, path: Seq<char>)
    requires
        e.has_path(path),
    ensures
        e.has_doc(e.doc_at(path).id),
        e.doc_at(path).path == Some(path),
{
    path_from_bounds(e.documents, path, 0);
    let k = path_from(e.documents, path, 0);
    let id = e.documents[k].id;
    doc_from_bounds(e.documents, id, 0);
    if doc_from(e.documents, id, 0) >= e.documents.len() {
        assert(e.documents[k].id != id);
    }
}

/// The state with a document shown in a pane, if it is open.
pub open spec fn shown_in(e: EditorView, pane: u64, path: Seq<char>, place: Place) -> EditorView {
    if e.has_path(path) {
        e.showing(pane, e.doc_at(path).id, place.selection@, place.first_line)
    } else {
        e
    }
}

/// The state with a pane that follows to a document, if it is open. A pane that shows the document
/// keeps its selection and its first line.
pub open spec fn followed_in(e: EditorView, pane: u64, path: Seq<char>, place: Place) -> EditorView {
    if e.has_path(path) && e.pane(pane).doc == e.doc_at(path).id {
        e
    } else {
        shown_in(e, pane, path, place)
    }
}

/// The state after a document is opened in the focused pane, at its start.
pub open spec fn opened(e: EditorView, id: u64, path: Seq<char>, text: Seq<char>) -> EditorView {
    e.with_new_doc(
        DocView {
            id,
            path: Some(path),
            text,
            dirty: false,
            can_undo: false,
            can_redo: false,
        },
    ).showing(e.focused, id, one_range(0, 0), 0)
}

/// A document that was opened is the one in the focused pane.
pub proof fn opened_shows(e: EditorView, id: u64, path: Seq<char>, text: Seq<char>)
    requires
        e.ok(),
        !e.has_doc(id),
    ensures
        ({
            let n = opened(e, id, path, text);
            &&& n.focused == e.focused
            &&& n.front().doc == id
            &&& n.front().selection == one_range(0, 0)
            &&& n.current().text == text
            &&& n.current().path == Some(path)
            &&& !n.current().dirty
        }),
{
    let d = DocView {
        id,
        path: Some(path),
        text,
        dirty: false,
        can_undo: false,
        can_redo: false,
    };
    with_new_doc_keeps(e, d);
    showing_keeps(e.with_new_doc(d), e.focused, id, one_range(0, 0), 0);
}

/// Whether every document id can be followed by another.
pub open spec fn ids_bounded(e: EditorView) -> bool {
    forall|i: int| 0 <= i < e.documents.len() ==> (#[trigger] e.documents[i]).id < u64::MAX
}

impl Daemon {
    /// Shows an open document in a pane. Says whether the document is open.
    pub fn show_path(&mut self, pane: u64, path: &str, place: Place) -> (r: bool)
        requires
            old(self).wf(),
            old(self).editor@.has_pane(pane),
            place.selection@.ok(),
        ensures
            final(self).wf(),
            *final(self) == (Daemon { editor: final(self).editor, ..*old(self) }),
            final(self).editor@ == shown_in(old(self).editor@, pane, path@, place),
            r == old(self).editor@.has_path(path@),
    {
        let k = self.editor.path_index(path);
        if k >= self.editor.documents.len() {
            return false;
        }
        let ghost before = self.editor@;
        assert(before.documents[k as int] == self.editor.documents@[k as int]@);
        let doc = self.editor.documents[k].id;
        proof {
            doc_at_has_id(before, path@);
            showing_keeps(before, pane, doc, place.selection@, place.first_line);
            pane_from_bounds(before.panes, pane, 0);
        }
        let i = self.editor.pane_index(pane);
        assert(before.panes[i as int] == self.editor.panes@[i as int]@);
        let id = self.editor.panes[i].id;
        let ghost sel = place.selection@;
        let p = Pane { id, doc, selection: place.selection, first_line: place.first_line };
        self.editor.panes.set(i, p);
        assert(self.editor@.panes =~= before.showing(pane, doc, sel, place.first_line).panes);
        assert(self.editor@ =~= before.showing(pane, doc, sel, place.first_line));
        proof {
            panes_ok_same_ids(
                before,
                self.editor@,
                self.conn_views@,
                self.idle_view,
                self.next_pane,
            );
        }
        true
    }

    /// Lets the idle pane follow to a document that was opened; if it shows the document, it stays
    /// where it is. The focus stays.
    pub fn open_idle_follow(&mut self, path: &str, place: Place)
        requires
            old(self).wf(),
            place.selection@.ok(),
        ensures
            final(self).wf(),
            *final(self) == (Daemon { editor: final(self).editor, ..*old(self) }),
            final(self).editor@ == followed_in(
                old(self).editor@,
                old(self).idle_view,
                path@,
                place,
            ),
            final(self).editor@.focused == old(self).editor@.focused,
    {
        let k = self.editor.path_index(path);
        if k >= self.editor.documents.len() {
            return;
        }
        assert(self.editor@.documents[k as int] == self.editor.documents@[k as int]@);
        if self.editor.pane(self.idle_view).doc == self.editor.documents[k].id {
            return;
        }
        let _open = self.show_path(self.idle_view, path, place);
    }

    /// A number that no document has.
    fn fresh_doc_id(&self) -> (r: u64)
        requires
            ids_bounded(self.editor@),
        ensures
            !self.editor@.has_doc(r),
    {
        let mut next: u64 = 0;
        let mut i: usize = 0;
        while i < self.editor.documents.len()
            invariant
                i <= self.editor.documents.len(),
                ids_bounded(self.editor@),
                forall|j: int|
                    0 <= j < i ==> (#[trigger] self.editor@.documents[j]).id < next,
            decreases self.editor.documents.len() - i,
        {
            assert(self.editor@.documents[i as int] == self.editor.documents@[i as int]@);
            let id = self.editor.documents[i].id;
            if id >= next {
                next = id + 1;
            }
            i = i + 1;
        }
        proof {
            doc_from_bounds(self.editor@.documents, next, 0);
        }
        next
    }

    /// Opens a document in the focused pane, at its start. Gives its number back.
    pub fn open_document(&mut self, path: &str, text: String) -> (r: u64)
        requires
            old(self).wf(),
            ids_bounded(old(self).editor@),
        ensures
            final(self).wf(),
            *final(self) == (Daemon { editor: final(self).editor, ..*old(self) }),
            !old(self).editor@.has_doc(r),
            final(self).editor@ == opened(old(self).editor@, r, path@, text@),
            final(self).editor@.current().text == text@,
            final(self).editor@.current().path == Some(path@),
    {
        let id = self.fresh_doc_id();
        let ghost before = self.editor@;
        let ghost d = DocView {
            id,
            path: Some(path@),
            text: text@,
            dirty: false,
            can_undo: false,
            can_redo: false,
        };
        proof {
            with_new_doc_keeps(before, d);
            showing_keeps(before.with_new_doc(d), before.focused, id, one_range(0, 0), 0);
            pane_from_bounds(before.panes, before.focused, 0);
        }
        let doc = Document {
            id,
            path: Some(path.to_owned()),
            text,
            dirty: false,
            can_undo: false,
            can_redo: false,
        };
        assert(doc@ =~= d);
        self.editor.documents.push(doc);
        assert(self.editor@.documents =~= before.documents.push(d));
        let i = self.editor.pane_index(self.editor.focused);
        assert(before.panes[i as int] == self.editor.panes@[i as int]@);
        let pane_id = self.editor.panes[i].id;
        let p = Pane { id: pane_id, doc: id, selection: Selection::single(0, 0), first_line: 0 };
        self.editor.panes.set(i, p);
        assert(self.editor@ =~= opened(before, id, path@, d.text)) by {
            assert(self.editor@.panes =~= opened(before, id, path@, d.text).panes);
        }
        proof {
            panes_ok_same_ids(
                before,
                self.editor@,
                self.conn_views@,
                self.idle_view,
                self.next_pane,
            );
        }
        id
    }

    /// Whether the disk holds another version of a file than when it was last read or written.
    pub fn diverged(&self, path: &str, stat: DiskBaseline) -> (r: bool)
        requires
            self.wf(),
        ensures
            r == (value_of(self.baselines@, path@) matches Some(b) && b != stat),
    {
        match self.baselines.get(path) {
            Some(b) => *b != stat,
            None => false,
        }
    }

    /// Replaces a document's text by what the disk holds. An insert session is closed first. The
    /// change can be undone, and the document is then clean. Says whether an insert session was
    /// closed.
    pub fn reload(&mut self, path: &str, text: String, facts: ReloadFacts) -> (r: bool)
        requires
            old(self).wf(),
            old(self).log@.room(1),
        ensures
            final(self).wf(),
            *final(self) == (Daemon {
                editor: final(self).editor,
                insert_owner: final(self).insert_owner,
                log: final(self).log,
                ..*old(self)
            }),
            !old(self).editor@.has_path(path@) ==> *final(self) == *old(self) && !r,
            old(self).editor@.has_path(path@) ==> {
                let e = if old(self).insert_owner is Some {
                    session_closed(old(self).editor@, Mode::Normal)
                } else {
                    old(self).editor@
                };
                &&& r == old(self).insert_owner is Some
                &&& final(self).insert_owner is None
                &&& facts.reloaded ==> final(self).editor@ == e.with_doc(
                    e.doc_at(path@).id,
                    text@,
                    false,
                    facts.can_undo,
                    facts.can_redo,
                ) && final(self).log@ == old(self).log@.event(
                    EventSource::External,
                    EventKind::ExternalChange,
                    None,
                    None,
                )
                &&& !facts.reloaded ==> final(self).editor@ == e && final(self).log
                    == old(self).log
            },
    {
        let k = self.editor.path_index(path);
        if k >= self.editor.documents.len() {
            return false;
        }
        assert(self.editor@.documents[k as int] == self.editor.documents@[k as int]@);
        let doc = self.editor.documents[k].id;
        proof {
            doc_at_has_id(self.editor@, path@);
        }
        let mut closed = false;
        if self.insert_owner.is_some() {
            self.close_insert_session(Mode::Normal);
            closed = true;
        }
        if facts.reloaded {
            let ghost before = self.editor@;
            proof {
                with_doc_ok(before, doc, text@, false, facts.can_undo, facts.can_redo);
            }
            self.editor.set_doc(doc, text, false, facts.can_undo, facts.can_redo);
            proof {
                panes_ok_same_ids(
                    before,
                    self.editor@,
                    self.conn_views@,
                    self.idle_view,
                    self.next_pane,
                );
            }
            self.log.record_event(EventSource::External, EventKind::ExternalChange, None, None);
        }
        closed
    }
}

/// Whether the engine took a text from the disk as a change, and what the undo history then can do.
#[derive(Clone, Copy, Debug, PartialEq, Eq, Structural)]
pub struct ReloadFacts {
    pub reloaded: bool,
    pub can_undo: bool,
    pub can_redo: bool,
}

} // verus!
