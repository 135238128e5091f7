//! The editing state that the daemon reads: documents, panes onto them, the focus and the mode.
//!
//! The text engine computes edits, cursor movements and undo; what it computes is stored here as
//! plain values.
use vstd::prelude::*;

use crate::strings::{copy_opt, same};
use crate::types::{copy_ranges, Mode, Range};

verus! {

/// The selected ranges of a pane; one of them is the primary one.
#[derive(Debug, PartialEq, Eq)]
pub struct Selection {
    pub ranges: Vec<Range>,
    pub primary_index: usize,
}

/// A selection by its values.
#[verifier::ext_equal]
pub struct SelectionView {
    pub ranges: Seq<Range>,
    pub primary_index: usize,
}

impl SelectionView {
    /// Whether there is a primary range.
    pub open spec fn ok(self) -> bool {
        self.primary_index < self.ranges.len()
    }

    /// The primary range.
    pub open spec fn primary(self) -> Range {
        self.ranges[self.primary_index as int]
    }

    /// Whether every range lies within the first `len` characters.
    pub open spec fn within(self, len: int) -> bool {
        forall|i: int|
            0 <= i < self.ranges.len() ==> (#[trigger] self.ranges[i]).anchor <= len
                && self.ranges[i].head <= len
    }

    /// The selection with every end moved back to `len` if it lies behind.
    pub open spec fn clamp(self, len: usize) -> SelectionView {
        SelectionView {
            ranges: self.ranges.map_values(|r: Range| clamp_range(r, len)),
            primary_index: self.primary_index,
        }
    }
}

/// A range with its ends moved back to `len` if they lie behind.
pub open spec fn clamp_range(r: Range, len: usize) -> Range {
    Range {
        anchor: if r.anchor <= len {
            r.anchor
        } else {
            len
        },
        head: if r.head <= len {
            r.head
        } else {
            len
        },
    }
}

/// One range as a selection.
pub open spec fn one_range(anchor: usize, head: usize) -> SelectionView {
    SelectionView { ranges: seq![Range { anchor, head }], primary_index: 0 }
}

impl Selection {
    pub open spec fn view(&self) -> SelectionView {
        SelectionView { ranges: self.ranges@, primary_index: self.primary_index }
    }

    /// The selection of one range.
    pub fn single(anchor: usize, head: usize) -> (r: Selection)
        ensures
            r@ == one_range(anchor, head),
            r@.ok(),
    {
        let mut ranges: Vec<Range> = Vec::new();
        ranges.push(Range { anchor, head });
        let r = Selection { ranges, primary_index: 0 };
        assert(r@ =~= one_range(anchor, head));
        r
    }

    /// A copy.
    pub fn copy(&self) -> (r: Selection)
        ensures
            r@ == self@,
    {
        Selection { ranges: copy_ranges(&self.ranges), primary_index: self.primary_index }
    }

    /// The primary range.
    pub fn primary(&self) -> (r: Range)
        requires
            self@.ok(),
        ensures
            r == self@.primary(),
    {
        self.ranges[self.primary_index]
    }

    /// Moves every end that lies behind `len` back to `len`.
    pub fn clamped(&self, len: usize) -> (r: Selection)
        ensures
            r@ == self@.clamp(len),
            r@.within(len as int),
    {
        let mut ranges: Vec<Range> = Vec::new();
        let mut i: usize = 0;
        while i < self.ranges.len()
            invariant
                i <= self.ranges.len(),
                ranges@ == self.ranges@.take(i as int).map_values(|r: Range| clamp_range(r, len)),
            decreases self.ranges.len() - i,
        {
            let r = self.ranges[i];
            let anchor: usize = if r.anchor <= len {
                r.anchor
            } else {
                len
            };
            let head: usize = if r.head <= len {
                r.head
            } else {
                len
            };
            ranges.push(Range { anchor, head });
            i = i + 1;
            assert(ranges@ =~= self.ranges@.take(i as int).map_values(
                |r: Range| clamp_range(r, len),
            ));
        }
        assert(self.ranges@.take(self.ranges@.len() as int) =~= self.ranges@);
        Selection { ranges, primary_index: self.primary_index }
    }
}

/// An open document.
#[derive(Debug, PartialEq, Eq)]
pub struct Document {
    pub id: u64,
    pub path: Option<String>,
    pub text: String,
    pub dirty: bool,
    pub can_undo: bool,
    pub can_redo: bool,
}

/// A document by its values.
#[verifier::ext_equal]
pub struct DocView {
    pub id: u64,
    pub path: Option<Seq<char>>,
    pub text: Seq<char>,
    pub dirty: bool,
    pub can_undo: bool,
    pub can_redo: bool,
}

/// The characters of an optional string.
pub open spec fn opt_view(s: Option<String>) -> Option<Seq<char>> {
    match s {
        Some(t) => Some(t@),
        None => None,
    }
}

impl Document {
    pub open spec fn view(&self) -> DocView {
        DocView {
            id: self.id,
            path: opt_view(self.path),
            text: self.text@,
            dirty: self.dirty,
            can_undo: self.can_undo,
            can_redo: self.can_redo,
        }
    }
}

/// A window onto a document: what is selected in it, and its first visible line.
#[derive(Debug, PartialEq, Eq)]
pub struct Pane {
    pub id: u64,
    pub doc: u64,
    pub selection: Selection,
    pub first_line: usize,
}

/// A pane by its values.
#[verifier::ext_equal]
pub struct PaneView {
    pub id: u64,
    pub doc: u64,
    pub selection: SelectionView,
    pub first_line: usize,
}

impl Pane {
    pub open spec fn view(&self) -> PaneView {
        PaneView {
            id: self.id,
            doc: self.doc,
            selection: self.selection@,
            first_line: self.first_line,
        }
    }
}

/// The editing state. `group_open` says whether the undo history is gathering edits into one group.
#[derive(Debug, PartialEq, Eq)]
pub struct Editor {
    pub documents: Vec<Document>,
    pub panes: Vec<Pane>,
    pub focused: u64,
    pub mode: Mode,
    pub group_open: bool,
}

/// The editing state by its values.
#[verifier::ext_equal]
pub struct EditorView {
    pub documents: Seq<DocView>,
    pub panes: Seq<PaneView>,
    pub focused: u64,
    pub mode: Mode,
    pub group_open: bool,
}

/// Index of the first pane from `i` on with an id, or the number of panes.
pub open spec fn pane_from(panes: Seq<PaneView>, id: u64, i: int) -> int
    decreases panes.len() - i,
{
    if i >= panes.len() || panes[i].id == id {
        i
    } else {
        pane_from(panes, id, i + 1)
    }
}

/// Index of the first document from `i` on with an id, or the number of documents.
pub open spec fn doc_from(docs: Seq<DocView>, id: u64, i: int) -> int
    decreases docs.len() - i,
{
    if i >= docs.len() || docs[i].id == id {
        i
    } else {
        doc_from(docs, id, i + 1)
    }
}

/// Index of the first document from `i` on with a path, or the number of documents.
pub open spec fn path_from(docs: Seq<DocView>, path: Seq<char>, i: int) -> int
    decreases docs.len() - i,
{
    if i >= docs.len() || docs[i].path == Some(path) {
        i
    } else {
        path_from(docs, path, i + 1)
    }
}

pub proof fn pane_from_bounds(panes: Seq<PaneView>, id: u64, i: int)
    requires
        0 <= i <= panes.len(),
    ensures
        i <= pane_from(panes, id, i) <= panes.len(),
        pane_from(panes, id, i) < panes.len() ==> panes[pane_from(panes, id, i)].id == id,
        forall|j: int| i <= j < pane_from(panes, id, i) ==> (#[trigger] panes[j]).id != id,
    decreases panes.len() - i,
{
    if i < panes.len() && panes[i].id != id {
        pane_from_bounds(panes, id, i + 1);
    }
}

pub proof fn doc_from_bounds(docs: Seq<DocView>, id: u64, i: int)
    requires
        0 <= i <= docs.len(),
    ensures
        i <= doc_from(docs, id, i) <= docs.len(),
        doc_from(docs, id, i) < docs.len() ==> docs[doc_from(docs, id, i)].id == id,
        forall|j: int| i <= j < doc_from(docs, id, i) ==> (#[trigger] docs[j]).id != id,
    decreases docs.len() - i,
{
    if i < docs.len() && docs[i].id != id {
        doc_from_bounds(docs, id, i + 1);
    }
}

pub proof fn path_from_bounds(docs: Seq<DocView>, path: Seq<char>, i: int)
    requires
        0 <= i <= docs.len(),
    ensures
        i <= path_from(docs, path, i) <= docs.len(),
        path_from(docs, path, i) < docs.len() ==> docs[path_from(docs, path, i)].path == Some(path),
        forall|j: int| i <= j < path_from(docs, path, i) ==> (#[trigger] docs[j]).path != Some(path),
    decreases docs.len() - i,
{
    if i < docs.len() && docs[i].path != Some(path) {
        path_from_bounds(docs, path, i + 1);
    }
}

/// Panes that only differ behind their ids are found at the same places.
pub proof fn pane_from_same(a: Seq<PaneView>, b: Seq<PaneView>, id: u64, i: int)
    requires
        0 <= i,
        a.len() == b.len(),
        forall|j: int| 0 <= j < a.len() ==> (#[trigger] a[j]).id == b[j].id,
    ensures
        pane_from(a, id, i) == pane_from(b, id, i),
    decreases a.len() - i,
{
    if i < a.len() && a[i].id != id {
        pane_from_same(a, b, id, i + 1);
    }
}

/// Documents that only differ behind their ids are found at the same places.
pub proof fn doc_from_same(a: Seq<DocView>, b: Seq<DocView>, id: u64, i: int)
    requires
        0 <= i,
        a.len() == b.len(),
        forall|j: int| 0 <= j < a.len() ==> (#[trigger] a[j]).id == b[j].id,
    ensures
        doc_from(a, id, i) == doc_from(b, id, i),
    decreases a.len() - i,
{
    if i < a.len() && a[i].id != id {
        doc_from_same(a, b, id, i + 1);
    }
}

impl EditorView {
    /// Whether a pane has the id.
    pub open spec fn has_pane(self, id: u64) -> bool {
        pane_from(self.panes, id, 0) < self.panes.len()
    }

    /// Whether a document has the id.
    pub open spec fn has_doc(self, id: u64) -> bool {
        doc_from(self.documents, id, 0) < self.documents.len()
    }

    /// Whether a document has the path.
    pub open spec fn has_path(self, path: Seq<char>) -> bool {
        path_from(self.documents, path, 0) < self.documents.len()
    }

    /// The pane with the id.
    pub open spec fn pane(self, id: u64) -> PaneView {
        self.panes[pane_from(self.panes, id, 0)]
    }

    /// The document with the id.
    pub open spec fn doc(self, id: u64) -> DocView {
        self.documents[doc_from(self.documents, id, 0)]
    }

    /// The document with the path.
    pub open spec fn doc_at(self, path: Seq<char>) -> DocView {
        self.documents[path_from(self.documents, path, 0)]
    }

    /// The focused pane.
    pub open spec fn front(self) -> PaneView {
        self.pane(self.focused)
    }

    /// The document in the focused pane.
    pub open spec fn current(self) -> DocView {
        self.doc(self.front().doc)
    }

    /// Whether the focus is on a pane, and every pane shows a document and has a primary range.
    pub open spec fn ok(self) -> bool {
        &&& self.has_pane(self.focused)
        &&& forall|i: int|
            0 <= i < self.panes.len() ==> self.has_doc((#[trigger] self.panes[i]).doc)
                && self.panes[i].selection.ok()
    }

    /// The state with the focus on another pane.
    pub open spec fn focus(self, id: u64) -> EditorView {
        EditorView { focused: id, ..self }
    }

    /// The state in another mode.
    pub open spec fn in_mode(self, mode: Mode) -> EditorView {
        EditorView { mode, ..self }
    }

    /// The state with the undo group open or closed.
    pub open spec fn with_group(self, open: bool) -> EditorView {
        EditorView { group_open: open, ..self }
    }

    /// The state with a pane's selection and first line changed.
    pub open spec fn placed(self, id: u64, selection: SelectionView, first_line: usize) -> EditorView {
        EditorView {
            panes: self.panes.update(
                pane_from(self.panes, id, 0),
                PaneView { selection, first_line, ..self.pane(id) },
            ),
            ..self
        }
    }

    /// The state with the focused pane's selection changed.
    pub open spec fn select(self, selection: SelectionView) -> EditorView {
        self.placed(self.focused, selection, self.front().first_line)
    }

    /// The state with a document's contents changed. Its id and its path stay.
    pub open spec fn with_doc(
        self,
        id: u64,
        text: Seq<char>,
        dirty: bool,
        can_undo: bool,
        can_redo: bool,
    ) -> EditorView {
        EditorView {
            documents: self.documents.update(
                doc_from(self.documents, id, 0),
                DocView { text, dirty, can_undo, can_redo, ..self.doc(id) },
            ),
            ..self
        }
    }
}

/// Placing a pane keeps the state consistent, the documents and the other panes.
pub proof fn placed_ok(e: EditorView, id: u64, selection: SelectionView, first_line: usize)
    requires
        e.ok(),
        e.has_pane(id),
        selection.ok(),
    ensures
        e.placed(id, selection, first_line).ok(),
        e.placed(id, selection, first_line).documents == e.documents,
        e.placed(id, selection, first_line).pane(id) == (PaneView {
            selection,
            first_line,
            ..e.pane(id)
        }),
        forall|o: u64|
            o != id && e.has_pane(o) ==> #[trigger] e.placed(id, selection, first_line).pane(o)
                == e.pane(o),
        e.placed(id, selection, first_line).front().doc == e.front().doc,
        forall|o: u64|
            #[trigger] e.placed(id, selection, first_line).has_pane(o) == e.has_pane(o),
{
    let p = e.placed(id, selection, first_line);
    let k = pane_from(e.panes, id, 0);
    pane_from_bounds(e.panes, id, 0);
    assert forall|j: int| 0 <= j < p.panes.len() implies (#[trigger] p.panes[j]).id
        == e.panes[j].id by {}
    assert forall|o: u64| pane_from(p.panes, o, 0) == #[trigger] pane_from(e.panes, o, 0) by {
        pane_from_same(p.panes, e.panes, o, 0);
    }
    assert forall|o: u64| o != id && e.has_pane(o) implies #[trigger] p.pane(o) == e.pane(o) by {
        pane_from_bounds(e.panes, o, 0);
        let m = pane_from(e.panes, o, 0);
        assert(pane_from(p.panes, o, 0) == m);
        assert(m != k);
    }
    assert(pane_from(p.panes, id, 0) == pane_from(e.panes, id, 0));
    assert(pane_from(p.panes, e.focused, 0) == pane_from(e.panes, e.focused, 0));
    assert forall|i: int| 0 <= i < p.panes.len() implies p.has_doc((#[trigger] p.panes[i]).doc)
        && p.panes[i].selection.ok() by {
        assert(e.has_doc(e.panes[i].doc));
    }
    pane_from_bounds(e.panes, e.focused, 0);
    assert forall|o: u64| #[trigger] p.has_pane(o) == e.has_pane(o) by {
        assert(pane_from(p.panes, o, 0) == pane_from(e.panes, o, 0));
    }
}

/// Changing a document's contents keeps the state consistent, the panes and the other documents.
pub proof fn with_doc_ok(
    e: EditorView,
    id: u64,
    text: Seq<char>,
    dirty: bool,
    can_undo: bool,
    can_redo: bool,
)
    requires
        e.ok(),
        e.has_doc(id),
    ensures
        e.with_doc(id, text, dirty, can_undo, can_redo).ok(),
        e.with_doc(id, text, dirty, can_undo, can_redo).panes == e.panes,
        e.with_doc(id, text, dirty, can_undo, can_redo).doc(id) == (DocView {
            text,
            dirty,
            can_undo,
            can_redo,
            ..e.doc(id)
        }),
        forall|o: u64|
            o != id && e.has_doc(o) ==> #[trigger] e.with_doc(
                id,
                text,
                dirty,
                can_undo,
                can_redo,
            ).doc(o) == e.doc(o),
{
    let p = e.with_doc(id, text, dirty, can_undo, can_redo);
    let k = doc_from(e.documents, id, 0);
    doc_from_bounds(e.documents, id, 0);
    assert forall|j: int| 0 <= j < p.documents.len() implies (#[trigger] p.documents[j]).id
        == e.documents[j].id by {}
    assert forall|o: u64| doc_from(p.documents, o, 0) == #[trigger] doc_from(
        e.documents,
        o,
        0,
    ) by {
        doc_from_same(p.documents, e.documents, o, 0);
    }
    assert forall|o: u64| o != id && e.has_doc(o) implies #[trigger] p.doc(o) == e.doc(o) by {
        doc_from_bounds(e.documents, o, 0);
        let m = doc_from(e.documents, o, 0);
        assert(doc_from(p.documents, o, 0) == m);
        assert(m != k);
    }
    assert(doc_from(p.documents, id, 0) == k);
    assert forall|i: int| 0 <= i < p.panes.len() implies p.has_doc((#[trigger] p.panes[i]).doc)
        && p.panes[i].selection.ok() by {
        assert(e.has_doc(e.panes[i].doc));
        assert(doc_from(p.documents, e.panes[i].doc, 0) == doc_from(
            e.documents,
            e.panes[i].doc,
            0,
        ));
    }
}

/// In a consistent state the focused pane shows a document and has a primary range.
pub proof fn front_ok(e: EditorView)
    requires
        e.ok(),
    ensures
        e.has_doc(e.front().doc),
        e.front().selection.ok(),
        e.front().id == e.focused,
{
    pane_from_bounds(e.panes, e.focused, 0);
    let k = pane_from(e.panes, e.focused, 0);
    assert(e.has_doc(e.panes[k].doc));
}

/// In a consistent state every pane shows a document and has a primary range.
pub proof fn pane_ok(e: EditorView, id: u64)
    requires
        e.ok(),
        e.has_pane(id),
    ensures
        e.has_doc(e.pane(id).doc),
        e.pane(id).selection.ok(),
        e.pane(id).id == id,
{
    pane_from_bounds(e.panes, id, 0);
    let k = pane_from(e.panes, id, 0);
    assert(e.has_doc(e.panes[k].doc));
}

impl Editor {
    pub open spec fn view(&self) -> EditorView {
        EditorView {
            documents: self.documents@.map_values(|d: Document| d@),
            panes: self.panes@.map_values(|p: Pane| p@),
            focused: self.focused,
            mode: self.mode,
            group_open: self.group_open,
        }
    }

    /// One empty document without a path, in one pane.
    pub fn new() -> (r: Editor)
        ensures
            r@.ok(),
            r@.documents == seq![
                DocView {
                    id: 0,
                    path: None,
                    text: Seq::empty(),
                    dirty: false,
                    can_undo: false,
                    can_redo: false,
                },
            ],
            r@.panes == seq![PaneView { id: 0, doc: 0, selection: one_range(0, 0), first_line: 0 }],
            r@.focused == 0,
            r@.mode == Mode::Normal,
            !r@.group_open,
    {
        let mut documents: Vec<Document> = Vec::new();
        documents.push(
            Document {
                id: 0,
                path: None,
                text: String::new(),
                dirty: false,
                can_undo: false,
                can_redo: false,
            },
        );
        let mut panes: Vec<Pane> = Vec::new();
        panes.push(Pane { id: 0, doc: 0, selection: Selection::single(0, 0), first_line: 0 });
        let r = Editor { documents, panes, focused: 0, mode: Mode::Normal, group_open: false };
        assert(r@.documents =~= seq![
            DocView {
                id: 0,
                path: None,
                text: Seq::empty(),
                dirty: false,
                can_undo: false,
                can_redo: false,
            },
        ]);
        assert(r@.panes =~= seq![
            PaneView { id: 0, doc: 0, selection: one_range(0, 0), first_line: 0 },
        ]);
        assert(pane_from(r@.panes, 0, 0) == 0);
        assert(doc_from(r@.documents, 0, 0) == 0);
        r
    }

    /// The index of a pane.
    pub fn pane_index(&self, id: u64) -> (r: usize)
        ensures
            r == pane_from(self@.panes, id, 0),
            r <= self.panes@.len(),
    {
        let mut i: usize = 0;
        while i < self.panes.len()
            invariant
                i <= self.panes@.len(),
                pane_from(self@.panes, id, 0) == pane_from(self@.panes, id, i as int),
            decreases self.panes@.len() - i,
        {
            assert(self@.panes[i as int] == self.panes@[i as int]@);
            if self.panes[i].id == id {
                return i;
            }
            i = i + 1;
        }
        i
    }

    /// The index of a document.
    pub fn doc_index(&self, id: u64) -> (r: usize)
        ensures
            r == doc_from(self@.documents, id, 0),
            r <= self.documents@.len(),
    {
        let mut i: usize = 0;
        while i < self.documents.len()
            invariant
                i <= self.documents@.len(),
                doc_from(self@.documents, id, 0) == doc_from(self@.documents, id, i as int),
            decreases self.documents@.len() - i,
        {
            assert(self@.documents[i as int] == self.documents@[i as int]@);
            if self.documents[i].id == id {
                return i;
            }
            i = i + 1;
        }
        i
    }

    /// The index of the document with a path.
    pub fn path_index(&self, path: &str) -> (r: usize)
        ensures
            r == path_from(self@.documents, path@, 0),
            r <= self.documents@.len(),
    {
        let mut i: usize = 0;
        while i < self.documents.len()
            invariant
                i <= self.documents@.len(),
                path_from(self@.documents, path@, 0) == path_from(
                    self@.documents,
                    path@,
                    i as int,
                ),
            decreases self.documents@.len() - i,
        {
            assert(self@.documents[i as int] == self.documents@[i as int]@);
            match &self.documents[i].path {
                Some(p) => {
                    if same(p.as_str(), path) {
                        return i;
                    }
                },
                None => {},
            }
            i = i + 1;
        }
        i
    }

    /// Whether a pane has the id.
    pub fn has_pane(&self, id: u64) -> (r: bool)
        ensures
            r == self@.has_pane(id),
    {
        self.pane_index(id) < self.panes.len()
    }

    /// The document with a path.
    pub fn doc_for_path(&self, path: &str) -> (r: Option<&Document>)
        ensures
            match r {
                Some(d) => self@.has_path(path@) && d@ == self@.doc_at(path@),
                None => !self@.has_path(path@),
            },
    {
        let i = self.path_index(path);
        if i < self.documents.len() {
            assert(self@.documents[i as int] == self.documents@[i as int]@);
            Some(&self.documents[i])
        } else {
            None
        }
    }

    /// A pane.
    pub fn pane(&self, id: u64) -> (r: &Pane)
        requires
            self@.has_pane(id),
        ensures
            r@ == self@.pane(id),
    {
        let i = self.pane_index(id);
        assert(self@.panes[i as int] == self.panes@[i as int]@);
        &self.panes[i]
    }

    /// A document.
    pub fn doc(&self, id: u64) -> (r: &Document)
        requires
            self@.has_doc(id),
        ensures
            r@ == self@.doc(id),
    {
        let i = self.doc_index(id);
        assert(self@.documents[i as int] == self.documents@[i as int]@);
        &self.documents[i]
    }

    /// The document in the focused pane.
    pub fn current(&self) -> (r: &Document)
        requires
            self@.ok(),
        ensures
            r@ == self@.current(),
    {
        proof {
            front_ok(self@);
        }
        let doc = self.pane(self.focused).doc;
        self.doc(doc)
    }

    /// The path of the document in the focused pane.
    pub fn focused_path(&self) -> (r: Option<String>)
        requires
            self@.ok(),
        ensures
            opt_view(r) == self@.current().path,
    {
        copy_opt(&self.current().path)
    }

    /// The selection of the focused pane.
    pub fn selection(&self) -> (r: Selection)
        requires
            self@.ok(),
        ensures
            r@ == self@.front().selection,
            r@.ok(),
    {
        proof {
            front_ok(self@);
        }
        self.pane(self.focused).selection.copy()
    }

    /// Gives a pane a selection and a first line.
    pub fn place(&mut self, id: u64, selection: Selection, first_line: usize)
        requires
            old(self)@.ok(),
            old(self)@.has_pane(id),
            selection@.ok(),
        ensures
            final(self)@ == old(self)@.placed(id, selection@, first_line),
            final(self)@.ok(),
    {
        let ghost before = self@;
        proof {
            placed_ok(before, id, selection@, first_line);
        }
        let i = self.pane_index(id);
        assert(self@.panes[i as int] == self.panes@[i as int]@);
        let doc = self.panes[i].doc;
        let old_id = self.panes[i].id;
        let p = Pane { id: old_id, doc, selection, first_line };
        self.panes.set(i, p);
        assert(self@.panes =~= before.placed(id, selection@, first_line).panes);
        assert(self@ =~= before.placed(id, selection@, first_line));
    }

    /// Gives the focused pane a selection.
    pub fn set_selection(&mut self, selection: Selection)
        requires
            old(self)@.ok(),
            selection@.ok(),
        ensures
            final(self)@ == old(self)@.select(selection@),
            final(self)@.ok(),
    {
        let first_line = self.pane(self.focused).first_line;
        self.place(self.focused, selection, first_line);
    }

    /// Gives a document new contents.
    pub fn set_doc(&mut self, id: u64, text: String, dirty: bool, can_undo: bool, can_redo: bool)
        requires
            old(self)@.ok(),
            old(self)@.has_doc(id),
        ensures
            final(self)@ == old(self)@.with_doc(id, text@, dirty, can_undo, can_redo),
            final(self)@.ok(),
    {
        let ghost before = self@;
        proof {
            with_doc_ok(before, id, text@, dirty, can_undo, can_redo);
        }
        let i = self.doc_index(id);
        assert(self@.documents[i as int] == self.documents@[i as int]@);
        let path = copy_opt(&self.documents[i].path);
        let old_id = self.documents[i].id;
        let ghost t = text@;
        let d = Document { id: old_id, path, text, dirty, can_undo, can_redo };
        self.documents.set(i, d);
        assert(self@.documents =~= before.with_doc(id, t, dirty, can_undo, can_redo).documents);
        assert(self@ =~= before.with_doc(id, t, dirty, can_undo, can_redo));
    }

    /// Moves the focus to a pane.
    pub fn set_focused(&mut self, id: u64)
        requires
            old(self)@.ok(),
            old(self)@.has_pane(id),
        ensures
            final(self)@ == old(self)@.focus(id),
            final(self)@.ok(),
    {
        let ghost before = self@;
        self.focused = id;
        assert(self@ =~= before.focus(id));
        assert(self@.ok()) by {
            assert forall|i: int| 0 <= i < self@.panes.len() implies self@.has_doc(
                (#[trigger] self@.panes[i]).doc,
            ) && self@.panes[i].selection.ok() by {
                assert(before.has_doc(before.panes[i].doc));
            }
        }
    }

    /// Changes the mode.
    pub fn set_mode(&mut self, mode: Mode)
        ensures
            final(self)@ == old(self)@.in_mode(mode),
            old(self)@.ok() ==> final(self)@.ok(),
    {
        let ghost before = self@;
        self.mode = mode;
        assert(self@ =~= before.in_mode(mode));
        proof {
            mode_keeps_ok(before, self@);
        }
    }

    /// Opens or closes the undo group.
    pub fn set_group(&mut self, open: bool)
        ensures
            final(self)@ == old(self)@.with_group(open),
            old(self)@.ok() ==> final(self)@.ok(),
    {
        let ghost before = self@;
        self.group_open = open;
        assert(self@ =~= before.with_group(open));
        proof {
            mode_keeps_ok(before, self@);
        }
    }
}

/// States with the same documents, panes and focus are consistent together.
pub proof fn mode_keeps_ok(a: EditorView, b: EditorView)
    requires
        a.documents == b.documents,
        a.panes == b.panes,
        a.focused == b.focused,
    ensures
        a.ok() ==> b.ok(),
{
    if a.ok() {
        assert forall|i: int| 0 <= i < b.panes.len() implies b.has_doc((#[trigger] b.panes[i]).doc)
            && b.panes[i].selection.ok() by {
            assert(a.has_doc(a.panes[i].doc));
        }
    }
}

/// Where a pane is found when another one is taken out or put behind.
proof fn pane_from_removed(panes: Seq<PaneView>, k: int, o: u64, i: int)
    requires
        0 <= i <= panes.len(),
        0 <= k < panes.len(),
        panes[k].id != o,
    ensures
        ({
            let f = pane_from(panes, o, i);
            let g = pane_from(panes.remove(k), o, if i <= k {
                i
            } else {
                i - 1
            });
            g == if f < k {
                f
            } else {
                f - 1
            }
        }),
    decreases panes.len() - i,
{
    let rest = panes.remove(k);
    if i < panes.len() {
        if i < k {
            assert(rest[i] == panes[i]);
        } else if i > k {
            assert(rest[i - 1] == panes[i]);
        }
        if panes[i].id != o {
            pane_from_removed(panes, k, o, i + 1);
        }
    }
}

proof fn pane_from_pushed(panes: Seq<PaneView>, p: PaneView, o: u64, i: int)
    requires
        0 <= i <= panes.len(),
    ensures
        ({
            let f = pane_from(panes, o, i);
            let g = pane_from(panes.push(p), o, i);
            if f < panes.len() || p.id == o {
                g == f
            } else {
                g == f + 1
            }
        }),
    decreases panes.len() - i,
{
    let more = panes.push(p);
    if i < panes.len() {
        assert(more[i] == panes[i]);
        if panes[i].id != o {
            pane_from_pushed(panes, p, o, i + 1);
        }
    } else {
        if p.id != o {
            assert(pane_from(more, o, i + 1) == i + 1);
        }
    }
}

impl EditorView {
    /// The state without a pane.
    pub open spec fn without_pane(self, id: u64) -> EditorView {
        EditorView { panes: self.panes.remove(pane_from(self.panes, id, 0)), ..self }
    }

    /// The state with one more pane.
    pub open spec fn with_pane(self, p: PaneView) -> EditorView {
        EditorView { panes: self.panes.push(p), ..self }
    }
}

/// Taking a pane out keeps the other panes.
pub proof fn without_pane_laws(e: EditorView, id: u64)
    requires
        e.ok(),
        e.has_pane(id),
        id != e.focused,
    ensures
        e.without_pane(id).ok(),
        forall|o: u64| o != id ==> #[trigger] e.without_pane(id).has_pane(o) == e.has_pane(o),
        forall|o: u64|
            o != id && e.has_pane(o) ==> #[trigger] e.without_pane(id).pane(o) == e.pane(o),
{
    let k = pane_from(e.panes, id, 0);
    let n = e.without_pane(id);
    pane_from_bounds(e.panes, id, 0);
    assert forall|o: u64| o != id implies #[trigger] n.has_pane(o) == e.has_pane(o) by {
        pane_from_removed(e.panes, k, o, 0);
        pane_from_bounds(e.panes, o, 0);
    }
    assert forall|o: u64| o != id && e.has_pane(o) implies #[trigger] n.pane(o) == e.pane(o) by {
        pane_from_removed(e.panes, k, o, 0);
        pane_from_bounds(e.panes, o, 0);
    }
    assert(n.has_pane(e.focused));
    assert forall|i: int| 0 <= i < n.panes.len() implies n.has_doc((#[trigger] n.panes[i]).doc)
        && n.panes[i].selection.ok() by {
        let j = if i < k { i } else { i + 1 };
        assert(n.panes[i] == e.panes[j]);
        assert(e.has_doc(e.panes[j].doc));
    }
}

/// Adding a pane with a new id keeps the other panes.
pub proof fn with_pane_laws(e: EditorView, p: PaneView)
    requires
        e.ok(),
        !e.has_pane(p.id),
        e.has_doc(p.doc),
        p.selection.ok(),
    ensures
        e.with_pane(p).ok(),
        e.with_pane(p).has_pane(p.id),
        e.with_pane(p).pane(p.id) == p,
        forall|o: u64| o != p.id ==> #[trigger] e.with_pane(p).has_pane(o) == e.has_pane(o),
        forall|o: u64| e.has_pane(o) ==> #[trigger] e.with_pane(p).pane(o) == e.pane(o),
{
    let n = e.with_pane(p);
    pane_from_bounds(e.panes, p.id, 0);
    pane_from_pushed(e.panes, p, p.id, 0);
    assert forall|o: u64| o != p.id implies #[trigger] n.has_pane(o) == e.has_pane(o) by {
        pane_from_pushed(e.panes, p, o, 0);
        pane_from_bounds(e.panes, o, 0);
    }
    assert forall|o: u64| e.has_pane(o) implies #[trigger] n.pane(o) == e.pane(o) by {
        pane_from_pushed(e.panes, p, o, 0);
        pane_from_bounds(e.panes, o, 0);
    }
    assert(n.has_pane(e.focused)) by {
        pane_from_pushed(e.panes, p, e.focused, 0);
    }
    assert forall|i: int| 0 <= i < n.panes.len() implies n.has_doc((#[trigger] n.panes[i]).doc)
        && n.panes[i].selection.ok() by {
        if i < e.panes.len() {
            assert(e.has_doc(e.panes[i].doc));
        }
    }
}

impl Editor {
    /// Takes a pane out.
    pub fn remove_pane(&mut self, id: u64)
        requires
            old(self)@.ok(),
            old(self)@.has_pane(id),
            id != old(self)@.focused,
        ensures
            final(self)@ == old(self)@.without_pane(id),
            final(self)@.ok(),
    {
        let ghost before = self@;
        proof {
            without_pane_laws(before, id);
            pane_from_bounds(before.panes, id, 0);
        }
        let i = self.pane_index(id);
        let _gone = self.panes.remove(i);
        assert(self@.panes =~= before.without_pane(id).panes);
        assert(self@ =~= before.without_pane(id));
    }

    /// Adds a pane.
    pub fn add_pane(&mut self, pane: Pane)
        requires
            old(self)@.ok(),
            !old(self)@.has_pane(pane.id),
            old(self)@.has_doc(pane.doc),
            pane.selection@.ok(),
        ensures
            final(self)@ == old(self)@.with_pane(pane@),
            final(self)@.ok(),
    {
        let ghost before = self@;
        let ghost p = pane@;
        proof {
            with_pane_laws(before, p);
        }
        self.panes.push(pane);
        assert(self@.panes =~= before.with_pane(p).panes);
        assert(self@ =~= before.with_pane(p));
    }
}

} // verus!
