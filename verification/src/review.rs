//! Review comments: at most one per line and side, and where their lines are now.
use vstd::prelude::*;

use crate::daemon::{anchors_differ, same_anchor, Daemon};
use crate::lists::{picked_is_filter, split_marked};
use crate::log::{event_laws, LogView};
use crate::strings::{all_white, is_blank, same};
use crate::text::{lines_of, split_lines};
use crate::types::{
    EventKind, EventSource, ReviewComment, ReviewCommentView, ReviewSide, ServerMessage,
};

verus! {

/// Whether comment `i` is attached where `c` is.
pub open spec fn anchored_at(v: Seq<ReviewComment>, c: ReviewComment, i: int) -> bool {
    0 <= i < v.len() && same_anchor(v[i], c)
}

/// The comments after `c` has come: a blank body takes the comment at its place away, any other
/// body replaces it or is added at the end.
pub open spec fn with_comment(v: Seq<ReviewComment>, c: ReviewComment) -> Seq<ReviewComment> {
    if all_white(c.body@) {
        elsewhere(v, c)
    } else if exists|i: int| #[trigger] anchored_at(v, c, i) {
        v.update(anchor_of(v, c), c)
    } else {
        v.push(c)
    }
}

/// The place of the comment that is attached where `c` is.
pub open spec fn anchor_of(v: Seq<ReviewComment>, c: ReviewComment) -> int {
    choose|i: int| #[trigger] anchored_at(v, c, i)
}

/// Index of the first line from `i` on that is `snippet`, or the number of lines.
pub open spec fn first_line_like(lines: Seq<Seq<char>>, snippet: Seq<char>, i: int) -> int
    decreases lines.len() - i,
{
    if i >= lines.len() || lines[i] == snippet {
        i
    } else {
        first_line_like(lines, snippet, i + 1)
    }
}

/// Where a commented line is now, counted from 1, and whether it has moved. A line that still reads
/// as it did stays; else the first line that reads so is taken; if there is none, or no text, the
/// comment stays where it was.
pub open spec fn line_now(text: Option<Seq<char>>, line: u32, snippet: Seq<char>) -> (u32, bool) {
    match text {
        Some(t) => {
            let lines = lines_of(t);
            let idx = if line >= 1 {
                line - 1
            } else {
                0
            };
            if idx < lines.len() && lines[idx] == snippet {
                (line, false)
            } else {
                let found = first_line_like(lines, snippet, 0);
                if found < lines.len() {
                    ((found + 1) as u32, true)
                } else {
                    (line, true)
                }
            }
        },
        None => (line, true),
    }
}

proof fn first_line_bounds(lines: Seq<Seq<char>>, snippet: Seq<char>, i: int)
    requires
        0 <= i <= lines.len(),
    ensures
        i <= first_line_like(lines, snippet, i) <= lines.len(),
        first_line_like(lines, snippet, i) < lines.len() ==> lines[first_line_like(
            lines,
            snippet,
            i,
        )] == snippet,
        forall|j: int| i <= j < first_line_like(lines, snippet, i) ==> #[trigger] lines[j] != snippet,
    decreases lines.len() - i,
{
    if i < lines.len() && lines[i] != snippet {
        first_line_bounds(lines, snippet, i + 1);
    }
}

/// A comment has moved exactly if its line does not read as it did. It is then shown at the first
/// line that does, and stays where it was if there is none.
pub proof fn line_laws(text: Seq<char>, line: u32, snippet: Seq<char>)
    requires
        line >= 1,
        lines_of(text).len() <= u32::MAX,
    ensures
        ({
            let lines = lines_of(text);
            let (now, moved) = line_now(Some(text), line, snippet);
            &&& !moved <==> line <= lines.len() && lines[line - 1] == snippet
            &&& !moved ==> now == line
            &&& moved && lines.contains(snippet) ==> {
                &&& 1 <= now <= lines.len()
                &&& lines[now - 1] == snippet
                &&& forall|j: int| 0 <= j < now - 1 ==> #[trigger] lines[j] != snippet
            }
            &&& moved && !lines.contains(snippet) ==> now == line
        }),
{
    let lines = lines_of(text);
    first_line_bounds(lines, snippet, 0);
    if lines.contains(snippet) {
        let k = lines.index_of(snippet);
        assert(lines[k] == snippet);
    } else {
        let f = first_line_like(lines, snippet, 0);
        if f < lines.len() {
            assert(lines.contains(lines[f]));
        }
    }
}

/// What the disk holds at a comment's path: whether something is there, and its text if it can be
/// read as text.
pub struct DiskFact {
    pub exists: bool,
    pub text: Option<String>,
}

/// The text that a comment on the current side is held against: the open document's, else the
/// disk's.
pub open spec fn text_at(d: Daemon, path: Seq<char>, fact: DiskFact) -> Option<Seq<char>> {
    if d.editor@.has_path(path) {
        Some(d.editor@.doc_at(path).text)
    } else {
        crate::editor::opt_view(fact.text)
    }
}

/// Whether `v` is comment `c` with its line resolved.
pub open spec fn is_resolved(d: Daemon, c: ReviewComment, fact: DiskFact, v: ReviewCommentView) -> bool {
    &&& v.path@ == c.path@
    &&& v.side == c.side
    &&& v.line == c.line
    &&& v.snippet@ == c.snippet@
    &&& v.body@ == c.body@
    &&& v.base@ == c.base@
    &&& match c.side {
        ReviewSide::Base => v.resolved_line == c.line && v.stale == !fact.exists,
        ReviewSide::Current => (v.resolved_line, v.stale) == line_now(
            text_at(d, c.path@, fact),
            c.line,
            c.snippet@,
        ),
    }
}

proof fn filter_keeps_anchors_apart(v: Seq<ReviewComment>, keep: spec_fn(ReviewComment) -> bool)
    requires
        anchors_differ(v),
    ensures
        anchors_differ(v.filter(keep)),
        forall|i: int|
            0 <= i < v.filter(keep).len() ==> v.contains(#[trigger] v.filter(keep)[i]) && keep(
                v.filter(keep)[i],
            ),
    decreases v.len(),
{
    reveal(Seq::filter);
    if v.len() > 0 {
        let s = v.drop_last();
        filter_keeps_anchors_apart(s, keep);
        let f = v.filter(keep);
        let g = s.filter(keep);
        assert forall|i: int| 0 <= i < f.len() implies v.contains(#[trigger] f[i]) && keep(f[i]) by {
            if i < g.len() {
                assert(f[i] == g[i]);
                let m = s.index_of(g[i]);
                assert(v[m] == g[i]);
            } else {
                assert(f[i] == v[v.len() - 1]);
            }
        }
        assert forall|i: int, j: int| 0 <= i < j < f.len() implies !same_anchor(
            #[trigger] f[i],
            #[trigger] f[j],
        ) by {
            if j == g.len() {
                let m = s.index_of(g[i]);
                assert(s.contains(g[i]));
                assert(v[m] == f[i]);
                assert(v[v.len() - 1] == f[j]);
            }
        }
    }
}

proof fn others_stay(v: Seq<ReviewComment>, k: int, c: ReviewComment)
    requires
        anchored_at(v, c, k),
    ensures
        elsewhere(v.update(k, c), c) == elsewhere(v, c),
    decreases v.len(),
{
    reveal(Seq::filter);
    let w = v.update(k, c);
    if k == v.len() - 1 {
        assert(w.drop_last() =~= v.drop_last());
    } else {
        others_stay(v.drop_last(), k, c);
        assert(w.drop_last() =~= v.drop_last().update(k, c));
    }
}

proof fn elsewhere_twice(v: Seq<ReviewComment>, c: ReviewComment)
    ensures
        elsewhere(elsewhere(v, c), c) == elsewhere(v, c),
    decreases v.len(),
{
    reveal(Seq::filter);
    if v.len() > 0 {
        elsewhere_twice(v.drop_last(), c);
        let before = elsewhere(v.drop_last(), c);
        if !same_anchor(v.last(), c) {
            assert(before.push(v.last()).drop_last() =~= before);
        }
    }
}

/// The comments that are not attached where `c` is, in order.
pub open spec fn elsewhere(v: Seq<ReviewComment>, c: ReviewComment) -> Seq<ReviewComment> {
    v.filter(|e: ReviewComment| !same_anchor(e, c))
}

/// What a comment that comes does: no two comments are at the same place. A blank one leaves its
/// place empty. Any other one is then the only one at its place, where the former one was, or at the
/// end if there was none. Every comment at another place stays as it is, in the same order.
pub proof fn comment_laws(v: Seq<ReviewComment>, c: ReviewComment)
    requires
        anchors_differ(v),
    ensures
        ({
            let w = with_comment(v, c);
            &&& anchors_differ(w)
            &&& elsewhere(w, c) == elsewhere(v, c)
            &&& w.len() <= v.len() + 1
            &&& if all_white(c.body@) {
                forall|i: int| !#[trigger] anchored_at(w, c, i)
            } else {
                &&& w.contains(c)
                &&& forall|i: int| #[trigger] anchored_at(w, c, i) ==> w[i] == c
                &&& forall|i: int, j: int| #[trigger]
                    anchored_at(w, c, i) && #[trigger] anchored_at(w, c, j) ==> i == j
                &&& forall|k: int| #[trigger]
                    anchored_at(v, c, k) ==> w.len() == v.len() && w[k] == c
                &&& (forall|k: int| !#[trigger] anchored_at(v, c, k)) ==> w == v.push(c)
            }
        }),
{
    let w = with_comment(v, c);
    if all_white(c.body@) {
        let keep = |e: ReviewComment| !same_anchor(e, c);
        filter_keeps_anchors_apart(v, keep);
        v.lemma_filter_len(keep);
        elsewhere_twice(v, c);
        assert forall|i: int| !#[trigger] anchored_at(w, c, i) by {
            if 0 <= i < w.len() {
                assert(keep(w[i]));
            }
        }
    } else {
        if exists|i: int| #[trigger] anchored_at(v, c, i) {
            let k = anchor_of(v, c);
            assert(anchored_at(v, c, k));
            assert(w[k] == c);
            others_stay(v, k, c);
            assert forall|i: int, j: int| 0 <= i < j < w.len() implies !same_anchor(
                #[trigger] w[i],
                #[trigger] w[j],
            ) by {
                assert(!same_anchor(v[i], v[j]));
            }
            assert forall|i: int| #[trigger] anchored_at(v, c, i) implies i == k by {
                if i < k {
                    assert(!same_anchor(v[i], v[k]));
                } else if k < i {
                    assert(!same_anchor(v[k], v[i]));
                }
            }
        } else {
            assert(w[v.len() as int] == c);
            reveal(Seq::filter);
            assert(v.push(c).drop_last() =~= v);
            assert forall|i: int, j: int| 0 <= i < j < w.len() implies !same_anchor(
                #[trigger] w[i],
                #[trigger] w[j],
            ) by {
                if j == v.len() {
                    assert(!anchored_at(v, c, i));
                }
            }
        }
        let m = w.index_of(c);
        assert(w[m] == c);
        assert(anchored_at(w, c, m));
        assert forall|i: int| #[trigger] anchored_at(w, c, i) implies i == m by {
            if i < m {
                assert(!same_anchor(w[i], w[m]));
            } else if m < i {
                assert(!same_anchor(w[m], w[i]));
            }
        }
    }
}

/// A comment that comes counts as one change, whatever it does to the others.
pub proof fn comment_is_counted(log: LogView, source: EventSource)
    requires
        log.ok(),
        log.room(1),
    ensures
        log.event(source, EventKind::ReviewComment, None, None).generation == log.generation + 1,
        log.event(source, EventKind::ReviewComment, None, None).events.last().kind
            == EventKind::ReviewComment,
{
    event_laws(log, source, EventKind::ReviewComment, None, None);
}

/// Whether two comments are attached at the same place.
fn same_place(a: &ReviewComment, b: &ReviewComment) -> (r: bool)
    ensures
        r == same_anchor(*a, *b),
{
    same(a.path.as_str(), b.path.as_str()) && a.side == b.side && a.line == b.line
}

/// Where a commented line is now.
pub fn resolve_current_line(text: Option<&str>, line: u32, snippet: &str) -> (r: (u32, bool))
    requires
        text is Some ==> lines_of(text->0@).len() <= u32::MAX,
    ensures
        r == line_now(
            match text {
                Some(t) => Some(t@),
                None => None,
            },
            line,
            snippet@,
        ),
{
    let t = match text {
        Some(t) => t,
        None => {
            return (line, true);
        },
    };
    let lines = split_lines(t);
    let ghost ls = lines_of(t@);
    let idx: usize = if line >= 1 {
        (line - 1) as usize
    } else {
        0
    };
    if idx < lines.len() {
        assert(lines@[idx as int]@ == ls[idx as int]);
        if same(lines[idx].as_str(), snippet) {
            return (line, false);
        }
    }
    let mut i: usize = 0;
    proof {
        first_line_bounds(ls, snippet@, 0);
    }
    while i < lines.len()
        invariant
            i <= lines.len(),
            ls == lines_of(t@),
            text == Some(t),
            ls.len() <= u32::MAX,
            lines@.len() == ls.len(),
            forall|j: int| 0 <= j < lines@.len() ==> (#[trigger] lines@[j])@ == ls[j],
            first_line_like(ls, snippet@, 0) == first_line_like(ls, snippet@, i as int),
            !({
                let k = if line >= 1 {
                    line - 1
                } else {
                    0
                };
                k < ls.len() && ls[k] == snippet@
            }),
        decreases lines.len() - i,
    {
        if same(lines[i].as_str(), snippet) {
            assert(lines@[i as int]@ == ls[i as int]);
            return (i as u32 + 1, true);
        }
        i = i + 1;
    }
    (line, true)
}

impl Daemon {
    /// Adds, replaces or, by a blank body, deletes a review comment.
    pub fn add_review_comment(&mut self, c: ReviewComment, source: EventSource)
        requires
            old(self).wf(),
            old(self).log@.room(1),
        ensures
            final(self).wf(),
            *final(self) == (Daemon {
                review_comments: final(self).review_comments,
                log: final(self).log,
                ..*old(self)
            }),
            final(self).review_comments@ == with_comment(old(self).review_comments@, c),
            final(self).log@ == old(self).log@.event(source, EventKind::ReviewComment, None, None),
    {
        let ghost before = self.review_comments@;
        proof {
            comment_laws(before, c);
        }
        if is_blank(c.body.as_str()) {
            let mut marks: Vec<bool> = Vec::new();
            let mut i: usize = 0;
            while i < self.review_comments.len()
                invariant
                    i <= self.review_comments@.len(),
                    marks@.len() == i,
                    forall|j: int|
                        0 <= j < i ==> #[trigger] marks@[j] == !same_anchor(
                            self.review_comments@[j],
                            c,
                        ),
                decreases self.review_comments@.len() - i,
            {
                marks.push(!same_place(&self.review_comments[i], &c));
                i = i + 1;
            }
            proof {
                picked_is_filter(before, marks@, |e: ReviewComment| !same_anchor(e, c));
            }
            let _gone = split_marked(&mut self.review_comments, &marks);
        } else {
            let mut i: usize = 0;
            while i < self.review_comments.len() && !same_place(&self.review_comments[i], &c)
                invariant
                    i <= self.review_comments.len(),
                    self.review_comments@ == before,
                    *self == *old(self),
                    forall|j: int| 0 <= j < i ==> !#[trigger] anchored_at(before, c, j),
                decreases self.review_comments.len() - i,
            {
                i = i + 1;
            }
            if i < self.review_comments.len() {
                proof {
                    assert(anchored_at(before, c, i as int));
                    let k = anchor_of(before, c);
                    assert(anchored_at(before, c, k));
                    if k < i {
                        assert(!same_anchor(before[k], before[i as int]));
                    } else if i < k {
                        assert(!same_anchor(before[i as int], before[k]));
                    }
                }
                self.review_comments.set(i, c);
            } else {
                self.review_comments.push(c);
            }
        }
        assert(self.review_comments@ == with_comment(before, c));
        self.log.record_event(source, EventKind::ReviewComment, None, None);
    }

    /// Drops all review comments. If there are none, nothing changes.
    pub fn clear_review_comments(&mut self, source: EventSource)
        requires
            old(self).wf(),
            old(self).log@.room(1),
        ensures
            final(self).wf(),
            old(self).review_comments@.len() == 0 ==> *final(self) == *old(self),
            old(self).review_comments@.len() > 0 ==> {
                &&& *final(self) == (Daemon {
                    review_comments: final(self).review_comments,
                    log: final(self).log,
                    ..*old(self)
                })
                &&& final(self).review_comments@.len() == 0
                &&& final(self).log@ == old(self).log@.event(
                    source,
                    EventKind::ReviewComment,
                    None,
                    None,
                )
            },
    {
        if self.review_comments.len() == 0 {
            return;
        }
        self.review_comments = Vec::new();
        self.log.record_event(source, EventKind::ReviewComment, None, None);
    }

    /// The review comments with their lines resolved. `disk` says of each comment's path what the
    /// disk holds there. What is stored does not change.
    pub fn resolve_review_comments(&self, disk: &Vec<DiskFact>) -> (r: Vec<ReviewCommentView>)
        requires
            self.wf(),
            disk@.len() == self.review_comments@.len(),
            forall|i: int|
                0 <= i < disk@.len() ==> (text_at(
                    *self,
                    (#[trigger] self.review_comments@[i]).path@,
                    disk@[i],
                ) matches Some(t) ==> lines_of(t).len() <= u32::MAX),
        ensures
            r@.len() == self.review_comments@.len(),
            forall|i: int|
                0 <= i < r@.len() ==> is_resolved(
                    *self,
                    self.review_comments@[i],
                    disk@[i],
                    #[trigger] r@[i],
                ),
    {
        let mut out: Vec<ReviewCommentView> = Vec::new();
        let mut i: usize = 0;
        while i < self.review_comments.len()
            invariant
                i <= self.review_comments.len(),
                self.wf(),
                disk@.len() == self.review_comments@.len(),
                forall|i: int|
                    0 <= i < disk@.len() ==> (text_at(
                        *self,
                        (#[trigger] self.review_comments@[i]).path@,
                        disk@[i],
                    ) matches Some(t) ==> lines_of(t).len() <= u32::MAX),
                out@.len() == i,
                forall|j: int|
                    0 <= j < i ==> is_resolved(
                        *self,
                        self.review_comments@[j],
                        disk@[j],
                        #[trigger] out@[j],
                    ),
            decreases self.review_comments.len() - i,
        {
            let c = &self.review_comments[i];
            let (resolved_line, stale): (u32, bool) = match c.side {
                ReviewSide::Base => (c.line, !disk[i].exists),
                ReviewSide::Current => {
                    let text: Option<&str> = match self.editor.doc_for_path(c.path.as_str()) {
                        Some(d) => Some(d.text.as_str()),
                        None => match &disk[i].text {
                            Some(t) => Some(t.as_str()),
                            None => None,
                        },
                    };
                    resolve_current_line(text, c.line, c.snippet.as_str())
                },
            };
            out.push(
                ReviewCommentView {
                    path: c.path.clone(),
                    side: c.side,
                    line: c.line,
                    resolved_line,
                    stale,
                    snippet: c.snippet.clone(),
                    body: c.body.clone(),
                    base: c.base.clone(),
                },
            );
            i = i + 1;
        }
        out
    }

    /// The answer to a request for the review comments.
    pub fn serve_review_comments(&self, disk: &Vec<DiskFact>) -> (r: ServerMessage)
        requires
            self.wf(),
            disk@.len() == self.review_comments@.len(),
            forall|i: int|
                0 <= i < disk@.len() ==> (text_at(
                    *self,
                    (#[trigger] self.review_comments@[i]).path@,
                    disk@[i],
                ) matches Some(t) ==> lines_of(t).len() <= u32::MAX),
        ensures
            r matches ServerMessage::ReviewComments { generation, comments } && {
                &&& generation == self.log@.generation
                &&& comments@.len() == self.review_comments@.len()
                &&& forall|i: int|
                    0 <= i < comments@.len() ==> is_resolved(
                        *self,
                        self.review_comments@[i],
                        disk@[i],
                        #[trigger] comments@[i],
                    )
            },
    {
        ServerMessage::ReviewComments {
            generation: self.log.generation,
            comments: self.resolve_review_comments(disk),
        }
    }
}

} // verus!
