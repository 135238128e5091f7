//! Renaming a symbol across files: what is asked, what the server's edits become, and how they are
//! put into open documents and written.
use vstd::prelude::*;

use crate::base::{first_root, in_base, read_only_notice};
use crate::clients::{foreign_session, panes_ok_same_ids, session_closed};
use crate::daemon::{Daemon, DiskBaseline};
use crate::edits::EditFacts;
use crate::editor::{opt_view, with_doc_ok, EditorView};
use crate::finish::{one_event, saved};
use crate::log::LogView;
use crate::open::doc_at_has_id;
use crate::paths::{deep, path_from_uri};
use crate::strings::{debug_quoted, has_prefix, joined, joined3, quoted};
use crate::table::put;
use crate::text::{splice, spliced};
use crate::types::{EventKind, EventSource, Mode, Range, ServerMessage};

verus! {

/// A stretch of a text and what it becomes.
pub struct CharEdit {
    pub start: usize,
    pub end: usize,
    pub text: String,
}

/// The edits of one file.
pub struct RenameFile {
    pub path: String,
    pub edits: Vec<CharEdit>,
}

/// Whether edits lie within a text of `len` characters, in order and apart from each other.
pub open spec fn edits_fit(edits: Seq<CharEdit>, len: nat) -> bool {
    &&& forall|i: int|
        0 <= i < edits.len() ==> (#[trigger] edits[i]).start <= edits[i].end && edits[i].end <= len
    &&& forall|i: int, j: int|
        0 <= i < j < edits.len() ==> (#[trigger] edits[i]).end <= (#[trigger] edits[j]).start
}

/// A text with all edits made. Each speaks of the text as it was, so the last is made first.
pub open spec fn edited(text: Seq<char>, edits: Seq<CharEdit>) -> Seq<char>
    decreases edits.len(),
{
    if edits.len() == 0 {
        text
    } else {
        let e = edits.last();
        edited(spliced(text, e.start as int, e.end as int, e.text@), edits.drop_last())
    }
}

/// How much longer a text gets.
pub open spec fn growth(edits: Seq<CharEdit>) -> int
    decreases edits.len(),
{
    if edits.len() == 0 {
        0
    } else {
        let e = edits.last();
        growth(edits.drop_last()) + e.text@.len() - (e.end - e.start)
    }
}

/// The edits change nothing before the first and nothing after the last, and the length of what is
/// in between follows from them.
pub proof fn edited_keeps_the_rest(text: Seq<char>, edits: Seq<CharEdit>)
    requires
        edits_fit(edits, text.len()),
    ensures
        edited(text, edits).len() == text.len() + growth(edits),
        edits.len() > 0 ==> {
            &&& edited(text, edits).len() >= edits[0].start + text.len() - edits.last().end
            &&& edited(text, edits).take(edits[0].start as int) == text.take(edits[0].start as int)
            &&& edited(text, edits).skip(
                edited(text, edits).len() - (text.len() - edits.last().end),
            ) == text.skip(edits.last().end as int)
        },
    decreases edits.len(),
{
    if edits.len() > 0 {
        let e = edits.last();
        let t1 = spliced(text, e.start as int, e.end as int, e.text@);
        let rest = edits.drop_last();
        assert(edits_fit(rest, t1.len())) by {
            assert forall|i: int| 0 <= i < rest.len() implies (#[trigger] rest[i]).start
                <= rest[i].end && rest[i].end <= t1.len() by {
                assert(edits[i].end <= edits[edits.len() - 1].start);
            }
            assert forall|i: int, j: int| 0 <= i < j < rest.len() implies (#[trigger] rest[i]).end
                <= (#[trigger] rest[j]).start by {
                assert(edits[i].end <= edits[j].start);
            }
        }
        edited_keeps_the_rest(t1, rest);
        let done = edited(text, edits);
        let k = text.len() - e.end;
        if rest.len() == 0 {
            assert(done.take(e.start as int) =~= text.take(e.start as int));
            assert(done.skip(done.len() - k) =~= text.skip(e.end as int));
        } else {
            let first = edits[0].start as int;
            assert(edits[0].end <= edits[edits.len() - 1].start);
            assert(rest[0] == edits[0]);
            assert(t1.take(first) =~= text.take(first));
            let l = rest.last().end as int;
            let m = t1.len() - l;
            assert(rest.last() == edits[edits.len() - 2]);
            assert(edits[edits.len() - 2].end <= edits[edits.len() - 1].start);
            assert(done.skip(done.len() - k) =~= done.skip(done.len() - m).skip(m - k));
            assert(t1.skip(l).skip(m - k) =~= text.skip(e.end as int));
        }
    }
}

/// Every edit is made, and what stands between two edits stays: the new text holds what edit `k`
/// puts in where the edits in front of it have moved its place to, and right behind it the old text
/// up to the next edit, or up to the end.
pub proof fn every_edit_is_made(text: Seq<char>, edits: Seq<CharEdit>, k: int)
    requires
        edits_fit(edits, text.len()),
        0 <= k < edits.len(),
    ensures
        ({
            let now = edited(text, edits);
            let at = edits[k].start + growth(edits.take(k));
            let behind = at + edits[k].text@.len();
            let next = if k + 1 < edits.len() {
                edits[k + 1].start as int
            } else {
                text.len() as int
            };
            &&& 0 <= at <= behind <= behind + next - edits[k].end <= now.len()
            &&& behind == edits[k].end + growth(edits.take(k + 1))
            &&& now.subrange(at, behind) == edits[k].text@
            &&& now.subrange(behind, behind + next - edits[k].end) == text.subrange(
                edits[k].end as int,
                next,
            )
            &&& k == 0 ==> now.take(at) == text.take(at)
        }),
    decreases edits.len(),
{
    let n = edits.len();
    let e = edits.last();
    let (lo, hi) = (e.start as int, e.end as int);
    let t1 = spliced(text, lo, hi, e.text@);
    let rest = edits.drop_last();
    assert forall|i: int| 0 <= i < rest.len() implies (#[trigger] rest[i]).start <= rest[i].end
        && rest[i].end <= t1.len() by {
        assert(edits[i].end <= edits[n - 1].start);
    }
    assert forall|i: int, j: int| 0 <= i < j < rest.len() implies (#[trigger] rest[i]).end
        <= (#[trigger] rest[j]).start by {
        assert(edits[i].end <= edits[j].start);
    }
    let now = edited(text, edits);
    edited_keeps_the_rest(text, edits);
    assert(edits.take(n as int) =~= edits);
    assert(edits.take(n - 1) =~= rest);
    assert(edits.take(k + 1).drop_last() =~= edits.take(k));
    assert(edits.take(k + 1).last() == edits[k]);
    if n == 1 {
        assert(rest.len() == 0);
        assert(edited(t1, rest) == t1);
        assert(now.subrange(e.start as int, e.start + e.text@.len()) =~= e.text@);
        assert(now.subrange(e.start + e.text@.len(), now.len() as int) =~= text.subrange(
            e.end as int,
            text.len() as int,
        ));
        assert(now.take(e.start as int) =~= text.take(e.start as int));
    } else if k + 1 < n {
        every_edit_is_made(t1, rest, k);
        assert(rest.take(k) =~= edits.take(k));
        assert(rest.take(k + 1) =~= edits.take(k + 1));
        assert(edits[k].end <= edits[k + 1].start);
        assert(edits[k].end <= edits[n - 1].start);
        let at = edits[k].start + growth(edits.take(k));
        let behind = at + edits[k].text@.len();
        let next = edits[k + 1].start as int;
        assert(t1.subrange(edits[k].end as int, next) =~= text.subrange(edits[k].end as int, next));
        if k + 1 == n - 1 {
            let tail = now.subrange(behind, behind + t1.len() - edits[k].end);
            assert(now.subrange(behind, behind + next - edits[k].end) =~= tail.take(
                next - edits[k].end,
            ));
            assert(t1.subrange(edits[k].end as int, t1.len() as int).take(next - edits[k].end)
                =~= text.subrange(edits[k].end as int, next));
        }
        if k == 0 {
            assert(t1.take(at) =~= text.take(at));
        }
    } else {
        every_edit_is_made(t1, rest, k - 1);
        assert(rest.take(k) =~= edits.take(k));
        assert(edits[k - 1].end <= edits[k].start);
        let l = edits[k - 1].end as int;
        let from = l + growth(rest);
        let tail = now.subrange(from, from + t1.len() - l);
        let at = e.start + growth(rest);
        let behind = at + e.text@.len();
        assert(tail == t1.subrange(l, t1.len() as int));
        assert(now.subrange(at, behind) =~= tail.subrange(e.start - l, e.start - l + e.text@.len()));
        assert(t1.subrange(l, t1.len() as int).subrange(e.start - l, e.start - l + e.text@.len())
            =~= e.text@);
        assert(now.subrange(behind, behind + text.len() - e.end) =~= tail.subrange(
            e.start - l + e.text@.len(),
            t1.len() - l,
        ));
        assert(t1.subrange(l, t1.len() as int).subrange(
            e.start - l + e.text@.len(),
            t1.len() - l,
        ) =~= text.subrange(e.end as int, text.len() as int));
    }
}

/// Without edits a text stays as it is.
pub proof fn no_edits_change_nothing(text: Seq<char>, edits: Seq<CharEdit>)
    requires
        edits.len() == 0,
    ensures
        edited(text, edits) == text,
{
}

/// Whether edits lie within a text of `len` characters, in order and apart from each other.
pub fn check_edits(edits: &Vec<CharEdit>, len: usize) -> (r: bool)
    ensures
        r == edits_fit(edits@, len as nat),
{
    let mut i: usize = 0;
    let mut floor: usize = 0;
    while i < edits.len()
        invariant
            i <= edits.len(),
            edits_fit(edits@.take(i as int), len as nat),
            i == 0 ==> floor == 0,
            i > 0 ==> floor == edits@[i - 1].end,
        decreases edits.len() - i,
    {
        let ghost before = edits@.take(i as int);
        let ghost now = edits@.take(i + 1);
        if edits[i].start > edits[i].end || edits[i].end > len || edits[i].start < floor {
            assert(edits@[i as int].start > edits@[i as int].end || edits@[i as int].end > len || (i
                > 0 && edits@[i - 1].end > edits@[i as int].start));
            return false;
        }
        proof {
            assert forall|j: int| 0 <= j < now.len() implies (#[trigger] now[j]).start <= now[j].end
                && now[j].end <= len by {
                if j < i {
                    assert(before[j] == now[j]);
                }
            }
            assert forall|j: int, k: int| 0 <= j < k < now.len() implies (#[trigger] now[j]).end
                <= (#[trigger] now[k]).start by {
                if k < i {
                    assert(before[j] == now[j] && before[k] == now[k]);
                } else if j < i - 1 {
                    assert(before[j].end <= before[i - 1].start);
                    assert(before[i - 1].start <= before[i - 1].end);
                }
            }
        }
        floor = edits[i].end;
        i = i + 1;
    }
    assert(edits@.take(i as int) =~= edits@);
    true
}

/// Makes all edits of a text.
pub fn apply_char_edits(text: &str, edits: &Vec<CharEdit>) -> (r: String)
    requires
        edits_fit(edits@, text@.len()),
    ensures
        r@ == edited(text@, edits@),
{
    let mut out = text.to_owned();
    let mut i: usize = edits.len();
    assert(edits@.take(i as int) =~= edits@);
    while i > 0
        invariant
            i <= edits.len(),
            edits_fit(edits@, text@.len()),
            edited(out@, edits@.take(i as int)) == edited(text@, edits@),
            i == edits.len() ==> out@.len() == text@.len(),
            i < edits.len() ==> out@.len() >= edits@[i as int].start,
        decreases i,
    {
        i = i - 1;
        let ghost upto = edits@.take(i + 1);
        assert(upto.drop_last() =~= edits@.take(i as int));
        assert(upto.last() == edits@[i as int]);
        proof {
            if i + 1 < edits.len() {
                assert(edits@[i as int].end <= edits@[i + 1].start);
            }
        }
        out = splice(out.as_str(), edits[i].start, edits[i].end, edits[i].text.as_str());
    }
    assert(edits@.take(0) =~= Seq::<CharEdit>::empty());
    out
}

/// Whether a message is a refused rename.
pub open spec fn is_rename_error(m: ServerMessage, error: Seq<char>) -> bool {
    m matches ServerMessage::RenameResult { generation, files, edits, changed, error: e }
        && generation == 0 && files == 0 && edits == 0 && changed@.len() == 0 && opt_view(e) == Some(
        error,
    )
}

/// The answer to a rename that failed.
pub fn rename_error(msg: String) -> (r: ServerMessage)
    ensures
        is_rename_error(r, msg@),
{
    ServerMessage::RenameResult {
        generation: 0,
        files: 0,
        edits: 0,
        changed: Vec::new(),
        error: Some(msg),
    }
}

/// What a client is told of a symbol that is not there.
pub fn symbol_missing(name: &str, path: &str) -> (r: String)
    ensures
        r@ == "symbol not found: "@ + debug_quoted(name@) + " in "@ + path@,
{
    let mut m = "symbol not found: ".to_owned();
    let q = quoted(name);
    m.append(q.as_str());
    m.append(" in ");
    m.append(path);
    m
}

impl Daemon {
    /// Whether a rename may start; the answer if it may not. Both names are needed, and nothing
    /// below a base is renamed. `canonical` is the path as the disk resolves it, if it does.
    pub fn check_rename(&self, name: &str, new_name: &str, canonical: Option<&str>) -> (r: Option<
        ServerMessage,
    >)
        ensures
            r is None <==> name@.len() > 0 && new_name@.len() > 0 && !(canonical matches Some(c)
                && in_base(self.base_roots@, c@)),
            r matches Some(m) ==> if name@.len() == 0 || new_name@.len() == 0 {
                is_rename_error(m, "invalid input: old and new must be non-empty"@)
            } else {
                exists|i: int| #[trigger]
                    first_root(self.base_roots@, canonical->0@, i) && is_rename_error(
                        m,
                        read_only_notice(self.base_roots@[i].1.commit@, canonical->0@),
                    )
            },
    {
        if name.is_empty() || new_name.is_empty() {
            return Some(
                rename_error("invalid input: old and new must be non-empty".to_owned()),
            );
        }
        match canonical {
            Some(c) => match self.base_reject(c) {
                Some(m) => Some(rename_error(m)),
                None => None,
            },
            None => None,
        }
    }
}

/// What is known of one file that a rename touches: its address, whether its text could be had, and
/// its edits over that text or why they do not fit it.
pub struct RenameFact {
    pub uri: String,
    pub readable: bool,
    pub edits: Result<Vec<CharEdit>, String>,
}

/// Why a file cannot be renamed in, if it cannot.
pub open spec fn rename_fault(f: RenameFact) -> Option<Seq<char>> {
    let path = f.uri@.skip("file://"@.len() as int);
    if !has_prefix(f.uri@, "file://"@) {
        Some("file:// 以外の URI です: "@ + f.uri@)
    } else if !f.readable {
        Some("cannot open "@ + path + " (rename target)"@)
    } else {
        match f.edits {
            Err(e) => Some(path + ": "@ + e@),
            Ok(_) => None,
        }
    }
}

/// Whether fact `i` is the first with a fault.
pub open spec fn first_fault(v: Seq<RenameFact>, i: int) -> bool {
    &&& 0 <= i < v.len()
    &&& rename_fault(v[i]) is Some
    &&& forall|j: int| 0 <= j < i ==> rename_fault(#[trigger] v[j]) is None
}

/// Whether a file has something to change.
pub open spec fn has_edits(f: RenameFact) -> bool {
    f.edits matches Ok(v) && v@.len() > 0
}

/// The facts with something to change, of the first `n`.
pub open spec fn with_edits(v: Seq<RenameFact>, n: int) -> Seq<RenameFact>
    decreases n,
{
    if n <= 0 {
        Seq::empty()
    } else if has_edits(v[n - 1]) {
        with_edits(v, n - 1).push(v[n - 1])
    } else {
        with_edits(v, n - 1)
    }
}

/// Whether the files are those of the facts.
pub open spec fn files_of(files: Seq<RenameFile>, v: Seq<RenameFact>) -> bool {
    &&& files.len() == v.len()
    &&& forall|i: int|
        0 <= i < v.len() ==> (#[trigger] files[i]).path@ == v[i].uri@.skip("file://"@.len() as int)
            && Ok::<Vec<CharEdit>, String>(files[i].edits) == v[i].edits
}

/// The files that a rename changes. One file that cannot be renamed in refuses the whole rename, and
/// so does a rename that changes nothing: nothing was written up to here.
pub fn rename_files(facts: Vec<RenameFact>, name: &str, path: &str) -> (r: Result<
    Vec<RenameFile>,
    String,
>)
    ensures
        (exists|i: int| #[trigger] first_fault(facts@, i)) ==> r is Err,
        forall|i: int| #[trigger]
            first_fault(facts@, i) ==> (r matches Err(e) && Some(e@) == rename_fault(facts@[i])),
        (forall|i: int| 0 <= i < facts@.len() ==> rename_fault(#[trigger] facts@[i]) is None) ==> {
            let kept = with_edits(facts@, facts@.len() as int);
            match r {
                Ok(files) => kept.len() > 0 && files_of(files@, kept),
                Err(e) => kept.len() == 0 && e@ == "symbol not found: "@ + debug_quoted(name@)
                    + " in "@ + path@ + " (rename produced no edits)"@,
            }
        },
{
    let ghost all = facts@;
    let mut left = facts;
    let mut files: Vec<RenameFile> = Vec::new();
    let mut i: usize = 0;
    let n: usize = left.len();
    while i < n
        invariant
            i <= n,
            n == all.len(),
            all == facts@,
            left@.len() == n - i,
            forall|j: int| 0 <= j < n - i ==> #[trigger] left@[j] == all[i + j],
            forall|j: int| 0 <= j < i ==> rename_fault(#[trigger] all[j]) is None,
            files_of(files@, with_edits(all, i as int)),
        decreases n - i,
    {
        let f = left.remove(0);
        assert(f == all[i as int]);
        let target = match path_from_uri(f.uri.as_str()) {
            Ok(p) => p,
            Err(m) => {
                assert(first_fault(all, i as int));
                proof {
                    only_first_fault(all, i as int);
                }
                return Err(m);
            },
        };
        if !f.readable {
            assert(first_fault(all, i as int));
            proof {
                only_first_fault(all, i as int);
            }
            return Err(joined3("cannot open ", target.as_str(), " (rename target)"));
        }
        match f.edits {
            Err(e) => {
                assert(first_fault(all, i as int));
                proof {
                    only_first_fault(all, i as int);
                }
                return Err(joined3(target.as_str(), ": ", e.as_str()));
            },
            Ok(edits) => {
                assert(rename_fault(all[i as int]) is None);
                assert(with_edits(all, i + 1) == if edits@.len() > 0 {
                    with_edits(all, i as int).push(all[i as int])
                } else {
                    with_edits(all, i as int)
                });
                if edits.len() > 0 {
                    files.push(RenameFile { path: target, edits });
                }
            },
        }
        i = i + 1;
    }
    if files.len() == 0 {
        let mut m = symbol_missing(name, path);
        m.append(" (rename produced no edits)");
        return Err(m);
    }
    Ok(files)
}

proof fn only_first_fault(v: Seq<RenameFact>, i: int)
    requires
        first_fault(v, i),
    ensures
        forall|j: int| #[trigger] first_fault(v, j) ==> j == i,
{
    assert forall|j: int| #[trigger] first_fault(v, j) implies j == i by {
        if j < i {
            assert(rename_fault(v[j]) is None);
        }
        if i < j {
            assert(rename_fault(v[i]) is None);
        }
    }
}

/// A file to be written: its path, its new text, and the document that it is open in. `preempted`
/// says whether the undo history has to close a group before the edits.
pub struct RenameWrite {
    pub path: String,
    pub text: String,
    pub doc: Option<u64>,
    pub preempted: bool,
}

/// The documents after the edits of one file, if it is open.
pub open spec fn renamed_one(e: EditorView, f: RenameFile, facts: EditFacts) -> EditorView {
    if e.has_path(f.path@) {
        let d = e.doc_at(f.path@);
        e.with_doc(d.id, edited(d.text, f.edits@), facts.dirty, facts.can_undo, facts.can_redo)
    } else {
        e
    }
}

/// Whether one file's edits are recorded, if it is open: as a change by a headless client, with the
/// first edit.
pub open spec fn recorded_one(e: EditorView, f: RenameFile, a: LogView, b: LogView) -> bool {
    if e.has_path(f.path@) {
        one_event(
            a,
            b,
            EventSource::Headless,
            EventKind::ReplaceRange,
            if f.edits@.len() > 0 {
                Some(Range { anchor: f.edits@[0].start, head: f.edits@[0].end })
            } else {
                None
            },
            if f.edits@.len() > 0 {
                Some(f.edits@[0].text@)
            } else {
                None
            },
        )
    } else {
        a == b
    }
}

impl Daemon {
    /// Makes one file's edits in the open document, if the file is open, and says what is to be
    /// written. An insert session of another client is closed first. A file that is not open is left
    /// for the disk. The panes on the document are placed by the engine.
    pub fn apply_rename(&mut self, f: &RenameFile, facts: EditFacts, conn_id: u64) -> (r: Option<
        RenameWrite,
    >)
        requires
            old(self).wf(),
            old(self).log@.room(1),
            old(self).editor@.has_path(f.path@) ==> edits_fit(
                f.edits@,
                old(self).editor@.doc_at(f.path@).text.len(),
            ),
        ensures
            final(self).wf(),
            *final(self) == (Daemon {
                editor: final(self).editor,
                insert_owner: final(self).insert_owner,
                log: final(self).log,
                ..*old(self)
            }),
            ({
                let closes = old(self).editor@.has_path(f.path@) && foreign_session(
                    *old(self),
                    conn_id,
                );
                let e = if closes {
                    session_closed(old(self).editor@, Mode::Normal)
                } else {
                    old(self).editor@
                };
                &&& final(self).editor@ == renamed_one(e, *f, facts)
                &&& final(self).insert_owner == if closes {
                    None
                } else {
                    old(self).insert_owner
                }
                &&& r matches Some(w) ==> w.preempted == closes
            }),
            r is Some ==> !foreign_session(*final(self), conn_id),
            recorded_one(old(self).editor@, *f, old(self).log@, final(self).log@),
            match r {
                Some(w) => old(self).editor@.has_path(f.path@) && w.path@ == f.path@ && w.doc
                    == Some(old(self).editor@.doc_at(f.path@).id) && w.text@ == edited(
                    old(self).editor@.doc_at(f.path@).text,
                    f.edits@,
                ),
                None => !old(self).editor@.has_path(f.path@),
            },
    {
        let k = self.editor.path_index(f.path.as_str());
        if k >= self.editor.documents.len() {
            return None;
        }
        let preempted = self.preempt(conn_id);
        let ghost before = self.editor@;
        assert(before.documents == old(self).editor@.documents);
        assert(before.documents[k as int] == self.editor.documents@[k as int]@);
        let doc = self.editor.documents[k].id;
        proof {
            doc_at_has_id(before, f.path@);
        }
        let text = apply_char_edits(self.editor.documents[k].text.as_str(), &f.edits);
        proof {
            with_doc_ok(before, doc, text@, facts.dirty, facts.can_undo, facts.can_redo);
        }
        self.editor.set_doc(doc, text.clone(), facts.dirty, facts.can_undo, facts.can_redo);
        proof {
            panes_ok_same_ids(
                before,
                self.editor@,
                self.conn_views@,
                self.idle_view,
                self.next_pane,
            );
        }
        let (range, words) = if f.edits.len() > 0 {
            (
                Some(Range { anchor: f.edits[0].start, head: f.edits[0].end }),
                Some(f.edits[0].text.clone()),
            )
        } else {
            (None, None)
        };
        proof {
            crate::log::event_laws(
                self.log@,
                EventSource::Headless,
                EventKind::ReplaceRange,
                range,
                words,
            );
        }
        self.log.record_event(EventSource::Headless, EventKind::ReplaceRange, range, words);
        Some(RenameWrite { path: f.path.clone(), text, doc: Some(doc), preempted })
    }
}

/// A file's new text, from what the disk holds of it. Without a text the rename fails.
pub fn rename_on_disk(f: &RenameFile, disk: Option<String>) -> (r: Result<RenameWrite, String>)
    requires
        disk matches Some(t) ==> edits_fit(f.edits@, t@.len()),
    ensures
        match disk {
            Some(t) => r matches Ok(w) && w.path@ == f.path@ && w.doc is None && !w.preempted
                && w.text@ == edited(t@, f.edits@),
            None => r matches Err(e) && e@ == "cannot read "@ + f.path@ + " for rename"@,
        },
{
    match disk {
        Some(t) => Ok(
            RenameWrite {
                path: f.path.clone(),
                text: apply_char_edits(t.as_str(), &f.edits),
                doc: None,
                preempted: false,
            },
        ),
        None => Err(joined3("cannot read ", f.path.as_str(), " for rename")),
    }
}

/// What a client is told if a file could not be written.
pub fn rename_unsaved(path: &str, why: &str) -> (r: String)
    ensures
        r@ == "save failed: "@ + path@ + ": "@ + why@,
{
    let mut m = joined("save failed: ", path);
    m.append(": ");
    m.append(why);
    m
}

/// How many of the first `n` files are open.
pub open spec fn open_count(w: Seq<RenameWrite>, n: int) -> nat
    decreases n,
{
    if n <= 0 {
        0
    } else {
        open_count(w, n - 1) + if w[n - 1].doc is Some {
            1nat
        } else {
            0
        }
    }
}

/// The documents after the first `n` files were written: each is clean if it still holds what was
/// written.
pub open spec fn all_saved(e: EditorView, w: Seq<RenameWrite>, n: int) -> EditorView
    decreases n,
{
    if n <= 0 {
        e
    } else {
        match w[n - 1].doc {
            Some(d) => saved(all_saved(e, w, n - 1), d, w[n - 1].text@),
            None => all_saved(e, w, n - 1),
        }
    }
}

/// What is known of the disk after the first `n` files were written.
pub open spec fn all_known(
    b: Seq<(Seq<char>, DiskBaseline)>,
    w: Seq<RenameWrite>,
    stats: Seq<Option<DiskBaseline>>,
    n: int,
) -> Seq<(Seq<char>, DiskBaseline)>
    decreases n,
{
    if n <= 0 {
        b
    } else {
        let before = all_known(b, w, stats, n - 1);
        match (w[n - 1].doc, stats[n - 1]) {
            (Some(_), Some(s)) => put(before, w[n - 1].path@, s),
            _ => before,
        }
    }
}

/// The record after the first `n` files were written: one save for each that is open.
pub open spec fn saves_logged(log: LogView, w: Seq<RenameWrite>, n: int) -> LogView
    decreases n,
{
    if n <= 0 {
        log
    } else {
        let before = saves_logged(log, w, n - 1);
        if w[n - 1].doc is Some {
            before.event(EventSource::Headless, EventKind::Save, None, None)
        } else {
            before
        }
    }
}

impl Daemon {
    /// Finishes a rename whose files were written. Open documents are clean if they still hold what
    /// was written, the disk's state is noted for them, and each save is recorded. Gives the
    /// generation.
    pub fn finish_rename(
        &mut self,
        writes: &Vec<RenameWrite>,
        stats: &Vec<Option<DiskBaseline>>,
    ) -> (r: u64)
        requires
            old(self).wf(),
            writes@.len() == stats@.len(),
            old(self).log@.room(writes@.len() as int),
        ensures
            final(self).wf(),
            *final(self) == (Daemon {
                editor: final(self).editor,
                baselines: final(self).baselines,
                log: final(self).log,
                ..*old(self)
            }),
            final(self).editor@ == all_saved(old(self).editor@, writes@, writes@.len() as int),
            final(self).baselines@ == all_known(
                old(self).baselines@,
                writes@,
                stats@,
                writes@.len() as int,
            ),
            r == final(self).log@.generation,
            r == old(self).log@.generation + open_count(writes@, writes@.len() as int),
            final(self).log@ == saves_logged(old(self).log@, writes@, writes@.len() as int),
    {
        let mut i: usize = 0;
        while i < writes.len()
            invariant
                i <= writes.len(),
                self.wf(),
                writes@.len() == stats@.len(),
                old(self).log@.room(writes@.len() as int),
                *self == (Daemon {
                    editor: self.editor,
                    baselines: self.baselines,
                    log: self.log,
                    ..*old(self)
                }),
                self.editor@ == all_saved(old(self).editor@, writes@, i as int),
                self.baselines@ == all_known(old(self).baselines@, writes@, stats@, i as int),
                self.log@.generation == old(self).log@.generation + open_count(writes@, i as int),
                open_count(writes@, i as int) <= i,
                self.log@ == saves_logged(old(self).log@, writes@, i as int),
            decreases writes.len() - i,
        {
            match writes[i].doc {
                Some(d) => {
                    self.mark_saved_doc(d, writes[i].text.as_str());
                    match stats[i] {
                        Some(b) => {
                            self.baselines.insert(writes[i].path.as_str(), b);
                        },
                        None => {},
                    }
                    proof {
                        crate::log::event_laws(
                            self.log@,
                            EventSource::Headless,
                            EventKind::Save,
                            None,
                            None,
                        );
                    }
                    self.log.record_event(EventSource::Headless, EventKind::Save, None, None);
                },
                None => {},
            }
            i = i + 1;
        }
        self.log.generation
    }
}

/// How many edits the first `n` files have.
pub open spec fn edit_count(files: Seq<RenameFile>, n: int) -> nat
    decreases n,
{
    if n <= 0 {
        0
    } else {
        edit_count(files, n - 1) + files[n - 1].edits@.len()
    }
}

proof fn edit_count_grows(files: Seq<RenameFile>, a: int, b: int)
    requires
        a <= b,
    ensures
        edit_count(files, a) <= edit_count(files, b),
    decreases b - a,
{
    if a < b {
        edit_count_grows(files, a, b - 1);
    }
}

/// The paths of the files.
pub open spec fn file_paths(files: Seq<RenameFile>) -> Seq<Seq<char>> {
    Seq::new(files.len(), |i: int| files[i].path@)
}

/// The answer to a rename that was carried out: how many files and edits there were, and which
/// files.
pub fn rename_answer(generation: u64, files: &Vec<RenameFile>) -> (r: ServerMessage)
    requires
        edit_count(files@, files@.len() as int) <= usize::MAX,
    ensures
        r matches ServerMessage::RenameResult { generation: g, files: n, edits, changed, error } && {
            &&& g == generation
            &&& n == files@.len()
            &&& edits == edit_count(files@, files@.len() as int)
            &&& deep(changed@) == file_paths(files@)
            &&& error is None
        },
{
    let mut edits: usize = 0;
    let mut changed: Vec<String> = Vec::new();
    let mut i: usize = 0;
    while i < files.len()
        invariant
            i <= files.len(),
            edit_count(files@, files@.len() as int) <= usize::MAX,
            edits == edit_count(files@, i as int),
            changed@.len() == i,
            forall|j: int| 0 <= j < i ==> (#[trigger] changed@[j])@ == files@[j].path@,
        decreases files.len() - i,
    {
        proof {
            edit_count_grows(files@, i + 1, files@.len() as int);
        }
        edits = edits + files[i].edits.len();
        changed.push(files[i].path.clone());
        i = i + 1;
    }
    assert(deep(changed@) =~= file_paths(files@));
    ServerMessage::RenameResult { generation, files: files.len(), edits, changed, error: None }
}

} // verus!
