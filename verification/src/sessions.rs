//! Language server sessions: one per workspace root and language.
use vstd::prelude::*;

use crate::lists::{picked_values, reversed, split_marked, turned};
use crate::paths::{comps, components, deep, starts_with, under};
use crate::strings::same;
use crate::table::{
    has_key, key_at, kept, kept_laws, keys_differ, put, put_laws, row_is, row_of, value_of,
};

verus! {

/// What a session is told apart by: the root of the workspace and the language.
#[derive(Debug, PartialEq, Eq)]
pub struct SessionKey {
    pub root: String,
    pub language: String,
}

/// A session key by its characters.
pub type KeyView = (Seq<char>, Seq<char>);

impl SessionKey {
    pub open spec fn view(&self) -> KeyView {
        (self.root@, self.language@)
    }

    /// Whether two keys name the same session.
    pub fn same_as(&self, other: &SessionKey) -> (r: bool)
        ensures
            r == (self@ == other@),
    {
        same(self.root.as_str(), other.root.as_str()) && same(
            self.language.as_str(),
            other.language.as_str(),
        )
    }

    /// A copy.
    pub fn copy(&self) -> (r: SessionKey)
        ensures
            r == *self,
    {
        SessionKey { root: self.root.clone(), language: self.language.clone() }
    }
}

/// One row of a session table.
pub struct SessionEntry<V> {
    pub key: SessionKey,
    pub value: V,
}

/// A table from sessions to values. No key occurs twice, and a new key goes to the end.
pub struct SessionTable<V> {
    pub entries: Vec<SessionEntry<V>>,
}

/// The rows whose workspace roots are not at or below `root`.
pub open spec fn sessions_outside<V>(t: Seq<(KeyView, V)>, root: Seq<char>) -> Seq<(KeyView, V)> {
    kept(t, |k: KeyView| !under(k.0, root))
}

/// The rows of sessions that look at a file, without those whose workspace roots or files are at or
/// below `root`.
pub open spec fn focus_outside(t: Seq<(KeyView, String)>, root: Seq<char>) -> Seq<
    (KeyView, String),
> {
    t.filter(|e: (KeyView, String)| !under(e.0.0, root) && !under(e.1@, root))
}

/// Leaving rows out keeps the keys apart, and the rows that are left are rows of before.
pub proof fn some_rows_laws<V>(t: Seq<(KeyView, V)>, keep: spec_fn((KeyView, V)) -> bool)
    requires
        keys_differ(t),
    ensures
        keys_differ(t.filter(keep)),
        forall|i: int|
            0 <= i < t.filter(keep).len() ==> t.contains(#[trigger] t.filter(keep)[i]) && keep(
                t.filter(keep)[i],
            ),
    decreases t.len(),
{
    reveal(Seq::filter);
    if t.len() > 0 {
        let s = t.drop_last();
        some_rows_laws(s, keep);
        let q = s.filter(keep);
        let p = t.filter(keep);
        assert forall|i: int| 0 <= i < q.len() implies t.contains(#[trigger] q[i]) && q[i].0
            != t.last().0 by {
            let m = s.index_of(q[i]);
            assert(t[m] == q[i]);
            assert(t[m].0 != t[t.len() - 1].0);
        }
        assert forall|i: int| 0 <= i < p.len() implies t.contains(#[trigger] p[i]) && keep(p[i]) by {
            if i < q.len() {
                assert(p[i] == q[i]);
            } else {
                assert(t[t.len() - 1] == p[i]);
            }
        }
        assert forall|i: int, j: int| 0 <= i < j < p.len() implies (#[trigger] p[i]).0 != (
        #[trigger] p[j]).0 by {
            assert(p[i] == q[i]);
        }
    }
}

/// Whether row `i` serves a file of the language from a root that contains it.
pub open spec fn serves<V>(t: Seq<(KeyView, V)>, path: Seq<char>, language: Seq<char>, i: int) -> bool {
    0 <= i < t.len() && t[i].0.1 == language && under(path, t[i].0.0)
}

/// Whether row `i` serves the file from the deepest such root; of equally deep ones the last.
pub open spec fn serves_best<V>(
    t: Seq<(KeyView, V)>,
    path: Seq<char>,
    language: Seq<char>,
    i: int,
) -> bool {
    &&& serves(t, path, language, i)
    &&& forall|j: int| #[trigger]
        serves(t, path, language, j) ==> comps(t[j].0.0).len() <= comps(t[i].0.0).len()
    &&& forall|j: int|
        i < j && #[trigger] serves(t, path, language, j) ==> comps(t[j].0.0).len() < comps(
            t[i].0.0,
        ).len()
}

impl<V> SessionTable<V> {
    pub open spec fn view(&self) -> Seq<(KeyView, V)> {
        self.entries@.map_values(|e: SessionEntry<V>| (e.key@, e.value))
    }

    /// Whether no key occurs twice.
    pub open spec fn wf(&self) -> bool {
        keys_differ(self@)
    }

    /// A table without rows.
    pub fn new() -> (r: Self)
        ensures
            r@ == Seq::<(KeyView, V)>::empty(),
            r.wf(),
    {
        let r = SessionTable { entries: Vec::new() };
        assert(r@ =~= Seq::<(KeyView, V)>::empty());
        r
    }

    /// The row of a session.
    pub fn find(&self, key: &SessionKey) -> (r: Option<usize>)
        requires
            self.wf(),
        ensures
            match r {
                Some(i) => key_at(self@, key@, i as int) && has_key(self@, key@) && row_of(
                    self@,
                    key@,
                ) == i,
                None => !has_key(self@, key@),
            },
    {
        let mut i: usize = 0;
        while i < self.entries.len()
            invariant
                i <= self.entries.len(),
                self.wf(),
                forall|j: int| 0 <= j < i ==> !#[trigger] key_at(self@, key@, j),
            decreases self.entries.len() - i,
        {
            assert(self@[i as int].0 == self.entries@[i as int].key@);
            if self.entries[i].key.same_as(key) {
                proof {
                    row_is(self@, key@, i as int);
                }
                return Some(i);
            }
            i = i + 1;
        }
        None
    }

    /// The value of a session.
    pub fn get(&self, key: &SessionKey) -> (r: Option<&V>)
        requires
            self.wf(),
        ensures
            match r {
                Some(v) => value_of(self@, key@) == Some(*v),
                None => value_of(self@, key@) is None,
            },
    {
        match self.find(key) {
            Some(i) => Some(&self.entries[i].value),
            None => None,
        }
    }

    /// Gives a session a value and gives its former value back.
    pub fn insert(&mut self, key: SessionKey, value: V) -> (r: Option<V>)
        requires
            old(self).wf(),
        ensures
            final(self)@ == put(old(self)@, key@, value),
            final(self).wf(),
            r == value_of(old(self)@, key@),
    {
        proof {
            put_laws(self@, key@, value);
        }
        match self.find(&key) {
            Some(i) => {
                let ghost before = self@;
                let ghost k = key@;
                let e = self.entries.remove(i);
                assert(self@ =~= before.remove(i as int));
                self.entries.insert(i, SessionEntry { key, value });
                assert(self@ =~= before.update(i as int, (k, value)));
                Some(e.value)
            },
            None => {
                let ghost before = self@;
                let ghost k = key@;
                self.entries.push(SessionEntry { key, value });
                assert(self@ =~= before.push((k, value)));
                None
            },
        }
    }

    /// Takes out the sessions of workspaces at and below a root, and gives their values back in
    /// order.
    pub fn take_under(&mut self, root: &str) -> (r: Vec<V>)
        requires
            old(self).wf(),
        ensures
            final(self)@ == sessions_outside(old(self)@, root@),
            final(self).wf(),
            r@ == old(self)@.filter(|e: (KeyView, V)| under(e.0.0, root@)).map_values(
                |e: (KeyView, V)| e.1,
            ),
    {
        let ghost good = |k: KeyView| !under(k.0, root@);
        let ghost leave = |e: (KeyView, V)| under(e.0.0, root@);
        let ghost row = |e: SessionEntry<V>| (e.key@, e.value);
        let mut marks: Vec<bool> = Vec::new();
        let mut i: usize = 0;
        while i < self.entries.len()
            invariant
                i <= self.entries@.len(),
                marks@.len() == i,
                forall|j: int|
                    0 <= j < i ==> #[trigger] marks@[j] == !under(
                        self.entries@[j].key.root@,
                        root@,
                    ),
            decreases self.entries@.len() - i,
        {
            marks.push(!starts_with(self.entries[i].key.root.as_str(), root));
            i = i + 1;
        }
        let ghost before = self.entries@;
        proof {
            kept_laws(self@, good);
            picked_values(before, marks@, row, |r: (KeyView, V)| good(r.0));
            picked_values(before, turned(marks@), row, leave);
        }
        let gone = split_marked(&mut self.entries, &marks);
        let ghost left = gone@;
        let mut rest = reversed(gone);
        let mut out: Vec<V> = Vec::new();
        while rest.len() > 0
            invariant
                rest@.len() <= left.len(),
                out@.len() == left.len() - rest@.len(),
                forall|j: int| 0 <= j < rest@.len() ==> rest@[j] == left[left.len() - 1 - j],
                forall|j: int| 0 <= j < out@.len() ==> #[trigger] out@[j] == left[j].value,
            decreases rest@.len(),
        {
            match rest.pop() {
                Some(e) => {
                    out.push(e.value);
                },
                None => {},
            }
        }
        assert(out@ =~= left.map_values(row).map_values(|e: (KeyView, V)| e.1));
        out
    }

    /// The session that serves a file of a language from the deepest root that contains it.
    pub fn serving(&self, path: &str, language: &str) -> (r: Option<usize>)
        ensures
            match r {
                Some(i) => serves_best(self@, path@, language@, i as int),
                None => forall|j: int| !#[trigger] serves(self@, path@, language@, j),
            },
    {
        let mut best: Option<usize> = None;
        let mut depth: usize = 0;
        let mut i: usize = 0;
        while i < self.entries.len()
            invariant
                i <= self.entries.len(),
                match best {
                    Some(b) => {
                        &&& b < i
                        &&& serves(self@, path@, language@, b as int)
                        &&& depth == comps(self@[b as int].0.0).len()
                        &&& forall|j: int|
                            j < i && #[trigger] serves(self@, path@, language@, j) ==> comps(
                                self@[j].0.0,
                            ).len() <= depth
                        &&& forall|j: int|
                            b < j < i && #[trigger] serves(self@, path@, language@, j) ==> comps(
                                self@[j].0.0,
                            ).len() < depth
                    },
                    None => forall|j: int|
                        j < i ==> !#[trigger] serves(self@, path@, language@, j),
                },
            decreases self.entries.len() - i,
        {
            assert(self@[i as int].0 == self.entries@[i as int].key@);
            let key = &self.entries[i].key;
            if same(key.language.as_str(), language) && starts_with(path, key.root.as_str()) {
                let cs = components(key.root.as_str());
                let d: usize = cs.len();
                assert(deep(cs@).len() == cs@.len());
                assert(serves(self@, path@, language@, i as int));
                match best {
                    Some(_) => {
                        if d >= depth {
                            best = Some(i);
                            depth = d;
                        }
                    },
                    None => {
                        best = Some(i);
                        depth = d;
                    },
                }
            } else {
                assert(!serves(self@, path@, language@, i as int));
            }
            i = i + 1;
        }
        best
    }
}

impl SessionTable<String> {
    /// Forgets the files that sessions look at, where the workspace's root or the file is at or
    /// below a root.
    pub fn forget_under(&mut self, root: &str)
        requires
            old(self).wf(),
        ensures
            final(self)@ == focus_outside(old(self)@, root@),
            final(self).wf(),
    {
        let ghost keep = |e: (KeyView, String)| !under(e.0.0, root@) && !under(e.1@, root@);
        let mut marks: Vec<bool> = Vec::new();
        let mut i: usize = 0;
        while i < self.entries.len()
            invariant
                i <= self.entries@.len(),
                marks@.len() == i,
                forall|j: int|
                    0 <= j < i ==> #[trigger] marks@[j] == (!under(
                        self.entries@[j].key.root@,
                        root@,
                    ) && !under(self.entries@[j].value@, root@)),
            decreases self.entries@.len() - i,
        {
            let e = &self.entries[i];
            marks.push(
                !starts_with(e.key.root.as_str(), root) && !starts_with(e.value.as_str(), root),
            );
            i = i + 1;
        }
        proof {
            some_rows_laws(self@, keep);
            picked_values(
                self.entries@,
                marks@,
                |e: SessionEntry<String>| (e.key@, e.value),
                keep,
            );
        }
        let _gone = split_marked(&mut self.entries, &marks);
    }
}

} // verus!
