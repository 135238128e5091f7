//! Small tables keyed by text, in the order in which their keys came.
use vstd::prelude::*;

use crate::lists::{picked_values, split_marked};
use crate::paths::{deep, starts_with, under};
use crate::strings::same;

verus! {

/// One row of a table.
pub struct Entry<V> {
    pub key: String,
    pub value: V,
}

/// A table from text to values. No key occurs twice, and a new key goes to the end.
pub struct Table<V> {
    pub entries: Vec<Entry<V>>,
}

/// The rows of a table, keys by their characters.
pub open spec fn rows<V>(entries: Seq<Entry<V>>) -> Seq<(Seq<char>, V)> {
    entries.map_values(|e: Entry<V>| (e.key@, e.value))
}

/// Whether no key occurs twice.
pub open spec fn keys_differ<K, V>(t: Seq<(K, V)>) -> bool {
    forall|i: int, j: int| 0 <= i < j < t.len() ==> (#[trigger] t[i]).0 != (#[trigger] t[j]).0
}

/// Whether row `i` has the key `k`.
pub open spec fn key_at<K, V>(t: Seq<(K, V)>, k: K, i: int) -> bool {
    0 <= i < t.len() && t[i].0 == k
}

/// Whether a key occurs.
pub open spec fn has_key<K, V>(t: Seq<(K, V)>, k: K) -> bool {
    exists|i: int| #[trigger] key_at(t, k, i)
}

/// The row of a key.
pub open spec fn row_of<K, V>(t: Seq<(K, V)>, k: K) -> int {
    choose|i: int| #[trigger] key_at(t, k, i)
}

/// The value of a key.
pub open spec fn value_of<K, V>(t: Seq<(K, V)>, k: K) -> Option<V> {
    if has_key(t, k) {
        Some(t[row_of(t, k)].1)
    } else {
        None
    }
}

/// The table with `v` at the key `k`: in the key's row if it has one, else in a new last row.
pub open spec fn put<K, V>(t: Seq<(K, V)>, k: K, v: V) -> Seq<(K, V)> {
    if has_key(t, k) {
        t.update(row_of(t, k), (k, v))
    } else {
        t.push((k, v))
    }
}

/// The table without the row of `k`.
pub open spec fn without<K, V>(t: Seq<(K, V)>, k: K) -> Seq<(K, V)> {
    if has_key(t, k) {
        t.remove(row_of(t, k))
    } else {
        t
    }
}

/// The last `cap` rows.
pub open spec fn newest<A>(t: Seq<A>, cap: int) -> Seq<A> {
    if t.len() > cap {
        t.skip(t.len() - cap)
    } else {
        t
    }
}

/// The rows whose keys `keep` accepts.
pub open spec fn kept<K, V>(t: Seq<(K, V)>, keep: spec_fn(K) -> bool) -> Seq<(K, V)> {
    t.filter(|r: (K, V)| keep(r.0))
}

/// The rows whose keys are not paths at or below `root`.
pub open spec fn outside<V>(t: Seq<(Seq<char>, V)>, root: Seq<char>) -> Seq<(Seq<char>, V)> {
    kept(t, |k: Seq<char>| !under(k, root))
}

/// Keys that differ have at most one row each.
pub proof fn row_is<K, V>(t: Seq<(K, V)>, k: K, i: int)
    requires
        keys_differ(t),
        key_at(t, k, i),
    ensures
        has_key(t, k),
        row_of(t, k) == i,
        value_of(t, k) == Some(t[i].1),
{
    let j = row_of(t, k);
    assert(key_at(t, k, j));
    if i < j {
        assert(t[i].0 != t[j].0);
    } else if j < i {
        assert(t[j].0 != t[i].0);
    }
}

/// Putting a value keeps the keys apart; the key then has the value, and the others keep theirs.
pub proof fn put_laws<K, V>(t: Seq<(K, V)>, k: K, v: V)
    requires
        keys_differ(t),
    ensures
        keys_differ(put(t, k, v)),
        value_of(put(t, k, v), k) == Some(v),
        forall|o: K| o != k ==> #[trigger] value_of(put(t, k, v), o) == value_of(t, o),
        put(t, k, v).len() <= t.len() + 1,
{
    let p = put(t, k, v);
    if has_key(t, k) {
        let r = row_of(t, k);
        assert(key_at(t, k, r));
        assert forall|i: int, j: int| 0 <= i < j < p.len() implies (#[trigger] p[i]).0 != (
        #[trigger] p[j]).0 by {
            assert(p[i].0 == t[i].0);
            assert(p[j].0 == t[j].0);
        }
        assert(key_at(p, k, r));
        row_is(p, k, r);
    } else {
        assert forall|i: int, j: int| 0 <= i < j < p.len() implies (#[trigger] p[i]).0 != (
        #[trigger] p[j]).0 by {
            if j == t.len() {
                assert(!key_at(t, k, i));
            }
        }
        assert(key_at(p, k, t.len() as int));
        row_is(p, k, t.len() as int);
    }
    assert forall|o: K| o != k implies #[trigger] value_of(p, o) == value_of(t, o) by {
        if has_key(t, o) {
            let i = row_of(t, o);
            assert(key_at(t, o, i));
            assert(key_at(p, o, i));
            row_is(p, o, i);
            row_is(t, o, i);
        } else if has_key(p, o) {
            let i = row_of(p, o);
            assert(key_at(p, o, i));
            assert(key_at(t, o, i));
        }
    }
}

/// A key that is there keeps its row, and a new one comes last: no row moves.
pub proof fn put_moves_no_row<K, V>(t: Seq<(K, V)>, k: K, v: V)
    requires
        keys_differ(t),
    ensures
        forall|i: int|
            0 <= i < t.len() && (#[trigger] t[i]).0 != k ==> put(t, k, v)[i] == t[i],
        forall|i: int| 0 <= i < t.len() && (#[trigger] t[i]).0 == k ==> put(t, k, v)[i] == (k, v)
            && put(t, k, v).len() == t.len(),
        (forall|i: int| 0 <= i < t.len() ==> (#[trigger] t[i]).0 != k) ==> put(t, k, v) == t.push(
            (k, v),
        ),
{
    if has_key(t, k) {
        let r = row_of(t, k);
        assert(key_at(t, k, r));
        assert forall|i: int| 0 <= i < t.len() && (#[trigger] t[i]).0 == k implies put(t, k, v)[i]
            == (k, v) && put(t, k, v).len() == t.len() by {
            assert(key_at(t, k, i));
            row_is(t, k, i);
        }
    } else {
        assert forall|i: int| 0 <= i < t.len() implies (#[trigger] t[i]).0 != k by {
            assert(!key_at(t, k, i));
        }
    }
}

/// The value of a key is the one in the row that has the key; without such a row there is none.
pub proof fn value_is_in_the_row<K, V>(t: Seq<(K, V)>, k: K, i: int)
    requires
        keys_differ(t),
        0 <= i < t.len(),
    ensures
        t[i].0 == k ==> value_of(t, k) == Some(t[i].1),
        (forall|j: int| 0 <= j < t.len() ==> (#[trigger] t[j]).0 != k) ==> value_of(t, k) is None,
{
    if t[i].0 == k {
        assert(key_at(t, k, i));
        row_is(t, k, i);
    }
}

/// The newest rows are the last ones, as many as there may be.
pub proof fn newest_are_the_last<A>(t: Seq<A>, cap: int)
    requires
        cap >= 0,
    ensures
        newest(t, cap).len() == if t.len() <= cap {
            t.len() as int
        } else {
            cap
        },
        forall|i: int|
            0 <= i < newest(t, cap).len() ==> #[trigger] newest(t, cap)[i] == t[t.len()
                - newest(t, cap).len() + i],
{
}

/// Taking a key out keeps the others and their values.
pub proof fn without_laws<K, V>(t: Seq<(K, V)>, k: K)
    requires
        keys_differ(t),
    ensures
        keys_differ(without(t, k)),
        !has_key(without(t, k), k),
        forall|o: K| o != k ==> #[trigger] value_of(without(t, k), o) == value_of(t, o),
        without(t, k).len() <= t.len(),
{
    let p = without(t, k);
    if has_key(t, k) {
        let r = row_of(t, k);
        assert(key_at(t, k, r));
        assert forall|i: int, j: int| 0 <= i < j < p.len() implies (#[trigger] p[i]).0 != (
        #[trigger] p[j]).0 by {
            let i2 = if i < r { i } else { i + 1 };
            let j2 = if j < r { j } else { j + 1 };
            assert(p[i] == t[i2]);
            assert(p[j] == t[j2]);
        }
        if has_key(p, k) {
            let i = row_of(p, k);
            assert(key_at(p, k, i));
            let i2 = if i < r { i } else { i + 1 };
            assert(p[i] == t[i2]);
            assert(key_at(t, k, i2));
            row_is(t, k, i2);
        }
        assert forall|o: K| o != k implies #[trigger] value_of(p, o) == value_of(t, o) by {
            if has_key(t, o) {
                let i = row_of(t, o);
                assert(key_at(t, o, i));
                let i2 = if i < r { i } else { i - 1 };
                assert(p[i2] == t[i]);
                assert(key_at(p, o, i2));
                row_is(p, o, i2);
            } else if has_key(p, o) {
                let i = row_of(p, o);
                assert(key_at(p, o, i));
                let i2 = if i < r { i } else { i + 1 };
                assert(p[i] == t[i2]);
                assert(key_at(t, o, i2));
            }
        }
    }
}

/// Keeping some keys keeps exactly these, with their values.
pub proof fn kept_laws<K, V>(t: Seq<(K, V)>, keep: spec_fn(K) -> bool)
    requires
        keys_differ(t),
    ensures
        keys_differ(kept(t, keep)),
        kept(t, keep).len() <= t.len(),
        forall|o: K| !keep(o) ==> !#[trigger] has_key(kept(t, keep), o),
        forall|o: K|
            keep(o) ==> #[trigger] value_of(kept(t, keep), o) == value_of(t, o),
    decreases t.len(),
{
    reveal(Seq::filter);
    let p = kept(t, keep);
    if t.len() == 0 {
        assert(p =~= t);
    } else {
        let s = t.drop_last();
        kept_laws(s, keep);
        let q = kept(s, keep);
        let last = t.last();
        assert forall|i: int| 0 <= i < q.len() implies s.contains(#[trigger] q[i]) by {
            let k = q[i].0;
            assert(key_at(q, k, i));
            row_is(q, k, i);
            assert(keep(k));
            assert(value_of(s, k) == value_of(q, k));
            let j = row_of(s, k);
            assert(key_at(s, k, j));
            assert(s[j] == q[i]);
        }
        if keep(last.0) {
            assert(p == q.push(last));
            assert forall|i: int, j: int| 0 <= i < j < p.len() implies (#[trigger] p[i]).0 != (
            #[trigger] p[j]).0 by {
                if j == q.len() {
                    assert(s.contains(q[i]));
                    let m = s.index_of(q[i]);
                    assert(t[m] == s[m]);
                    assert(t[m].0 != t[t.len() - 1].0);
                }
            }
        } else {
            assert(p == q);
        }
        assert forall|o: K| !keep(o) implies !#[trigger] has_key(p, o) by {
            if has_key(p, o) {
                let i = row_of(p, o);
                assert(key_at(p, o, i));
                if i < q.len() {
                    assert(key_at(q, o, i));
                    assert(has_key(q, o));
                }
            }
        }
        assert forall|o: K| keep(o) implies #[trigger] value_of(p, o) == value_of(
            t,
            o,
        ) by {
            if has_key(t, o) {
                let i = row_of(t, o);
                assert(key_at(t, o, i));
                row_is(t, o, i);
                if i == s.len() {
                    assert(key_at(p, o, q.len() as int));
                    row_is(p, o, q.len() as int);
                } else {
                    assert(key_at(s, o, i));
                    row_is(s, o, i);
                    let j = row_of(q, o);
                    assert(value_of(q, o) == value_of(s, o));
                    assert(key_at(q, o, j));
                    assert(key_at(p, o, j));
                    row_is(p, o, j);
                }
            } else if has_key(p, o) {
                let i = row_of(p, o);
                assert(key_at(p, o, i));
                if i < q.len() {
                    assert(key_at(q, o, i));
                    row_is(q, o, i);
                    assert(value_of(q, o) == value_of(s, o));
                    let j = row_of(s, o);
                    assert(key_at(s, o, j));
                    assert(key_at(t, o, j));
                } else {
                    assert(key_at(t, o, s.len() as int));
                }
            }
        }
    }
}

/// The rows outside a root: exactly those keys that are not below it, with their values.
pub proof fn outside_laws<V>(t: Seq<(Seq<char>, V)>, root: Seq<char>)
    requires
        keys_differ(t),
    ensures
        keys_differ(outside(t, root)),
        outside(t, root).len() <= t.len(),
        forall|o: Seq<char>| under(o, root) ==> !#[trigger] has_key(outside(t, root), o),
        forall|o: Seq<char>|
            !under(o, root) ==> #[trigger] value_of(outside(t, root), o) == value_of(t, o),
{
    let keep = |k: Seq<char>| !under(k, root);
    kept_laws(t, keep);
    assert forall|o: Seq<char>| under(o, root) implies !#[trigger] has_key(outside(t, root), o) by {
        assert(!keep(o));
    }
    assert forall|o: Seq<char>| !under(o, root) implies #[trigger] value_of(outside(t, root), o)
        == value_of(t, o) by {
        assert(keep(o));
    }
}

/// Dropping the oldest rows keeps the keys apart.
pub proof fn newest_differ<K, V>(t: Seq<(K, V)>, cap: int)
    requires
        keys_differ(t),
        cap >= 0,
    ensures
        keys_differ(newest(t, cap)),
        newest(t, cap).len() <= cap || newest(t, cap).len() == t.len(),
{
}

/// Whether a text is listed.
pub fn lists(v: &Vec<String>, p: &str) -> (r: bool)
    ensures
        r == deep(v@).contains(p@),
{
    let mut i: usize = 0;
    while i < v.len()
        invariant
            i <= v.len(),
            forall|j: int| 0 <= j < i ==> deep(v@)[j] != p@,
        decreases v.len() - i,
    {
        assert(deep(v@)[i as int] == v@[i as int]@);
        if same(v[i].as_str(), p) {
            return true;
        }
        i = i + 1;
    }
    assert(deep(v@).len() == v@.len());
    false
}

impl<V> View for Table<V> {
    type V = Seq<(Seq<char>, V)>;

    open spec fn view(&self) -> Seq<(Seq<char>, V)> {
        rows(self.entries@)
    }
}

impl<V> Table<V> {
    /// Whether no key occurs twice.
    pub open spec fn wf(&self) -> bool {
        keys_differ(self@)
    }

    /// A table without rows.
    pub fn new() -> (r: Self)
        ensures
            r@ == Seq::<(Seq<char>, V)>::empty(),
            r.wf(),
    {
        let r = Table { entries: Vec::new() };
        assert(r@ =~= Seq::<(Seq<char>, V)>::empty());
        r
    }

    /// The number of rows.
    pub fn len(&self) -> (r: usize)
        ensures
            r == self@.len(),
    {
        self.entries.len()
    }

    /// The row of a key.
    pub fn find(&self, key: &str) -> (r: Option<usize>)
        requires
            self.wf(),
        ensures
            match r {
                Some(i) => key_at(self@, key@, i as int) && has_key(self@, key@) && row_of(
                    self@,
                    key@,
                ) == i,
                None => !has_key(self@, key@),
            },
    {
        let mut i: usize = 0;
        while i < self.entries.len()
            invariant
                i <= self.entries.len(),
                self.wf(),
                forall|j: int| 0 <= j < i ==> !#[trigger] key_at(self@, key@, j),
            decreases self.entries.len() - i,
        {
            assert(self@[i as int].0 == self.entries@[i as int].key@);
            if same(self.entries[i].key.as_str(), key) {
                proof {
                    row_is(self@, key@, i as int);
                }
                return Some(i);
            }
            i = i + 1;
        }
        None
    }

    /// Whether a key occurs.
    pub fn contains(&self, key: &str) -> (r: bool)
        requires
            self.wf(),
        ensures
            r == has_key(self@, key@),
    {
        self.find(key).is_some()
    }

    /// The value of a key.
    pub fn get(&self, key: &str) -> (r: Option<&V>)
        requires
            self.wf(),
        ensures
            match r {
                Some(v) => value_of(self@, key@) == Some(*v),
                None => value_of(self@, key@) is None,
            },
    {
        match self.find(key) {
            Some(i) => Some(&self.entries[i].value),
            None => None,
        }
    }

    /// Gives a key a value.
    pub fn insert(&mut self, key: &str, value: V)
        requires
            old(self).wf(),
        ensures
            final(self)@ == put(old(self)@, key@, value),
            final(self).wf(),
    {
        proof {
            put_laws(self@, key@, value);
        }
        match self.find(key) {
            Some(i) => {
                let ghost before = self@;
                let e = Entry { key: key.to_owned(), value };
                self.entries.set(i, e);
                assert(self@ =~= before.update(i as int, (key@, value)));
            },
            None => {
                let ghost before = self@;
                let e = Entry { key: key.to_owned(), value };
                self.entries.push(e);
                assert(self@ =~= before.push((key@, value)));
            },
        }
    }

    /// Takes a key out and gives its value back.
    pub fn take(&mut self, key: &str) -> (r: Option<V>)
        requires
            old(self).wf(),
        ensures
            final(self)@ == without(old(self)@, key@),
            final(self).wf(),
            r == value_of(old(self)@, key@),
    {
        proof {
            without_laws(self@, key@);
        }
        match self.find(key) {
            Some(i) => {
                let ghost before = self@;
                let e = self.entries.remove(i);
                assert(self@ =~= before.remove(i as int));
                Some(e.value)
            },
            None => None,
        }
    }

    /// Takes a key out.
    pub fn remove(&mut self, key: &str)
        requires
            old(self).wf(),
        ensures
            final(self)@ == without(old(self)@, key@),
            final(self).wf(),
    {
        let _taken = self.take(key);
    }

    /// Keeps the rows that are marked as `keep` says of their keys.
    fn keep_marked(&mut self, marks: &Vec<bool>, Ghost(keep): Ghost<spec_fn(Seq<char>) -> bool>)
        requires
            old(self).wf(),
            marks@.len() == old(self).entries@.len(),
            forall|i: int|
                0 <= i < marks@.len() ==> #[trigger] marks@[i] == keep(old(self).entries@[i].key@),
        ensures
            final(self)@ == kept(old(self)@, keep),
            final(self).wf(),
    {
        proof {
            kept_laws(self@, keep);
            picked_values(
                self.entries@,
                marks@,
                |e: Entry<V>| (e.key@, e.value),
                |r: (Seq<char>, V)| keep(r.0),
            );
        }
        let _gone = split_marked(&mut self.entries, marks);
    }

    /// Takes out the keys at and below a root.
    pub fn remove_under(&mut self, root: &str)
        requires
            old(self).wf(),
        ensures
            final(self)@ == outside(old(self)@, root@),
            final(self).wf(),
    {
        let mut marks: Vec<bool> = Vec::new();
        let mut i: usize = 0;
        while i < self.entries.len()
            invariant
                i <= self.entries@.len(),
                marks@.len() == i,
                forall|j: int|
                    0 <= j < i ==> #[trigger] marks@[j] == !under(self.entries@[j].key@, root@),
            decreases self.entries@.len() - i,
        {
            marks.push(!starts_with(self.entries[i].key.as_str(), root));
            i = i + 1;
        }
        self.keep_marked(&marks, Ghost(|k: Seq<char>| !under(k, root@)));
    }

    /// Keeps the rows whose keys are listed.
    pub fn keep_listed(&mut self, listed: &Vec<String>)
        requires
            old(self).wf(),
        ensures
            final(self)@ == kept(old(self)@, |k: Seq<char>| deep(listed@).contains(k)),
            final(self).wf(),
    {
        let mut marks: Vec<bool> = Vec::new();
        let mut i: usize = 0;
        while i < self.entries.len()
            invariant
                i <= self.entries@.len(),
                marks@.len() == i,
                forall|j: int|
                    0 <= j < i ==> #[trigger] marks@[j] == deep(listed@).contains(
                        self.entries@[j].key@,
                    ),
            decreases self.entries@.len() - i,
        {
            marks.push(lists(listed, self.entries[i].key.as_str()));
            i = i + 1;
        }
        self.keep_marked(&marks, Ghost(|k: Seq<char>| deep(listed@).contains(k)));
    }

    /// Drops the oldest rows until at most `cap` are left.
    pub fn shrink_to(&mut self, cap: usize)
        requires
            old(self).wf(),
        ensures
            final(self)@ == newest(old(self)@, cap as int),
            final(self).wf(),
    {
        let ghost before = self@;
        assert(before.skip(0) =~= before);
        while self.entries.len() > cap
            invariant
                self@.len() <= before.len(),
                self@ == before.skip(before.len() - self@.len()),
                self@.len() == before.len() || self@.len() >= cap,
            decreases self.entries.len(),
        {
            let ghost now = self@;
            let _gone = self.entries.remove(0);
            assert(self@ =~= now.skip(1));
            assert(self@ =~= before.skip(before.len() - self@.len()));
        }
        proof {
            if before.len() <= cap {
                assert(before.skip(0) =~= before);
            }
            newest_differ(before, cap as int);
        }
    }
}

} // verus!
