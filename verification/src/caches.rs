//! What the bounded caches keep.
use vstd::prelude::*;

use crate::table::{
    has_key, key_at, keys_differ, newest, newest_differ, put, put_laws, row_is, row_of, value_of,
};

verus! {

/// What was put into a cache last is in it.
pub proof fn cached_last<V>(t: Seq<(Seq<char>, V)>, k: Seq<char>, v: V, cap: int)
    requires
        keys_differ(t),
        t.len() <= cap,
        cap > 0,
    ensures
        value_of(newest(put(t, k, v), cap), k) == Some(v),
        newest(put(t, k, v), cap).len() <= cap,
{
    let p = put(t, k, v);
    put_laws(t, k, v);
    newest_differ(p, cap);
    let n = newest(p, cap);
    if has_key(t, k) {
        assert(n == p);
    } else {
        let i = n.len() - 1;
        assert(n[i] == p[p.len() - 1]);
        assert(key_at(n, k, i));
        row_is(n, k, i);
    }
}

/// Of the files that were in a full cache only the one that came first can be forgotten.
pub proof fn forgets_only_the_oldest<V>(t: Seq<(Seq<char>, V)>, k: Seq<char>, v: V, cap: int, o: Seq<char>)
    requires
        keys_differ(t),
        t.len() <= cap,
        cap > 0,
        o != k,
        has_key(t, o),
        t.len() < cap || has_key(t, k) || o != t[0].0,
    ensures
        value_of(newest(put(t, k, v), cap), o) == value_of(t, o),
{
    let p = put(t, k, v);
    put_laws(t, k, v);
    newest_differ(p, cap);
    let n = newest(p, cap);
    if p.len() > cap {
        let i = row_of(t, o);
        assert(key_at(t, o, i));
        row_is(t, o, i);
        assert(i > 0);
        assert(n[i - 1] == p[i]);
        assert(p[i] == t[i]);
        assert(key_at(n, o, i - 1));
        row_is(n, o, i - 1);
    } else {
        assert(n == p);
    }
}

} // verus!
