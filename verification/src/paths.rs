//! File paths as text: components, containment and lexical normal form.
//!
//! A path is split at its slashes. Empty pieces do not count, nor does a piece `.` except as the
//! first piece of a relative path. The root of an absolute path is a component of its own, `/`.
use vstd::prelude::*;

use crate::strings::{after_prefix, chars_of, has_prefix, joined, same, text_of};

verus! {

/// The end of the piece of `s` that begins at `i`: the next slash, or the length.
pub open spec fn piece_end(s: Seq<char>, i: int) -> int
    decreases s.len() - i,
{
    if i >= s.len() {
        s.len() as int
    } else if s[i] == '/' {
        i
    } else {
        piece_end(s, i + 1)
    }
}

/// Whether the piece of a path that begins at `i` is a component of the path.
pub open spec fn counts(i: int, piece: Seq<char>) -> bool {
    piece.len() > 0 && (piece != seq!['.'] || i == 0)
}

/// The components of `s` from index `i` on.
pub open spec fn parts_from(s: Seq<char>, i: int) -> Seq<Seq<char>>
    decreases s.len() + 1 - i,
{
    if i < 0 || i >= s.len() {
        seq![]
    } else {
        let e = piece_end(s, i);
        if e < i || e > s.len() {
            seq![]
        } else {
            let piece = s.subrange(i, e);
            (if counts(i, piece) {
                seq![piece]
            } else {
                seq![]
            }) + parts_from(s, e + 1)
        }
    }
}

/// Whether a path begins at the root.
pub open spec fn rooted(s: Seq<char>) -> bool {
    s.len() > 0 && s[0] == '/'
}

/// The components of a path.
pub open spec fn comps(s: Seq<char>) -> Seq<Seq<char>> {
    (if rooted(s) {
        seq![seq!['/']]
    } else {
        seq![]
    }) + parts_from(s, 0)
}

/// Whether `path` is `root` or lies below it, component by component.
pub open spec fn under(path: Seq<char>, root: Seq<char>) -> bool {
    comps(root).len() <= comps(path).len() && comps(path).take(comps(root).len() as int) == comps(
        root,
    )
}

/// The text of the components that follow the root.
pub open spec fn relative_text(parts: Seq<Seq<char>>) -> Seq<char>
    decreases parts.len(),
{
    if parts.len() == 0 {
        seq![]
    } else if parts.len() == 1 {
        parts[0]
    } else {
        parts[0] + seq!['/'] + relative_text(parts.skip(1))
    }
}

/// The text of a path with the given components.
pub open spec fn path_text(cs: Seq<Seq<char>>) -> Seq<char> {
    if cs.len() > 0 && cs[0] == seq!['/'] {
        seq!['/'] + relative_text(cs.skip(1))
    } else {
        relative_text(cs)
    }
}

/// The components that are left when the last one is taken off, as far as it can be.
pub open spec fn popped(cs: Seq<Seq<char>>) -> Seq<Seq<char>> {
    if cs.len() > 0 && cs.last() != seq!['/'] {
        cs.drop_last()
    } else {
        cs
    }
}

/// The components with `.` and `..` resolved: `..` takes one component off and stops at the root.
pub open spec fn resolved(cs: Seq<Seq<char>>) -> Seq<Seq<char>>
    decreases cs.len(),
{
    if cs.len() == 0 {
        seq![]
    } else {
        let before = resolved(cs.drop_last());
        if cs.last() == seq!['.'] {
            before
        } else if cs.last() == seq!['.', '.'] {
            popped(before)
        } else {
            before.push(cs.last())
        }
    }
}

/// The components that `path` stands for, read from the directory `cwd` if it is relative.
pub open spec fn absolute_comps(path: Seq<char>, cwd: Option<Seq<char>>) -> Seq<Seq<char>> {
    match cwd {
        Some(dir) => if rooted(path) || path.len() == 0 {
            comps(path)
        } else {
            comps(dir) + comps(path)
        },
        None => comps(path),
    }
}

/// A list of strings as a sequence of character sequences.
pub open spec fn deep(v: Seq<String>) -> Seq<Seq<char>> {
    v.map_values(|s: String| s@)
}

proof fn piece_end_bounds(s: Seq<char>, i: int)
    requires
        0 <= i <= s.len(),
    ensures
        i <= piece_end(s, i) <= s.len(),
        piece_end(s, i) < s.len() ==> s[piece_end(s, i)] == '/',
        forall|j: int| i <= j < piece_end(s, i) ==> s[j] != '/',
    decreases s.len() - i,
{
    if i < s.len() && s[i] != '/' {
        piece_end_bounds(s, i + 1);
    }
}

proof fn piece_end_is(s: Seq<char>, i: int, e: int)
    requires
        0 <= i <= e <= s.len(),
        e < s.len() ==> s[e] == '/',
        forall|j: int| i <= j < e ==> s[j] != '/',
    ensures
        piece_end(s, i) == e,
    decreases e - i,
{
    if i < e {
        piece_end_is(s, i + 1, e);
    }
}

/// Splits a path into its components.
pub fn components(path: &str) -> (r: Vec<String>)
    ensures
        deep(r@) == comps(path@),
{
    let cs = chars_of(path);
    let mut out: Vec<String> = Vec::new();
    if cs.len() > 0 && cs[0] == '/' {
        out.push(text_of(&cs, 0, 1));
        assert(out@[0]@ =~= seq!['/']);
    }
    let ghost head = deep(out@);
    assert(head =~= if rooted(path@) {
        seq![seq!['/']]
    } else {
        seq![]
    });
    let mut i: usize = 0;
    assert(deep(out@) + parts_from(path@, 0) =~= comps(path@));
    while i < cs.len()
        invariant
            i <= cs.len(),
            cs@ == path@,
            deep(out@) + parts_from(path@, i as int) == comps(path@),
        decreases cs.len() - i,
    {
        let mut e: usize = i;
        proof {
            piece_end_bounds(path@, i as int);
        }
        while e < cs.len() && cs[e] != '/'
            invariant
                i <= e <= cs.len(),
                cs@ == path@,
                piece_end(path@, e as int) == piece_end(path@, i as int),
            decreases cs.len() - e,
        {
            e = e + 1;
        }
        let ghost piece = path@.subrange(i as int, e as int);
        let ghost before = deep(out@);
        let ghost rest = parts_from(path@, e as int + 1);
        let dot = e == i + 1 && cs[i] == '.';
        proof {
            if dot {
                assert(piece =~= seq!['.']);
            } else if piece.len() == 1 {
                assert(piece[0] != '.');
                assert(piece != seq!['.']) by {
                    assert(seq!['.'][0] == '.');
                }
            }
        }
        if e > i && (!dot || i == 0) {
            out.push(text_of(&cs, i, e));
            assert(deep(out@) =~= before.push(piece));
            assert(deep(out@) + rest =~= before + (seq![piece] + rest));
        } else {
            assert(seq![] + rest =~= rest);
        }
        if e < cs.len() {
            i = e + 1;
        } else {
            assert(rest =~= seq![]);
            i = e;
            assert(parts_from(path@, i as int) =~= seq![]);
        }
    }
    assert(parts_from(path@, i as int) =~= seq![]);
    assert(deep(out@) + Seq::<Seq<char>>::empty() =~= deep(out@));
    out
}

/// Whether `path` is `root` or lies below it.
pub fn starts_with(path: &str, root: &str) -> (r: bool)
    ensures
        r == under(path@, root@),
{
    let p = components(path);
    let b = components(root);
    proof {
        assert(comps(path@).len() == p@.len());
        assert(comps(root@).len() == b@.len());
    }
    if b.len() > p.len() {
        return false;
    }
    let mut i: usize = 0;
    while i < b.len()
        invariant
            i <= b.len() <= p.len(),
            deep(p@) == comps(path@),
            deep(b@) == comps(root@),
            forall|j: int| 0 <= j < i ==> comps(path@)[j] == comps(root@)[j],
        decreases b.len() - i,
    {
        assert(deep(p@)[i as int] == p@[i as int]@);
        assert(deep(b@)[i as int] == b@[i as int]@);
        if !same(p[i].as_str(), b[i].as_str()) {
            proof {
                assert(comps(path@).take(comps(root@).len() as int)[i as int] != comps(
                    root@,
                )[i as int]);
            }
            return false;
        }
        i = i + 1;
    }
    assert(comps(path@).take(comps(root@).len() as int) =~= comps(root@));
    true
}

/// The text of the components `cs[from..]`, separated by slashes.
fn relative(cs: &Vec<String>, from: usize) -> (r: String)
    requires
        from <= cs.len(),
    ensures
        r@ == relative_text(deep(cs@).skip(from as int)),
    decreases cs.len() - from,
{
    let ghost rest = deep(cs@).skip(from as int);
    if from == cs.len() {
        let r = String::new();
        assert(r@ =~= relative_text(rest));
        r
    } else if from + 1 == cs.len() {
        assert(rest[0] == cs@[from as int]@);
        cs[from].clone()
    } else {
        let tail = relative(cs, from + 1);
        assert(rest.skip(1) =~= deep(cs@).skip(from + 1));
        assert(rest[0] == cs@[from as int]@);
        let mut r = cs[from].clone();
        r.push('/');
        r.append(tail.as_str());
        assert(r@ =~= rest[0] + seq!['/'] + relative_text(rest.skip(1)));
        r
    }
}

/// The path with the given components.
pub fn from_components(cs: &Vec<String>) -> (r: String)
    ensures
        r@ == path_text(deep(cs@)),
{
    assert(deep(cs@).len() == cs@.len());
    if cs.len() > 0 && is_root(cs[0].as_str()) {
        let mut r = String::new();
        r.push('/');
        let tail = relative(cs, 1);
        r.append(tail.as_str());
        assert(deep(cs@)[0] == cs@[0]@);
        assert(r@ =~= seq!['/'] + relative_text(deep(cs@).skip(1)));
        r
    } else {
        let r = relative(cs, 0);
        assert(deep(cs@).skip(0) =~= deep(cs@));
        if cs.len() > 0 {
            assert(deep(cs@)[0] == cs@[0]@);
        }
        r
    }
}

fn is_root(c: &str) -> (r: bool)
    ensures
        r == (c@ == seq!['/']),
{
    proof {
        reveal_strlit("/");
        assert("/"@ =~= seq!['/']);
    }
    same(c, "/")
}

fn is_dot(c: &str) -> (r: bool)
    ensures
        r == (c@ == seq!['.']),
{
    proof {
        reveal_strlit(".");
        assert("."@ =~= seq!['.']);
    }
    same(c, ".")
}

fn is_dot_dot(c: &str) -> (r: bool)
    ensures
        r == (c@ == seq!['.', '.']),
{
    proof {
        reveal_strlit("..");
        assert(".."@ =~= seq!['.', '.']);
    }
    same(c, "..")
}

/// The components of `path`, read from `cwd` if the path is relative and not empty.
fn absolute_components(path: &str, cwd: Option<&str>) -> (r: Vec<String>)
    ensures
        deep(r@) == absolute_comps(
            path@,
            match cwd {
                Some(d) => Some(d@),
                None => None,
            },
        ),
{
    let own = components(path);
    let cs = chars_of(path);
    match cwd {
        Some(dir) => {
            if cs.len() == 0 || cs[0] == '/' {
                own
            } else {
                let mut all = components(dir);
                let ghost front = all@;
                let mut i: usize = 0;
                while i < own.len()
                    invariant
                        i <= own.len(),
                        all@ == front + own@.take(i as int),
                    decreases own.len() - i,
                {
                    all.push(own[i].clone());
                    i = i + 1;
                }
                proof {
                    assert(own@.take(own@.len() as int) =~= own@);
                    assert(deep(all@) =~= deep(front) + deep(own@));
                }
                all
            }
        },
        None => own,
    }
}

/// Makes a path absolute from the working directory and resolves `.` and `..` by name alone,
/// without looking at the disk. Without a working directory a relative path stays relative.
pub fn lexical_normalize(path: &str, cwd: Option<&str>) -> (r: String)
    ensures
        r@ == path_text(
            resolved(
                absolute_comps(
                    path@,
                    match cwd {
                        Some(d) => Some(d@),
                        None => None,
                    },
                ),
            ),
        ),
{
    let all = absolute_components(path, cwd);
    let mut out: Vec<String> = Vec::new();
    let mut i: usize = 0;
    proof {
        assert(deep(all@).take(0) =~= seq![]);
        assert(deep(out@) =~= seq![]);
    }
    while i < all.len()
        invariant
            i <= all.len(),
            deep(out@) == resolved(deep(all@).take(i as int)),
        decreases all.len() - i,
    {
        let ghost upto = deep(all@).take(i as int + 1);
        assert(upto.drop_last() =~= deep(all@).take(i as int));
        assert(upto.last() == all@[i as int]@);
        let ghost before = deep(out@);
        if is_dot(all[i].as_str()) {
        } else if is_dot_dot(all[i].as_str()) {
            if out.len() > 0 {
                assert(before.last() == out@.last()@);
                if !is_root(out[out.len() - 1].as_str()) {
                    out.pop();
                    assert(deep(out@) =~= before.drop_last());
                }
            }
        } else {
            out.push(all[i].clone());
            assert(deep(out@) =~= before.push(all@[i as int]@));
        }
        i = i + 1;
    }
    assert(deep(all@).take(all@.len() as int) =~= deep(all@));
    from_components(&out)
}

/// Whether `c` can be a component behind the root of a path in normal form.
pub open spec fn plain(c: Seq<char>) -> bool {
    c.len() > 0 && c != seq!['.'] && c != seq!['.', '.'] && forall|i: int|
        0 <= i < c.len() ==> c[i] != '/'
}

/// Whether the components are those of an absolute path in normal form.
pub open spec fn normal(cs: Seq<Seq<char>>) -> bool {
    cs.len() > 0 && cs[0] == seq!['/'] && forall|i: int|
        1 <= i < cs.len() ==> plain(#[trigger] cs[i])
}

proof fn parts_shape(s: Seq<char>, i: int)
    requires
        0 <= i,
    ensures
        forall|k: int|
            0 <= k < parts_from(s, i).len() ==> {
                let c = #[trigger] parts_from(s, i)[k];
                c.len() > 0 && (forall|j: int| 0 <= j < c.len() ==> c[j] != '/') && (c
                    == seq!['.'] ==> i == 0 && k == 0)
            },
    decreases s.len() + 1 - i,
{
    if i < s.len() {
        piece_end_bounds(s, i);
        let e = piece_end(s, i);
        parts_shape(s, e + 1);
        let rest = parts_from(s, e + 1);
        let all = parts_from(s, i);
        assert forall|k: int| 0 <= k < all.len() implies {
            let c = #[trigger] all[k];
            c.len() > 0 && (forall|j: int| 0 <= j < c.len() ==> c[j] != '/') && (c == seq!['.']
                ==> i == 0 && k == 0)
        } by {
            let piece = s.subrange(i, e);
            if counts(i, piece) {
                if k > 0 {
                    assert(all[k] == rest[k - 1]);
                }
            } else {
                assert(all[k] == rest[k]);
            }
        }
    }
}

proof fn resolved_is_normal(cs: Seq<Seq<char>>)
    requires
        cs.len() > 0,
        cs[0] == seq!['/'],
        forall|k: int|
            1 <= k < cs.len() ==> (#[trigger] cs[k]).len() > 0 && forall|j: int|
                0 <= j < cs[k].len() ==> cs[k][j] != '/',
    ensures
        normal(resolved(cs)),
    decreases cs.len(),
{
    assert(seq!['/'][0] == '/');
    assert(seq!['.'][0] == '.');
    assert(seq!['.', '.'][0] == '.');
    if cs.len() == 1 {
        assert(resolved(cs.drop_last()) =~= seq![]);
        assert(resolved(cs) =~= seq![seq!['/']]);
    } else {
        resolved_is_normal(cs.drop_last());
        let before = resolved(cs.drop_last());
        let c = cs.last();
        assert(c == cs[cs.len() - 1]);
        if c == seq!['.', '.'] {
            if before.len() > 1 {
                assert(plain(before[before.len() - 1]));
                assert(popped(before) =~= before.drop_last());
            } else {
                assert(before.last() == seq!['/']);
            }
        }
    }
}

proof fn normal_is_resolved(cs: Seq<Seq<char>>)
    requires
        cs.len() > 0 ==> cs[0] == seq!['/'],
        forall|k: int| 1 <= k < cs.len() ==> plain(#[trigger] cs[k]),
    ensures
        resolved(cs) == cs,
    decreases cs.len(),
{
    assert(seq!['/'][0] == '/');
    assert(seq!['.'][0] == '.');
    assert(seq!['.', '.'][0] == '.');
    if cs.len() > 0 {
        normal_is_resolved(cs.drop_last());
        assert(cs.last() == cs[cs.len() - 1]);
        assert(cs.drop_last().push(cs.last()) =~= cs);
    } else {
        assert(resolved(cs) =~= cs);
    }
}

proof fn parts_of_text(s: Seq<char>, i: int, parts: Seq<Seq<char>>)
    requires
        0 < i <= s.len(),
        s.skip(i) == relative_text(parts),
        forall|k: int| 0 <= k < parts.len() ==> plain(#[trigger] parts[k]),
    ensures
        parts_from(s, i) == parts,
    decreases parts.len(),
{
    if parts.len() == 0 {
        assert(s.skip(i).len() == 0);
        assert(parts_from(s, i) =~= parts);
    } else {
        let c = parts[0];
        assert(plain(c));
        let e = i + c.len();
        if parts.len() == 1 {
            assert(s.subrange(i, e) =~= c) by {
                assert(s.skip(i) =~= c);
            }
            assert forall|j: int| i <= j < e implies s[j] != '/' by {
                assert(s[j] == s.skip(i)[j - i]);
            }
            assert(e == s.len());
            piece_end_is(s, i, e);
            assert(parts_from(s, e + 1) =~= seq![]);
            assert(parts_from(s, i) =~= parts);
        } else {
            let tail = relative_text(parts.skip(1));
            let whole = c + seq!['/'] + tail;
            assert(s.skip(i) == whole);
            assert(s.subrange(i, e) =~= c) by {
                assert forall|j: int| 0 <= j < c.len() implies s.subrange(i, e)[j] == c[j] by {
                    assert(s.skip(i)[j] == whole[j]);
                }
            }
            assert forall|j: int| i <= j < e implies s[j] != '/' by {
                assert(s[j] == s.skip(i)[j - i]);
                assert(whole[j - i] == c[j - i]);
            }
            assert(s[e] == '/') by {
                assert(s[e] == s.skip(i)[c.len() as int]);
                assert(whole[c.len() as int] == '/');
            }
            piece_end_is(s, i, e);
            assert(s.skip(e + 1) =~= tail) by {
                assert forall|j: int| 0 <= j < tail.len() implies s.skip(e + 1)[j] == tail[j] by {
                    assert(s.skip(i)[c.len() + 1 + j] == whole[c.len() + 1 + j]);
                }
            }
            assert forall|k: int| 0 <= k < parts.skip(1).len() implies plain(
                #[trigger] parts.skip(1)[k],
            ) by {
                assert(parts.skip(1)[k] == parts[k + 1]);
            }
            parts_of_text(s, e + 1, parts.skip(1));
            assert(seq![c] + parts.skip(1) =~= parts);
        }
    }
}

/// A path that is written out from components in normal form has exactly these components.
pub proof fn text_keeps_components(cs: Seq<Seq<char>>)
    requires
        normal(cs),
    ensures
        comps(path_text(cs)) == cs,
{
    let s = path_text(cs);
    assert(s[0] == '/');
    assert(s.skip(1) =~= relative_text(cs.skip(1)));
    assert forall|k: int| 0 <= k < cs.skip(1).len() implies plain(#[trigger] cs.skip(1)[k]) by {
        assert(cs.skip(1)[k] == cs[k + 1]);
    }
    parts_of_text(s, 1, cs.skip(1));
    piece_end_is(s, 0, 0);
    let piece = s.subrange(0, 0);
    assert(piece.len() == 0);
    assert(parts_from(s, 0) =~= parts_from(s, 1));
    assert(seq![seq!['/']] + cs.skip(1) =~= cs);
}

/// From an absolute working directory, or for an absolute path, the normal form is absolute, has
/// no `.` and no `..`, and is its own normal form.
pub proof fn normal_form_is_stable(path: Seq<char>, cwd: Option<Seq<char>>, again: Option<Seq<char>>)
    requires
        rooted(path) || (path.len() > 0 && cwd is Some && rooted(cwd->0)),
    ensures
        ({
            let n = path_text(resolved(absolute_comps(path, cwd)));
            &&& rooted(n)
            &&& normal(comps(n))
            &&& path_text(resolved(absolute_comps(n, again))) == n
        }),
{
    let cs = absolute_comps(path, cwd);
    parts_shape(path, 0);
    if rooted(path) {
        piece_end_is(path, 0, 0);
        assert forall|k: int| 1 <= k < cs.len() implies (#[trigger] cs[k]).len() > 0 && forall|
            j: int,
        |
            0 <= j < cs[k].len() ==> cs[k][j] != '/' by {
            assert(cs[k] == parts_from(path, 0)[k - 1]);
        }
    } else {
        let dir = cwd->0;
        parts_shape(dir, 0);
        assert forall|k: int| 1 <= k < cs.len() implies (#[trigger] cs[k]).len() > 0 && forall|
            j: int,
        |
            0 <= j < cs[k].len() ==> cs[k][j] != '/' by {
            let m = comps(dir).len();
            if k < m {
                assert(cs[k] == parts_from(dir, 0)[k - 1]);
            } else {
                assert(comps(path) =~= parts_from(path, 0));
                assert(cs[k] == parts_from(path, 0)[k - m]);
            }
        }
    }
    resolved_is_normal(cs);
    let rs = resolved(cs);
    text_keeps_components(rs);
    normal_is_resolved(rs);
    let n = path_text(rs);
    assert(n[0] == '/');
}

/// A path joined to a directory: an absolute path stays as it is, and a relative one is put behind
/// the directory and a slash.
pub open spec fn path_joined(dir: Seq<char>, path: Seq<char>) -> Seq<char> {
    if rooted(path) {
        path
    } else {
        with_slash(dir) + path
    }
}

/// A directory with a slash at its end.
pub open spec fn with_slash(dir: Seq<char>) -> Seq<char> {
    if dir.len() == 0 || dir.last() == '/' {
        dir
    } else {
        dir.push('/')
    }
}

proof fn slash_adds_no_part(dir: Seq<char>, i: int)
    requires
        0 <= i <= dir.len(),
    ensures
        parts_from(dir.push('/'), i) == parts_from(dir, i),
    decreases dir.len() - i,
{
    let s = dir.push('/');
    piece_end_bounds(dir, i);
    let e = piece_end(dir, i);
    piece_end_is(s, i, e);
    assert(s.subrange(i, e) =~= dir.subrange(i, e));
    if e < dir.len() {
        slash_adds_no_part(dir, e + 1);
    } else {
        assert(parts_from(s, e + 1) =~= seq![]);
        assert(parts_from(dir, e + 1) =~= seq![]);
        if i == dir.len() {
            assert(parts_from(s, i) =~= seq![]);
            assert(parts_from(dir, i) =~= seq![]);
        }
    }
}

proof fn parts_of_front(dir: Seq<char>, path: Seq<char>, i: int)
    requires
        dir.len() > 0,
        dir.last() == '/',
        0 <= i <= dir.len(),
    ensures
        parts_from(dir + path, i) == parts_from(dir, i) + parts_from(
            dir + path,
            dir.len() as int,
        ),
    decreases dir.len() - i,
{
    let s = dir + path;
    if i == dir.len() {
        assert(parts_from(dir, i) =~= seq![]);
        assert(parts_from(s, i) =~= parts_from(dir, i) + parts_from(s, i));
    } else {
        piece_end_bounds(dir, i);
        let e = piece_end(dir, i);
        assert(e < dir.len()) by {
            assert(dir[dir.len() - 1] == '/');
        }
        piece_end_is(s, i, e);
        assert(s.subrange(i, e) =~= dir.subrange(i, e));
        parts_of_front(dir, path, e + 1);
        assert(parts_from(s, i) =~= parts_from(dir, i) + parts_from(s, dir.len() as int));
    }
}

proof fn parts_of_back(dir: Seq<char>, path: Seq<char>, i: int)
    requires
        dir.len() > 0,
        0 <= i <= path.len(),
    ensures
        i > 0 ==> parts_from(dir + path, dir.len() + i) == parts_from(path, i),
        i == 0 ==> parts_from(path, 0) == parts_from(dir + path, dir.len() as int) || parts_from(
            path,
            0,
        ) == seq![seq!['.']] + parts_from(dir + path, dir.len() as int),
    decreases path.len() - i,
{
    let s = dir + path;
    let at = dir.len() + i;
    if i == path.len() {
        assert(parts_from(s, at) =~= parts_from(path, i));
    } else {
        piece_end_bounds(path, i);
        let e = piece_end(path, i);
        assert forall|j: int| at <= j < dir.len() + e implies s[j] != '/' by {
            assert(s[j] == path[j - dir.len()]);
        }
        piece_end_is(s, at, dir.len() + e);
        let piece = path.subrange(i, e);
        assert(s.subrange(at, dir.len() + e) =~= piece);
        if e < path.len() {
            parts_of_back(dir, path, e + 1);
        } else {
            assert(parts_from(path, e + 1) =~= seq![]);
            assert(parts_from(s, dir.len() + e + 1) =~= seq![]);
        }
        if i == 0 && piece == seq!['.'] {
            assert(parts_from(s, at) =~= parts_from(path, e + 1));
            assert(parts_from(path, 0) =~= seq![seq!['.']] + parts_from(s, at));
        } else {
            assert(parts_from(s, at) =~= parts_from(path, i));
        }
    }
}

proof fn dot_resolves_to_nothing(a: Seq<Seq<char>>, b: Seq<Seq<char>>)
    ensures
        resolved(a + seq![seq!['.']] + b) == resolved(a + b),
    decreases b.len(),
{
    let x = a + seq![seq!['.']];
    if b.len() == 0 {
        assert(x + b =~= x);
        assert(a + b =~= a);
        assert(x.drop_last() =~= a);
        assert(x.last() == seq!['.']);
    } else {
        dot_resolves_to_nothing(a, b.drop_last());
        assert((x + b).drop_last() =~= x + b.drop_last());
        assert((a + b).drop_last() =~= a + b.drop_last());
        assert((x + b).last() == b.last());
        assert((a + b).last() == b.last());
    }
}

/// The normal form of a path, read from a working directory, is that of the path joined to the
/// directory: it does not matter whether the directory is put in front first.
pub proof fn normal_form_of_joined(path: Seq<char>, dir: Seq<char>, again: Option<Seq<char>>)
    requires
        path.len() > 0,
        rooted(dir),
    ensures
        resolved(absolute_comps(path, Some(dir))) == resolved(
            absolute_comps(path_joined(dir, path), again),
        ),
        path_text(resolved(absolute_comps(path, Some(dir)))) == path_text(
            resolved(absolute_comps(path_joined(dir, path), again)),
        ),
{
    if !rooted(path) {
        let d = with_slash(dir);
        let s = d + path;
        assert(rooted(s));
        if dir.last() != '/' {
            slash_adds_no_part(dir, 0);
        }
        assert(parts_from(d, 0) == parts_from(dir, 0));
        parts_of_front(d, path, 0);
        parts_of_back(d, path, 0);
        let tail = parts_from(s, d.len() as int);
        assert(comps(s) =~= comps(dir) + tail);
        assert(comps(path) =~= parts_from(path, 0));
        if comps(path) != tail {
            dot_resolves_to_nothing(comps(dir), tail);
            assert(comps(dir) + comps(path) =~= comps(dir) + seq![seq!['.']] + tail);
        }
    }
}

/// A name behind a directory is one more component; a slash at the end or a `.` is none.
pub proof fn name_is_one_more_component(dir: Seq<char>, name: Seq<char>)
    requires
        dir.len() > 0,
        plain(name),
    ensures
        comps(with_slash(dir) + name) == comps(dir).push(name),
        comps(dir.push('/')) == comps(dir),
        comps(with_slash(dir) + seq!['.']) == comps(dir),
{
    let d = with_slash(dir);
    slash_adds_no_part(dir, 0);
    assert(rooted(dir.push('/')) == rooted(dir));
    assert(rooted(d) == rooted(dir));
    parts_of_front(d, name, 0);
    parts_of_back(d, name, 0);
    let s = d + name;
    assert(rooted(s) == rooted(dir));
    assert forall|j: int| 0 <= j < name.len() implies name[j] != '/' by {}
    piece_end_is(name, 0, name.len() as int);
    assert(name.subrange(0, name.len() as int) =~= name);
    assert(parts_from(name, name.len() as int + 1) =~= seq![]);
    assert(parts_from(name, 0) =~= seq![name]);
    let back = parts_from(s, d.len() as int);
    if back != seq![name] {
        assert(seq![name] == seq![seq!['.']] + back);
        assert(seq![name][0] == (seq![seq!['.']] + back)[0]);
    }
    assert(comps(s) =~= comps(dir).push(name));
    let t = d + seq!['.'];
    parts_of_front(d, seq!['.'], 0);
    piece_end_is(t, d.len() as int, d.len() as int + 1);
    assert(t.subrange(d.len() as int, d.len() as int + 1) =~= seq!['.']);
    assert(parts_from(t, d.len() as int + 2) =~= seq![]);
    assert(parts_from(t, d.len() as int) =~= seq![]);
    assert(rooted(t) == rooted(dir));
    assert(comps(t) =~= comps(dir));
}

/// The root is one component, and an empty path has none.
pub proof fn root_is_one_component()
    ensures
        comps(seq!['/']) == seq![seq!['/']],
        comps(Seq::empty()) == Seq::<Seq<char>>::empty(),
{
    let s = seq!['/'];
    piece_end_is(s, 0, 0);
    assert(s.subrange(0, 0) =~= Seq::<char>::empty());
    assert(parts_from(s, 1) =~= seq![]);
    assert(comps(s) =~= seq![seq!['/']]);
    assert(comps(Seq::empty()) =~= Seq::<Seq<char>>::empty());
}

/// What lies below a directory begins with the directory's components, each whole: a name that only
/// begins like another is another.
pub proof fn below_is_component_by_component(path: Seq<Seq<char>>, root: Seq<Seq<char>>)
    requires
        normal(path),
        normal(root),
    ensures
        under(path_text(path), path_text(root)) <==> root.len() <= path.len() && forall|i: int|
            0 <= i < root.len() ==> path[i] == #[trigger] root[i],
{
    text_keeps_components(path);
    text_keeps_components(root);
    if root.len() <= path.len() && (forall|i: int|
        0 <= i < root.len() ==> path[i] == #[trigger] root[i]) {
        assert(path.take(root.len() as int) =~= root);
    }
    if under(path_text(path), path_text(root)) {
        assert forall|i: int| 0 <= i < root.len() implies path[i] == #[trigger] root[i] by {
            assert(path.take(root.len() as int)[i] == root[i]);
        }
    }
}

/// A directory is below itself, and what is below something below it is below it.
pub proof fn below_is_transitive(a: Seq<char>, b: Seq<char>, c: Seq<char>)
    ensures
        under(a, a),
        under(a, b) && under(b, c) ==> under(a, c),
        under(a, b) && under(b, a) ==> comps(a) == comps(b),
{
    assert(comps(a).take(comps(a).len() as int) =~= comps(a));
    if under(a, b) && under(b, c) {
        assert(comps(a).take(comps(c).len() as int) =~= comps(a).take(comps(b).len() as int).take(
            comps(c).len() as int,
        ));
    }
    if under(a, b) && under(b, a) {
        assert(comps(a).take(comps(b).len() as int) =~= comps(a));
    }
}

/// A name stays as it is, `.` stands for nothing, and `..` takes off the name in front of it, but
/// never the root.
pub proof fn dots_resolve(front: Seq<Seq<char>>, name: Seq<char>)
    requires
        plain(name),
    ensures
        resolved(front.push(name)) == resolved(front).push(name),
        resolved(front.push(seq!['.'])) == resolved(front),
        resolved(front.push(name).push(seq!['.', '.'])) == resolved(front),
        resolved(seq![seq!['/'], seq!['.', '.']]) == seq![seq!['/']],
        resolved(Seq::empty()) == Seq::<Seq<char>>::empty(),
{
    let n = front.push(name);
    assert(n.drop_last() =~= front);
    assert(front.push(seq!['.']).drop_last() =~= front);
    assert(n.push(seq!['.', '.']).drop_last() =~= n);
    assert(seq!['.', '.'] != seq!['.']) by {
        assert(seq!['.', '.'].len() != seq!['.'].len());
    }
    assert(name != seq!['/']) by {
        assert(seq!['/'][0] == '/');
    }
    assert(resolved(n).drop_last() =~= resolved(front));
    let r = seq![seq!['/'], seq!['.', '.']];
    assert(r.drop_last() =~= seq![seq!['/']]);
    let one = seq![seq!['/']];
    assert(one.drop_last() =~= Seq::<Seq<char>>::empty());
    assert(seq!['/'] != seq!['.']) by {
        assert(seq!['/'][0] != seq!['.'][0]);
    }
    assert(seq!['/'] != seq!['.', '.']) by {
        assert(seq!['/'].len() != seq!['.', '.'].len());
    }
    assert(one.last() == seq!['/']);
    assert(resolved(one.drop_last()) =~= Seq::<Seq<char>>::empty());
    assert(resolved(one) == resolved(one.drop_last()).push(seq!['/']));
    assert(resolved(one) =~= one);
    assert(resolved(r) =~= one);
}

/// A relative path is read from the working directory, and an absolute one wherever one is.
pub proof fn relative_paths_are_read_from_the_directory(path: Seq<char>, dir: Seq<char>)
    ensures
        path.len() > 0 && path[0] == '/' ==> absolute_comps(path, Some(dir)) == comps(path),
        path.len() > 0 && path[0] != '/' ==> absolute_comps(path, Some(dir)) == comps(dir) + comps(
            path,
        ),
        absolute_comps(path, None) == comps(path),
{
}

/// An extension is what stands behind the last dot of a file's name; a dot that the name begins with
/// does not count.
pub proof fn extension_is_behind_the_last_dot(path: Seq<char>, stem: Seq<char>, ext: Seq<char>)
    requires
        comps(path).len() > 0,
        plain(comps(path).last()),
    ensures
        ({
            let name = comps(path).last();
            &&& stem.len() > 0 && !ext.contains('.') && name == stem + seq!['.'] + ext
                ==> extension_of(path) == Some(ext)
            &&& (forall|i: int| 1 <= i < name.len() ==> name[i] != '.') ==> extension_of(
                path,
            ) is None
        }),
{
    let name = comps(path).last();
    assert(name != seq!['/']) by {
        assert(seq!['/'][0] == '/');
    }
    if stem.len() > 0 && !ext.contains('.') && name == stem + seq!['.'] + ext {
        let at = stem.len() + 1;
        assert forall|j: int| at <= j < name.len() implies name[j] != '.' by {
            if name[j] == '.' {
                assert(ext[j - at] == '.');
            }
        }
        last_dot_is(name, name.len() as int, at as int);
        assert(name.skip(at as int) =~= ext);
    }
    if forall|i: int| 1 <= i < name.len() ==> name[i] != '.' {
        if name[0] == '.' {
            last_dot_is(name, name.len() as int, 1);
        } else {
            last_dot_is(name, name.len() as int, 0);
        }
    }
}

proof fn last_dot_is(s: Seq<char>, n: int, at: int)
    requires
        0 <= at <= n <= s.len(),
        at == 0 || s[at - 1] == '.',
        forall|j: int| at <= j < n ==> s[j] != '.',
    ensures
        after_last_dot(s, n) == at,
    decreases n,
{
    if n > at {
        last_dot_is(s, n - 1, at);
    }
}

/// A path with one more component is the path, a slash and the component.
pub proof fn one_more_component_is_written_behind(cs: Seq<Seq<char>>, name: Seq<char>)
    requires
        cs.len() > 0,
    ensures
        cs[0] == seq!['/'] && cs.len() == 1 ==> path_text(cs) == seq!['/'] && path_text(cs.push(name))
            == seq!['/'] + name,
        cs[0] == seq!['/'] && cs.len() > 1 ==> path_text(cs.push(name)) == path_text(cs).push('/')
            + name,
        cs[0] != seq!['/'] ==> path_text(cs.push(name)) == path_text(cs).push('/') + name,
        cs.len() == 1 && cs[0] != seq!['/'] ==> path_text(cs) == cs[0],
{
    let more = cs.push(name);
    assert(more[0] == cs[0]);
    if cs[0] == seq!['/'] {
        assert(more.skip(1) =~= cs.skip(1).push(name));
        if cs.len() > 1 {
            relative_text_grows(cs.skip(1), name);
            assert(path_text(more) =~= path_text(cs).push('/') + name);
        } else {
            assert(cs.skip(1) =~= Seq::<Seq<char>>::empty());
            assert(more.skip(1)[0] == name);
            assert(path_text(cs) =~= seq!['/']);
            assert(path_text(more) =~= seq!['/'] + name);
        }
    } else {
        relative_text_grows(cs, name);
    }
}

proof fn relative_text_grows(parts: Seq<Seq<char>>, name: Seq<char>)
    requires
        parts.len() > 0,
    ensures
        relative_text(parts.push(name)) == relative_text(parts).push('/') + name,
    decreases parts.len(),
{
    let more = parts.push(name);
    let tail = more.skip(1);
    assert(more[0] == parts[0]);
    if parts.len() == 1 {
        assert(tail =~= seq![name]);
        assert(relative_text(tail) == name);
        assert(relative_text(more) =~= relative_text(parts).push('/') + name);
    } else {
        assert(tail =~= parts.skip(1).push(name));
        relative_text_grows(parts.skip(1), name);
        assert(relative_text(more) =~= relative_text(parts).push('/') + name);
    }
}

/// The directory of a path, if its last component can be taken off.
pub open spec fn parent_comps(cs: Seq<Seq<char>>) -> Option<Seq<Seq<char>>> {
    if cs.len() > 0 && cs.last() != seq!['/'] {
        Some(cs.drop_last())
    } else {
        None
    }
}

/// Index behind the last dot of `s[..n]`, or 0 if there is none.
pub open spec fn after_last_dot(s: Seq<char>, n: int) -> int
    decreases n,
{
    if n <= 0 {
        0
    } else if s[n - 1] == '.' {
        n
    } else {
        after_last_dot(s, n - 1)
    }
}

/// The extension of a path: what follows the last dot of its file name, unless that dot is the
/// first character of the name. The names `.` and `..` and the root have none.
pub open spec fn extension_of(path: Seq<char>) -> Option<Seq<char>> {
    let cs = comps(path);
    if cs.len() == 0 || cs.last() == seq!['/'] || cs.last() == seq!['.'] || cs.last() == seq![
        '.',
        '.',
    ] {
        None
    } else {
        let name = cs.last();
        let at = after_last_dot(name, name.len() as int);
        if at <= 1 {
            None
        } else {
            Some(name.skip(at))
        }
    }
}

/// The extension of a path.
pub fn extension(path: &str) -> (r: Option<String>)
    ensures
        match r {
            Some(e) => extension_of(path@) == Some(e@),
            None => extension_of(path@) is None,
        },
{
    let cs = components(path);
    assert(comps(path@).len() == cs@.len());
    if cs.len() == 0 {
        return None;
    }
    let last: usize = cs.len() - 1;
    assert(comps(path@).last() == cs@[last as int]@);
    if is_root(cs[last].as_str()) || is_dot(cs[last].as_str()) || is_dot_dot(cs[last].as_str()) {
        return None;
    }
    let name = chars_of(cs[last].as_str());
    let mut at: usize = name.len();
    while at > 0 && name[at - 1] != '.'
        invariant
            at <= name.len(),
            after_last_dot(name@, name@.len() as int) == after_last_dot(name@, at as int),
        decreases at,
    {
        at = at - 1;
    }
    if at <= 1 {
        None
    } else {
        let e = text_of(&name, at, name.len());
        assert(e@ =~= name@.skip(at as int));
        Some(e)
    }
}

/// The path behind a `file://` address. Other addresses are refused with a message that quotes
/// them. Percent escapes are left as they are.
pub fn path_from_uri(uri: &str) -> (r: Result<String, String>)
    ensures
        r is Ok <==> has_prefix(uri@, "file://"@),
        match r {
            Ok(p) => p@ == uri@.skip("file://"@.len() as int),
            Err(e) => e@ == "file:// 以外の URI です: "@ + uri@,
        },
{
    match after_prefix(uri, "file://") {
        Some(p) => Ok(p),
        None => Err(joined("file:// 以外の URI です: ", uri)),
    }
}

/// The path a file address stands for, read back, is the path.
pub proof fn file_uri_reads_back(path: Seq<char>)
    ensures
        has_prefix("file://"@ + path, "file://"@),
        ("file://"@ + path).skip("file://"@.len() as int) == path,
{
    let u = "file://"@ + path;
    assert(u.take("file://"@.len() as int) =~= "file://"@);
    assert(u.skip("file://"@.len() as int) =~= path);
}

/// The daemon's configuration directory: below the configuration home if one is named, else below
/// the user's home, else relative to the working directory.
pub fn config_dir(xdg_config_home: Option<&str>, home: Option<&str>) -> (r: String)
    ensures
        comps(r@) == comps(
            match (xdg_config_home, home) {
                (Some(x), _) if x@.len() > 0 => x@ + "/minae"@,
                (_, Some(h)) if h@.len() > 0 => h@ + "/.config/minae"@,
                _ => ".config/minae"@,
            },
        ),
{
    match xdg_config_home {
        Some(x) => {
            if !x.is_empty() {
                return joined(x, "/minae");
            }
        },
        None => {},
    }
    match home {
        Some(h) => {
            if !h.is_empty() {
                return joined(h, "/.config/minae");
            }
        },
        None => {},
    }
    ".config/minae".to_owned()
}

} // verus!
