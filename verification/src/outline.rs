//! The walk that fills an outline with the modules that live in files of their own.
//!
//! The walk asks where a module is defined and what is in that file. It is a function of the
//! replies so far: given them it either has its tree or names the next question.
use vstd::prelude::*;

use crate::paths::deep;
use crate::strings::same;
use crate::table::lists;
use crate::types::{same_symbol, OutlineSymbol, Range, SymbolKind};

verus! {

/// How many symbols a recursive outline may gather.
pub const MAX_RECURSIVE_OUTLINE_SYMBOLS: usize = 500;

/// A symbol as a tree of values.
#[verifier::ext_equal]
pub ghost struct SymbolTree {
    pub name: Seq<char>,
    pub kind: SymbolKind,
    pub range: Range,
    pub selection_range: Range,
    pub children: Seq<SymbolTree>,
}

/// The tree of a symbol.
pub open spec fn tree(s: OutlineSymbol) -> SymbolTree
    decreases s,
{
    SymbolTree {
        name: s.name@,
        kind: s.kind,
        range: s.range,
        selection_range: s.selection_range,
        children: Seq::new(
            s.children@.len(),
            |i: int|
                if 0 <= i < s.children@.len() {
                    tree(s.children@[i])
                } else {
                    arbitrary()
                },
        ),
    }
}

/// The trees of a list of symbols.
pub open spec fn trees(v: Seq<OutlineSymbol>) -> Seq<SymbolTree> {
    Seq::new(v.len(), |i: int| tree(v[i]))
}

/// Symbols that agree in everything have one tree.
pub proof fn same_symbol_same_tree(a: OutlineSymbol, b: OutlineSymbol)
    requires
        same_symbol(a, b),
    ensures
        tree(a) == tree(b),
    decreases a,
{
    assert forall|i: int| 0 <= i < a.children@.len() implies tree(#[trigger] a.children@[i]) == tree(
        b.children@[i],
    ) by {
        same_symbol_same_tree(a.children@[i], b.children@[i]);
    }
    assert(tree(a).children =~= tree(b).children);
}

/// What the walk was told.
///
/// `Busy`: the session that knows where the module is could not be had. `Nowhere`: the module has
/// no definition in a file. `Place`: the file it is defined in. `Outline`: what is in that file, or
/// nothing if no server can say.
pub enum Reply {
    Busy,
    Nowhere,
    Place(String),
    Outline(Option<Vec<OutlineSymbol>>),
}

/// What the walk has to know next: where the module named at a character of a file is defined, or
/// what is in a file.
pub enum Question {
    Where { owner: String, at: usize },
    Inside { path: String },
}

/// A question as a value.
pub ghost enum Asked {
    Where { owner: Seq<char>, at: usize },
    Inside { path: Seq<char> },
}

/// Where a walk stands.
///
/// `Done` has the trees, the files that were looked into, how many symbols may still be gathered,
/// how many replies were used, and whether a file's symbols were left out for want of room.
pub ghost enum Walked {
    Ask(Asked),
    Done { trees: Seq<SymbolTree>, visited: Seq<Seq<char>>, room: nat, used: int, truncated: bool },
}

/// A walk with trees put before its own.
pub open spec fn after(before: Seq<SymbolTree>, truncated: bool, w: Walked) -> Walked {
    match w {
        Walked::Ask(q) => Walked::Ask(q),
        Walked::Done { trees, visited, room, used, truncated: t } => Walked::Done {
            trees: before + trees,
            visited,
            room,
            used,
            truncated: truncated || t,
        },
    }
}

/// Whether a symbol may be a module with a file of its own: one that holds nothing so far.
pub open spec fn is_file_module(t: SymbolTree) -> bool {
    t.kind == SymbolKind::Module && t.children.len() == 0
}

/// The walk over a list of symbols of file `owner`.
///
/// A module that holds nothing is looked up as long as there is depth and room left. One that is
/// defined in its own file's text or in a file that was looked into stays as it is. What is in the
/// file becomes the module's children, if there is room for it, and is walked with one less depth.
/// A module that is passed over for want of room makes the walk a truncated one. Symbols that hold
/// something are walked at their file's depth. A session that cannot be had ends the walk over its
/// list.
pub open spec fn walk(
    list: Seq<SymbolTree>,
    owner: Seq<char>,
    depth: nat,
    visited: Seq<Seq<char>>,
    room: nat,
    replies: Seq<Reply>,
    used: int,
) -> Walked
    decreases replies.len() - used, list,
{
    if list.len() == 0 || used < 0 || used > replies.len() {
        Walked::Done { trees: list, visited, room, used, truncated: false }
    } else {
        let s = list[0];
        let rest = list.subrange(1, list.len() as int);
        if is_file_module(s) && depth > 0 && room > 0 {
            if used >= replies.len() {
                Walked::Ask(Asked::Where { owner, at: s.selection_range.anchor })
            } else {
                match replies[used] {
                    Reply::Busy => Walked::Done {
                        trees: list,
                        visited,
                        room,
                        used: used + 1,
                        truncated: false,
                    },
                    Reply::Place(p) => if p@ == owner || visited.contains(p@) {
                        after(
                            seq![s],
                            false,
                            walk(rest, owner, depth, visited, room, replies, used + 1),
                        )
                    } else if used + 1 >= replies.len() {
                        Walked::Ask(Asked::Inside { path: p@ })
                    } else {
                        match replies[used + 1] {
                            Reply::Outline(Some(inside)) => if room < inside@.len() + 1 {
                                after(
                                    seq![s],
                                    true,
                                    walk(
                                        rest,
                                        owner,
                                        depth,
                                        visited.push(p@),
                                        room,
                                        replies,
                                        used + 2,
                                    ),
                                )
                            } else {
                                let w = walk(
                                    trees(inside@),
                                    p@,
                                    (depth - 1) as nat,
                                    visited.push(p@),
                                    (room - inside@.len() - 1) as nat,
                                    replies,
                                    used + 2,
                                );
                                match w {
                                    Walked::Ask(q) => w,
                                    Walked::Done {
                                        trees: t,
                                        visited: v,
                                        room: r,
                                        used: u,
                                        truncated: x,
                                    } => after(
                                        seq![SymbolTree { children: t, ..s }],
                                        x,
                                        walk(
                                            rest,
                                            owner,
                                            depth,
                                            v,
                                            r,
                                            replies,
                                            later(used + 2, u, replies.len() as int),
                                        ),
                                    ),
                                }
                            },
                            _ => after(
                                seq![s],
                                false,
                                walk(
                                    rest,
                                    owner,
                                    depth,
                                    visited.push(p@),
                                    room,
                                    replies,
                                    used + 2,
                                ),
                            ),
                        }
                    },
                    _ => after(
                        seq![s],
                        false,
                        walk(rest, owner, depth, visited, room, replies, used + 1),
                    ),
                }
            }
        } else {
            let w = walk(s.children, owner, depth, visited, room, replies, used);
            match w {
                Walked::Ask(q) => w,
                Walked::Done { trees: t, visited: v, room: r, used: u, truncated: x } => after(
                    seq![SymbolTree { children: t, ..s }],
                    x || (is_file_module(s) && depth > 0),
                    walk(
                        rest,
                        owner,
                        depth,
                        v,
                        r,
                        replies,
                        later(used, u, replies.len() as int),
                    ),
                ),
            }
        }
    }
}

/// `b`, if it is from `a` to `n`, and else `a`.
pub open spec fn later(a: int, b: int, n: int) -> int {
    if a <= b <= n {
        b
    } else {
        a
    }
}

/// Whether trees are others with some modules filled: every symbol is still there, with its name,
/// kind and ranges, and only modules that held nothing hold more.
pub open spec fn grown(a: Seq<SymbolTree>, b: Seq<SymbolTree>) -> bool
    decreases a,
{
    &&& a.len() == b.len()
    &&& forall|i: int|
        0 <= i < a.len() ==> {
            &&& (#[trigger] a[i]).name == b[i].name
            &&& a[i].kind == b[i].kind
            &&& a[i].range == b[i].range
            &&& a[i].selection_range == b[i].selection_range
            &&& is_file_module(a[i]) || grown(a[i].children, b[i].children)
        }
}

proof fn grown_refl(a: Seq<SymbolTree>)
    ensures
        grown(a, a),
    decreases a,
{
    assert forall|i: int| 0 <= i < a.len() implies grown((#[trigger] a[i]).children, a[i].children) by {
        grown_refl(a[i].children);
    }
}

proof fn grown_after(a: Seq<SymbolTree>, h: SymbolTree, t: Seq<SymbolTree>)
    requires
        a.len() > 0,
        grown(a.subrange(1, a.len() as int), t),
        h.name == a[0].name,
        h.kind == a[0].kind,
        h.range == a[0].range,
        h.selection_range == a[0].selection_range,
        is_file_module(a[0]) || grown(a[0].children, h.children),
    ensures
        grown(a, seq![h] + t),
{
    let b = seq![h] + t;
    let rest = a.subrange(1, a.len() as int);
    assert forall|i: int| 0 <= i < a.len() implies {
        &&& (#[trigger] a[i]).name == b[i].name
        &&& a[i].kind == b[i].kind
        &&& a[i].range == b[i].range
        &&& a[i].selection_range == b[i].selection_range
        &&& is_file_module(a[i]) || grown(a[i].children, b[i].children)
    } by {
        if i > 0 {
            assert(rest[i - 1] == a[i]);
            assert(t[i - 1] == b[i]);
        }
    }
}

/// What a walk promises: no file is looked into twice, the room for symbols only shrinks, and the
/// tree it was given only grows in modules that held nothing. Without depth nothing is asked and
/// nothing changes.
pub proof fn walk_laws(
    list: Seq<SymbolTree>,
    owner: Seq<char>,
    depth: nat,
    visited: Seq<Seq<char>>,
    room: nat,
    replies: Seq<Reply>,
    used: int,
)
    requires
        0 <= used <= replies.len(),
        visited.no_duplicates(),
    ensures
        match walk(list, owner, depth, visited, room, replies, used) {
            Walked::Ask(Asked::Inside { path }) => !visited.contains(path),
            Walked::Ask(Asked::Where { .. }) => true,
            Walked::Done { trees, visited: v, room: r, used: u, truncated } => {
                &&& used <= u <= replies.len()
                &&& r <= room
                &&& v.no_duplicates()
                &&& visited.is_prefix_of(v)
                &&& grown(list, trees)
            },
        },
        depth == 0 ==> walk(list, owner, depth, visited, room, replies, used) == (Walked::Done {
            trees: list,
            visited,
            room,
            used,
            truncated: false,
        }),
    decreases replies.len() - used, list, 0int,
{
    grown_refl(list);
    if list.len() > 0 {
        let s = list[0];
        let rest = list.subrange(1, list.len() as int);
        grown_refl(s.children);
        if is_file_module(s) && depth > 0 && room > 0 {
            if used < replies.len() {
                match replies[used] {
                    Reply::Busy => {},
                    Reply::Place(p) => {
                        if p@ == owner || visited.contains(p@) {
                            rest_laws(list, owner, depth, visited, room, replies, used + 1, s);
                        } else if used + 1 < replies.len() {
                            let v2 = visited.push(p@);
                            assert(v2.no_duplicates());
                            assert(visited.is_prefix_of(v2));
                            match replies[used + 1] {
                                Reply::Outline(Some(inside)) => {
                                    if room < inside@.len() + 1 {
                                        rest_laws(
                                            list,
                                            owner,
                                            depth,
                                            v2,
                                            room,
                                            replies,
                                            used + 2,
                                            s,
                                        );
                                        prefix_laws(visited, v2);
                                    } else {
                                        let left = (room - inside@.len() - 1) as nat;
                                        walk_laws(
                                            trees(inside@),
                                            p@,
                                            (depth - 1) as nat,
                                            v2,
                                            left,
                                            replies,
                                            used + 2,
                                        );
                                        prefix_laws(visited, v2);
                                        match walk(
                                            trees(inside@),
                                            p@,
                                            (depth - 1) as nat,
                                            v2,
                                            left,
                                            replies,
                                            used + 2,
                                        ) {
                                            Walked::Ask(q) => {},
                                            Walked::Done {
                                                trees: t,
                                                visited: v,
                                                room: r,
                                                used: u,
                                                truncated,
                                            } => {
                                                rest_laws(
                                                    list,
                                                    owner,
                                                    depth,
                                                    v,
                                                    r,
                                                    replies,
                                                    u,
                                                    SymbolTree { children: t, ..s },
                                                );
                                                prefix_laws(visited, v);
                                            },
                                        }
                                    }
                                },
                                _ => {
                                    rest_laws(list, owner, depth, v2, room, replies, used + 2, s);
                                    prefix_laws(visited, v2);
                                },
                            }
                        }
                    },
                    _ => {
                        rest_laws(list, owner, depth, visited, room, replies, used + 1, s);
                    },
                }
            }
        } else {
            walk_laws(s.children, owner, depth, visited, room, replies, used);
            match walk(s.children, owner, depth, visited, room, replies, used) {
                Walked::Ask(q) => {},
                Walked::Done { trees: t, visited: v, room: r, used: u, truncated } => {
                    rest_laws(list, owner, depth, v, r, replies, u, SymbolTree { children: t, ..s });
                    prefix_laws(visited, v);
                    if depth == 0 {
                        assert(seq![s] + rest =~= list);
                    }
                },
            }
        }
    }
}

/// The laws of the walk over the rest of a list, with the first symbol put before it again.
proof fn rest_laws(
    list: Seq<SymbolTree>,
    owner: Seq<char>,
    depth: nat,
    visited: Seq<Seq<char>>,
    room: nat,
    replies: Seq<Reply>,
    used: int,
    head: SymbolTree,
)
    requires
        list.len() > 0,
        0 <= used <= replies.len(),
        visited.no_duplicates(),
        head.name == list[0].name,
        head.kind == list[0].kind,
        head.range == list[0].range,
        head.selection_range == list[0].selection_range,
        is_file_module(list[0]) || grown(list[0].children, head.children),
    ensures
        match walk(
            list.subrange(1, list.len() as int),
            owner,
            depth,
            visited,
            room,
            replies,
            used,
        ) {
            Walked::Ask(Asked::Inside { path }) => !visited.contains(path),
            Walked::Ask(Asked::Where { .. }) => true,
            Walked::Done { trees, visited: v, room: r, used: u, truncated } => {
                &&& used <= u <= replies.len()
                &&& r <= room
                &&& v.no_duplicates()
                &&& visited.is_prefix_of(v)
                &&& grown(list, seq![head] + trees)
            },
        },
        depth == 0 ==> walk(
            list.subrange(1, list.len() as int),
            owner,
            depth,
            visited,
            room,
            replies,
            used,
        ) == (Walked::Done {
            trees: list.subrange(1, list.len() as int),
            visited,
            room,
            used,
            truncated: false,
        }),
    decreases replies.len() - used, list.subrange(1, list.len() as int), 1int,
{
    let rest = list.subrange(1, list.len() as int);
    walk_laws(rest, owner, depth, visited, room, replies, used);
    match walk(rest, owner, depth, visited, room, replies, used) {
        Walked::Ask(q) => {},
        Walked::Done { trees, .. } => {
            grown_after(list, head, trees);
        },
    }
}

/// What is not in a longer list is not in its beginning, and beginnings are transitive.
proof fn prefix_laws(a: Seq<Seq<char>>, b: Seq<Seq<char>>)
    requires
        a.is_prefix_of(b),
    ensures
        forall|p: Seq<char>| #![trigger a.contains(p)] !b.contains(p) ==> !a.contains(p),
        forall|c: Seq<Seq<char>>| #![trigger b.is_prefix_of(c)] b.is_prefix_of(c) ==> a.is_prefix_of(c),
{
    assert forall|p: Seq<char>| #![trigger a.contains(p)] !b.contains(p) implies !a.contains(p) by {
        if a.contains(p) {
            let i = choose|i: int| 0 <= i < a.len() && a[i] == p;
            assert(b[i] == p);
        }
    }
}

/// What replies have come to: the files that were looked into, the room that is left, and whether a
/// file's symbols were left out because there were more than that.
#[verifier::ext_equal]
pub ghost struct Tally {
    pub visited: Seq<Seq<char>>,
    pub room: nat,
    pub cut: bool,
}

/// What the replies `from..to` come to, read one after the other. A place that is new is looked into,
/// and the next reply tells what is there; that takes one, and one for each symbol, from the room,
/// unless there is less. No other reply takes anything. Nothing if the last place was not looked into.
pub open spec fn tally(replies: Seq<Reply>, from: int, to: int, t: Tally) -> Option<Tally>
    decreases to - from,
{
    if from >= to {
        Some(t)
    } else {
        match replies[from] {
            Reply::Place(p) => if t.visited.contains(p@) {
                tally(replies, from + 1, to, t)
            } else if from + 1 >= to {
                None
            } else {
                let seen = Tally { visited: t.visited.push(p@), ..t };
                let now = match replies[from + 1] {
                    Reply::Outline(Some(v)) => if v@.len() < t.room {
                        Tally { room: (t.room - 1 - v@.len()) as nat, ..seen }
                    } else {
                        Tally { cut: true, ..seen }
                    },
                    _ => seen,
                };
                tally(replies, from + 2, to, now)
            },
            _ => tally(replies, from + 1, to, t),
        }
    }
}

proof fn tally_goes_on(replies: Seq<Reply>, a: int, b: int, c: int, t: Tally)
    requires
        a <= b <= c,
        tally(replies, a, b, t) is Some,
    ensures
        tally(replies, a, c, t) == tally(replies, b, c, tally(replies, a, b, t)->0),
    decreases b - a,
{
    if a < b {
        match replies[a] {
            Reply::Place(p) => if t.visited.contains(p@) {
                tally_goes_on(replies, a + 1, b, c, t);
            } else if a + 1 < b {
                let seen = Tally { visited: t.visited.push(p@), ..t };
                let now = match replies[a + 1] {
                    Reply::Outline(Some(v)) => if v@.len() < t.room {
                        Tally { room: (t.room - 1 - v@.len()) as nat, ..seen }
                    } else {
                        Tally { cut: true, ..seen }
                    },
                    _ => seen,
                };
                tally_goes_on(replies, a + 2, b, c, now);
            },
            _ => {
                tally_goes_on(replies, a + 1, b, c, t);
            },
        }
    }
}

proof fn tally_keeps_cut(replies: Seq<Reply>, a: int, b: int, t: Tally)
    ensures
        ({
            let x = tally(replies, a, b, Tally { cut: false, ..t });
            let y = tally(replies, a, b, t);
            &&& x is Some <==> y is Some
            &&& x is Some ==> y->0 == (Tally { cut: t.cut || x->0.cut, ..x->0 })
            &&& x is Some ==> x->0.room <= t.room
        }),
    decreases b - a,
{
    if a < b {
        match replies[a] {
            Reply::Place(p) => if t.visited.contains(p@) {
                tally_keeps_cut(replies, a + 1, b, t);
            } else if a + 1 < b {
                let seen = Tally { visited: t.visited.push(p@), ..t };
                match replies[a + 1] {
                    Reply::Outline(Some(v)) => if v@.len() < t.room {
                        tally_keeps_cut(
                            replies,
                            a + 2,
                            b,
                            Tally { room: (t.room - 1 - v@.len()) as nat, ..seen },
                        );
                    } else {
                        tally_keeps_cut(replies, a + 2, b, Tally { cut: true, ..seen });
                    },
                    _ => {
                        tally_keeps_cut(replies, a + 2, b, seen);
                    },
                }
            },
            _ => {
                tally_keeps_cut(replies, a + 1, b, t);
            },
        }
    }
}

/// The tally of two stretches of replies is that of the second, from where the first has led.
proof fn tallied_on(replies: Seq<Reply>, a: int, b: int, c: int, s: Tally, m: Tally, e: Tally)
    requires
        a <= b <= c,
        tally(replies, a, b, s) == Some(m),
        tally(replies, b, c, Tally { cut: false, ..m }) == Some(e),
    ensures
        tally(replies, a, c, s) == Some(Tally { cut: m.cut || e.cut, ..e }),
        e.room <= m.room,
{
    tally_goes_on(replies, a, b, c, s);
    tally_keeps_cut(replies, b, c, m);
}

/// The books of a walk are right: the files that it has looked into and the room that it leaves are
/// what the replies that it used come to. So every file that was filled in has taken one, and one for
/// each of its symbols, from the room, and nothing else has. The walk is truncated if a file's symbols
/// did not fit the room, and only then or if no room is left at all.
pub proof fn room_is_what_the_files_leave(
    list: Seq<SymbolTree>,
    owner: Seq<char>,
    depth: nat,
    visited: Seq<Seq<char>>,
    room: nat,
    replies: Seq<Reply>,
    used: int,
)
    requires
        0 <= used <= replies.len(),
        visited.no_duplicates(),
        visited.contains(owner),
    ensures
        walk(list, owner, depth, visited, room, replies, used) matches Walked::Done {
            visited: v,
            room: r,
            used: u,
            truncated,
            ..
        } ==> {
            let t = tally(replies, used, u, Tally { visited, room, cut: false });
            &&& used <= u <= replies.len()
            &&& t matches Some(t) && t.visited == v && t.room == r && (t.cut ==> truncated) && (
            truncated ==> t.cut || r == 0)
        },
    decreases replies.len() - used, list, 0int,
{
    let start = Tally { visited, room, cut: false };
    walk_laws(list, owner, depth, visited, room, replies, used);
    if list.len() > 0 {
        let s = list[0];
        let rest = list.subrange(1, list.len() as int);
        if is_file_module(s) && depth > 0 && room > 0 {
            if used < replies.len() {
                match replies[used] {
                    Reply::Place(p) => {
                        if visited.contains(p@) {
                            rest_is_tallied(list, owner, depth, replies, used, used + 1, start, start);
                        } else if used + 1 < replies.len() {
                            let v2 = visited.push(p@);
                            assert(v2.no_duplicates());
                            assert(v2[v2.len() - 1] == p@);
                            prefix_keeps(visited, v2, owner);
                            match replies[used + 1] {
                                Reply::Outline(Some(inside)) => {
                                    if room < inside@.len() + 1 {
                                        let m = Tally { visited: v2, room, cut: true };
                                        assert(tally(replies, used + 2, used + 2, m) == Some(m));
                                        rest_is_tallied(
                                            list,
                                            owner,
                                            depth,
                                            replies,
                                            used,
                                            used + 2,
                                            start,
                                            m,
                                        );
                                    } else {
                                        let left = (room - inside@.len() - 1) as nat;
                                        let m = Tally { visited: v2, room: left, cut: false };
                                        assert(tally(replies, used + 2, used + 2, m) == Some(m));
                                        room_is_what_the_files_leave(
                                            trees(inside@),
                                            p@,
                                            (depth - 1) as nat,
                                            v2,
                                            left,
                                            replies,
                                            used + 2,
                                        );
                                        walk_laws(
                                            trees(inside@),
                                            p@,
                                            (depth - 1) as nat,
                                            v2,
                                            left,
                                            replies,
                                            used + 2,
                                        );
                                        match walk(
                                            trees(inside@),
                                            p@,
                                            (depth - 1) as nat,
                                            v2,
                                            left,
                                            replies,
                                            used + 2,
                                        ) {
                                            Walked::Ask(q) => {},
                                            Walked::Done { visited: v, used: u, .. } => {
                                                let e = tally(replies, used + 2, u, m)->0;
                                                assert(tally(replies, used, used + 2, start) == Some(
                                                    m,
                                                ));
                                                tallied_on(
                                                    replies,
                                                    used,
                                                    used + 2,
                                                    u,
                                                    start,
                                                    m,
                                                    e,
                                                );
                                                prefix_keeps(v2, v, owner);
                                                rest_is_tallied(
                                                    list,
                                                    owner,
                                                    depth,
                                                    replies,
                                                    used,
                                                    u,
                                                    start,
                                                    e,
                                                );
                                            },
                                        }
                                    }
                                },
                                _ => {
                                    let m = Tally { visited: v2, room, cut: false };
                                    assert(tally(replies, used + 2, used + 2, m) == Some(m));
                                    rest_is_tallied(
                                        list,
                                        owner,
                                        depth,
                                        replies,
                                        used,
                                        used + 2,
                                        start,
                                        m,
                                    );
                                },
                            }
                        }
                    },
                    Reply::Busy => {
                        assert(tally(replies, used + 1, used + 1, start) == Some(start));
                    },
                    _ => {
                        assert(tally(replies, used + 1, used + 1, start) == Some(start));
                        rest_is_tallied(list, owner, depth, replies, used, used + 1, start, start);
                    },
                }
            }
        } else {
            room_is_what_the_files_leave(s.children, owner, depth, visited, room, replies, used);
            walk_laws(s.children, owner, depth, visited, room, replies, used);
            match walk(s.children, owner, depth, visited, room, replies, used) {
                Walked::Ask(q) => {},
                Walked::Done { visited: v, used: u, .. } => {
                    let e = tally(replies, used, u, start)->0;
                    prefix_keeps(visited, v, owner);
                    rest_is_tallied(list, owner, depth, replies, used, u, start, e);
                },
            }
        }
    }
}

proof fn prefix_keeps(a: Seq<Seq<char>>, b: Seq<Seq<char>>, p: Seq<char>)
    requires
        a.is_prefix_of(b),
        a.contains(p),
    ensures
        b.contains(p),
{
    let i = a.index_of(p);
    assert(b[i] == p);
}

/// The books of the walk over the rest of a list, when the replies `used..k` have led to `m`.
proof fn rest_is_tallied(
    list: Seq<SymbolTree>,
    owner: Seq<char>,
    depth: nat,
    replies: Seq<Reply>,
    used: int,
    k: int,
    start: Tally,
    m: Tally,
)
    requires
        list.len() > 0,
        0 <= used <= k <= replies.len(),
        m.visited.no_duplicates(),
        m.visited.contains(owner),
        tally(replies, used, k, start) == Some(m),
    ensures
        walk(
            list.subrange(1, list.len() as int),
            owner,
            depth,
            m.visited,
            m.room,
            replies,
            k,
        ) matches Walked::Done { visited: v, room: r, used: u, truncated, .. } ==> {
            let t = tally(replies, used, u, start);
            &&& k <= u <= replies.len()
            &&& r <= m.room
            &&& t matches Some(t) && t.visited == v && t.room == r && (t.cut ==> m.cut || truncated)
                && (m.cut ==> t.cut) && (truncated ==> t.cut || r == 0)
        },
    decreases replies.len() - k, list.subrange(1, list.len() as int), 1int,
{
    let rest = list.subrange(1, list.len() as int);
    room_is_what_the_files_leave(rest, owner, depth, m.visited, m.room, replies, k);
    match walk(rest, owner, depth, m.visited, m.room, replies, k) {
        Walked::Ask(q) => {},
        Walked::Done { used: u, .. } => {
            let from = Tally { cut: false, ..m };
            assert(from == Tally { visited: m.visited, room: m.room, cut: false });
            tallied_on(replies, used, k, u, start, m, tally(replies, k, u, from)->0);
        },
    }
}

/// Whether `now` is what a walk makes of a symbol of file `owner`, when the replies before `k` have come
/// to `m`. What a symbol holds is walked. A module that holds nothing is answered by reply `k`, if there
/// is depth and room left: it is filled with the walked symbols of the file, if that is a new one and
/// they fit, and else stays as it is.
pub open spec fn is_walked(
    s: SymbolTree,
    now: SymbolTree,
    owner: Seq<char>,
    depth: nat,
    m: Tally,
    replies: Seq<Reply>,
    k: int,
) -> bool {
    if !is_file_module(s) {
        walk(s.children, owner, depth, m.visited, m.room, replies, k) matches Walked::Done {
            trees: c,
            ..
        } && now == (SymbolTree { children: c, ..s })
    } else if depth == 0 || m.room == 0 {
        now == s
    } else {
        k < replies.len() && match replies[k] {
            Reply::Place(p) => if m.visited.contains(p@) {
                now == s
            } else {
                k + 1 < replies.len() && match replies[k + 1] {
                    Reply::Outline(Some(v)) => if v@.len() < m.room {
                        walk(
                            trees(v@),
                            p@,
                            (depth - 1) as nat,
                            m.visited.push(p@),
                            (m.room - 1 - v@.len()) as nat,
                            replies,
                            k + 2,
                        ) matches Walked::Done { trees: c, .. } && now == (SymbolTree {
                            children: c,
                            ..s
                        })
                    } else {
                        now == s
                    },
                    _ => now == s,
                }
            },
            _ => now == s,
        }
    }
}

/// Whether the replies `used..k` have come to `m`.
pub open spec fn has_come_to(replies: Seq<Reply>, used: int, k: int, start: Tally, m: Tally) -> bool {
    used <= k <= replies.len() && tally(replies, used, k, start) == Some(m)
}

/// The first symbol of a list is walked, and the walk over the rest goes on from there.
proof fn first_is_walked(
    list: Seq<SymbolTree>,
    owner: Seq<char>,
    depth: nat,
    start: Tally,
    replies: Seq<Reply>,
    used: int,
) -> (r: (int, Tally))
    requires
        list.len() > 0,
        !start.cut,
        0 <= used <= replies.len(),
        start.visited.no_duplicates(),
        start.visited.contains(owner),
        walk(list, owner, depth, start.visited, start.room, replies, used) is Done,
        forall|j: int| used <= j < replies.len() ==> !(#[trigger] replies[j] is Busy),
    ensures
        has_come_to(replies, used, r.0, start, r.1),
        r.1.visited.no_duplicates(),
        r.1.visited.contains(owner),
        ({
            let rest = list.subrange(1, list.len() as int);
            let all = walk(list, owner, depth, start.visited, start.room, replies, used);
            let w = walk(rest, owner, depth, r.1.visited, r.1.room, replies, r.0);
            &&& w is Done
            &&& all->Done_trees.len() > 0
            &&& is_walked(list[0], all->Done_trees[0], owner, depth, start, replies, used)
            &&& all->Done_trees == seq![all->Done_trees[0]] + w->Done_trees
        }),
{
    let (visited, room) = (start.visited, start.room);
    let s = list[0];
    let rest = list.subrange(1, list.len() as int);
    assert(start == Tally { visited, room, cut: false });
    if is_file_module(s) && depth > 0 && room > 0 {
        assert(used < replies.len());
        match replies[used] {
            Reply::Place(p) => {
                if visited.contains(p@) {
                    assert(tally(replies, used + 1, used + 1, start) == Some(start));
                    (used + 1, start)
                } else {
                    assert(used + 1 < replies.len());
                    let v2 = visited.push(p@);
                    assert(v2.no_duplicates());
                    assert(v2[v2.len() - 1] == p@);
                    prefix_keeps(visited, v2, owner);
                    match replies[used + 1] {
                        Reply::Outline(Some(inside)) => {
                            if room < inside@.len() + 1 {
                                let m = Tally { visited: v2, room, cut: true };
                                assert(tally(replies, used + 2, used + 2, m) == Some(m));
                                (used + 2, m)
                            } else {
                                let left = (room - inside@.len() - 1) as nat;
                                let m = Tally { visited: v2, room: left, cut: false };
                                let (l, n) = (trees(inside@), (depth - 1) as nat);
                                assert(tally(replies, used + 2, used + 2, m) == Some(m));
                                assert(tally(replies, used, used + 2, start) == Some(m));
                                walk_laws(l, p@, n, v2, left, replies, used + 2);
                                room_is_what_the_files_leave(l, p@, n, v2, left, replies, used + 2);
                                let w = walk(l, p@, n, v2, left, replies, used + 2);
                                let u = w->Done_used;
                                let e = tally(replies, used + 2, u, m)->0;
                                tallied_on(replies, used, used + 2, u, start, m, e);
                                prefix_keeps(v2, w->Done_visited, owner);
                                (u, e)
                            }
                        },
                        _ => {
                            let m = Tally { visited: v2, room, cut: false };
                            assert(tally(replies, used + 2, used + 2, m) == Some(m));
                            (used + 2, m)
                        },
                    }
                }
            },
            _ => {
                assert(tally(replies, used + 1, used + 1, start) == Some(start));
                (used + 1, start)
            },
        }
    } else {
        walk_laws(s.children, owner, depth, visited, room, replies, used);
        room_is_what_the_files_leave(s.children, owner, depth, visited, room, replies, used);
        let w = walk(s.children, owner, depth, visited, room, replies, used);
        let u = w->Done_used;
        prefix_keeps(visited, w->Done_visited, owner);
        if is_file_module(s) {
            assert(s.children =~= Seq::<SymbolTree>::empty());
            assert(w->Done_trees =~= s.children);
        }
        (u, tally(replies, used, u, start)->0)
    }
}

/// Every symbol is walked in its turn, however many there are and whatever the ones before it were:
/// if every session could be had, symbol `i` is what a walk makes of it from where the replies to the
/// symbols before it have led.
pub proof fn every_symbol_is_walked(
    list: Seq<SymbolTree>,
    owner: Seq<char>,
    depth: nat,
    start: Tally,
    replies: Seq<Reply>,
    used: int,
    i: int,
)
    requires
        0 <= i < list.len(),
        !start.cut,
        0 <= used <= replies.len(),
        start.visited.no_duplicates(),
        start.visited.contains(owner),
        walk(list, owner, depth, start.visited, start.room, replies, used) is Done,
        forall|j: int| used <= j < replies.len() ==> !(#[trigger] replies[j] is Busy),
    ensures
        ({
            let now = walk(
                list,
                owner,
                depth,
                start.visited,
                start.room,
                replies,
                used,
            )->Done_trees;
            &&& now.len() == list.len()
            &&& exists|k: int, m: Tally| #[trigger]
                has_come_to(replies, used, k, start, m) && is_walked(
                    list[i],
                    now[i],
                    owner,
                    depth,
                    m,
                    replies,
                    k,
                )
        }),
    decreases i,
{
    let now = walk(list, owner, depth, start.visited, start.room, replies, used)->Done_trees;
    let rest = list.subrange(1, list.len() as int);
    let (k, m) = first_is_walked(list, owner, depth, start, replies, used);
    walk_laws(list, owner, depth, start.visited, start.room, replies, used);
    if i == 0 {
        assert(has_come_to(replies, used, used, start, start));
    } else {
        let from = Tally { cut: false, ..m };
        every_symbol_is_walked(rest, owner, depth, from, replies, k, i - 1);
        let later = walk(rest, owner, depth, m.visited, m.room, replies, k)->Done_trees;
        assert(now[i] == later[i - 1]);
        assert(rest[i - 1] == list[i]);
        let (j, n) = choose|j: int, n: Tally| #[trigger]
            has_come_to(replies, k, j, from, n) && is_walked(
                rest[i - 1],
                later[i - 1],
                owner,
                depth,
                n,
                replies,
                j,
            );
        tallied_on(replies, used, k, j, start, m, n);
        let e = Tally { cut: m.cut || n.cut, ..n };
        assert(has_come_to(replies, used, j, start, e));
        assert(is_walked(list[i], now[i], owner, depth, e, replies, j));
    }
}

/// A module whose file is a new one and fits the room holds what is in the file, every symbol of it in
/// order, with more only in modules that held nothing.
pub proof fn module_holds_its_file(
    s: SymbolTree,
    now: SymbolTree,
    owner: Seq<char>,
    depth: nat,
    m: Tally,
    replies: Seq<Reply>,
    k: int,
    path: Seq<char>,
    v: Vec<OutlineSymbol>,
)
    requires
        is_walked(s, now, owner, depth, m, replies, k),
        is_file_module(s),
        depth > 0,
        v@.len() < m.room,
        m.visited.no_duplicates(),
        !m.visited.contains(path),
        was_told(replies, k, path, v),
    ensures
        grown(trees(v@), now.children),
        now.children.len() == v@.len(),
        now.name == s.name,
        now.kind == s.kind,
        now.range == s.range,
        now.selection_range == s.selection_range,
{
    assert(m.visited.push(path).no_duplicates());
    walk_laws(
        trees(v@),
        path,
        (depth - 1) as nat,
        m.visited.push(path),
        (m.room - 1 - v@.len()) as nat,
        replies,
        k + 2,
    );
}

/// A recursive outline gathers 500 symbols at most, counting each module that it fills and each symbol
/// in its file; it says that it is not whole if a file had more symbols than were left of that, and
/// only then or if nothing was left.
pub proof fn outline_gathers_up_to_its_limit(
    list: Seq<SymbolTree>,
    path: Seq<char>,
    depth: nat,
    replies: Seq<Reply>,
)
    ensures
        walk(
            list,
            path,
            depth,
            seq![path],
            MAX_RECURSIVE_OUTLINE_SYMBOLS as nat,
            replies,
            0,
        ) matches Walked::Done { visited: v, room: r, used: u, truncated, .. } ==> {
            &&& r <= 500
            &&& tally(
                replies,
                0,
                u,
                Tally { visited: seq![path], room: 500, cut: false },
            ) matches Some(t) && t.visited == v && t.room == r && (t.cut ==> truncated) && (truncated
                ==> t.cut || r == 0)
        },
{
    assert(seq![path][0] == path);
    walk_laws(list, path, depth, seq![path], 500, replies, 0);
    room_is_what_the_files_leave(list, path, depth, seq![path], 500, replies, 0);
}

/// Whether a module that holds nothing is named at a place, somewhere in the trees.
pub open spec fn names_module(list: Seq<SymbolTree>, at: usize) -> bool
    decreases list,
{
    exists|i: int|
        0 <= i < list.len() && ((is_file_module(#[trigger] list[i])
            && list[i].selection_range.anchor == at) || names_module(list[i].children, at))
}

/// Whether the replies told that something is in a file.
pub open spec fn was_told(replies: Seq<Reply>, k: int, path: Seq<char>, v: Vec<OutlineSymbol>) -> bool {
    &&& 0 <= k
    &&& k + 1 < replies.len()
    &&& replies[k] matches Reply::Place(p) && p@ == path
    &&& replies[k + 1] matches Reply::Outline(Some(o)) && o == v
}

/// A walk asks only what it has to know, once the replies so far are used up: what is in the file that
/// the last reply named, or where a module is defined that holds nothing, at its name, in the file that
/// is walked or in one whose symbols it was told.
pub proof fn questions_are_about_modules(
    list: Seq<SymbolTree>,
    owner: Seq<char>,
    depth: nat,
    visited: Seq<Seq<char>>,
    room: nat,
    replies: Seq<Reply>,
    used: int,
)
    requires
        0 <= used <= replies.len(),
    ensures
        match walk(list, owner, depth, visited, room, replies, used) {
            Walked::Ask(Asked::Inside { path }) => replies.len() > 0 && (
            replies.last() matches Reply::Place(p) && p@ == path),
            Walked::Ask(Asked::Where { owner: o, at }) => (o == owner && names_module(list, at)) || (
            exists|k: int, v: Vec<OutlineSymbol>| #[trigger]
                was_told(replies, k, o, v) && names_module(trees(v@), at)),
            Walked::Done { .. } => true,
        },
    decreases replies.len() - used, list,
{
    if list.len() > 0 {
        let s = list[0];
        let rest = list.subrange(1, list.len() as int);
        rest_names(list);
        if is_file_module(s) && depth > 0 && room > 0 {
            if used < replies.len() {
                match replies[used] {
                    Reply::Busy => {},
                    Reply::Place(p) => {
                        if p@ == owner || visited.contains(p@) {
                            questions_are_about_modules(
                                rest,
                                owner,
                                depth,
                                visited,
                                room,
                                replies,
                                used + 1,
                            );
                        } else if used + 1 < replies.len() {
                            let v2 = visited.push(p@);
                            match replies[used + 1] {
                                Reply::Outline(Some(inside)) => {
                                    if room < inside@.len() + 1 {
                                        questions_are_about_modules(
                                            rest,
                                            owner,
                                            depth,
                                            v2,
                                            room,
                                            replies,
                                            used + 2,
                                        );
                                    } else {
                                        let left = (room - inside@.len() - 1) as nat;
                                        let (l, n) = (trees(inside@), (depth - 1) as nat);
                                        assert(was_told(replies, used, p@, inside));
                                        questions_are_about_modules(
                                            l,
                                            p@,
                                            n,
                                            v2,
                                            left,
                                            replies,
                                            used + 2,
                                        );
                                        match walk(l, p@, n, v2, left, replies, used + 2) {
                                            Walked::Ask(q) => {},
                                            Walked::Done { visited: v, room: r, used: u, .. } => {
                                                questions_are_about_modules(
                                                    rest,
                                                    owner,
                                                    depth,
                                                    v,
                                                    r,
                                                    replies,
                                                    later(used + 2, u, replies.len() as int),
                                                );
                                            },
                                        }
                                    }
                                },
                                _ => {
                                    questions_are_about_modules(
                                        rest,
                                        owner,
                                        depth,
                                        v2,
                                        room,
                                        replies,
                                        used + 2,
                                    );
                                },
                            }
                        }
                    },
                    _ => {
                        questions_are_about_modules(
                            rest,
                            owner,
                            depth,
                            visited,
                            room,
                            replies,
                            used + 1,
                        );
                    },
                }
            } else {
                assert(is_file_module(list[0]));
            }
        } else {
            questions_are_about_modules(s.children, owner, depth, visited, room, replies, used);
            match walk(s.children, owner, depth, visited, room, replies, used) {
                Walked::Ask(Asked::Where { owner: o, at }) => {
                    if names_module(s.children, at) {
                        assert(names_module(list[0].children, at));
                    }
                },
                Walked::Ask(q) => {},
                Walked::Done { visited: v, room: r, used: u, .. } => {
                    questions_are_about_modules(
                        rest,
                        owner,
                        depth,
                        v,
                        r,
                        replies,
                        later(used, u, replies.len() as int),
                    );
                },
            }
        }
    }
}

proof fn rest_names(list: Seq<SymbolTree>)
    requires
        list.len() > 0,
    ensures
        forall|at: usize| #[trigger]
            names_module(list.subrange(1, list.len() as int), at) ==> names_module(list, at),
{
    let rest = list.subrange(1, list.len() as int);
    assert forall|at: usize| #[trigger] names_module(rest, at) implies names_module(list, at) by {
        let i = choose|i: int|
            0 <= i < rest.len() && ((is_file_module(#[trigger] rest[i])
                && rest[i].selection_range.anchor == at) || names_module(rest[i].children, at));
        assert(list[i + 1] == rest[i]);
    }
}

/// Where a running walk stands.
pub enum Stand {
    Ask(Question),
    Done { symbols: Vec<OutlineSymbol>, truncated: bool },
}

/// Whether a question is the one that the walk asks.
pub open spec fn is_asked(q: Question, a: Asked) -> bool {
    match q {
        Question::Where { owner, at } => a matches Asked::Where { owner: o, at: n } && owner@ == o
            && at == n,
        Question::Inside { path } => a matches Asked::Inside { path: p } && path@ == p,
    }
}

/// How a walk over the rest of a list goes on from the trees that it has so far.
spec fn goes_on(
    done: Seq<SymbolTree>,
    truncated: bool,
    rest: Seq<SymbolTree>,
    owner: Seq<char>,
    depth: nat,
    visited: Seq<Seq<char>>,
    room: nat,
    replies: Seq<Reply>,
    used: int,
) -> Walked {
    after(done, truncated, walk(rest, owner, depth, visited, room, replies, used))
}

proof fn after_after(a: Seq<SymbolTree>, x: bool, b: Seq<SymbolTree>, y: bool, w: Walked)
    ensures
        after(a, x, after(b, y, w)) == after(a + b, x || y, w),
{
    match w {
        Walked::Ask(q) => {},
        Walked::Done { trees, .. } => {
            assert(a + (b + trees) =~= a + b + trees);
        },
    }
}

proof fn one_tree(s: OutlineSymbol, children: Vec<OutlineSymbol>, made: OutlineSymbol)
    requires
        made.name@ == s.name@,
        made.kind == s.kind,
        made.range == s.range,
        made.selection_range == s.selection_range,
        made.children == children,
    ensures
        tree(made) == (SymbolTree { children: trees(children@), ..tree(s) }),
{
    assert(tree(made).children =~= trees(children@));
}

/// The walk over the symbols of a file. The files looked into, the room and the replies used are
/// carried along.
fn walk_list(
    list: &Vec<OutlineSymbol>,
    owner: &str,
    depth: u32,
    visited: &mut Vec<String>,
    room: &mut usize,
    replies: &Vec<Reply>,
    used: &mut usize,
) -> (r: Stand)
    requires
        *old(used) <= replies@.len(),
        deep(old(visited)@).no_duplicates(),
    ensures
        match walk(
            trees(list@),
            owner@,
            depth as nat,
            deep(old(visited)@),
            *old(room) as nat,
            replies@,
            *old(used) as int,
        ) {
            Walked::Ask(q) => r matches Stand::Ask(a) && is_asked(a, q),
            Walked::Done { trees: t, visited: v, room: m, used: u, truncated: x } => {
                &&& r matches Stand::Done { symbols, truncated } && trees(symbols@) == t
                    && truncated == x
                &&& deep(final(visited)@) == v
                &&& *final(room) == m
                &&& *final(used) == u
            },
        },
    decreases replies@.len() - *old(used), list,
{
    let mut out: Vec<OutlineSymbol> = Vec::new();
    let mut cut = false;
    let mut i: usize = 0;
    let ghost all = trees(list@);
    let ghost whole = walk(
        all,
        owner@,
        depth as nat,
        deep(visited@),
        *room as nat,
        replies@,
        *used as int,
    );
    assert(all.subrange(0, all.len() as int) =~= all);
    assert(after(trees(out@), cut, whole) == whole) by {
        match whole {
            Walked::Ask(q) => {},
            Walked::Done { trees: t, .. } => {
                assert(trees(out@) + t =~= t);
            },
        }
    }
    while i < list.len()
        invariant
            i <= list.len(),
            all == trees(list@),
            *old(used) <= *used <= replies@.len(),
            deep(visited@).no_duplicates(),
            whole == goes_on(
                trees(out@),
                cut,
                all.subrange(i as int, all.len() as int),
                owner@,
                depth as nat,
                deep(visited@),
                *room as nat,
                replies@,
                *used as int,
            ),
            whole == walk(
                trees(list@),
                owner@,
                depth as nat,
                deep(old(visited)@),
                *old(room) as nat,
                replies@,
                *old(used) as int,
            ),
        decreases list.len() - i,
    {
        let s = &list[i];
        let ghost from = all.subrange(i as int, all.len() as int);
        let ghost rest = all.subrange(i + 1, all.len() as int);
        assert(from[0] == tree(*s));
        assert(from.subrange(1, from.len() as int) =~= rest);
        assert(tree(*s).children =~= trees(s.children@));
        let ghost out0 = trees(out@);
        let ghost cut0 = cut;
        proof {
            walk_laws(
                trees(s.children@),
                owner@,
                depth as nat,
                deep(visited@),
                *room as nat,
                replies@,
                *used as int,
            );
        }
        let mut children: Vec<OutlineSymbol> = Vec::new();
        let mut more = false;
        let looks = is_module(s.kind) && s.children.len() == 0 && depth > 0;
        if looks && *room > 0 {
            if *used >= replies.len() {
                return Stand::Ask(
                    Question::Where { owner: owner.to_owned(), at: s.selection_range.anchor },
                );
            }
            let at = *used;
            *used = *used + 1;
            match &replies[at] {
                Reply::Busy => {
                    let ghost begun = trees(out@);
                    while i < list.len()
                        invariant
                            i <= list.len(),
                            all == trees(list@),
                            trees(out@) + all.subrange(i as int, all.len() as int) == begun + from,
                        decreases list.len() - i,
                    {
                        let c = list[i].copy();
                        proof {
                            same_symbol_same_tree(list@[i as int], c);
                            let a = all.subrange(i as int, all.len() as int);
                            assert(a =~= seq![tree(c)] + all.subrange(i + 1, all.len() as int));
                            assert(trees(out@.push(c)) =~= trees(out@).push(tree(c)));
                            assert(trees(out@).push(tree(c)) + all.subrange(
                                i + 1,
                                all.len() as int,
                            ) =~= trees(out@) + a);
                        }
                        out.push(c);
                        i = i + 1;
                    }
                    assert(trees(out@) =~= begun + from);
                    return Stand::Done { symbols: out, truncated: cut };
                },
                Reply::Place(p) => {
                    if !same(p.as_str(), owner) && !lists(visited, p.as_str()) {
                        if *used >= replies.len() {
                            return Stand::Ask(Question::Inside { path: p.clone() });
                        }
                        let ghost seen = deep(visited@);
                        visited.push(p.clone());
                        assert(deep(visited@) =~= seen.push(p@));
                        let next = *used;
                        *used = *used + 1;
                        match &replies[next] {
                            Reply::Outline(Some(inside)) => {
                                if *room - 1 < inside.len() {
                                    more = true;
                                } else {
                                    *room = *room - 1 - inside.len();
                                    proof {
                                        walk_laws(
                                            trees(inside@),
                                            p@,
                                            (depth - 1) as nat,
                                            deep(visited@),
                                            *room as nat,
                                            replies@,
                                            *used as int,
                                        );
                                    }
                                    match walk_list(
                                        inside,
                                        p.as_str(),
                                        depth - 1,
                                        visited,
                                        room,
                                        replies,
                                        used,
                                    ) {
                                        Stand::Ask(q) => {
                                            return Stand::Ask(q);
                                        },
                                        Stand::Done { symbols, truncated } => {
                                            children = symbols;
                                            more = truncated;
                                        },
                                    }
                                }
                            },
                            _ => {},
                        }
                    }
                },
                _ => {},
            }
        } else {
            match walk_list(&s.children, owner, depth, visited, room, replies, used) {
                Stand::Ask(q) => {
                    return Stand::Ask(q);
                },
                Stand::Done { symbols, truncated } => {
                    children = symbols;
                    more = truncated || looks;
                },
            }
        }
        let made = OutlineSymbol {
            name: s.name.clone(),
            kind: s.kind,
            range: s.range,
            selection_range: s.selection_range,
            children,
        };
        proof {
            one_tree(*s, made.children, made);
            if s.children@.len() == 0 && made.children@.len() == 0 {
                assert(trees(made.children@) =~= tree(*s).children);
            }
            assert(trees(out@.push(made)) =~= out0 + seq![tree(made)]);
            after_after(
                out0,
                cut0,
                seq![tree(made)],
                more,
                walk(
                    rest,
                    owner@,
                    depth as nat,
                    deep(visited@),
                    *room as nat,
                    replies@,
                    *used as int,
                ),
            );
        }
        out.push(made);
        cut = cut || more;
        i = i + 1;
    }
    assert(all.subrange(i as int, all.len() as int) =~= Seq::<SymbolTree>::empty());
    assert(trees(out@) + Seq::<SymbolTree>::empty() =~= trees(out@));
    Stand::Done { symbols: out, truncated: cut }
}

/// Whether a symbol is a module.
fn is_module(k: SymbolKind) -> (r: bool)
    ensures
        r == (k == SymbolKind::Module),
{
    match k {
        SymbolKind::Module => true,
        _ => false,
    }
}

/// The walk over a file's outline, with the replies so far: the next question, or the trees with
/// the modules filled in.
pub fn expand_outline_modules(
    path: &str,
    symbols: &Vec<OutlineSymbol>,
    depth: u32,
    replies: &Vec<Reply>,
) -> (r: Stand)
    ensures
        match walk(
            trees(symbols@),
            path@,
            depth as nat,
            seq![path@],
            MAX_RECURSIVE_OUTLINE_SYMBOLS as nat,
            replies@,
            0,
        ) {
            Walked::Ask(q) => r matches Stand::Ask(a) && is_asked(a, q),
            Walked::Done { trees: t, truncated: x, .. } => r matches Stand::Done {
                symbols: s,
                truncated,
            } && trees(s@) == t && truncated == x,
        },
{
    let mut visited: Vec<String> = Vec::new();
    visited.push(path.to_owned());
    assert(deep(visited@) =~= seq![path@]);
    let mut room: usize = MAX_RECURSIVE_OUTLINE_SYMBOLS;
    let mut used: usize = 0;
    walk_list(symbols, path, depth, &mut visited, &mut room, replies, &mut used)
}

} // verus!
