//! Lists that are gone through or split in order.
use vstd::prelude::*;

verus! {

/// The elements of `s` that are marked, in order.
pub open spec fn picked<T>(s: Seq<T>, marks: Seq<bool>) -> Seq<T>
    decreases s.len(),
{
    if s.len() == 0 {
        seq![]
    } else {
        let before = picked(s.drop_last(), marks.drop_last());
        if marks.last() {
            before.push(s.last())
        } else {
            before
        }
    }
}

/// The marks turned round.
pub open spec fn turned(marks: Seq<bool>) -> Seq<bool> {
    marks.map_values(|m: bool| !m)
}

/// Picking by marks that say what `keep` says of each element's value keeps the values that `keep`
/// accepts.
pub proof fn picked_values<T, U>(
    s: Seq<T>,
    marks: Seq<bool>,
    value: spec_fn(T) -> U,
    keep: spec_fn(U) -> bool,
)
    requires
        marks.len() == s.len(),
        forall|i: int| 0 <= i < s.len() ==> #[trigger] marks[i] == keep(value(s[i])),
    ensures
        picked(s, marks).map_values(value) == s.map_values(value).filter(keep),
    decreases s.len(),
{
    reveal(Seq::filter);
    let all = s.map_values(value);
    if s.len() == 0 {
        assert(picked(s, marks).map_values(value) =~= all.filter(keep));
    } else {
        let t = s.drop_last();
        let before = picked(t, marks.drop_last());
        assert forall|i: int| 0 <= i < t.len() implies #[trigger] marks.drop_last()[i] == keep(
            value(t[i]),
        ) by {
            assert(marks.drop_last()[i] == marks[i]);
        }
        picked_values(t, marks.drop_last(), value, keep);
        assert(all.drop_last() =~= t.map_values(value));
        assert(all.last() == value(s.last()));
        assert(marks.last() == marks[s.len() - 1]);
        assert(before.push(s.last()).map_values(value) =~= before.map_values(value).push(
            value(s.last()),
        ));
    }
}

/// Picking by marks that say what `keep` says of each element keeps the elements that `keep`
/// accepts.
pub proof fn picked_is_filter<T>(s: Seq<T>, marks: Seq<bool>, keep: spec_fn(T) -> bool)
    requires
        marks.len() == s.len(),
        forall|i: int| 0 <= i < s.len() ==> #[trigger] marks[i] == keep(s[i]),
    ensures
        picked(s, marks) == s.filter(keep),
{
    let same = |x: T| x;
    picked_values(s, marks, same, keep);
    assert(picked(s, marks).map_values(same) =~= picked(s, marks));
    assert(s.map_values(same) =~= s);
}

/// The list from the back to the front, to be taken off in order.
pub fn reversed<T>(v: Vec<T>) -> (r: Vec<T>)
    ensures
        r@ == v@.reverse(),
{
    let ghost all = v@;
    let mut rest = v;
    let mut out: Vec<T> = Vec::new();
    while rest.len() > 0
        invariant
            rest@.len() <= all.len(),
            rest@ == all.take(rest@.len() as int),
            out@.len() == all.len() - rest@.len(),
            forall|j: int| 0 <= j < out@.len() ==> out@[j] == all[all.len() - 1 - j],
        decreases rest@.len(),
    {
        match rest.pop() {
            Some(x) => {
                out.push(x);
            },
            None => {},
        }
    }
    assert(out@ =~= all.reverse());
    out
}

/// Keeps the marked elements of a list and gives the others back, both in order.
pub fn split_marked<T>(v: &mut Vec<T>, marks: &Vec<bool>) -> (gone: Vec<T>)
    requires
        marks@.len() == old(v)@.len(),
    ensures
        final(v)@ == picked(old(v)@, marks@),
        gone@ == picked(old(v)@, turned(marks@)),
{
    let ghost all = v@;
    let ghost others = turned(marks@);
    let mut whole: Vec<T> = Vec::new();
    std::mem::swap(v, &mut whole);
    let mut rest = reversed(whole);
    let mut gone: Vec<T> = Vec::new();
    let mut i: usize = 0;
    while i < marks.len()
        invariant
            i <= marks@.len(),
            marks@.len() == all.len(),
            others == turned(marks@),
            rest@.len() == all.len() - i,
            forall|j: int| 0 <= j < rest@.len() ==> rest@[j] == all[all.len() - 1 - j],
            v@ == picked(all.take(i as int), marks@.take(i as int)),
            gone@ == picked(all.take(i as int), others.take(i as int)),
        decreases marks@.len() - i,
    {
        assert(all.take(i + 1).drop_last() =~= all.take(i as int));
        assert(marks@.take(i + 1).drop_last() =~= marks@.take(i as int));
        assert(others.take(i + 1).drop_last() =~= others.take(i as int));
        match rest.pop() {
            Some(x) => {
                if marks[i] {
                    v.push(x);
                } else {
                    gone.push(x);
                }
            },
            None => {},
        }
        i = i + 1;
    }
    assert(all.take(i as int) =~= all);
    assert(marks@.take(i as int) =~= marks@);
    assert(others.take(i as int) =~= others);
    gone
}

} // verus!
