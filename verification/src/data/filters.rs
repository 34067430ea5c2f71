//! What filtering a sequence keeps: lemmas on `Seq::filter` that the store
//! and the laws about it rest on.

use vstd::prelude::*;

verus! {

/// `at` lists, in increasing order, exactly the positions of `rows` whose
/// elements pass `keep`; the element at `at[i]` is the `i`-th that the filter
/// keeps.
pub open spec fn selects<A>(rows: Seq<A>, keep: spec_fn(A) -> bool, at: Seq<int>) -> bool {
    &&& at.len() == rows.filter(keep).len()
    &&& forall|i: int|
        0 <= i < at.len() ==> 0 <= #[trigger] at[i] < rows.len() && keep(rows[at[i]])
            && rows.filter(keep)[i] == rows[at[i]]
    &&& forall|i: int, j: int| 0 <= i < j < at.len() ==> #[trigger] at[i] < #[trigger] at[j]
    &&& forall|p: int| 0 <= p < rows.len() && keep(#[trigger] rows[p]) ==> at.contains(p)
}

/// A filter keeps the elements that pass, all of them, in their order.
pub proof fn lemma_filter_selects<A>(rows: Seq<A>, keep: spec_fn(A) -> bool) -> (at: Seq<int>)
    ensures
        selects(rows, keep, at),
    decreases rows.len(),
{
    reveal(Seq::filter);
    if rows.len() == 0 {
        Seq::<int>::empty()
    } else {
        let front = rows.drop_last();
        let last = rows.len() - 1;
        let before = lemma_filter_selects(front, keep);
        if keep(rows.last()) {
            let at = before.push(last);
            assert forall|p: int| 0 <= p < rows.len() && keep(#[trigger] rows[p]) implies at.contains(
                p,
            ) by {
                if p < last {
                    assert(keep(front[p]));
                    let i = choose|i: int| 0 <= i < before.len() && before[i] == p;
                    assert(at[i] == p);
                } else {
                    assert(at[before.len() as int] == p);
                }
            }
            at
        } else {
            assert forall|p: int| 0 <= p < rows.len() && keep(#[trigger] rows[p]) implies before.contains(
                p,
            ) by {
                assert(keep(front[p]));
            }
            before
        }
    }
}

/// A filter that every element passes changes nothing.
pub proof fn lemma_filter_keeps_all<A>(rows: Seq<A>, keep: spec_fn(A) -> bool)
    requires
        forall|i: int| 0 <= i < rows.len() ==> keep(#[trigger] rows[i]),
    ensures
        rows.filter(keep) == rows,
    decreases rows.len(),
{
    reveal(Seq::filter);
    if rows.len() > 0 {
        lemma_filter_keeps_all(rows.drop_last(), keep);
        assert(rows.drop_last().push(rows.last()) =~= rows);
    }
}

/// A filter that no element passes leaves nothing.
pub proof fn lemma_filter_drops_all<A>(rows: Seq<A>, keep: spec_fn(A) -> bool)
    requires
        forall|i: int| 0 <= i < rows.len() ==> !keep(#[trigger] rows[i]),
    ensures
        rows.filter(keep) == Seq::<A>::empty(),
    decreases rows.len(),
{
    reveal(Seq::filter);
    if rows.len() > 0 {
        lemma_filter_drops_all(rows.drop_last(), keep);
    }
}

/// Two filters in a row are one filter by both conditions.
pub proof fn lemma_filter_twice<A>(
    rows: Seq<A>,
    first: spec_fn(A) -> bool,
    second: spec_fn(A) -> bool,
    both: spec_fn(A) -> bool,
)
    requires
        forall|row: A| #[trigger] both(row) == (first(row) && second(row)),
    ensures
        rows.filter(first).filter(second) == rows.filter(both),
    decreases rows.len(),
{
    reveal(Seq::filter);
    if rows.len() > 0 {
        let front = rows.drop_last();
        lemma_filter_twice(front, first, second, both);
        if first(rows.last()) {
            front.filter(first).lemma_filter_push(rows.last(), second);
        }
    }
}

} // verus!
