//! Facts about filtering sequences.
use vstd::prelude::*;

verus! {

/// Filtering one more element adds that element, or nothing.
pub proof fn lemma_filter_step<A>(source: Seq<A>, i: int, keep: spec_fn(A) -> bool)
    requires
        0 <= i < source.len(),
    ensures
        source.take(i + 1).filter(keep) == if keep(source[i]) {
            source.take(i).filter(keep).push(source[i])
        } else {
            source.take(i).filter(keep)
        },
{
    reveal(Seq::filter);
    assert(source.take(i + 1).drop_last() =~= source.take(i));
    assert(source.take(i + 1).last() == source[i]);
}

/// Nothing is left of a sequence whose elements are all filtered out.
pub proof fn lemma_filter_empty<A>(source: Seq<A>, keep: spec_fn(A) -> bool)
    requires
        forall|k: int| 0 <= k < source.len() ==> !keep(#[trigger] source[k]),
    ensures
        source.filter(keep) == Seq::<A>::empty(),
    decreases source.len(),
{
    reveal(Seq::filter);
    if source.len() > 0 {
        let rest = source.drop_last();
        assert(forall|k: int| 0 <= k < rest.len() ==> rest[k] == source[k]);
        lemma_filter_empty(rest, keep);
    }
}

/// A sequence of one element is kept or dropped as a whole.
pub proof fn lemma_filter_one<A>(x: A, keep: spec_fn(A) -> bool)
    ensures
        seq![x].filter(keep) == if keep(x) {
            seq![x]
        } else {
            Seq::empty()
        },
{
    reveal(Seq::filter);
    assert(seq![x].drop_last() =~= Seq::empty());
    assert(seq![x].drop_last().filter(keep) =~= Seq::empty());
    assert(seq![x].filter(keep) =~= if keep(x) {
        seq![x]
    } else {
        Seq::empty()
    });
}

} // verus!
