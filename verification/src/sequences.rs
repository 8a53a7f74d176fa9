//! Facts about sequences.
use vstd::prelude::*;

verus! {

/// Nothing maps to nothing.
pub proof fn lemma_flat_map_empty<A, B>(s: Seq<A>, f: spec_fn(A) -> Seq<B>)
    requires
        s.len() == 0,
    ensures
        s.flat_map(f) == Seq::<B>::empty(),
{
    assert(s.flat_map(f) =~= Seq::<B>::empty());
}

/// What the last item maps to comes last.
pub proof fn lemma_flat_map_last<A, B>(s: Seq<A>, f: spec_fn(A) -> Seq<B>)
    requires
        s.len() > 0,
    ensures
        s.flat_map(f) == s.drop_last().flat_map(f) + f(s.last()),
{
    assert(s =~= s.drop_last().push(s.last()));
    s.drop_last().lemma_flat_map_push(f, s.last());
}

} // verus!
