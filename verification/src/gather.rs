//! Sequences that are put together piece by piece.

use vstd::prelude::*;

verus! {

/// The pieces `pieces(0)`, …, `pieces(n - 1)`, one after another.
pub open spec fn gather<T>(n: nat, pieces: spec_fn(int) -> Seq<T>) -> Seq<T>
    decreases n,
{
    if n == 0 {
        Seq::empty()
    } else {
        gather((n - 1) as nat, pieces) + pieces(n - 1)
    }
}

/// Pieces that are all empty give the empty sequence.
pub proof fn lemma_gather_nothing<T>(n: nat, pieces: spec_fn(int) -> Seq<T>)
    requires
        forall|i: int| 0 <= i < n ==> (#[trigger] pieces(i)).len() == 0,
    ensures
        gather(n, pieces) == Seq::<T>::empty(),
    decreases n,
{
    if n > 0 {
        lemma_gather_nothing((n - 1) as nat, pieces);
        assert(gather(n, pieces) =~= Seq::<T>::empty());
    }
}

} // verus!
