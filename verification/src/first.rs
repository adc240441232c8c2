//! The least index at which a property holds.

use vstd::prelude::*;

verus! {

/// Whether `i` is the least index below `len` at which `p` holds.
pub open spec fn is_first_where(len: int, p: spec_fn(int) -> bool, i: int) -> bool {
    &&& 0 <= i < len
    &&& p(i)
    &&& forall|j: int| 0 <= j < i ==> !#[trigger] p(j)
}

/// The least index below `len` at which `p` holds, if there is any.
pub open spec fn first_where(len: int, p: spec_fn(int) -> bool) -> Option<int> {
    if exists|i: int| 0 <= i < len && #[trigger] p(i) {
        Some(choose|i: int| #[trigger] is_first_where(len, p, i))
    } else {
        None
    }
}

/// Below any index at which `p` holds there is a least one.
proof fn lemma_least_exists(len: int, p: spec_fn(int) -> bool, i: int)
    requires
        0 <= i < len,
        p(i),
    ensures
        exists|k: int| #[trigger] is_first_where(len, p, k),
    decreases i,
{
    if exists|j: int| 0 <= j < i && #[trigger] p(j) {
        let j = choose|j: int| 0 <= j < i && #[trigger] p(j);
        lemma_least_exists(len, p, j);
    } else {
        assert(is_first_where(len, p, i));
    }
}

/// `first_where` is `None` exactly if `p` holds nowhere below `len`, and
/// else the least index at which it holds.
pub proof fn lemma_first_where(len: int, p: spec_fn(int) -> bool)
    ensures
        first_where(len, p) is None <==> forall|j: int| 0 <= j < len ==> !#[trigger] p(j),
        first_where(len, p) matches Some(i) ==> is_first_where(len, p, i),
{
    if exists|i: int| 0 <= i < len && #[trigger] p(i) {
        let i = choose|i: int| 0 <= i < len && #[trigger] p(i);
        lemma_least_exists(len, p, i);
    }
}

/// The least index at which `p` holds is what `first_where` gives.
pub proof fn lemma_first_where_is(len: int, p: spec_fn(int) -> bool, i: int)
    requires
        is_first_where(len, p, i),
    ensures
        first_where(len, p) == Some(i),
{
    lemma_first_where(len, p);
    let k = first_where(len, p)->0;
    assert(is_first_where(len, p, k));
    if k < i {
        assert(!p(k));
    }
    if i < k {
        assert(!p(i));
    }
}

} // verus!
