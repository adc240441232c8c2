//! The order of texts, and how to bring names in order.

use crate::text::{lemma_precedes_is_total, precedes, str_precedes};
use vstd::prelude::*;
use vstd::utf8::encode_utf8;

verus! {

/// Whether the name `first` stands before the name `second` in the order
/// of texts, or is the same.
pub open spec fn comes_first(first: Seq<char>, second: Seq<char>) -> bool {
    precedes(encode_utf8(first), encode_utf8(second))
}

/// The order `order` of some of `names`, an order in which no name stands
/// before one that comes first, with the index `x` put in: after the last
/// index whose name comes first or is the same.
pub open spec fn inserted(names: Seq<Seq<char>>, order: Seq<usize>, x: usize) -> Seq<usize>
    decreases order.len(),
{
    if order.len() == 0 {
        seq![x]
    } else if comes_first(names[order.last() as int], names[x as int]) {
        order.push(x)
    } else {
        inserted(names, order.drop_last(), x).push(order.last())
    }
}

/// The indices of the first `n` of `names`, in the order of their names;
/// indices of the same name in rising order.
pub open spec fn ordered(names: Seq<Seq<char>>, n: nat) -> Seq<usize>
    decreases n,
{
    if n == 0 {
        Seq::empty()
    } else {
        inserted(names, ordered(names, (n - 1) as nat), (n - 1) as usize)
    }
}

/// `items` in the order of `names`, the name of each item; items of the
/// same name stay in their order.
pub open spec fn in_order<T>(items: Seq<T>, names: Seq<Seq<char>>) -> Seq<T> {
    Seq::new(items.len(), |k: int| items[ordered(names, items.len())[k] as int])
}

/// Whether no name stands before one that comes first in `order`.
pub open spec fn is_in_order(names: Seq<Seq<char>>, order: Seq<usize>) -> bool {
    forall|a: int, b: int|
        0 <= a < b < order.len() ==> comes_first(
            names[#[trigger] order[a] as int],
            names[#[trigger] order[b] as int],
        )
}

/// The order of texts is transitive.
pub proof fn lemma_precedes_is_transitive(a: Seq<u8>, b: Seq<u8>, c: Seq<u8>)
    requires
        precedes(a, b),
        precedes(b, c),
    ensures
        precedes(a, c),
    decreases a.len(),
{
    if a.len() > 0 && b.len() > 0 && c.len() > 0 && a[0] == b[0] && b[0] == c[0] {
        lemma_precedes_is_transitive(a.drop_first(), b.drop_first(), c.drop_first());
    }
}

/// Putting an index into an order keeps the order, and adds that index and
/// no other.
pub proof fn lemma_inserted(names: Seq<Seq<char>>, order: Seq<usize>, x: usize)
    requires
        is_in_order(names, order),
    ensures
        is_in_order(names, inserted(names, order, x)),
        inserted(names, order, x).len() == order.len() + 1,
        inserted(names, order, x).to_multiset() == order.to_multiset().insert(x),
    decreases order.len(),
{
    broadcast use vstd::seq_lib::group_to_multiset_ensures;

    let result = inserted(names, order, x);
    if order.len() == 0 {
        assert(order =~= Seq::empty());
        assert(result =~= Seq::<usize>::empty().push(x));
    } else if comes_first(names[order.last() as int], names[x as int]) {
        assert forall|a: int, b: int| 0 <= a < b < result.len() implies comes_first(
            names[#[trigger] result[a] as int],
            names[#[trigger] result[b] as int],
        ) by {
            if b == order.len() && a < order.len() - 1 {
                assert(comes_first(names[order[a] as int], names[order[order.len() - 1] as int]));
                lemma_precedes_is_transitive(
                    encode_utf8(names[order[a] as int]),
                    encode_utf8(names[order.last() as int]),
                    encode_utf8(names[x as int]),
                );
            }
        }
    } else {
        let front = order.drop_last();
        assert forall|a: int, b: int| 0 <= a < b < front.len() implies comes_first(
            names[#[trigger] front[a] as int],
            names[#[trigger] front[b] as int],
        ) by {
            assert(front[a] == order[a] && front[b] == order[b]);
        }
        lemma_inserted(names, front, x);
        let middle = inserted(names, front, x);
        lemma_precedes_is_total(
            encode_utf8(names[order.last() as int]),
            encode_utf8(names[x as int]),
        );
        assert forall|a: int, b: int| 0 <= a < b < result.len() implies comes_first(
            names[#[trigger] result[a] as int],
            names[#[trigger] result[b] as int],
        ) by {
            if b == middle.len() {
                // Every index of `middle` is `x` or one of `front`, and
                // both come before the last index of `order`.
                assert(middle.to_multiset().count(middle[a]) > 0);
                if middle[a] != x {
                    assert(front.to_multiset().count(middle[a]) > 0);
                    let k = choose|k: int| 0 <= k < front.len() && front[k] == middle[a];
                    assert(order[k] == front[k]);
                    assert(comes_first(
                        names[order[k] as int],
                        names[order[order.len() - 1] as int],
                    ));
                }
            } else {
                assert(result[a] == middle[a] && result[b] == middle[b]);
            }
        }
        assert(order =~= front.push(order.last()));
        assert(result.to_multiset() =~= order.to_multiset().insert(x));
    }
}

/// The order of the first `n` names is in order, and holds each of the
/// first `n` indices once.
pub proof fn lemma_ordered(names: Seq<Seq<char>>, n: nat)
    ensures
        is_in_order(names, ordered(names, n)),
        ordered(names, n).len() == n,
        ordered(names, n).to_multiset() == Seq::new(n, |i: int| i as usize).to_multiset(),
    decreases n,
{
    broadcast use vstd::seq_lib::group_to_multiset_ensures;

    if n == 0 {
        assert(ordered(names, n) =~= Seq::new(n, |i: int| i as usize));
    } else {
        lemma_ordered(names, (n - 1) as nat);
        lemma_inserted(names, ordered(names, (n - 1) as nat), (n - 1) as usize);
        let before = Seq::new((n - 1) as nat, |i: int| i as usize);
        assert(Seq::new(n, |i: int| i as usize) =~= before.push((n - 1) as usize));
    }
}

/// The indices of `names` in the order of their names, see [`ordered`].
pub fn order_of(names: &Vec<String>) -> (order: Vec<usize>)
    ensures
        order@ == ordered(names.deep_view(), names@.len() as nat),
        order@.len() == names@.len(),
        forall|k: int| 0 <= k < order@.len() ==> #[trigger] order@[k] < names@.len(),
{
    let ghost views = names.deep_view();
    let mut order: Vec<usize> = Vec::new();
    let mut x: usize = 0;
    proof {
        lemma_ordered(views, 0);
    }
    while x < names.len()
        invariant
            x <= names@.len(),
            views == names.deep_view(),
            order@ == ordered(views, x as nat),
            order@.len() == x,
            forall|k: int| 0 <= k < order@.len() ==> #[trigger] order@[k] < x,
        decreases names@.len() - x,
    {
        let ghost before = order@;
        let mut p: usize = order.len();
        assert(before.subrange(0, p as int) =~= before);
        assert(before.subrange(p as int, before.len() as int) =~= Seq::<usize>::empty());
        while p > 0 && !str_precedes(names[order[p - 1]].as_str(), names[x].as_str())
            invariant
                p <= order@.len(),
                x < names@.len(),
                order@ == before,
                views == names.deep_view(),
                forall|k: int| 0 <= k < before.len() ==> #[trigger] before[k] < x,
                inserted(views, before, x) == inserted(views, before.subrange(0, p as int), x)
                    + before.subrange(p as int, before.len() as int),
            decreases p,
        {
            proof {
                let front = before.subrange(0, p as int);
                assert(front.last() == before[p - 1]);
                assert(views[before[p - 1] as int] == names@[before[p - 1] as int]@);
                assert(views[x as int] == names@[x as int]@);
                assert(front.drop_last() =~= before.subrange(0, p - 1));
                assert(inserted(views, front, x) == inserted(views, front.drop_last(), x).push(
                    front.last(),
                ));
                assert(inserted(views, front.drop_last(), x).push(front.last())
                    + before.subrange(p as int, before.len() as int) =~= inserted(
                    views,
                    front.drop_last(),
                    x,
                ) + before.subrange(p - 1, before.len() as int));
            }
            p -= 1;
        }
        proof {
            let front = before.subrange(0, p as int);
            if p > 0 {
                assert(front.last() == before[p - 1]);
                assert(views[before[p - 1] as int] == names@[before[p - 1] as int]@);
                assert(views[x as int] == names@[x as int]@);
                assert(inserted(views, front, x) == front.push(x));
            } else {
                assert(front =~= Seq::<usize>::empty());
            }
            assert(front.push(x) + before.subrange(p as int, before.len() as int)
                =~= before.insert(p as int, x));
        }
        order.insert(p, x);
        proof {
            assert forall|k: int| 0 <= k < order@.len() implies #[trigger] order@[k] < x + 1 by {
                if k < p {
                    assert(order@[k] == before[k]);
                } else if k > p {
                    assert(order@[k] == before[k - 1]);
                }
            }
        }
        x += 1;
    }
    order
}

} // verus!
