//! Sets of numbers as ascending lists.
use vstd::prelude::*;

verus! {

/// Whether the numbers rise from one to the next.
pub open spec fn ascending(list: Seq<usize>) -> bool {
    forall|i: int, j: int| 0 <= i < j < list.len() ==> list[i] < list[j]
}

/// Whether `list` holds each number of the set once, in ascending order.
pub open spec fn is_listing(list: Seq<usize>, set: Set<usize>) -> bool {
    ascending(list) && list.to_set() == set
}

/// The numbers of the set in ascending order.
pub open spec fn listing(set: Set<usize>) -> Seq<usize> {
    choose|list: Seq<usize>| is_listing(list, set)
}

/// A set has only one ascending list.
pub proof fn law_listing_unique(first: Seq<usize>, second: Seq<usize>, set: Set<usize>)
    requires
        is_listing(first, set),
        is_listing(second, set),
    ensures
        first == second,
    decreases first.len(),
{
    if first.len() == 0 {
        if second.len() > 0 {
            assert(second.to_set().contains(second[0]));
            assert(first.to_set().contains(second[0]));
        }
        assert(first =~= second);
    } else {
        assert(first.to_set().contains(first.last()));
        assert(second.to_set().contains(first.last()));
        let j = choose|j: int| 0 <= j < second.len() && second[j] == first.last();
        assert(second.to_set().contains(second.last()));
        assert(first.to_set().contains(second.last()));
        let i = choose|i: int| 0 <= i < first.len() && first[i] == second.last();
        assert(first.last() == second.last());
        let rest = set.remove(first.last());
        lemma_listing_front(first, set);
        lemma_listing_front(second, set);
        law_listing_unique(first.drop_last(), second.drop_last(), rest);
        assert(first =~= first.drop_last().push(first.last()));
        assert(second =~= second.drop_last().push(second.last()));
    }
}

/// Without its last number, a list is that of the set without this number.
proof fn lemma_listing_front(list: Seq<usize>, set: Set<usize>)
    requires
        is_listing(list, set),
        list.len() > 0,
    ensures
        is_listing(list.drop_last(), set.remove(list.last())),
{
    let front = list.drop_last();
    let rest = set.remove(list.last());
    assert forall|x: usize| front.to_set().contains(x) implies rest.contains(x) by {
        let i = choose|i: int| 0 <= i < front.len() && front[i] == x;
        assert(list[i] == x);
        assert(list.to_set().contains(x));
    }
    assert forall|x: usize| rest.contains(x) implies front.to_set().contains(x) by {
        assert(list.to_set().contains(x));
        let i = choose|i: int| 0 <= i < list.len() && list[i] == x;
        assert(front[i] == x);
    }
    assert(front.to_set() =~= rest);
}

/// An ascending list of the set is the list of the set.
pub proof fn law_listing(list: Seq<usize>, set: Set<usize>)
    requires
        is_listing(list, set),
    ensures
        listing(set) == list,
{
    law_listing_unique(listing(set), list, set);
}

/// Every set has an ascending list, so `listing` is one.
pub proof fn law_listing_exists(set: Set<usize>)
    ensures
        is_listing(listing(set), set),
{
    let list = lemma_listing_below(set, usize::MAX as nat + 1);
    assert(below(set, usize::MAX as nat + 1) =~= set);
    assert(is_listing(list, set));
}

/// The numbers of the set that are less than `bound`.
spec fn below(set: Set<usize>, bound: nat) -> Set<usize> {
    set.filter(|x: usize| x < bound)
}

/// The ascending list of the numbers that are less than `bound`.
proof fn lemma_listing_below(set: Set<usize>, bound: nat) -> (list: Seq<usize>)
    requires
        bound <= usize::MAX + 1,
    ensures
        is_listing(list, below(set, bound)),
    decreases bound,
{
    if bound == 0 {
        assert(Seq::<usize>::empty().to_set() =~= below(set, 0));
        Seq::<usize>::empty()
    } else {
        let rest = lemma_listing_below(set, (bound - 1) as nat);
        let top = (bound - 1) as usize;
        assert forall|i: int| 0 <= i < rest.len() implies rest[i] < top by {
            assert(rest.to_set().contains(rest[i]));
        }
        if set.contains(top) {
            let list = rest.push(top);
            assert forall|x: usize| below(set, bound).contains(x) implies list.to_set().contains(
                x,
            ) by {
                if x == top {
                    assert(list[rest.len() as int] == x);
                } else {
                    assert(rest.to_set().contains(x));
                    let i = choose|i: int| 0 <= i < rest.len() && rest[i] == x;
                    assert(list[i] == x);
                }
            }
            assert forall|x: usize| list.to_set().contains(x) implies below(set, bound).contains(
                x,
            ) by {
                let i = choose|i: int| 0 <= i < list.len() && list[i] == x;
                if i < rest.len() {
                    assert(rest.to_set().contains(rest[i]));
                }
            }
            assert(list.to_set() =~= below(set, bound));
            list
        } else {
            assert(below(set, bound) =~= below(set, (bound - 1) as nat));
            rest
        }
    }
}

/// A list belongs to a set when each number is less than those behind it, and the numbers of the
/// list are those of the set.
pub proof fn law_listing_meaning(list: Seq<usize>, set: Set<usize>)
    ensures
        ascending(list) <==> forall|i: int, j: int| 0 <= i < j < list.len() ==> list[i] < list[j],
        is_listing(list, set) <==> {
            &&& forall|i: int, j: int| 0 <= i < j < list.len() ==> list[i] < list[j]
            &&& forall|x: usize| #[trigger]
                set.contains(x) <==> exists|i: int| 0 <= i < list.len() && list[i] == x
        },
{
    if forall|x: usize| #[trigger]
        set.contains(x) <==> exists|i: int| 0 <= i < list.len() && list[i] == x {
        assert forall|x: usize| list.to_set().contains(x) <==> set.contains(x) by {
            assert(list.contains(x) <==> set.contains(x));
        }
        assert(list.to_set() =~= set);
    }
    if is_listing(list, set) {
        assert forall|x: usize| #[trigger]
            set.contains(x) <==> exists|i: int| 0 <= i < list.len() && list[i] == x by {
            assert(list.to_set().contains(x) <==> list.contains(x));
        }
    }
}

} // verus!
