//! Putting things in order without disturbing the ones that rank alike.

use vstd::prelude::*;

verus! {

/// Something that has a rank among its like. Two of them may share a rank.
pub trait Ranked: Sized {
    /// Whether this one ranks strictly before the other.
    spec fn ranks_before(&self, other: &Self) -> bool;

    /// Whether this one ranks strictly before the other.
    fn precedes(&self, other: &Self) -> (before: bool)
        ensures
            before == self.ranks_before(other),
    ;

    /// Ranks are ordered: never both ways, and whatever lies between two ranks is told apart from one
    /// of them.
    proof fn ranks_are_ordered(first: Self, second: Self, third: Self)
        ensures
            !(first.ranks_before(&second) && second.ranks_before(&first)),
            first.ranks_before(&second) && second.ranks_before(&third) ==> first.ranks_before(
                &third,
            ),
            first.ranks_before(&third) ==> first.ranks_before(&second) || second.ranks_before(
                &third,
            ),
    ;
}

/// Whether the item at one position belongs before the item at another: by rank, and by position
/// where they rank alike.
pub open spec fn belongs_before<K: Ranked>(keys: Seq<K>, left: int, right: int) -> bool {
    ||| keys[left].ranks_before(&keys[right])
    ||| !keys[right].ranks_before(&keys[left]) && left < right
}

/// Whether `order` names the first `count` positions, each once.
pub open spec fn is_arrangement(order: Seq<usize>, count: int) -> bool {
    &&& order.len() == count
    &&& forall|i: int| 0 <= i < order.len() ==> (#[trigger] order[i]) < count
    &&& forall|i: int, j: int| 0 <= i < j < order.len() ==> order[i] != order[j]
    &&& forall|k: usize| k < count ==> #[trigger] order.contains(k)
}

/// Whether `order` lists the positions of `keys` by rank, those of one rank as they stand.
pub open spec fn is_stable_order<K: Ranked>(keys: Seq<K>, order: Seq<usize>) -> bool {
    &&& is_arrangement(order, keys.len() as int)
    &&& forall|i: int, j: int|
        0 <= i < j < order.len() ==> belongs_before(
            keys,
            #[trigger] order[i] as int,
            #[trigger] order[j] as int,
        )
}

/// There is only one such order.
pub proof fn law_a_stable_order_is_the_only_one<K: Ranked>(
    keys: Seq<K>,
    one: Seq<usize>,
    other: Seq<usize>,
)
    requires
        is_stable_order(keys, one),
        is_stable_order(keys, other),
    ensures
        one == other,
{
    assert forall|i: int| 0 <= i < one.len() implies one[i] == other[i] by {
        lemma_same_at(keys, one, other, i);
    }
    assert(one =~= other);
}

proof fn lemma_same_at<K: Ranked>(keys: Seq<K>, one: Seq<usize>, other: Seq<usize>, at: int)
    requires
        is_stable_order(keys, one),
        is_stable_order(keys, other),
        0 <= at < one.len(),
    ensures
        one[at] == other[at],
    decreases at,
{
    assert forall|i: int| 0 <= i < at implies one[i] == other[i] by {
        lemma_same_at(keys, one, other, i);
    }
    let mine = one[at];
    let theirs = other[at];
    if mine != theirs {
        assert(other.contains(mine));
        let p = choose|p: int| 0 <= p < other.len() && other[p] == mine;
        assert(p > at) by {
            if p < at {
                assert(one[p] == other[p]);
            }
        }
        assert(one.contains(theirs));
        let q = choose|q: int| 0 <= q < one.len() && one[q] == theirs;
        assert(q > at) by {
            if q < at {
                assert(one[q] == other[q]);
            }
        }
        assert(belongs_before(keys, one[at] as int, one[q] as int));
        assert(belongs_before(keys, other[at] as int, other[p] as int));
        K::ranks_are_ordered(keys[mine as int], keys[theirs as int], keys[mine as int]);
    }
}

/// The positions of `keys` by rank, those of one rank as they stand.
pub fn stable_order<K: Ranked>(keys: &Vec<K>) -> (order: Vec<usize>)
    ensures
        is_stable_order(keys@, order@),
{
    let mut order: Vec<usize> = Vec::new();
    let mut next: usize = 0;
    while next < keys.len()
        invariant
            next <= keys@.len(),
            is_arrangement(order@, next as int),
            forall|i: int, j: int|
                0 <= i < j < order@.len() ==> belongs_before(
                    keys@,
                    #[trigger] order@[i] as int,
                    #[trigger] order@[j] as int,
                ),
        decreases keys@.len() - next,
    {
        let mut place: usize = order.len();
        while place > 0 && keys[next].precedes(&keys[order[place - 1]])
            invariant
                next < keys@.len(),
                place <= order@.len(),
                is_arrangement(order@, next as int),
                forall|i: int|
                    place <= i < order@.len() ==> keys@[next as int].ranks_before(
                        &keys@[#[trigger] order@[i] as int],
                    ),
            decreases place,
        {
            place -= 1;
        }
        let ghost before = order@;
        order.insert(place, next);
        proof {
            lemma_inserted(keys@, before, place as int, next);
        }
        next += 1;
    }
    order
}

proof fn lemma_inserted<K: Ranked>(keys: Seq<K>, order: Seq<usize>, place: int, next: usize)
    requires
        next < keys.len(),
        0 <= place <= order.len(),
        is_arrangement(order, next as int),
        forall|i: int, j: int|
            0 <= i < j < order.len() ==> belongs_before(
                keys,
                #[trigger] order[i] as int,
                #[trigger] order[j] as int,
            ),
        forall|i: int|
            place <= i < order.len() ==> keys[next as int].ranks_before(
                &keys[#[trigger] order[i] as int],
            ),
        place > 0 ==> !keys[next as int].ranks_before(&keys[order[place - 1] as int]),
    ensures
        is_arrangement(order.insert(place, next), next + 1),
        forall|i: int, j: int|
            0 <= i < j < order.insert(place, next).len() ==> belongs_before(
                keys,
                #[trigger] order.insert(place, next)[i] as int,
                #[trigger] order.insert(place, next)[j] as int,
            ),
{
    let after = order.insert(place, next);
    assert forall|k: usize| k < next + 1 implies #[trigger] after.contains(k) by {
        if k == next {
            assert(after[place] == k);
        } else {
            assert(order.contains(k));
            let i = choose|i: int| 0 <= i < order.len() && order[i] == k;
            if i < place {
                assert(after[i] == k);
            } else {
                assert(after[i + 1] == k);
            }
        }
    }
    assert forall|i: int| 0 <= i < place implies !keys[next as int].ranks_before(
        &keys[#[trigger] order[i] as int],
    ) by {
        if i < place - 1 {
            assert(belongs_before(keys, order[i] as int, order[place - 1] as int));
            K::ranks_are_ordered(
                keys[next as int],
                keys[order[i] as int],
                keys[order[place - 1] as int],
            );
            K::ranks_are_ordered(
                keys[next as int],
                keys[order[place - 1] as int],
                keys[order[i] as int],
            );
        }
    }
    assert forall|i: int, j: int| 0 <= i < j < after.len() implies belongs_before(
        keys,
        #[trigger] after[i] as int,
        #[trigger] after[j] as int,
    ) by {
        if j < place {
            assert(after[i] == order[i] && after[j] == order[j]);
        } else if j == place {
            assert(after[i] == order[i]);
        } else if i < place {
            assert(after[i] == order[i] && after[j] == order[j - 1]);
        } else if i == place {
            assert(after[j] == order[j - 1]);
        } else {
            assert(after[i] == order[i - 1] && after[j] == order[j - 1]);
        }
    }
}

/// The items at the positions that `order` names, in that order.
pub open spec fn arranged<T>(items: Seq<T>, order: Seq<usize>) -> Seq<T> {
    Seq::new(order.len(), |i: int| items[order[i] as int])
}

/// Moves the items to where `order` puts them.
pub fn arrange<T>(items: Vec<T>, order: &Vec<usize>) -> (placed: Vec<T>)
    requires
        is_arrangement(order@, items@.len() as int),
    ensures
        placed@ == arranged(items@, order@),
{
    let mut slots: Vec<Option<T>> = Vec::new();
    for item in walk: items
        invariant
            walk.seq() == items@,
            slots@.len() == walk.index(),
            forall|i: int| 0 <= i < slots@.len() ==> slots@[i] == Some(items@[i]),
    {
        slots.push(Some(item));
    }
    let mut placed: Vec<T> = Vec::new();
    let mut at: usize = 0;
    while at < order.len()
        invariant
            at <= order@.len(),
            slots@.len() == items@.len(),
            is_arrangement(order@, items@.len() as int),
            placed@ == arranged(items@, order@).take(at as int),
            forall|i: int|
                at <= i < order@.len() ==> slots@[#[trigger] order@[i] as int] == Some(
                    items@[order@[i] as int],
                ),
        decreases order@.len() - at,
    {
        let mut taken: Option<T> = None;
        let slot: &mut Option<T> = &mut slots[order[at]];
        std::mem::swap(slot, &mut taken);
        match taken {
            Some(item) => {
                placed.push(item);
            },
            None => {},
        }
        assert(placed@ =~= arranged(items@, order@).take(at + 1));
        at += 1;
    }
    placed
}

/// The first position whose item is wanted, if there is one.
pub open spec fn first_where<T>(items: Seq<T>, wanted: spec_fn(T) -> bool) -> Option<int>
    decreases items.len(),
{
    if items.len() == 0 {
        None
    } else {
        match first_where(items.drop_last(), wanted) {
            Some(found) => Some(found),
            None => if wanted(items.last()) {
                Some(items.len() - 1)
            } else {
                None
            },
        }
    }
}

/// What `first_where` finds is wanted and nothing before it is; what it does not find is not there.
pub proof fn lemma_first_where<T>(items: Seq<T>, wanted: spec_fn(T) -> bool)
    ensures
        match first_where(items, wanted) {
            Some(at) => {
                &&& 0 <= at < items.len()
                &&& wanted(items[at])
                &&& forall|i: int| 0 <= i < at ==> !wanted(#[trigger] items[i])
            },
            None => forall|i: int| 0 <= i < items.len() ==> !wanted(#[trigger] items[i]),
        },
    decreases items.len(),
{
    if items.len() > 0 {
        let before = items.drop_last();
        lemma_first_where(before, wanted);
        match first_where(before, wanted) {
            Some(at) => {
                assert forall|i: int| 0 <= i < at implies !wanted(#[trigger] items[i]) by {
                    assert(before[i] == items[i]);
                }
            },
            None => {
                assert forall|i: int| 0 <= i < items.len() - 1 implies !wanted(
                    #[trigger] items[i],
                ) by {
                    assert(before[i] == items[i]);
                }
            },
        }
    }
}

/// A wanted item that nothing wanted stands before is the one `first_where` finds.
pub proof fn lemma_is_first<T>(items: Seq<T>, wanted: spec_fn(T) -> bool, at: int)
    requires
        0 <= at < items.len(),
        wanted(items[at]),
        forall|i: int| 0 <= i < at ==> !wanted(#[trigger] items[i]),
    ensures
        first_where(items, wanted) == Some(at),
{
    lemma_first_where(items, wanted);
}

/// Where nothing is wanted, `first_where` finds nothing.
pub proof fn lemma_is_nowhere<T>(items: Seq<T>, wanted: spec_fn(T) -> bool)
    requires
        forall|i: int| 0 <= i < items.len() ==> !wanted(#[trigger] items[i]),
    ensures
        first_where(items, wanted) is None,
{
    lemma_first_where(items, wanted);
}

} // verus!
