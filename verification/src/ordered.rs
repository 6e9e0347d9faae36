//! Lists that are sorted by a number that no two of their items share.
use vstd::prelude::*;

verus! {

/// Whether a list is sorted by a number, and no two items have the same.
pub open spec fn ascending_by<A>(list: Seq<A>, number: spec_fn(A) -> int) -> bool {
    forall|i: int, j: int|
        0 <= i < j < list.len() ==> number(#[trigger] list[i]) < number(#[trigger] list[j])
}

/// Whether a list is sorted by a number the other way round, and no two items have the
/// same.
pub open spec fn descending_by<A>(list: Seq<A>, number: spec_fn(A) -> int) -> bool {
    forall|i: int, j: int|
        0 <= i < j < list.len() ==> number(#[trigger] list[i]) > number(#[trigger] list[j])
}

/// Whether two lists hold the same items.
pub open spec fn same_items<A>(a: Seq<A>, b: Seq<A>) -> bool {
    forall|x: A| a.contains(x) <==> b.contains(x)
}

proof fn lemma_without_last<A>(list: Seq<A>, number: spec_fn(A) -> int, x: A)
    requires
        list.len() > 0,
        ascending_by(list, number),
    ensures
        list.drop_last().contains(x) <==> list.contains(x) && x != list.last(),
{
    let front = list.drop_last();
    if front.contains(x) {
        let i = choose|i: int| 0 <= i < front.len() && front[i] == x;
        assert(list[i] == x);
        assert(number(list[i]) < number(list[list.len() - 1]));
    }
    if list.contains(x) && x != list.last() {
        let i = choose|i: int| 0 <= i < list.len() && list[i] == x;
        assert(front[i] == x);
    }
}

/// There is one way to sort items by a number that no two of them share.
pub proof fn lemma_one_order<A>(a: Seq<A>, b: Seq<A>, number: spec_fn(A) -> int)
    requires
        ascending_by(a, number),
        ascending_by(b, number),
        same_items(a, b),
    ensures
        a == b,
    decreases a.len(),
{
    if a.len() == 0 {
        if b.len() > 0 {
            assert(b.contains(b[0]));
            assert(a.contains(b[0]));
        }
        assert(a =~= b);
    } else {
        assert(a.contains(a.last()));
        assert(b.contains(a.last()));
        assert(b.contains(b.last()));
        assert(a.contains(b.last()));
        let i = choose|i: int| 0 <= i < b.len() && b[i] == a.last();
        let j = choose|j: int| 0 <= j < a.len() && a[j] == b.last();
        if i < b.len() - 1 {
            assert(number(b[i]) < number(b[b.len() - 1]));
            if j < a.len() - 1 {
                assert(number(a[j]) < number(a[a.len() - 1]));
            }
        }
        assert(a.last() == b.last());
        let front = a.drop_last();
        let other = b.drop_last();
        assert forall|x: A| front.contains(x) <==> other.contains(x) by {
            lemma_without_last(a, number, x);
            lemma_without_last(b, number, x);
            assert(a.contains(x) <==> b.contains(x));
        }
        lemma_one_order(front, other, number);
        assert(a =~= front.push(a.last()));
        assert(b =~= other.push(b.last()));
    }
}

/// Items that are sorted the other way round are the sorted items from the last to the
/// first.
pub proof fn lemma_other_way_round<A>(a: Seq<A>, b: Seq<A>, number: spec_fn(A) -> int)
    requires
        ascending_by(a, number),
        descending_by(b, number),
        same_items(a, b),
    ensures
        b == a.reverse(),
{
    let back = b.reverse();
    assert forall|x: A| a.contains(x) <==> back.contains(x) by {
        assert(a.contains(x) <==> b.contains(x));
        if b.contains(x) {
            let i = choose|i: int| 0 <= i < b.len() && b[i] == x;
            assert(back[b.len() - 1 - i] == x);
        }
        if back.contains(x) {
            let i = choose|i: int| 0 <= i < back.len() && back[i] == x;
            assert(b[b.len() - 1 - i] == x);
        }
    }
    lemma_one_order(a, back, number);
    assert(b =~= a.reverse());
}

}
