//! Natural ordering of file names: digit runs compare by value, so that
//! `clip2` sorts before `clip10`. The comparison itself is `natord`'s; the
//! sort built on it is verified here.

use crate::text::texts;
use std::cmp::Ordering;
use vstd::prelude::*;

verus! {

/// What `natord::compare` answers for two texts: -1 where the left one
/// sorts first (`Less`), 0 where neither does (`Equal`), 1 where the right
/// one sorts first (`Greater`). The name stands for that answer; how natord
/// compares is not written out here.
pub uninterp spec fn natural_order(left: Seq<char>, right: Seq<char>) -> int;

/// Calls `natord::compare` and hands its answer back as -1, 0 or 1. Taken
/// on trust, not proved here: the answer depends on the two texts alone.
#[verifier::external_body]
fn compare_natural(left: &str, right: &str) -> (order: i8)
    ensures
        order == natural_order(left@, right@),
{
    match natord::compare(left, right) {
        Ordering::Less => -1,
        Ordering::Equal => 0,
        Ordering::Greater => 1,
    }
}

/// Whether `left` sorts strictly before `right` in natural order.
pub open spec fn sorts_before(left: Seq<char>, right: Seq<char>) -> bool {
    natural_order(left, right) < 0
}

/// Where `item` goes in an already sorted sequence: behind the last element
/// that it does not sort strictly before. Equal items keep their order.
pub open spec fn insertion_point(sorted: Seq<Seq<char>>, item: Seq<char>) -> nat
    decreases sorted.len(),
{
    if sorted.len() > 0 && sorts_before(item, sorted.last()) {
        insertion_point(sorted.drop_last(), item)
    } else {
        sorted.len()
    }
}

/// The names in natural order: each name in turn is placed at its
/// insertion point among the names before it.
pub open spec fn natural_sorted(names: Seq<Seq<char>>) -> Seq<Seq<char>>
    decreases names.len(),
{
    if names.len() == 0 {
        Seq::empty()
    } else {
        let head = natural_sorted(names.drop_last());
        head.insert(insertion_point(head, names.last()) as int, names.last())
    }
}

/// The insertion point lies within the sequence; the element before it does
/// not sort after the item, and every element behind it does.
pub proof fn lemma_insertion_point(sorted: Seq<Seq<char>>, item: Seq<char>)
    ensures
        insertion_point(sorted, item) <= sorted.len(),
        insertion_point(sorted, item) > 0 ==> !sorts_before(
            item,
            sorted[insertion_point(sorted, item) - 1],
        ),
        forall|k: int|
            insertion_point(sorted, item) <= k < sorted.len() ==> sorts_before(
                item,
                #[trigger] sorted[k],
            ),
    decreases sorted.len(),
{
    if sorted.len() > 0 && sorts_before(item, sorted.last()) {
        let front = sorted.drop_last();
        lemma_insertion_point(front, item);
        assert forall|k: int| insertion_point(sorted, item) <= k < sorted.len() implies sorts_before(
            item,
            #[trigger] sorted[k],
        ) by {
            if k < front.len() {
                assert(sorted[k] == front[k]);
            }
        }
    }
}

/// Sorting neither loses nor invents a name: the sorted sequence holds each
/// name as often as the input does.
pub proof fn lemma_natural_sorted_permutes(names: Seq<Seq<char>>)
    ensures
        natural_sorted(names).len() == names.len(),
        natural_sorted(names).to_multiset() == names.to_multiset(),
    decreases names.len(),
{
    broadcast use vstd::seq_lib::group_to_multiset_ensures;

    if names.len() == 0 {
        assert(natural_sorted(names) =~= names);
    } else {
        let front = names.drop_last();
        let head = natural_sorted(front);
        lemma_natural_sorted_permutes(front);
        lemma_insertion_point(head, names.last());
        let p = insertion_point(head, names.last()) as int;
        head.to_multiset_ensures();
        front.to_multiset_ensures();
        assert(names =~= front.push(names.last()));
        assert(head.insert(p, names.last()).to_multiset() =~= head.to_multiset().insert(
            names.last(),
        ));
    }
}

/// Whether the natural order is consistent on the given names: of two
/// names at most one sorts before the other, and a name that does not sort
/// after a second one, which does not sort after a third one, does not
/// sort after the third one.
pub open spec fn is_consistent_on(names: Seq<Seq<char>>) -> bool {
    &&& forall|i: int, j: int|
        0 <= i < names.len() && 0 <= j < names.len() && #[trigger] sorts_before(names[i], names[j])
            ==> !sorts_before(names[j], names[i])
    &&& forall|i: int, j: int, k: int|
        0 <= i < names.len() && 0 <= j < names.len() && 0 <= k < names.len() && !(
        #[trigger] sorts_before(names[j], names[i])) && !(#[trigger] sorts_before(
            names[k],
            names[j],
        )) ==> !sorts_before(names[k], names[i])
}

/// No name of a sequence sorts before a name in front of it.
pub open spec fn is_in_natural_order(names: Seq<Seq<char>>) -> bool {
    forall|i: int, j: int| 0 <= i < j < names.len() ==> !sorts_before(names[j], names[i])
}

/// Every name of the sorted sequence is one of the names given.
proof fn lemma_sorted_names_are_given(names: Seq<Seq<char>>, i: int)
    requires
        0 <= i < natural_sorted(names).len(),
    ensures
        exists|k: int| 0 <= k < names.len() && names[k] == natural_sorted(names)[i],
    decreases names.len(),
{
    if names.len() > 0 {
        let front = names.drop_last();
        let head = natural_sorted(front);
        lemma_insertion_point(head, names.last());
        let p = insertion_point(head, names.last()) as int;
        if i == p {
            assert(names[names.len() - 1] == natural_sorted(names)[i]);
        } else {
            let before = if i < p {
                i
            } else {
                i - 1
            };
            assert(natural_sorted(names)[i] == head[before]);
            lemma_sorted_names_are_given(front, before);
            let k = choose|k: int| 0 <= k < front.len() && front[k] == head[before];
            assert(names[k] == natural_sorted(names)[i]);
        }
    }
}

/// Where the natural order is consistent on the names given, the sorted
/// sequence is in natural order.
pub proof fn lemma_natural_sorted_is_in_order(names: Seq<Seq<char>>)
    requires
        is_consistent_on(names),
    ensures
        is_in_natural_order(natural_sorted(names)),
    decreases names.len(),
{
    if names.len() > 0 {
        let front = names.drop_last();
        let head = natural_sorted(front);
        let item = names.last();
        let last = names.len() - 1;
        assert forall|i: int, j: int|
            0 <= i < front.len() && 0 <= j < front.len() && #[trigger] sorts_before(
                front[i],
                front[j],
            ) implies !sorts_before(front[j], front[i]) by {
            assert(sorts_before(names[i], names[j]));
        }
        assert forall|i: int, j: int, k: int|
            0 <= i < front.len() && 0 <= j < front.len() && 0 <= k < front.len() && !(
            #[trigger] sorts_before(front[j], front[i])) && !(#[trigger] sorts_before(
                front[k],
                front[j],
            )) implies !sorts_before(front[k], front[i]) by {
            assert(!sorts_before(names[j], names[i]));
            assert(!sorts_before(names[k], names[j]));
        }
        lemma_natural_sorted_is_in_order(front);
        lemma_insertion_point(head, item);
        let p = insertion_point(head, item) as int;
        let sorted = natural_sorted(names);
        assert forall|i: int, j: int| 0 <= i < j < sorted.len() implies !sorts_before(
            sorted[j],
            sorted[i],
        ) by {
            if j == p {
                // what stands in front of the item does not sort after it
                lemma_sorted_names_are_given(front, i);
                let a = choose|k: int| 0 <= k < front.len() && front[k] == head[i];
                if i < p - 1 {
                    lemma_sorted_names_are_given(front, p - 1);
                    let b = choose|k: int| 0 <= k < front.len() && front[k] == head[p - 1];
                    assert(!sorts_before(head[p - 1], head[i]));
                    assert(!sorts_before(names[b], names[a]));
                    assert(!sorts_before(names[last], names[b]));
                }
            } else if i == p {
                // the item sorts before what stands behind it
                lemma_sorted_names_are_given(front, j - 1);
                let b = choose|k: int| 0 <= k < front.len() && front[k] == head[j - 1];
                assert(sorts_before(names[last], names[b]));
            } else {
                let a = if i < p {
                    i
                } else {
                    i - 1
                };
                let b = if j < p {
                    j
                } else {
                    j - 1
                };
                assert(sorted[i] == head[a]);
                assert(sorted[j] == head[b]);
            }
        }
    }
}

/// Sorts names in natural order. Names that compare equal stay in the order
/// in which they were given.
pub fn sort_natural(names: &Vec<String>) -> (sorted: Vec<String>)
    ensures
        texts(sorted@) == natural_sorted(texts(names@)),
        sorted.len() == names.len(),
{
    let mut sorted: Vec<String> = Vec::new();
    let mut i: usize = 0;
    assert(texts(names@).take(0) =~= Seq::<Seq<char>>::empty());
    assert(texts(sorted@) =~= Seq::<Seq<char>>::empty());
    while i < names.len()
        invariant
            i <= names.len(),
            sorted.len() == i,
            texts(sorted@) == natural_sorted(texts(names@).take(i as int)),
        decreases names.len() - i,
    {
        let item = names[i].clone();
        let ghost head = texts(sorted@);
        let mut p: usize = sorted.len();
        assert(head.take(p as int) =~= head);
        while p > 0 && compare_natural(item.as_str(), sorted[p - 1].as_str()) < 0
            invariant
                p <= sorted.len(),
                head == texts(sorted@),
                insertion_point(head, item@) == insertion_point(head.take(p as int), item@),
            decreases p,
        {
            assert(head.take(p as int).drop_last() =~= head.take(p - 1));
            p -= 1;
        }
        proof {
            let prefix = texts(names@).take(i + 1);
            assert(prefix.drop_last() =~= texts(names@).take(i as int));
            assert(prefix.last() == item@);
            assert(texts(sorted@.insert(p as int, item)) =~= head.insert(p as int, item@));
        }
        sorted.insert(p, item);
        i += 1;
    }
    assert(texts(names@).take(names.len() as int) =~= texts(names@));
    sorted
}

} // verus!
