//! Facts about sequences that are built by `filter_map` and `flat_map`.
use vstd::prelude::*;

verus! {

/// What `filter_map` keeps: an item is in the result if and only if some input maps to it.
pub proof fn lemma_filter_map_contains<A, B>(items: Seq<A>, f: spec_fn(A) -> Option<B>, item: B)
    ensures
        items.filter_map(f).contains(item) <==> exists|i: int|
            0 <= i < items.len() && f(#[trigger] items[i]) == Some(item),
    decreases items.len(),
{
    if items.len() > 0 {
        let rest = items.drop_last();
        lemma_filter_map_contains(rest, f, item);
        let mapped = rest.filter_map(f);
        if f(items.last()) is Some {
            assert(items.filter_map(f) == mapped.push(f(items.last())->0));
            if mapped.contains(item) {
                let i = mapped.index_of(item);
                assert(items.filter_map(f)[i] == item);
            }
            if f(items.last()) == Some(item) {
                assert(items.filter_map(f).last() == item);
            }
        }
        if exists|i: int| 0 <= i < items.len() && f(#[trigger] items[i]) == Some(item) {
            let i = choose|i: int| 0 <= i < items.len() && f(#[trigger] items[i]) == Some(item);
            if i < rest.len() {
                assert(rest[i] == items[i]);
            }
        }
        if exists|i: int| 0 <= i < rest.len() && f(#[trigger] rest[i]) == Some(item) {
            let i = choose|i: int| 0 <= i < rest.len() && f(#[trigger] rest[i]) == Some(item);
            assert(items[i] == rest[i]);
        }
    }
}

/// What `flat_map` keeps: an item is in the result if and only if it is in the image of some input.
pub proof fn lemma_flat_map_contains<A, B>(items: Seq<A>, f: spec_fn(A) -> Seq<B>, item: B)
    ensures
        items.flat_map(f).contains(item) <==> exists|i: int|
            0 <= i < items.len() && f(#[trigger] items[i]).contains(item),
    decreases items.len(),
{
    if items.len() > 0 {
        let rest = items.drop_last();
        lemma_flat_map_contains(rest, f, item);
        rest.lemma_flat_map_push(f, items.last());
        assert(rest.push(items.last()) =~= items);
        let front = rest.flat_map(f);
        let back = f(items.last());
        assert(items.flat_map(f) == front + back);
        if front.contains(item) {
            assert((front + back)[front.index_of(item)] == item);
        }
        if back.contains(item) {
            assert((front + back)[front.len() + back.index_of(item)] == item);
        }
        if (front + back).contains(item) {
            let k = (front + back).index_of(item);
            if k < front.len() {
                assert(front[k] == item);
            } else {
                assert(back[k - front.len()] == item);
            }
        }
        if exists|i: int| 0 <= i < items.len() && f(#[trigger] items[i]).contains(item) {
            let i = choose|i: int| 0 <= i < items.len() && f(#[trigger] items[i]).contains(item);
            if i < rest.len() {
                assert(rest[i] == items[i]);
            }
        }
        if exists|i: int| 0 <= i < rest.len() && f(#[trigger] rest[i]).contains(item) {
            let i = choose|i: int| 0 <= i < rest.len() && f(#[trigger] rest[i]).contains(item);
            assert(items[i] == rest[i]);
        }
    }
}

/// No item comes out of `filter_map` twice where no two inputs map to the same item.
pub proof fn lemma_filter_map_no_duplicates<A, B>(items: Seq<A>, f: spec_fn(A) -> Option<B>)
    requires
        forall|i: int, j: int|
            0 <= i < j < items.len() && f(#[trigger] items[i]) is Some ==> f(items[i]) != f(
                #[trigger] items[j],
            ),
    ensures
        items.filter_map(f).no_duplicates(),
    decreases items.len(),
{
    if items.len() > 0 {
        let rest = items.drop_last();
        assert forall|i: int, j: int|
            0 <= i < j < rest.len() && f(#[trigger] rest[i]) is Some implies f(rest[i]) != f(
            #[trigger] rest[j],
        ) by {
            assert(f(items[i]) != f(items[j]));
        }
        lemma_filter_map_no_duplicates(rest, f);
        if f(items.last()) is Some {
            let item = f(items.last())->0;
            lemma_filter_map_contains(rest, f, item);
            if rest.filter_map(f).contains(item) {
                let i = choose|i: int| 0 <= i < rest.len() && f(#[trigger] rest[i]) == Some(item);
                assert(f(items[i]) != f(items[items.len() - 1]));
            }
            assert(items.filter_map(f) == rest.filter_map(f).push(item));
        }
    }
}

/// No item comes out of `flat_map` twice where the images have no item twice or in common.
pub proof fn lemma_flat_map_no_duplicates<A, B>(items: Seq<A>, f: spec_fn(A) -> Seq<B>)
    requires
        forall|i: int| 0 <= i < items.len() ==> f(#[trigger] items[i]).no_duplicates(),
        forall|i: int, j: int, item: B|
            0 <= i < j < items.len() && #[trigger] f(items[i]).contains(item)
                ==> !#[trigger] f(items[j]).contains(item),
    ensures
        items.flat_map(f).no_duplicates(),
    decreases items.len(),
{
    if items.len() > 0 {
        let rest = items.drop_last();
        assert forall|i: int| 0 <= i < rest.len() implies f(#[trigger] rest[i]).no_duplicates() by {
            assert(f(items[i]).no_duplicates());
        }
        assert forall|i: int, j: int, item: B|
            0 <= i < j < rest.len() && #[trigger] f(rest[i]).contains(
                item,
            ) implies !#[trigger] f(rest[j]).contains(item) by {
            assert(f(items[i]).contains(item));
            assert(!f(items[j]).contains(item));
        }
        lemma_flat_map_no_duplicates(rest, f);
        rest.lemma_flat_map_push(f, items.last());
        assert(rest.push(items.last()) =~= items);
        let front = rest.flat_map(f);
        let back = f(items[items.len() - 1]);
        assert forall|i: int, j: int|
            0 <= i < j < (front + back).len() implies (front + back)[i] != (front + back)[j] by {
            if i < front.len() <= j && front[i] == back[j - front.len()] {
                let item = front[i];
                assert(front.contains(item));
                lemma_flat_map_contains(rest, f, item);
                let k = choose|k: int| 0 <= k < rest.len() && f(#[trigger] rest[k]).contains(item);
                assert(f(items[k]).contains(item));
                assert(back.contains(item));
            }
        }
    }
}

/// `filter_map` of two sequences one after the other.
pub proof fn lemma_filter_map_concat<A, B>(left: Seq<A>, right: Seq<A>, f: spec_fn(A) -> Option<B>)
    ensures
        (left + right).filter_map(f) == left.filter_map(f) + right.filter_map(f),
    decreases right.len(),
{
    if right.len() == 0 {
        assert(left + right =~= left);
        assert(left.filter_map(f) + right.filter_map(f) =~= left.filter_map(f));
    } else {
        lemma_filter_map_concat(left, right.drop_last(), f);
        assert((left + right).drop_last() =~= left + right.drop_last());
        assert((left + right).filter_map(f) =~= left.filter_map(f) + right.filter_map(f));
    }
}

/// `flat_map` of two sequences one after the other.
pub proof fn lemma_flat_map_concat<A, B>(left: Seq<A>, right: Seq<A>, f: spec_fn(A) -> Seq<B>)
    ensures
        (left + right).flat_map(f) == left.flat_map(f) + right.flat_map(f),
    decreases right.len(),
{
    if right.len() == 0 {
        assert(left + right =~= left);
        assert(left.flat_map(f) + right.flat_map(f) =~= left.flat_map(f));
    } else {
        let rest = right.drop_last();
        lemma_flat_map_concat(left, rest, f);
        rest.lemma_flat_map_push(f, right.last());
        (left + rest).lemma_flat_map_push(f, right.last());
        assert(rest.push(right.last()) =~= right);
        assert((left + rest).push(right.last()) =~= left + right);
        assert((left + right).flat_map(f) =~= left.flat_map(f) + right.flat_map(f));
    }
}

/// `flat_map` of a single item.
pub proof fn lemma_flat_map_one<A, B>(item: A, f: spec_fn(A) -> Seq<B>)
    ensures
        seq![item].flat_map(f) == f(item),
{
    let none = Seq::<A>::empty();
    none.lemma_flat_map_push(f, item);
    assert(none.push(item) =~= seq![item]);
    assert(none.flat_map(f) =~= Seq::<B>::empty());
    assert(seq![item].flat_map(f) =~= f(item));
}

} // verus!
