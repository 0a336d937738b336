//! What it means to look for something in a list.

use vstd::prelude::*;

verus! {

/// The first item that is wanted.
pub open spec fn first_where<T>(items: Seq<T>, wanted: spec_fn(T) -> bool) -> Option<T>
    decreases items.len(),
{
    if items.len() == 0 {
        None
    } else if wanted(items[0]) {
        Some(items[0])
    } else {
        first_where(items.skip(1), wanted)
    }
}

/// Whether some item is wanted.
pub open spec fn any_where<T>(items: Seq<T>, wanted: spec_fn(T) -> bool) -> bool {
    exists|i: int| 0 <= i < items.len() && wanted(#[trigger] items[i])
}

/// The first wanted item is the one that no other wanted item precedes.
pub proof fn first_where_at<T>(items: Seq<T>, wanted: spec_fn(T) -> bool, at: int)
    requires
        0 <= at <= items.len(),
        forall|j: int| 0 <= j < at ==> !wanted(#[trigger] items[j]),
        at < items.len() ==> wanted(items[at]),
    ensures
        first_where(items, wanted) == (if at < items.len() {
            Some(items[at])
        } else {
            None
        }),
    decreases at,
{
    if at > 0 {
        assert(!wanted(items[0]));
        assert forall|j: int| 0 <= j < at - 1 implies !wanted(#[trigger] items.skip(1)[j]) by {
            assert(items.skip(1)[j] == items[j + 1]);
        }
        first_where_at(items.skip(1), wanted, at - 1);
    }
}

/// What is found first is in the list, is wanted, and is found whenever anything is.
pub proof fn first_where_is_wanted<T>(items: Seq<T>, wanted: spec_fn(T) -> bool)
    ensures
        match first_where(items, wanted) {
            Some(item) => wanted(item) && items.contains(item),
            None => forall|i: int| 0 <= i < items.len() ==> !wanted(#[trigger] items[i]),
        },
    decreases items.len(),
{
    if items.len() > 0 && !wanted(items[0]) {
        let rest = items.skip(1);
        first_where_is_wanted(rest, wanted);
        match first_where(rest, wanted) {
            Some(item) => {
                let i = choose|i: int| 0 <= i < rest.len() && rest[i] == item;
                assert(items[i + 1] == item);
            },
            None => {
                assert forall|i: int| 0 <= i < items.len() implies !wanted(
                    #[trigger] items[i],
                ) by {
                    if i > 0 {
                        assert(items[i] == rest[i - 1]);
                    }
                }
            },
        }
    } else if items.len() > 0 {
        assert(items[0] == first_where(items, wanted)->0);
    }
}

/// In two lists one behind the other, the second is searched where the first has nothing.
pub proof fn first_where_in_both<T>(left: Seq<T>, right: Seq<T>, wanted: spec_fn(T) -> bool)
    ensures
        first_where(left + right, wanted) == (match first_where(left, wanted) {
            Some(item) => Some(item),
            None => first_where(right, wanted),
        }),
    decreases left.len(),
{
    if left.len() == 0 {
        assert(left + right =~= right);
    } else {
        assert((left + right)[0] == left[0]);
        assert((left + right).skip(1) =~= left.skip(1) + right);
        first_where_in_both(left.skip(1), right, wanted);
    }
}

/// A longer list contains what the shorter one did, and the item that was added.
pub proof fn pushed_contains<T>(items: Seq<T>, item: T, other: T)
    ensures
        items.push(item).contains(other) <==> items.contains(other) || other == item,
{
    let longer = items.push(item);
    if items.contains(other) {
        let i = choose|i: int| 0 <= i < items.len() && items[i] == other;
        assert(longer[i] == other);
    }
    if other == item {
        assert(longer[items.len() as int] == other);
    }
    if longer.contains(other) {
        let i = choose|i: int| 0 <= i < longer.len() && longer[i] == other;
        if i < items.len() {
            assert(items[i] == other);
        }
    }
}

} // verus!
