//! Rows in the order of their ranks.
//!
//! Rows of the same rank keep the order in which they stand. The rank of a
//! record is the instant of its creation, so records in ascending order are
//! the earliest first, and in descending order the latest first.

use crate::table::Row;
use vstd::prelude::*;

verus! {

/// `sorted` with `row` put behind the last row whose rank is not above
/// its own.
pub open spec fn placed<T: Row>(sorted: Seq<T>, row: T) -> Seq<T>
    decreases sorted.len(),
{
    if sorted.len() == 0 {
        seq![row]
    } else if sorted.last().rank() <= row.rank() {
        sorted.push(row)
    } else {
        placed(sorted.drop_last(), row).push(sorted.last())
    }
}

/// The rows of `rows`, lowest rank first.
pub open spec fn ascending<T: Row>(rows: Seq<T>) -> Seq<T>
    decreases rows.len(),
{
    if rows.len() == 0 {
        Seq::empty()
    } else {
        placed(ascending(rows.drop_last()), rows.last())
    }
}

/// The rows of `rows`, in the reverse of their ascending order.
pub open spec fn descending<T: Row>(rows: Seq<T>) -> Seq<T> {
    ascending(rows).reverse()
}

/// No row of `rows` has a lower rank than one that stands ahead of it.
pub open spec fn in_order<T: Row>(rows: Seq<T>) -> bool {
    forall|i: int, j: int|
        0 <= i < j < rows.len() ==> (#[trigger] rows[i]).rank() <= (#[trigger] rows[j]).rank()
}

/// Both hold the same records, each as often as the other.
pub open spec fn same_records<T>(a: Seq<T>, b: Seq<T>) -> bool {
    a.to_multiset() == b.to_multiset()
}

/// Placing a row is inserting it at the position behind which every row
/// has a higher rank and at which the row ahead has not.
proof fn lemma_placed_at<T: Row>(sorted: Seq<T>, row: T, at: int)
    requires
        0 <= at <= sorted.len(),
        forall|j: int| at <= j < sorted.len() ==> (#[trigger] sorted[j]).rank() > row.rank(),
        at > 0 ==> sorted[at - 1].rank() <= row.rank(),
    ensures
        placed(sorted, row) == sorted.insert(at, row),
    decreases sorted.len(),
{
    if sorted.len() == 0 {
        assert(sorted.insert(at, row) =~= seq![row]);
    } else if at == sorted.len() {
        assert(sorted.insert(at, row) =~= sorted.push(row));
    } else {
        let front = sorted.drop_last();
        assert(sorted[sorted.len() - 1].rank() > row.rank());
        lemma_placed_at(front, row, at);
        assert(front.insert(at, row).push(sorted.last()) =~= sorted.insert(at, row));
    }
}

/// Placing a row adds it and changes nothing else.
pub proof fn lemma_placed_records<T: Row>(sorted: Seq<T>, row: T)
    ensures
        placed(sorted, row).to_multiset() == sorted.to_multiset().insert(row),
        placed(sorted, row).len() == sorted.len() + 1,
    decreases sorted.len(),
{
    broadcast use vstd::seq_lib::to_multiset_build;

    if sorted.len() == 0 {
        assert(seq![row] =~= Seq::<T>::empty().push(row));
        assert(sorted =~= Seq::<T>::empty());
    } else if sorted.last().rank() <= row.rank() {
    } else {
        let front = sorted.drop_last();
        lemma_placed_records(front, row);
        assert(sorted =~= front.push(sorted.last()));
        assert(placed(sorted, row).to_multiset() =~= sorted.to_multiset().insert(row));
    }
}

/// Placing a row among rows in order leaves them in order.
proof fn lemma_placed_order<T: Row>(sorted: Seq<T>, row: T)
    requires
        in_order(sorted),
    ensures
        in_order(placed(sorted, row)),
        forall|i: int|
            0 <= i < placed(sorted, row).len() ==> (#[trigger] placed(sorted, row)[i]) == row || (
            exists|k: int| 0 <= k < sorted.len() && sorted[k] == placed(sorted, row)[i]),
    decreases sorted.len(),
{
    let next = placed(sorted, row);
    if sorted.len() == 0 {
    } else if sorted.last().rank() <= row.rank() {
        assert forall|i: int, j: int| 0 <= i < j < next.len() implies (#[trigger] next[i]).rank()
            <= (#[trigger] next[j]).rank() by {
            if j < sorted.len() {
                assert(sorted[i].rank() <= sorted[j].rank());
            } else {
                assert(sorted[i].rank() <= sorted[sorted.len() - 1].rank());
            }
        }
        assert forall|i: int| 0 <= i < next.len() implies (#[trigger] next[i]) == row || (exists|
            k: int,
        | 0 <= k < sorted.len() && sorted[k] == next[i]) by {
            if i < sorted.len() {
                assert(sorted[i] == next[i]);
            }
        }
    } else {
        let front = sorted.drop_last();
        assert forall|i: int, j: int| 0 <= i < j < front.len() implies (#[trigger] front[i]).rank()
            <= (#[trigger] front[j]).rank() by {
            assert(sorted[i].rank() <= sorted[j].rank());
        }
        lemma_placed_order(front, row);
        lemma_placed_records(front, row);
        let inner = placed(front, row);
        assert forall|i: int, j: int| 0 <= i < j < next.len() implies (#[trigger] next[i]).rank()
            <= (#[trigger] next[j]).rank() by {
            if j < inner.len() {
                assert(inner[i].rank() <= inner[j].rank());
            } else {
                assert(next[j] == sorted.last());
                assert(next[i] == inner[i]);
                if inner[i] != row {
                    let k = choose|k: int| 0 <= k < front.len() && front[k] == inner[i];
                    assert(sorted[k].rank() <= sorted[sorted.len() - 1].rank());
                }
            }
        }
        assert forall|i: int| 0 <= i < next.len() implies (#[trigger] next[i]) == row || (exists|
            k: int,
        | 0 <= k < sorted.len() && sorted[k] == next[i]) by {
            if i < inner.len() {
                assert(next[i] == inner[i]);
                if inner[i] != row {
                    let k = choose|k: int| 0 <= k < front.len() && front[k] == inner[i];
                    assert(sorted[k] == next[i]);
                }
            } else {
                assert(sorted[sorted.len() - 1] == next[i]);
            }
        }
    }
}

/// Sorting keeps every row, as often as it was there, and puts the rows
/// in the order of their ranks.
pub proof fn lemma_ascending<T: Row>(rows: Seq<T>)
    ensures
        same_records(ascending(rows), rows),
        ascending(rows).len() == rows.len(),
        in_order(ascending(rows)),
    decreases rows.len(),
{
    broadcast use vstd::seq_lib::to_multiset_build;

    if rows.len() > 0 {
        let front = rows.drop_last();
        lemma_ascending(front);
        lemma_placed_records(ascending(front), rows.last());
        lemma_placed_order(ascending(front), rows.last());
        assert(rows =~= front.push(rows.last()));
        assert(front.push(rows.last()).to_multiset() =~= front.to_multiset().insert(rows.last()));
    } else {
        assert(rows =~= ascending(rows));
    }
}

/// Copies of the rows of `rows`, lowest rank first.
pub fn sort_ascending<T: Row>(rows: &Vec<T>) -> (sorted: Vec<T>)
    ensures
        sorted@ == ascending(rows@),
{
    let mut sorted: Vec<T> = Vec::new();
    let mut i: usize = 0;
    assert(rows@.take(0) =~= Seq::<T>::empty());
    while i < rows.len()
        invariant
            i <= rows.len(),
            sorted@ == ascending(rows@.take(i as int)),
            sorted.len() == i,
        decreases rows.len() - i,
    {
        let row = rows[i].duplicate();
        let rank = row.rank_value();
        let mut at: usize = sorted.len();
        while at > 0 && sorted[at - 1].rank_value() > rank
            invariant
                at <= sorted.len(),
                rank == row.rank(),
                forall|j: int| at <= j < sorted.len() ==> (#[trigger] sorted[j]).rank() > rank,
            decreases at,
        {
            at -= 1;
        }
        proof {
            lemma_placed_at(sorted@, row, at as int);
            assert(rows@.take(i + 1).drop_last() =~= rows@.take(i as int));
            assert(rows@.take(i + 1).last() == rows[i as int]);
        }
        sorted.insert(at, row);
        i += 1;
    }
    assert(rows@.take(rows.len() as int) =~= rows@);
    sorted
}

/// Copies of the rows of `rows`, in the reverse of their ascending order.
pub fn sort_descending<T: Row>(rows: &Vec<T>) -> (sorted: Vec<T>)
    ensures
        sorted@ == descending(rows@),
{
    let ascending = sort_ascending(rows);
    let mut sorted: Vec<T> = Vec::new();
    let mut i: usize = ascending.len();
    while i > 0
        invariant
            i <= ascending.len(),
            sorted.len() == ascending.len() - i,
            forall|k: int|
                0 <= k < sorted.len() ==> #[trigger] sorted[k] == ascending[ascending.len() - 1
                    - k],
        decreases i,
    {
        i -= 1;
        sorted.push(ascending[i].duplicate());
    }
    assert(sorted@ =~= ascending@.reverse());
    sorted
}

} // verus!
