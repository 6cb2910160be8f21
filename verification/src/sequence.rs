//! The two counters of an order: its number among all orders, and its
//! requisition number among the orders of its client. A new order gets one
//! more than the highest number in the store, or 1 where there is none.
//! Numbers are given once, when the order is created, and are not changed
//! when other orders are deleted.

use crate::models::Order;
use crate::table::{children_of, parent_is, Child};
use vstd::prelude::*;

verus! {

/// The highest order number among `orders`.
pub open spec fn max_order_number(orders: Seq<Order>) -> Option<int>
    decreases orders.len(),
{
    if orders.len() == 0 {
        None
    } else {
        let last = orders.last().order_number as int;
        match max_order_number(orders.drop_last()) {
            Some(m) => Some(if m >= last { m } else { last }),
            None => Some(last),
        }
    }
}

/// The highest requisition number among `orders`.
pub open spec fn max_requisition_number(orders: Seq<Order>) -> Option<int>
    decreases orders.len(),
{
    if orders.len() == 0 {
        None
    } else {
        let last = orders.last().client_requisition_number as int;
        match max_requisition_number(orders.drop_last()) {
            Some(m) => Some(if m >= last { m } else { last }),
            None => Some(last),
        }
    }
}

/// One more than `highest`, or 1 where there is none.
pub open spec fn successor(highest: Option<int>) -> int {
    match highest {
        Some(m) => m + 1,
        None => 1,
    }
}

/// The number of the next order, given the orders in the store.
pub open spec fn next_order_number(orders: Seq<Order>) -> int {
    successor(max_order_number(orders))
}

/// The requisition number of the next order of `client_id`, given the
/// orders in the store.
pub open spec fn next_requisition_number(orders: Seq<Order>, client_id: Seq<char>) -> int {
    successor(max_requisition_number(children_of(orders, client_id)))
}

/// The order at position `k` was numbered when the orders before it, and
/// no others, were in the store.
pub open spec fn numbered_at(orders: Seq<Order>, k: int) -> bool {
    &&& orders[k].order_number == next_order_number(orders.take(k))
    &&& orders[k].client_requisition_number == next_requisition_number(
        orders.take(k),
        orders[k].parent(),
    )
}

/// Each order of `orders` was numbered when the orders before it, and no
/// others, were in the store.
pub open spec fn numbered_in_sequence(orders: Seq<Order>) -> bool {
    forall|k: int| 0 <= k < orders.len() ==> #[trigger] numbered_at(orders, k)
}

/// After `k` orders created in sequence the highest order number is `k`,
/// and the orders are numbered from 1.
proof fn lemma_order_numbers_prefix(orders: Seq<Order>, k: int)
    requires
        numbered_in_sequence(orders),
        0 <= k <= orders.len(),
    ensures
        max_order_number(orders.take(k)) == if k == 0 {
            None
        } else {
            Some(k)
        },
        forall|j: int| 0 <= j < k ==> (#[trigger] orders[j]).order_number == j + 1,
    decreases k,
{
    if k > 0 {
        lemma_order_numbers_prefix(orders, k - 1);
        assert(numbered_at(orders, k - 1));
        assert(orders.take(k).drop_last() =~= orders.take(k - 1));
        assert(orders.take(k).last() == orders[k - 1]);
    }
}

/// After `k` orders created in sequence the highest requisition number of
/// a client is the number of its orders, and its orders are numbered from 1.
proof fn lemma_requisition_numbers_prefix(orders: Seq<Order>, client_id: Seq<char>, k: int)
    requires
        numbered_in_sequence(orders),
        0 <= k <= orders.len(),
    ensures
        ({
            let mine = children_of(orders.take(k), client_id);
            &&& max_requisition_number(mine) == if mine.len() == 0 {
                None
            } else {
                Some(mine.len() as int)
            }
            &&& forall|m: int|
                0 <= m < mine.len() ==> (#[trigger] mine[m]).client_requisition_number == m + 1
        }),
    decreases k,
{
    reveal(Seq::filter);
    if k > 0 {
        lemma_requisition_numbers_prefix(orders, client_id, k - 1);
        let before = orders.take(k - 1);
        let order = orders[k - 1];
        assert(numbered_at(orders, k - 1));
        assert(orders.take(k) =~= before.push(order));
        before.lemma_filter_push(order, parent_is::<Order>(client_id));
        if order.parent() == client_id {
            let mine = children_of(before, client_id);
            assert(mine.push(order).drop_last() =~= mine);
        }
    } else {
        assert(orders.take(0) =~= Seq::<Order>::empty());
    }
}

/// Orders created one at a time, with none deleted, carry the order numbers
/// 1, 2, 3 and so on, in the order of their creation.
pub proof fn lemma_order_numbers_count_up(orders: Seq<Order>)
    requires
        numbered_in_sequence(orders),
    ensures
        forall|k: int| 0 <= k < orders.len() ==> (#[trigger] orders[k]).order_number == k + 1,
{
    lemma_order_numbers_prefix(orders, orders.len() as int);
}

/// The orders of one client, created one at a time with none deleted,
/// carry the requisition numbers 1, 2, 3 and so on, whatever orders of other
/// clients were created in between.
pub proof fn lemma_requisition_numbers_count_up(orders: Seq<Order>, client_id: Seq<char>)
    requires
        numbered_in_sequence(orders),
    ensures
        forall|m: int|
            0 <= m < children_of(orders, client_id).len() ==> (#[trigger] children_of(
                orders,
                client_id,
            )[m]).client_requisition_number == m + 1,
{
    lemma_requisition_numbers_prefix(orders, client_id, orders.len() as int);
    assert(orders.take(orders.len() as int) =~= orders);
}

/// A table of orders numbered in sequence stays so when the next order is
/// added with the next two numbers.
pub proof fn lemma_numbered_push(orders: Seq<Order>, order: Order)
    requires
        numbered_in_sequence(orders),
        order.order_number == next_order_number(orders),
        order.client_requisition_number == next_requisition_number(orders, order.parent()),
    ensures
        numbered_in_sequence(orders.push(order)),
{
    let more = orders.push(order);
    assert forall|k: int| 0 <= k < more.len() implies #[trigger] numbered_at(more, k) by {
        if k < orders.len() {
            assert(numbered_at(orders, k));
            assert(more.take(k) =~= orders.take(k));
            assert(more[k] == orders[k]);
        } else {
            assert(more.take(k) =~= orders);
        }
    }
}

/// The number of the next order, unless it is too large to store.
pub fn allocate_order_number(orders: &Vec<Order>) -> (next: Option<i32>)
    ensures
        next == if next_order_number(orders@) <= i32::MAX {
            Some(next_order_number(orders@) as i32)
        } else {
            None
        },
{
    let mut highest: Option<i32> = None;
    let mut i: usize = 0;
    while i < orders.len()
        invariant
            i <= orders.len(),
            match highest {
                Some(m) => max_order_number(orders@.take(i as int)) == Some(m as int),
                None => max_order_number(orders@.take(i as int)) is None,
            },
        decreases orders.len() - i,
    {
        proof {
            assert(orders@.take(i + 1).drop_last() =~= orders@.take(i as int));
        }
        let number = orders[i].order_number;
        highest = match highest {
            Some(m) => Some(if m >= number { m } else { number }),
            None => Some(number),
        };
        i += 1;
    }
    proof {
        assert(orders@.take(orders.len() as int) =~= orders@);
    }
    match highest {
        Some(m) => if m == i32::MAX {
            None
        } else {
            Some(m + 1)
        },
        None => Some(1),
    }
}

/// The requisition number of the next order of `client_id`, unless it is
/// too large to store.
pub fn allocate_requisition_number(orders: &Vec<Order>, client_id: &String) -> (next: Option<i32>)
    ensures
        next == if next_requisition_number(orders@, client_id@) <= i32::MAX {
            Some(next_requisition_number(orders@, client_id@) as i32)
        } else {
            None
        },
{
    let mut highest: Option<i32> = None;
    let mut i: usize = 0;
    let ghost mine = parent_is::<Order>(client_id@);
    proof {
        reveal(Seq::filter);
        assert(orders@.take(0).filter(mine) =~= Seq::<Order>::empty());
    }
    while i < orders.len()
        invariant
            i <= orders.len(),
            mine == parent_is::<Order>(client_id@),
            match highest {
                Some(m) => max_requisition_number(orders@.take(i as int).filter(mine)) == Some(
                    m as int,
                ),
                None => max_requisition_number(orders@.take(i as int).filter(mine)) is None,
            },
        decreases orders.len() - i,
    {
        proof {
            assert(orders@.take(i + 1) =~= orders@.take(i as int).push(orders[i as int]));
            orders@.take(i as int).lemma_filter_push(orders[i as int], mine);
            let before = orders@.take(i as int).filter(mine);
            assert(before.push(orders[i as int]).drop_last() =~= before);
        }
        if orders[i].client_id == *client_id {
            let number = orders[i].client_requisition_number;
            highest = match highest {
                Some(m) => Some(if m >= number { m } else { number }),
                None => Some(number),
            };
        }
        i += 1;
    }
    proof {
        assert(orders@.take(orders.len() as int) =~= orders@);
    }
    match highest {
        Some(m) => if m == i32::MAX {
            None
        } else {
            Some(m + 1)
        },
        None => Some(1),
    }
}

} // verus!
