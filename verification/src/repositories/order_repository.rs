//! Orders in the store.

use crate::database::{Database, DatabaseView};
use crate::error::{Entity, Error, Invalid, Violation};
use crate::ident::random_id;
use crate::models::text::text_of;
use crate::models::{Client, Order, OrderView};
use crate::ordering::{ascending, descending, sort_ascending, sort_descending};
use crate::repositories::client_repository::{
    client_refreshed, debt_current, debts_total, lemma_debts_total_same,
    lemma_refreshed_debt_current, settled, sum_debts, text_or, ClientRepository,
};
use crate::pricing::{debt_after, fits, settle};
use crate::sequence::{
    allocate_order_number, allocate_requisition_number, lemma_numbered_push, next_order_number,
    next_requisition_number, numbered_in_sequence,
};
use crate::table::{
    children_of, contains_key, copy_rows, find, found, has_key, index_of, lemma_index_of,
    lemma_replaced_index, parent_is, position, replaced, select_children, Child, Record, Row,
};
use crate::temporal::{clock_now, Date, Timestamp};
use vstd::prelude::*;

verus! {

/// The orders of the store.
pub struct OrderRepository;

/// What creating an order does. The client must be in the store, the two
/// numbers must fit, and the identity must be new; then the order is stored
/// with the next two numbers and with nothing on it yet, and nothing else
/// changes.
pub open spec fn creates_order(
    before: DatabaseView,
    after: DatabaseView,
    r: Result<Order, Error>,
    id: Seq<char>,
    now: Timestamp,
    name: Seq<char>,
    client_id: Seq<char>,
    due_date: Date,
    iva: i64,
    discount: Option<i64>,
    status: Seq<char>,
) -> bool {
    if !has_key(before.clients, client_id) {
        r == Err::<Order, Error>(Error::NotFound(Entity::Client)) && after == before
    } else if next_order_number(before.orders) > i32::MAX || next_requisition_number(
        before.orders,
        client_id,
    ) > i32::MAX {
        r == Err::<Order, Error>(Error::StoreFailure(Violation::SequenceExhausted)) && after
            == before
    } else if has_key(before.orders, id) {
        r == Err::<Order, Error>(Error::StoreFailure(Violation::DuplicateKey(Entity::Order)))
            && after == before
    } else {
        r matches Ok(order) && order@ == (OrderView {
            id,
            name,
            client_id,
            order_number: next_order_number(before.orders) as i32,
            client_requisition_number: next_requisition_number(before.orders, client_id) as i32,
            due_date: Some(due_date),
            discount: match discount {
                Some(d) => d,
                None => 0,
            },
            iva,
            subtotal: 0,
            total: 0,
            status,
            debt: 0,
            created_at: now,
            updated_at: now,
        }) && after == (DatabaseView { orders: before.orders.push(order), ..before })
    }
}

/// A new order owes nothing, so a client that owes what its orders owe
/// together still does when an order of any client is created.
pub proof fn lemma_created_debt_current(
    before: DatabaseView,
    order: Order,
    client_id: Seq<char>,
)
    requires
        order.debt == 0,
        debt_current(before, client_id),
    ensures
        debt_current(
            DatabaseView { orders: before.orders.push(order), ..before },
            client_id,
        ),
{
    before.orders.lemma_filter_push(order, parent_is::<Order>(client_id));
    if order.parent() == client_id {
        let mine = children_of(before.orders, client_id);
        assert(mine.push(order).drop_last() =~= mine);
    }
}

/// The store with a payment of `amount` taken on the order at position
/// `at`: the debt of the order goes down by the amount, but not below
/// nothing.
pub open spec fn order_paid(
    before: DatabaseView,
    changed: DatabaseView,
    now: Timestamp,
    at: int,
    amount: i64,
) -> bool {
    &&& changed == (DatabaseView { orders: changed.orders, ..before })
    &&& replaced(
        before.orders,
        changed.orders,
        at,
        OrderView {
            debt: debt_after(before.orders[at].debt as int, amount as int) as i64,
            updated_at: now,
            ..before.orders[at]@
        },
    )
}

/// What a payment on the order at position `at` does: the payment is
/// taken, and the debt of the order's client is brought up to date.
pub open spec fn debt_paid(
    before: DatabaseView,
    after: DatabaseView,
    r: Result<bool, Error>,
    now: Timestamp,
    at: int,
    amount: i64,
) -> bool {
    exists|changed: DatabaseView|
        {
            &&& #[trigger] order_paid(before, changed, now, at, amount)
            &&& settled(before, changed, after, true, r, now, before.orders[at].parent())
        }
}

/// What paying on an order does. The payment must be greater than nothing
/// and the order must be in the store; then the debt of the order goes down
/// by the amount, but not below nothing, and the client owes what its orders
/// owe together.
pub open spec fn pays_debt(
    before: DatabaseView,
    after: DatabaseView,
    r: Result<bool, Error>,
    now: Timestamp,
    id: Seq<char>,
    amount: i64,
) -> bool {
    if amount <= 0 {
        r == Err::<bool, Error>(Error::InvalidArgument(Invalid::NonPositivePayment)) && after
            == before
    } else {
        match index_of(before.orders, id) {
            None => r == Err::<bool, Error>(Error::NotFound(Entity::Order)) && after == before,
            Some(i) => debt_paid(before, after, r, now, i, amount),
        }
    }
}

/// The store with the amounts of the order at position `at` written: the
/// order has the subtotal and the total, and owes the whole total again.
pub open spec fn amounts_written(
    before: DatabaseView,
    changed: DatabaseView,
    now: Timestamp,
    at: int,
    subtotal: i64,
    total: i64,
) -> bool {
    &&& changed == (DatabaseView { orders: changed.orders, ..before })
    &&& replaced(
        before.orders,
        changed.orders,
        at,
        OrderView { subtotal, total, debt: total, updated_at: now, ..before.orders[at]@ },
    )
}

/// What writing the amounts of the order at position `at` does: the
/// amounts are written, and the debt of the order's client is brought up to
/// date.
pub open spec fn amounts_settled(
    before: DatabaseView,
    after: DatabaseView,
    r: Result<bool, Error>,
    now: Timestamp,
    at: int,
    subtotal: i64,
    total: i64,
) -> bool {
    exists|changed: DatabaseView|
        {
            &&& #[trigger] amounts_written(before, changed, now, at, subtotal, total)
            &&& settled(before, changed, after, true, r, now, before.orders[at].parent())
        }
}

/// What writing the amounts of an order does. Where the order is in the
/// store, it gets the subtotal and the total and owes the whole total again,
/// and its client owes what its orders owe together.
pub open spec fn writes_amounts(
    before: DatabaseView,
    after: DatabaseView,
    r: Result<bool, Error>,
    now: Timestamp,
    id: Seq<char>,
    subtotal: i64,
    total: i64,
) -> bool {
    match index_of(before.orders, id) {
        None => r == Ok::<bool, Error>(false) && after == before,
        Some(i) => amounts_settled(before, after, r, now, i, subtotal, total),
    }
}

/// What deleting an order does: the order goes with all that belongs to
/// it, and the client that it was of owes what its remaining orders owe
/// together.
pub open spec fn deletes_order(
    before: DatabaseView,
    after: DatabaseView,
    r: Result<bool, Error>,
    now: Timestamp,
    id: Seq<char>,
) -> bool {
    match found(before.orders, id) {
        None => r == Ok::<bool, Error>(false) && after == before.without_order(id),
        Some(order) => settled(
            before.without_order(id),
            before.without_order(id),
            after,
            true,
            r,
            now,
            order.parent(),
        ),
    }
}

/// The new value where there is one, the old value where there is none.
pub open spec fn value_or<T>(new: Option<T>, old: T) -> T {
    match new {
        Some(value) => value,
        None => old,
    }
}

/// The orders with the order at position `at` moved to the client
/// `client_id`, where that client is in the store.
pub open spec fn orders_moved(db: DatabaseView, at: int, client_id: Seq<char>) -> Seq<Order> {
    db.orders.update(
        at,
        Order { client_id: found(db.clients, client_id)->0.id, ..db.orders[at] },
    )
}

/// The order at position `at` is to move to another client, and the orders
/// of one of the two clients would then owe together more than can be
/// stored.
pub open spec fn move_overflows(db: DatabaseView, at: int, client_id: Option<Seq<char>>) -> bool {
    client_id matches Some(c) && c != db.orders[at].parent() && {
        ||| !fits(debts_total(children_of(orders_moved(db, at, c), c)))
        ||| !fits(debts_total(children_of(orders_moved(db, at, c), db.orders[at].parent())))
    }
}

/// The store after the debts of two clients were brought up to date, the
/// first client's first.
pub open spec fn both_refreshed(
    before: DatabaseView,
    after: DatabaseView,
    now: Timestamp,
    first: Seq<char>,
    second: Seq<char>,
) -> bool {
    exists|mid: DatabaseView|
        {
            &&& #[trigger] client_refreshed(before, mid, now, first)
            &&& client_refreshed(mid, after, now, second)
        }
}

/// Two clients whose debts were brought up to date one after the other
/// both owe what their orders owe together.
pub proof fn lemma_both_refreshed(
    before: DatabaseView,
    after: DatabaseView,
    now: Timestamp,
    first: Seq<char>,
    second: Seq<char>,
)
    requires
        both_refreshed(before, after, now, first, second),
        first != second,
        fits(debts_total(children_of(before.orders, first))),
        fits(debts_total(children_of(before.orders, second))),
    ensures
        after.orders == before.orders,
        debt_current(after, first),
        debt_current(after, second),
{
    let mid = choose|mid: DatabaseView|
        {
            &&& #[trigger] client_refreshed(before, mid, now, first)
            &&& client_refreshed(mid, after, now, second)
        };
    lemma_refreshed_debt_current(before, mid, now, first);
    lemma_refreshed_debt_current(mid, after, now, second);
    lemma_index_of(mid.clients, first);
    lemma_index_of(mid.clients, second);
    if let Some(k) = index_of(mid.clients, second) {
        lemma_replaced_index(mid.clients, after.clients, k, first);
    }
}

/// What changing an order does. Where the order is in the store, and the
/// client that it is to move to is too, the fields that are given replace
/// the old ones. Where the order moves to another client, the client that it
/// is of from now on and the client that it was of both owe what their
/// orders owe together; where those debts do not fit, the order stays as it
/// was.
pub open spec fn updates_order(
    before: DatabaseView,
    after: DatabaseView,
    r: Result<Option<Order>, Error>,
    now: Timestamp,
    id: Seq<char>,
    name: Option<Seq<char>>,
    client_id: Option<Seq<char>>,
    due_date: Option<Date>,
    discount: Option<i64>,
    iva: Option<i64>,
    subtotal: Option<i64>,
    total: Option<i64>,
    status: Option<Seq<char>>,
) -> bool {
    match index_of(before.orders, id) {
        None => r == Ok::<Option<Order>, Error>(None) && after == before,
        Some(i) => {
            let old = before.orders[i]@;
            if client_id matches Some(c) && !has_key(before.clients, c) {
                r == Err::<Option<Order>, Error>(Error::NotFound(Entity::Client)) && after
                    == before
            } else if move_overflows(before, i, client_id) {
                r == Err::<Option<Order>, Error>(
                    Error::StoreFailure(Violation::AmountOutOfRange),
                ) && after == before
            } else {
                r matches Ok(Some(order)) && order@ == (OrderView {
                    name: text_or(name, old.name),
                    client_id: text_or(client_id, old.client_id),
                    due_date: match due_date {
                        Some(d) => Some(d),
                        None => old.due_date,
                    },
                    discount: value_or(discount, old.discount),
                    iva: value_or(iva, old.iva),
                    subtotal: value_or(subtotal, old.subtotal),
                    total: value_or(total, old.total),
                    status: text_or(status, old.status),
                    updated_at: now,
                    ..old
                }) && order_changed(
                    DatabaseView { orders: before.orders.update(i, order), ..before },
                    after,
                    now,
                    old.client_id,
                    order.parent(),
                )
            }
        },
    }
}

/// What changing an order of the client `was_of` into an order of the
/// client `is_of` comes to: where the two are not the same client, the debts
/// of both are brought up to date.
pub open spec fn order_changed(
    changed: DatabaseView,
    after: DatabaseView,
    now: Timestamp,
    was_of: Seq<char>,
    is_of: Seq<char>,
) -> bool {
    if is_of != was_of {
        both_refreshed(changed, after, now, is_of, was_of)
    } else {
        after == changed
    }
}

/// `order` with the name and the contact of its client, where the client
/// is among `clients`.
pub open spec fn with_client(order: Order, clients: Seq<Client>) -> Result<
    (Order, String, String),
    Error,
> {
    match found(clients, order.parent()) {
        Some(client) => Ok((order, client.name, client.contact)),
        None => Err(Error::NotFound(Entity::Client)),
    }
}

/// Each of `orders` with the name and the contact of its client, or the
/// failure of the first order whose client is not among `clients`.
pub open spec fn with_clients(orders: Seq<Order>, clients: Seq<Client>) -> Result<
    Seq<(Order, String, String)>,
    Error,
>
    decreases orders.len(),
{
    if orders.len() == 0 {
        Ok(Seq::empty())
    } else {
        match with_clients(orders.drop_last(), clients) {
            Ok(front) => match with_client(orders.last(), clients) {
                Ok(last) => Ok(front.push(last)),
                Err(e) => Err(e),
            },
            Err(e) => Err(e),
        }
    }
}

/// A failure among the first orders is the failure of them all.
proof fn lemma_with_clients_fail(orders: Seq<Order>, clients: Seq<Client>, n: int)
    requires
        0 <= n <= orders.len(),
        with_clients(orders.take(n), clients) is Err,
    ensures
        with_clients(orders, clients) == with_clients(orders.take(n), clients),
    decreases orders.len() - n,
{
    if n < orders.len() {
        assert(orders.take(n + 1).drop_last() =~= orders.take(n));
        lemma_with_clients_fail(orders, clients, n + 1);
    } else {
        assert(orders.take(n) =~= orders);
    }
}

/// Each of `orders` with the name and the contact of its client.
pub fn attach_clients(orders: &Vec<Order>, clients: &Vec<Client>) -> (r: Result<
    Vec<(Order, String, String)>,
    Error,
>)
    ensures
        match r {
            Ok(rows) => with_clients(orders@, clients@) == Ok::<
                Seq<(Order, String, String)>,
                Error,
            >(rows@),
            Err(e) => with_clients(orders@, clients@) == Err::<
                Seq<(Order, String, String)>,
                Error,
            >(e),
        },
{
    let mut rows: Vec<(Order, String, String)> = Vec::new();
    let mut i: usize = 0;
    assert(orders@.take(0) =~= Seq::<Order>::empty());
    while i < orders.len()
        invariant
            i <= orders.len(),
            with_clients(orders@.take(i as int), clients@) == Ok::<
                Seq<(Order, String, String)>,
                Error,
            >(rows@),
        decreases orders.len() - i,
    {
        proof {
            assert(orders@.take(i + 1).drop_last() =~= orders@.take(i as int));
            assert(orders@.take(i + 1).last() == orders[i as int]);
        }
        match find(clients, &orders[i].client_id) {
            Some(client) => {
                rows.push((orders[i].duplicate(), client.name, client.contact));
            },
            None => {
                proof {
                    lemma_with_clients_fail(orders@, clients@, i + 1);
                }
                return Err(Error::NotFound(Entity::Client));
            },
        }
        i += 1;
    }
    assert(orders@.take(orders.len() as int) =~= orders@);
    Ok(rows)
}

/// An order with the day on which it is due, by which it is ranked.
pub struct Due {
    pub order: Order,
    pub day: Date,
}

impl Row for Due {
    open spec fn rank(&self) -> i128 {
        self.day.julian_day as i128
    }

    fn rank_value(&self) -> (rank: i128) {
        self.day.julian_day as i128
    }

    fn duplicate(&self) -> (r: Due) {
        Due { order: self.order.duplicate(), day: self.day }
    }
}

/// Those of `orders` that are due from `start` to `end`, both days
/// included, in their order. An order without a due date is not among
/// them.
pub open spec fn due_between(orders: Seq<Order>, start: Date, end: Date) -> Seq<Due>
    decreases orders.len(),
{
    if orders.len() == 0 {
        Seq::empty()
    } else {
        let front = due_between(orders.drop_last(), start, end);
        match orders.last().due_date {
            Some(day) => if start.julian_day <= day.julian_day <= end.julian_day {
                front.push(Due { order: orders.last(), day })
            } else {
                front
            },
            None => front,
        }
    }
}

/// The orders of `dues`.
pub open spec fn orders_due(dues: Seq<Due>) -> Seq<Order> {
    Seq::new(dues.len(), |i: int| dues[i].order)
}

impl OrderRepository {
    /// Creates an order at the instant `now` under the identity `id`.
    pub fn create_with(
        &self,
        db: &mut Database,
        id: String,
        now: Timestamp,
        name: String,
        client_id: String,
        due_date: Date,
        iva: i64,
        discount: Option<i64>,
        status: String,
    ) -> (r: Result<Order, Error>)
        ensures
            creates_order(
                old(db)@,
                final(db)@,
                r,
                id@,
                now,
                name@,
                client_id@,
                due_date,
                iva,
                discount,
                status@,
            ),
            r is Err ==> final(db)@ == old(db)@,
            debt_current(old(db)@, client_id@) ==> debt_current(final(db)@, client_id@),
            old(db)@.wf() ==> final(db)@.wf(),
            numbered_in_sequence(old(db)@.orders) ==> numbered_in_sequence(final(db)@.orders),
    {
        if !contains_key(db.clients(), &client_id) {
            return Err(Error::NotFound(Entity::Client));
        }
        let order_number = match allocate_order_number(db.orders()) {
            Some(n) => n,
            None => {
                return Err(Error::StoreFailure(Violation::SequenceExhausted));
            },
        };
        let client_requisition_number = match allocate_requisition_number(
            db.orders(),
            &client_id,
        ) {
            Some(n) => n,
            None => {
                return Err(Error::StoreFailure(Violation::SequenceExhausted));
            },
        };
        let order = Order {
            id,
            name,
            client_id,
            order_number,
            client_requisition_number,
            due_date: Some(due_date),
            discount: match discount {
                Some(d) => d,
                None => 0,
            },
            iva,
            subtotal: 0,
            total: 0,
            status,
            debt: 0,
            created_at: now,
            updated_at: now,
        };
        let stored = order.duplicate();
        proof {
            if numbered_in_sequence(db@.orders) {
                lemma_numbered_push(db@.orders, order);
            }
            if debt_current(db@, order.parent()) {
                lemma_created_debt_current(db@, order, order.parent());
            }
        }
        match db.insert_order(order) {
            Ok(()) => Ok(stored),
            Err(e) => Err(e),
        }
    }

    /// Creates an order now, under a fresh identity.
    pub fn create(
        &self,
        db: &mut Database,
        name: String,
        client_id: String,
        due_date: Date,
        iva: i64,
        discount: Option<i64>,
        status: String,
    ) -> (r: Result<Order, Error>)
        ensures
            exists|id: Seq<char>, now: Timestamp|
                creates_order(
                    old(db)@,
                    final(db)@,
                    r,
                    id,
                    now,
                    name@,
                    client_id@,
                    due_date,
                    iva,
                    discount,
                    status@,
                ),
            old(db)@.wf() ==> final(db)@.wf(),
            numbered_in_sequence(old(db)@.orders) ==> numbered_in_sequence(final(db)@.orders),
    {
        let id = random_id();
        let now = clock_now();
        self.create_with(db, id, now, name, client_id, due_date, iva, discount, status)
    }

    /// The order `id`, if it is in the store.
    pub fn get_by_id(&self, db: &Database, id: &str) -> (r: Result<Option<Order>, Error>)
        ensures
            r == Ok::<Option<Order>, Error>(found(db@.orders, id@)),
    {
        Ok(find(db.orders(), &id.to_owned()))
    }

    /// The orders of the client `client_id`, latest first.
    pub fn get_by_client_id(&self, db: &Database, client_id: &str) -> (r: Result<
        Vec<Order>,
        Error,
    >)
        ensures
            r matches Ok(orders) && orders@ == descending(children_of(db@.orders, client_id@)),
    {
        let mine = select_children(db.orders(), &client_id.to_owned());
        Ok(sort_descending(&mine))
    }

    /// The orders that are due from `start_date` to `end_date`, both days
    /// included, the one that is due first coming first.
    pub fn get_by_date_range(&self, db: &Database, start_date: Date, end_date: Date) -> (r:
        Result<Vec<Order>, Error>)
        ensures
            r matches Ok(orders) && orders@ == orders_due(
                ascending(due_between(db@.orders, start_date, end_date)),
            ),
    {
        let all = db.orders();
        let mut dues: Vec<Due> = Vec::new();
        let mut i: usize = 0;
        assert(all@.take(0) =~= Seq::<Order>::empty());
        while i < all.len()
            invariant
                i <= all.len(),
                dues@ == due_between(all@.take(i as int), start_date, end_date),
            decreases all.len() - i,
        {
            proof {
                assert(all@.take(i + 1).drop_last() =~= all@.take(i as int));
                assert(all@.take(i + 1).last() == all[i as int]);
            }
            if let Some(day) = all[i].due_date {
                if start_date.julian_day <= day.julian_day && day.julian_day
                    <= end_date.julian_day {
                    dues.push(Due { order: all[i].duplicate(), day });
                }
            }
            i += 1;
        }
        assert(all@.take(all.len() as int) =~= all@);
        let sorted = sort_ascending(&dues);
        let mut orders: Vec<Order> = Vec::new();
        let mut k: usize = 0;
        while k < sorted.len()
            invariant
                k <= sorted.len(),
                orders.len() == k,
                forall|j: int| 0 <= j < k ==> #[trigger] orders[j] == sorted[j].order,
            decreases sorted.len() - k,
        {
            orders.push(sorted[k].order.duplicate());
            k += 1;
        }
        assert(orders@ =~= orders_due(sorted@));
        Ok(orders)
    }

    /// All orders, latest first.
    pub fn list(&self, db: &Database) -> (r: Result<Vec<Order>, Error>)
        ensures
            r matches Ok(orders) && orders@ == descending(db@.orders),
    {
        Ok(sort_descending(db.orders()))
    }

    /// Changes the order `id` at the instant `now`.
    pub fn update_at(
        &self,
        db: &mut Database,
        now: Timestamp,
        id: &str,
        name: Option<String>,
        client_id: Option<String>,
        due_date: Option<Date>,
        discount: Option<i64>,
        iva: Option<i64>,
        subtotal: Option<i64>,
        total: Option<i64>,
        status: Option<String>,
    ) -> (r: Result<Option<Order>, Error>)
        ensures
            updates_order(
                old(db)@,
                final(db)@,
                r,
                now,
                id@,
                text_of(name),
                text_of(client_id),
                due_date,
                discount,
                iva,
                subtotal,
                total,
                text_of(status),
            ),
            r is Err ==> final(db)@ == old(db)@,
            r matches Ok(Some(order)) ==> (found(old(db)@.orders, id@) matches Some(was)
                && (order.parent() != was.parent() ==> debt_current(final(db)@, order.parent())
                && debt_current(final(db)@, was.parent()))),
            old(db)@.wf() ==> final(db)@.wf(),
    {
        let current = match find(db.orders(), &id.to_owned()) {
            Some(order) => order,
            None => {
                return Ok(None);
            },
        };
        if let Some(c) = &client_id {
            if !contains_key(db.clients(), c) {
                return Err(Error::NotFound(Entity::Client));
            }
        }
        let kept = current.duplicate();
        let ghost wanted = text_of(client_id);
        let order = Order {
            id: current.id,
            name: name.unwrap_or(current.name),
            client_id: client_id.unwrap_or(current.client_id),
            order_number: current.order_number,
            client_requisition_number: current.client_requisition_number,
            due_date: match due_date {
                Some(d) => Some(d),
                None => current.due_date,
            },
            discount: discount.unwrap_or(current.discount),
            iva: iva.unwrap_or(current.iva),
            subtotal: subtotal.unwrap_or(current.subtotal),
            total: total.unwrap_or(current.total),
            status: status.unwrap_or(current.status),
            debt: current.debt,
            created_at: current.created_at,
            updated_at: now,
        };
        let stored = order.duplicate();
        let ghost before = db@;
        let ghost at = index_of(before.orders, id@)->0;
        proof {
            lemma_index_of(before.orders, id@);
        }
        let moves = !(stored.client_id == kept.client_id);
        if moves {
            let mut would = copy_rows(db.orders());
            if let Some(place) = position(&would, &stored.id) {
                would.set(place, order.duplicate());
            }
            let mine = select_children(&would, &stored.client_id);
            let theirs = select_children(&would, &kept.client_id);
            proof {
                lemma_index_of(before.clients, stored.parent());
                let moved = orders_moved(before, at, stored.parent());
                assert(would@ == before.orders.update(at, order));
                assert forall|j: int| 0 <= j < would.len() implies (#[trigger] would@[j]).parent()
                    == moved[j].parent() && would@[j].debt == moved[j].debt by {}
                lemma_debts_total_same(would@, moved, stored.parent());
                lemma_debts_total_same(would@, moved, kept.parent());
                assert(wanted == Some(stored.parent()));
            }
            if sum_debts(&mine).is_none() || sum_debts(&theirs).is_none() {
                return Err(Error::StoreFailure(Violation::AmountOutOfRange));
            }
        }
        let _ = db.put_order(order);
        if !moves {
            return Ok(Some(stored));
        }
        let ghost changed = db@;
        let _ = ClientRepository.update_client_debt_at(db, now, stored.client_id.as_str());
        let ghost mid = db@;
        let _ = ClientRepository.update_client_debt_at(db, now, kept.client_id.as_str());
        proof {
            assert(client_refreshed(changed, mid, now, stored.parent()));
            assert(client_refreshed(mid, db@, now, kept.parent()));
            assert(both_refreshed(changed, db@, now, stored.parent(), kept.parent()));
            lemma_both_refreshed(changed, db@, now, stored.parent(), kept.parent());
        }
        Ok(Some(stored))
    }

    /// Changes the order `id` now.
    pub fn update(
        &self,
        db: &mut Database,
        id: &str,
        name: Option<String>,
        client_id: Option<String>,
        due_date: Option<Date>,
        discount: Option<i64>,
        iva: Option<i64>,
        subtotal: Option<i64>,
        total: Option<i64>,
        status: Option<String>,
    ) -> (r: Result<Option<Order>, Error>)
        ensures
            exists|now: Timestamp|
                updates_order(
                    old(db)@,
                    final(db)@,
                    r,
                    now,
                    id@,
                    text_of(name),
                    text_of(client_id),
                    due_date,
                    discount,
                    iva,
                    subtotal,
                    total,
                    text_of(status),
                ),
            old(db)@.wf() ==> final(db)@.wf(),
    {
        let now = clock_now();
        self.update_at(
            db,
            now,
            id,
            name,
            client_id,
            due_date,
            discount,
            iva,
            subtotal,
            total,
            status,
        )
    }

    /// The order `id` with the name and the contact of its client, if the
    /// order is in the store.
    pub fn get_with_client_info(&self, db: &Database, id: &str) -> (r: Result<
        Option<(Order, String, String)>,
        Error,
    >)
        ensures
            r == match found(db@.orders, id@) {
                None => Ok::<Option<(Order, String, String)>, Error>(None),
                Some(order) => match with_client(order, db@.clients) {
                    Ok(row) => Ok(Some(row)),
                    Err(e) => Err(e),
                },
            },
    {
        match find(db.orders(), &id.to_owned()) {
            None => Ok(None),
            Some(order) => match find(db.clients(), &order.client_id) {
                Some(client) => Ok(Some((order, client.name, client.contact))),
                None => Err(Error::NotFound(Entity::Client)),
            },
        }
    }

    /// All orders, latest first, each with the name and the contact of its
    /// client.
    pub fn list_with_client_info(&self, db: &Database) -> (r: Result<
        Vec<(Order, String, String)>,
        Error,
    >)
        ensures
            match r {
                Ok(rows) => with_clients(descending(db@.orders), db@.clients) == Ok::<
                    Seq<(Order, String, String)>,
                    Error,
                >(rows@),
                Err(e) => with_clients(descending(db@.orders), db@.clients) == Err::<
                    Seq<(Order, String, String)>,
                    Error,
                >(e),
            },
    {
        let orders = sort_descending(db.orders());
        attach_clients(&orders, db.clients())
    }

    /// The orders of the client `client_id`, latest first, each with the
    /// name and the contact of the client.
    pub fn get_by_client_id_with_client_info(&self, db: &Database, client_id: &str) -> (r:
        Result<Vec<(Order, String, String)>, Error>)
        ensures
            match r {
                Ok(rows) => with_clients(
                    descending(children_of(db@.orders, client_id@)),
                    db@.clients,
                ) == Ok::<Seq<(Order, String, String)>, Error>(rows@),
                Err(e) => with_clients(
                    descending(children_of(db@.orders, client_id@)),
                    db@.clients,
                ) == Err::<Seq<(Order, String, String)>, Error>(e),
            },
    {
        let mine = select_children(db.orders(), &client_id.to_owned());
        let orders = sort_descending(&mine);
        attach_clients(&orders, db.clients())
    }

    /// Deletes the order `id` with all that belongs to it at the instant
    /// `now`, and brings the debt of its client up to date. Returns whether
    /// there was such an order.
    pub fn delete_at(&self, db: &mut Database, now: Timestamp, id: &str) -> (r: Result<
        bool,
        Error,
    >)
        ensures
            deletes_order(old(db)@, final(db)@, r, now, id@),
            r is Ok ==> (found(old(db)@.orders, id@) matches Some(order) ==> debt_current(
                final(db)@,
                order.parent(),
            )),
            old(db)@.wf() ==> final(db)@.wf(),
    {
        let key = id.to_owned();
        let order = match find(db.orders(), &key) {
            Some(order) => order,
            None => {
                db.delete_order(&key);
                return Ok(false);
            },
        };
        db.delete_order(&key);
        let ghost changed = db@;
        match ClientRepository.update_client_debt_at(db, now, order.client_id.as_str()) {
            Ok(_) => {
                proof {
                    lemma_refreshed_debt_current(changed, db@, now, order.parent());
                }
                Ok(true)
            },
            Err(e) => Err(e),
        }
    }

    /// Deletes the order `id` with all that belongs to it now, and brings
    /// the debt of its client up to date.
    pub fn delete(&self, db: &mut Database, id: &str) -> (r: Result<bool, Error>)
        ensures
            exists|now: Timestamp| deletes_order(old(db)@, final(db)@, r, now, id@),
            old(db)@.wf() ==> final(db)@.wf(),
    {
        let now = clock_now();
        self.delete_at(db, now, id)
    }

    /// Brings the debt of the client of `kept` up to date at the
    /// instant `now`, after the order with the identity of `kept` was
    /// changed. Where the debts of the client's orders do not add up,
    /// `kept` is put back.
    fn settle_client(&self, db: &mut Database, now: Timestamp, kept: Order) -> (r: Result<
        (),
        Error,
    >)
        requires
            index_of(old(db)@.orders, kept.key()) is Some,
            old(db)@.orders[index_of(old(db)@.orders, kept.key())->0].parent()
                == kept.parent(),
        ensures
            ({
                let changed = old(db)@;
                let at = index_of(changed.orders, kept.key())->0;
                if !fits(debts_total(children_of(changed.orders, kept.parent()))) {
                    &&& r == Err::<(), Error>(Error::StoreFailure(Violation::AmountOutOfRange))
                    &&& final(db)@ == (DatabaseView {
                        orders: changed.orders.update(at, kept),
                        ..changed
                    })
                } else {
                    r == Ok::<(), Error>(()) && client_refreshed(
                        changed,
                        final(db)@,
                        now,
                        kept.parent(),
                    )
                }
            }),
            old(db)@.wf() ==> final(db)@.wf(),
    {
        match ClientRepository.update_client_debt_at(db, now, kept.client_id.as_str()) {
            Ok(_) => Ok(()),
            Err(e) => {
                let _ = db.put_order(kept);
                Err(e)
            },
        }
    }

    /// Writes the subtotal and the total of the order `id` at the instant
    /// `now`, makes the order owe the whole total, and brings the debt of
    /// its client up to date. Returns whether there was such an order.
    pub fn update_financial_values_at(
        &self,
        db: &mut Database,
        now: Timestamp,
        id: &str,
        subtotal: i64,
        total: i64,
    ) -> (r: Result<bool, Error>)
        ensures
            writes_amounts(old(db)@, final(db)@, r, now, id@, subtotal, total),
            r is Err ==> final(db)@ == old(db)@,
            r is Ok ==> (found(old(db)@.orders, id@) matches Some(order) ==> debt_current(
                final(db)@,
                order.parent(),
            )),
            old(db)@.wf() ==> final(db)@.wf(),
    {
        let key = id.to_owned();
        let current = match find(db.orders(), &key) {
            Some(order) => order,
            None => {
                return Ok(false);
            },
        };
        let kept = current.duplicate();
        let order = Order { subtotal, total, debt: total, updated_at: now, ..current };
        let ghost before = db@;
        let ghost at = index_of(before.orders, id@)->0;
        proof {
            lemma_index_of(before.orders, id@);
        }
        let _ = db.put_order(order);
        let ghost changed = db@;
        proof {
            assert(amounts_written(before, changed, now, at, subtotal, total));
            lemma_replaced_index(before.orders, changed.orders, at, id@);
        }
        let settled_client = self.settle_client(db, now, kept);
        let r = match settled_client {
            Ok(()) => Ok(true),
            Err(e) => Err(e),
        };
        proof {
            if settled_client is Err {
                assert(changed.orders.update(at, kept) =~= before.orders);
            } else {
                lemma_refreshed_debt_current(changed, db@, now, kept.parent());
            }
            assert(settled(before, changed, db@, true, r, now, before.orders[at].parent()));
            assert(amounts_settled(before, db@, r, now, at, subtotal, total));
        }
        r
    }

    /// Writes the subtotal and the total of the order `id` now, makes the
    /// order owe the whole total, and brings the debt of its client up to
    /// date.
    pub fn update_financial_values(
        &self,
        db: &mut Database,
        id: &str,
        subtotal: i64,
        total: i64,
    ) -> (r: Result<bool, Error>)
        ensures
            exists|now: Timestamp|
                writes_amounts(old(db)@, final(db)@, r, now, id@, subtotal, total),
            old(db)@.wf() ==> final(db)@.wf(),
    {
        let now = clock_now();
        self.update_financial_values_at(db, now, id, subtotal, total)
    }

    /// Takes a payment of `amount` on the order `id` at the instant `now`,
    /// and brings the debt of the order's client up to date.
    pub fn pay_debt_at(&self, db: &mut Database, now: Timestamp, id: &str, amount: i64) -> (r:
        Result<bool, Error>)
        ensures
            pays_debt(old(db)@, final(db)@, r, now, id@, amount),
            r is Err ==> final(db)@ == old(db)@,
            r is Ok ==> (found(old(db)@.orders, id@) matches Some(order) && debt_current(
                final(db)@,
                order.parent(),
            )),
            old(db)@.wf() ==> final(db)@.wf(),
    {
        if amount <= 0 {
            return Err(Error::InvalidArgument(Invalid::NonPositivePayment));
        }
        let key = id.to_owned();
        let current = match find(db.orders(), &key) {
            Some(order) => order,
            None => {
                return Err(Error::NotFound(Entity::Order));
            },
        };
        let rest = match settle(current.debt, amount) {
            Some(rest) => rest,
            None => {
                return Err(Error::StoreFailure(Violation::AmountOutOfRange));
            },
        };
        let kept = current.duplicate();
        let order = Order { debt: rest, updated_at: now, ..current };
        let ghost before = db@;
        let ghost at = index_of(before.orders, id@)->0;
        proof {
            lemma_index_of(before.orders, id@);
        }
        let _ = db.put_order(order);
        let ghost changed = db@;
        proof {
            assert(order_paid(before, changed, now, at, amount));
            lemma_replaced_index(before.orders, changed.orders, at, id@);
        }
        let settled_client = self.settle_client(db, now, kept);
        let r = match settled_client {
            Ok(()) => Ok(true),
            Err(e) => Err(e),
        };
        proof {
            if settled_client is Err {
                assert(changed.orders.update(at, kept) =~= before.orders);
            } else {
                lemma_refreshed_debt_current(changed, db@, now, kept.parent());
            }
            assert(settled(before, changed, db@, true, r, now, before.orders[at].parent()));
            assert(debt_paid(before, db@, r, now, at, amount));
        }
        r
    }

    /// Takes a payment of `amount` on the order `id` now, and brings the
    /// debt of the order's client up to date.
    pub fn pay_debt(&self, db: &mut Database, id: &str, amount: i64) -> (r: Result<bool, Error>)
        ensures
            exists|now: Timestamp| pays_debt(old(db)@, final(db)@, r, now, id@, amount),
            old(db)@.wf() ==> final(db)@.wf(),
    {
        let now = clock_now();
        self.pay_debt_at(db, now, id, amount)
    }
}

} // verus!
