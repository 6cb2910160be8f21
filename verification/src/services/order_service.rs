//! Orders: creating them, changing them, taking payments, and keeping
//! their amounts in step with their garment lines and impressions.

use crate::database::{Database, DatabaseView};
use crate::dto::{CreateOrderDto, OrderResponseDto, UpdateOrderDto};
use crate::error::{Entity, Error, Violation};
use crate::models::text::text_of;
use crate::models::{Order, OrderStatus};
use crate::ordering::{ascending, descending};
use crate::pricing::{fits, order_subtotal, order_total, subtotal_fits, subtotal_of, total_of};
use crate::repositories::client_repository::{
    client_refreshed, debt_current, debts_total, lemma_debts_total_same,
    lemma_refreshed_debt_current, settled,
};
use crate::repositories::order_repository::{
    amounts_settled, amounts_written, attach_clients, creates_order, debt_paid, deletes_order,
    due_between, order_paid, orders_due, pays_debt, updates_order, with_client, with_clients,
    writes_amounts,
};
use crate::repositories::OrderRepository;
use crate::sequence::numbered_in_sequence;
use crate::table::{
    children_of, find, found, index_of, lemma_index_of, lemma_replaced_index, Child, Row,
};
use crate::temporal::{clock_now, Date, Timestamp};
use vstd::prelude::*;

verus! {

/// The operations on orders.
pub struct OrderService {
    repository: OrderRepository,
}

/// What writing the amounts that were calculated for an order does: the
/// amounts are written, the order owes the whole total again, and its client
/// owes what its orders owe together.
pub open spec fn amounts_recalculated(
    before: DatabaseView,
    after: DatabaseView,
    r: Result<(), Error>,
    now: Timestamp,
    order_id: Seq<char>,
    subtotal: i64,
    total: i64,
) -> bool {
    exists|written: Result<bool, Error>|
        {
            &&& #[trigger] writes_amounts(before, after, written, now, order_id, subtotal, total)
            &&& r == match written {
                Ok(_) => Ok::<(), Error>(()),
                Err(e) => Err(e),
            }
        }
}

/// What recalculating an order does. The order must be in the store, and
/// its amounts and what the orders of its client owe together must fit;
/// then its subtotal is what its current garment lines and impressions cost,
/// its total is the subtotal plus tax minus the discount, it owes the whole
/// total again, whatever was paid before, and its client owes what its
/// orders owe together. A recalculation that fails leaves the store as it
/// was.
pub open spec fn recalculates(
    before: DatabaseView,
    after: DatabaseView,
    r: Result<(), Error>,
    now: Timestamp,
    order_id: Seq<char>,
) -> bool {
    match index_of(before.orders, order_id) {
        None => r == Err::<(), Error>(Error::NotFound(Entity::Order)) && after == before,
        Some(i) => {
            let order = before.orders[i];
            let subtotal = order_subtotal(before, order_id);
            let total = order_total(subtotal, order.iva as int, order.discount as int);
            if !subtotal_fits(before, order_id) || !fits(total) {
                r == Err::<(), Error>(Error::StoreFailure(Violation::AmountOutOfRange)) && after
                    == before
            } else {
                amounts_recalculated(
                    before,
                    after,
                    r,
                    now,
                    order_id,
                    subtotal as i64,
                    total as i64,
                )
            }
        },
    }
}

/// The amounts of the order `order_id` are those of its current garment
/// lines and impressions: the subtotal is their sum, and the total is the
/// subtotal plus tax minus the discount. The rate of the tax is in
/// hundredths of a percent, so the tax is the ten-thousandth part of the
/// subtotal times the rate.
pub open spec fn amounts_current(db: DatabaseView, order_id: Seq<char>) -> bool {
    match index_of(db.orders, order_id) {
        None => false,
        Some(i) => {
            let order = db.orders[i];
            &&& order.subtotal == order_subtotal(db, order_id)
            &&& order.total == order.subtotal + order.subtotal * order.iva / 10000 - order.discount
        },
    }
}

/// What paying on an order through the service does: what paying on an
/// order does.
pub open spec fn pays_order_debt(
    before: DatabaseView,
    after: DatabaseView,
    r: Result<bool, Error>,
    now: Timestamp,
    id: Seq<char>,
    amount: i64,
) -> bool {
    pays_debt(before, after, r, now, id, amount)
}

/// The store with the amounts written that a successful recalculation
/// wrote, before the client's debt was brought up to date.
pub open spec fn recalculated_orders(
    before: DatabaseView,
    after: DatabaseView,
    now: Timestamp,
    order_id: Seq<char>,
) -> DatabaseView {
    let i = index_of(before.orders, order_id)->0;
    let order = before.orders[i];
    let subtotal = order_subtotal(before, order_id);
    let total = order_total(subtotal, order.iva as int, order.discount as int);
    choose|changed: DatabaseView|
        {
            &&& #[trigger] amounts_written(before, changed, now, i, subtotal as i64, total as i64)
            &&& settled(before, changed, after, true, Ok(true), now, order.parent())
        }
}

/// A recalculation that succeeded wrote the amounts of the order and then
/// brought the debt of its client up to date.
proof fn lemma_recalculated_steps(
    before: DatabaseView,
    after: DatabaseView,
    now: Timestamp,
    order_id: Seq<char>,
)
    requires
        recalculates(before, after, Ok(()), now, order_id),
    ensures
        ({
            let i = index_of(before.orders, order_id)->0;
            let order = before.orders[i];
            let subtotal = order_subtotal(before, order_id);
            let total = order_total(subtotal, order.iva as int, order.discount as int);
            let changed = recalculated_orders(before, after, now, order_id);
            &&& index_of(before.orders, order_id) is Some
            &&& 0 <= i < before.orders.len()
            &&& subtotal_fits(before, order_id)
            &&& fits(total)
            &&& amounts_written(before, changed, now, i, subtotal as i64, total as i64)
            &&& fits(debts_total(children_of(changed.orders, order.parent())))
            &&& client_refreshed(changed, after, now, order.parent())
            &&& after.orders == changed.orders
            &&& index_of(after.orders, order_id) == Some(i)
        }),
{
    lemma_index_of(before.orders, order_id);
    let i = index_of(before.orders, order_id)->0;
    let order = before.orders[i];
    let subtotal = order_subtotal(before, order_id);
    let total = order_total(subtotal, order.iva as int, order.discount as int);
    let written = choose|written: Result<bool, Error>|
        {
            &&& #[trigger] writes_amounts(
                before,
                after,
                written,
                now,
                order_id,
                subtotal as i64,
                total as i64,
            )
            &&& Ok::<(), Error>(()) == match written {
                Ok(_) => Ok::<(), Error>(()),
                Err(e) => Err(e),
            }
        };
    assert(amounts_settled(before, after, written, now, i, subtotal as i64, total as i64));
    let changed = recalculated_orders(before, after, now, order_id);
    lemma_refreshed_debt_current(changed, after, now, order.parent());
    lemma_replaced_index(before.orders, changed.orders, i, order_id);
}

/// After a recalculation the amounts of the order are those of its current
/// garment lines and impressions, the order owes its total, and its client
/// owes what its orders owe together.
pub proof fn lemma_recalculated_amounts_current(
    before: DatabaseView,
    after: DatabaseView,
    now: Timestamp,
    order_id: Seq<char>,
)
    requires
        recalculates(before, after, Ok(()), now, order_id),
    ensures
        amounts_current(after, order_id),
        index_of(after.orders, order_id) == index_of(before.orders, order_id),
        after.orders[index_of(after.orders, order_id)->0].debt == after.orders[index_of(
            after.orders,
            order_id,
        )->0].total,
        debt_current(after, before.orders[index_of(before.orders, order_id)->0].parent()),
{
    lemma_recalculated_steps(before, after, now, order_id);
    let i = index_of(before.orders, order_id)->0;
    let changed = recalculated_orders(before, after, now, order_id);
    lemma_refreshed_debt_current(changed, after, now, before.orders[i].parent());
}

/// Recalculating twice with nothing changed in between succeeds again and
/// gives the same subtotal and the same total as recalculating once.
pub proof fn lemma_recalculate_idempotent(
    before: DatabaseView,
    once: DatabaseView,
    twice: DatabaseView,
    r: Result<(), Error>,
    first: Timestamp,
    second: Timestamp,
    order_id: Seq<char>,
)
    requires
        recalculates(before, once, Ok(()), first, order_id),
        recalculates(once, twice, r, second, order_id),
    ensures
        r is Ok,
        index_of(twice.orders, order_id) == index_of(once.orders, order_id),
        twice.orders[index_of(once.orders, order_id)->0].subtotal == once.orders[index_of(
            once.orders,
            order_id,
        )->0].subtotal,
        twice.orders[index_of(once.orders, order_id)->0].total == once.orders[index_of(
            once.orders,
            order_id,
        )->0].total,
{
    lemma_recalculated_steps(before, once, first, order_id);
    lemma_recalculated_amounts_current(before, once, first, order_id);
    let i = index_of(once.orders, order_id)->0;
    let order = once.orders[i];
    let subtotal = order_subtotal(once, order_id);
    let total = order_total(subtotal, order.iva as int, order.discount as int);
    let written = choose|written: Result<bool, Error>|
        {
            &&& #[trigger] writes_amounts(
                once,
                twice,
                written,
                second,
                order_id,
                subtotal as i64,
                total as i64,
            )
            &&& r == match written {
                Ok(_) => Ok::<(), Error>(()),
                Err(e) => Err(e),
            }
        };
    assert(amounts_settled(once, twice, written, second, i, subtotal as i64, total as i64));
    let changed = choose|changed: DatabaseView|
        {
            &&& #[trigger] amounts_written(once, changed, second, i, subtotal as i64, total as i64)
            &&& settled(once, changed, twice, true, written, second, order.parent())
        };
    assert forall|j: int| 0 <= j < changed.orders.len() implies (
    #[trigger] changed.orders[j]).parent() == once.orders[j].parent() && changed.orders[j].debt
        == once.orders[j].debt by {}
    lemma_debts_total_same(changed.orders, once.orders, order.parent());
    lemma_refreshed_debt_current(changed, twice, second, order.parent());
    lemma_replaced_index(once.orders, changed.orders, i, order_id);
}

/// The total that a recalculation writes is the subtotal that it writes,
/// plus the tax on it at the order's rate, minus the order's discount; the
/// rate and the discount stay as they were.
pub proof fn lemma_recalculated_total(
    before: DatabaseView,
    after: DatabaseView,
    now: Timestamp,
    order_id: Seq<char>,
)
    requires
        recalculates(before, after, Ok(()), now, order_id),
    ensures
        ({
            let i = index_of(before.orders, order_id)->0;
            let order = after.orders[i];
            &&& order.iva == before.orders[i].iva
            &&& order.discount == before.orders[i].discount
            &&& order.total == order.subtotal + order.subtotal * order.iva / 10000 - order.discount
        }),
{
    lemma_recalculated_steps(before, after, now, order_id);
}

/// A payment never leaves an order owing less than nothing, however large
/// it is, and leaves the client owing what its orders owe together.
pub proof fn lemma_debt_never_negative(
    before: DatabaseView,
    after: DatabaseView,
    r: Result<bool, Error>,
    now: Timestamp,
    id: Seq<char>,
    amount: i64,
)
    requires
        pays_debt(before, after, r, now, id, amount),
        r is Ok,
    ensures
        index_of(before.orders, id) matches Some(i) && after.orders[i].debt >= 0,
        amount >= before.orders[index_of(before.orders, id)->0].debt ==> after.orders[index_of(
            before.orders,
            id,
        )->0].debt == 0,
        debt_current(after, before.orders[index_of(before.orders, id)->0].parent()),
{
    lemma_index_of(before.orders, id);
    let i = index_of(before.orders, id)->0;
    let changed = choose|changed: DatabaseView|
        {
            &&& #[trigger] order_paid(before, changed, now, i, amount)
            &&& settled(before, changed, after, true, r, now, before.orders[i].parent())
        };
    lemma_refreshed_debt_current(changed, after, now, before.orders[i].parent());
}

/// The status that a new order gets: the one asked for, or the first state
/// of the workflow.
pub open spec fn status_or_default(status: Option<OrderStatus>) -> OrderStatus {
    match status {
        Some(s) => s,
        None => OrderStatus::OrderReceived,
    }
}

/// The text of the status to change to, where there is one.
pub open spec fn status_label(status: Option<OrderStatus>) -> Option<Seq<char>> {
    match status {
        Some(s) => Some(s.label()),
        None => None,
    }
}

/// The answers that stand for orders with the names and contacts of their
/// clients.
pub open spec fn responses(rows: Seq<(Order, String, String)>) -> Seq<OrderResponseDto> {
    Seq::new(rows.len(), |i: int| OrderResponseDto::of(rows[i]))
}

/// The answer to a query for orders: each order with its client, or the
/// failure of the first order whose client is not in the store.
pub open spec fn answers(
    r: Result<Vec<OrderResponseDto>, Error>,
    orders: Seq<Order>,
    db: DatabaseView,
) -> bool {
    match with_clients(orders, db.clients) {
        Ok(rows) => r matches Ok(dtos) && dtos@ == responses(rows),
        Err(e) => r == Err::<Vec<OrderResponseDto>, Error>(e),
    }
}

/// What creating an order through the service does: the order is created
/// with the status asked for, or the first state of the workflow, and comes
/// back with the name and the contact of its client.
pub open spec fn creates_order_response(
    before: DatabaseView,
    after: DatabaseView,
    r: Result<OrderResponseDto, Error>,
    id: Seq<char>,
    now: Timestamp,
    dto: CreateOrderDto,
) -> bool {
    exists|created: Result<Order, Error>|
        {
            &&& creates_order(
                before,
                after,
                created,
                id,
                now,
                dto.name@,
                dto.client_id@,
                dto.due_date,
                dto.iva,
                dto.discount,
                status_or_default(dto.status).label(),
            )
            &&& match created {
                Err(e) => r == Err::<OrderResponseDto, Error>(e),
                Ok(order) => match with_client(order, after.clients) {
                    Ok(parts) => r == Ok::<OrderResponseDto, Error>(
                        OrderResponseDto::of(parts),
                    ),
                    Err(e) => r == Err::<OrderResponseDto, Error>(e),
                },
            }
        }
}

/// What changing an order through the service does: the order is changed,
/// and comes back with the name and the contact of its client.
pub open spec fn updates_order_response(
    before: DatabaseView,
    after: DatabaseView,
    r: Result<Option<OrderResponseDto>, Error>,
    now: Timestamp,
    id: Seq<char>,
    dto: UpdateOrderDto,
) -> bool {
    exists|updated: Result<Option<Order>, Error>|
        {
            &&& updates_order(
                before,
                after,
                updated,
                now,
                id,
                text_of(dto.name),
                text_of(dto.client_id),
                dto.due_date,
                dto.discount,
                dto.iva,
                dto.subtotal,
                dto.total,
                status_label(dto.status),
            )
            &&& match updated {
                Err(e) => r == Err::<Option<OrderResponseDto>, Error>(e),
                Ok(None) => r == Ok::<Option<OrderResponseDto>, Error>(None),
                Ok(Some(order)) => match with_client(order, after.clients) {
                    Ok(parts) => r == Ok::<Option<OrderResponseDto>, Error>(
                        Some(OrderResponseDto::of(parts)),
                    ),
                    Err(e) => r == Err::<Option<OrderResponseDto>, Error>(e),
                },
            }
        }
}

/// The answers that stand for `rows`.
pub fn to_responses(rows: &Vec<(Order, String, String)>) -> (dtos: Vec<OrderResponseDto>)
    ensures
        dtos@ == responses(rows@),
{
    let mut dtos: Vec<OrderResponseDto> = Vec::new();
    let mut i: usize = 0;
    while i < rows.len()
        invariant
            i <= rows.len(),
            dtos.len() == i,
            forall|j: int| 0 <= j < i ==> #[trigger] dtos[j] == OrderResponseDto::of(rows[j]),
        decreases rows.len() - i,
    {
        let parts = (rows[i].0.duplicate(), rows[i].1.clone(), rows[i].2.clone());
        dtos.push(OrderResponseDto::from(parts));
        i += 1;
    }
    assert(dtos@ =~= responses(rows@));
    dtos
}

/// The answer to a query that found `orders`.
fn answer(orders: &Vec<Order>, db: &Database) -> (r: Result<Vec<OrderResponseDto>, Error>)
    ensures
        answers(r, orders@, db@),
{
    match attach_clients(orders, db.clients()) {
        Ok(rows) => Ok(to_responses(&rows)),
        Err(e) => Err(e),
    }
}

impl OrderService {
    pub fn new() -> (service: OrderService) {
        OrderService { repository: OrderRepository }
    }

    /// Creates an order at the instant `now` under the identity `id`.
    pub fn create_order_with(
        &self,
        db: &mut Database,
        id: String,
        now: Timestamp,
        dto: CreateOrderDto,
    ) -> (r: Result<OrderResponseDto, Error>)
        ensures
            creates_order_response(old(db)@, final(db)@, r, id@, now, dto),
            r is Err ==> final(db)@ == old(db)@,
            debt_current(old(db)@, dto.client_id@) ==> debt_current(final(db)@, dto.client_id@),
            old(db)@.wf() ==> final(db)@.wf(),
            numbered_in_sequence(old(db)@.orders) ==> numbered_in_sequence(final(db)@.orders),
    {
        let status = match dto.status {
            Some(s) => s,
            None => OrderStatus::OrderReceived,
        };
        let created = self.repository.create_with(
            db,
            id,
            now,
            dto.name,
            dto.client_id,
            dto.due_date,
            dto.iva,
            dto.discount,
            status.to_label(),
        );
        match created {
            Err(e) => Err(e),
            Ok(order) => {
                proof {
                    lemma_index_of(db@.clients, order.client_id@);
                }
                match find(db.clients(), &order.client_id) {
                    Some(client) => Ok(
                        OrderResponseDto::from((order, client.name, client.contact)),
                    ),
                    None => Err(Error::NotFound(Entity::Client)),
                }
            },
        }
    }

    /// Creates an order now, under a fresh identity.
    pub fn create_order(&self, db: &mut Database, dto: CreateOrderDto) -> (r: Result<
        OrderResponseDto,
        Error,
    >)
        ensures
            exists|id: Seq<char>, now: Timestamp|
                creates_order_response(old(db)@, final(db)@, r, id, now, dto),
            old(db)@.wf() ==> final(db)@.wf(),
            numbered_in_sequence(old(db)@.orders) ==> numbered_in_sequence(final(db)@.orders),
    {
        let id = crate::ident::random_id();
        let now = clock_now();
        self.create_order_with(db, id, now, dto)
    }

    /// The order `id` with the name and the contact of its client, if the
    /// order is in the store.
    pub fn get_order_by_id(&self, db: &Database, id: &str) -> (r: Result<
        Option<OrderResponseDto>,
        Error,
    >)
        ensures
            r == match found(db@.orders, id@) {
                None => Ok::<Option<OrderResponseDto>, Error>(None),
                Some(order) => match with_client(order, db@.clients) {
                    Ok(parts) => Ok(Some(OrderResponseDto::of(parts))),
                    Err(e) => Err(e),
                },
            },
    {
        match self.repository.get_with_client_info(db, id) {
            Ok(Some(parts)) => Ok(Some(OrderResponseDto::from(parts))),
            Ok(None) => Ok(None),
            Err(e) => Err(e),
        }
    }

    /// The orders of the client `client_id`, latest first.
    pub fn get_orders_by_client_id(&self, db: &Database, client_id: &str) -> (r: Result<
        Vec<OrderResponseDto>,
        Error,
    >)
        ensures
            answers(r, descending(children_of(db@.orders, client_id@)), db@),
    {
        match self.repository.get_by_client_id_with_client_info(db, client_id) {
            Ok(rows) => Ok(to_responses(&rows)),
            Err(e) => Err(e),
        }
    }

    /// The orders that are due from `start_date` to `end_date`, both days
    /// included, the one that is due first coming first.
    pub fn get_orders_by_date_range(&self, db: &Database, start_date: Date, end_date: Date) -> (r:
        Result<Vec<OrderResponseDto>, Error>)
        ensures
            answers(
                r,
                orders_due(ascending(due_between(db@.orders, start_date, end_date))),
                db@,
            ),
    {
        match self.repository.get_by_date_range(db, start_date, end_date) {
            Ok(orders) => answer(&orders, db),
            Err(e) => Err(e),
        }
    }

    /// All orders, latest first.
    pub fn list_orders(&self, db: &Database) -> (r: Result<Vec<OrderResponseDto>, Error>)
        ensures
            answers(r, descending(db@.orders), db@),
    {
        match self.repository.list_with_client_info(db) {
            Ok(rows) => Ok(to_responses(&rows)),
            Err(e) => Err(e),
        }
    }

    /// Changes the order `id` at the instant `now`.
    pub fn update_order_at(
        &self,
        db: &mut Database,
        now: Timestamp,
        id: &str,
        dto: UpdateOrderDto,
    ) -> (r: Result<Option<OrderResponseDto>, Error>)
        ensures
            updates_order_response(old(db)@, final(db)@, r, now, id@, dto),
            old(db)@.wf() ==> final(db)@.wf(),
    {
        let status = match dto.status {
            Some(s) => Some(s.to_label()),
            None => None,
        };
        let updated = self.repository.update_at(
            db,
            now,
            id,
            dto.name,
            dto.client_id,
            dto.due_date,
            dto.discount,
            dto.iva,
            dto.subtotal,
            dto.total,
            status,
        );
        match updated {
            Err(e) => Err(e),
            Ok(None) => Ok(None),
            Ok(Some(order)) => match find(db.clients(), &order.client_id) {
                Some(client) => Ok(
                    Some(OrderResponseDto::from((order, client.name, client.contact))),
                ),
                None => Err(Error::NotFound(Entity::Client)),
            },
        }
    }

    /// Changes the order `id` now.
    pub fn update_order(&self, db: &mut Database, id: &str, dto: UpdateOrderDto) -> (r: Result<
        Option<OrderResponseDto>,
        Error,
    >)
        ensures
            exists|now: Timestamp| updates_order_response(old(db)@, final(db)@, r, now, id@, dto),
            old(db)@.wf() ==> final(db)@.wf(),
    {
        let now = clock_now();
        self.update_order_at(db, now, id, dto)
    }

    /// Recalculates the amounts of the order `order_id` at the instant
    /// `now`, and brings the debt of its client up to date.
    pub fn recalculate_order_totals_at(
        &self,
        db: &mut Database,
        now: Timestamp,
        order_id: &str,
    ) -> (r: Result<(), Error>)
        ensures
            recalculates(old(db)@, final(db)@, r, now, order_id@),
            r is Err ==> final(db)@ == old(db)@,
            r is Ok ==> amounts_current(final(db)@, order_id@),
            r is Ok ==> (found(old(db)@.orders, order_id@) matches Some(order) && debt_current(
                final(db)@,
                order.parent(),
            )),
            old(db)@.wf() ==> final(db)@.wf(),
    {
        let key = order_id.to_owned();
        let order = match self.repository.get_by_id(db, order_id) {
            Ok(Some(order)) => order,
            _ => {
                return Err(Error::NotFound(Entity::Order));
            },
        };
        proof {
            lemma_index_of(db@.orders, order_id@);
        }
        let subtotal = match subtotal_of(db, &key) {
            Some(subtotal) => subtotal,
            None => {
                return Err(Error::StoreFailure(Violation::AmountOutOfRange));
            },
        };
        let total = match total_of(subtotal, order.iva, order.discount) {
            Some(total) => total,
            None => {
                return Err(Error::StoreFailure(Violation::AmountOutOfRange));
            },
        };
        let ghost before = db@;
        let written = self.repository.update_financial_values_at(
            db,
            now,
            order_id,
            subtotal,
            total,
        );
        let r = match written {
            Ok(_) => Ok(()),
            Err(e) => Err(e),
        };
        proof {
            assert(writes_amounts(before, db@, written, now, order_id@, subtotal, total));
            assert(amounts_recalculated(before, db@, r, now, order_id@, subtotal, total));
            if r is Ok {
                lemma_recalculated_amounts_current(before, db@, now, order_id@);
            }
        }
        r
    }

    /// Recalculates the amounts of the order `order_id` now, and brings the
    /// debt of its client up to date.
    pub fn recalculate_order_totals(&self, db: &mut Database, order_id: &str) -> (r: Result<
        (),
        Error,
    >)
        ensures
            exists|now: Timestamp| recalculates(old(db)@, final(db)@, r, now, order_id@),
            r is Ok ==> amounts_current(final(db)@, order_id@),
            old(db)@.wf() ==> final(db)@.wf(),
    {
        let now = clock_now();
        self.recalculate_order_totals_at(db, now, order_id)
    }

    /// Takes a payment of `amount` on the order `id` at the instant `now`,
    /// and brings the debt of the order's client up to date.
    pub fn pay_order_debt_at(&self, db: &mut Database, now: Timestamp, id: &str, amount: i64) -> (r:
        Result<bool, Error>)
        ensures
            pays_order_debt(old(db)@, final(db)@, r, now, id@, amount),
            r is Err ==> final(db)@ == old(db)@,
            r is Ok ==> (found(old(db)@.orders, id@) matches Some(order) && debt_current(
                final(db)@,
                order.parent(),
            )),
            old(db)@.wf() ==> final(db)@.wf(),
    {
        self.repository.pay_debt_at(db, now, id, amount)
    }

    /// Takes a payment of `amount` on the order `id` now, and brings the
    /// debt of the order's client up to date.
    pub fn pay_order_debt(&self, db: &mut Database, id: &str, amount: i64) -> (r: Result<
        bool,
        Error,
    >)
        ensures
            exists|now: Timestamp| pays_order_debt(old(db)@, final(db)@, r, now, id@, amount),
            old(db)@.wf() ==> final(db)@.wf(),
    {
        let now = clock_now();
        self.pay_order_debt_at(db, now, id, amount)
    }

    /// Deletes the order `id` with all that belongs to it at the instant
    /// `now`, and brings the debt of its client up to date. Returns whether
    /// there was such an order.
    pub fn delete_order_at(&self, db: &mut Database, now: Timestamp, id: &str) -> (r: Result<
        bool,
        Error,
    >)
        ensures
            deletes_order(old(db)@, final(db)@, r, now, id@),
            r is Ok ==> (found(old(db)@.orders, id@) matches Some(order) ==> debt_current(
                final(db)@,
                order.parent(),
            )),
            old(db)@.wf() ==> final(db)@.wf(),
    {
        self.repository.delete_at(db, now, id)
    }

    /// Deletes the order `id` with all that belongs to it now, and brings
    /// the debt of its client up to date.
    pub fn delete_order(&self, db: &mut Database, id: &str) -> (r: Result<bool, Error>)
        ensures
            exists|now: Timestamp| deletes_order(old(db)@, final(db)@, r, now, id@),
            old(db)@.wf() ==> final(db)@.wf(),
    {
        self.repository.delete(db, id)
    }
}

} // verus!
