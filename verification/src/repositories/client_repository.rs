//! Clients in the store.

use crate::database::{Database, DatabaseView};
use crate::error::{Entity, Error, Violation};
use crate::ident::random_id;
use crate::models::text::text_of;
use crate::models::{Client, ClientView, Order};
use crate::ordering::{descending, sort_descending};
use crate::pricing::fits;
use crate::table::{
    children_of, find, found, has_key, index_of, lemma_index_of, lemma_replaced_index, parent_is,
    replaced, select_children, Child, Row,
};
use crate::temporal::{clock_now, Timestamp};
use vstd::prelude::*;

verus! {

/// The clients of the store.
pub struct ClientRepository;

/// The new text where there is one, the old text where there is none.
pub open spec fn text_or(new: Option<Seq<char>>, old: Seq<char>) -> Seq<char> {
    match new {
        Some(text) => text,
        None => old,
    }
}

/// The sum of what `orders` owe.
pub open spec fn debts_total(orders: Seq<Order>) -> int
    decreases orders.len(),
{
    if orders.len() == 0 {
        0
    } else {
        debts_total(orders.drop_last()) + orders.last().debt
    }
}

/// What creating a client does: unless the identity is taken, the client is
/// stored, owing nothing.
pub open spec fn creates_client(
    before: DatabaseView,
    after: DatabaseView,
    r: Result<Client, Error>,
    id: Seq<char>,
    now: Timestamp,
    name: Seq<char>,
    nuit: Seq<char>,
    contact: Seq<char>,
    category: Seq<char>,
    observations: Seq<char>,
) -> bool {
    if has_key(before.clients, id) {
        r == Err::<Client, Error>(Error::StoreFailure(Violation::DuplicateKey(Entity::Client)))
            && after == before
    } else {
        r matches Ok(client) && client@ == (ClientView {
            id,
            name,
            nuit,
            contact,
            category,
            observations,
            debt: 0,
            created_at: now,
            updated_at: now,
        }) && after == (DatabaseView { clients: before.clients.push(client), ..before })
    }
}

/// What changing a client does: where the client is in the store, the
/// fields that are given replace the old ones.
pub open spec fn updates_client(
    before: DatabaseView,
    after: DatabaseView,
    r: Result<Option<Client>, Error>,
    now: Timestamp,
    id: Seq<char>,
    name: Option<Seq<char>>,
    nuit: Option<Seq<char>>,
    contact: Option<Seq<char>>,
    category: Option<Seq<char>>,
    observations: Option<Seq<char>>,
) -> bool {
    match index_of(before.clients, id) {
        None => r == Ok::<Option<Client>, Error>(None) && after == before,
        Some(i) => {
            let old = before.clients[i]@;
            r matches Ok(Some(client)) && client@ == (ClientView {
                name: text_or(name, old.name),
                nuit: text_or(nuit, old.nuit),
                contact: text_or(contact, old.contact),
                category: text_or(category, old.category),
                observations: text_or(observations, old.observations),
                updated_at: now,
                ..old
            }) && after == (DatabaseView { clients: before.clients.update(i, client), ..before })
        },
    }
}

/// What bringing a client's debt up to date does: where the client is in
/// the store, it owes what its orders owe together.
pub open spec fn updates_client_debt(
    before: DatabaseView,
    after: DatabaseView,
    r: Result<bool, Error>,
    now: Timestamp,
    client_id: Seq<char>,
) -> bool {
    let debt = debts_total(children_of(before.orders, client_id));
    if !fits(debt) {
        r == Err::<bool, Error>(Error::StoreFailure(Violation::AmountOutOfRange)) && after
            == before
    } else {
        match index_of(before.clients, client_id) {
            None => r == Ok::<bool, Error>(false) && after == before,
            Some(i) => {
                &&& r == Ok::<bool, Error>(true)
                &&& after == (DatabaseView { clients: after.clients, ..before })
                &&& replaced(
                    before.clients,
                    after.clients,
                    i,
                    ClientView { debt: debt as i64, updated_at: now, ..before.clients[i]@ },
                )
            },
        }
    }
}

/// The store after the debt of the client `client_id` was brought up to
/// date at the instant `now`: the client owes what its orders owe together.
/// Nothing changes where there is no such client.
pub open spec fn client_refreshed(
    before: DatabaseView,
    after: DatabaseView,
    now: Timestamp,
    client_id: Seq<char>,
) -> bool {
    match index_of(before.clients, client_id) {
        None => after == before,
        Some(k) => {
            &&& after == (DatabaseView { clients: after.clients, ..before })
            &&& replaced(
                before.clients,
                after.clients,
                k,
                ClientView {
                    debt: debts_total(children_of(before.orders, client_id)) as i64,
                    updated_at: now,
                    ..before.clients[k]@
                },
            )
        },
    }
}

/// The client `client_id`, where it is in the store, owes what its orders
/// owe together.
pub open spec fn debt_current(db: DatabaseView, client_id: Seq<char>) -> bool {
    match index_of(db.clients, client_id) {
        None => true,
        Some(k) => db.clients[k].debt == debts_total(children_of(db.orders, client_id)),
    }
}

/// What a change to an order of the client `client_id` comes to once the
/// client's debt is brought up to date. `changed` is the store with the
/// change made. Where the debts of the client's orders add up to an amount
/// that can be stored, the change stands and the client owes that amount;
/// where they do not, the store stays as it was before the change.
pub open spec fn settled<T>(
    before: DatabaseView,
    changed: DatabaseView,
    after: DatabaseView,
    outcome: T,
    r: Result<T, Error>,
    now: Timestamp,
    client_id: Seq<char>,
) -> bool {
    if !fits(debts_total(children_of(changed.orders, client_id))) {
        r == Err::<T, Error>(Error::StoreFailure(Violation::AmountOutOfRange)) && after == before
    } else {
        r == Ok::<T, Error>(outcome) && client_refreshed(changed, after, now, client_id)
    }
}

/// A client whose debt was brought up to date owes what its orders owe
/// together.
pub proof fn lemma_refreshed_debt_current(
    before: DatabaseView,
    after: DatabaseView,
    now: Timestamp,
    client_id: Seq<char>,
)
    requires
        client_refreshed(before, after, now, client_id),
        fits(debts_total(children_of(before.orders, client_id))),
    ensures
        debt_current(after, client_id),
        after.orders == before.orders,
{
    lemma_index_of(before.clients, client_id);
    if let Some(k) = index_of(before.clients, client_id) {
        lemma_replaced_index(before.clients, after.clients, k, client_id);
    }
}

/// What orders owe together depends on what each owes and on whose each
/// is, and on nothing else.
pub proof fn lemma_debts_total_same(a: Seq<Order>, b: Seq<Order>, client_id: Seq<char>)
    requires
        a.len() == b.len(),
        forall|j: int|
            0 <= j < a.len() ==> (#[trigger] a[j]).parent() == b[j].parent() && a[j].debt
                == b[j].debt,
    ensures
        debts_total(children_of(a, client_id)) == debts_total(children_of(b, client_id)),
    decreases a.len(),
{
    if a.len() == 0 {
        assert(a =~= b);
    } else {
        let fa = a.drop_last();
        let fb = b.drop_last();
        assert forall|j: int| 0 <= j < fa.len() implies (#[trigger] fa[j]).parent()
            == fb[j].parent() && fa[j].debt == fb[j].debt by {
            assert(a[j].parent() == b[j].parent() && a[j].debt == b[j].debt);
        }
        lemma_debts_total_same(fa, fb, client_id);
        assert(a =~= fa.push(a.last()));
        assert(b =~= fb.push(b.last()));
        fa.lemma_filter_push(a.last(), parent_is::<Order>(client_id));
        fb.lemma_filter_push(b.last(), parent_is::<Order>(client_id));
        let last = a.len() - 1;
        assert(a[last].parent() == b[last].parent() && a[last].debt == b[last].debt);
        if a.last().parent() == client_id {
            assert(children_of(fa, client_id).push(a.last()).drop_last() =~= children_of(
                fa,
                client_id,
            ));
            assert(children_of(fb, client_id).push(b.last()).drop_last() =~= children_of(
                fb,
                client_id,
            ));
        }
    }
}

/// The sum of debts is bounded by their number.
proof fn lemma_debts_total_bound(orders: Seq<Order>)
    ensures
        -0x8000_0000_0000_0000 * orders.len() <= debts_total(orders) <= 0x7fff_ffff_ffff_ffff
            * orders.len(),
    decreases orders.len(),
{
    if orders.len() > 0 {
        lemma_debts_total_bound(orders.drop_last());
    }
}

/// The sum of what `orders` owe, where it can be stored.
pub fn sum_debts(orders: &Vec<Order>) -> (sum: Option<i64>)
    ensures
        sum == if fits(debts_total(orders@)) {
            Some(debts_total(orders@) as i64)
        } else {
            None
        },
{
    let mut sum: i128 = 0;
    let mut i: usize = 0;
    while i < orders.len()
        invariant
            i <= orders.len(),
            sum == debts_total(orders@.take(i as int)),
        decreases orders.len() - i,
    {
        proof {
            lemma_debts_total_bound(orders@.take(i as int));
            assert(orders@.take(i + 1).drop_last() =~= orders@.take(i as int));
        }
        sum = sum + orders[i].debt as i128;
        i += 1;
    }
    proof {
        assert(orders@.take(orders.len() as int) =~= orders@);
    }
    if sum < i64::MIN as i128 || sum > i64::MAX as i128 {
        None
    } else {
        Some(sum as i64)
    }
}

impl ClientRepository {
    /// Creates a client at the instant `now` under the identity `id`.
    pub fn create_with(
        &self,
        db: &mut Database,
        id: String,
        now: Timestamp,
        name: String,
        nuit: String,
        contact: String,
        category: String,
        observations: String,
    ) -> (r: Result<Client, Error>)
        ensures
            creates_client(
                old(db)@,
                final(db)@,
                r,
                id@,
                now,
                name@,
                nuit@,
                contact@,
                category@,
                observations@,
            ),
            old(db)@.wf() ==> final(db)@.wf(),
    {
        let client = Client {
            id,
            name,
            nuit,
            contact,
            category,
            observations,
            debt: 0,
            created_at: now,
            updated_at: now,
        };
        let stored = client.duplicate();
        match db.insert_client(client) {
            Ok(()) => Ok(stored),
            Err(e) => Err(e),
        }
    }

    /// Creates a client now, under a fresh identity.
    pub fn create(
        &self,
        db: &mut Database,
        name: String,
        nuit: String,
        contact: String,
        category: String,
        observations: String,
    ) -> (r: Result<Client, Error>)
        ensures
            exists|id: Seq<char>, now: Timestamp|
                creates_client(
                    old(db)@,
                    final(db)@,
                    r,
                    id,
                    now,
                    name@,
                    nuit@,
                    contact@,
                    category@,
                    observations@,
                ),
            old(db)@.wf() ==> final(db)@.wf(),
    {
        let id = random_id();
        let now = clock_now();
        self.create_with(db, id, now, name, nuit, contact, category, observations)
    }

    /// The client `id`, if it is in the store.
    pub fn get_by_id(&self, db: &Database, id: &str) -> (r: Result<Option<Client>, Error>)
        ensures
            r == Ok::<Option<Client>, Error>(found(db@.clients, id@)),
    {
        Ok(find(db.clients(), &id.to_owned()))
    }

    /// All clients, latest first.
    pub fn list(&self, db: &Database) -> (r: Result<Vec<Client>, Error>)
        ensures
            r matches Ok(clients) && clients@ == descending(db@.clients),
    {
        Ok(sort_descending(db.clients()))
    }

    /// Changes the client `id` at the instant `now`.
    pub fn update_at(
        &self,
        db: &mut Database,
        now: Timestamp,
        id: &str,
        name: Option<String>,
        nuit: Option<String>,
        contact: Option<String>,
        category: Option<String>,
        observations: Option<String>,
    ) -> (r: Result<Option<Client>, Error>)
        ensures
            updates_client(
                old(db)@,
                final(db)@,
                r,
                now,
                id@,
                text_of(name),
                text_of(nuit),
                text_of(contact),
                text_of(category),
                text_of(observations),
            ),
            old(db)@.wf() ==> final(db)@.wf(),
    {
        let current = match find(db.clients(), &id.to_owned()) {
            Some(client) => client,
            None => {
                return Ok(None);
            },
        };
        let client = Client {
            id: current.id,
            name: name.unwrap_or(current.name),
            nuit: nuit.unwrap_or(current.nuit),
            contact: contact.unwrap_or(current.contact),
            category: category.unwrap_or(current.category),
            observations: observations.unwrap_or(current.observations),
            debt: current.debt,
            created_at: current.created_at,
            updated_at: now,
        };
        let stored = client.duplicate();
        proof {
            lemma_index_of(db@.clients, id@);
        }
        db.put_client(client);
        Ok(Some(stored))
    }

    /// Changes the client `id` now.
    pub fn update(
        &self,
        db: &mut Database,
        id: &str,
        name: Option<String>,
        nuit: Option<String>,
        contact: Option<String>,
        category: Option<String>,
        observations: Option<String>,
    ) -> (r: Result<Option<Client>, Error>)
        ensures
            exists|now: Timestamp|
                updates_client(
                    old(db)@,
                    final(db)@,
                    r,
                    now,
                    id@,
                    text_of(name),
                    text_of(nuit),
                    text_of(contact),
                    text_of(category),
                    text_of(observations),
                ),
            old(db)@.wf() ==> final(db)@.wf(),
    {
        let now = clock_now();
        self.update_at(db, now, id, name, nuit, contact, category, observations)
    }

    /// Deletes the client `id` with its orders and all that belongs to
    /// them. Returns whether there was such a client.
    pub fn delete(&self, db: &mut Database, id: &str) -> (r: Result<bool, Error>)
        ensures
            r == Ok::<bool, Error>(has_key(old(db)@.clients, id@)),
            final(db)@ == old(db)@.without_client(id@),
            old(db)@.wf() ==> final(db)@.wf(),
    {
        Ok(db.delete_client(&id.to_owned()))
    }

    /// Brings the debt of the client `client_id` up to date at the instant
    /// `now`. Returns whether there was such a client.
    pub fn update_client_debt_at(&self, db: &mut Database, now: Timestamp, client_id: &str) -> (r:
        Result<bool, Error>)
        ensures
            updates_client_debt(old(db)@, final(db)@, r, now, client_id@),
            old(db)@.wf() ==> final(db)@.wf(),
    {
        let key = client_id.to_owned();
        let orders = select_children(db.orders(), &key);
        let debt = match sum_debts(&orders) {
            Some(debt) => debt,
            None => {
                return Err(Error::StoreFailure(Violation::AmountOutOfRange));
            },
        };
        let current = match find(db.clients(), &key) {
            Some(client) => client,
            None => {
                return Ok(false);
            },
        };
        let client = Client { debt, updated_at: now, ..current };
        proof {
            lemma_index_of(db@.clients, client_id@);
        }
        Ok(db.put_client(client))
    }

    /// Brings the debt of the client `client_id` up to date now.
    pub fn update_client_debt(&self, db: &mut Database, client_id: &str) -> (r: Result<
        bool,
        Error,
    >)
        ensures
            exists|now: Timestamp| updates_client_debt(old(db)@, final(db)@, r, now, client_id@),
            old(db)@.wf() ==> final(db)@.wf(),
    {
        let now = clock_now();
        self.update_client_debt_at(db, now, client_id)
    }
}

} // verus!
