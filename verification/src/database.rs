//! The store: six tables, held in memory.
//!
//! A record is found by its identity. Orders belong to clients, impressions
//! and garment lines to orders, decoration services to garment lines; a
//! record is only stored if its parent is, and deleting a record deletes
//! what belongs to it.

use crate::error::{Entity, Error, Violation};
use crate::models::{Client, Clothes, ClothingService, Impression, Order, User};
use crate::table::{
    all_parented, children_of, contains_key, descendants_of, distinct_keys, has_key, index_of,
    lemma_cascade, lemma_cascade_children, lemma_cascade_descendants, lemma_index_of,
    lemma_parents_kept, lemma_push_distinct, lemma_push_has_key, lemma_push_parented,
    lemma_removal_distinct, lemma_removal_parented, lemma_update_keys, lemma_update_parented,
    lemma_without_key, position, remove_children, remove_descendants, remove_key, replace,
    select_children, select_descendants, without_children_of, without_descendants_of, without_key,
    Child, Record, Row,
};
use vstd::prelude::*;

verus! {

/// The store.
pub struct Database {
    users: Vec<User>,
    clients: Vec<Client>,
    orders: Vec<Order>,
    impressions: Vec<Impression>,
    clothes: Vec<Clothes>,
    clothing_services: Vec<ClothingService>,
}

/// The tables of a [`Database`], each in the order in which its records were
/// stored.
pub struct DatabaseView {
    pub users: Seq<User>,
    pub clients: Seq<Client>,
    pub orders: Seq<Order>,
    pub impressions: Seq<Impression>,
    pub clothes: Seq<Clothes>,
    pub clothing_services: Seq<ClothingService>,
}

/// Some user has the login `login`.
pub open spec fn has_login(users: Seq<User>, login: Seq<char>) -> bool {
    exists|i: int| 0 <= i < users.len() && #[trigger] users[i].login@ == login
}

/// No two users share a login.
pub open spec fn distinct_logins(users: Seq<User>) -> bool {
    forall|i: int, j: int|
        0 <= i < j < users.len() ==> #[trigger] users[i].login@ != #[trigger] users[j].login@
}

impl DatabaseView {
    /// The store without records.
    pub open spec fn empty() -> DatabaseView {
        DatabaseView {
            users: Seq::empty(),
            clients: Seq::empty(),
            orders: Seq::empty(),
            impressions: Seq::empty(),
            clothes: Seq::empty(),
            clothing_services: Seq::empty(),
        }
    }

    /// The constraints of the store: identities are not repeated within a
    /// table, logins are not repeated, and every record that belongs to
    /// another has that other in the store.
    pub open spec fn wf(self) -> bool {
        &&& distinct_keys(self.users)
        &&& distinct_logins(self.users)
        &&& distinct_keys(self.clients)
        &&& distinct_keys(self.orders)
        &&& distinct_keys(self.impressions)
        &&& distinct_keys(self.clothes)
        &&& distinct_keys(self.clothing_services)
        &&& all_parented(self.orders, self.clients)
        &&& all_parented(self.impressions, self.orders)
        &&& all_parented(self.clothes, self.orders)
        &&& all_parented(self.clothing_services, self.clothes)
    }

    /// The store with a user added: refused where the identity or the login
    /// is taken.
    pub open spec fn with_user(self, row: User) -> Result<DatabaseView, Error> {
        if has_key(self.users, row.key()) {
            Err(Error::StoreFailure(Violation::DuplicateKey(Entity::User)))
        } else if has_login(self.users, row.login@) {
            Err(Error::StoreFailure(Violation::DuplicateLogin))
        } else {
            Ok(DatabaseView { users: self.users.push(row), ..self })
        }
    }

    /// The store with `rows` added one after the other, up to the first
    /// that is refused.
    pub open spec fn with_users(self, rows: Seq<User>) -> Result<DatabaseView, Error>
        decreases rows.len(),
    {
        if rows.len() == 0 {
            Ok(self)
        } else {
            match self.with_users(rows.drop_last()) {
                Ok(front) => front.with_user(rows.last()),
                Err(e) => Err(e),
            }
        }
    }

    /// The store with a client added: refused where the identity is taken.
    pub open spec fn with_client(self, row: Client) -> Result<DatabaseView, Error> {
        if has_key(self.clients, row.key()) {
            Err(Error::StoreFailure(Violation::DuplicateKey(Entity::Client)))
        } else {
            Ok(DatabaseView { clients: self.clients.push(row), ..self })
        }
    }

    /// The store with `rows` added one after the other, up to the first
    /// that is refused.
    pub open spec fn with_clients(self, rows: Seq<Client>) -> Result<DatabaseView, Error>
        decreases rows.len(),
    {
        if rows.len() == 0 {
            Ok(self)
        } else {
            match self.with_clients(rows.drop_last()) {
                Ok(front) => front.with_client(rows.last()),
                Err(e) => Err(e),
            }
        }
    }

    /// The store with an order added: refused where the identity is taken
    /// or the parent is not in the store.
    pub open spec fn with_order(self, row: Order) -> Result<DatabaseView, Error> {
        if has_key(self.orders, row.key()) {
            Err(Error::StoreFailure(Violation::DuplicateKey(Entity::Order)))
        } else if !has_key(self.clients, row.parent()) {
            Err(Error::StoreFailure(Violation::MissingParent(Entity::Order)))
        } else {
            Ok(DatabaseView { orders: self.orders.push(row), ..self })
        }
    }

    /// The store with `rows` added one after the other, up to the first
    /// that is refused.
    pub open spec fn with_orders(self, rows: Seq<Order>) -> Result<DatabaseView, Error>
        decreases rows.len(),
    {
        if rows.len() == 0 {
            Ok(self)
        } else {
            match self.with_orders(rows.drop_last()) {
                Ok(front) => front.with_order(rows.last()),
                Err(e) => Err(e),
            }
        }
    }

    /// The store with an impression added: refused where the identity is taken
    /// or the parent is not in the store.
    pub open spec fn with_impression(self, row: Impression) -> Result<DatabaseView, Error> {
        if has_key(self.impressions, row.key()) {
            Err(Error::StoreFailure(Violation::DuplicateKey(Entity::Impression)))
        } else if !has_key(self.orders, row.parent()) {
            Err(Error::StoreFailure(Violation::MissingParent(Entity::Impression)))
        } else {
            Ok(DatabaseView { impressions: self.impressions.push(row), ..self })
        }
    }

    /// The store with `rows` added one after the other, up to the first
    /// that is refused.
    pub open spec fn with_impressions(self, rows: Seq<Impression>) -> Result<DatabaseView, Error>
        decreases rows.len(),
    {
        if rows.len() == 0 {
            Ok(self)
        } else {
            match self.with_impressions(rows.drop_last()) {
                Ok(front) => front.with_impression(rows.last()),
                Err(e) => Err(e),
            }
        }
    }

    /// The store with a garment line added: refused where the identity is taken
    /// or the parent is not in the store.
    pub open spec fn with_clothes(self, row: Clothes) -> Result<DatabaseView, Error> {
        if has_key(self.clothes, row.key()) {
            Err(Error::StoreFailure(Violation::DuplicateKey(Entity::Clothes)))
        } else if !has_key(self.orders, row.parent()) {
            Err(Error::StoreFailure(Violation::MissingParent(Entity::Clothes)))
        } else {
            Ok(DatabaseView { clothes: self.clothes.push(row), ..self })
        }
    }

    /// The store with `rows` added one after the other, up to the first
    /// that is refused.
    pub open spec fn with_clothes_rows(self, rows: Seq<Clothes>) -> Result<DatabaseView, Error>
        decreases rows.len(),
    {
        if rows.len() == 0 {
            Ok(self)
        } else {
            match self.with_clothes_rows(rows.drop_last()) {
                Ok(front) => front.with_clothes(rows.last()),
                Err(e) => Err(e),
            }
        }
    }

    /// The store with a decoration service added: refused where the identity is taken
    /// or the parent is not in the store.
    pub open spec fn with_clothing_service(
        self,
        row: ClothingService,
    ) -> Result<DatabaseView, Error> {
        if has_key(self.clothing_services, row.key()) {
            Err(Error::StoreFailure(Violation::DuplicateKey(Entity::ClothingService)))
        } else if !has_key(self.clothes, row.parent()) {
            Err(Error::StoreFailure(Violation::MissingParent(Entity::ClothingService)))
        } else {
            Ok(DatabaseView { clothing_services: self.clothing_services.push(row), ..self })
        }
    }

    /// The store with `rows` added one after the other, up to the first
    /// that is refused.
    pub open spec fn with_clothing_services(
        self,
        rows: Seq<ClothingService>,
    ) -> Result<DatabaseView, Error>
        decreases rows.len(),
    {
        if rows.len() == 0 {
            Ok(self)
        } else {
            match self.with_clothing_services(rows.drop_last()) {
                Ok(front) => front.with_clothing_service(rows.last()),
                Err(e) => Err(e),
            }
        }
    }

    /// The store that holds the given records and no others, filled table
    /// by table, parents before what belongs to them; or the first refusal.
    pub open spec fn loaded(
        users: Seq<User>,
        clients: Seq<Client>,
        orders: Seq<Order>,
        impressions: Seq<Impression>,
        clothes: Seq<Clothes>,
        clothing_services: Seq<ClothingService>,
    ) -> Result<DatabaseView, Error> {
        match DatabaseView::empty().with_users(users) {
            Err(e) => Err(e),
            Ok(a) => match a.with_clients(clients) {
                Err(e) => Err(e),
                Ok(b) => match b.with_orders(orders) {
                    Err(e) => Err(e),
                    Ok(c) => match c.with_impressions(impressions) {
                        Err(e) => Err(e),
                        Ok(d) => match d.with_clothes_rows(clothes) {
                            Err(e) => Err(e),
                            Ok(f) => f.with_clothing_services(clothing_services),
                        },
                    },
                },
            },
        }
    }

    /// The store after the client `id` was deleted, with the client's
    /// orders and all that belongs to them.
    pub open spec fn without_client(self, id: Seq<char>) -> DatabaseView {
        let orders_gone = children_of(self.orders, id);
        let clothes_gone = descendants_of(self.clothes, orders_gone);
        DatabaseView {
            users: self.users,
            clients: without_key(self.clients, id),
            orders: without_children_of(self.orders, id),
            impressions: without_descendants_of(self.impressions, orders_gone),
            clothes: without_descendants_of(self.clothes, orders_gone),
            clothing_services: without_descendants_of(self.clothing_services, clothes_gone),
        }
    }

    /// The store after the order `id` was deleted, with its impressions,
    /// its garment lines and their services.
    pub open spec fn without_order(self, id: Seq<char>) -> DatabaseView {
        let clothes_gone = children_of(self.clothes, id);
        DatabaseView {
            orders: without_key(self.orders, id),
            impressions: without_children_of(self.impressions, id),
            clothes: without_children_of(self.clothes, id),
            clothing_services: without_descendants_of(self.clothing_services, clothes_gone),
            ..self
        }
    }

    /// The store after the garment line `id` was deleted, with its
    /// services.
    pub open spec fn without_clothes(self, id: Seq<char>) -> DatabaseView {
        DatabaseView {
            clothes: without_key(self.clothes, id),
            clothing_services: without_children_of(self.clothing_services, id),
            ..self
        }
    }
}

impl DatabaseView {
    /// A refusal among the first rows is the refusal of them all.
    pub proof fn lemma_with_users_fails(self, rows: Seq<User>, n: int)
        requires
            0 <= n <= rows.len(),
            self.with_users(rows.take(n)) is Err,
        ensures
            self.with_users(rows) == self.with_users(rows.take(n)),
        decreases rows.len() - n,
    {
        if n < rows.len() {
            assert(rows.take(n + 1).drop_last() =~= rows.take(n));
            self.lemma_with_users_fails(rows, n + 1);
        } else {
            assert(rows.take(n) =~= rows);
        }
    }

    /// A refusal among the first rows is the refusal of them all.
    pub proof fn lemma_with_clients_fails(self, rows: Seq<Client>, n: int)
        requires
            0 <= n <= rows.len(),
            self.with_clients(rows.take(n)) is Err,
        ensures
            self.with_clients(rows) == self.with_clients(rows.take(n)),
        decreases rows.len() - n,
    {
        if n < rows.len() {
            assert(rows.take(n + 1).drop_last() =~= rows.take(n));
            self.lemma_with_clients_fails(rows, n + 1);
        } else {
            assert(rows.take(n) =~= rows);
        }
    }

    /// A refusal among the first rows is the refusal of them all.
    pub proof fn lemma_with_orders_fails(self, rows: Seq<Order>, n: int)
        requires
            0 <= n <= rows.len(),
            self.with_orders(rows.take(n)) is Err,
        ensures
            self.with_orders(rows) == self.with_orders(rows.take(n)),
        decreases rows.len() - n,
    {
        if n < rows.len() {
            assert(rows.take(n + 1).drop_last() =~= rows.take(n));
            self.lemma_with_orders_fails(rows, n + 1);
        } else {
            assert(rows.take(n) =~= rows);
        }
    }

    /// A refusal among the first rows is the refusal of them all.
    pub proof fn lemma_with_impressions_fails(self, rows: Seq<Impression>, n: int)
        requires
            0 <= n <= rows.len(),
            self.with_impressions(rows.take(n)) is Err,
        ensures
            self.with_impressions(rows) == self.with_impressions(rows.take(n)),
        decreases rows.len() - n,
    {
        if n < rows.len() {
            assert(rows.take(n + 1).drop_last() =~= rows.take(n));
            self.lemma_with_impressions_fails(rows, n + 1);
        } else {
            assert(rows.take(n) =~= rows);
        }
    }

    /// A refusal among the first rows is the refusal of them all.
    pub proof fn lemma_with_clothes_rows_fails(self, rows: Seq<Clothes>, n: int)
        requires
            0 <= n <= rows.len(),
            self.with_clothes_rows(rows.take(n)) is Err,
        ensures
            self.with_clothes_rows(rows) == self.with_clothes_rows(rows.take(n)),
        decreases rows.len() - n,
    {
        if n < rows.len() {
            assert(rows.take(n + 1).drop_last() =~= rows.take(n));
            self.lemma_with_clothes_rows_fails(rows, n + 1);
        } else {
            assert(rows.take(n) =~= rows);
        }
    }

    /// A refusal among the first rows is the refusal of them all.
    pub proof fn lemma_with_clothing_services_fails(self, rows: Seq<ClothingService>, n: int)
        requires
            0 <= n <= rows.len(),
            self.with_clothing_services(rows.take(n)) is Err,
        ensures
            self.with_clothing_services(rows) == self.with_clothing_services(rows.take(n)),
        decreases rows.len() - n,
    {
        if n < rows.len() {
            assert(rows.take(n + 1).drop_last() =~= rows.take(n));
            self.lemma_with_clothing_services_fails(rows, n + 1);
        } else {
            assert(rows.take(n) =~= rows);
        }
    }
}

impl View for Database {
    type V = DatabaseView;

    closed spec fn view(&self) -> DatabaseView {
        DatabaseView {
            users: self.users@,
            clients: self.clients@,
            orders: self.orders@,
            impressions: self.impressions@,
            clothes: self.clothes@,
            clothing_services: self.clothing_services@,
        }
    }
}

/// Whether some user has the login `login`.
pub fn login_taken(users: &Vec<User>, login: &String) -> (taken: bool)
    ensures
        taken == has_login(users@, login@),
{
    let mut i: usize = 0;
    while i < users.len()
        invariant
            i <= users.len(),
            forall|j: int| 0 <= j < i ==> #[trigger] users[j].login@ != login@,
        decreases users.len() - i,
    {
        if users[i].login == *login {
            return true;
        }
        i += 1;
    }
    false
}

impl Database {
    /// A store without records.
    pub fn new() -> (db: Database)
        ensures
            db@ == DatabaseView::empty(),
            db@.wf(),
    {
        Database {
            users: Vec::new(),
            clients: Vec::new(),
            orders: Vec::new(),
            impressions: Vec::new(),
            clothes: Vec::new(),
            clothing_services: Vec::new(),
        }
    }

    pub fn users(&self) -> (rows: &Vec<User>)
        ensures
            rows@ == self@.users,
    {
        &self.users
    }

    pub fn clients(&self) -> (rows: &Vec<Client>)
        ensures
            rows@ == self@.clients,
    {
        &self.clients
    }

    pub fn orders(&self) -> (rows: &Vec<Order>)
        ensures
            rows@ == self@.orders,
    {
        &self.orders
    }

    pub fn impressions(&self) -> (rows: &Vec<Impression>)
        ensures
            rows@ == self@.impressions,
    {
        &self.impressions
    }

    pub fn clothes(&self) -> (rows: &Vec<Clothes>)
        ensures
            rows@ == self@.clothes,
    {
        &self.clothes
    }

    pub fn clothing_services(&self) -> (rows: &Vec<ClothingService>)
        ensures
            rows@ == self@.clothing_services,
    {
        &self.clothing_services
    }

    /// Removes every record.
    pub fn clear(&mut self)
        ensures
            final(self)@ == DatabaseView::empty(),
            final(self)@.wf(),
    {
        self.clothing_services.clear();
        self.clothes.clear();
        self.impressions.clear();
        self.orders.clear();
        self.clients.clear();
        self.users.clear();
    }

    /// Stores a user, unless its identity or its login is taken.
    pub fn insert_user(&mut self, row: User) -> (r: Result<(), Error>)
        ensures
            match old(self)@.with_user(row) {
                Ok(after) => r is Ok && final(self)@ == after,
                Err(e) => r == Err::<(), Error>(e) && final(self)@ == old(self)@,
            },
            old(self)@.wf() ==> final(self)@.wf(),
    {
        if contains_key(&self.users, &row.id) {
            return Err(Error::StoreFailure(Violation::DuplicateKey(Entity::User)));
        }
        if login_taken(&self.users, &row.login) {
            return Err(Error::StoreFailure(Violation::DuplicateLogin));
        }
        proof {
            let before = self.users@;
            let after = before.push(row);
            if distinct_keys(before) {
                lemma_push_distinct(before, row);
            }
            if distinct_logins(before) {
                assert forall|i: int, j: int| 0 <= i < j < after.len() implies (
                #[trigger] after[i]).login@ != (#[trigger] after[j]).login@ by {
                    if j < before.len() {
                        assert(before[i].login@ != before[j].login@);
                    } else {
                        assert(after[i] == before[i]);
                    }
                }
            }
        }
        self.users.push(row);
        Ok(())
    }

    /// Stores a client, unless its identity is taken.
    pub fn insert_client(&mut self, row: Client) -> (r: Result<(), Error>)
        ensures
            match old(self)@.with_client(row) {
                Ok(after) => r is Ok && final(self)@ == after,
                Err(e) => r == Err::<(), Error>(e) && final(self)@ == old(self)@,
            },
            old(self)@.wf() ==> final(self)@.wf(),
    {
        if contains_key(&self.clients, &row.id) {
            return Err(Error::StoreFailure(Violation::DuplicateKey(Entity::Client)));
        }
        proof {
            if self@.wf() {
                lemma_push_distinct(self.clients@, row);
                lemma_push_has_key(self.clients@, row);
                lemma_parents_kept(self.orders@, self.clients@, self.clients@.push(row));
            }
        }
        self.clients.push(row);
        Ok(())
    }

    /// Stores an order, unless its identity is taken or its client is not
    /// in the store.
    pub fn insert_order(&mut self, row: Order) -> (r: Result<(), Error>)
        ensures
            match old(self)@.with_order(row) {
                Ok(after) => r is Ok && final(self)@ == after,
                Err(e) => r == Err::<(), Error>(e) && final(self)@ == old(self)@,
            },
            old(self)@.wf() ==> final(self)@.wf(),
    {
        if contains_key(&self.orders, &row.id) {
            return Err(Error::StoreFailure(Violation::DuplicateKey(Entity::Order)));
        }
        if !contains_key(&self.clients, &row.client_id) {
            return Err(Error::StoreFailure(Violation::MissingParent(Entity::Order)));
        }
        proof {
            if self@.wf() {
                lemma_push_distinct(self.orders@, row);
                lemma_push_has_key(self.orders@, row);
                lemma_push_parented(self.orders@, row, self.clients@);
                lemma_parents_kept(self.impressions@, self.orders@, self.orders@.push(row));
                lemma_parents_kept(self.clothes@, self.orders@, self.orders@.push(row));
            }
        }
        self.orders.push(row);
        Ok(())
    }

    /// Stores an impression, unless its identity is taken or its order is
    /// not in the store.
    pub fn insert_impression(&mut self, row: Impression) -> (r: Result<(), Error>)
        ensures
            match old(self)@.with_impression(row) {
                Ok(after) => r is Ok && final(self)@ == after,
                Err(e) => r == Err::<(), Error>(e) && final(self)@ == old(self)@,
            },
            old(self)@.wf() ==> final(self)@.wf(),
    {
        if contains_key(&self.impressions, &row.id) {
            return Err(Error::StoreFailure(Violation::DuplicateKey(Entity::Impression)));
        }
        if !contains_key(&self.orders, &row.order_id) {
            return Err(Error::StoreFailure(Violation::MissingParent(Entity::Impression)));
        }
        proof {
            if self@.wf() {
                lemma_push_distinct(self.impressions@, row);
                lemma_push_parented(self.impressions@, row, self.orders@);
            }
        }
        self.impressions.push(row);
        Ok(())
    }

    /// Stores a garment line, unless its identity is taken or its order is
    /// not in the store.
    pub fn insert_clothes(&mut self, row: Clothes) -> (r: Result<(), Error>)
        ensures
            match old(self)@.with_clothes(row) {
                Ok(after) => r is Ok && final(self)@ == after,
                Err(e) => r == Err::<(), Error>(e) && final(self)@ == old(self)@,
            },
            old(self)@.wf() ==> final(self)@.wf(),
    {
        if contains_key(&self.clothes, &row.id) {
            return Err(Error::StoreFailure(Violation::DuplicateKey(Entity::Clothes)));
        }
        if !contains_key(&self.orders, &row.order_id) {
            return Err(Error::StoreFailure(Violation::MissingParent(Entity::Clothes)));
        }
        proof {
            if self@.wf() {
                lemma_push_distinct(self.clothes@, row);
                lemma_push_has_key(self.clothes@, row);
                lemma_push_parented(self.clothes@, row, self.orders@);
                lemma_parents_kept(
                    self.clothing_services@,
                    self.clothes@,
                    self.clothes@.push(row),
                );
            }
        }
        self.clothes.push(row);
        Ok(())
    }

    /// Stores a decoration service, unless its identity is taken or its
    /// garment line is not in the store.
    pub fn insert_clothing_service(&mut self, row: ClothingService) -> (r: Result<(), Error>)
        ensures
            match old(self)@.with_clothing_service(row) {
                Ok(after) => r is Ok && final(self)@ == after,
                Err(e) => r == Err::<(), Error>(e) && final(self)@ == old(self)@,
            },
            old(self)@.wf() ==> final(self)@.wf(),
    {
        if contains_key(&self.clothing_services, &row.id) {
            return Err(Error::StoreFailure(Violation::DuplicateKey(Entity::ClothingService)));
        }
        if !contains_key(&self.clothes, &row.clothes_id) {
            return Err(Error::StoreFailure(Violation::MissingParent(Entity::ClothingService)));
        }
        proof {
            if self@.wf() {
                lemma_push_distinct(self.clothing_services@, row);
                lemma_push_parented(self.clothing_services@, row, self.clothes@);
            }
        }
        self.clothing_services.push(row);
        Ok(())
    }
    /// Stores copies of `rows` one after the other, up to the first that
    /// is refused.
    fn fill_users(&mut self, rows: &Vec<User>) -> (r: Result<(), Error>)
        ensures
            match old(self)@.with_users(rows@) {
                Ok(after) => r is Ok && final(self)@ == after,
                Err(e) => r == Err::<(), Error>(e),
            },
            old(self)@.wf() ==> final(self)@.wf(),
    {
        let mut i: usize = 0;
        assert(rows@.take(0) =~= Seq::<User>::empty());
        while i < rows.len()
            invariant
                i <= rows.len(),
                old(self)@.with_users(rows@.take(i as int)) == Ok::<DatabaseView, Error>(
                    self@,
                ),
                old(self)@.wf() ==> self@.wf(),
            decreases rows.len() - i,
        {
            proof {
                assert(rows@.take(i + 1).drop_last() =~= rows@.take(i as int));
                assert(rows@.take(i + 1).last() == rows[i as int]);
            }
            match self.insert_user(rows[i].duplicate()) {
                Ok(()) => {},
                Err(e) => {
                    proof {
                        old(self)@.lemma_with_users_fails(rows@, i + 1);
                    }
                    return Err(e);
                },
            }
            i += 1;
        }
        assert(rows@.take(rows.len() as int) =~= rows@);
        Ok(())
    }

    /// Stores copies of `rows` one after the other, up to the first that
    /// is refused.
    fn fill_clients(&mut self, rows: &Vec<Client>) -> (r: Result<(), Error>)
        ensures
            match old(self)@.with_clients(rows@) {
                Ok(after) => r is Ok && final(self)@ == after,
                Err(e) => r == Err::<(), Error>(e),
            },
            old(self)@.wf() ==> final(self)@.wf(),
    {
        let mut i: usize = 0;
        assert(rows@.take(0) =~= Seq::<Client>::empty());
        while i < rows.len()
            invariant
                i <= rows.len(),
                old(self)@.with_clients(rows@.take(i as int)) == Ok::<DatabaseView, Error>(
                    self@,
                ),
                old(self)@.wf() ==> self@.wf(),
            decreases rows.len() - i,
        {
            proof {
                assert(rows@.take(i + 1).drop_last() =~= rows@.take(i as int));
                assert(rows@.take(i + 1).last() == rows[i as int]);
            }
            match self.insert_client(rows[i].duplicate()) {
                Ok(()) => {},
                Err(e) => {
                    proof {
                        old(self)@.lemma_with_clients_fails(rows@, i + 1);
                    }
                    return Err(e);
                },
            }
            i += 1;
        }
        assert(rows@.take(rows.len() as int) =~= rows@);
        Ok(())
    }

    /// Stores copies of `rows` one after the other, up to the first that
    /// is refused.
    fn fill_orders(&mut self, rows: &Vec<Order>) -> (r: Result<(), Error>)
        ensures
            match old(self)@.with_orders(rows@) {
                Ok(after) => r is Ok && final(self)@ == after,
                Err(e) => r == Err::<(), Error>(e),
            },
            old(self)@.wf() ==> final(self)@.wf(),
    {
        let mut i: usize = 0;
        assert(rows@.take(0) =~= Seq::<Order>::empty());
        while i < rows.len()
            invariant
                i <= rows.len(),
                old(self)@.with_orders(rows@.take(i as int)) == Ok::<DatabaseView, Error>(
                    self@,
                ),
                old(self)@.wf() ==> self@.wf(),
            decreases rows.len() - i,
        {
            proof {
                assert(rows@.take(i + 1).drop_last() =~= rows@.take(i as int));
                assert(rows@.take(i + 1).last() == rows[i as int]);
            }
            match self.insert_order(rows[i].duplicate()) {
                Ok(()) => {},
                Err(e) => {
                    proof {
                        old(self)@.lemma_with_orders_fails(rows@, i + 1);
                    }
                    return Err(e);
                },
            }
            i += 1;
        }
        assert(rows@.take(rows.len() as int) =~= rows@);
        Ok(())
    }

    /// Stores copies of `rows` one after the other, up to the first that
    /// is refused.
    fn fill_impressions(&mut self, rows: &Vec<Impression>) -> (r: Result<(), Error>)
        ensures
            match old(self)@.with_impressions(rows@) {
                Ok(after) => r is Ok && final(self)@ == after,
                Err(e) => r == Err::<(), Error>(e),
            },
            old(self)@.wf() ==> final(self)@.wf(),
    {
        let mut i: usize = 0;
        assert(rows@.take(0) =~= Seq::<Impression>::empty());
        while i < rows.len()
            invariant
                i <= rows.len(),
                old(self)@.with_impressions(rows@.take(i as int)) == Ok::<DatabaseView, Error>(
                    self@,
                ),
                old(self)@.wf() ==> self@.wf(),
            decreases rows.len() - i,
        {
            proof {
                assert(rows@.take(i + 1).drop_last() =~= rows@.take(i as int));
                assert(rows@.take(i + 1).last() == rows[i as int]);
            }
            match self.insert_impression(rows[i].duplicate()) {
                Ok(()) => {},
                Err(e) => {
                    proof {
                        old(self)@.lemma_with_impressions_fails(rows@, i + 1);
                    }
                    return Err(e);
                },
            }
            i += 1;
        }
        assert(rows@.take(rows.len() as int) =~= rows@);
        Ok(())
    }

    /// Stores copies of `rows` one after the other, up to the first that
    /// is refused.
    fn fill_clothes_rows(&mut self, rows: &Vec<Clothes>) -> (r: Result<(), Error>)
        ensures
            match old(self)@.with_clothes_rows(rows@) {
                Ok(after) => r is Ok && final(self)@ == after,
                Err(e) => r == Err::<(), Error>(e),
            },
            old(self)@.wf() ==> final(self)@.wf(),
    {
        let mut i: usize = 0;
        assert(rows@.take(0) =~= Seq::<Clothes>::empty());
        while i < rows.len()
            invariant
                i <= rows.len(),
                old(self)@.with_clothes_rows(rows@.take(i as int)) == Ok::<DatabaseView, Error>(
                    self@,
                ),
                old(self)@.wf() ==> self@.wf(),
            decreases rows.len() - i,
        {
            proof {
                assert(rows@.take(i + 1).drop_last() =~= rows@.take(i as int));
                assert(rows@.take(i + 1).last() == rows[i as int]);
            }
            match self.insert_clothes(rows[i].duplicate()) {
                Ok(()) => {},
                Err(e) => {
                    proof {
                        old(self)@.lemma_with_clothes_rows_fails(rows@, i + 1);
                    }
                    return Err(e);
                },
            }
            i += 1;
        }
        assert(rows@.take(rows.len() as int) =~= rows@);
        Ok(())
    }

    /// Stores copies of `rows` one after the other, up to the first that
    /// is refused.
    fn fill_clothing_services(&mut self, rows: &Vec<ClothingService>) -> (r: Result<(), Error>)
        ensures
            match old(self)@.with_clothing_services(rows@) {
                Ok(after) => r is Ok && final(self)@ == after,
                Err(e) => r == Err::<(), Error>(e),
            },
            old(self)@.wf() ==> final(self)@.wf(),
    {
        let mut i: usize = 0;
        assert(rows@.take(0) =~= Seq::<ClothingService>::empty());
        while i < rows.len()
            invariant
                i <= rows.len(),
                old(self)@.with_clothing_services(rows@.take(i as int)) == Ok::<
                    DatabaseView,
                    Error,
                >(self@),
                old(self)@.wf() ==> self@.wf(),
            decreases rows.len() - i,
        {
            proof {
                assert(rows@.take(i + 1).drop_last() =~= rows@.take(i as int));
                assert(rows@.take(i + 1).last() == rows[i as int]);
            }
            match self.insert_clothing_service(rows[i].duplicate()) {
                Ok(()) => {},
                Err(e) => {
                    proof {
                        old(self)@.lemma_with_clothing_services_fails(rows@, i + 1);
                    }
                    return Err(e);
                },
            }
            i += 1;
        }
        assert(rows@.take(rows.len() as int) =~= rows@);
        Ok(())
    }

    /// The store that holds copies of the given records and no others. It
    /// is filled table by table, parents before what belongs to them, so a
    /// record may stand anywhere in its table.
    pub fn from_rows(
        users: &Vec<User>,
        clients: &Vec<Client>,
        orders: &Vec<Order>,
        impressions: &Vec<Impression>,
        clothes: &Vec<Clothes>,
        clothing_services: &Vec<ClothingService>,
    ) -> (r: Result<Database, Error>)
        ensures
            match DatabaseView::loaded(
                users@,
                clients@,
                orders@,
                impressions@,
                clothes@,
                clothing_services@,
            ) {
                Ok(after) => r matches Ok(db) && db@ == after && after.wf(),
                Err(e) => r matches Err(f) && f == e,
            },
    {
        let mut db = Database::new();
        if let Err(e) = db.fill_users(users) {
            return Err(e);
        }
        if let Err(e) = db.fill_clients(clients) {
            return Err(e);
        }
        if let Err(e) = db.fill_orders(orders) {
            return Err(e);
        }
        if let Err(e) = db.fill_impressions(impressions) {
            return Err(e);
        }
        if let Err(e) = db.fill_clothes_rows(clothes) {
            return Err(e);
        }
        if let Err(e) = db.fill_clothing_services(clothing_services) {
            return Err(e);
        }
        Ok(db)
    }

    /// Puts `row` in the place of the client with its identity. Returns
    /// whether there was one.
    pub fn put_client(&mut self, row: Client) -> (found: bool)
        ensures
            match index_of(old(self)@.clients, row.key()) {
                Some(i) => found && final(self)@ == (DatabaseView {
                    clients: old(self)@.clients.update(i, row),
                    ..old(self)@
                }),
                None => !found && final(self)@ == old(self)@,
            },
            old(self)@.wf() ==> final(self)@.wf(),
    {
        proof {
            lemma_index_of(self.clients@, row.key());
            if let Some(i) = index_of(self.clients@, row.key()) {
                lemma_update_keys(self.clients@, i, row);
                if self@.wf() {
                    lemma_parents_kept(self.orders@, self.clients@, self.clients@.update(i, row));
                }
            }
        }
        replace(&mut self.clients, row)
    }

    /// Puts `row` in the place of the order with its identity. A row
    /// that moves to another client is refused where that client is not in the
    /// store. Returns whether there was such a record.
    pub fn put_order(&mut self, row: Order) -> (r: Result<bool, Error>)
        ensures
            match index_of(old(self)@.orders, row.key()) {
                Some(i) => if row.parent() == old(self)@.orders[i].parent() || has_key(
                    old(self)@.clients,
                    row.parent(),
                ) {
                    r == Ok::<bool, Error>(true) && final(self)@ == (DatabaseView {
                        orders: old(self)@.orders.update(i, row),
                        ..old(self)@
                    })
                } else {
                    r == Err::<bool, Error>(
                        Error::StoreFailure(Violation::MissingParent(Entity::Order)),
                    ) && final(self)@ == old(self)@
                },
                None => r == Ok::<bool, Error>(false) && final(self)@ == old(self)@,
            },
            old(self)@.wf() ==> final(self)@.wf(),
    {
        proof {
            lemma_index_of(self.orders@, row.key());
        }
        let at = match position(&self.orders, &row.id) {
            Some(at) => at,
            None => {
                return Ok(false);
            },
        };
        if !(self.orders[at].client_id == row.client_id)
            && !contains_key(&self.clients, &row.client_id)
        {
            return Err(Error::StoreFailure(Violation::MissingParent(Entity::Order)));
        }
        proof {
            let i = at as int;
            lemma_update_keys(self.orders@, i, row);
            if self@.wf() {
                assert(has_key(self.clients@, self.orders@[i].parent()));
                lemma_update_parented(self.orders@, i, row, self.clients@);
                lemma_parents_kept(self.impressions@, self.orders@, self.orders@.update(i, row));
                lemma_parents_kept(self.clothes@, self.orders@, self.orders@.update(i, row));
            }
        }
        self.orders.set(at, row);
        Ok(true)
    }

    /// Puts `row` in the place of the impression with its identity. A row
    /// that moves to another order is refused where that order is not in the
    /// store. Returns whether there was such a record.
    pub fn put_impression(&mut self, row: Impression) -> (r: Result<bool, Error>)
        ensures
            match index_of(old(self)@.impressions, row.key()) {
                Some(i) => if row.parent() == old(self)@.impressions[i].parent() || has_key(
                    old(self)@.orders,
                    row.parent(),
                ) {
                    r == Ok::<bool, Error>(true) && final(self)@ == (DatabaseView {
                        impressions: old(self)@.impressions.update(i, row),
                        ..old(self)@
                    })
                } else {
                    r == Err::<bool, Error>(
                        Error::StoreFailure(Violation::MissingParent(Entity::Impression)),
                    ) && final(self)@ == old(self)@
                },
                None => r == Ok::<bool, Error>(false) && final(self)@ == old(self)@,
            },
            old(self)@.wf() ==> final(self)@.wf(),
    {
        proof {
            lemma_index_of(self.impressions@, row.key());
        }
        let at = match position(&self.impressions, &row.id) {
            Some(at) => at,
            None => {
                return Ok(false);
            },
        };
        if !(self.impressions[at].order_id == row.order_id)
            && !contains_key(&self.orders, &row.order_id)
        {
            return Err(Error::StoreFailure(Violation::MissingParent(Entity::Impression)));
        }
        proof {
            let i = at as int;
            lemma_update_keys(self.impressions@, i, row);
            if self@.wf() {
                assert(has_key(self.orders@, self.impressions@[i].parent()));
                lemma_update_parented(self.impressions@, i, row, self.orders@);
            }
        }
        self.impressions.set(at, row);
        Ok(true)
    }

    /// Puts `row` in the place of the garment line with its identity. A row
    /// that moves to another order is refused where that order is not in the
    /// store. Returns whether there was such a record.
    pub fn put_clothes(&mut self, row: Clothes) -> (r: Result<bool, Error>)
        ensures
            match index_of(old(self)@.clothes, row.key()) {
                Some(i) => if row.parent() == old(self)@.clothes[i].parent() || has_key(
                    old(self)@.orders,
                    row.parent(),
                ) {
                    r == Ok::<bool, Error>(true) && final(self)@ == (DatabaseView {
                        clothes: old(self)@.clothes.update(i, row),
                        ..old(self)@
                    })
                } else {
                    r == Err::<bool, Error>(
                        Error::StoreFailure(Violation::MissingParent(Entity::Clothes)),
                    ) && final(self)@ == old(self)@
                },
                None => r == Ok::<bool, Error>(false) && final(self)@ == old(self)@,
            },
            old(self)@.wf() ==> final(self)@.wf(),
    {
        proof {
            lemma_index_of(self.clothes@, row.key());
        }
        let at = match position(&self.clothes, &row.id) {
            Some(at) => at,
            None => {
                return Ok(false);
            },
        };
        if !(self.clothes[at].order_id == row.order_id)
            && !contains_key(&self.orders, &row.order_id)
        {
            return Err(Error::StoreFailure(Violation::MissingParent(Entity::Clothes)));
        }
        proof {
            let i = at as int;
            lemma_update_keys(self.clothes@, i, row);
            if self@.wf() {
                assert(has_key(self.orders@, self.clothes@[i].parent()));
                lemma_update_parented(self.clothes@, i, row, self.orders@);
                lemma_parents_kept(
                    self.clothing_services@,
                    self.clothes@,
                    self.clothes@.update(i, row),
                );
            }
        }
        self.clothes.set(at, row);
        Ok(true)
    }

    /// Puts `row` in the place of the decoration service with its identity. A row
    /// that moves to another garment line is refused where that garment line is not in the
    /// store. Returns whether there was such a record.
    pub fn put_clothing_service(&mut self, row: ClothingService) -> (r: Result<bool, Error>)
        ensures
            match index_of(old(self)@.clothing_services, row.key()) {
                Some(i) => if row.parent() == old(self)@.clothing_services[i].parent() || has_key(
                    old(self)@.clothes,
                    row.parent(),
                ) {
                    r == Ok::<bool, Error>(true) && final(self)@ == (DatabaseView {
                        clothing_services: old(self)@.clothing_services.update(i, row),
                        ..old(self)@
                    })
                } else {
                    r == Err::<bool, Error>(
                        Error::StoreFailure(Violation::MissingParent(Entity::ClothingService)),
                    ) && final(self)@ == old(self)@
                },
                None => r == Ok::<bool, Error>(false) && final(self)@ == old(self)@,
            },
            old(self)@.wf() ==> final(self)@.wf(),
    {
        proof {
            lemma_index_of(self.clothing_services@, row.key());
        }
        let at = match position(&self.clothing_services, &row.id) {
            Some(at) => at,
            None => {
                return Ok(false);
            },
        };
        if !(self.clothing_services[at].clothes_id == row.clothes_id)
            && !contains_key(&self.clothes, &row.clothes_id)
        {
            return Err(Error::StoreFailure(Violation::MissingParent(Entity::ClothingService)));
        }
        proof {
            let i = at as int;
            lemma_update_keys(self.clothing_services@, i, row);
            if self@.wf() {
                assert(has_key(self.clothes@, self.clothing_services@[i].parent()));
                lemma_update_parented(self.clothing_services@, i, row, self.clothes@);
            }
        }
        self.clothing_services.set(at, row);
        Ok(true)
    }

    /// Deletes the client `id`, its orders and all that belongs to them.
    /// Returns whether there was such a client.
    pub fn delete_client(&mut self, id: &String) -> (found: bool)
        ensures
            found == has_key(old(self)@.clients, id@),
            final(self)@ == old(self)@.without_client(id@),
            old(self)@.wf() ==> final(self)@.wf(),
    {
        proof {
            if self@.wf() {
                let orders_gone = children_of(self.orders@, id@);
                let clothes_gone = descendants_of(self.clothes@, orders_gone);
                lemma_without_key(self.clients@, id@);
                lemma_removal_distinct(self.orders@, id@, self.clients@);
                lemma_removal_distinct(self.impressions@, id@, orders_gone);
                lemma_removal_distinct(self.clothes@, id@, orders_gone);
                lemma_removal_distinct(self.clothing_services@, id@, clothes_gone);
                lemma_cascade(self.orders@, self.clients@, id@);
                lemma_cascade_children(self.impressions@, self.orders@, id@);
                lemma_cascade_children(self.clothes@, self.orders@, id@);
                lemma_cascade_descendants(self.clothing_services@, self.clothes@, orders_gone);
            }
        }
        let orders_gone = select_children(&self.orders, id);
        let clothes_gone = select_descendants(&self.clothes, &orders_gone);
        remove_descendants(&mut self.clothing_services, &clothes_gone);
        remove_descendants(&mut self.clothes, &orders_gone);
        remove_descendants(&mut self.impressions, &orders_gone);
        remove_children(&mut self.orders, id);
        let found = contains_key(&self.clients, id);
        remove_key(&mut self.clients, id);
        found
    }

    /// Deletes the order `id`, its impressions, its garment lines and their
    /// services. Returns whether there was such an order.
    pub fn delete_order(&mut self, id: &String) -> (found: bool)
        ensures
            found == has_key(old(self)@.orders, id@),
            final(self)@ == old(self)@.without_order(id@),
            old(self)@.wf() ==> final(self)@.wf(),
    {
        proof {
            if self@.wf() {
                let clothes_gone = children_of(self.clothes@, id@);
                lemma_without_key(self.orders@, id@);
                lemma_removal_distinct(self.impressions@, id@, self.orders@);
                lemma_removal_distinct(self.clothes@, id@, self.orders@);
                lemma_removal_distinct(self.clothing_services@, id@, clothes_gone);
                lemma_removal_parented(self.orders@, self.clients@, id@, self.clients@);
                lemma_cascade(self.impressions@, self.orders@, id@);
                lemma_cascade(self.clothes@, self.orders@, id@);
                lemma_cascade_children(self.clothing_services@, self.clothes@, id@);
            }
        }
        let clothes_gone = select_children(&self.clothes, id);
        remove_descendants(&mut self.clothing_services, &clothes_gone);
        remove_children(&mut self.clothes, id);
        remove_children(&mut self.impressions, id);
        let found = contains_key(&self.orders, id);
        remove_key(&mut self.orders, id);
        found
    }

    /// Deletes the garment line `id` and its services. Returns whether
    /// there was such a line.
    pub fn delete_clothes(&mut self, id: &String) -> (found: bool)
        ensures
            found == has_key(old(self)@.clothes, id@),
            final(self)@ == old(self)@.without_clothes(id@),
            old(self)@.wf() ==> final(self)@.wf(),
    {
        proof {
            if self@.wf() {
                lemma_without_key(self.clothes@, id@);
                lemma_removal_distinct(self.clothing_services@, id@, self.clothes@);
                lemma_removal_parented(self.clothes@, self.orders@, id@, self.orders@);
                lemma_cascade(self.clothing_services@, self.clothes@, id@);
            }
        }
        remove_children(&mut self.clothing_services, id);
        let found = contains_key(&self.clothes, id);
        remove_key(&mut self.clothes, id);
        found
    }

    /// Deletes the impression `id`. Returns whether there was one.
    pub fn delete_impression(&mut self, id: &String) -> (found: bool)
        ensures
            found == has_key(old(self)@.impressions, id@),
            final(self)@ == (DatabaseView {
                impressions: without_key(old(self)@.impressions, id@),
                ..old(self)@
            }),
            old(self)@.wf() ==> final(self)@.wf(),
    {
        proof {
            if self@.wf() {
                lemma_without_key(self.impressions@, id@);
                lemma_removal_parented(self.impressions@, self.orders@, id@, self.orders@);
            }
        }
        let found = contains_key(&self.impressions, id);
        remove_key(&mut self.impressions, id);
        found
    }

    /// Deletes the decoration service `id`. Returns whether there was one.
    pub fn delete_clothing_service(&mut self, id: &String) -> (found: bool)
        ensures
            found == has_key(old(self)@.clothing_services, id@),
            final(self)@ == (DatabaseView {
                clothing_services: without_key(old(self)@.clothing_services, id@),
                ..old(self)@
            }),
            old(self)@.wf() ==> final(self)@.wf(),
    {
        proof {
            if self@.wf() {
                lemma_without_key(self.clothing_services@, id@);
                lemma_removal_parented(self.clothing_services@, self.clothes@, id@, self.clothes@);
            }
        }
        let found = contains_key(&self.clothing_services, id);
        remove_key(&mut self.clothing_services, id);
        found
    }

    /// Deletes the decoration services of the garment line `clothes_id`.
    /// Returns how many there were.
    pub fn delete_services_of(&mut self, clothes_id: &String) -> (count: usize)
        ensures
            count == children_of(old(self)@.clothing_services, clothes_id@).len(),
            final(self)@ == (DatabaseView {
                clothing_services: without_children_of(
                    old(self)@.clothing_services,
                    clothes_id@,
                ),
                ..old(self)@
            }),
            old(self)@.wf() ==> final(self)@.wf(),
    {
        proof {
            if self@.wf() {
                lemma_removal_distinct(self.clothing_services@, clothes_id@, self.clothes@);
                lemma_removal_parented(
                    self.clothing_services@,
                    self.clothes@,
                    clothes_id@,
                    self.clothes@,
                );
            }
        }
        let count = select_children(&self.clothing_services, clothes_id).len();
        remove_children(&mut self.clothing_services, clothes_id);
        count
    }
}

} // verus!
