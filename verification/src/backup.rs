//! Snapshots of the whole store, and the store that a snapshot gives back.
//!
//! A snapshot holds every record of every table, each table with the
//! earliest record first, and every date and time as text. Restoring a
//! snapshot reads the texts back, checks the records against the
//! constraints of the store, and only then puts them in the place of what the
//! store held: a snapshot that cannot be restored leaves the store as it
//! was.

use crate::database::{Database, DatabaseView};
use crate::error::{Entity, Error, Malformed, TimeField, Violation};
use crate::models::{Client, Clothes, ClothingService, Impression, Order, User};
use crate::ordering::{ascending, sort_ascending};
use crate::table::Record;
use crate::text::{decimal, decimal_text};
use crate::temporal::{day_text, instant_text, iso_date_day, rfc3339_instant, Date, Timestamp};
use vstd::prelude::*;
use vstd::string::StringExecFns;

verus! {

/// A record that a snapshot can hold.
pub trait Stored: Record {
    /// The form of the record in a snapshot.
    type Saved;

    /// The kind of the record.
    spec fn entity() -> Entity;

    /// The record that a saved form stands for, or the first of its dates
    /// and times that cannot be read.
    spec fn restored(saved: Self::Saved) -> Result<Self, Error>;

    /// The first of the record's dates and times that has no text.
    spec fn unwritable(&self) -> Option<TimeField>;

    /// `saved` holds what the record holds, its dates and times as their
    /// texts.
    spec fn saved_as(&self, saved: Self::Saved) -> bool;

    fn restore(saved: &Self::Saved) -> (r: Result<Self, Error>)
        ensures
            r == Self::restored(*saved),
    ;

    /// The saved form of the record, which `restore` reads back as the
    /// same record.
    fn save(&self) -> (r: Result<Self::Saved, Error>)
        ensures
            match r {
                Ok(saved) => {
                    &&& self.unwritable() is None
                    &&& self.saved_as(saved)
                    &&& Self::restored(saved) == Ok::<Self, Error>(*self)
                },
                Err(e) => self.unwritable() matches Some(field) && e == Error::StoreFailure(
                    Violation::UnrepresentableTime(Self::entity(), field),
                ),
            },
    ;
}

/// The instant that a text stands for.
pub open spec fn instant_of(text: Seq<char>) -> Option<Timestamp> {
    match rfc3339_instant(text) {
        Some(n) => Some(Timestamp { unix_nanos: n }),
        None => None,
    }
}

/// The instants of creation and of the last change that two texts of the
/// record `id` stand for, or the first of them that cannot be read.
pub open spec fn instants_of(
    entity: Entity,
    id: String,
    created: Seq<char>,
    updated: Seq<char>,
) -> Result<(Timestamp, Timestamp), Error> {
    match instant_of(created) {
        None => Err(
            Error::ParseError(Malformed::Time { entity, id, field: TimeField::CreatedAt }),
        ),
        Some(c) => match instant_of(updated) {
            None => Err(
                Error::ParseError(Malformed::Time { entity, id, field: TimeField::UpdatedAt }),
            ),
            Some(u) => Ok((c, u)),
        },
    }
}

/// The due date that an optional text of the order `id` stands for.
pub open spec fn day_of(id: String, text: Option<String>) -> Result<Option<Date>, Error> {
    match text {
        None => Ok(None),
        Some(t) => match iso_date_day(t@) {
            Some(d) => Ok(Some(Date { julian_day: d })),
            None => Err(
                Error::ParseError(
                    Malformed::Time { entity: Entity::Order, id, field: TimeField::DueDate },
                ),
            ),
        },
    }
}

/// The amount that a snapshot holds, nothing where it holds none.
pub open spec fn amount_or_nothing(amount: Option<i64>) -> i64 {
    match amount {
        Some(a) => a,
        None => 0,
    }
}

/// The first of the two instants that has no text.
pub open spec fn unwritable_instants(created: Timestamp, updated: Timestamp) -> Option<TimeField> {
    if instant_text(created.unix_nanos) is None {
        Some(TimeField::CreatedAt)
    } else if instant_text(updated.unix_nanos) is None {
        Some(TimeField::UpdatedAt)
    } else {
        None
    }
}

/// Reads the instants of creation and of the last change of the record
/// `id`.
pub fn read_instants(entity: Entity, id: &String, created: &String, updated: &String) -> (r: Result<
    (Timestamp, Timestamp),
    Error,
>)
    ensures
        r == instants_of(entity, *id, created@, updated@),
{
    let c = match Timestamp::from_rfc3339(created.as_str()) {
        Some(c) => c,
        None => {
            return Err(
                Error::ParseError(
                    Malformed::Time { entity, id: id.clone(), field: TimeField::CreatedAt },
                ),
            );
        },
    };
    let u = match Timestamp::from_rfc3339(updated.as_str()) {
        Some(u) => u,
        None => {
            return Err(
                Error::ParseError(
                    Malformed::Time { entity, id: id.clone(), field: TimeField::UpdatedAt },
                ),
            );
        },
    };
    Ok((c, u))
}

/// Reads the due date of the order `id`.
pub fn read_day(id: &String, text: &Option<String>) -> (r: Result<Option<Date>, Error>)
    ensures
        r == day_of(*id, *text),
{
    match text {
        None => Ok(None),
        Some(t) => match Date::from_iso(t.as_str()) {
            Some(d) => Ok(Some(d)),
            None => Err(
                Error::ParseError(
                    Malformed::Time {
                        entity: Entity::Order,
                        id: id.clone(),
                        field: TimeField::DueDate,
                    },
                ),
            ),
        },
    }
}

/// Writes the instants of creation and of the last change of a record as
/// texts that read back as the same instants.
pub fn write_instants(entity: Entity, created: Timestamp, updated: Timestamp) -> (r: Result<
    (String, String),
    Error,
>)
    ensures
        match r {
            Ok(texts) => {
                &&& unwritable_instants(created, updated) is None
                &&& instant_text(created.unix_nanos) == Some(texts.0@)
                &&& instant_text(updated.unix_nanos) == Some(texts.1@)
                &&& instant_of(texts.0@) == Some(created)
                &&& instant_of(texts.1@) == Some(updated)
            },
            Err(e) => unwritable_instants(created, updated) matches Some(field) && e
                == Error::StoreFailure(Violation::UnrepresentableTime(entity, field)),
        },
{
    let c = match created.to_rfc3339() {
        Some(c) => c,
        None => {
            return Err(
                Error::StoreFailure(Violation::UnrepresentableTime(entity, TimeField::CreatedAt)),
            );
        },
    };
    let u = match updated.to_rfc3339() {
        Some(u) => u,
        None => {
            return Err(
                Error::StoreFailure(Violation::UnrepresentableTime(entity, TimeField::UpdatedAt)),
            );
        },
    };
    Ok((c, u))
}

/// The records that saved forms stand for, or the failure of the first
/// form that stands for none.
pub open spec fn restored_all<T: Stored>(saved: Seq<T::Saved>) -> Result<Seq<T>, Error>
    decreases saved.len(),
{
    if saved.len() == 0 {
        Ok(Seq::empty())
    } else {
        match restored_all::<T>(saved.drop_last()) {
            Ok(front) => match T::restored(saved.last()) {
                Ok(last) => Ok(front.push(last)),
                Err(e) => Err(e),
            },
            Err(e) => Err(e),
        }
    }
}

/// The first date or time among `rows` that has no text.
pub open spec fn first_unwritable<T: Stored>(rows: Seq<T>) -> Option<TimeField>
    decreases rows.len(),
{
    if rows.len() == 0 {
        None
    } else {
        match first_unwritable(rows.drop_last()) {
            Some(field) => Some(field),
            None => rows.last().unwritable(),
        }
    }
}

/// `saved` holds the records `rows`, one form for each, in their order.
pub open spec fn all_saved_as<T: Stored>(rows: Seq<T>, saved: Seq<T::Saved>) -> bool {
    &&& saved.len() == rows.len()
    &&& forall|i: int| 0 <= i < rows.len() ==> (#[trigger] rows[i]).saved_as(saved[i])
}

/// Each saved form is read by itself: where all can be read, the records
/// stand where their forms stood; where one cannot, the failure is that of
/// one of the forms.
pub proof fn lemma_restored_each<T: Stored>(saved: Seq<T::Saved>)
    ensures
        match restored_all::<T>(saved) {
            Ok(rows) => rows.len() == saved.len() && forall|i: int|
                0 <= i < saved.len() ==> T::restored(#[trigger] saved[i]) == Ok::<T, Error>(
                    rows[i],
                ),
            Err(e) => exists|i: int|
                0 <= i < saved.len() && T::restored(#[trigger] saved[i]) == Err::<T, Error>(e),
        },
    decreases saved.len(),
{
    if saved.len() > 0 {
        let front = saved.drop_last();
        lemma_restored_each::<T>(front);
        assert(forall|i: int| 0 <= i < front.len() ==> front[i] == saved[i]);
        match restored_all::<T>(front) {
            Ok(rows) => {
                if T::restored(saved.last()) is Err {
                    assert(saved[saved.len() - 1] == saved.last());
                }
            },
            Err(e) => {
                let i = choose|i: int|
                    0 <= i < front.len() && T::restored(#[trigger] front[i]) == Err::<T, Error>(e);
                assert(T::restored(saved[i]) == Err::<T, Error>(e));
            },
        }
    }
}

/// A failure among the first forms is the failure of them all.
proof fn lemma_restored_all_fails<T: Stored>(saved: Seq<T::Saved>, n: int)
    requires
        0 <= n <= saved.len(),
        restored_all::<T>(saved.take(n)) is Err,
    ensures
        restored_all::<T>(saved) == restored_all::<T>(saved.take(n)),
    decreases saved.len() - n,
{
    if n < saved.len() {
        assert(saved.take(n + 1).drop_last() =~= saved.take(n));
        lemma_restored_all_fails::<T>(saved, n + 1);
    } else {
        assert(saved.take(n) =~= saved);
    }
}

/// A date or time without text among the first records is the first such
/// among them all.
proof fn lemma_first_unwritable_found<T: Stored>(rows: Seq<T>, n: int)
    requires
        0 <= n <= rows.len(),
        first_unwritable(rows.take(n)) is Some,
    ensures
        first_unwritable(rows) == first_unwritable(rows.take(n)),
    decreases rows.len() - n,
{
    if n < rows.len() {
        assert(rows.take(n + 1).drop_last() =~= rows.take(n));
        lemma_first_unwritable_found(rows, n + 1);
    } else {
        assert(rows.take(n) =~= rows);
    }
}

/// The records that the saved forms stand for.
pub fn restore_all<T: Stored>(saved: &Vec<T::Saved>) -> (r: Result<Vec<T>, Error>)
    ensures
        match r {
            Ok(rows) => restored_all::<T>(saved@) == Ok::<Seq<T>, Error>(rows@),
            Err(e) => restored_all::<T>(saved@) == Err::<Seq<T>, Error>(e),
        },
{
    let mut rows: Vec<T> = Vec::new();
    let mut i: usize = 0;
    assert(saved@.take(0) =~= Seq::<T::Saved>::empty());
    while i < saved.len()
        invariant
            i <= saved.len(),
            restored_all::<T>(saved@.take(i as int)) == Ok::<Seq<T>, Error>(rows@),
        decreases saved.len() - i,
    {
        proof {
            assert(saved@.take(i + 1).drop_last() =~= saved@.take(i as int));
            assert(saved@.take(i + 1).last() == saved[i as int]);
        }
        match T::restore(&saved[i]) {
            Ok(row) => {
                rows.push(row);
            },
            Err(e) => {
                proof {
                    lemma_restored_all_fails::<T>(saved@, i + 1);
                }
                return Err(e);
            },
        }
        i += 1;
    }
    assert(saved@.take(saved.len() as int) =~= saved@);
    Ok(rows)
}

/// The saved forms of the records, which `restore_all` reads back as the
/// same records.
pub fn save_all<T: Stored>(rows: &Vec<T>) -> (r: Result<Vec<T::Saved>, Error>)
    ensures
        match r {
            Ok(saved) => {
                &&& first_unwritable(rows@) is None
                &&& all_saved_as(rows@, saved@)
                &&& restored_all::<T>(saved@) == Ok::<Seq<T>, Error>(rows@)
            },
            Err(e) => first_unwritable(rows@) matches Some(field) && e == Error::StoreFailure(
                Violation::UnrepresentableTime(T::entity(), field),
            ),
        },
{
    let mut saved: Vec<T::Saved> = Vec::new();
    let mut i: usize = 0;
    assert(rows@.take(0) =~= Seq::<T>::empty());
    while i < rows.len()
        invariant
            i <= rows.len(),
            first_unwritable(rows@.take(i as int)) is None,
            all_saved_as(rows@.take(i as int), saved@),
            restored_all::<T>(saved@) == Ok::<Seq<T>, Error>(rows@.take(i as int)),
        decreases rows.len() - i,
    {
        proof {
            assert(rows@.take(i + 1).drop_last() =~= rows@.take(i as int));
            assert(rows@.take(i + 1).last() == rows[i as int]);
        }
        let ghost before = saved@;
        match rows[i].save() {
            Ok(form) => {
                saved.push(form);
                proof {
                    assert(saved@.drop_last() =~= before);
                    assert(rows@.take(i + 1) =~= rows@.take(i as int).push(rows[i as int]));
                    assert forall|k: int| 0 <= k < i + 1 implies (#[trigger] rows@.take(
                        i + 1,
                    )[k]).saved_as(saved@[k]) by {
                        if k < i {
                            assert(rows@.take(i as int)[k].saved_as(before[k]));
                        }
                    }
                }
            },
            Err(e) => {
                proof {
                    lemma_first_unwritable_found(rows@, i + 1);
                }
                return Err(e);
            },
        }
        i += 1;
    }
    assert(rows@.take(rows.len() as int) =~= rows@);
    Ok(saved)
}

/// A user as a snapshot holds it: dates and times are texts.
#[derive(Debug, PartialEq, Eq)]
pub struct UserBackup {
    pub id: String,
    pub login: String,
    pub password: String,
    pub role: String,
    pub created_at: String,
    pub updated_at: String,
}

impl Stored for User {
    type Saved = UserBackup;

    open spec fn entity() -> Entity {
        Entity::User
    }

    open spec fn restored(saved: UserBackup) -> Result<User, Error> {
        match instants_of(Entity::User, saved.id, saved.created_at@, saved.updated_at@) {
            Err(e) => Err(e),
            Ok(stamps) => Ok(
                User {
                    id: saved.id,
                    login: saved.login,
                    password: saved.password,
                    role: saved.role,
                    created_at: stamps.0,
                    updated_at: stamps.1,
                },
            ),
        }
    }

    open spec fn unwritable(&self) -> Option<TimeField> {
        unwritable_instants(self.created_at, self.updated_at)
    }

    open spec fn saved_as(&self, saved: UserBackup) -> bool {
        &&& saved.id == self.id
        &&& saved.login == self.login
        &&& saved.password == self.password
        &&& saved.role == self.role
        &&& instant_text(self.created_at.unix_nanos) == Some(saved.created_at@)
        &&& instant_text(self.updated_at.unix_nanos) == Some(saved.updated_at@)
    }

    fn restore(saved: &UserBackup) -> (r: Result<User, Error>) {
        let stamps = match read_instants(
            Entity::User,
            &saved.id,
            &saved.created_at,
            &saved.updated_at,
        ) {
            Ok(stamps) => stamps,
            Err(e) => {
                return Err(e);
            },
        };
        Ok(
            User {
                id: saved.id.clone(),
                login: saved.login.clone(),
                password: saved.password.clone(),
                role: saved.role.clone(),
                created_at: stamps.0,
                updated_at: stamps.1,
            },
        )
    }

    fn save(&self) -> (r: Result<UserBackup, Error>) {
        let stamps = match write_instants(Entity::User, self.created_at, self.updated_at) {
            Ok(stamps) => stamps,
            Err(e) => {
                return Err(e);
            },
        };
        Ok(
            UserBackup {
                id: self.id.clone(),
                login: self.login.clone(),
                password: self.password.clone(),
                role: self.role.clone(),
                created_at: stamps.0,
                updated_at: stamps.1,
            },
        )
    }
}

/// A client as a snapshot holds it: dates and times are texts.
#[derive(Debug, PartialEq, Eq)]
pub struct ClientBackup {
    pub id: String,
    pub name: String,
    pub nuit: String,
    pub contact: String,
    pub category: String,
    pub observations: String,
    pub debt: i64,
    pub created_at: String,
    pub updated_at: String,
}

impl Stored for Client {
    type Saved = ClientBackup;

    open spec fn entity() -> Entity {
        Entity::Client
    }

    open spec fn restored(saved: ClientBackup) -> Result<Client, Error> {
        match instants_of(Entity::Client, saved.id, saved.created_at@, saved.updated_at@) {
            Err(e) => Err(e),
            Ok(stamps) => Ok(
                Client {
                    id: saved.id,
                    name: saved.name,
                    nuit: saved.nuit,
                    contact: saved.contact,
                    category: saved.category,
                    observations: saved.observations,
                    debt: saved.debt,
                    created_at: stamps.0,
                    updated_at: stamps.1,
                },
            ),
        }
    }

    open spec fn unwritable(&self) -> Option<TimeField> {
        unwritable_instants(self.created_at, self.updated_at)
    }

    open spec fn saved_as(&self, saved: ClientBackup) -> bool {
        &&& saved.id == self.id
        &&& saved.name == self.name
        &&& saved.nuit == self.nuit
        &&& saved.contact == self.contact
        &&& saved.category == self.category
        &&& saved.observations == self.observations
        &&& saved.debt == self.debt
        &&& instant_text(self.created_at.unix_nanos) == Some(saved.created_at@)
        &&& instant_text(self.updated_at.unix_nanos) == Some(saved.updated_at@)
    }

    fn restore(saved: &ClientBackup) -> (r: Result<Client, Error>) {
        let stamps = match read_instants(
            Entity::Client,
            &saved.id,
            &saved.created_at,
            &saved.updated_at,
        ) {
            Ok(stamps) => stamps,
            Err(e) => {
                return Err(e);
            },
        };
        Ok(
            Client {
                id: saved.id.clone(),
                name: saved.name.clone(),
                nuit: saved.nuit.clone(),
                contact: saved.contact.clone(),
                category: saved.category.clone(),
                observations: saved.observations.clone(),
                debt: saved.debt,
                created_at: stamps.0,
                updated_at: stamps.1,
            },
        )
    }

    fn save(&self) -> (r: Result<ClientBackup, Error>) {
        let stamps = match write_instants(Entity::Client, self.created_at, self.updated_at) {
            Ok(stamps) => stamps,
            Err(e) => {
                return Err(e);
            },
        };
        Ok(
            ClientBackup {
                id: self.id.clone(),
                name: self.name.clone(),
                nuit: self.nuit.clone(),
                contact: self.contact.clone(),
                category: self.category.clone(),
                observations: self.observations.clone(),
                debt: self.debt,
                created_at: stamps.0,
                updated_at: stamps.1,
            },
        )
    }
}

/// An order as a snapshot holds it: dates and times are texts.
#[derive(Debug, PartialEq, Eq)]
pub struct OrderBackup {
    pub id: String,
    pub name: String,
    pub client_id: String,
    pub order_number: i32,
    pub client_requisition_number: i32,
    pub due_date: Option<String>,
    pub discount: Option<i64>,
    pub iva: Option<i64>,
    pub subtotal: i64,
    pub total: i64,
    pub status: String,
    pub debt: i64,
    pub created_at: String,
    pub updated_at: String,
}

impl Stored for Order {
    type Saved = OrderBackup;

    open spec fn entity() -> Entity {
        Entity::Order
    }

    open spec fn restored(saved: OrderBackup) -> Result<Order, Error> {
        match instants_of(Entity::Order, saved.id, saved.created_at@, saved.updated_at@) {
            Err(e) => Err(e),
            Ok(stamps) => match day_of(saved.id, saved.due_date) {
                Err(e) => Err(e),
                Ok(due) => Ok(
                    Order {
                        id: saved.id,
                        name: saved.name,
                        client_id: saved.client_id,
                        order_number: saved.order_number,
                        client_requisition_number: saved.client_requisition_number,
                        due_date: due,
                        discount: amount_or_nothing(saved.discount),
                        iva: amount_or_nothing(saved.iva),
                        subtotal: saved.subtotal,
                        total: saved.total,
                        status: saved.status,
                        debt: saved.debt,
                        created_at: stamps.0,
                        updated_at: stamps.1,
                    },
                ),
            },
        }
    }

    open spec fn unwritable(&self) -> Option<TimeField> {
        match unwritable_instants(self.created_at, self.updated_at) {
            Some(field) => Some(field),
            None => if self.due_date matches Some(day) && day_text(day.julian_day) is None {
                Some(TimeField::DueDate)
            } else {
                None
            },
        }
    }

    open spec fn saved_as(&self, saved: OrderBackup) -> bool {
        &&& saved.id == self.id
        &&& saved.name == self.name
        &&& saved.client_id == self.client_id
        &&& saved.order_number == self.order_number
        &&& saved.client_requisition_number == self.client_requisition_number
        &&& match self.due_date {
            Some(day) => saved.due_date matches Some(text) && day_text(day.julian_day) == Some(
                text@,
            ),
            None => saved.due_date is None,
        }
        &&& saved.discount == Some(self.discount)
        &&& saved.iva == Some(self.iva)
        &&& saved.subtotal == self.subtotal
        &&& saved.total == self.total
        &&& saved.status == self.status
        &&& saved.debt == self.debt
        &&& instant_text(self.created_at.unix_nanos) == Some(saved.created_at@)
        &&& instant_text(self.updated_at.unix_nanos) == Some(saved.updated_at@)
    }

    fn restore(saved: &OrderBackup) -> (r: Result<Order, Error>) {
        let stamps = match read_instants(
            Entity::Order,
            &saved.id,
            &saved.created_at,
            &saved.updated_at,
        ) {
            Ok(stamps) => stamps,
            Err(e) => {
                return Err(e);
            },
        };
        let due = match read_day(&saved.id, &saved.due_date) {
            Ok(due) => due,
            Err(e) => {
                return Err(e);
            },
        };
        Ok(
            Order {
                id: saved.id.clone(),
                name: saved.name.clone(),
                client_id: saved.client_id.clone(),
                order_number: saved.order_number,
                client_requisition_number: saved.client_requisition_number,
                due_date: due,
                discount: match saved.discount {
                    Some(amount) => amount,
                    None => 0,
                },
                iva: match saved.iva {
                    Some(amount) => amount,
                    None => 0,
                },
                subtotal: saved.subtotal,
                total: saved.total,
                status: saved.status.clone(),
                debt: saved.debt,
                created_at: stamps.0,
                updated_at: stamps.1,
            },
        )
    }

    fn save(&self) -> (r: Result<OrderBackup, Error>) {
        let stamps = match write_instants(Entity::Order, self.created_at, self.updated_at) {
            Ok(stamps) => stamps,
            Err(e) => {
                return Err(e);
            },
        };
        let due = match self.due_date {
            Some(day) => match day.to_iso() {
                Some(text) => Some(text),
                None => {
                    return Err(
                        Error::StoreFailure(
                            Violation::UnrepresentableTime(Entity::Order, TimeField::DueDate),
                        ),
                    );
                },
            },
            None => None,
        };
        Ok(
            OrderBackup {
                id: self.id.clone(),
                name: self.name.clone(),
                client_id: self.client_id.clone(),
                order_number: self.order_number,
                client_requisition_number: self.client_requisition_number,
                due_date: due,
                discount: Some(self.discount),
                iva: Some(self.iva),
                subtotal: self.subtotal,
                total: self.total,
                status: self.status.clone(),
                debt: self.debt,
                created_at: stamps.0,
                updated_at: stamps.1,
            },
        )
    }
}

/// An impression as a snapshot holds it: dates and times are texts.
#[derive(Debug, PartialEq, Eq)]
pub struct ImpressionBackup {
    pub id: String,
    pub order_id: String,
    pub name: String,
    pub size: String,
    pub material: String,
    pub description: String,
    pub price: i64,
    pub created_at: String,
    pub updated_at: String,
}

impl Stored for Impression {
    type Saved = ImpressionBackup;

    open spec fn entity() -> Entity {
        Entity::Impression
    }

    open spec fn restored(saved: ImpressionBackup) -> Result<Impression, Error> {
        match instants_of(Entity::Impression, saved.id, saved.created_at@, saved.updated_at@) {
            Err(e) => Err(e),
            Ok(stamps) => Ok(
                Impression {
                    id: saved.id,
                    order_id: saved.order_id,
                    name: saved.name,
                    size: saved.size,
                    material: saved.material,
                    description: saved.description,
                    price: saved.price,
                    created_at: stamps.0,
                    updated_at: stamps.1,
                },
            ),
        }
    }

    open spec fn unwritable(&self) -> Option<TimeField> {
        unwritable_instants(self.created_at, self.updated_at)
    }

    open spec fn saved_as(&self, saved: ImpressionBackup) -> bool {
        &&& saved.id == self.id
        &&& saved.order_id == self.order_id
        &&& saved.name == self.name
        &&& saved.size == self.size
        &&& saved.material == self.material
        &&& saved.description == self.description
        &&& saved.price == self.price
        &&& instant_text(self.created_at.unix_nanos) == Some(saved.created_at@)
        &&& instant_text(self.updated_at.unix_nanos) == Some(saved.updated_at@)
    }

    fn restore(saved: &ImpressionBackup) -> (r: Result<Impression, Error>) {
        let stamps = match read_instants(
            Entity::Impression,
            &saved.id,
            &saved.created_at,
            &saved.updated_at,
        ) {
            Ok(stamps) => stamps,
            Err(e) => {
                return Err(e);
            },
        };
        Ok(
            Impression {
                id: saved.id.clone(),
                order_id: saved.order_id.clone(),
                name: saved.name.clone(),
                size: saved.size.clone(),
                material: saved.material.clone(),
                description: saved.description.clone(),
                price: saved.price,
                created_at: stamps.0,
                updated_at: stamps.1,
            },
        )
    }

    fn save(&self) -> (r: Result<ImpressionBackup, Error>) {
        let stamps = match write_instants(Entity::Impression, self.created_at, self.updated_at) {
            Ok(stamps) => stamps,
            Err(e) => {
                return Err(e);
            },
        };
        Ok(
            ImpressionBackup {
                id: self.id.clone(),
                order_id: self.order_id.clone(),
                name: self.name.clone(),
                size: self.size.clone(),
                material: self.material.clone(),
                description: self.description.clone(),
                price: self.price,
                created_at: stamps.0,
                updated_at: stamps.1,
            },
        )
    }
}

/// A garment line as a snapshot holds it: dates and times are texts.
#[derive(Debug, PartialEq, Eq)]
pub struct ClothesBackup {
    pub id: String,
    pub order_id: String,
    pub clothing_type: String,
    pub custom_type: Option<String>,
    pub unit_price: i64,
    pub sizes: String,
    pub color: String,
    pub total_quantity: i32,
    pub created_at: String,
    pub updated_at: String,
}

impl Stored for Clothes {
    type Saved = ClothesBackup;

    open spec fn entity() -> Entity {
        Entity::Clothes
    }

    open spec fn restored(saved: ClothesBackup) -> Result<Clothes, Error> {
        match instants_of(Entity::Clothes, saved.id, saved.created_at@, saved.updated_at@) {
            Err(e) => Err(e),
            Ok(stamps) => Ok(
                Clothes {
                    id: saved.id,
                    order_id: saved.order_id,
                    clothing_type: saved.clothing_type,
                    custom_type: saved.custom_type,
                    unit_price: saved.unit_price,
                    sizes: saved.sizes,
                    color: saved.color,
                    total_quantity: saved.total_quantity,
                    created_at: stamps.0,
                    updated_at: stamps.1,
                },
            ),
        }
    }

    open spec fn unwritable(&self) -> Option<TimeField> {
        unwritable_instants(self.created_at, self.updated_at)
    }

    open spec fn saved_as(&self, saved: ClothesBackup) -> bool {
        &&& saved.id == self.id
        &&& saved.order_id == self.order_id
        &&& saved.clothing_type == self.clothing_type
        &&& saved.custom_type == self.custom_type
        &&& saved.unit_price == self.unit_price
        &&& saved.sizes == self.sizes
        &&& saved.color == self.color
        &&& saved.total_quantity == self.total_quantity
        &&& instant_text(self.created_at.unix_nanos) == Some(saved.created_at@)
        &&& instant_text(self.updated_at.unix_nanos) == Some(saved.updated_at@)
    }

    fn restore(saved: &ClothesBackup) -> (r: Result<Clothes, Error>) {
        let stamps = match read_instants(
            Entity::Clothes,
            &saved.id,
            &saved.created_at,
            &saved.updated_at,
        ) {
            Ok(stamps) => stamps,
            Err(e) => {
                return Err(e);
            },
        };
        Ok(
            Clothes {
                id: saved.id.clone(),
                order_id: saved.order_id.clone(),
                clothing_type: saved.clothing_type.clone(),
                custom_type: saved.custom_type.clone(),
                unit_price: saved.unit_price,
                sizes: saved.sizes.clone(),
                color: saved.color.clone(),
                total_quantity: saved.total_quantity,
                created_at: stamps.0,
                updated_at: stamps.1,
            },
        )
    }

    fn save(&self) -> (r: Result<ClothesBackup, Error>) {
        let stamps = match write_instants(Entity::Clothes, self.created_at, self.updated_at) {
            Ok(stamps) => stamps,
            Err(e) => {
                return Err(e);
            },
        };
        Ok(
            ClothesBackup {
                id: self.id.clone(),
                order_id: self.order_id.clone(),
                clothing_type: self.clothing_type.clone(),
                custom_type: self.custom_type.clone(),
                unit_price: self.unit_price,
                sizes: self.sizes.clone(),
                color: self.color.clone(),
                total_quantity: self.total_quantity,
                created_at: stamps.0,
                updated_at: stamps.1,
            },
        )
    }
}

/// A decoration service as a snapshot holds it: dates and times are texts.
#[derive(Debug, PartialEq, Eq)]
pub struct ClothingServiceBackup {
    pub id: String,
    pub clothes_id: String,
    pub service_type: String,
    pub location: String,
    pub description: Option<String>,
    pub unit_price: i64,
    pub created_at: String,
    pub updated_at: String,
}

impl Stored for ClothingService {
    type Saved = ClothingServiceBackup;

    open spec fn entity() -> Entity {
        Entity::ClothingService
    }

    open spec fn restored(saved: ClothingServiceBackup) -> Result<ClothingService, Error> {
        match instants_of(Entity::ClothingService, saved.id, saved.created_at@, saved.updated_at@) {
            Err(e) => Err(e),
            Ok(stamps) => Ok(
                ClothingService {
                    id: saved.id,
                    clothes_id: saved.clothes_id,
                    service_type: saved.service_type,
                    location: saved.location,
                    description: saved.description,
                    unit_price: saved.unit_price,
                    created_at: stamps.0,
                    updated_at: stamps.1,
                },
            ),
        }
    }

    open spec fn unwritable(&self) -> Option<TimeField> {
        unwritable_instants(self.created_at, self.updated_at)
    }

    open spec fn saved_as(&self, saved: ClothingServiceBackup) -> bool {
        &&& saved.id == self.id
        &&& saved.clothes_id == self.clothes_id
        &&& saved.service_type == self.service_type
        &&& saved.location == self.location
        &&& saved.description == self.description
        &&& saved.unit_price == self.unit_price
        &&& instant_text(self.created_at.unix_nanos) == Some(saved.created_at@)
        &&& instant_text(self.updated_at.unix_nanos) == Some(saved.updated_at@)
    }

    fn restore(saved: &ClothingServiceBackup) -> (r: Result<ClothingService, Error>) {
        let stamps = match read_instants(
            Entity::ClothingService,
            &saved.id,
            &saved.created_at,
            &saved.updated_at,
        ) {
            Ok(stamps) => stamps,
            Err(e) => {
                return Err(e);
            },
        };
        Ok(
            ClothingService {
                id: saved.id.clone(),
                clothes_id: saved.clothes_id.clone(),
                service_type: saved.service_type.clone(),
                location: saved.location.clone(),
                description: saved.description.clone(),
                unit_price: saved.unit_price,
                created_at: stamps.0,
                updated_at: stamps.1,
            },
        )
    }

    fn save(&self) -> (r: Result<ClothingServiceBackup, Error>) {
        let stamps = match write_instants(
            Entity::ClothingService,
            self.created_at,
            self.updated_at,
        ) {
            Ok(stamps) => stamps,
            Err(e) => {
                return Err(e);
            },
        };
        Ok(
            ClothingServiceBackup {
                id: self.id.clone(),
                clothes_id: self.clothes_id.clone(),
                service_type: self.service_type.clone(),
                location: self.location.clone(),
                description: self.description.clone(),
                unit_price: self.unit_price,
                created_at: stamps.0,
                updated_at: stamps.1,
            },
        )
    }
}
/// A snapshot of the whole store.
#[derive(Debug, PartialEq, Eq)]
pub struct DatabaseBackup {
    /// The version of the snapshot's form.
    pub version: String,
    /// When the snapshot was taken, as text.
    pub created_at: String,
    pub users: Vec<UserBackup>,
    pub clients: Vec<ClientBackup>,
    pub orders: Vec<OrderBackup>,
    pub impressions: Vec<ImpressionBackup>,
    pub clothes: Vec<ClothesBackup>,
    pub clothing_services: Vec<ClothingServiceBackup>,
}

/// Taking snapshots and restoring them.
pub struct BackupService;

/// What was found where the snapshot is kept.
#[derive(Debug, PartialEq, Eq)]
pub enum BackupFile {
    /// Nothing is there.
    Absent,
    /// Something of `size` bytes is there that cannot be read.
    Unreadable { size: u64 },
    /// A text of `size` bytes is there that is no snapshot.
    Corrupted { size: u64 },
    /// A snapshot of `size` bytes is there, with the version and the time
    /// that it names.
    Found { version: Option<String>, created_at: Option<String>, size: u64 },
}

/// The text where there is one, the word `unknown` where there is none.
pub open spec fn or_unknown(text: Option<String>) -> Seq<char> {
    match text {
        Some(t) => t@,
        None => "unknown"@,
    }
}

/// What is said of what was found where the snapshot is kept.
pub open spec fn backup_info(file: BackupFile) -> Option<Seq<char>> {
    match file {
        BackupFile::Absent => None,
        BackupFile::Unreadable { size } => Some(
            "Backup file found but unreadable - Size: "@ + decimal_text(size as nat) + " bytes"@,
        ),
        BackupFile::Corrupted { size } => Some(
            "Backup file found but corrupted - Size: "@ + decimal_text(size as nat) + " bytes"@,
        ),
        BackupFile::Found { version, created_at, size } => Some(
            "Backup found - Version: "@ + or_unknown(version) + ", Created: "@ + or_unknown(
                created_at,
            ) + ", File size: "@ + decimal_text(size as nat) + " bytes"@,
        ),
    }
}

/// The tables in the order in which they are emptied: what belongs to
/// another record goes before that record.
pub open spec fn deletion_order() -> Seq<Entity> {
    seq![
        Entity::ClothingService,
        Entity::Clothes,
        Entity::Impression,
        Entity::Order,
        Entity::Client,
        Entity::User,
    ]
}

/// The tables in the order in which they are filled: the reverse of the
/// order in which they are emptied.
pub open spec fn insertion_order() -> Seq<Entity> {
    deletion_order().reverse()
}

/// The kind of record that a record of this kind belongs to.
pub open spec fn parent_of(entity: Entity) -> Option<Entity> {
    match entity {
        Entity::User => None,
        Entity::Client => None,
        Entity::Order => Some(Entity::Client),
        Entity::Impression => Some(Entity::Order),
        Entity::Clothes => Some(Entity::Order),
        Entity::ClothingService => Some(Entity::Clothes),
    }
}

/// The records that the snapshot stands for, table by table in the order
/// in which the tables are filled; or the first date or time that cannot be
/// read.
pub open spec fn snapshot_rows(backup: DatabaseBackup) -> Result<DatabaseView, Error> {
    match restored_all::<User>(backup.users@) {
        Err(e) => Err(e),
        Ok(users) => match restored_all::<Client>(backup.clients@) {
            Err(e) => Err(e),
            Ok(clients) => match restored_all::<Order>(backup.orders@) {
                Err(e) => Err(e),
                Ok(orders) => match restored_all::<Impression>(backup.impressions@) {
                    Err(e) => Err(e),
                    Ok(impressions) => match restored_all::<Clothes>(backup.clothes@) {
                        Err(e) => Err(e),
                        Ok(clothes) => match restored_all::<ClothingService>(
                            backup.clothing_services@,
                        ) {
                            Err(e) => Err(e),
                            Ok(clothing_services) => Ok(
                                DatabaseView {
                                    users,
                                    clients,
                                    orders,
                                    impressions,
                                    clothes,
                                    clothing_services,
                                },
                            ),
                        },
                    },
                },
            },
        },
    }
}

/// The store that restoring the snapshot gives: its records read back and
/// stored table by table, parents before what belongs to them; or the first
/// failure on the way.
pub open spec fn restores(backup: DatabaseBackup) -> Result<DatabaseView, Error> {
    match snapshot_rows(backup) {
        Err(e) => Err(e),
        Ok(rows) => DatabaseView::loaded(
            rows.users,
            rows.clients,
            rows.orders,
            rows.impressions,
            rows.clothes,
            rows.clothing_services,
        ),
    }
}

/// The store with each table in the order of a snapshot: the earliest
/// record first.
pub open spec fn in_snapshot_order(db: DatabaseView) -> DatabaseView {
    DatabaseView {
        users: ascending(db.users),
        clients: ascending(db.clients),
        orders: ascending(db.orders),
        impressions: ascending(db.impressions),
        clothes: ascending(db.clothes),
        clothing_services: ascending(db.clothing_services),
    }
}

/// `backup` is a snapshot of `db`: it holds every record of every table,
/// the earliest first, and reads back as those records.
pub open spec fn snapshot_of(db: DatabaseView, backup: DatabaseBackup) -> bool {
    &&& all_saved_as(ascending(db.users), backup.users@)
    &&& all_saved_as(ascending(db.clients), backup.clients@)
    &&& all_saved_as(ascending(db.orders), backup.orders@)
    &&& all_saved_as(ascending(db.impressions), backup.impressions@)
    &&& all_saved_as(ascending(db.clothes), backup.clothes@)
    &&& all_saved_as(ascending(db.clothing_services), backup.clothing_services@)
    &&& snapshot_rows(backup) == Ok::<DatabaseView, Error>(in_snapshot_order(db))
}

/// Why a table cannot go into a snapshot: the first date or time among its
/// records, the earliest first, that has no text.
pub open spec fn table_failure<T: Stored>(rows: Seq<T>) -> Option<Violation> {
    match first_unwritable(ascending(rows)) {
        Some(field) => Some(Violation::UnrepresentableTime(T::entity(), field)),
        None => None,
    }
}

/// The first of two failures.
pub open spec fn or_else(first: Option<Violation>, second: Option<Violation>) -> Option<
    Violation,
> {
    match first {
        Some(v) => Some(v),
        None => second,
    }
}

/// Why no snapshot of `db` can be taken at the instant `now`: the first
/// instant or date, of the snapshot or of a record, that has no text.
pub open spec fn snapshot_failure(db: DatabaseView, now: Timestamp) -> Option<Violation> {
    if instant_text(now.unix_nanos) is None {
        Some(Violation::ClockOutOfRange)
    } else {
        or_else(
            table_failure(db.users),
            or_else(
                table_failure(db.clients),
                or_else(
                    table_failure(db.orders),
                    or_else(
                        table_failure(db.impressions),
                        or_else(table_failure(db.clothes), table_failure(db.clothing_services)),
                    ),
                ),
            ),
        )
    }
}

/// What taking a snapshot of `db` at the instant `now` gives: a snapshot
/// that names the version and the instant, or the reason why there is none.
pub open spec fn takes_snapshot(
    db: DatabaseView,
    now: Timestamp,
    r: Result<DatabaseBackup, Error>,
) -> bool {
    match snapshot_failure(db, now) {
        Some(violation) => r == Err::<DatabaseBackup, Error>(Error::StoreFailure(violation)),
        None => r matches Ok(backup) && {
            &&& backup.version@ == "1.0.0"@
            &&& instant_text(now.unix_nanos) == Some(backup.created_at@)
            &&& snapshot_of(db, backup)
        },
    }
}

/// What a successful restore reports.
pub open spec fn restore_message(created_at: Seq<char>) -> Seq<char> {
    "Database restored successfully from backup created on "@ + created_at
}

impl BackupService {
    /// Says what was found where the snapshot is kept; nothing where
    /// nothing is there.
    pub fn get_backup_info(file: &BackupFile) -> (info: Option<String>)
        ensures
            match info {
                Some(text) => backup_info(*file) == Some(text@),
                None => backup_info(*file) is None,
            },
    {
        match file {
            BackupFile::Absent => None,
            BackupFile::Unreadable { size } => {
                let mut text = "Backup file found but unreadable - Size: ".to_owned();
                text.append(decimal(*size).as_str());
                text.append(" bytes");
                Some(text)
            },
            BackupFile::Corrupted { size } => {
                let mut text = "Backup file found but corrupted - Size: ".to_owned();
                text.append(decimal(*size).as_str());
                text.append(" bytes");
                Some(text)
            },
            BackupFile::Found { version, created_at, size } => {
                let mut text = "Backup found - Version: ".to_owned();
                match version {
                    Some(v) => text.append(v.as_str()),
                    None => text.append("unknown"),
                }
                text.append(", Created: ");
                match created_at {
                    Some(c) => text.append(c.as_str()),
                    None => text.append("unknown"),
                }
                text.append(", File size: ");
                text.append(decimal(*size).as_str());
                text.append(" bytes");
                Some(text)
            },
        }
    }

    /// The version of the snapshots that `create_backup` takes.
    pub fn version() -> (v: String)
        ensures
            v@ == "1.0.0"@,
    {
        "1.0.0".to_owned()
    }

    /// The tables in the order in which a restore empties them.
    pub fn deletion_plan() -> (plan: Vec<Entity>)
        ensures
            plan@ == deletion_order(),
            forall|i: int, j: int|
                0 <= i < plan.len() && 0 <= j < plan.len() && parent_of(#[trigger] plan[i])
                    == Some(#[trigger] plan[j]) ==> i < j,
    {
        let mut plan: Vec<Entity> = Vec::new();
        plan.push(Entity::ClothingService);
        plan.push(Entity::Clothes);
        plan.push(Entity::Impression);
        plan.push(Entity::Order);
        plan.push(Entity::Client);
        plan.push(Entity::User);
        assert(plan@ =~= deletion_order());
        plan
    }

    /// The tables in the order in which a restore fills them.
    pub fn insertion_plan() -> (plan: Vec<Entity>)
        ensures
            plan@ == insertion_order(),
            forall|i: int, j: int|
                0 <= i < plan.len() && 0 <= j < plan.len() && parent_of(#[trigger] plan[i])
                    == Some(#[trigger] plan[j]) ==> j < i,
    {
        let mut plan: Vec<Entity> = Vec::new();
        plan.push(Entity::User);
        plan.push(Entity::Client);
        plan.push(Entity::Order);
        plan.push(Entity::Impression);
        plan.push(Entity::Clothes);
        plan.push(Entity::ClothingService);
        assert(plan@ =~= insertion_order());
        plan
    }

    /// Takes a snapshot of the store at the instant `now`.
    pub fn create_backup_at(db: &Database, now: Timestamp) -> (r: Result<DatabaseBackup, Error>)
        ensures
            takes_snapshot(db@, now, r),
    {
        let created_at = match now.to_rfc3339() {
            Some(text) => text,
            None => {
                return Err(Error::StoreFailure(Violation::ClockOutOfRange));
            },
        };
        let users = match save_all(&sort_ascending(db.users())) {
            Ok(saved) => saved,
            Err(e) => {
                return Err(e);
            },
        };
        let clients = match save_all(&sort_ascending(db.clients())) {
            Ok(saved) => saved,
            Err(e) => {
                return Err(e);
            },
        };
        let orders = match save_all(&sort_ascending(db.orders())) {
            Ok(saved) => saved,
            Err(e) => {
                return Err(e);
            },
        };
        let impressions = match save_all(&sort_ascending(db.impressions())) {
            Ok(saved) => saved,
            Err(e) => {
                return Err(e);
            },
        };
        let clothes = match save_all(&sort_ascending(db.clothes())) {
            Ok(saved) => saved,
            Err(e) => {
                return Err(e);
            },
        };
        let clothing_services = match save_all(&sort_ascending(db.clothing_services())) {
            Ok(saved) => saved,
            Err(e) => {
                return Err(e);
            },
        };
        Ok(
            DatabaseBackup {
                version: BackupService::version(),
                created_at,
                users,
                clients,
                orders,
                impressions,
                clothes,
                clothing_services,
            },
        )
    }

    /// Takes a snapshot of the store now.
    pub fn create_backup(db: &Database) -> (r: Result<DatabaseBackup, Error>)
        ensures
            exists|now: Timestamp| #[trigger] takes_snapshot(db@, now, r),
            r matches Ok(backup) ==> snapshot_of(db@, backup),
    {
        BackupService::create_backup_at(db, Timestamp::now())
    }

    /// The records that the snapshot stands for, as a store; nothing is
    /// checked of them but that their dates and times can be read.
    pub fn read_snapshot(backup: &DatabaseBackup) -> (r: Result<
        (Vec<User>, Vec<Client>, Vec<Order>, Vec<Impression>, Vec<Clothes>, Vec<ClothingService>),
        Error,
    >)
        ensures
            match snapshot_rows(*backup) {
                Err(e) => r == Err::<
                    (
                        Vec<User>,
                        Vec<Client>,
                        Vec<Order>,
                        Vec<Impression>,
                        Vec<Clothes>,
                        Vec<ClothingService>,
                    ),
                    Error,
                >(e),
                Ok(rows) => r matches Ok(tables) && {
                    &&& tables.0@ == rows.users
                    &&& tables.1@ == rows.clients
                    &&& tables.2@ == rows.orders
                    &&& tables.3@ == rows.impressions
                    &&& tables.4@ == rows.clothes
                    &&& tables.5@ == rows.clothing_services
                },
            },
    {
        let users = match restore_all::<User>(&backup.users) {
            Ok(rows) => rows,
            Err(e) => {
                return Err(e);
            },
        };
        let clients = match restore_all::<Client>(&backup.clients) {
            Ok(rows) => rows,
            Err(e) => {
                return Err(e);
            },
        };
        let orders = match restore_all::<Order>(&backup.orders) {
            Ok(rows) => rows,
            Err(e) => {
                return Err(e);
            },
        };
        let impressions = match restore_all::<Impression>(&backup.impressions) {
            Ok(rows) => rows,
            Err(e) => {
                return Err(e);
            },
        };
        let clothes = match restore_all::<Clothes>(&backup.clothes) {
            Ok(rows) => rows,
            Err(e) => {
                return Err(e);
            },
        };
        let clothing_services = match restore_all::<ClothingService>(&backup.clothing_services) {
            Ok(rows) => rows,
            Err(e) => {
                return Err(e);
            },
        };
        Ok((users, clients, orders, impressions, clothes, clothing_services))
    }

    /// Puts the records of the snapshot in the place of what the store
    /// holds. Where the snapshot cannot be restored, the store stays as it
    /// is.
    pub fn restore_backup(db: &mut Database, backup: &DatabaseBackup) -> (r: Result<String, Error>)
        ensures
            match restores(*backup) {
                Ok(after) => {
                    &&& r matches Ok(message) && message@ == restore_message(backup.created_at@)
                    &&& final(db)@ == after
                    &&& after.wf()
                },
                Err(e) => r == Err::<String, Error>(e) && final(db)@ == old(db)@,
            },
    {
        let tables = match BackupService::read_snapshot(backup) {
            Ok(tables) => tables,
            Err(e) => {
                return Err(e);
            },
        };
        let restored = match Database::from_rows(
            &tables.0,
            &tables.1,
            &tables.2,
            &tables.3,
            &tables.4,
            &tables.5,
        ) {
            Ok(restored) => restored,
            Err(e) => {
                return Err(e);
            },
        };
        *db = restored;
        let message = "Database restored successfully from backup created on ".to_owned();
        Ok(message.concat(backup.created_at.as_str()))
    }
}

} // verus!
