//! Garment lines and their decoration services in the store.

use crate::database::{Database, DatabaseView};
use crate::error::{Entity, Error, Violation};
use crate::ident::random_id;
use crate::models::text::text_of;
use crate::models::{Clothes, ClothesView, ClothingService, ClothingServiceView};
use crate::ordering::{ascending, sort_ascending};
use crate::repositories::client_repository::text_or;
use crate::repositories::order_repository::value_or;
use crate::table::{
    children_of, contains_key, find, found, has_key, index_of, lemma_index_of, select_children,
    without_children_of, without_key, Row,
};
use crate::temporal::{clock_now, Timestamp};
use vstd::prelude::*;

verus! {

/// The garment lines of the store.
pub struct ClothesRepository;

/// The decoration services of the store.
pub struct ClothingServiceRepository;

/// The characters of an optional text that may itself be absent.
pub open spec fn text_of_change(change: Option<Option<String>>) -> Option<Option<Seq<char>>> {
    match change {
        Some(text) => Some(text_of(text)),
        None => None,
    }
}

/// What creating a garment line does: the order must be in the store and
/// the identity must be new; then the line is stored.
pub open spec fn creates_clothes(
    before: DatabaseView,
    after: DatabaseView,
    r: Result<Clothes, Error>,
    id: Seq<char>,
    now: Timestamp,
    order_id: Seq<char>,
    clothing_type: Seq<char>,
    custom_type: Option<Seq<char>>,
    unit_price: i64,
    sizes: Seq<char>,
    color: Seq<char>,
    total_quantity: i32,
) -> bool {
    if !has_key(before.orders, order_id) {
        r == Err::<Clothes, Error>(Error::NotFound(Entity::Order)) && after == before
    } else if has_key(before.clothes, id) {
        r == Err::<Clothes, Error>(Error::StoreFailure(Violation::DuplicateKey(Entity::Clothes)))
            && after == before
    } else {
        r matches Ok(clothes) && clothes@ == (ClothesView {
            id,
            order_id,
            clothing_type,
            custom_type,
            unit_price,
            sizes,
            color,
            total_quantity,
            created_at: now,
            updated_at: now,
        }) && after == (DatabaseView { clothes: before.clothes.push(clothes), ..before })
    }
}

/// What changing a garment line does: where it is in the store, the fields
/// that are given replace the old ones.
pub open spec fn updates_clothes(
    before: DatabaseView,
    after: DatabaseView,
    r: Result<Option<Clothes>, Error>,
    now: Timestamp,
    id: Seq<char>,
    clothing_type: Option<Seq<char>>,
    custom_type: Option<Option<Seq<char>>>,
    unit_price: Option<i64>,
    sizes: Option<Seq<char>>,
    color: Option<Seq<char>>,
    total_quantity: Option<i32>,
) -> bool {
    match index_of(before.clothes, id) {
        None => r == Ok::<Option<Clothes>, Error>(None) && after == before,
        Some(i) => {
            let old = before.clothes[i]@;
            r matches Ok(Some(clothes)) && clothes@ == (ClothesView {
                clothing_type: text_or(clothing_type, old.clothing_type),
                custom_type: value_or(custom_type, old.custom_type),
                unit_price: value_or(unit_price, old.unit_price),
                sizes: text_or(sizes, old.sizes),
                color: text_or(color, old.color),
                total_quantity: value_or(total_quantity, old.total_quantity),
                updated_at: now,
                ..old
            }) && after == (DatabaseView { clothes: before.clothes.update(i, clothes), ..before })
        },
    }
}

/// What creating a decoration service does: the garment line must be in
/// the store and the identity must be new; then the service is stored.
pub open spec fn creates_service(
    before: DatabaseView,
    after: DatabaseView,
    r: Result<ClothingService, Error>,
    id: Seq<char>,
    now: Timestamp,
    clothes_id: Seq<char>,
    service_type: Seq<char>,
    location: Seq<char>,
    description: Option<Seq<char>>,
    unit_price: i64,
) -> bool {
    if !has_key(before.clothes, clothes_id) {
        r == Err::<ClothingService, Error>(Error::NotFound(Entity::Clothes)) && after == before
    } else if has_key(before.clothing_services, id) {
        r == Err::<ClothingService, Error>(
            Error::StoreFailure(Violation::DuplicateKey(Entity::ClothingService)),
        ) && after == before
    } else {
        r matches Ok(service) && service@ == (ClothingServiceView {
            id,
            clothes_id,
            service_type,
            location,
            description,
            unit_price,
            created_at: now,
            updated_at: now,
        }) && after == (DatabaseView {
            clothing_services: before.clothing_services.push(service),
            ..before
        })
    }
}

/// What changing a decoration service does: where it is in the store, the
/// fields that are given replace the old ones.
pub open spec fn updates_service(
    before: DatabaseView,
    after: DatabaseView,
    r: Result<Option<ClothingService>, Error>,
    now: Timestamp,
    id: Seq<char>,
    service_type: Option<Seq<char>>,
    location: Option<Seq<char>>,
    description: Option<Option<Seq<char>>>,
    unit_price: Option<i64>,
) -> bool {
    match index_of(before.clothing_services, id) {
        None => r == Ok::<Option<ClothingService>, Error>(None) && after == before,
        Some(i) => {
            let old = before.clothing_services[i]@;
            r matches Ok(Some(service)) && service@ == (ClothingServiceView {
                service_type: text_or(service_type, old.service_type),
                location: text_or(location, old.location),
                description: value_or(description, old.description),
                unit_price: value_or(unit_price, old.unit_price),
                updated_at: now,
                ..old
            }) && after == (DatabaseView {
                clothing_services: before.clothing_services.update(i, service),
                ..before
            })
        },
    }
}

impl ClothesRepository {
    /// Creates a garment line at the instant `now` under the identity `id`.
    pub fn create_with(
        &self,
        db: &mut Database,
        id: String,
        now: Timestamp,
        order_id: String,
        clothing_type: String,
        custom_type: Option<String>,
        unit_price: i64,
        sizes: String,
        color: String,
        total_quantity: i32,
    ) -> (r: Result<Clothes, Error>)
        ensures
            creates_clothes(
                old(db)@,
                final(db)@,
                r,
                id@,
                now,
                order_id@,
                clothing_type@,
                text_of(custom_type),
                unit_price,
                sizes@,
                color@,
                total_quantity,
            ),
            old(db)@.wf() ==> final(db)@.wf(),
    {
        if !contains_key(db.orders(), &order_id) {
            return Err(Error::NotFound(Entity::Order));
        }
        let clothes = Clothes {
            id,
            order_id,
            clothing_type,
            custom_type,
            unit_price,
            sizes,
            color,
            total_quantity,
            created_at: now,
            updated_at: now,
        };
        let stored = clothes.duplicate();
        match db.insert_clothes(clothes) {
            Ok(()) => Ok(stored),
            Err(e) => Err(e),
        }
    }

    /// Creates a garment line now, under a fresh identity.
    pub fn create(
        &self,
        db: &mut Database,
        order_id: String,
        clothing_type: String,
        custom_type: Option<String>,
        unit_price: i64,
        sizes: String,
        color: String,
        total_quantity: i32,
    ) -> (r: Result<Clothes, Error>)
        ensures
            exists|id: Seq<char>, now: Timestamp|
                creates_clothes(
                    old(db)@,
                    final(db)@,
                    r,
                    id,
                    now,
                    order_id@,
                    clothing_type@,
                    text_of(custom_type),
                    unit_price,
                    sizes@,
                    color@,
                    total_quantity,
                ),
            old(db)@.wf() ==> final(db)@.wf(),
    {
        let id = random_id();
        let now = clock_now();
        self.create_with(
            db,
            id,
            now,
            order_id,
            clothing_type,
            custom_type,
            unit_price,
            sizes,
            color,
            total_quantity,
        )
    }

    /// The garment line `id`, if it is in the store.
    pub fn get_by_id(&self, db: &Database, id: &str) -> (r: Result<Option<Clothes>, Error>)
        ensures
            r == Ok::<Option<Clothes>, Error>(found(db@.clothes, id@)),
    {
        Ok(find(db.clothes(), &id.to_owned()))
    }

    /// The garment lines of the order `order_id`, earliest first.
    pub fn get_by_order_id(&self, db: &Database, order_id: &str) -> (r: Result<
        Vec<Clothes>,
        Error,
    >)
        ensures
            r matches Ok(lines) && lines@ == ascending(children_of(db@.clothes, order_id@)),
    {
        let mine = select_children(db.clothes(), &order_id.to_owned());
        Ok(sort_ascending(&mine))
    }

    /// Changes the garment line `id` at the instant `now`.
    pub fn update_at(
        &self,
        db: &mut Database,
        now: Timestamp,
        id: &str,
        clothing_type: Option<String>,
        custom_type: Option<Option<String>>,
        unit_price: Option<i64>,
        sizes: Option<String>,
        color: Option<String>,
        total_quantity: Option<i32>,
    ) -> (r: Result<Option<Clothes>, Error>)
        ensures
            updates_clothes(
                old(db)@,
                final(db)@,
                r,
                now,
                id@,
                text_of(clothing_type),
                text_of_change(custom_type),
                unit_price,
                text_of(sizes),
                text_of(color),
                total_quantity,
            ),
            old(db)@.wf() ==> final(db)@.wf(),
    {
        let current = match find(db.clothes(), &id.to_owned()) {
            Some(clothes) => clothes,
            None => {
                return Ok(None);
            },
        };
        let clothes = Clothes {
            id: current.id,
            order_id: current.order_id,
            clothing_type: clothing_type.unwrap_or(current.clothing_type),
            custom_type: custom_type.unwrap_or(current.custom_type),
            unit_price: unit_price.unwrap_or(current.unit_price),
            sizes: sizes.unwrap_or(current.sizes),
            color: color.unwrap_or(current.color),
            total_quantity: total_quantity.unwrap_or(current.total_quantity),
            created_at: current.created_at,
            updated_at: now,
        };
        let stored = clothes.duplicate();
        proof {
            lemma_index_of(db@.clothes, id@);
        }
        match db.put_clothes(clothes) {
            Ok(_) => Ok(Some(stored)),
            Err(e) => Err(e),
        }
    }

    /// Changes the garment line `id` now.
    pub fn update(
        &self,
        db: &mut Database,
        id: &str,
        clothing_type: Option<String>,
        custom_type: Option<Option<String>>,
        unit_price: Option<i64>,
        sizes: Option<String>,
        color: Option<String>,
        total_quantity: Option<i32>,
    ) -> (r: Result<Option<Clothes>, Error>)
        ensures
            exists|now: Timestamp|
                updates_clothes(
                    old(db)@,
                    final(db)@,
                    r,
                    now,
                    id@,
                    text_of(clothing_type),
                    text_of_change(custom_type),
                    unit_price,
                    text_of(sizes),
                    text_of(color),
                    total_quantity,
                ),
            old(db)@.wf() ==> final(db)@.wf(),
    {
        let now = clock_now();
        self.update_at(
            db,
            now,
            id,
            clothing_type,
            custom_type,
            unit_price,
            sizes,
            color,
            total_quantity,
        )
    }

    /// Deletes the garment line `id` and its services. Returns whether
    /// there was such a line.
    pub fn delete(&self, db: &mut Database, id: &str) -> (r: Result<bool, Error>)
        ensures
            r == Ok::<bool, Error>(has_key(old(db)@.clothes, id@)),
            final(db)@ == old(db)@.without_clothes(id@),
            old(db)@.wf() ==> final(db)@.wf(),
    {
        Ok(db.delete_clothes(&id.to_owned()))
    }
}

impl ClothingServiceRepository {
    /// Creates a decoration service at the instant `now` under the
    /// identity `id`.
    pub fn create_with(
        &self,
        db: &mut Database,
        id: String,
        now: Timestamp,
        clothes_id: String,
        service_type: String,
        location: String,
        description: Option<String>,
        unit_price: i64,
    ) -> (r: Result<ClothingService, Error>)
        ensures
            creates_service(
                old(db)@,
                final(db)@,
                r,
                id@,
                now,
                clothes_id@,
                service_type@,
                location@,
                text_of(description),
                unit_price,
            ),
            old(db)@.wf() ==> final(db)@.wf(),
    {
        if !contains_key(db.clothes(), &clothes_id) {
            return Err(Error::NotFound(Entity::Clothes));
        }
        let service = ClothingService {
            id,
            clothes_id,
            service_type,
            location,
            description,
            unit_price,
            created_at: now,
            updated_at: now,
        };
        let stored = service.duplicate();
        match db.insert_clothing_service(service) {
            Ok(()) => Ok(stored),
            Err(e) => Err(e),
        }
    }

    /// Creates a decoration service now, under a fresh identity.
    pub fn create(
        &self,
        db: &mut Database,
        clothes_id: String,
        service_type: String,
        location: String,
        description: Option<String>,
        unit_price: i64,
    ) -> (r: Result<ClothingService, Error>)
        ensures
            exists|id: Seq<char>, now: Timestamp|
                creates_service(
                    old(db)@,
                    final(db)@,
                    r,
                    id,
                    now,
                    clothes_id@,
                    service_type@,
                    location@,
                    text_of(description),
                    unit_price,
                ),
            old(db)@.wf() ==> final(db)@.wf(),
    {
        let id = random_id();
        let now = clock_now();
        self.create_with(db, id, now, clothes_id, service_type, location, description, unit_price)
    }

    /// The decoration service `id`, if it is in the store.
    pub fn get_by_id(&self, db: &Database, id: &str) -> (r: Result<Option<ClothingService>, Error>)
        ensures
            r == Ok::<Option<ClothingService>, Error>(found(db@.clothing_services, id@)),
    {
        Ok(find(db.clothing_services(), &id.to_owned()))
    }

    /// The decoration services of the garment line `clothes_id`, earliest
    /// first.
    pub fn get_by_clothes_id(&self, db: &Database, clothes_id: &str) -> (r: Result<
        Vec<ClothingService>,
        Error,
    >)
        ensures
            r matches Ok(services) && services@ == ascending(
                children_of(db@.clothing_services, clothes_id@),
            ),
    {
        let mine = select_children(db.clothing_services(), &clothes_id.to_owned());
        Ok(sort_ascending(&mine))
    }

    /// Changes the decoration service `id` at the instant `now`.
    pub fn update_at(
        &self,
        db: &mut Database,
        now: Timestamp,
        id: &str,
        service_type: Option<String>,
        location: Option<String>,
        description: Option<Option<String>>,
        unit_price: Option<i64>,
    ) -> (r: Result<Option<ClothingService>, Error>)
        ensures
            updates_service(
                old(db)@,
                final(db)@,
                r,
                now,
                id@,
                text_of(service_type),
                text_of(location),
                text_of_change(description),
                unit_price,
            ),
            old(db)@.wf() ==> final(db)@.wf(),
    {
        let current = match find(db.clothing_services(), &id.to_owned()) {
            Some(service) => service,
            None => {
                return Ok(None);
            },
        };
        let service = ClothingService {
            id: current.id,
            clothes_id: current.clothes_id,
            service_type: service_type.unwrap_or(current.service_type),
            location: location.unwrap_or(current.location),
            description: description.unwrap_or(current.description),
            unit_price: unit_price.unwrap_or(current.unit_price),
            created_at: current.created_at,
            updated_at: now,
        };
        let stored = service.duplicate();
        proof {
            lemma_index_of(db@.clothing_services, id@);
        }
        match db.put_clothing_service(service) {
            Ok(_) => Ok(Some(stored)),
            Err(e) => Err(e),
        }
    }

    /// Changes the decoration service `id` now.
    pub fn update(
        &self,
        db: &mut Database,
        id: &str,
        service_type: Option<String>,
        location: Option<String>,
        description: Option<Option<String>>,
        unit_price: Option<i64>,
    ) -> (r: Result<Option<ClothingService>, Error>)
        ensures
            exists|now: Timestamp|
                updates_service(
                    old(db)@,
                    final(db)@,
                    r,
                    now,
                    id@,
                    text_of(service_type),
                    text_of(location),
                    text_of_change(description),
                    unit_price,
                ),
            old(db)@.wf() ==> final(db)@.wf(),
    {
        let now = clock_now();
        self.update_at(db, now, id, service_type, location, description, unit_price)
    }

    /// Deletes the decoration service `id`. Returns whether there was one.
    pub fn delete(&self, db: &mut Database, id: &str) -> (r: Result<bool, Error>)
        ensures
            r == Ok::<bool, Error>(has_key(old(db)@.clothing_services, id@)),
            final(db)@ == (DatabaseView {
                clothing_services: without_key(old(db)@.clothing_services, id@),
                ..old(db)@
            }),
            old(db)@.wf() ==> final(db)@.wf(),
    {
        Ok(db.delete_clothing_service(&id.to_owned()))
    }

    /// Deletes the decoration services of the garment line `clothes_id`.
    /// Returns how many there were.
    pub fn delete_by_clothes_id(&self, db: &mut Database, clothes_id: &str) -> (r: Result<
        u64,
        Error,
    >)
        ensures
            r == Ok::<u64, Error>(
                children_of(old(db)@.clothing_services, clothes_id@).len() as u64,
            ),
            final(db)@ == (DatabaseView {
                clothing_services: without_children_of(
                    old(db)@.clothing_services,
                    clothes_id@,
                ),
                ..old(db)@
            }),
            old(db)@.wf() ==> final(db)@.wf(),
    {
        let count = db.delete_services_of(&clothes_id.to_owned());
        Ok(count as u64)
    }
}

} // verus!
