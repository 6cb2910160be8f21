//! Impressions in the store.

use crate::database::{Database, DatabaseView};
use crate::error::{Entity, Error, Violation};
use crate::ident::random_id;
use crate::models::{Impression, ImpressionView};
use crate::ordering::{ascending, sort_ascending};
use crate::table::{
    children_of, contains_key, find, found, has_key, index_of, lemma_index_of, select_children,
    without_key, Row,
};
use crate::temporal::{clock_now, Timestamp};
use vstd::prelude::*;

verus! {

/// The impressions of the store.
pub struct ImpressionRepository;

/// What creating an impression does: the order must be in the store and
/// the identity must be new; then the impression is stored.
pub open spec fn creates_impression(
    before: DatabaseView,
    after: DatabaseView,
    r: Result<Impression, Error>,
    id: Seq<char>,
    now: Timestamp,
    order_id: Seq<char>,
    name: Seq<char>,
    size: Seq<char>,
    material: Seq<char>,
    description: Seq<char>,
    price: i64,
) -> bool {
    if !has_key(before.orders, order_id) {
        r == Err::<Impression, Error>(Error::NotFound(Entity::Order)) && after == before
    } else if has_key(before.impressions, id) {
        r == Err::<Impression, Error>(
            Error::StoreFailure(Violation::DuplicateKey(Entity::Impression)),
        ) && after == before
    } else {
        r matches Ok(impression) && impression@ == (ImpressionView {
            id,
            order_id,
            name,
            size,
            material,
            description,
            price,
            created_at: now,
            updated_at: now,
        }) && after == (DatabaseView {
            impressions: before.impressions.push(impression),
            ..before
        })
    }
}

/// What changing an impression does: where it is in the store, it holds
/// the new texts and the new price.
pub open spec fn updates_impression(
    before: DatabaseView,
    after: DatabaseView,
    r: Result<Option<Impression>, Error>,
    now: Timestamp,
    id: Seq<char>,
    name: Seq<char>,
    size: Seq<char>,
    material: Seq<char>,
    description: Seq<char>,
    price: i64,
) -> bool {
    match index_of(before.impressions, id) {
        None => r == Ok::<Option<Impression>, Error>(None) && after == before,
        Some(i) => r matches Ok(Some(impression)) && impression@ == (ImpressionView {
            name,
            size,
            material,
            description,
            price,
            updated_at: now,
            ..before.impressions[i]@
        }) && after == (DatabaseView {
            impressions: before.impressions.update(i, impression),
            ..before
        }),
    }
}

impl ImpressionRepository {
    /// Creates an impression at the instant `now` under the identity `id`.
    pub fn create_with(
        &self,
        db: &mut Database,
        id: String,
        now: Timestamp,
        order_id: String,
        name: String,
        size: String,
        material: String,
        description: String,
        price: i64,
    ) -> (r: Result<Impression, Error>)
        ensures
            creates_impression(
                old(db)@,
                final(db)@,
                r,
                id@,
                now,
                order_id@,
                name@,
                size@,
                material@,
                description@,
                price,
            ),
            old(db)@.wf() ==> final(db)@.wf(),
    {
        if !contains_key(db.orders(), &order_id) {
            return Err(Error::NotFound(Entity::Order));
        }
        let impression = Impression {
            id,
            order_id,
            name,
            size,
            material,
            description,
            price,
            created_at: now,
            updated_at: now,
        };
        let stored = impression.duplicate();
        match db.insert_impression(impression) {
            Ok(()) => Ok(stored),
            Err(e) => Err(e),
        }
    }

    /// Creates an impression now, under a fresh identity.
    pub fn create(
        &self,
        db: &mut Database,
        order_id: String,
        name: String,
        size: String,
        material: String,
        description: String,
        price: i64,
    ) -> (r: Result<Impression, Error>)
        ensures
            exists|id: Seq<char>, now: Timestamp|
                creates_impression(
                    old(db)@,
                    final(db)@,
                    r,
                    id,
                    now,
                    order_id@,
                    name@,
                    size@,
                    material@,
                    description@,
                    price,
                ),
            old(db)@.wf() ==> final(db)@.wf(),
    {
        let id = random_id();
        let now = clock_now();
        self.create_with(db, id, now, order_id, name, size, material, description, price)
    }

    /// The impression `id`, if it is in the store.
    pub fn get_by_id(&self, db: &Database, id: &str) -> (r: Result<Option<Impression>, Error>)
        ensures
            r == Ok::<Option<Impression>, Error>(found(db@.impressions, id@)),
    {
        Ok(find(db.impressions(), &id.to_owned()))
    }

    /// The impressions of the order `order_id`, earliest first.
    pub fn get_by_order_id(&self, db: &Database, order_id: &str) -> (r: Result<
        Vec<Impression>,
        Error,
    >)
        ensures
            r matches Ok(impressions) && impressions@ == ascending(
                children_of(db@.impressions, order_id@),
            ),
    {
        let mine = select_children(db.impressions(), &order_id.to_owned());
        Ok(sort_ascending(&mine))
    }

    /// Changes the impression `id` at the instant `now`.
    pub fn update_at(
        &self,
        db: &mut Database,
        now: Timestamp,
        id: &str,
        name: String,
        size: String,
        material: String,
        description: String,
        price: i64,
    ) -> (r: Result<Option<Impression>, Error>)
        ensures
            updates_impression(
                old(db)@,
                final(db)@,
                r,
                now,
                id@,
                name@,
                size@,
                material@,
                description@,
                price,
            ),
            old(db)@.wf() ==> final(db)@.wf(),
    {
        let current = match find(db.impressions(), &id.to_owned()) {
            Some(impression) => impression,
            None => {
                return Ok(None);
            },
        };
        let impression = Impression {
            id: current.id,
            order_id: current.order_id,
            name,
            size,
            material,
            description,
            price,
            created_at: current.created_at,
            updated_at: now,
        };
        let stored = impression.duplicate();
        proof {
            lemma_index_of(db@.impressions, id@);
        }
        match db.put_impression(impression) {
            Ok(_) => Ok(Some(stored)),
            Err(e) => Err(e),
        }
    }

    /// Changes the impression `id` now.
    pub fn update(
        &self,
        db: &mut Database,
        id: &str,
        name: String,
        size: String,
        material: String,
        description: String,
        price: i64,
    ) -> (r: Result<Option<Impression>, Error>)
        ensures
            exists|now: Timestamp|
                updates_impression(
                    old(db)@,
                    final(db)@,
                    r,
                    now,
                    id@,
                    name@,
                    size@,
                    material@,
                    description@,
                    price,
                ),
            old(db)@.wf() ==> final(db)@.wf(),
    {
        let now = clock_now();
        self.update_at(db, now, id, name, size, material, description, price)
    }

    /// Deletes the impression `id`. Returns whether there was one.
    pub fn delete(&self, db: &mut Database, id: &str) -> (r: Result<bool, Error>)
        ensures
            r == Ok::<bool, Error>(has_key(old(db)@.impressions, id@)),
            final(db)@ == (DatabaseView {
                impressions: without_key(old(db)@.impressions, id@),
                ..old(db)@
            }),
            old(db)@.wf() ==> final(db)@.wf(),
    {
        Ok(db.delete_impression(&id.to_owned()))
    }
}

} // verus!
