//! Impressions: creating, finding, changing and deleting them. Whatever
//! changes the impressions of an order recalculates the order.

use crate::database::{Database, DatabaseView};
use crate::dto::{CreateImpressionDto, ImpressionDto, UpdateImpressionDto};
use crate::error::{Entity, Error};
use crate::ident::random_id;
use crate::models::Impression;
use crate::ordering::ascending;
use crate::repositories::impression_repository::{creates_impression, updates_impression};
use crate::repositories::ImpressionRepository;
use crate::services::order_service::{amounts_current, recalculates, OrderService};
use crate::table::{children_of, found, lemma_index_of, without_key, Child, Row};
use crate::temporal::{clock_now, Timestamp};
use vstd::prelude::*;

verus! {

/// The operations on impressions.
pub struct ImpressionService {
    impression_repository: ImpressionRepository,
    order_service: OrderService,
}

/// The answers that stand for impressions.
pub open spec fn impression_dtos(impressions: Seq<Impression>) -> Seq<ImpressionDto> {
    Seq::new(impressions.len(), |i: int| ImpressionDto::of(impressions[i]))
}

/// What recalculating an order after a change does to the outcome of the
/// change: the outcome stands where the recalculation succeeds, and gives
/// way to the failure of the recalculation where it does not. The change
/// itself stays.
pub open spec fn then_recalculates<T>(
    mid: DatabaseView,
    after: DatabaseView,
    outcome: T,
    r: Result<T, Error>,
    now: Timestamp,
    order_id: Seq<char>,
) -> bool {
    exists|recalculated: Result<(), Error>|
        {
            &&& #[trigger] recalculates(mid, after, recalculated, now, order_id)
            &&& r == match recalculated {
                Ok(()) => Ok::<T, Error>(outcome),
                Err(e) => Err(e),
            }
        }
}

/// What creating an impression through the service does: the impression is
/// created and its order is recalculated.
pub open spec fn creates_impression_dto(
    before: DatabaseView,
    after: DatabaseView,
    r: Result<ImpressionDto, Error>,
    id: Seq<char>,
    now: Timestamp,
    dto: CreateImpressionDto,
) -> bool {
    exists|mid: DatabaseView, created: Result<Impression, Error>|
        {
            &&& #[trigger] creates_impression(
                before,
                mid,
                created,
                id,
                now,
                dto.order_id@,
                dto.name@,
                dto.size@,
                dto.material@,
                dto.description@,
                dto.price,
            )
            &&& match created {
                Err(e) => r == Err::<ImpressionDto, Error>(e) && after == mid,
                Ok(impression) => then_recalculates(
                    mid,
                    after,
                    ImpressionDto::of(impression),
                    r,
                    now,
                    dto.order_id@,
                ),
            }
        }
}

/// What changing an impression through the service does: the impression
/// must be in the store; then it is changed and its order is recalculated.
pub open spec fn updates_impression_dto(
    before: DatabaseView,
    after: DatabaseView,
    r: Result<Option<ImpressionDto>, Error>,
    now: Timestamp,
    id: Seq<char>,
    dto: UpdateImpressionDto,
) -> bool {
    match found(before.impressions, id) {
        None => r == Err::<Option<ImpressionDto>, Error>(Error::NotFound(Entity::Impression))
            && after == before,
        Some(current) => exists|mid: DatabaseView, updated: Result<Option<Impression>, Error>|
            {
                &&& #[trigger] updates_impression(
                    before,
                    mid,
                    updated,
                    now,
                    id,
                    dto.name@,
                    dto.size@,
                    dto.material@,
                    dto.description@,
                    dto.price,
                )
                &&& updated matches Ok(Some(impression))
                &&& then_recalculates(
                    mid,
                    after,
                    Some(ImpressionDto::of(impression)),
                    r,
                    now,
                    current.parent(),
                )
            },
    }
}

/// What deleting an impression through the service does: the impression
/// must be in the store; then it is deleted and its order is recalculated.
pub open spec fn deletes_impression(
    before: DatabaseView,
    after: DatabaseView,
    r: Result<bool, Error>,
    now: Timestamp,
    id: Seq<char>,
) -> bool {
    match found(before.impressions, id) {
        None => r == Err::<bool, Error>(Error::NotFound(Entity::Impression)) && after == before,
        Some(current) => then_recalculates(
            DatabaseView { impressions: without_key(before.impressions, id), ..before },
            after,
            true,
            r,
            now,
            current.parent(),
        ),
    }
}

impl ImpressionService {
    pub fn new() -> (service: ImpressionService) {
        ImpressionService {
            impression_repository: ImpressionRepository,
            order_service: OrderService::new(),
        }
    }

    /// Creates an impression at the instant `now` under the identity `id`.
    pub fn create_impression_with(
        &self,
        db: &mut Database,
        id: String,
        now: Timestamp,
        dto: CreateImpressionDto,
    ) -> (r: Result<ImpressionDto, Error>)
        ensures
            creates_impression_dto(old(db)@, final(db)@, r, id@, now, dto),
            r is Ok ==> amounts_current(final(db)@, dto.order_id@),
            old(db)@.wf() ==> final(db)@.wf(),
    {
        let created = self.impression_repository.create_with(
            db,
            id,
            now,
            dto.order_id.clone(),
            dto.name,
            dto.size,
            dto.material,
            dto.description,
            dto.price,
        );
        let impression = match created {
            Ok(impression) => impression,
            Err(e) => {
                return Err(e);
            },
        };
        match self.order_service.recalculate_order_totals_at(db, now, dto.order_id.as_str()) {
            Ok(()) => ImpressionDto::from_model(impression),
            Err(e) => Err(e),
        }
    }

    /// Creates an impression now, under a fresh identity.
    pub fn create_impression(&self, db: &mut Database, dto: CreateImpressionDto) -> (r: Result<
        ImpressionDto,
        Error,
    >)
        ensures
            exists|id: Seq<char>, now: Timestamp|
                creates_impression_dto(old(db)@, final(db)@, r, id, now, dto),
            r is Ok ==> amounts_current(final(db)@, dto.order_id@),
            old(db)@.wf() ==> final(db)@.wf(),
    {
        let id = random_id();
        let now = clock_now();
        self.create_impression_with(db, id, now, dto)
    }

    /// The impression `id`, if it is in the store.
    pub fn get_impression_by_id(&self, db: &Database, id: &str) -> (r: Result<
        Option<ImpressionDto>,
        Error,
    >)
        ensures
            r == Ok::<Option<ImpressionDto>, Error>(
                match found(db@.impressions, id@) {
                    Some(impression) => Some(ImpressionDto::of(impression)),
                    None => None,
                },
            ),
    {
        match self.impression_repository.get_by_id(db, id) {
            Ok(Some(impression)) => match ImpressionDto::from_model(impression) {
                Ok(dto) => Ok(Some(dto)),
                Err(e) => Err(e),
            },
            Ok(None) => Ok(None),
            Err(e) => Err(e),
        }
    }

    /// The impressions of the order `order_id`, earliest first.
    pub fn get_impressions_by_order_id(&self, db: &Database, order_id: &str) -> (r: Result<
        Vec<ImpressionDto>,
        Error,
    >)
        ensures
            r matches Ok(dtos) && dtos@ == impression_dtos(
                ascending(children_of(db@.impressions, order_id@)),
            ),
    {
        let impressions = match self.impression_repository.get_by_order_id(db, order_id) {
            Ok(impressions) => impressions,
            Err(e) => {
                return Err(e);
            },
        };
        let mut dtos: Vec<ImpressionDto> = Vec::new();
        let mut i: usize = 0;
        while i < impressions.len()
            invariant
                i <= impressions.len(),
                dtos.len() == i,
                forall|j: int|
                    0 <= j < i ==> #[trigger] dtos[j] == ImpressionDto::of(impressions[j]),
            decreases impressions.len() - i,
        {
            match ImpressionDto::from_model(impressions[i].duplicate()) {
                Ok(dto) => {
                    dtos.push(dto);
                },
                Err(e) => {
                    return Err(e);
                },
            }
            i += 1;
        }
        assert(dtos@ =~= impression_dtos(impressions@));
        Ok(dtos)
    }

    /// Changes the impression `id` at the instant `now`.
    pub fn update_impression_at(
        &self,
        db: &mut Database,
        now: Timestamp,
        id: &str,
        dto: UpdateImpressionDto,
    ) -> (r: Result<Option<ImpressionDto>, Error>)
        ensures
            updates_impression_dto(old(db)@, final(db)@, r, now, id@, dto),
            r is Ok ==> (found(old(db)@.impressions, id@) matches Some(current)
                && amounts_current(final(db)@, current.parent())),
            old(db)@.wf() ==> final(db)@.wf(),
    {
        let current = match self.impression_repository.get_by_id(db, id) {
            Ok(Some(current)) => current,
            _ => {
                return Err(Error::NotFound(Entity::Impression));
            },
        };
        proof {
            lemma_index_of(db@.impressions, id@);
        }
        let updated = self.impression_repository.update_at(
            db,
            now,
            id,
            dto.name,
            dto.size,
            dto.material,
            dto.description,
            dto.price,
        );
        let impression = match updated {
            Ok(Some(impression)) => impression,
            Ok(None) => {
                return Ok(None);
            },
            Err(e) => {
                return Err(e);
            },
        };
        match self.order_service.recalculate_order_totals_at(db, now, current.order_id.as_str()) {
            Ok(()) => match ImpressionDto::from_model(impression) {
                Ok(dto) => Ok(Some(dto)),
                Err(e) => Err(e),
            },
            Err(e) => Err(e),
        }
    }

    /// Changes the impression `id` now.
    pub fn update_impression(&self, db: &mut Database, id: &str, dto: UpdateImpressionDto) -> (r:
        Result<Option<ImpressionDto>, Error>)
        ensures
            exists|now: Timestamp| updates_impression_dto(old(db)@, final(db)@, r, now, id@, dto),
            old(db)@.wf() ==> final(db)@.wf(),
    {
        let now = clock_now();
        self.update_impression_at(db, now, id, dto)
    }

    /// Deletes the impression `id` at the instant `now`.
    pub fn delete_impression_at(&self, db: &mut Database, now: Timestamp, id: &str) -> (r: Result<
        bool,
        Error,
    >)
        ensures
            deletes_impression(old(db)@, final(db)@, r, now, id@),
            r is Ok ==> (found(old(db)@.impressions, id@) matches Some(current)
                && amounts_current(final(db)@, current.parent())),
            old(db)@.wf() ==> final(db)@.wf(),
    {
        let current = match self.impression_repository.get_by_id(db, id) {
            Ok(Some(current)) => current,
            _ => {
                return Err(Error::NotFound(Entity::Impression));
            },
        };
        proof {
            lemma_index_of(db@.impressions, id@);
        }
        let deleted = match self.impression_repository.delete(db, id) {
            Ok(deleted) => deleted,
            Err(e) => {
                return Err(e);
            },
        };
        match self.order_service.recalculate_order_totals_at(db, now, current.order_id.as_str()) {
            Ok(()) => Ok(deleted),
            Err(e) => Err(e),
        }
    }

    /// Deletes the impression `id` now.
    pub fn delete_impression(&self, db: &mut Database, id: &str) -> (r: Result<bool, Error>)
        ensures
            exists|now: Timestamp| deletes_impression(old(db)@, final(db)@, r, now, id@),
            old(db)@.wf() ==> final(db)@.wf(),
    {
        let now = clock_now();
        self.delete_impression_at(db, now, id)
    }
}

impl Default for ImpressionService {
    fn default() -> (service: ImpressionService) {
        ImpressionService::new()
    }
}

} // verus!
