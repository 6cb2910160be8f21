//! Garment lines and their decoration services: creating, finding,
//! changing and deleting them. Whatever changes the garment lines of an order,
//! or their services, recalculates the order.

use crate::database::{Database, DatabaseView};
use crate::dto::clothes_dto::{
    convert_services, lemma_services_of_models_len, services_of_models, total_quantity_of,
    ClothesDtoView,
};
use crate::dto::{
    ClothesDto, ClothingServiceDto, CreateClothesDto, CreateClothingServiceDto, UpdateClothesDto,
    UpdateClothingServiceDto,
};
use crate::error::{Entity, Error, Invalid, Violation};
use crate::ident::random_id;
use crate::models::sizes::sizes_text;
use crate::models::text::text_of;
use crate::models::{Clothes, ClothingService, ClothingType, ServiceLocation, ServiceType};
use crate::ordering::ascending;
use crate::pricing::{fits, lines_fit, order_clothes_total, sum_clothes_prices};
use crate::repositories::clothes_repository::{
    creates_clothes, creates_service, text_of_change, updates_clothes, updates_service,
};
use crate::repositories::{ClothesRepository, ClothingServiceRepository};
use crate::services::impression_service::then_recalculates;
use crate::services::order_service::{amounts_current, recalculates, OrderService};
use crate::table::{
    children_of, found, lemma_index_of, select_children, without_key, Child, Record, Row,
};
use crate::temporal::{clock_now, Timestamp};
use vstd::prelude::*;

verus! {

/// The operations on garment lines and their decoration services.
pub struct ClothesService {
    clothes_repository: ClothesRepository,
    clothing_service_repository: ClothingServiceRepository,
    order_service: OrderService,
}

/// The characters of each text.
pub open spec fn texts(ids: Seq<String>) -> Seq<Seq<char>> {
    Seq::new(ids.len(), |i: int| ids[i]@)
}

/// What each garment line holds.
pub open spec fn dto_views(dtos: Seq<ClothesDto>) -> Seq<ClothesDtoView> {
    Seq::new(dtos.len(), |i: int| dtos[i]@)
}

/// The outcome of adding services, with the services as a sequence.
pub open spec fn services_view(r: Result<Vec<ClothingService>, Error>) -> Result<
    Seq<ClothingService>,
    Error,
> {
    match r {
        Ok(services) => Ok(services@),
        Err(e) => Err(e),
    }
}

/// The services of the garment line `clothes_id`, earliest first.
pub open spec fn services_of_line(db: DatabaseView, clothes_id: Seq<char>) -> Seq<
    ClothingService,
> {
    ascending(children_of(db.clothing_services, clothes_id))
}

/// The garment lines that the records `lines` stand for, each with its
/// services, or the failure of the first record that stands for none.
pub open spec fn lines_of_models(db: DatabaseView, lines: Seq<Clothes>) -> Result<
    Seq<ClothesDtoView>,
    Error,
>
    decreases lines.len(),
{
    if lines.len() == 0 {
        Ok(Seq::empty())
    } else {
        match lines_of_models(db, lines.drop_last()) {
            Ok(front) => match ClothesDto::of(
                lines.last(),
                services_of_line(db, lines.last().key()),
            ) {
                Ok(last) => Ok(front.push(last)),
                Err(e) => Err(e),
            },
            Err(e) => Err(e),
        }
    }
}

/// The new text of a kind, where there is a new kind.
pub open spec fn kind_label(kind: Option<ClothingType>) -> Option<Seq<char>> {
    match kind {
        Some(k) => Some(k.label()),
        None => None,
    }
}

/// The new text of a service kind, where there is a new one.
pub open spec fn service_label(kind: Option<ServiceType>) -> Option<Seq<char>> {
    match kind {
        Some(k) => Some(k.label()),
        None => None,
    }
}

/// The new text of a placement, where there is a new one.
pub open spec fn location_label(place: Option<ServiceLocation>) -> Option<Seq<char>> {
    match place {
        Some(p) => Some(p.label()),
        None => None,
    }
}

/// The steps of adding services to a garment line: `states` are the stores
/// before the first step and after each step, `created` what each step
/// gave. Each step creates the service at its position under the identity at
/// its position; only the last step may have failed, and then there are no
/// more steps.
pub open spec fn services_added(
    before: DatabaseView,
    after: DatabaseView,
    outcome: Result<Seq<ClothingService>, Error>,
    ids: Seq<Seq<char>>,
    now: Timestamp,
    clothes_id: Seq<char>,
    dtos: Seq<CreateClothingServiceDto>,
    states: Seq<DatabaseView>,
    created: Seq<Result<ClothingService, Error>>,
) -> bool {
    &&& created.len() <= dtos.len()
    &&& states.len() == created.len() + 1
    &&& states[0] == before
    &&& states[created.len() as int] == after
    &&& forall|k: int|
        0 <= k < created.len() ==> creates_service(
            states[k],
            states[k + 1],
            #[trigger] created[k],
            ids[k],
            now,
            clothes_id,
            dtos[k].service_type.label(),
            dtos[k].location.label(),
            text_of(dtos[k].description),
            dtos[k].unit_price,
        )
    &&& forall|k: int| 0 <= k < created.len() - 1 ==> #[trigger] created[k] is Ok
    &&& match outcome {
        Ok(services) => {
            &&& created.len() == dtos.len()
            &&& services.len() == dtos.len()
            &&& forall|k: int|
                0 <= k < created.len() ==> #[trigger] created[k] == Ok::<ClothingService, Error>(
                    services[k],
                )
        },
        Err(e) => created.len() > 0 && created[created.len() - 1] == Err::<
            ClothingService,
            Error,
        >(e),
    }
}

/// What adding services to a garment line does: they are created one after
/// the other, each under its identity, up to the first that is refused.
pub open spec fn adds_services(
    before: DatabaseView,
    after: DatabaseView,
    outcome: Result<Seq<ClothingService>, Error>,
    ids: Seq<Seq<char>>,
    now: Timestamp,
    clothes_id: Seq<char>,
    dtos: Seq<CreateClothingServiceDto>,
) -> bool {
    exists|states: Seq<DatabaseView>, created: Seq<Result<ClothingService, Error>>|
        #[trigger] services_added(
            before,
            after,
            outcome,
            ids,
            now,
            clothes_id,
            dtos,
            states,
            created,
        )
}

/// The last step of creating a garment line: the order is recalculated,
/// and the line comes back with its services.
pub open spec fn line_recalculated(
    with_services: DatabaseView,
    after: DatabaseView,
    r: Result<ClothesDto, Error>,
    now: Timestamp,
    order_id: Seq<char>,
    clothes: Clothes,
    created: Seq<ClothingService>,
) -> bool {
    exists|recalculated: Result<(), Error>|
        {
            &&& #[trigger] recalculates(with_services, after, recalculated, now, order_id)
            &&& match recalculated {
                Err(e) => r == Err::<ClothesDto, Error>(e),
                Ok(()) => match ClothesDto::of(clothes, created) {
                    Ok(view) => r matches Ok(line) && line@ == view,
                    Err(e) => r == Err::<ClothesDto, Error>(e),
                },
            }
        }
}

/// The steps of creating a garment line that follow the creation of the
/// line itself: its services are created, and then the order is
/// recalculated.
pub open spec fn line_serviced(
    with_line: DatabaseView,
    after: DatabaseView,
    r: Result<ClothesDto, Error>,
    service_ids: Seq<Seq<char>>,
    now: Timestamp,
    dto: CreateClothesDto,
    clothes: Clothes,
) -> bool {
    exists|with_services: DatabaseView, services: Result<Seq<ClothingService>, Error>|
        {
            &&& #[trigger] adds_services(
                with_line,
                with_services,
                services,
                service_ids,
                now,
                clothes.key(),
                dto.services@,
            )
            &&& match services {
                Err(e) => r == Err::<ClothesDto, Error>(e) && after == with_services,
                Ok(created) => line_recalculated(
                    with_services,
                    after,
                    r,
                    now,
                    dto.order_id@,
                    clothes,
                    created,
                ),
            }
        }
}

/// The steps of creating a garment line once its quantities are added up
/// and encoded: the line is created, then its services, and then the order
/// is recalculated.
pub open spec fn line_created(
    before: DatabaseView,
    after: DatabaseView,
    r: Result<ClothesDto, Error>,
    clothes_id: Seq<char>,
    service_ids: Seq<Seq<char>>,
    now: Timestamp,
    dto: CreateClothesDto,
    sizes: Seq<char>,
    quantity: i32,
) -> bool {
    exists|with_line: DatabaseView, line: Result<Clothes, Error>|
        {
            &&& #[trigger] creates_clothes(
                before,
                with_line,
                line,
                clothes_id,
                now,
                dto.order_id@,
                dto.clothing_type.label(),
                text_of(dto.custom_type),
                dto.unit_price,
                sizes,
                dto.color@,
                quantity,
            )
            &&& match line {
                Err(e) => r == Err::<ClothesDto, Error>(e) && after == with_line,
                Ok(clothes) => line_serviced(with_line, after, r, service_ids, now, dto, clothes),
            }
        }
}

/// What creating a garment line through the service does. There must be
/// one identity for each service, and the quantities must add up to what a
/// record can hold and must have an encoding; then the line is created, then
/// its services, and then the order is recalculated. What was created stays
/// where a later step fails.
pub open spec fn creates_clothes_dto(
    before: DatabaseView,
    after: DatabaseView,
    r: Result<ClothesDto, Error>,
    clothes_id: Seq<char>,
    service_ids: Seq<Seq<char>>,
    now: Timestamp,
    dto: CreateClothesDto,
) -> bool {
    if service_ids.len() != dto.services.len() {
        r == Err::<ClothesDto, Error>(Error::InvalidArgument(Invalid::Identities)) && after
            == before
    } else {
        line_prepared(before, after, r, clothes_id, service_ids, now, dto)
    }
}

/// The steps of creating a garment line once there is an identity for each
/// of its services.
pub open spec fn line_prepared(
    before: DatabaseView,
    after: DatabaseView,
    r: Result<ClothesDto, Error>,
    clothes_id: Seq<char>,
    service_ids: Seq<Seq<char>>,
    now: Timestamp,
    dto: CreateClothesDto,
) -> bool {
    match total_quantity_of(dto.sizes) {
        None => r == Err::<ClothesDto, Error>(Error::InvalidArgument(Invalid::Quantity)) && after
            == before,
        Some(quantity) => match sizes_text(dto.sizes) {
            None => r == Err::<ClothesDto, Error>(Error::InvalidArgument(Invalid::Sizes)) && after
                == before,
            Some(sizes) => line_created(
                before,
                after,
                r,
                clothes_id,
                service_ids,
                now,
                dto,
                sizes,
                quantity,
            ),
        },
    }
}

/// The new encoding of the quantities and the new number of pieces of a
/// change to a garment line: none of either where the quantities stay as
/// they are; a failure where the new quantities have no encoding or add up
/// to more than a record can hold.
pub open spec fn new_sizes(
    dto: UpdateClothesDto,
) -> Result<(Option<Seq<char>>, Option<i32>), Error> {
    match dto.sizes {
        None => Ok((None, None)),
        Some(sizes) => match sizes_text(sizes) {
            None => Err(Error::InvalidArgument(Invalid::Sizes)),
            Some(text) => match total_quantity_of(sizes) {
                None => Err(Error::InvalidArgument(Invalid::Quantity)),
                Some(quantity) => Ok((Some(text), Some(quantity))),
            },
        },
    }
}

/// The last step of changing a garment line: the order is recalculated,
/// and the line comes back with its services.
pub open spec fn line_update_recalculated(
    mid: DatabaseView,
    after: DatabaseView,
    r: Result<Option<ClothesDto>, Error>,
    now: Timestamp,
    order_id: Seq<char>,
    clothes: Clothes,
) -> bool {
    exists|recalculated: Result<(), Error>|
        {
            &&& #[trigger] recalculates(mid, after, recalculated, now, order_id)
            &&& match recalculated {
                Err(e) => r == Err::<Option<ClothesDto>, Error>(e),
                Ok(()) => match ClothesDto::of(clothes, services_of_line(mid, clothes.key())) {
                    Ok(view) => r matches Ok(Some(line)) && line@ == view,
                    Err(e) => r == Err::<Option<ClothesDto>, Error>(e),
                },
            }
        }
}

/// The steps of changing a garment line once its new quantities are added
/// up and encoded: the line is changed, and then the order is recalculated.
pub open spec fn line_updated(
    before: DatabaseView,
    after: DatabaseView,
    r: Result<Option<ClothesDto>, Error>,
    now: Timestamp,
    id: Seq<char>,
    dto: UpdateClothesDto,
    order_id: Seq<char>,
    sizes: Option<Seq<char>>,
    quantity: Option<i32>,
) -> bool {
    exists|mid: DatabaseView, updated: Result<Option<Clothes>, Error>|
        {
            &&& #[trigger] updates_clothes(
                before,
                mid,
                updated,
                now,
                id,
                kind_label(dto.clothing_type),
                text_of_change(dto.custom_type),
                dto.unit_price,
                sizes,
                text_of(dto.color),
                quantity,
            )
            &&& updated matches Ok(Some(clothes))
            &&& line_update_recalculated(mid, after, r, now, order_id, clothes)
        }
}

/// What changing a garment line through the service does. The line must
/// be in the store, and new quantities must have an encoding and add up to
/// what a record can hold; then the line is changed and its order is
/// recalculated.
pub open spec fn updates_clothes_dto(
    before: DatabaseView,
    after: DatabaseView,
    r: Result<Option<ClothesDto>, Error>,
    now: Timestamp,
    id: Seq<char>,
    dto: UpdateClothesDto,
) -> bool {
    match found(before.clothes, id) {
        None => r == Err::<Option<ClothesDto>, Error>(Error::NotFound(Entity::Clothes)) && after
            == before,
        Some(current) => match new_sizes(dto) {
            Err(e) => r == Err::<Option<ClothesDto>, Error>(e) && after == before,
            Ok(new) => line_updated(before, after, r, now, id, dto, current.parent(), new.0, new.1),
        },
    }
}

/// What deleting a garment line through the service does: the line must
/// be in the store; then it is deleted with its services, and its order is
/// recalculated.
pub open spec fn deletes_clothes(
    before: DatabaseView,
    after: DatabaseView,
    r: Result<bool, Error>,
    now: Timestamp,
    id: Seq<char>,
) -> bool {
    match found(before.clothes, id) {
        None => r == Err::<bool, Error>(Error::NotFound(Entity::Clothes)) && after == before,
        Some(current) => then_recalculates(
            before.without_clothes(id),
            after,
            true,
            r,
            now,
            current.parent(),
        ),
    }
}

/// The last step of adding a service: the order is recalculated, and the
/// service comes back.
pub open spec fn service_recalculated(
    mid: DatabaseView,
    after: DatabaseView,
    r: Result<ClothingServiceDto, Error>,
    now: Timestamp,
    order_id: Seq<char>,
    service: ClothingService,
) -> bool {
    exists|recalculated: Result<(), Error>|
        {
            &&& #[trigger] recalculates(mid, after, recalculated, now, order_id)
            &&& r == match recalculated {
                Err(e) => Err::<ClothingServiceDto, Error>(e),
                Ok(()) => ClothingServiceDto::of(service),
            }
        }
}

/// The steps of adding a service to a garment line of the order
/// `order_id`: the service is created, and then the order is recalculated.
pub open spec fn service_created(
    before: DatabaseView,
    after: DatabaseView,
    r: Result<ClothingServiceDto, Error>,
    id: Seq<char>,
    now: Timestamp,
    clothes_id: Seq<char>,
    dto: CreateClothingServiceDto,
    order_id: Seq<char>,
) -> bool {
    exists|mid: DatabaseView, created: Result<ClothingService, Error>|
        {
            &&& #[trigger] creates_service(
                before,
                mid,
                created,
                id,
                now,
                clothes_id,
                dto.service_type.label(),
                dto.location.label(),
                text_of(dto.description),
                dto.unit_price,
            )
            &&& match created {
                Err(e) => r == Err::<ClothingServiceDto, Error>(e) && after == mid,
                Ok(service) => service_recalculated(mid, after, r, now, order_id, service),
            }
        }
}

/// What adding a service to a garment line does: the line must be in the
/// store; then the service is created and the order of the line is
/// recalculated.
pub open spec fn adds_service_dto(
    before: DatabaseView,
    after: DatabaseView,
    r: Result<ClothingServiceDto, Error>,
    id: Seq<char>,
    now: Timestamp,
    clothes_id: Seq<char>,
    dto: CreateClothingServiceDto,
) -> bool {
    match found(before.clothes, clothes_id) {
        None => r == Err::<ClothingServiceDto, Error>(Error::NotFound(Entity::Clothes)) && after
            == before,
        Some(clothes) => service_created(
            before,
            after,
            r,
            id,
            now,
            clothes_id,
            dto,
            clothes.parent(),
        ),
    }
}

/// The service that a changed record stands for, where the change was
/// made.
pub open spec fn changed_service(service: ClothingService) -> Result<
    Option<ClothingServiceDto>,
    Error,
> {
    match ClothingServiceDto::of(service) {
        Ok(dto) => Ok(Some(dto)),
        Err(e) => Err(e),
    }
}

/// The steps of changing a service of a garment line of the order
/// `order_id`: the service is changed, and then the order is recalculated.
pub open spec fn service_updated(
    before: DatabaseView,
    after: DatabaseView,
    r: Result<Option<ClothingServiceDto>, Error>,
    now: Timestamp,
    id: Seq<char>,
    dto: UpdateClothingServiceDto,
    order_id: Seq<char>,
) -> bool {
    exists|mid: DatabaseView, updated: Result<Option<ClothingService>, Error>|
        {
            &&& #[trigger] updates_service(
                before,
                mid,
                updated,
                now,
                id,
                service_label(dto.service_type),
                location_label(dto.location),
                text_of_change(dto.description),
                dto.unit_price,
            )
            &&& updated matches Ok(Some(service))
            &&& service_update_recalculated(mid, after, r, now, order_id, service)
        }
}

/// The last step of changing a service: the order is recalculated, and the
/// service comes back.
pub open spec fn service_update_recalculated(
    mid: DatabaseView,
    after: DatabaseView,
    r: Result<Option<ClothingServiceDto>, Error>,
    now: Timestamp,
    order_id: Seq<char>,
    service: ClothingService,
) -> bool {
    exists|recalculated: Result<(), Error>|
        {
            &&& #[trigger] recalculates(mid, after, recalculated, now, order_id)
            &&& r == match recalculated {
                Err(e) => Err::<Option<ClothingServiceDto>, Error>(e),
                Ok(()) => changed_service(service),
            }
        }
}

/// The order of the garment line that a service belongs to, or what is
/// missing: the service or its garment line.
pub open spec fn order_of_service(db: DatabaseView, service_id: Seq<char>) -> Result<
    Seq<char>,
    Error,
> {
    match found(db.clothing_services, service_id) {
        None => Err(Error::NotFound(Entity::ClothingService)),
        Some(service) => match found(db.clothes, service.parent()) {
            None => Err(Error::NotFound(Entity::Clothes)),
            Some(clothes) => Ok(clothes.parent()),
        },
    }
}

/// What changing a service through the service layer does: the service and
/// its garment line must be in the store; then the service is changed and
/// the order of the line is recalculated.
pub open spec fn updates_service_dto(
    before: DatabaseView,
    after: DatabaseView,
    r: Result<Option<ClothingServiceDto>, Error>,
    now: Timestamp,
    id: Seq<char>,
    dto: UpdateClothingServiceDto,
) -> bool {
    match order_of_service(before, id) {
        Err(e) => r == Err::<Option<ClothingServiceDto>, Error>(e) && after == before,
        Ok(order_id) => service_updated(before, after, r, now, id, dto, order_id),
    }
}

/// What deleting a service through the service layer does: the service and
/// its garment line must be in the store; then the service is deleted and
/// the order of the line is recalculated.
pub open spec fn deletes_service(
    before: DatabaseView,
    after: DatabaseView,
    r: Result<bool, Error>,
    now: Timestamp,
    id: Seq<char>,
) -> bool {
    match order_of_service(before, id) {
        Err(e) => r == Err::<bool, Error>(e) && after == before,
        Ok(order_id) => then_recalculates(
            DatabaseView {
                clothing_services: without_key(before.clothing_services, id),
                ..before
            },
            after,
            true,
            r,
            now,
            order_id,
        ),
    }
}

/// A failure among the first lines is the failure of them all.
proof fn lemma_lines_of_models_fail(db: DatabaseView, lines: Seq<Clothes>, n: int)
    requires
        0 <= n <= lines.len(),
        lines_of_models(db, lines.take(n)) is Err,
    ensures
        lines_of_models(db, lines) == lines_of_models(db, lines.take(n)),
    decreases lines.len() - n,
{
    if n < lines.len() {
        assert(lines.take(n + 1).drop_last() =~= lines.take(n));
        lemma_lines_of_models_fail(db, lines, n + 1);
    } else {
        assert(lines.take(n) =~= lines);
    }
}

impl ClothesService {
    pub fn new() -> (service: ClothesService) {
        ClothesService {
            clothes_repository: ClothesRepository,
            clothing_service_repository: ClothingServiceRepository,
            order_service: OrderService::new(),
        }
    }

    /// Recalculates the amounts of the order `order_id` at the instant
    /// `now`.
    pub fn update_order_totals_at(&self, db: &mut Database, now: Timestamp, order_id: &str) -> (r:
        Result<(), Error>)
        ensures
            recalculates(old(db)@, final(db)@, r, now, order_id@),
            r is Ok ==> amounts_current(final(db)@, order_id@),
            old(db)@.wf() ==> final(db)@.wf(),
    {
        self.order_service.recalculate_order_totals_at(db, now, order_id)
    }

    /// Recalculates the amounts of the order `order_id` now.
    pub fn update_order_totals(&self, db: &mut Database, order_id: &str) -> (r: Result<(), Error>)
        ensures
            exists|now: Timestamp| recalculates(old(db)@, final(db)@, r, now, order_id@),
            r is Ok ==> amounts_current(final(db)@, order_id@),
            old(db)@.wf() ==> final(db)@.wf(),
    {
        let now = clock_now();
        self.update_order_totals_at(db, now, order_id)
    }

    /// Adds services to the garment line `clothes_id` at the instant `now`,
    /// each under the identity at its position in `ids`.
    fn add_services(
        &self,
        db: &mut Database,
        ids: &Vec<String>,
        now: Timestamp,
        clothes_id: &String,
        dtos: &Vec<CreateClothingServiceDto>,
    ) -> (r: Result<Vec<ClothingService>, Error>)
        requires
            ids.len() == dtos.len(),
        ensures
            adds_services(
                old(db)@,
                final(db)@,
                services_view(r),
                texts(ids@),
                now,
                clothes_id@,
                dtos@,
            ),
            r matches Ok(services) ==> services.len() == dtos.len(),
            old(db)@.wf() ==> final(db)@.wf(),
    {
        let mut services: Vec<ClothingService> = Vec::new();
        let mut i: usize = 0;
        let ghost names = texts(ids@);
        let ghost mut states: Seq<DatabaseView> = seq![db@];
        let ghost mut created: Seq<Result<ClothingService, Error>> = Seq::empty();
        while i < dtos.len()
            invariant
                i <= dtos.len(),
                ids.len() == dtos.len(),
                names == texts(ids@),
                services.len() == i,
                created.len() == i,
                states.len() == i + 1,
                states[0] == old(db)@,
                states[i as int] == db@,
                forall|k: int|
                    0 <= k < i ==> creates_service(
                        states[k],
                        states[k + 1],
                        #[trigger] created[k],
                        names[k],
                        now,
                        clothes_id@,
                        dtos[k].service_type.label(),
                        dtos[k].location.label(),
                        text_of(dtos[k].description),
                        dtos[k].unit_price,
                    ),
                forall|k: int|
                    0 <= k < i ==> #[trigger] created[k] == Ok::<ClothingService, Error>(
                        services[k],
                    ),
                old(db)@.wf() ==> db@.wf(),
            decreases dtos.len() - i,
        {
            let outcome = self.clothing_service_repository.create_with(
                db,
                ids[i].clone(),
                now,
                clothes_id.clone(),
                dtos[i].to_service_type_string(),
                dtos[i].to_location_string(),
                dtos[i].description.clone(),
                dtos[i].unit_price,
            );
            proof {
                states = states.push(db@);
                created = created.push(outcome);
                assert(names[i as int] == ids[i as int]@);
            }
            match outcome {
                Ok(service) => {
                    services.push(service);
                },
                Err(e) => {
                    proof {
                        assert(services_added(
                            old(db)@,
                            db@,
                            Err(e),
                            names,
                            now,
                            clothes_id@,
                            dtos@,
                            states,
                            created,
                        ));
                    }
                    return Err(e);
                },
            }
            i += 1;
        }
        proof {
            assert(services_added(
                old(db)@,
                db@,
                Ok(services@),
                names,
                now,
                clothes_id@,
                dtos@,
                states,
                created,
            ));
        }
        Ok(services)
    }

    /// Creates a garment line with its services at the instant `now`: the
    /// line under the identity `clothes_id`, each service under the identity
    /// at its position in `service_ids`.
    pub fn create_clothes_with(
        &self,
        db: &mut Database,
        clothes_id: String,
        service_ids: Vec<String>,
        now: Timestamp,
        dto: CreateClothesDto,
    ) -> (r: Result<ClothesDto, Error>)
        ensures
            creates_clothes_dto(
                old(db)@,
                final(db)@,
                r,
                clothes_id@,
                texts(service_ids@),
                now,
                dto,
            ),
            r is Ok ==> amounts_current(final(db)@, dto.order_id@),
            r matches Ok(line) ==> {
                &&& line.id@ == clothes_id@
                &&& line.order_id@ == dto.order_id@
                &&& line.clothing_type == dto.clothing_type
                &&& line.sizes == dto.sizes
                &&& total_quantity_of(dto.sizes) == Some(line.total_quantity)
                &&& line.unit_price == dto.unit_price
                &&& line.services.len() == dto.services.len()
            },
            old(db)@.wf() ==> final(db)@.wf(),
    {
        if service_ids.len() != dto.services.len() {
            return Err(Error::InvalidArgument(Invalid::Identities));
        }
        let quantity = match dto.calculate_total_quantity() {
            Ok(quantity) => quantity,
            Err(e) => {
                return Err(e);
            },
        };
        let kind = dto.to_clothing_type_string();
        let sizes = match dto.sizes_to_json() {
            Ok(sizes) => sizes,
            Err(e) => {
                return Err(e);
            },
        };
        let ghost before = db@;
        let ghost line_id = clothes_id@;
        let ghost encoded = sizes@;
        let custom_type = dto.custom_type.clone();
        let line = self.clothes_repository.create_with(
            db,
            clothes_id,
            now,
            dto.order_id.clone(),
            kind,
            custom_type,
            dto.unit_price,
            sizes,
            dto.color.clone(),
            quantity,
        );
        let ghost with_line = db@;
        proof {
            assert(creates_clothes(
                before,
                with_line,
                line,
                line_id,
                now,
                dto.order_id@,
                dto.clothing_type.label(),
                text_of(dto.custom_type),
                dto.unit_price,
                sizes@,
                dto.color@,
                quantity,
            ));
        }
        let clothes = match line {
            Ok(clothes) => clothes,
            Err(e) => {
                proof {
                    assert(line_created(
                        before,
                        db@,
                        Err(e),
                        line_id,
                        texts(service_ids@),
                        now,
                        dto,
                        encoded,
                        quantity,
                    ));
                }
                return Err(e);
            },
        };
        let ghost stored = clothes;
        let added = self.add_services(db, &service_ids, now, &clothes.id, &dto.services);
        let ghost with_services = db@;
        proof {
            assert(adds_services(
                with_line,
                with_services,
                services_view(added),
                texts(service_ids@),
                now,
                stored.key(),
                dto.services@,
            ));
        }
        let services = match added {
            Ok(services) => services,
            Err(e) => {
                proof {
                    assert(line_serviced(
                        with_line,
                        db@,
                        Err(e),
                        texts(service_ids@),
                        now,
                        dto,
                        stored,
                    ));
                    assert(line_created(
                        before,
                        db@,
                        Err(e),
                        line_id,
                        texts(service_ids@),
                        now,
                        dto,
                        encoded,
                        quantity,
                    ));
                }
                return Err(e);
            },
        };
        let ghost created = services@;
        let recalculated = self.order_service.recalculate_order_totals_at(
            db,
            now,
            dto.order_id.as_str(),
        );
        let r = match recalculated {
            Ok(()) => ClothesDto::from_model(clothes, services),
            Err(e) => Err(e),
        };
        proof {
            dto.clothing_type.lemma_label_names_variant();
            lemma_services_of_models_len(created);
            assert(recalculates(with_services, db@, recalculated, now, dto.order_id@));
            assert(line_recalculated(with_services, db@, r, now, dto.order_id@, stored, created));
            assert(line_serviced(with_line, db@, r, texts(service_ids@), now, dto, stored));
            assert(line_created(
                before,
                db@,
                r,
                line_id,
                texts(service_ids@),
                now,
                dto,
                encoded,
                quantity,
            ));
        }
        r
    }

    /// Creates a garment line with its services now, under fresh
    /// identities, one for the line and one for each service.
    pub fn create_clothes(&self, db: &mut Database, dto: CreateClothesDto) -> (r: Result<
        ClothesDto,
        Error,
    >)
        ensures
            exists|clothes_id: Seq<char>, service_ids: Seq<Seq<char>>, now: Timestamp|
                service_ids.len() == dto.services.len() && #[trigger] creates_clothes_dto(
                    old(db)@,
                    final(db)@,
                    r,
                    clothes_id,
                    service_ids,
                    now,
                    dto,
                ),
            r is Ok ==> amounts_current(final(db)@, dto.order_id@),
            old(db)@.wf() ==> final(db)@.wf(),
    {
        let clothes_id = random_id();
        let mut service_ids: Vec<String> = Vec::new();
        let mut i: usize = 0;
        while i < dto.services.len()
            invariant
                i <= dto.services.len(),
                service_ids.len() == i,
            decreases dto.services.len() - i,
        {
            service_ids.push(random_id());
            i += 1;
        }
        let now = clock_now();
        self.create_clothes_with(db, clothes_id, service_ids, now, dto)
    }

    /// The order of the garment line that the service `service_id` belongs
    /// to.
    fn find_order_of_service(&self, db: &Database, service_id: &str) -> (r: Result<String, Error>)
        ensures
            match order_of_service(db@, service_id@) {
                Ok(order_id) => r matches Ok(found) && found@ == order_id,
                Err(e) => r == Err::<String, Error>(e),
            },
    {
        let service = match self.clothing_service_repository.get_by_id(db, service_id) {
            Ok(Some(service)) => service,
            _ => {
                return Err(Error::NotFound(Entity::ClothingService));
            },
        };
        match self.clothes_repository.get_by_id(db, service.clothes_id.as_str()) {
            Ok(Some(clothes)) => Ok(clothes.order_id),
            _ => Err(Error::NotFound(Entity::Clothes)),
        }
    }

    /// Changes the garment line `id` at the instant `now`.
    pub fn update_clothes_at(
        &self,
        db: &mut Database,
        now: Timestamp,
        id: &str,
        dto: UpdateClothesDto,
    ) -> (r: Result<Option<ClothesDto>, Error>)
        ensures
            updates_clothes_dto(old(db)@, final(db)@, r, now, id@, dto),
            r is Ok ==> (found(old(db)@.clothes, id@) matches Some(current)
                && amounts_current(final(db)@, current.parent())),
            old(db)@.wf() ==> final(db)@.wf(),
    {
        let current = match self.clothes_repository.get_by_id(db, id) {
            Ok(Some(current)) => current,
            _ => {
                return Err(Error::NotFound(Entity::Clothes));
            },
        };
        let kind = dto.to_clothing_type_string();
        let sizes = match dto.sizes_to_json() {
            Ok(sizes) => sizes,
            Err(e) => {
                return Err(e);
            },
        };
        let quantity = match dto.calculate_total_quantity() {
            Ok(quantity) => quantity,
            Err(e) => {
                return Err(e);
            },
        };
        let ghost before = db@;
        let ghost encoded = text_of(sizes);
        proof {
            lemma_index_of(db@.clothes, id@);
            assert(new_sizes(dto) == Ok::<(Option<Seq<char>>, Option<i32>), Error>(
                (encoded, quantity),
            ));
        }
        let updated = self.clothes_repository.update_at(
            db,
            now,
            id,
            kind,
            dto.custom_type,
            dto.unit_price,
            sizes,
            dto.color,
            quantity,
        );
        let ghost mid = db@;
        let clothes = match updated {
            Ok(Some(clothes)) => clothes,
            Ok(None) => {
                return Ok(None);
            },
            Err(e) => {
                return Err(e);
            },
        };
        let ghost stored = clothes;
        let services = match self.clothing_service_repository.get_by_clothes_id(db, id) {
            Ok(services) => services,
            Err(e) => {
                return Err(e);
            },
        };
        let recalculated = self.order_service.recalculate_order_totals_at(
            db,
            now,
            current.order_id.as_str(),
        );
        let r = match recalculated {
            Ok(()) => match ClothesDto::from_model(clothes, services) {
                Ok(line) => Ok(Some(line)),
                Err(e) => Err(e),
            },
            Err(e) => Err(e),
        };
        proof {
            assert(stored.key() == id@);
            assert(recalculates(mid, db@, recalculated, now, current.parent()));
            assert(line_update_recalculated(mid, db@, r, now, current.parent(), stored));
            assert(line_updated(
                before,
                db@,
                r,
                now,
                id@,
                dto,
                current.parent(),
                encoded,
                quantity,
            ));
        }
        r
    }

    /// Changes the garment line `id` now.
    pub fn update_clothes(&self, db: &mut Database, id: &str, dto: UpdateClothesDto) -> (r: Result<
        Option<ClothesDto>,
        Error,
    >)
        ensures
            exists|now: Timestamp|
                #[trigger] updates_clothes_dto(old(db)@, final(db)@, r, now, id@, dto),
            old(db)@.wf() ==> final(db)@.wf(),
    {
        let now = clock_now();
        self.update_clothes_at(db, now, id, dto)
    }

    /// Deletes the garment line `id` with its services at the instant
    /// `now`.
    pub fn delete_clothes_at(&self, db: &mut Database, now: Timestamp, id: &str) -> (r: Result<
        bool,
        Error,
    >)
        ensures
            deletes_clothes(old(db)@, final(db)@, r, now, id@),
            r is Ok ==> (found(old(db)@.clothes, id@) matches Some(current)
                && amounts_current(final(db)@, current.parent())),
            old(db)@.wf() ==> final(db)@.wf(),
    {
        let current = match self.clothes_repository.get_by_id(db, id) {
            Ok(Some(current)) => current,
            _ => {
                return Err(Error::NotFound(Entity::Clothes));
            },
        };
        proof {
            lemma_index_of(db@.clothes, id@);
        }
        let deleted = match self.clothes_repository.delete(db, id) {
            Ok(deleted) => deleted,
            Err(e) => {
                return Err(e);
            },
        };
        match self.order_service.recalculate_order_totals_at(db, now, current.order_id.as_str()) {
            Ok(()) => Ok(deleted),
            Err(e) => Err(e),
        }
    }

    /// Deletes the garment line `id` with its services now.
    pub fn delete_clothes(&self, db: &mut Database, id: &str) -> (r: Result<bool, Error>)
        ensures
            exists|now: Timestamp| #[trigger] deletes_clothes(old(db)@, final(db)@, r, now, id@),
            old(db)@.wf() ==> final(db)@.wf(),
    {
        let now = clock_now();
        self.delete_clothes_at(db, now, id)
    }

    /// Adds a service to the garment line `clothes_id` at the instant
    /// `now`, under the identity `id`.
    pub fn add_service_to_clothes_with(
        &self,
        db: &mut Database,
        id: String,
        now: Timestamp,
        clothes_id: &str,
        dto: CreateClothingServiceDto,
    ) -> (r: Result<ClothingServiceDto, Error>)
        ensures
            adds_service_dto(old(db)@, final(db)@, r, id@, now, clothes_id@, dto),
            r is Ok ==> (found(old(db)@.clothes, clothes_id@) matches Some(line)
                && amounts_current(final(db)@, line.parent())),
            old(db)@.wf() ==> final(db)@.wf(),
    {
        let clothes = match self.clothes_repository.get_by_id(db, clothes_id) {
            Ok(Some(clothes)) => clothes,
            _ => {
                return Err(Error::NotFound(Entity::Clothes));
            },
        };
        let ghost before = db@;
        let ghost name = id@;
        let created = self.clothing_service_repository.create_with(
            db,
            id,
            now,
            clothes_id.to_owned(),
            dto.to_service_type_string(),
            dto.to_location_string(),
            dto.description.clone(),
            dto.unit_price,
        );
        let ghost mid = db@;
        let service = match created {
            Ok(service) => service,
            Err(e) => {
                proof {
                    assert(service_created(
                        before,
                        db@,
                        Err(e),
                        name,
                        now,
                        clothes_id@,
                        dto,
                        clothes.parent(),
                    ));
                }
                return Err(e);
            },
        };
        let ghost stored = service;
        let recalculated = self.order_service.recalculate_order_totals_at(
            db,
            now,
            clothes.order_id.as_str(),
        );
        let r = match recalculated {
            Ok(()) => ClothingServiceDto::from_model(service),
            Err(e) => Err(e),
        };
        proof {
            assert(recalculates(mid, db@, recalculated, now, clothes.parent()));
            assert(service_recalculated(mid, db@, r, now, clothes.parent(), stored));
            assert(service_created(
                before,
                db@,
                r,
                name,
                now,
                clothes_id@,
                dto,
                clothes.parent(),
            ));
        }
        r
    }

    /// Adds a service to the garment line `clothes_id` now, under a fresh
    /// identity.
    pub fn add_service_to_clothes(
        &self,
        db: &mut Database,
        clothes_id: &str,
        dto: CreateClothingServiceDto,
    ) -> (r: Result<ClothingServiceDto, Error>)
        ensures
            exists|id: Seq<char>, now: Timestamp|
                #[trigger] adds_service_dto(old(db)@, final(db)@, r, id, now, clothes_id@, dto),
            old(db)@.wf() ==> final(db)@.wf(),
    {
        let id = random_id();
        let now = clock_now();
        self.add_service_to_clothes_with(db, id, now, clothes_id, dto)
    }

    /// Changes the service `service_id` at the instant `now`.
    pub fn update_service_at(
        &self,
        db: &mut Database,
        now: Timestamp,
        service_id: &str,
        dto: UpdateClothingServiceDto,
    ) -> (r: Result<Option<ClothingServiceDto>, Error>)
        ensures
            updates_service_dto(old(db)@, final(db)@, r, now, service_id@, dto),
            r is Ok ==> (order_of_service(old(db)@, service_id@) matches Ok(order_id)
                && amounts_current(final(db)@, order_id)),
            old(db)@.wf() ==> final(db)@.wf(),
    {
        let order_id = match self.find_order_of_service(db, service_id) {
            Ok(order_id) => order_id,
            Err(e) => {
                return Err(e);
            },
        };
        let ghost before = db@;
        proof {
            lemma_index_of(db@.clothing_services, service_id@);
        }
        let updated = self.clothing_service_repository.update_at(
            db,
            now,
            service_id,
            dto.to_service_type_string(),
            dto.to_location_string(),
            dto.description,
            dto.unit_price,
        );
        let ghost mid = db@;
        let service = match updated {
            Ok(Some(service)) => service,
            Ok(None) => {
                return Ok(None);
            },
            Err(e) => {
                return Err(e);
            },
        };
        let ghost stored = service;
        let recalculated = self.order_service.recalculate_order_totals_at(
            db,
            now,
            order_id.as_str(),
        );
        let r = match recalculated {
            Ok(()) => match ClothingServiceDto::from_model(service) {
                Ok(dto) => Ok(Some(dto)),
                Err(e) => Err(e),
            },
            Err(e) => Err(e),
        };
        proof {
            assert(recalculates(mid, db@, recalculated, now, order_id@));
            assert(service_update_recalculated(mid, db@, r, now, order_id@, stored));
            assert(service_updated(before, db@, r, now, service_id@, dto, order_id@));
        }
        r
    }

    /// Changes the service `service_id` now.
    pub fn update_service(
        &self,
        db: &mut Database,
        service_id: &str,
        dto: UpdateClothingServiceDto,
    ) -> (r: Result<Option<ClothingServiceDto>, Error>)
        ensures
            exists|now: Timestamp|
                #[trigger] updates_service_dto(old(db)@, final(db)@, r, now, service_id@, dto),
            old(db)@.wf() ==> final(db)@.wf(),
    {
        let now = clock_now();
        self.update_service_at(db, now, service_id, dto)
    }

    /// Deletes the service `service_id` at the instant `now`.
    pub fn delete_service_at(&self, db: &mut Database, now: Timestamp, service_id: &str) -> (r:
        Result<bool, Error>)
        ensures
            deletes_service(old(db)@, final(db)@, r, now, service_id@),
            r is Ok ==> (order_of_service(old(db)@, service_id@) matches Ok(order_id)
                && amounts_current(final(db)@, order_id)),
            old(db)@.wf() ==> final(db)@.wf(),
    {
        let order_id = match self.find_order_of_service(db, service_id) {
            Ok(order_id) => order_id,
            Err(e) => {
                return Err(e);
            },
        };
        proof {
            lemma_index_of(db@.clothing_services, service_id@);
        }
        let deleted = match self.clothing_service_repository.delete(db, service_id) {
            Ok(deleted) => deleted,
            Err(e) => {
                return Err(e);
            },
        };
        match self.order_service.recalculate_order_totals_at(db, now, order_id.as_str()) {
            Ok(()) => Ok(deleted),
            Err(e) => Err(e),
        }
    }

    /// Deletes the service `service_id` now.
    pub fn delete_service(&self, db: &mut Database, service_id: &str) -> (r: Result<bool, Error>)
        ensures
            exists|now: Timestamp|
                #[trigger] deletes_service(old(db)@, final(db)@, r, now, service_id@),
            old(db)@.wf() ==> final(db)@.wf(),
    {
        let now = clock_now();
        self.delete_service_at(db, now, service_id)
    }

    /// The garment line `id` with its services, if it is in the store.
    pub fn get_clothes_by_id(&self, db: &Database, id: &str) -> (r: Result<
        Option<ClothesDto>,
        Error,
    >)
        ensures
            match found(db@.clothes, id@) {
                None => r == Ok::<Option<ClothesDto>, Error>(None),
                Some(clothes) => match ClothesDto::of(clothes, services_of_line(db@, id@)) {
                    Ok(view) => r matches Ok(Some(line)) && line@ == view,
                    Err(e) => r == Err::<Option<ClothesDto>, Error>(e),
                },
            },
    {
        let clothes = match self.clothes_repository.get_by_id(db, id) {
            Ok(Some(clothes)) => clothes,
            _ => {
                return Ok(None);
            },
        };
        let services = match self.clothing_service_repository.get_by_clothes_id(db, id) {
            Ok(services) => services,
            Err(e) => {
                return Err(e);
            },
        };
        match ClothesDto::from_model(clothes, services) {
            Ok(line) => Ok(Some(line)),
            Err(e) => Err(e),
        }
    }

    /// The garment lines of the order `order_id` with their services,
    /// earliest first.
    pub fn get_clothes_by_order_id(&self, db: &Database, order_id: &str) -> (r: Result<
        Vec<ClothesDto>,
        Error,
    >)
        ensures
            match lines_of_models(db@, ascending(children_of(db@.clothes, order_id@))) {
                Ok(views) => r matches Ok(lines) && dto_views(lines@) == views,
                Err(e) => r == Err::<Vec<ClothesDto>, Error>(e),
            },
    {
        let rows = match self.clothes_repository.get_by_order_id(db, order_id) {
            Ok(rows) => rows,
            Err(e) => {
                return Err(e);
            },
        };
        let mut lines: Vec<ClothesDto> = Vec::new();
        let mut i: usize = 0;
        assert(rows@.take(0) =~= Seq::<Clothes>::empty());
        assert(dto_views(lines@) =~= Seq::<ClothesDtoView>::empty());
        while i < rows.len()
            invariant
                i <= rows.len(),
                rows@ == ascending(children_of(db@.clothes, order_id@)),
                lines_of_models(db@, rows@.take(i as int)) == Ok::<Seq<ClothesDtoView>, Error>(
                    dto_views(lines@),
                ),
            decreases rows.len() - i,
        {
            proof {
                assert(rows@.take(i + 1).drop_last() =~= rows@.take(i as int));
                assert(rows@.take(i + 1).last() == rows[i as int]);
            }
            let services = match self.clothing_service_repository.get_by_clothes_id(
                db,
                rows[i].id.as_str(),
            ) {
                Ok(services) => services,
                Err(e) => {
                    return Err(e);
                },
            };
            let ghost before = dto_views(lines@);
            match ClothesDto::from_model(rows[i].duplicate(), services) {
                Ok(line) => {
                    lines.push(line);
                    assert(dto_views(lines@) =~= before.push(line@));
                },
                Err(e) => {
                    proof {
                        assert(lines_of_models(db@, rows@.take(i + 1)) == Err::<
                            Seq<ClothesDtoView>,
                            Error,
                        >(e));
                        lemma_lines_of_models_fail(db@, rows@, i + 1);
                    }
                    return Err(e);
                },
            }
            i += 1;
        }
        assert(rows@.take(rows.len() as int) =~= rows@);
        Ok(lines)
    }

    /// The decoration services of the garment line `clothes_id`, earliest
    /// first.
    pub fn get_services_by_clothes_id(&self, db: &Database, clothes_id: &str) -> (r: Result<
        Vec<ClothingServiceDto>,
        Error,
    >)
        ensures
            match services_of_models(services_of_line(db@, clothes_id@)) {
                Ok(dtos) => r matches Ok(services) && services@ == dtos,
                Err(e) => r == Err::<Vec<ClothingServiceDto>, Error>(e),
            },
    {
        let services = match self.clothing_service_repository.get_by_clothes_id(db, clothes_id) {
            Ok(services) => services,
            Err(e) => {
                return Err(e);
            },
        };
        convert_services(&services)
    }

    /// The sum of the prices of the garment lines of the order `order_id`.
    /// It fails where the price of a line, or the sum, cannot be stored.
    pub fn calculate_order_clothes_total(&self, db: &Database, order_id: &str) -> (r: Result<
        i64,
        Error,
    >)
        ensures
            r == if lines_fit(db@.clothing_services, children_of(db@.clothes, order_id@)) && fits(
                order_clothes_total(db@, order_id@),
            ) {
                Ok::<i64, Error>(order_clothes_total(db@, order_id@) as i64)
            } else {
                Err(Error::StoreFailure(Violation::AmountOutOfRange))
            },
    {
        let lines = select_children(db.clothes(), &order_id.to_owned());
        match sum_clothes_prices(db, &lines) {
            Some(total) => Ok(total),
            None => Err(Error::StoreFailure(Violation::AmountOutOfRange)),
        }
    }
}

impl Default for ClothesService {
    fn default() -> (service: ClothesService) {
        ClothesService::new()
    }
}

} // verus!
