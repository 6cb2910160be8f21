//! Garment lines and their decoration services, as callers see them.

use crate::error::{Error, Invalid, Malformed};
use crate::models::sizes::{sizes_of_text, sizes_text};
use crate::models::{Clothes, ClothingService, ClothingType, ServiceLocation, ServiceType, SizesMap};
use crate::pricing::{fits, line_price, price_line};
use crate::table::Row;
use crate::temporal::Timestamp;
use vstd::prelude::*;

verus! {

/// A garment line of the store, with its services.
#[derive(Debug, Clone, PartialEq, Eq)]
pub struct ClothesDto {
    pub id: String,
    pub order_id: String,
    pub clothing_type: ClothingType,
    pub custom_type: Option<String>,
    pub unit_price: i64,
    pub sizes: SizesMap,
    pub color: String,
    pub total_quantity: i32,
    pub services: Vec<ClothingServiceDto>,
    pub created_at: Timestamp,
    pub updated_at: Timestamp,
}

/// What a [`ClothesDto`] holds, with its services as a sequence.
pub struct ClothesDtoView {
    pub id: String,
    pub order_id: String,
    pub clothing_type: ClothingType,
    pub custom_type: Option<String>,
    pub unit_price: i64,
    pub sizes: SizesMap,
    pub color: String,
    pub total_quantity: i32,
    pub services: Seq<ClothingServiceDto>,
    pub created_at: Timestamp,
    pub updated_at: Timestamp,
}

impl View for ClothesDto {
    type V = ClothesDtoView;

    open spec fn view(&self) -> ClothesDtoView {
        ClothesDtoView {
            id: self.id,
            order_id: self.order_id,
            clothing_type: self.clothing_type,
            custom_type: self.custom_type,
            unit_price: self.unit_price,
            sizes: self.sizes,
            color: self.color,
            total_quantity: self.total_quantity,
            services: self.services@,
            created_at: self.created_at,
            updated_at: self.updated_at,
        }
    }
}

/// A decoration service of the store.
#[derive(Debug, Clone, PartialEq, Eq)]
pub struct ClothingServiceDto {
    pub id: String,
    pub clothes_id: String,
    pub service_type: ServiceType,
    pub location: ServiceLocation,
    pub description: Option<String>,
    pub unit_price: i64,
    pub created_at: Timestamp,
    pub updated_at: Timestamp,
}

/// A garment line to create, with its services.
#[derive(Debug, Clone, PartialEq, Eq)]
pub struct CreateClothesDto {
    pub order_id: String,
    pub clothing_type: ClothingType,
    pub custom_type: Option<String>,
    pub unit_price: i64,
    pub sizes: SizesMap,
    pub color: String,
    pub services: Vec<CreateClothingServiceDto>,
}

/// A decoration service to create.
#[derive(Debug, Clone, PartialEq, Eq)]
pub struct CreateClothingServiceDto {
    pub service_type: ServiceType,
    pub location: ServiceLocation,
    pub description: Option<String>,
    pub unit_price: i64,
}

/// The fields of a garment line to change; an absent field stays as it is.
#[derive(Debug, Clone, PartialEq, Eq)]
pub struct UpdateClothesDto {
    pub clothing_type: Option<ClothingType>,
    pub custom_type: Option<Option<String>>,
    pub unit_price: Option<i64>,
    pub sizes: Option<SizesMap>,
    pub color: Option<String>,
}

/// The fields of a decoration service to change; an absent field stays as
/// it is.
#[derive(Debug, Clone, PartialEq, Eq)]
pub struct UpdateClothingServiceDto {
    pub service_type: Option<ServiceType>,
    pub location: Option<ServiceLocation>,
    pub description: Option<Option<String>>,
    pub unit_price: Option<i64>,
}

/// The sum of the unit prices of `services`.
pub open spec fn dto_services_total(services: Seq<ClothingServiceDto>) -> int
    decreases services.len(),
{
    if services.len() == 0 {
        0
    } else {
        dto_services_total(services.drop_last()) + services.last().unit_price
    }
}

/// The services that the records `services` stand for, or the failure of
/// the first record that stands for none.
pub open spec fn services_of_models(services: Seq<ClothingService>) -> Result<
    Seq<ClothingServiceDto>,
    Error,
>
    decreases services.len(),
{
    if services.len() == 0 {
        Ok(Seq::empty())
    } else {
        match services_of_models(services.drop_last()) {
            Ok(front) => match ClothingServiceDto::of(services.last()) {
                Ok(last) => Ok(front.push(last)),
                Err(e) => Err(e),
            },
            Err(e) => Err(e),
        }
    }
}

/// The pieces over all sizes, where a record can hold their number.
pub open spec fn total_quantity_of(sizes: SizesMap) -> Option<i32> {
    if sizes.total() <= i32::MAX {
        Some(sizes.total() as i32)
    } else {
        None
    }
}

/// The pieces over all sizes, where a record can hold their number.
pub fn total_quantity(sizes: &SizesMap) -> (total: Option<i32>)
    ensures
        total == total_quantity_of(*sizes),
{
    let mut total: u64 = 0;
    if let Some(n) = sizes.s {
        total = total + n as u64;
    }
    if let Some(n) = sizes.m {
        total = total + n as u64;
    }
    if let Some(n) = sizes.l {
        total = total + n as u64;
    }
    if let Some(n) = sizes.xl {
        total = total + n as u64;
    }
    if let Some(n) = sizes.xxl {
        total = total + n as u64;
    }
    if let Some(n) = sizes.xxxl {
        total = total + n as u64;
    }
    if total > i32::MAX as u64 {
        None
    } else {
        Some(total as i32)
    }
}

/// The sum of service prices is bounded by their number.
proof fn lemma_dto_services_total_bound(services: Seq<ClothingServiceDto>)
    ensures
        -0x8000_0000_0000_0000 * services.len() <= dto_services_total(services)
            <= 0x7fff_ffff_ffff_ffff * services.len(),
    decreases services.len(),
{
    if services.len() > 0 {
        lemma_dto_services_total_bound(services.drop_last());
    }
}

/// There are as many services as there are records that stand for them.
pub proof fn lemma_services_of_models_len(services: Seq<ClothingService>)
    ensures
        services_of_models(services) matches Ok(dtos) ==> dtos.len() == services.len(),
    decreases services.len(),
{
    if services.len() > 0 {
        lemma_services_of_models_len(services.drop_last());
    }
}

/// A failure among the first records is the failure of them all.
proof fn lemma_services_of_models_fail(services: Seq<ClothingService>, n: int)
    requires
        0 <= n <= services.len(),
        services_of_models(services.take(n)) is Err,
    ensures
        services_of_models(services) == services_of_models(services.take(n)),
    decreases services.len() - n,
{
    if n < services.len() {
        assert(services.take(n + 1).drop_last() =~= services.take(n));
        lemma_services_of_models_fail(services, n + 1);
    } else {
        assert(services.take(n) =~= services);
    }
}

impl ClothingServiceDto {
    /// The service that the record `service` stands for: its texts for the
    /// kind and the placement must name one, and the failure gives the text
    /// that names none.
    pub open spec fn of(service: ClothingService) -> Result<ClothingServiceDto, Error> {
        match ServiceType::named(service.service_type@) {
            None => Err(Error::InvalidArgument(Invalid::ServiceType(service.service_type))),
            Some(service_type) => match ServiceLocation::named(service.location@) {
                None => Err(Error::InvalidArgument(Invalid::ServiceLocation(service.location))),
                Some(location) => Ok(
                    ClothingServiceDto {
                        id: service.id,
                        clothes_id: service.clothes_id,
                        service_type,
                        location,
                        description: service.description,
                        unit_price: service.unit_price,
                        created_at: service.created_at,
                        updated_at: service.updated_at,
                    },
                ),
            },
        }
    }

    pub fn from_model(service: ClothingService) -> (r: Result<ClothingServiceDto, Error>)
        ensures
            r == ClothingServiceDto::of(service),
    {
        let service_type = match ServiceType::from_label(&service.service_type) {
            Some(t) => t,
            None => {
                return Err(Error::InvalidArgument(Invalid::ServiceType(service.service_type)));
            },
        };
        let location = match ServiceLocation::from_label(&service.location) {
            Some(l) => l,
            None => {
                return Err(Error::InvalidArgument(Invalid::ServiceLocation(service.location)));
            },
        };
        Ok(
            ClothingServiceDto {
                id: service.id,
                clothes_id: service.clothes_id,
                service_type,
                location,
                description: service.description,
                unit_price: service.unit_price,
                created_at: service.created_at,
                updated_at: service.updated_at,
            },
        )
    }
}

/// The services that the records `services` stand for.
pub fn convert_services(services: &Vec<ClothingService>) -> (r: Result<
    Vec<ClothingServiceDto>,
    Error,
>)
    ensures
        match r {
            Ok(dtos) => services_of_models(services@) == Ok::<Seq<ClothingServiceDto>, Error>(
                dtos@,
            ),
            Err(e) => services_of_models(services@) == Err::<Seq<ClothingServiceDto>, Error>(e),
        },
{
    let mut dtos: Vec<ClothingServiceDto> = Vec::new();
    let mut i: usize = 0;
    assert(services@.take(0) =~= Seq::<ClothingService>::empty());
    while i < services.len()
        invariant
            i <= services.len(),
            services_of_models(services@.take(i as int)) == Ok::<Seq<ClothingServiceDto>, Error>(
                dtos@,
            ),
        decreases services.len() - i,
    {
        proof {
            assert(services@.take(i + 1).drop_last() =~= services@.take(i as int));
            assert(services@.take(i + 1).last() == services[i as int]);
        }
        match ClothingServiceDto::from_model(services[i].duplicate()) {
            Ok(dto) => {
                dtos.push(dto);
            },
            Err(e) => {
                proof {
                    lemma_services_of_models_fail(services@, i + 1);
                }
                return Err(e);
            },
        }
        i += 1;
    }
    assert(services@.take(services.len() as int) =~= services@);
    Ok(dtos)
}

impl ClothesDto {
    /// The garment line that the record `clothes` and the records
    /// `services` stand for. The text for the kind must name one, the
    /// quantities per size must be a JSON object whose members name sizes,
    /// and each service record must stand for a service; the first of these
    /// that fails is reported, with the text that was found.
    pub open spec fn of(clothes: Clothes, services: Seq<ClothingService>) -> Result<
        ClothesDtoView,
        Error,
    > {
        match ClothingType::named(clothes.clothing_type@) {
            None => Err(Error::InvalidArgument(Invalid::ClothingType(clothes.clothing_type))),
            Some(clothing_type) => match sizes_of_text(clothes.sizes@) {
                None => Err(Error::ParseError(Malformed::Sizes(clothes.sizes))),
                Some(sizes) => match services_of_models(services) {
                    Err(e) => Err(e),
                    Ok(dtos) => Ok(
                        ClothesDtoView {
                            id: clothes.id,
                            order_id: clothes.order_id,
                            clothing_type,
                            custom_type: clothes.custom_type,
                            unit_price: clothes.unit_price,
                            sizes,
                            color: clothes.color,
                            total_quantity: clothes.total_quantity,
                            services: dtos,
                            created_at: clothes.created_at,
                            updated_at: clothes.updated_at,
                        },
                    ),
                },
            },
        }
    }

    pub fn from_model(clothes: Clothes, services: Vec<ClothingService>) -> (r: Result<
        ClothesDto,
        Error,
    >)
        ensures
            match ClothesDto::of(clothes, services@) {
                Ok(view) => r matches Ok(dto) && dto@ == view,
                Err(e) => r == Err::<ClothesDto, Error>(e),
            },
    {
        let clothing_type = match ClothingType::from_label(&clothes.clothing_type) {
            Some(t) => t,
            None => {
                return Err(Error::InvalidArgument(Invalid::ClothingType(clothes.clothing_type)));
            },
        };
        let sizes = match SizesMap::from_json(clothes.sizes.as_str()) {
            Some(s) => s,
            None => {
                return Err(Error::ParseError(Malformed::Sizes(clothes.sizes)));
            },
        };
        let dtos = match convert_services(&services) {
            Ok(d) => d,
            Err(e) => {
                return Err(e);
            },
        };
        Ok(
            ClothesDto {
                id: clothes.id,
                order_id: clothes.order_id,
                clothing_type,
                custom_type: clothes.custom_type,
                unit_price: clothes.unit_price,
                sizes,
                color: clothes.color,
                total_quantity: clothes.total_quantity,
                services: dtos,
                created_at: clothes.created_at,
                updated_at: clothes.updated_at,
            },
        )
    }

    /// The price of the line: the unit price plus the unit prices of its
    /// services, times the quantity; none where it cannot be stored.
    pub fn calculate_total_price(&self) -> (price: Option<i64>)
        ensures
            price == if fits(
                line_price(
                    self.unit_price as int,
                    dto_services_total(self.services@),
                    self.total_quantity as int,
                ),
            ) {
                Some(
                    line_price(
                        self.unit_price as int,
                        dto_services_total(self.services@),
                        self.total_quantity as int,
                    ) as i64,
                )
            } else {
                None
            },
    {
        let mut sum: i128 = 0;
        let mut i: usize = 0;
        while i < self.services.len()
            invariant
                i <= self.services.len(),
                sum == dto_services_total(self.services@.take(i as int)),
            decreases self.services.len() - i,
        {
            proof {
                lemma_dto_services_total_bound(self.services@.take(i as int));
                assert(self.services@.take(i + 1).drop_last() =~= self.services@.take(i as int));
            }
            sum = sum + self.services[i].unit_price as i128;
            i += 1;
        }
        proof {
            assert(self.services@.take(self.services.len() as int) =~= self.services@);
            lemma_dto_services_total_bound(self.services@);
            assert(self.services@.len() == self.services.len());
            assert(-0x8000_0000_0000_0000 * self.services@.len() >= -0x8000_0000_0000_0000
                * usize::MAX && 0x7fff_ffff_ffff_ffff * self.services@.len()
                <= 0x7fff_ffff_ffff_ffff * usize::MAX) by (nonlinear_arith)
                requires
                    0 <= self.services@.len() <= usize::MAX,
            ;
        }
        price_line(self.unit_price, sum, self.total_quantity)
    }
}

impl CreateClothesDto {
    /// The pieces over all sizes; an error where a record cannot hold
    /// their number.
    pub fn calculate_total_quantity(&self) -> (r: Result<i32, Error>)
        ensures
            r == match total_quantity_of(self.sizes) {
                Some(total) => Ok::<i32, Error>(total),
                None => Err(Error::InvalidArgument(Invalid::Quantity)),
            },
    {
        match total_quantity(&self.sizes) {
            Some(total) => Ok(total),
            None => Err(Error::InvalidArgument(Invalid::Quantity)),
        }
    }

    pub fn to_clothing_type_string(&self) -> (text: String)
        ensures
            text@ == self.clothing_type.label(),
    {
        self.clothing_type.to_label()
    }

    /// The quantities per size as a JSON object.
    pub fn sizes_to_json(&self) -> (r: Result<String, Error>)
        ensures
            match r {
                Ok(text) => sizes_text(self.sizes) == Some(text@),
                Err(e) => sizes_text(self.sizes) is None && e
                    == Error::InvalidArgument(Invalid::Sizes),
            },
    {
        match self.sizes.to_json() {
            Some(text) => Ok(text),
            None => Err(Error::InvalidArgument(Invalid::Sizes)),
        }
    }
}

impl CreateClothingServiceDto {
    pub fn to_service_type_string(&self) -> (text: String)
        ensures
            text@ == self.service_type.label(),
    {
        self.service_type.to_label()
    }

    pub fn to_location_string(&self) -> (text: String)
        ensures
            text@ == self.location.label(),
    {
        self.location.to_label()
    }
}

impl UpdateClothesDto {
    pub fn to_clothing_type_string(&self) -> (text: Option<String>)
        ensures
            match text {
                Some(t) => self.clothing_type matches Some(kind) && t@ == kind.label(),
                None => self.clothing_type is None,
            },
    {
        match self.clothing_type {
            Some(kind) => Some(kind.to_label()),
            None => None,
        }
    }

    /// The new quantities per size as a JSON object, where there are new
    /// ones.
    pub fn sizes_to_json(&self) -> (r: Result<Option<String>, Error>)
        ensures
            match self.sizes {
                None => r == Ok::<Option<String>, Error>(None),
                Some(sizes) => match r {
                    Ok(text) => text matches Some(t) && sizes_text(sizes)
                        == Some(t@),
                    Err(e) => sizes_text(sizes) is None && e
                        == Error::InvalidArgument(Invalid::Sizes),
                },
            },
    {
        match self.sizes {
            Some(sizes) => match sizes.to_json() {
                Some(text) => Ok(Some(text)),
                None => Err(Error::InvalidArgument(Invalid::Sizes)),
            },
            None => Ok(None),
        }
    }

    /// The pieces over all new sizes, where there are new ones: `Ok(None)`
    /// where there are none, an error where a record cannot hold their
    /// number.
    pub fn calculate_total_quantity(&self) -> (r: Result<Option<i32>, Error>)
        ensures
            r == match self.sizes {
                None => Ok::<Option<i32>, Error>(None),
                Some(sizes) => match total_quantity_of(sizes) {
                    Some(total) => Ok(Some(total)),
                    None => Err(Error::InvalidArgument(Invalid::Quantity)),
                },
            },
    {
        match self.sizes {
            Some(sizes) => match total_quantity(&sizes) {
                Some(total) => Ok(Some(total)),
                None => Err(Error::InvalidArgument(Invalid::Quantity)),
            },
            None => Ok(None),
        }
    }
}

impl UpdateClothingServiceDto {
    pub fn to_service_type_string(&self) -> (text: Option<String>)
        ensures
            match text {
                Some(t) => self.service_type matches Some(kind) && t@ == kind.label(),
                None => self.service_type is None,
            },
    {
        match self.service_type {
            Some(kind) => Some(kind.to_label()),
            None => None,
        }
    }

    pub fn to_location_string(&self) -> (text: Option<String>)
        ensures
            match text {
                Some(t) => self.location matches Some(place) && t@ == place.label(),
                None => self.location is None,
            },
    {
        match self.location {
            Some(place) => Some(place.to_label()),
            None => None,
        }
    }
}

} // verus!
