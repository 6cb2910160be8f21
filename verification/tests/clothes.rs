use editart::database::Database;
use editart::dto::{
    ClothesDto, ClothingServiceDto, CreateClientDto, CreateClothesDto, CreateClothingServiceDto,
    CreateOrderDto, UpdateClothesDto, UpdateClothingServiceDto,
};
use editart::error::{Entity, Error, Invalid, Malformed, Violation};
use editart::models::{
    Clothes, ClothingService, ClothingSize, ClothingType, OrderStatus, ServiceLocation,
    ServiceType, SizesMap,
};
use editart::repositories::{ClothesRepository, ClothingServiceRepository, OrderRepository};
use editart::services::{ClientService, ClothesService, OrderService};
use editart::temporal::{Date, Timestamp};

fn at(seconds: i128) -> Timestamp {
    Timestamp { unix_nanos: seconds * 1_000_000_000 }
}

fn store() -> Database {
    let mut db = Database::new();
    ClientService::new()
        .create_client_with(
            &mut db,
            "c1".into(),
            at(1),
            CreateClientDto {
                name: "Ana".into(),
                nuit: String::new(),
                contact: String::new(),
                category: String::new(),
                observations: String::new(),
            },
        )
        .unwrap();
    OrderService::new()
        .create_order_with(
            &mut db,
            "o1".into(),
            at(2),
            CreateOrderDto {
                name: "order".into(),
                client_id: "c1".into(),
                due_date: Date { julian_day: 2_460_000 },
                iva: 1000,
                discount: None,
                status: Some(OrderStatus::InProduction),
                paid: Some(true),
            },
        )
        .unwrap();
    db
}

fn sizes(entries: &[(ClothingSize, u32)]) -> SizesMap {
    let mut sizes = SizesMap::new();
    for (size, count) in entries {
        sizes.insert(*size, *count);
    }
    sizes
}

fn service(price: i64) -> CreateClothingServiceDto {
    CreateClothingServiceDto {
        service_type: ServiceType::Embroidery,
        location: ServiceLocation::SleeveLeft,
        description: Some("initials".into()),
        unit_price: price,
    }
}

fn line(prices: &[i64]) -> CreateClothesDto {
    CreateClothesDto {
        order_id: "o1".into(),
        clothing_type: ClothingType::UniformShirts,
        custom_type: None,
        unit_price: 1000,
        sizes: sizes(&[(ClothingSize::M, 5), (ClothingSize::S, 2), (ClothingSize::L, 3)]),
        color: "white".into(),
        services: prices.iter().map(|p| service(*p)).collect(),
    }
}

fn total(db: &Database) -> (i64, i64) {
    let o = OrderRepository.get_by_id(db, "o1").unwrap().unwrap();
    (o.subtotal, o.total)
}

#[test]
fn line_is_created_with_its_services() {
    let mut db = store();
    let dto = ClothesService::new()
        .create_clothes_with(&mut db, "l1".into(), vec!["s1".into(), "s2".into()], at(10), line(&[100, 50]))
        .unwrap();
    assert_eq!(dto.id, "l1");
    assert_eq!(dto.clothing_type, ClothingType::UniformShirts);
    assert_eq!(dto.total_quantity, 10);
    assert_eq!(dto.sizes, sizes(&[(ClothingSize::S, 2), (ClothingSize::M, 5), (ClothingSize::L, 3)]));
    assert_eq!(dto.services.len(), 2);
    assert_eq!(dto.services[0].id, "s1");
    assert_eq!(dto.services[1].unit_price, 50);
    assert_eq!(dto.services[0].location, ServiceLocation::SleeveLeft);
    assert_eq!(dto.services[0].description, Some("initials".to_string()));
    assert_eq!(dto.calculate_total_price(), Some(11500));
    let row = ClothesRepository.get_by_id(&db, "l1").unwrap().unwrap();
    assert_eq!(row.clothing_type, "uniform_shirts");
    assert_eq!(row.sizes, "{\"L\":3,\"M\":5,\"S\":2}");
    assert_eq!(row.total_quantity, 10);
    assert_eq!(total(&db), (11500, 12650));
    assert_eq!(ClothesService::new().calculate_order_clothes_total(&db, "o1"), Ok(11500));
}

#[test]
fn line_is_created_under_fresh_identities() {
    let mut db = store();
    let dto = ClothesService::new().create_clothes(&mut db, line(&[1, 2, 3])).unwrap();
    assert_eq!(dto.id.len(), 36);
    assert_eq!(dto.services.len(), 3);
    assert_ne!(dto.services[0].id, dto.services[1].id);
    assert_eq!(dto.services[2].clothes_id, dto.id);
    assert_eq!(total(&db).0, 10060);
}

#[test]
fn line_for_unknown_order_is_not_created() {
    let mut db = store();
    let mut dto = line(&[1]);
    dto.order_id = "o9".into();
    assert_eq!(
        ClothesService::new().create_clothes_with(&mut db, "l1".into(), vec!["s1".into()], at(10), dto),
        Err(Error::NotFound(Entity::Order))
    );
    assert!(db.clothes().is_empty());
    assert!(db.clothing_services().is_empty());
}

#[test]
fn line_stays_where_a_service_is_refused() {
    let mut db = store();
    let r = ClothesService::new()
        .create_clothes_with(&mut db, "l1".into(), vec!["s1".into(), "s1".into()], at(10), line(&[1, 2]));
    assert_eq!(r, Err(Error::StoreFailure(Violation::DuplicateKey(Entity::ClothingService))));
    assert_eq!(db.clothes().len(), 1);
    assert_eq!(db.clothing_services().len(), 1);
    assert_eq!(total(&db), (0, 0));
}

#[test]
fn quantities_must_fit_a_line() {
    let mut db = store();
    let mut dto = line(&[]);
    dto.sizes = sizes(&[(ClothingSize::S, u32::MAX), (ClothingSize::XXXL, 1)]);
    assert_eq!(dto.calculate_total_quantity(), Err(Error::InvalidArgument(Invalid::Quantity)));
    assert_eq!(
        ClothesService::new().create_clothes_with(&mut db, "l1".into(), vec![], at(10), dto),
        Err(Error::InvalidArgument(Invalid::Quantity))
    );
    let mut dto = line(&[]);
    dto.sizes = sizes(&[(ClothingSize::S, 2_147_483_000), (ClothingSize::XL, 647)]);
    assert_eq!(dto.calculate_total_quantity(), Ok(i32::MAX));
    dto.sizes = SizesMap::new();
    assert_eq!(dto.calculate_total_quantity(), Ok(0));
}

#[test]
fn lines_and_services_are_found() {
    let mut db = store();
    let service = ClothesService::new();
    service.create_clothes_with(&mut db, "l2".into(), vec!["s3".into()], at(20), line(&[7])).unwrap();
    service.create_clothes_with(&mut db, "l1".into(), vec!["s2".into(), "s1".into()], at(10), line(&[5, 6])).unwrap();
    let lines = service.get_clothes_by_order_id(&db, "o1").unwrap();
    let ids: Vec<&str> = lines.iter().map(|l| l.id.as_str()).collect();
    assert_eq!(ids, vec!["l1", "l2"]);
    assert_eq!(lines[0].services.len(), 2);
    assert_eq!(service.get_clothes_by_id(&db, "l2").unwrap().unwrap().services[0].id, "s3");
    assert_eq!(service.get_clothes_by_id(&db, "l9"), Ok(None));
    let services = service.get_services_by_clothes_id(&db, "l1").unwrap();
    assert_eq!(services.iter().map(|s| s.unit_price).collect::<Vec<_>>(), vec![5, 6]);
    assert!(service.get_clothes_by_order_id(&db, "o9").unwrap().is_empty());
}

#[test]
fn line_is_changed_and_the_order_recalculated() {
    let mut db = store();
    let service = ClothesService::new();
    service.create_clothes_with(&mut db, "l1".into(), vec!["s1".into()], at(10), line(&[100])).unwrap();
    let none = UpdateClothesDto { clothing_type: None, custom_type: None, unit_price: None, sizes: None, color: None };
    let dto = service
        .update_clothes_at(
            &mut db,
            at(20),
            "l1",
            UpdateClothesDto {
                clothing_type: Some(ClothingType::Other),
                custom_type: Some(Some("cape".into())),
                unit_price: Some(2000),
                sizes: Some(sizes(&[(ClothingSize::XXL, 4)])),
                ..none.clone()
            },
        )
        .unwrap()
        .unwrap();
    assert_eq!(dto.clothing_type, ClothingType::Other);
    assert_eq!(dto.custom_type, Some("cape".to_string()));
    assert_eq!(dto.total_quantity, 4);
    assert_eq!(dto.color, "white");
    assert_eq!(dto.updated_at, at(20));
    assert_eq!(dto.created_at, at(10));
    assert_eq!(total(&db), (8400, 9240));
    let dto = service.update_clothes_at(&mut db, at(21), "l1", none.clone()).unwrap().unwrap();
    assert_eq!((dto.unit_price, dto.total_quantity), (2000, 4));
    assert_eq!(service.update_clothes_at(&mut db, at(22), "l9", none.clone()), Err(Error::NotFound(Entity::Clothes)));
    assert_eq!(
        service.update_clothes_at(
            &mut db,
            at(22),
            "l1",
            UpdateClothesDto { sizes: Some(sizes(&[(ClothingSize::S, u32::MAX), (ClothingSize::M, 9)])), ..none }
        ),
        Err(Error::InvalidArgument(Invalid::Quantity))
    );
}

#[test]
fn service_is_changed_and_the_order_recalculated() {
    let mut db = store();
    let service = ClothesService::new();
    service.create_clothes_with(&mut db, "l1".into(), vec!["s1".into()], at(10), line(&[100])).unwrap();
    let dto = service
        .update_service_at(
            &mut db,
            at(20),
            "s1",
            UpdateClothingServiceDto {
                service_type: Some(ServiceType::Dtf),
                location: None,
                description: Some(None),
                unit_price: Some(300),
            },
        )
        .unwrap()
        .unwrap();
    assert_eq!(dto.service_type, ServiceType::Dtf);
    assert_eq!(dto.location, ServiceLocation::SleeveLeft);
    assert_eq!(dto.description, None);
    assert_eq!(total(&db).0, 13000);
    let none = UpdateClothingServiceDto { service_type: None, location: None, description: None, unit_price: None };
    assert_eq!(
        service.update_service_at(&mut db, at(21), "s9", none),
        Err(Error::NotFound(Entity::ClothingService))
    );
    assert_eq!(service.delete_service_at(&mut db, at(21), "s9"), Err(Error::NotFound(Entity::ClothingService)));
    assert_eq!(service.delete_clothes_at(&mut db, at(21), "l9"), Err(Error::NotFound(Entity::Clothes)));
    assert_eq!(
        service.add_service_to_clothes_with(&mut db, "s2".into(), at(21), "l9", super_service()),
        Err(Error::NotFound(Entity::Clothes))
    );
    assert_eq!(
        service.add_service_to_clothes_with(&mut db, "s1".into(), at(21), "l1", super_service()),
        Err(Error::StoreFailure(Violation::DuplicateKey(Entity::ClothingService)))
    );
}

fn super_service() -> CreateClothingServiceDto {
    service(1)
}

#[test]
fn deleting_a_line_deletes_its_services() {
    let mut db = store();
    let service = ClothesService::new();
    service.create_clothes_with(&mut db, "l1".into(), vec!["s1".into(), "s2".into()], at(10), line(&[1, 2])).unwrap();
    service.create_clothes_with(&mut db, "l2".into(), vec!["s3".into()], at(11), line(&[4])).unwrap();
    assert_eq!(ClothingServiceRepository.delete_by_clothes_id(&mut db, "l2"), Ok(1));
    assert_eq!(ClothingServiceRepository.delete_by_clothes_id(&mut db, "l2"), Ok(0));
    assert_eq!(service.delete_clothes_at(&mut db, at(12), "l1"), Ok(true));
    assert_eq!(db.clothes().len(), 1);
    assert!(db.clothing_services().is_empty());
    assert_eq!(total(&db).0, 10000);
}

#[test]
fn sizes_are_kept_as_a_json_object() {
    let s = sizes(&[(ClothingSize::XXXL, 1), (ClothingSize::S, 2), (ClothingSize::XL, 0)]);
    assert_eq!(s.to_json(), Some("{\"S\":2,\"XL\":0,\"XXXL\":1}".to_string()));
    assert_eq!(SizesMap::new().to_json(), Some("{}".to_string()));
    assert_eq!(SizesMap::from_json("{\"M\": 5, \"S\": 2, \"L\": 3}"), Some(sizes(&[(ClothingSize::S, 2), (ClothingSize::M, 5), (ClothingSize::L, 3)])));
    assert_eq!(SizesMap::from_json("{}"), Some(SizesMap::new()));
    assert_eq!(SizesMap::from_json("{\"XS\": 1}"), None);
    assert_eq!(SizesMap::from_json("{\"S\": -1}"), None);
    assert_eq!(SizesMap::from_json("{\"S\": 4294967296}"), None);
    assert_eq!(SizesMap::from_json("[1]"), None);
    assert_eq!(SizesMap::from_json("{\"S\": 1"), None);
    assert_eq!(SizesMap::from_json(&s.to_json().unwrap()), Some(s));
    assert_eq!(
        SizesMap::from_members(&vec![("S".to_string(), 1), ("S".to_string(), 2)]),
        Some(sizes(&[(ClothingSize::S, 2)]))
    );
    assert_eq!(SizesMap::from_members(&vec![("S".to_string(), 1), ("s".to_string(), 2)]), None);
    assert_eq!(s.members(), vec![("S".to_string(), 2), ("XL".to_string(), 0), ("XXXL".to_string(), 1)]);
    assert_eq!(s.get(ClothingSize::XL), Some(0));
    assert_eq!(s.get(ClothingSize::M), None);
}

#[test]
fn labels_name_their_variants() {
    let kinds = [
        (ClothingType::CollaredTshirts, "collared_tshirts"),
        (ClothingType::TshirtsWithoutCollar, "tshirts_without_collar"),
        (ClothingType::UniformShirts, "uniform_shirts"),
        (ClothingType::Uniforms, "uniforms"),
        (ClothingType::UniformPants, "uniform_pants"),
        (ClothingType::Bags, "bags"),
        (ClothingType::Aprons, "aprons"),
        (ClothingType::ClothVests, "cloth_vests"),
        (ClothingType::ReflectiveVests, "reflective_vests"),
        (ClothingType::ThickCaps, "thick_caps"),
        (ClothingType::SimpleCaps, "simple_caps"),
        (ClothingType::Towels, "towels"),
        (ClothingType::Sheets, "sheets"),
        (ClothingType::ApronsKitchen, "aprons_kitchen"),
        (ClothingType::Other, "other"),
    ];
    for (kind, label) in kinds {
        assert_eq!(kind.to_label(), label);
        assert_eq!(ClothingType::from_label(&label.to_string()), Some(kind));
    }
    assert_eq!(ClothingType::from_label(&"Bags".to_string()), None);
    assert_eq!(ClothingType::default(), ClothingType::CollaredTshirts);
    for (kind, label) in [
        (ServiceType::Embroidery, "embroidery"),
        (ServiceType::Stamping, "stamping"),
        (ServiceType::Dtf, "dtf"),
        (ServiceType::Transfer, "transfer"),
    ] {
        assert_eq!(kind.to_label(), label);
        assert_eq!(ServiceType::from_label(&label.to_string()), Some(kind));
    }
    for (place, label) in [
        (ServiceLocation::FrontRight, "front_right"),
        (ServiceLocation::FrontLeft, "front_left"),
        (ServiceLocation::Back, "back"),
        (ServiceLocation::SleeveLeft, "sleeve_left"),
        (ServiceLocation::SleeveRight, "sleeve_right"),
        (ServiceLocation::CenterFront, "center_front"),
        (ServiceLocation::CenterBack, "center_back"),
        (ServiceLocation::LeftSide, "left_side"),
        (ServiceLocation::RightSide, "right_side"),
        (ServiceLocation::Top, "top"),
        (ServiceLocation::Bottom, "bottom"),
        (ServiceLocation::Custom, "custom"),
    ] {
        assert_eq!(place.to_label(), label);
        assert_eq!(ServiceLocation::from_label(&label.to_string()), Some(place));
    }
    for (status, label) in [
        (OrderStatus::OrderReceived, "order_received"),
        (OrderStatus::InProduction, "in_production"),
        (OrderStatus::ReadyForDelivery, "ready_for_delivery"),
        (OrderStatus::Delivered, "delivered"),
    ] {
        assert_eq!(status.to_label(), label);
        assert_eq!(OrderStatus::from_label(&label.to_string()), Some(status));
    }
    assert_eq!(OrderStatus::default(), OrderStatus::OrderReceived);
    for (size, label) in [
        (ClothingSize::S, "S"),
        (ClothingSize::M, "M"),
        (ClothingSize::L, "L"),
        (ClothingSize::XL, "XL"),
        (ClothingSize::XXL, "XXL"),
        (ClothingSize::XXXL, "XXXL"),
    ] {
        assert_eq!(size.to_label(), label);
        assert_eq!(ClothingSize::from_label(&label.to_string()), Some(size));
    }
}

fn clothes_row(kind: &str, sizes: &str) -> Clothes {
    Clothes {
        id: "l1".into(),
        order_id: "o1".into(),
        clothing_type: kind.into(),
        custom_type: None,
        unit_price: 7,
        sizes: sizes.into(),
        color: "c".into(),
        total_quantity: 3,
        created_at: at(1),
        updated_at: at(2),
    }
}

fn service_row(kind: &str, place: &str) -> ClothingService {
    ClothingService {
        id: "s1".into(),
        clothes_id: "l1".into(),
        service_type: kind.into(),
        location: place.into(),
        description: None,
        unit_price: 2,
        created_at: at(1),
        updated_at: at(2),
    }
}

#[test]
fn records_with_unknown_texts_stand_for_nothing() {
    assert_eq!(
        ClothesDto::from_model(clothes_row("hats", "{}"), vec![]),
        Err(Error::InvalidArgument(Invalid::ClothingType("hats".into())))
    );
    assert_eq!(
        ClothesDto::from_model(clothes_row("bags", "{\"XS\":1}"), vec![]),
        Err(Error::ParseError(Malformed::Sizes("{\"XS\":1}".into())))
    );
    assert_eq!(
        ClothesDto::from_model(clothes_row("bags", "oops"), vec![service_row("paint", "back")]),
        Err(Error::ParseError(Malformed::Sizes("oops".into())))
    );
    assert_eq!(
        ClothesDto::from_model(
            clothes_row("bags", "{}"),
            vec![service_row("dtf", "back"), service_row("dtf", "knee"), service_row("paint", "back")]
        ),
        Err(Error::InvalidArgument(Invalid::ServiceLocation("knee".into())))
    );
    assert_eq!(
        ClothingServiceDto::from_model(service_row("paint", "knee")),
        Err(Error::InvalidArgument(Invalid::ServiceType("paint".into())))
    );
    let dto = ClothesDto::from_model(clothes_row("bags", "{\"L\":3}"), vec![service_row("dtf", "top")]).unwrap();
    assert_eq!(dto.calculate_total_price(), Some(27));
}

#[test]
fn failures_name_the_text_that_was_found() {
    let e = ClothesDto::from_model(clothes_row("hat", "{}"), vec![]).unwrap_err();
    assert_eq!(e.message(), "Invalid clothing type: hat");
    let e = ClothingServiceDto::from_model(service_row("paint", "back")).unwrap_err();
    assert_eq!(e.message(), "Invalid service type: paint");
    let other = ClothingServiceDto::from_model(service_row("glue", "back")).unwrap_err();
    assert_eq!(other.message(), "Invalid service type: glue");
    assert_ne!(e, other);
    let e = ClothingServiceDto::from_model(service_row("dtf", "knee")).unwrap_err();
    assert_eq!(e.message(), "Invalid service location: knee");
    let e = ClothesDto::from_model(clothes_row("", "{}"), vec![]).unwrap_err();
    assert_eq!(e.message(), "Invalid clothing type: ");
    let e = ClothesDto::from_model(clothes_row("bags", "{\"S\": many}"), vec![]).unwrap_err();
    assert_eq!(e.message(), "Failed to parse sizes JSON: {\"S\": many}");
}

#[test]
fn price_of_a_line() {
    let mut dto = ClothesDto::from_model(clothes_row("bags", "{}"), vec![service_row("dtf", "top"), service_row("dtf", "top")]).unwrap();
    assert_eq!(dto.calculate_total_price(), Some((7 + 2 + 2) * 3));
    dto.total_quantity = 0;
    dto.unit_price = i64::MAX;
    assert_eq!(dto.calculate_total_price(), Some(0));
    dto.total_quantity = 1;
    assert_eq!(dto.calculate_total_price(), None);
    dto.unit_price = i64::MAX - 4;
    assert_eq!(dto.calculate_total_price(), Some(i64::MAX));
    dto.total_quantity = -1;
    assert_eq!(dto.calculate_total_price(), Some(-i64::MAX));
    dto.unit_price = -5;
    dto.total_quantity = i32::MIN;
    assert_eq!(dto.calculate_total_price(), Some(2_147_483_648));
}
