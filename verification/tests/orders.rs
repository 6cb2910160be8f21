use editart::database::Database;
use editart::dto::{
    CreateClientDto, CreateClothesDto, CreateClothingServiceDto, CreateImpressionDto,
    CreateOrderDto, UpdateOrderDto,
};
use editart::error::{Entity, Error, Invalid, Violation};
use editart::models::{ClothingType, OrderStatus, ServiceLocation, ServiceType, SizesMap};
use editart::pricing::{settle, subtotal_of, total_of};
use editart::repositories::{ClientRepository, OrderRepository};
use editart::services::{ClientService, ClothesService, ImpressionService, OrderService};
use editart::temporal::{Date, Timestamp};

fn at(seconds: i128) -> Timestamp {
    Timestamp { unix_nanos: seconds * 1_000_000_000 }
}

fn client(db: &mut Database, id: &str, name: &str) {
    let dto = CreateClientDto {
        name: name.to_string(),
        nuit: "400123".to_string(),
        contact: "84 000".to_string(),
        category: "retail".to_string(),
        observations: String::new(),
    };
    ClientService::new().create_client_with(db, id.to_string(), at(1), dto).unwrap();
}

fn order_dto(client_id: &str, iva: i64, discount: Option<i64>) -> CreateOrderDto {
    CreateOrderDto {
        name: "order".to_string(),
        client_id: client_id.to_string(),
        due_date: Date { julian_day: 2_460_000 },
        iva: iva * 100,
        discount,
        status: None,
        paid: None,
    }
}

fn order(db: &mut Database, id: &str, client_id: &str, iva: i64, discount: i64, second: i128) {
    OrderService::new()
        .create_order_with(db, id.to_string(), at(second), order_dto(client_id, iva, Some(discount)))
        .unwrap();
}

fn sizes(s: u32, m: u32) -> SizesMap {
    let mut sizes = SizesMap::new();
    sizes.insert(editart::models::ClothingSize::S, s);
    sizes.insert(editart::models::ClothingSize::M, m);
    sizes
}

fn line(order_id: &str, unit_price: i64, s: u32, m: u32, service_prices: &[i64]) -> CreateClothesDto {
    CreateClothesDto {
        order_id: order_id.to_string(),
        clothing_type: ClothingType::Bags,
        custom_type: None,
        unit_price,
        sizes: sizes(s, m),
        color: "blue".to_string(),
        services: service_prices
            .iter()
            .map(|p| CreateClothingServiceDto {
                service_type: ServiceType::Embroidery,
                location: ServiceLocation::Back,
                description: None,
                unit_price: *p,
            })
            .collect(),
    }
}

fn impression(order_id: &str, price: i64) -> CreateImpressionDto {
    CreateImpressionDto {
        order_id: order_id.to_string(),
        name: "banner".to_string(),
        size: "A1".to_string(),
        material: "vinyl".to_string(),
        description: String::new(),
        price,
    }
}

fn stored(db: &Database, id: &str) -> editart::models::Order {
    OrderRepository.get_by_id(db, id).unwrap().unwrap()
}

#[test]
fn order_numbers_count_from_one() {
    let mut db = Database::new();
    client(&mut db, "c1", "Ana");
    for n in 1..=5 {
        let id = format!("o{}", n);
        let r = OrderService::new()
            .create_order_with(&mut db, id, at(10 + n as i128), order_dto("c1", 16, None))
            .unwrap();
        assert_eq!(r.order_number, n);
    }
}

#[test]
fn requisition_numbers_count_per_client() {
    let mut db = Database::new();
    client(&mut db, "c1", "Ana");
    client(&mut db, "c2", "Rui");
    let service = OrderService::new();
    let a = service.create_order_with(&mut db, "o1".into(), at(10), order_dto("c1", 0, None)).unwrap();
    let b = service.create_order_with(&mut db, "o2".into(), at(11), order_dto("c2", 0, None)).unwrap();
    let c = service.create_order_with(&mut db, "o3".into(), at(12), order_dto("c1", 0, None)).unwrap();
    let d = service.create_order_with(&mut db, "o4".into(), at(13), order_dto("c1", 0, None)).unwrap();
    let e = service.create_order_with(&mut db, "o5".into(), at(14), order_dto("c2", 0, None)).unwrap();
    assert_eq!(
        (a.order_number, b.order_number, c.order_number, d.order_number, e.order_number),
        (1, 2, 3, 4, 5)
    );
    assert_eq!(
        (a.client_requisition_number, c.client_requisition_number, d.client_requisition_number),
        (1, 2, 3)
    );
    assert_eq!((b.client_requisition_number, e.client_requisition_number), (1, 2));
}

#[test]
fn deleting_an_order_leaves_a_gap() {
    let mut db = Database::new();
    client(&mut db, "c1", "Ana");
    order(&mut db, "o1", "c1", 0, 0, 10);
    order(&mut db, "o2", "c1", 0, 0, 11);
    order(&mut db, "o3", "c1", 0, 0, 12);
    assert_eq!(OrderService::new().delete_order(&mut db, "o2"), Ok(true));
    let next = OrderService::new()
        .create_order_with(&mut db, "o4".into(), at(13), order_dto("c1", 0, None))
        .unwrap();
    assert_eq!(next.order_number, 4);
    assert_eq!(next.client_requisition_number, 4);
    assert_eq!(stored(&db, "o1").order_number, 1);
    assert_eq!(stored(&db, "o3").order_number, 3);
}

#[test]
fn order_for_unknown_client_is_not_created() {
    let mut db = Database::new();
    let r = OrderService::new()
        .create_order_with(&mut db, "o1".into(), at(10), order_dto("nobody", 16, None));
    assert_eq!(r, Err(Error::NotFound(Entity::Client)));
    assert!(db.orders().is_empty());
}

#[test]
fn order_with_taken_identity_is_refused() {
    let mut db = Database::new();
    client(&mut db, "c1", "Ana");
    order(&mut db, "o1", "c1", 0, 0, 10);
    let r = OrderService::new()
        .create_order_with(&mut db, "o1".into(), at(11), order_dto("c1", 16, None));
    assert_eq!(r, Err(Error::StoreFailure(Violation::DuplicateKey(Entity::Order))));
    assert_eq!(db.orders().len(), 1);
}

#[test]
fn new_order_starts_with_nothing_on_it() {
    let mut db = Database::new();
    client(&mut db, "c1", "Ana");
    let r = OrderService::new()
        .create_order_with(&mut db, "o1".into(), at(10), order_dto("c1", 16, None))
        .unwrap();
    assert_eq!((r.subtotal, r.total, r.debt, r.discount, r.iva), (0, 0, 0, 0, 1600));
    assert_eq!(r.status, OrderStatus::OrderReceived);
    assert_eq!(r.client_name, "Ana");
    assert_eq!(r.client_contact, "84 000");
    assert_eq!(r.due_date, Some(Date { julian_day: 2_460_000 }));
    assert_eq!(r.created_at, at(10));
    assert_eq!(r.updated_at, at(10));
}

#[test]
fn fresh_identities_are_drawn_for_new_orders() {
    let mut db = Database::new();
    let c = ClientService::new()
        .create_client(
            &mut db,
            CreateClientDto {
                name: "Ana".into(),
                nuit: String::new(),
                contact: String::new(),
                category: String::new(),
                observations: String::new(),
            },
        )
        .unwrap();
    assert_eq!(c.id.len(), 36);
    let a = OrderService::new().create_order(&mut db, order_dto(&c.id, 16, None)).unwrap();
    let b = OrderService::new().create_order(&mut db, order_dto(&c.id, 16, None)).unwrap();
    assert_eq!(a.id.len(), 36);
    assert_ne!(a.id, b.id);
    assert_ne!(a.id, c.id);
    assert_eq!((a.order_number, b.order_number), (1, 2));
    assert!(a.created_at.unix_nanos > 1_500_000_000_000_000_000);
}

#[test]
fn recalculation_of_the_worked_example() {
    let mut db = Database::new();
    client(&mut db, "c1", "Ana");
    order(&mut db, "o1", "c1", 16, 500, 10);
    ClothesService::new()
        .create_clothes_with(&mut db, "l1".into(), vec!["s1".into()], at(20), line("o1", 1000, 1, 2, &[500]))
        .unwrap();
    ImpressionService::new()
        .create_impression_with(&mut db, "i1".into(), at(21), impression("o1", 2000))
        .unwrap();
    let o = stored(&db, "o1");
    assert_eq!(o.subtotal, 6500);
    assert_eq!(o.total, 7040);
    assert_eq!(o.debt, 7040);
    assert_eq!(o.total as f64 / 100.0, 70.4);
    assert_eq!(o.updated_at, at(21));
}

#[test]
fn recalculating_twice_changes_nothing() {
    let mut db = Database::new();
    client(&mut db, "c1", "Ana");
    order(&mut db, "o1", "c1", 17, 250, 10);
    ClothesService::new()
        .create_clothes_with(&mut db, "l1".into(), vec!["s1".into(), "s2".into()], at(20), line("o1", 1234, 3, 4, &[111, 222]))
        .unwrap();
    let service = OrderService::new();
    service.recalculate_order_totals_at(&mut db, at(30), "o1").unwrap();
    let once = stored(&db, "o1");
    service.recalculate_order_totals_at(&mut db, at(31), "o1").unwrap();
    let twice = stored(&db, "o1");
    assert_eq!((once.subtotal, once.total), (twice.subtotal, twice.total));
    assert_eq!(once.subtotal, (1234 + 111 + 222) * 7);
    assert_eq!(once.total, 10969 + 10969 * 17 / 100 - 250);
}

#[test]
fn subtotal_follows_the_current_lines() {
    let mut db = Database::new();
    client(&mut db, "c1", "Ana");
    order(&mut db, "o1", "c1", 0, 0, 10);
    order(&mut db, "o2", "c1", 0, 0, 11);
    let clothes = ClothesService::new();
    let impressions = ImpressionService::new();
    clothes.create_clothes_with(&mut db, "l1".into(), vec![], at(20), line("o1", 100, 2, 0, &[])).unwrap();
    assert_eq!(stored(&db, "o1").subtotal, 200);
    clothes.create_clothes_with(&mut db, "l2".into(), vec!["s1".into()], at(21), line("o1", 50, 1, 1, &[25])).unwrap();
    assert_eq!(stored(&db, "o1").subtotal, 200 + 150);
    impressions.create_impression_with(&mut db, "i1".into(), at(22), impression("o1", 40)).unwrap();
    assert_eq!(stored(&db, "o1").subtotal, 390);
    impressions.create_impression_with(&mut db, "i2".into(), at(23), impression("o2", 7)).unwrap();
    assert_eq!(stored(&db, "o1").subtotal, 390);
    assert_eq!(stored(&db, "o2").subtotal, 7);
    clothes
        .add_service_to_clothes_with(
            &mut db,
            "s2".into(),
            at(24),
            "l1",
            CreateClothingServiceDto {
                service_type: ServiceType::Dtf,
                location: ServiceLocation::Top,
                description: Some("logo".into()),
                unit_price: 10,
            },
        )
        .unwrap();
    assert_eq!(stored(&db, "o1").subtotal, 410);
    assert_eq!(clothes.delete_service_at(&mut db, at(25), "s1"), Ok(true));
    assert_eq!(stored(&db, "o1").subtotal, 360);
    assert_eq!(clothes.delete_clothes_at(&mut db, at(26), "l1"), Ok(true));
    assert_eq!(stored(&db, "o1").subtotal, 140);
    assert_eq!(impressions.delete_impression_at(&mut db, at(27), "i1"), Ok(true));
    assert_eq!(stored(&db, "o1").subtotal, 100);
    assert_eq!(stored(&db, "o1").total, 100);
    assert_eq!(subtotal_of(&db, &"o1".to_string()), Some(100));
}

#[test]
fn total_is_subtotal_plus_tax_minus_discount() {
    assert_eq!(total_of(6500, 1600, 500), Some(7040));
    assert_eq!(total_of(1000, 0, 0), Some(1000));
    assert_eq!(total_of(1000, 1700, 1500), Some(-330));
    assert_eq!(total_of(0, 1600, 0), Some(0));
    assert_eq!(total_of(199, 1600, 0), Some(199 + 31));
}

#[test]
fn tax_rate_may_be_a_fraction_of_a_percent() {
    assert_eq!(total_of(1000, 750, 0), Some(1075));
    assert_eq!(total_of(20000, 1625, 100), Some(20000 + 3250 - 100));
    assert_eq!(total_of(10000, 1, 0), Some(10001));
    assert_eq!(total_of(9999, 1, 0), Some(9999));
}

#[test]
fn tax_is_rounded_down() {
    assert_eq!(total_of(-1, 5000, 0), Some(-2));
    assert_eq!(total_of(-100, 1600, 0), Some(-116));
    assert_eq!(total_of(-101, 1600, 0), Some(-101 - 17));
    assert_eq!(total_of(3, 5000, 0), Some(4));
}

#[test]
fn total_that_does_not_fit_is_refused() {
    assert_eq!(total_of(i64::MAX, 10000, 0), None);
    assert_eq!(total_of(i64::MAX, 0, 0), Some(i64::MAX));
    assert_eq!(total_of(i64::MAX, 0, -1), None);
    assert_eq!(total_of(i64::MIN, 0, 1), None);
}

#[test]
fn recalculation_that_does_not_fit_is_refused() {
    let mut db = Database::new();
    client(&mut db, "c1", "Ana");
    order(&mut db, "o1", "c1", 16, 0, 10);
    let r = ImpressionService::new()
        .create_impression_with(&mut db, "i1".into(), at(21), impression("o1", i64::MAX));
    assert_eq!(r, Err(Error::StoreFailure(Violation::AmountOutOfRange)));
    assert_eq!(db.impressions().len(), 1);
    assert_eq!(stored(&db, "o1").subtotal, 0);
}

#[test]
fn recalculating_an_unknown_order_fails() {
    let mut db = Database::new();
    assert_eq!(
        OrderService::new().recalculate_order_totals_at(&mut db, at(1), "o9"),
        Err(Error::NotFound(Entity::Order))
    );
    assert_eq!(OrderService::new().recalculate_order_totals(&mut db, "o9"), Err(Error::NotFound(Entity::Order)));
}

#[test]
fn payments_reduce_debt_and_stop_at_nothing() {
    let mut db = Database::new();
    client(&mut db, "c1", "Ana");
    order(&mut db, "o1", "c1", 0, 0, 10);
    ImpressionService::new()
        .create_impression_with(&mut db, "i1".into(), at(11), impression("o1", 100))
        .unwrap();
    assert_eq!((stored(&db, "o1").total, stored(&db, "o1").debt), (100, 100));
    let service = OrderService::new();
    assert_eq!(service.pay_order_debt_at(&mut db, at(12), "o1", 40), Ok(true));
    assert_eq!(stored(&db, "o1").debt, 60);
    assert_eq!(stored(&db, "o1").updated_at, at(12));
    assert_eq!(service.pay_order_debt_at(&mut db, at(13), "o1", 1000), Ok(true));
    assert_eq!(stored(&db, "o1").debt, 0);
    assert_eq!(stored(&db, "o1").total, 100);
    assert_eq!(service.pay_order_debt(&mut db, "o1", 1), Ok(true));
    assert_eq!(stored(&db, "o1").debt, 0);
}

#[test]
fn payment_must_be_greater_than_nothing() {
    let mut db = Database::new();
    client(&mut db, "c1", "Ana");
    order(&mut db, "o1", "c1", 0, 0, 10);
    let service = OrderService::new();
    assert_eq!(
        service.pay_order_debt_at(&mut db, at(12), "o1", 0),
        Err(Error::InvalidArgument(Invalid::NonPositivePayment))
    );
    assert_eq!(
        service.pay_order_debt_at(&mut db, at(12), "o1", -5),
        Err(Error::InvalidArgument(Invalid::NonPositivePayment))
    );
    assert_eq!(stored(&db, "o1").updated_at, at(10));
}

#[test]
fn payment_on_unknown_order_fails() {
    let mut db = Database::new();
    assert_eq!(
        OrderService::new().pay_order_debt_at(&mut db, at(12), "o1", 10),
        Err(Error::NotFound(Entity::Order))
    );
}

#[test]
fn settling_never_goes_below_nothing() {
    assert_eq!(settle(10000, 4000), Some(6000));
    assert_eq!(settle(6000, 100000), Some(0));
    assert_eq!(settle(0, i64::MAX), Some(0));
    assert_eq!(settle(i64::MIN, 1), Some(0));
    assert_eq!(settle(5, 5), Some(0));
    assert_eq!(settle(i64::MAX, -1), None);
    assert_eq!(settle(10, -5), Some(15));
}

#[test]
fn recalculation_makes_the_order_owe_its_total_again() {
    let mut db = Database::new();
    client(&mut db, "c1", "Ana");
    order(&mut db, "o1", "c1", 0, 0, 10);
    let impressions = ImpressionService::new();
    impressions.create_impression_with(&mut db, "i1".into(), at(11), impression("o1", 100)).unwrap();
    OrderService::new().pay_order_debt_at(&mut db, at(12), "o1", 40).unwrap();
    impressions.create_impression_with(&mut db, "i2".into(), at(13), impression("o1", 10)).unwrap();
    assert_eq!((stored(&db, "o1").total, stored(&db, "o1").debt), (110, 110));
}

#[test]
fn orders_are_listed_latest_first() {
    let mut db = Database::new();
    client(&mut db, "c1", "Ana");
    client(&mut db, "c2", "Rui");
    order(&mut db, "o1", "c1", 0, 0, 30);
    order(&mut db, "o2", "c2", 0, 0, 10);
    order(&mut db, "o3", "c1", 0, 0, 20);
    let service = OrderService::new();
    let all: Vec<String> = service.list_orders(&db).unwrap().into_iter().map(|o| o.id).collect();
    assert_eq!(all, vec!["o1", "o3", "o2"]);
    let mine: Vec<String> =
        service.get_orders_by_client_id(&db, "c1").unwrap().into_iter().map(|o| o.id).collect();
    assert_eq!(mine, vec!["o1", "o3"]);
    assert!(service.get_orders_by_client_id(&db, "c9").unwrap().is_empty());
    assert_eq!(service.get_order_by_id(&db, "o2").unwrap().unwrap().client_name, "Rui");
    assert_eq!(service.get_order_by_id(&db, "o9"), Ok(None));
}

#[test]
fn orders_are_found_by_due_date() {
    let mut db = Database::new();
    client(&mut db, "c1", "Ana");
    let service = OrderService::new();
    for (id, day) in [("o1", 105), ("o2", 101), ("o3", 110), ("o4", 103), ("o5", 101)] {
        let mut dto = order_dto("c1", 0, None);
        dto.due_date = Date { julian_day: 2_460_000 + day };
        service.create_order_with(&mut db, id.into(), at(10), dto).unwrap();
    }
    let found: Vec<String> = service
        .get_orders_by_date_range(&db, Date { julian_day: 2_460_101 }, Date { julian_day: 2_460_105 })
        .unwrap()
        .into_iter()
        .map(|o| o.id)
        .collect();
    assert_eq!(found, vec!["o2", "o5", "o4", "o1"]);
}

#[test]
fn order_is_changed_field_by_field() {
    let mut db = Database::new();
    client(&mut db, "c1", "Ana");
    client(&mut db, "c2", "Rui");
    order(&mut db, "o1", "c1", 16, 5, 10);
    let service = OrderService::new();
    let none = UpdateOrderDto {
        name: None,
        client_id: None,
        due_date: None,
        discount: None,
        iva: None,
        subtotal: None,
        total: None,
        status: None,
        paid: None,
    };
    let r = service
        .update_order_at(
            &mut db,
            at(20),
            "o1",
            UpdateOrderDto {
                name: Some("new".into()),
                client_id: Some("c2".into()),
                status: Some(OrderStatus::Delivered),
                total: Some(99),
                ..none.clone()
            },
        )
        .unwrap()
        .unwrap();
    assert_eq!(r.name, "new");
    assert_eq!(r.client_name, "Rui");
    assert_eq!(r.status, OrderStatus::Delivered);
    assert_eq!((r.total, r.iva, r.discount, r.order_number), (99, 1600, 5, 1));
    assert_eq!(r.updated_at, at(20));
    assert_eq!(r.created_at, at(10));
    assert_eq!(stored(&db, "o1").status, "delivered");
    assert_eq!(
        service.update_order_at(&mut db, at(21), "o1", UpdateOrderDto { client_id: Some("c9".into()), ..none.clone() }),
        Err(Error::NotFound(Entity::Client))
    );
    assert_eq!(service.update_order_at(&mut db, at(21), "o9", none), Ok(None));
}

#[test]
fn deleting_an_order_deletes_what_belongs_to_it() {
    let mut db = Database::new();
    client(&mut db, "c1", "Ana");
    order(&mut db, "o1", "c1", 0, 0, 10);
    order(&mut db, "o2", "c1", 0, 0, 11);
    let clothes = ClothesService::new();
    clothes.create_clothes_with(&mut db, "l1".into(), vec!["s1".into()], at(20), line("o1", 1, 1, 0, &[1])).unwrap();
    clothes.create_clothes_with(&mut db, "l2".into(), vec!["s2".into()], at(21), line("o2", 1, 1, 0, &[1])).unwrap();
    ImpressionService::new().create_impression_with(&mut db, "i1".into(), at(22), impression("o1", 1)).unwrap();
    assert_eq!(OrderService::new().delete_order(&mut db, "o1"), Ok(true));
    assert_eq!(OrderService::new().delete_order(&mut db, "o1"), Ok(false));
    assert_eq!(db.orders().len(), 1);
    assert_eq!(db.clothes().len(), 1);
    assert_eq!(db.clothes()[0].id, "l2");
    assert_eq!(db.clothing_services().len(), 1);
    assert_eq!(db.clothing_services()[0].id, "s2");
    assert!(db.impressions().is_empty());
}

fn owed(db: &Database, client_id: &str) -> i64 {
    ClientRepository.get_by_id(db, client_id).unwrap().unwrap().debt
}

#[test]
fn client_owes_what_its_orders_owe_after_a_recalculation() {
    let mut db = Database::new();
    client(&mut db, "c1", "Ana");
    order(&mut db, "o1", "c1", 0, 0, 10);
    assert_eq!(owed(&db, "c1"), 0);
    ImpressionService::new()
        .create_impression_with(&mut db, "i1".into(), at(11), impression("o1", 10000))
        .unwrap();
    assert_eq!(stored(&db, "o1").debt, 10000);
    assert_eq!(owed(&db, "c1"), 10000);
    order(&mut db, "o2", "c1", 10, 0, 12);
    ClothesService::new()
        .create_clothes_with(&mut db, "l1".into(), vec![], at(13), line("o2", 100, 1, 1, &[]))
        .unwrap();
    assert_eq!(stored(&db, "o2").debt, 220);
    assert_eq!(owed(&db, "c1"), 10220);
    OrderService::new().recalculate_order_totals_at(&mut db, at(14), "o1").unwrap();
    assert_eq!(owed(&db, "c1"), 10220);
    assert_eq!(ClientRepository.get_by_id(&db, "c1").unwrap().unwrap().updated_at, at(14));
}

#[test]
fn client_owes_what_its_orders_owe_after_a_payment() {
    let mut db = Database::new();
    client(&mut db, "c1", "Ana");
    client(&mut db, "c2", "Rui");
    order(&mut db, "o1", "c1", 0, 0, 10);
    order(&mut db, "o2", "c1", 0, 0, 11);
    order(&mut db, "o3", "c2", 0, 0, 12);
    let impressions = ImpressionService::new();
    impressions.create_impression_with(&mut db, "i1".into(), at(13), impression("o1", 100)).unwrap();
    impressions.create_impression_with(&mut db, "i2".into(), at(14), impression("o2", 30)).unwrap();
    impressions.create_impression_with(&mut db, "i3".into(), at(15), impression("o3", 7)).unwrap();
    OrderService::new().pay_order_debt_at(&mut db, at(16), "o1", 40).unwrap();
    assert_eq!(owed(&db, "c1"), 90);
    assert_eq!(owed(&db, "c2"), 7);
    OrderService::new().pay_order_debt_at(&mut db, at(17), "o1", 1000).unwrap();
    assert_eq!(owed(&db, "c1"), 30);
    assert_eq!(OrderRepository.pay_debt_at(&mut db, at(18), "o2", 30), Ok(true));
    assert_eq!(owed(&db, "c1"), 0);
    assert_eq!(
        OrderRepository.pay_debt_at(&mut db, at(19), "o3", 0),
        Err(Error::InvalidArgument(Invalid::NonPositivePayment))
    );
    assert_eq!(
        OrderRepository.pay_debt_at(&mut db, at(19), "o3", -7),
        Err(Error::InvalidArgument(Invalid::NonPositivePayment))
    );
    assert_eq!(stored(&db, "o3").debt, 7);
    assert_eq!(owed(&db, "c2"), 7);
}

#[test]
fn client_owes_what_its_orders_owe_after_orders_come_and_go() {
    let mut db = Database::new();
    client(&mut db, "c1", "Ana");
    client(&mut db, "c2", "Rui");
    order(&mut db, "o1", "c1", 0, 0, 10);
    order(&mut db, "o2", "c1", 0, 0, 11);
    let impressions = ImpressionService::new();
    impressions.create_impression_with(&mut db, "i1".into(), at(13), impression("o1", 100)).unwrap();
    impressions.create_impression_with(&mut db, "i2".into(), at(14), impression("o2", 30)).unwrap();
    assert_eq!(owed(&db, "c1"), 130);
    assert_eq!(OrderService::new().delete_order_at(&mut db, at(15), "o1"), Ok(true));
    assert_eq!(owed(&db, "c1"), 30);
    assert_eq!(ClientRepository.get_by_id(&db, "c1").unwrap().unwrap().updated_at, at(15));
    assert_eq!(OrderService::new().delete_order_at(&mut db, at(16), "o9"), Ok(false));
    order(&mut db, "o3", "c1", 0, 0, 17);
    assert_eq!(owed(&db, "c1"), 30);
    let moved = UpdateOrderDto {
        name: None,
        client_id: Some("c2".into()),
        due_date: None,
        discount: None,
        iva: None,
        subtotal: None,
        total: None,
        status: None,
        paid: None,
    };
    OrderService::new().update_order_at(&mut db, at(18), "o2", moved).unwrap();
    assert_eq!(owed(&db, "c1"), 0);
    assert_eq!(owed(&db, "c2"), 30);
    assert_eq!(stored(&db, "o2").debt, 30);
}

#[test]
fn debts_that_do_not_fit_leave_the_store_as_it_was() {
    let mut db = Database::new();
    client(&mut db, "c1", "Ana");
    client(&mut db, "c2", "Rui");
    order(&mut db, "o1", "c1", 0, 0, 10);
    order(&mut db, "o2", "c1", 0, 0, 11);
    order(&mut db, "o3", "c2", 0, 0, 12);
    let orders = OrderRepository;
    assert_eq!(orders.update_financial_values_at(&mut db, at(13), "o1", 5, i64::MAX), Ok(true));
    assert_eq!(owed(&db, "c1"), i64::MAX);
    assert_eq!(
        orders.update_financial_values_at(&mut db, at(14), "o2", 1, 1),
        Err(Error::StoreFailure(Violation::AmountOutOfRange))
    );
    assert_eq!((stored(&db, "o2").total, stored(&db, "o2").updated_at), (0, at(11)));
    assert_eq!(owed(&db, "c1"), i64::MAX);
    assert_eq!(orders.update_financial_values_at(&mut db, at(15), "o3", 1, 1), Ok(true));
    let moved = UpdateOrderDto {
        name: None,
        client_id: Some("c1".into()),
        due_date: None,
        discount: None,
        iva: None,
        subtotal: None,
        total: None,
        status: None,
        paid: None,
    };
    assert_eq!(
        OrderService::new().update_order_at(&mut db, at(16), "o3", moved),
        Err(Error::StoreFailure(Violation::AmountOutOfRange))
    );
    assert_eq!(stored(&db, "o3").client_id, "c2");
    assert_eq!(
        OrderService::new().create_order_with(&mut db, "o4".into(), at(17), order_dto("c1", 0, None)).map(|o| o.debt),
        Ok(0)
    );
    assert_eq!(orders.update_financial_values_at(&mut db, at(18), "o9", 1, 1), Ok(false));
}

#[test]
fn creating_an_order_writes_the_order_and_nothing_else() {
    let mut db = Database::new();
    client(&mut db, "c1", "Ana");
    order(&mut db, "o1", "c1", 0, 0, 10);
    ImpressionService::new()
        .create_impression_with(&mut db, "i1".into(), at(11), impression("o1", 100))
        .unwrap();
    let before = ClientRepository.get_by_id(&db, "c1").unwrap().unwrap();
    assert_eq!((before.debt, before.updated_at), (100, at(11)));
    let lines = (db.impressions().len(), db.clothes().len(), db.clothing_services().len());
    let made = OrderService::new()
        .create_order_with(&mut db, "o2".into(), at(20), order_dto("c1", 16, Some(3)))
        .unwrap();
    assert_eq!((made.order_number, made.debt, made.total, made.discount), (2, 0, 0, 3));
    assert_eq!(ClientRepository.get_by_id(&db, "c1").unwrap().unwrap(), before);
    assert_eq!(db.orders().len(), 2);
    assert_eq!(stored(&db, "o1").updated_at, at(11));
    assert_eq!((db.impressions().len(), db.clothes().len(), db.clothing_services().len()), lines);
    assert_eq!(owed(&db, "c1"), stored(&db, "o1").debt + stored(&db, "o2").debt);
}
