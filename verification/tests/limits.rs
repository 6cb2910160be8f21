use editart::backup::{BackupService, ClientBackup, DatabaseBackup, OrderBackup};
use editart::database::Database;
use editart::dto::{CreateClothesDto, CreateClothingServiceDto, CreateOrderDto};
use editart::error::{Entity, Error, Invalid, Violation};
use editart::models::{ClothingType, ServiceLocation, ServiceType, SizesMap};
use editart::sequence::{allocate_order_number, allocate_requisition_number};
use editart::services::{ClientService, ClothesService, OrderService};
use editart::temporal::{Date, Timestamp};

const T: &str = "2020-05-05T05:05:05Z";

fn at(seconds: i128) -> Timestamp {
    Timestamp { unix_nanos: seconds * 1_000_000_000 }
}

fn client(id: &str) -> ClientBackup {
    ClientBackup {
        id: id.into(),
        name: String::new(),
        nuit: String::new(),
        contact: String::new(),
        category: String::new(),
        observations: String::new(),
        debt: 0,
        created_at: T.into(),
        updated_at: T.into(),
    }
}

fn order(id: &str, client_id: &str, number: i32, requisition: i32, debt: i64) -> OrderBackup {
    OrderBackup {
        id: id.into(),
        name: String::new(),
        client_id: client_id.into(),
        order_number: number,
        client_requisition_number: requisition,
        due_date: None,
        discount: None,
        iva: None,
        subtotal: 0,
        total: 0,
        status: "delivered".into(),
        debt,
        created_at: T.into(),
        updated_at: T.into(),
    }
}

fn store(orders: Vec<OrderBackup>) -> Database {
    let mut db = Database::new();
    BackupService::restore_backup(
        &mut db,
        &DatabaseBackup {
            version: "1.0.0".into(),
            created_at: T.into(),
            users: vec![],
            clients: vec![client("c1"), client("c2")],
            orders,
            impressions: vec![],
            clothes: vec![],
            clothing_services: vec![],
        },
    )
    .unwrap();
    db
}

fn new_order(client_id: &str) -> CreateOrderDto {
    CreateOrderDto {
        name: String::new(),
        client_id: client_id.into(),
        due_date: Date { julian_day: 2_460_000 },
        iva: 0,
        discount: None,
        status: None,
        paid: None,
    }
}

#[test]
fn next_numbers_follow_the_highest() {
    let db = store(vec![order("o1", "c1", 7, 3, 0), order("o2", "c2", 4, 9, 0), order("o3", "c1", 5, 1, 0)]);
    assert_eq!(allocate_order_number(db.orders()), Some(8));
    assert_eq!(allocate_requisition_number(db.orders(), &"c1".to_string()), Some(4));
    assert_eq!(allocate_requisition_number(db.orders(), &"c2".to_string()), Some(10));
    assert_eq!(allocate_requisition_number(db.orders(), &"c3".to_string()), Some(1));
    assert_eq!(allocate_order_number(Database::new().orders()), Some(1));
    let db = store(vec![order("o1", "c1", -7, -3, 0)]);
    assert_eq!(allocate_order_number(db.orders()), Some(-6));
    assert_eq!(allocate_requisition_number(db.orders(), &"c1".to_string()), Some(-2));
}

#[test]
fn numbers_that_do_not_fit_are_refused() {
    let mut db = store(vec![order("o1", "c1", i32::MAX, 1, 0)]);
    assert_eq!(allocate_order_number(db.orders()), None);
    assert_eq!(
        OrderService::new().create_order_with(&mut db, "o2".into(), at(1), new_order("c2")),
        Err(Error::StoreFailure(Violation::SequenceExhausted))
    );
    let mut db = store(vec![order("o1", "c1", 1, i32::MAX, 0)]);
    assert_eq!(
        OrderService::new().create_order_with(&mut db, "o2".into(), at(1), new_order("c1")),
        Err(Error::StoreFailure(Violation::SequenceExhausted))
    );
    let made = OrderService::new().create_order_with(&mut db, "o2".into(), at(1), new_order("c2")).unwrap();
    assert_eq!((made.order_number, made.client_requisition_number), (2, 1));
    assert_eq!(db.orders().len(), 2);
}

#[test]
fn debts_that_do_not_add_up_are_refused() {
    let mut db = store(vec![order("o1", "c1", 1, 1, i64::MAX), order("o2", "c1", 2, 2, 1)]);
    assert_eq!(
        ClientService::new().update_client_debt_at(&mut db, at(1), "c1"),
        Err(Error::StoreFailure(Violation::AmountOutOfRange))
    );
    assert_eq!(db.clients()[0].debt, 0);
    assert_eq!(ClientService::new().update_client_debt_at(&mut db, at(1), "c2"), Ok(true));
    let mut db = store(vec![order("o1", "c1", 1, 1, i64::MAX), order("o2", "c1", 2, 2, -1)]);
    assert_eq!(ClientService::new().update_client_debt_at(&mut db, at(1), "c1"), Ok(true));
    assert_eq!(db.clients()[0].debt, i64::MAX - 1);
}

#[test]
fn each_service_needs_an_identity() {
    let mut db = store(vec![order("o1", "c1", 1, 1, 0)]);
    let dto = CreateClothesDto {
        order_id: "o1".into(),
        clothing_type: ClothingType::Towels,
        custom_type: None,
        unit_price: 1,
        sizes: SizesMap::new(),
        color: String::new(),
        services: vec![CreateClothingServiceDto {
            service_type: ServiceType::Embroidery,
            location: ServiceLocation::CenterFront,
            description: None,
            unit_price: 1,
        }],
    };
    assert_eq!(
        ClothesService::new().create_clothes_with(&mut db, "l1".into(), vec![], at(1), dto.clone()),
        Err(Error::InvalidArgument(Invalid::Identities))
    );
    assert_eq!(
        ClothesService::new().create_clothes_with(&mut db, "l1".into(), vec!["a".into(), "b".into()], at(1), dto),
        Err(Error::InvalidArgument(Invalid::Identities))
    );
    assert!(db.clothes().is_empty());
}

#[test]
fn rows_are_loaded_parents_first() {
    let empty: Vec<editart::models::User> = vec![];
    let db = store(vec![order("o1", "c2", 1, 1, 0)]);
    let loaded = Database::from_rows(&empty, db.clients(), db.orders(), &vec![], &vec![], &vec![]).unwrap();
    assert_eq!(loaded.orders().len(), 1);
    assert_eq!(
        Database::from_rows(&empty, &vec![], db.orders(), &vec![], &vec![], &vec![]).err(),
        Some(Error::StoreFailure(Violation::MissingParent(Entity::Order)))
    );
    let mut db = db;
    db.clear();
    assert!(db.clients().is_empty() && db.orders().is_empty());
}
