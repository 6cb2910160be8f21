use editart::backup::{
    BackupFile, BackupService, ClientBackup, ClothesBackup, ClothingServiceBackup, DatabaseBackup,
    ImpressionBackup, OrderBackup, UserBackup,
};
use editart::database::Database;
use editart::dto::{
    CreateClientDto, CreateClothesDto, CreateClothingServiceDto, CreateImpressionDto,
    CreateOrderDto, CreateUserDto,
};
use editart::error::{Entity, Error, Malformed, TimeField, Violation};
use editart::models::{
    Client, Clothes, ClothingService, ClothingType, Impression, Order, ServiceLocation,
    ServiceType, SizesMap, User,
};
use editart::services::{
    ClientService, ClothesService, ImpressionService, OrderService, UserService,
};
use editart::temporal::{Date, Timestamp};

fn at(seconds: i128) -> Timestamp {
    Timestamp { unix_nanos: seconds * 1_000_000_000 }
}

const T0: &str = "2021-01-01T00:00:00Z";
const T1: &str = "2021-01-01T00:00:01Z";

fn filled() -> Database {
    let mut db = Database::new();
    UserService::create_user_with(
        &mut db,
        "u1".into(),
        at(1_609_459_200),
        CreateUserDto { login: "admin".into(), password: "admin123".into(), role: "admin".into() },
    )
    .unwrap();
    for (id, name, second) in [("c1", "Ana", 50), ("c2", "Rui", 40)] {
        ClientService::new()
            .create_client_with(
                &mut db,
                id.into(),
                at(1_609_459_200 + second),
                CreateClientDto {
                    name: name.into(),
                    nuit: "1".into(),
                    contact: "2".into(),
                    category: "3".into(),
                    observations: "4".into(),
                },
            )
            .unwrap();
    }
    for (id, client, second) in [("o1", "c1", 70), ("o2", "c2", 60), ("o3", "c1", 65)] {
        OrderService::new()
            .create_order_with(
                &mut db,
                id.into(),
                at(1_609_459_200 + second),
                CreateOrderDto {
                    name: "order".into(),
                    client_id: client.into(),
                    due_date: Date { julian_day: 2_459_300 },
                    iva: 16,
                    discount: Some(5),
                    status: None,
                    paid: None,
                },
            )
            .unwrap();
    }
    let mut sizes = SizesMap::new();
    sizes.insert(editart::models::ClothingSize::XL, 3);
    ClothesService::new()
        .create_clothes_with(
            &mut db,
            "l1".into(),
            vec!["s1".into(), "s2".into()],
            at(1_609_459_300),
            CreateClothesDto {
                order_id: "o1".into(),
                clothing_type: ClothingType::Other,
                custom_type: Some("scarf".into()),
                unit_price: 1000,
                sizes,
                color: "red".into(),
                services: vec![
                    CreateClothingServiceDto {
                        service_type: ServiceType::Stamping,
                        location: ServiceLocation::FrontLeft,
                        description: Some("crest".into()),
                        unit_price: 200,
                    },
                    CreateClothingServiceDto {
                        service_type: ServiceType::Transfer,
                        location: ServiceLocation::Custom,
                        description: None,
                        unit_price: 300,
                    },
                ],
            },
        )
        .unwrap();
    ImpressionService::new()
        .create_impression_with(
            &mut db,
            "i1".into(),
            at(1_609_459_400),
            CreateImpressionDto {
                order_id: "o2".into(),
                name: "poster".into(),
                size: "A2".into(),
                material: "paper".into(),
                description: "matte".into(),
                price: 750,
            },
        )
        .unwrap();
    db
}

fn sorted<T: Clone, K: Ord>(rows: &Vec<T>, key: impl Fn(&T) -> K) -> Vec<T> {
    let mut rows = rows.clone();
    rows.sort_by_key(key);
    rows
}

fn same_rows(a: &Database, b: &Database) {
    assert_eq!(sorted(a.users(), |r: &User| r.id.clone()), sorted(b.users(), |r: &User| r.id.clone()));
    assert_eq!(
        sorted(a.clients(), |r: &Client| r.id.clone()),
        sorted(b.clients(), |r: &Client| r.id.clone())
    );
    assert_eq!(sorted(a.orders(), |r: &Order| r.id.clone()), sorted(b.orders(), |r: &Order| r.id.clone()));
    assert_eq!(
        sorted(a.impressions(), |r: &Impression| r.id.clone()),
        sorted(b.impressions(), |r: &Impression| r.id.clone())
    );
    assert_eq!(
        sorted(a.clothes(), |r: &Clothes| r.id.clone()),
        sorted(b.clothes(), |r: &Clothes| r.id.clone())
    );
    assert_eq!(
        sorted(a.clothing_services(), |r: &ClothingService| r.id.clone()),
        sorted(b.clothing_services(), |r: &ClothingService| r.id.clone())
    );
}

fn user(id: &str, login: &str) -> UserBackup {
    UserBackup {
        id: id.into(),
        login: login.into(),
        password: "p".into(),
        role: "user".into(),
        created_at: T0.into(),
        updated_at: T1.into(),
    }
}

fn client(id: &str) -> ClientBackup {
    ClientBackup {
        id: id.into(),
        name: "n".into(),
        nuit: "1".into(),
        contact: "2".into(),
        category: "3".into(),
        observations: "4".into(),
        debt: 12,
        created_at: T0.into(),
        updated_at: T1.into(),
    }
}

fn order(id: &str, client_id: &str, number: i32) -> OrderBackup {
    OrderBackup {
        id: id.into(),
        name: "o".into(),
        client_id: client_id.into(),
        order_number: number,
        client_requisition_number: 1,
        due_date: Some("2021-03-25".into()),
        discount: Some(5),
        iva: None,
        subtotal: 100,
        total: 95,
        status: "in_production".into(),
        debt: 60,
        created_at: T0.into(),
        updated_at: T1.into(),
    }
}

fn clothes(id: &str, order_id: &str) -> ClothesBackup {
    ClothesBackup {
        id: id.into(),
        order_id: order_id.into(),
        clothing_type: "bags".into(),
        custom_type: None,
        unit_price: 10,
        sizes: "{\"S\":2}".into(),
        color: "c".into(),
        total_quantity: 2,
        created_at: T0.into(),
        updated_at: T1.into(),
    }
}

fn service(id: &str, clothes_id: &str) -> ClothingServiceBackup {
    ClothingServiceBackup {
        id: id.into(),
        clothes_id: clothes_id.into(),
        service_type: "dtf".into(),
        location: "back".into(),
        description: Some("d".into()),
        unit_price: 5,
        created_at: T0.into(),
        updated_at: T1.into(),
    }
}

fn impression(id: &str, order_id: &str) -> ImpressionBackup {
    ImpressionBackup {
        id: id.into(),
        order_id: order_id.into(),
        name: "n".into(),
        size: "s".into(),
        material: "m".into(),
        description: "d".into(),
        price: 20,
        created_at: T0.into(),
        updated_at: T1.into(),
    }
}

fn snapshot() -> DatabaseBackup {
    DatabaseBackup {
        version: "1.0.0".into(),
        created_at: "2022-02-02T02:02:02Z".into(),
        users: vec![user("u1", "a"), user("u2", "b")],
        clients: vec![client("c1"), client("c2")],
        orders: vec![order("o1", "c1", 1), order("o2", "c2", 2)],
        impressions: vec![impression("i1", "o2")],
        clothes: vec![clothes("l1", "o1"), clothes("l2", "o2")],
        clothing_services: vec![service("s1", "l2"), service("s2", "l1")],
    }
}

#[test]
fn backup_holds_every_table_earliest_first() {
    let db = filled();
    let backup = BackupService::create_backup_at(&db, at(1_700_000_000)).unwrap();
    assert_eq!(backup.version, "1.0.0");
    assert_eq!(backup.created_at, "2023-11-14T22:13:20Z");
    let ids: Vec<&str> = backup.clients.iter().map(|c| c.id.as_str()).collect();
    assert_eq!(ids, vec!["c2", "c1"]);
    let ids: Vec<&str> = backup.orders.iter().map(|o| o.id.as_str()).collect();
    assert_eq!(ids, vec!["o2", "o3", "o1"]);
    assert_eq!(backup.users.len(), 1);
    assert_eq!(backup.users[0].created_at, "2021-01-01T00:00:00Z");
    assert_eq!(backup.orders[0].due_date, Some("2021-03-26".to_string()));
    assert_eq!(backup.orders[0].discount, Some(5));
    assert_eq!(backup.orders[0].iva, Some(16));
    assert_eq!(backup.clothes[0].sizes, "{\"XL\":3}");
    assert_eq!(backup.clothes[0].custom_type, Some("scarf".to_string()));
    assert_eq!(backup.clothing_services.len(), 2);
    assert_eq!(backup.impressions[0].price, 750);
}

#[test]
fn backup_now_names_the_present() {
    let db = filled();
    let backup = BackupService::create_backup(&db).unwrap();
    assert!(backup.created_at.starts_with("20"));
    assert!(backup.created_at.ends_with('Z'));
    assert_eq!(Timestamp::from_rfc3339(&backup.created_at).map(|t| t.unix_nanos > 0), Some(true));
}

#[test]
fn restoring_a_backup_gives_every_record_back() {
    let db = filled();
    let backup = BackupService::create_backup_at(&db, at(1_700_000_000)).unwrap();
    let mut restored = Database::new();
    let message = BackupService::restore_backup(&mut restored, &backup).unwrap();
    assert_eq!(message, "Database restored successfully from backup created on 2023-11-14T22:13:20Z");
    same_rows(&db, &restored);
    assert_eq!(restored.orders()[0].id, "o2");
}

#[test]
fn restoring_replaces_what_the_store_held() {
    let mut db = filled();
    BackupService::restore_backup(&mut db, &snapshot()).unwrap();
    assert_eq!(db.users().len(), 2);
    assert_eq!(db.clients().len(), 2);
    assert_eq!(db.impressions().len(), 1);
    let o = &db.orders()[0];
    assert_eq!(o.id, "o1");
    assert_eq!(o.due_date, Some(Date { julian_day: 2_459_299 }));
    assert_eq!((o.discount, o.iva, o.debt), (5, 0, 60));
    assert_eq!(o.created_at, at(1_609_459_200));
    assert_eq!(o.updated_at, at(1_609_459_201));
    assert_eq!(db.clients()[0].debt, 12);
}

#[test]
fn restoring_twice_gives_the_same_store() {
    let mut db = Database::new();
    BackupService::restore_backup(&mut db, &snapshot()).unwrap();
    let first = BackupService::create_backup_at(&db, at(5)).unwrap();
    BackupService::restore_backup(&mut db, &snapshot()).unwrap();
    let second = BackupService::create_backup_at(&db, at(5)).unwrap();
    assert_eq!(first, second);
}

#[test]
fn order_within_a_table_does_not_matter() {
    let mut backup = snapshot();
    backup.users.reverse();
    backup.clients.reverse();
    backup.orders.reverse();
    backup.clothes.reverse();
    backup.clothing_services.reverse();
    let mut shuffled = Database::new();
    BackupService::restore_backup(&mut shuffled, &backup).unwrap();
    let mut plain = Database::new();
    BackupService::restore_backup(&mut plain, &snapshot()).unwrap();
    same_rows(&plain, &shuffled);
    assert_eq!(shuffled.clothing_services()[0].id, "s2");
}

#[test]
fn tables_are_emptied_children_first_and_filled_parents_first() {
    assert_eq!(
        BackupService::deletion_plan(),
        vec![
            Entity::ClothingService,
            Entity::Clothes,
            Entity::Impression,
            Entity::Order,
            Entity::Client,
            Entity::User
        ]
    );
    assert_eq!(
        BackupService::insertion_plan(),
        vec![
            Entity::User,
            Entity::Client,
            Entity::Order,
            Entity::Impression,
            Entity::Clothes,
            Entity::ClothingService
        ]
    );
}

#[test]
fn unreadable_time_names_record_and_field() {
    let mut db = filled();
    let before = BackupService::create_backup_at(&db, at(5)).unwrap();
    let mut backup = snapshot();
    backup.clients[1].updated_at = "2021-01-01 00:00:00".into();
    assert_eq!(
        BackupService::restore_backup(&mut db, &backup),
        Err(Error::ParseError(Malformed::Time {
            entity: Entity::Client,
            id: "c2".into(),
            field: TimeField::UpdatedAt
        }))
    );
    assert_eq!(BackupService::create_backup_at(&db, at(5)).unwrap(), before);

    let mut backup = snapshot();
    backup.orders[0].due_date = Some("25/03/2021".into());
    backup.clothing_services[0].created_at = "never".into();
    assert_eq!(
        BackupService::restore_backup(&mut db, &backup),
        Err(Error::ParseError(Malformed::Time {
            entity: Entity::Order,
            id: "o1".into(),
            field: TimeField::DueDate
        }))
    );
    let mut backup = snapshot();
    backup.users[0].created_at = String::new();
    backup.users[0].updated_at = String::new();
    assert_eq!(
        BackupService::restore_backup(&mut db, &backup),
        Err(Error::ParseError(Malformed::Time {
            entity: Entity::User,
            id: "u1".into(),
            field: TimeField::CreatedAt
        }))
    );
}

#[test]
fn order_without_due_date_is_restored_without_one() {
    let mut backup = snapshot();
    backup.orders[1].due_date = None;
    let mut db = Database::new();
    BackupService::restore_backup(&mut db, &backup).unwrap();
    assert_eq!(db.orders()[1].due_date, None);
    let again = BackupService::create_backup_at(&db, at(5)).unwrap();
    assert_eq!(again.orders.iter().filter(|o| o.due_date.is_none()).count(), 1);
}

#[test]
fn records_that_break_constraints_are_not_restored() {
    let mut db = filled();
    let before = BackupService::create_backup_at(&db, at(5)).unwrap();

    let mut backup = snapshot();
    backup.clothing_services.push(service("s3", "l9"));
    assert_eq!(
        BackupService::restore_backup(&mut db, &backup),
        Err(Error::StoreFailure(Violation::MissingParent(Entity::ClothingService)))
    );
    let mut backup = snapshot();
    backup.orders.push(order("o3", "c9", 3));
    assert_eq!(
        BackupService::restore_backup(&mut db, &backup),
        Err(Error::StoreFailure(Violation::MissingParent(Entity::Order)))
    );
    let mut backup = snapshot();
    backup.impressions.push(impression("i2", "o9"));
    assert_eq!(
        BackupService::restore_backup(&mut db, &backup),
        Err(Error::StoreFailure(Violation::MissingParent(Entity::Impression)))
    );
    let mut backup = snapshot();
    backup.clothes.push(clothes("l3", "o9"));
    assert_eq!(
        BackupService::restore_backup(&mut db, &backup),
        Err(Error::StoreFailure(Violation::MissingParent(Entity::Clothes)))
    );
    let mut backup = snapshot();
    backup.clients.push(client("c1"));
    assert_eq!(
        BackupService::restore_backup(&mut db, &backup),
        Err(Error::StoreFailure(Violation::DuplicateKey(Entity::Client)))
    );
    let mut backup = snapshot();
    backup.users.push(user("u3", "a"));
    assert_eq!(
        BackupService::restore_backup(&mut db, &backup),
        Err(Error::StoreFailure(Violation::DuplicateLogin))
    );
    assert_eq!(BackupService::create_backup_at(&db, at(5)).unwrap(), before);
}

#[test]
fn instant_without_text_cannot_be_saved() {
    let far = Timestamp { unix_nanos: 400_000_000_000i128 * 1_000_000_000 };
    assert_eq!(far.to_rfc3339(), None);
    let db = filled();
    assert_eq!(
        BackupService::create_backup_at(&db, far),
        Err(Error::StoreFailure(Violation::ClockOutOfRange))
    );
    let mut db = Database::new();
    ClientService::new()
        .create_client_with(
            &mut db,
            "c1".into(),
            far,
            CreateClientDto {
                name: String::new(),
                nuit: String::new(),
                contact: String::new(),
                category: String::new(),
                observations: String::new(),
            },
        )
        .unwrap();
    assert_eq!(
        BackupService::create_backup_at(&db, at(5)),
        Err(Error::StoreFailure(Violation::UnrepresentableTime(Entity::Client, TimeField::CreatedAt)))
    );
}

#[test]
fn instants_are_written_and_read_as_rfc3339() {
    assert_eq!(at(0).to_rfc3339(), Some("1970-01-01T00:00:00Z".to_string()));
    assert_eq!(
        Timestamp { unix_nanos: 1_609_459_200_123_456_789 }.to_rfc3339(),
        Some("2021-01-01T00:00:00.123456789Z".to_string())
    );
    assert_eq!(
        Timestamp::from_rfc3339("2021-01-01T00:00:00.5+02:00"),
        Some(Timestamp { unix_nanos: 1_609_452_000_500_000_000 })
    );
    assert_eq!(Timestamp::from_rfc3339("2021-01-01"), None);
    assert_eq!(Timestamp::from_rfc3339("1609459200"), None);
    for nanos in [0i128, 1, 999_999_999, 1_609_459_200_000_000_001, -1, -62_000_000_000_000_000_000] {
        let t = Timestamp { unix_nanos: nanos };
        let text = t.to_rfc3339().unwrap();
        assert_eq!(Timestamp::from_rfc3339(&text), Some(t));
    }
}

#[test]
fn dates_are_written_and_read_as_iso() {
    assert_eq!(Date { julian_day: 2_451_545 }.to_iso(), Some("2000-01-01".to_string()));
    assert_eq!(Date::from_iso("2019-12-31"), Some(Date { julian_day: 2_458_849 }));
    assert_eq!(Date::from_iso("31-12-2019"), None);
    assert_eq!(Date::from_iso("2019-02-30"), None);
    assert_eq!(Date { julian_day: 0 }.to_iso(), None);
    assert_eq!(Date { julian_day: i32::MAX }.to_iso(), None);
    for day in [1_721_060, 2_451_545, 2_460_000, 5_373_484] {
        let d = Date { julian_day: day };
        assert_eq!(Date::from_iso(&d.to_iso().unwrap()), Some(d));
    }
}

#[test]
fn backup_info_says_what_was_found() {
    assert_eq!(BackupService::get_backup_info(&BackupFile::Absent), None);
    assert_eq!(
        BackupService::get_backup_info(&BackupFile::Unreadable { size: 0 }),
        Some("Backup file found but unreadable - Size: 0 bytes".to_string())
    );
    assert_eq!(
        BackupService::get_backup_info(&BackupFile::Corrupted { size: 1234 }),
        Some("Backup file found but corrupted - Size: 1234 bytes".to_string())
    );
    assert_eq!(
        BackupService::get_backup_info(&BackupFile::Found {
            version: Some("1.0.0".into()),
            created_at: None,
            size: 18_446_744_073_709_551_615
        }),
        Some(
            "Backup found - Version: 1.0.0, Created: unknown, File size: 18446744073709551615 bytes"
                .to_string()
        )
    );
}
