use postpos::catalog::default_catalog;
use postpos::domain::{ProductRow, StoreError, UserRow};
use postpos::runner::apply_pending;
use postpos::store::Store;

fn migrated() -> Store {
    let mut store = Store::new();
    let catalog = default_catalog();
    apply_pending(&mut store, &catalog).expect("migration failed");
    store
}

fn sample_user(id: u64, email: &str, role: &str) -> UserRow {
    UserRow {
        id,
        email: email.to_string(),
        password: "secret".to_string(),
        name: "Sample".to_string(),
        role: role.to_string(),
        permissions: "[]".to_string(),
        created_at: "2025-01-01T00:00:00.000Z".to_string(),
        last_login: None,
    }
}

fn sample_product(id: u64, barcode: Option<&str>) -> ProductRow {
    ProductRow {
        id,
        name: "Sample".to_string(),
        description: "Sample product".to_string(),
        price_cents: 100,
        cost_cents: 50,
        stock: 10,
        category: "Misc".to_string(),
        barcode: barcode.map(|b| b.to_string()),
        image: None,
        is_active: true,
        created_at: "2025-01-01T00:00:00.000Z".to_string(),
        updated_at: "2025-01-01T00:00:00.000Z".to_string(),
    }
}

#[test]
fn users_table_rejects_unknown_role() {
    let mut store = Store::new();
    let mut catalog = default_catalog();
    catalog.steps.truncate(2);
    apply_pending(&mut store, &catalog).expect("migration failed");

    assert_eq!(store.users.len(), 3);
    for user in &store.users {
        assert!(user.role == "admin" || user.role == "manager" || user.role == "user");
    }

    let result = store.insert_user(sample_user(4, "owner@postpos.com", "owner"));
    assert!(matches!(result, Err(StoreError::ConstraintViolation)));
    assert_eq!(store.users.len(), 3);

    let ok = store.insert_user(sample_user(4, "cashier2@postpos.com", "user"));
    assert!(ok.is_ok());
    assert_eq!(store.users.len(), 4);
}

#[test]
fn duplicate_email_is_rejected() {
    let mut store = migrated();
    let result = store.insert_user(sample_user(99, "admin@postpos.com", "user"));
    assert!(matches!(result, Err(StoreError::ConstraintViolation)));
    assert_eq!(store.users.len(), 3);
}

#[test]
fn insert_into_missing_table_is_a_schema_error() {
    let mut store = Store::new();
    let result = store.insert_user(sample_user(1, "first@postpos.com", "admin"));
    assert!(matches!(result, Err(StoreError::SchemaError)));
}

#[test]
fn barcode_collision_is_rejected_but_absent_barcodes_never_collide() {
    let mut store = migrated();
    let count = store.products.len();

    // a barcode already taken by a seeded product
    let collision = store.insert_product(sample_product(100, Some("7501055363063")));
    assert!(matches!(collision, Err(StoreError::ConstraintViolation)));
    assert_eq!(store.products.len(), count);

    // the uniqueness constraint is single-column: rows without a barcode
    // never collide with each other, as in the storage engine
    assert!(store.insert_product(sample_product(100, None)).is_ok());
    assert!(store.insert_product(sample_product(101, None)).is_ok());
    assert_eq!(store.products.len(), count + 2);

    // a fresh barcode is fine
    assert!(store.insert_product(sample_product(102, Some("0000000000000"))).is_ok());

    // a duplicate id is rejected even with a fresh barcode
    let dup_id = store.insert_product(sample_product(1, Some("0000000000001")));
    assert!(matches!(dup_id, Err(StoreError::ConstraintViolation)));
}

#[test]
fn deleting_an_order_cascades_to_its_items_and_no_others() {
    let mut store = migrated();
    assert_eq!(store.orders.len(), 2);
    assert_eq!(store.order_items.len(), 3);
    assert_eq!(store.order_items.iter().filter(|it| it.order_id == 1).count(), 2);

    store.delete_order(1);

    assert_eq!(store.orders.len(), 1);
    assert_eq!(store.orders[0].id, 2);
    assert_eq!(store.order_items.len(), 1);
    assert_eq!(store.order_items[0].id, 3);
    assert_eq!(store.order_items[0].order_id, 2);

    // other tables are untouched
    assert_eq!(store.users.len(), 3);
    assert_eq!(store.products.len(), 9);

    // deleting an absent order is a no-op
    store.delete_order(42);
    assert_eq!(store.orders.len(), 1);
    assert_eq!(store.order_items.len(), 1);
}

#[test]
fn wildcard_permission_grants_every_capability() {
    let admin = vec!["*".to_string()];
    assert!(postpos::domain::has_capability(&admin, &"reports.export".to_string()));
    assert!(postpos::domain::has_capability(&admin, &"anything.at.all".to_string()));

    let cashier = vec!["sales.view".to_string(), "sales.create".to_string()];
    assert!(postpos::domain::has_capability(&cashier, &"sales.view".to_string()));
    assert!(!postpos::domain::has_capability(&cashier, &"products.delete".to_string()));

    let none: Vec<String> = Vec::new();
    assert!(!postpos::domain::has_capability(&none, &"sales.view".to_string()));
}
