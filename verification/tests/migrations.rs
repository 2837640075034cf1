use postpos::catalog::{default_catalog, Catalog, Effect, MigrationStep};
use postpos::domain::StoreError;
use postpos::runner::apply_pending;
use postpos::store::Store;

fn migrated_through(version_count: usize) -> Store {
    let mut store = Store::new();
    let mut catalog = default_catalog();
    catalog.steps.truncate(version_count);
    let applied = apply_pending(&mut store, &catalog).expect("migration failed");
    assert_eq!(applied, version_count as u64);
    store
}

#[test]
fn fresh_store_records_every_version_once_ascending() {
    let store = migrated_through(12);
    let versions = store.applied_versions();
    assert_eq!(versions, vec![1, 2, 3, 4, 5, 6, 7, 8, 9, 10, 11, 12]);
    for (i, entry) in store.ledger.iter().enumerate() {
        assert_eq!(entry.version, i as u64 + 1);
    }
    assert_eq!(store.ledger[0].description, "create_users_table");
    assert_eq!(store.ledger[11].description, "update_existing_orders_with_default_user");
}

#[test]
fn apply_pending_is_idempotent() {
    let mut store = Store::new();
    let catalog = default_catalog();
    let first = apply_pending(&mut store, &catalog).expect("migration failed");
    assert_eq!(first, 12);
    let users_before = store.users.len();
    let products_before = store.products.len();
    let ledger_before = store.applied_versions();
    for _ in 0..3 {
        let again = apply_pending(&mut store, &catalog).expect("re-run failed");
        assert_eq!(again, 0);
        assert_eq!(store.users.len(), users_before);
        assert_eq!(store.products.len(), products_before);
        assert_eq!(store.applied_versions(), ledger_before);
    }
}

#[test]
fn resume_applies_only_later_versions() {
    let mut store = migrated_through(10);
    assert_eq!(store.applied_versions(), vec![1, 2, 3, 4, 5, 6, 7, 8, 9, 10]);
    let order_one_before = store.orders[0].clone();

    let catalog = default_catalog();
    let applied = apply_pending(&mut store, &catalog).expect("resume failed");
    assert_eq!(applied, 2);
    assert_eq!(store.applied_versions(), vec![1, 2, 3, 4, 5, 6, 7, 8, 9, 10, 11, 12]);

    // pre-existing rows untouched, except the backfilled user_id
    assert_eq!(store.orders[0].id, order_one_before.id);
    assert_eq!(store.orders[0].subtotal_cents, order_one_before.subtotal_cents);
    assert_eq!(store.orders[0].tax_cents, order_one_before.tax_cents);
    assert_eq!(store.orders[0].total_cents, order_one_before.total_cents);
    assert_eq!(store.orders[0].status, order_one_before.status);
    assert_eq!(store.orders[0].created_at, order_one_before.created_at);
    assert_eq!(order_one_before.user_id, None);
    assert_eq!(store.orders[0].user_id, Some(1));
}

#[test]
fn backfill_sets_default_user_and_reruns_as_noop() {
    let mut store = migrated_through(10);
    assert!(store.orders.iter().all(|o| o.user_id.is_none()));

    let catalog = default_catalog();
    apply_pending(&mut store, &catalog).expect("resume failed");
    assert!(store.orders.iter().all(|o| o.user_id == Some(1)));

    // a second application of the backfill effect matches no rows
    let backfill = Effect::BackfillOrderUser(1);
    let orders_before: Vec<u64> = store.orders.iter().map(|o| o.id).collect();
    postpos::store::apply_effect(&mut store, &backfill).expect("backfill re-run failed");
    assert!(store.orders.iter().all(|o| o.user_id == Some(1)));
    let orders_after: Vec<u64> = store.orders.iter().map(|o| o.id).collect();
    assert_eq!(orders_before, orders_after);
}

#[test]
fn seed_rerun_never_duplicates_or_overwrites() {
    let mut store = migrated_through(2);
    assert_eq!(store.users.len(), 3);
    let admin_name_before = store.users[0].name.clone();

    // re-run the very same seed step's effect against the seeded store
    let catalog = default_catalog();
    postpos::store::apply_effect(&mut store, &catalog.steps[1].effect)
        .expect("seed re-run failed");
    assert_eq!(store.users.len(), 3);
    assert_eq!(store.users.iter().filter(|u| u.id == 1).count(), 1);
    assert_eq!(store.users[0].name, admin_name_before);
}

#[test]
fn duplicate_seed_barcode_is_skipped() {
    let store = migrated_through(12);
    // the seed data carries ten products, two of which share a barcode;
    // insert-if-absent keeps the first and skips the second
    assert_eq!(store.products.len(), 9);
    assert!(store.products.iter().any(|p| p.id == 4));
    assert!(!store.products.iter().any(|p| p.id == 9));
    assert!(store.products.iter().any(|p| p.id == 10));
}

#[test]
fn seed_before_create_is_a_schema_error() {
    let mut store = Store::new();
    let full = default_catalog();
    let mut steps: Vec<MigrationStep> = Vec::new();
    for step in full.steps {
        if step.version == 2 {
            steps.insert(0, MigrationStep { version: 1, ..step });
        } else if step.version == 1 {
            steps.push(MigrationStep { version: 2, ..step });
        }
    }
    let catalog = Catalog { steps };
    let result = apply_pending(&mut store, &catalog);
    assert!(matches!(result, Err(StoreError::SchemaError)));
    // nothing was recorded: the failing first step left no trace
    assert_eq!(store.applied_versions(), Vec::<u64>::new());
    assert_eq!(store.users.len(), 0);
}

#[test]
fn duplicate_column_is_a_schema_error_and_earlier_steps_stay() {
    let mut store = Store::new();
    let full = default_catalog();
    let mut steps: Vec<MigrationStep> = Vec::new();
    let mut add_column_description = String::new();
    for step in full.steps {
        if step.version <= 11 {
            if step.version == 11 {
                add_column_description = step.description.clone();
            }
            steps.push(step);
        }
    }
    steps.push(MigrationStep {
        version: 12,
        description: add_column_description,
        effect: Effect::AddOrderUserColumn,
    });
    let catalog = Catalog { steps };
    let result = apply_pending(&mut store, &catalog);
    assert!(matches!(result, Err(StoreError::SchemaError)));
    // the first eleven steps were applied and recorded before the failure
    assert_eq!(store.applied_versions(), vec![1, 2, 3, 4, 5, 6, 7, 8, 9, 10, 11]);
}

#[test]
fn unknown_ledger_version_is_corruption() {
    let mut store = Store::new();
    let full = default_catalog();
    apply_pending(&mut store, &full).expect("migration failed");

    let mut truncated = default_catalog();
    truncated.steps.truncate(10);
    let users_before = store.users.len();
    let result = apply_pending(&mut store, &truncated);
    assert!(matches!(result, Err(StoreError::LedgerCorruption)));
    // corruption is detected before anything is touched
    assert_eq!(store.users.len(), users_before);
    assert_eq!(store.applied_versions().len(), 12);
}

#[test]
fn backfill_to_missing_user_is_a_constraint_violation() {
    let mut store = Store::new();
    let full = default_catalog();
    let mut steps: Vec<MigrationStep> = Vec::new();
    for step in full.steps {
        // keep only the order table's own lifecycle: created, seeded,
        // column added, backfilled — without any users table
        match step.version {
            5 | 7 | 11 | 12 => steps.push(step),
            _ => {},
        }
    }
    let catalog = Catalog { steps };
    let result = apply_pending(&mut store, &catalog);
    assert!(matches!(result, Err(StoreError::ConstraintViolation)));
    // the steps before the backfill stayed applied
    assert_eq!(store.applied_versions(), vec![5, 7, 11]);
    assert!(store.orders.iter().all(|o| o.user_id.is_none()));
}

#[test]
fn company_settings_is_a_singleton() {
    let store = migrated_through(12);
    assert_eq!(store.settings.len(), 1);
    let row = &store.settings[0];
    assert_eq!(row.id, 1);
    assert_eq!(row.name, "Post POS");
    assert_eq!(row.tax_basis_points, 1000);
    assert_eq!(row.currency_symbol, "$");
    assert_eq!(row.language, "en");
}

#[test]
fn default_seed_values_are_exact() {
    let store = migrated_through(12);
    assert_eq!(store.users.len(), 3);
    assert_eq!(store.users[0].email, "admin@postpos.com");
    assert_eq!(store.users[0].role, "admin");
    assert_eq!(store.users[0].permissions, "[\"*\"]");
    assert_eq!(store.users[2].name, "John Cashier");

    let cola = store.products.iter().find(|p| p.id == 1).expect("missing product");
    assert_eq!(cola.price_cents, 250);
    assert_eq!(cola.cost_cents, 120);
    assert_eq!(cola.stock, 120);
    assert_eq!(cola.barcode.as_deref(), Some("7501055363063"));

    assert_eq!(store.orders.len(), 2);
    assert_eq!(store.orders[0].subtotal_cents, 899);
    assert_eq!(store.orders[0].tax_cents, 90);
    assert_eq!(store.orders[0].total_cents, 989);
    assert_eq!(store.orders[0].status, "completed");

    assert_eq!(store.order_items.len(), 3);
    assert_eq!(store.order_items[0].quantity, 2);
    assert_eq!(store.order_items[0].unit_price_cents, 250);
    assert_eq!(store.order_items[0].total_price_cents, 500);
}
