//! The schema catalog: an ordered, immutable list of migration steps.
//!
//! Each step carries a strictly increasing version, a description, and an
//! effect: a DDL effect (create a table, add a column), a seed effect
//! (insert-if-absent rows), or a backfill effect (a bulk update whose
//! predicate becomes false once satisfied). The catalog is built once and
//! never mutated at runtime.

use vstd::prelude::*;

use crate::domain::{CompanySettingsRow, OrderItemRow, OrderRow, ProductRow, UserRow};

verus! {

/// The effect of one migration step on the store.
#[derive(Debug)]
pub enum Effect {
    /// DDL: create the `users` table (a no-op when it already exists).
    CreateUsersTable,
    /// DDL: create the `products` table (a no-op when it already exists).
    CreateProductsTable,
    /// DDL: create the `orders` table (a no-op when it already exists).
    CreateOrdersTable,
    /// DDL: create the `order_items` table (a no-op when it already exists).
    CreateOrderItemsTable,
    /// DDL: create the `company_settings` table (a no-op when it already exists).
    CreateCompanySettingsTable,
    /// Seed: insert-if-absent user rows; a row that would violate a
    /// constraint is skipped, never overwritten.
    SeedUsers(Vec<UserRow>),
    /// Seed: insert-if-absent product rows.
    SeedProducts(Vec<ProductRow>),
    /// Seed: insert-if-absent order rows.
    SeedOrders(Vec<OrderRow>),
    /// Seed: insert-if-absent order item rows.
    SeedOrderItems(Vec<OrderItemRow>),
    /// Seed: insert-if-absent the singleton company settings row.
    SeedCompanySettings(CompanySettingsRow),
    /// DDL: add the nullable `user_id` column to `orders`; fails when the
    /// column already exists.
    AddOrderUserColumn,
    /// Backfill: set `user_id` to the given user on every order where it is
    /// still absent; a no-op once no such order remains.
    BackfillOrderUser(u64),
}

/// One versioned, idempotent unit of schema or data change.
#[derive(Debug)]
pub struct MigrationStep {
    pub version: u64,
    pub description: String,
    pub effect: Effect,
}

/// The ordered list of migration steps.
#[derive(Debug)]
pub struct Catalog {
    pub steps: Vec<MigrationStep>,
}

/// A catalog is well formed when its versions are strictly increasing, so in
/// particular no version appears twice and steps are applied in order.
pub open spec fn catalog_wf(steps: Seq<MigrationStep>) -> bool {
    forall|i: int, j: int|
        #![trigger steps[i], steps[j]]
        0 <= i < j < steps.len() ==> steps[i].version < steps[j].version
}

/// The shape of the catalog this build ships: twelve steps, versions 1 to 12,
/// in the order users, default users, products, default products, orders,
/// order items, default orders, default order items, company settings,
/// default company settings, the added `user_id` column, and its backfill.
pub open spec fn default_catalog_shape(steps: Seq<MigrationStep>) -> bool {
    &&& steps.len() == 12
    &&& forall|i: int| 0 <= i < steps.len() ==> #[trigger] steps[i].version == i + 1
    &&& steps[0].effect is CreateUsersTable
    &&& steps[0].description@ == "create_users_table"@
    &&& steps[1].effect matches Effect::SeedUsers(rows) && rows@.len() == 3
    &&& steps[1].description@ == "insert_default_users"@
    &&& steps[2].effect is CreateProductsTable
    &&& steps[2].description@ == "create_products_table"@
    &&& steps[3].effect matches Effect::SeedProducts(rows) && rows@.len() == 10
    &&& steps[3].description@ == "insert_default_products"@
    &&& steps[4].effect is CreateOrdersTable
    &&& steps[4].description@ == "create_orders_table"@
    &&& steps[5].effect is CreateOrderItemsTable
    &&& steps[5].description@ == "create_order_items_table"@
    &&& steps[6].effect matches Effect::SeedOrders(rows) && rows@.len() == 2
    &&& steps[6].description@ == "insert_default_orders"@
    &&& steps[7].effect matches Effect::SeedOrderItems(rows) && rows@.len() == 3
    &&& steps[7].description@ == "insert_default_order_items"@
    &&& steps[8].effect is CreateCompanySettingsTable
    &&& steps[8].description@ == "create_company_settings_table"@
    &&& steps[9].effect is SeedCompanySettings
    &&& steps[9].description@ == "insert_default_company_settings"@
    &&& steps[10].effect is AddOrderUserColumn
    &&& steps[10].description@ == "add_user_id_to_orders"@
    &&& steps[11].effect == Effect::BackfillOrderUser(1u64)
    &&& steps[11].description@ == "update_existing_orders_with_default_user"@
}

fn default_users() -> (rows: Vec<UserRow>)
    ensures
        rows@.len() == 3,
{
    let mut rows: Vec<UserRow> = Vec::new();
    rows.push(
        UserRow {
            id: 1,
            email: "admin@postpos.com".to_owned(),
            password: "admin123".to_owned(),
            name: "Admin User".to_owned(),
            role: "admin".to_owned(),
            permissions: "[\"*\"]".to_owned(),
            created_at: "2024-01-01T00:00:00.000Z".to_owned(),
            last_login: Some("2025-01-24T10:30:00.000Z".to_owned()),
        },
    );
    rows.push(
        UserRow {
            id: 2,
            email: "manager@postpos.com".to_owned(),
            password: "manager123".to_owned(),
            name: "Store Manager".to_owned(),
            role: "manager".to_owned(),
            permissions:
                "[\"sales.view\",\"sales.create\",\"sales.edit\",\"products.view\",\"products.create\",\"products.edit\",\"products.delete\",\"inventory.view\",\"inventory.edit\",\"reports.view\",\"reports.export\",\"users.view\",\"users.create\",\"users.edit\",\"users.delete\"]".to_owned(),
            created_at: "2024-01-15T00:00:00.000Z".to_owned(),
            last_login: Some("2025-01-23T14:45:00.000Z".to_owned()),
        },
    );
    rows.push(
        UserRow {
            id: 3,
            email: "user@postpos.com".to_owned(),
            password: "user123".to_owned(),
            name: "John Cashier".to_owned(),
            role: "user".to_owned(),
            permissions: "[\"sales.view\",\"sales.create\",\"products.view\"]".to_owned(),
            created_at: "2024-02-01T00:00:00.000Z".to_owned(),
            last_login: Some("2025-01-24T09:00:00.000Z".to_owned()),
        },
    );
    rows
}

fn default_product(
    id: u64,
    name: &str,
    description: &str,
    price_cents: u64,
    cost_cents: u64,
    stock: u64,
    category: &str,
    barcode: &str,
    is_active: bool,
    created_at: &str,
    updated_at: &str,
) -> ProductRow {
    ProductRow {
        id,
        name: name.to_owned(),
        description: description.to_owned(),
        price_cents,
        cost_cents,
        stock,
        category: category.to_owned(),
        barcode: Some(barcode.to_owned()),
        image: None,
        is_active,
        created_at: created_at.to_owned(),
        updated_at: updated_at.to_owned(),
    }
}

fn default_products() -> (rows: Vec<ProductRow>)
    ensures
        rows@.len() == 10,
{
    let mut rows: Vec<ProductRow> = Vec::new();
    rows.push(
        default_product(
            1,
            "Coca Cola 500ml",
            "Refreshing soft drink",
            250,
            120,
            120,
            "Beverages",
            "7501055363063",
            true,
            "2024-01-01T00:00:00.000Z",
            "2024-01-15T10:30:00.000Z",
        ),
    );
    rows.push(
        default_product(
            2,
            "Bread Loaf",
            "Fresh whole wheat bread",
            399,
            180,
            25,
            "Bakery",
            "1234567890123",
            true,
            "2024-01-02T00:00:00.000Z",
            "2024-01-16T14:45:00.000Z",
        ),
    );
    rows.push(
        default_product(
            3,
            "Premium Coffee Beans 1kg",
            "Arabica coffee beans from Colombia",
            2499,
            1200,
            8,
            "Coffee & Tea",
            "9876543210987",
            true,
            "2024-01-03T00:00:00.000Z",
            "2024-01-17T09:15:00.000Z",
        ),
    );
    rows.push(
        default_product(
            4,
            "Organic Milk 1L",
            "Fresh organic whole milk",
            450,
            220,
            45,
            "Dairy",
            "5555666677778",
            true,
            "2024-01-04T00:00:00.000Z",
            "2024-01-18T16:20:00.000Z",
        ),
    );
    rows.push(
        default_product(
            5,
            "Chocolate Bar",
            "Dark chocolate 70% cocoa",
            599,
            280,
            0,
            "Snacks",
            "1111222233334",
            false,
            "2024-01-05T00:00:00.000Z",
            "2024-01-19T11:10:00.000Z",
        ),
    );
    rows.push(
        default_product(
            6,
            "Fresh Salmon Fillet",
            "Atlantic salmon, wild-caught",
            1899,
            1250,
            12,
            "Seafood",
            "2222333344445",
            true,
            "2024-01-06T00:00:00.000Z",
            "2024-01-20T08:30:00.000Z",
        ),
    );
    rows.push(
        default_product(
            7,
            "Frozen Pizza Margherita",
            "Traditional Italian style pizza",
            699,
            350,
            35,
            "Frozen Foods",
            "3333444455556",
            true,
            "2024-01-07T00:00:00.000Z",
            "2024-01-21T15:45:00.000Z",
        ),
    );
    rows.push(
        default_product(
            8,
            "Bananas (per lb)",
            "Fresh organic bananas",
            129,
            65,
            150,
            "Fresh Produce",
            "4444555566667",
            true,
            "2024-01-08T00:00:00.000Z",
            "2024-01-22T12:15:00.000Z",
        ),
    );
    rows.push(
        default_product(
            9,
            "Paper Towels (6-pack)",
            "Ultra-absorbent paper towels",
            1299,
            720,
            28,
            "Household Items",
            "5555666677778",
            true,
            "2024-01-09T00:00:00.000Z",
            "2024-01-23T09:30:00.000Z",
        ),
    );
    rows.push(
        default_product(
            10,
            "Shampoo & Conditioner Set",
            "Moisturizing hair care set",
            1599,
            890,
            22,
            "Personal Care",
            "6666777788889",
            true,
            "2024-01-10T00:00:00.000Z",
            "2024-01-24T14:20:00.000Z",
        ),
    );
    rows
}

fn default_orders() -> (rows: Vec<OrderRow>)
    ensures
        rows@.len() == 2,
{
    let mut rows: Vec<OrderRow> = Vec::new();
    rows.push(
        OrderRow {
            id: 1,
            subtotal_cents: 899,
            tax_cents: 90,
            total_cents: 989,
            status: "completed".to_owned(),
            payment_method: Some("cash".to_owned()),
            notes: None,
            created_at: "2024-01-15T10:30:00.000Z".to_owned(),
            updated_at: "2024-01-15T10:35:00.000Z".to_owned(),
            completed_at: Some("2024-01-15T10:35:00.000Z".to_owned()),
            user_id: None,
        },
    );
    rows.push(
        OrderRow {
            id: 2,
            subtotal_cents: 2499,
            tax_cents: 250,
            total_cents: 2749,
            status: "paid".to_owned(),
            payment_method: Some("card".to_owned()),
            notes: None,
            created_at: "2024-01-16T14:45:00.000Z".to_owned(),
            updated_at: "2024-01-16T14:50:00.000Z".to_owned(),
            completed_at: Some("2024-01-16T14:50:00.000Z".to_owned()),
            user_id: None,
        },
    );
    rows
}

fn default_order_items() -> (rows: Vec<OrderItemRow>)
    ensures
        rows@.len() == 3,
{
    let mut rows: Vec<OrderItemRow> = Vec::new();
    rows.push(
        OrderItemRow {
            id: 1,
            order_id: 1,
            product_id: 1,
            product_name: "Coca Cola 500ml".to_owned(),
            quantity: 2,
            unit_price_cents: 250,
            total_price_cents: 500,
        },
    );
    rows.push(
        OrderItemRow {
            id: 2,
            order_id: 1,
            product_id: 2,
            product_name: "Bread Loaf".to_owned(),
            quantity: 1,
            unit_price_cents: 399,
            total_price_cents: 399,
        },
    );
    rows.push(
        OrderItemRow {
            id: 3,
            order_id: 2,
            product_id: 3,
            product_name: "Premium Coffee Beans 1kg".to_owned(),
            quantity: 1,
            unit_price_cents: 2499,
            total_price_cents: 2499,
        },
    );
    rows
}

fn default_company_settings() -> CompanySettingsRow {
    CompanySettingsRow {
        id: 1,
        name: "Post POS".to_owned(),
        description: "Modern Point of Sale System".to_owned(),
        tax_enabled: true,
        tax_basis_points: 1000,
        currency_symbol: "$".to_owned(),
        language: "en".to_owned(),
        logo_url: None,
        address: None,
        phone: None,
        email: None,
        website: None,
        created_at: "2024-01-01T00:00:00.000Z".to_owned(),
        updated_at: "2024-01-01T00:00:00.000Z".to_owned(),
    }
}

/// The catalog this build ships, covering the authentication tables, the
/// product and order tables, company settings, and the late-added `user_id`
/// column on orders with its backfill.
pub fn default_catalog() -> (c: Catalog)
    ensures
        catalog_wf(c.steps@),
        default_catalog_shape(c.steps@),
{
    let mut steps: Vec<MigrationStep> = Vec::new();
    steps.push(
        MigrationStep {
            version: 1,
            description: "create_users_table".to_owned(),
            effect: Effect::CreateUsersTable,
        },
    );
    steps.push(
        MigrationStep {
            version: 2,
            description: "insert_default_users".to_owned(),
            effect: Effect::SeedUsers(default_users()),
        },
    );
    steps.push(
        MigrationStep {
            version: 3,
            description: "create_products_table".to_owned(),
            effect: Effect::CreateProductsTable,
        },
    );
    steps.push(
        MigrationStep {
            version: 4,
            description: "insert_default_products".to_owned(),
            effect: Effect::SeedProducts(default_products()),
        },
    );
    steps.push(
        MigrationStep {
            version: 5,
            description: "create_orders_table".to_owned(),
            effect: Effect::CreateOrdersTable,
        },
    );
    steps.push(
        MigrationStep {
            version: 6,
            description: "create_order_items_table".to_owned(),
            effect: Effect::CreateOrderItemsTable,
        },
    );
    steps.push(
        MigrationStep {
            version: 7,
            description: "insert_default_orders".to_owned(),
            effect: Effect::SeedOrders(default_orders()),
        },
    );
    steps.push(
        MigrationStep {
            version: 8,
            description: "insert_default_order_items".to_owned(),
            effect: Effect::SeedOrderItems(default_order_items()),
        },
    );
    steps.push(
        MigrationStep {
            version: 9,
            description: "create_company_settings_table".to_owned(),
            effect: Effect::CreateCompanySettingsTable,
        },
    );
    steps.push(
        MigrationStep {
            version: 10,
            description: "insert_default_company_settings".to_owned(),
            effect: Effect::SeedCompanySettings(default_company_settings()),
        },
    );
    steps.push(
        MigrationStep {
            version: 11,
            description: "add_user_id_to_orders".to_owned(),
            effect: Effect::AddOrderUserColumn,
        },
    );
    steps.push(
        MigrationStep {
            version: 12,
            description: "update_existing_orders_with_default_user".to_owned(),
            effect: Effect::BackfillOrderUser(1),
        },
    );
    Catalog { steps }
}

} // verus!
