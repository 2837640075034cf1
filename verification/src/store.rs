//! The relational store the catalog materializes, with its mathematical
//! model.
//!
//! `Store` holds each table as a vector of rows, a flag per table for whether
//! the table has been created, a flag for the late-added `user_id` column on
//! orders, and the version ledger. `StoreModel` is its view: the same data
//! over `Seq`, which the contracts and the migration semantics speak about.

use vstd::prelude::*;

use crate::catalog::Effect;
use crate::domain::{
    valid_payment_method, valid_role, valid_status, CompanySettingsRow, LedgerEntry, OrderItemRow,
    OrderRow, ProductRow, StoreError, UserRow,
};

verus! {

/// The mathematical model of a store: every table as a sequence of rows.
#[verifier::ext_equal]
pub ghost struct StoreModel {
    pub users_created: bool,
    pub products_created: bool,
    pub orders_created: bool,
    pub order_items_created: bool,
    pub settings_created: bool,
    /// Whether the `user_id` column of `orders` exists yet.
    pub orders_have_user_column: bool,
    pub users: Seq<UserRow>,
    pub products: Seq<ProductRow>,
    pub orders: Seq<OrderRow>,
    pub order_items: Seq<OrderItemRow>,
    pub settings: Seq<CompanySettingsRow>,
    pub ledger: Seq<LedgerEntry>,
}

/// The persistent relational state: tables, schema flags, and the ledger.
/// The ledger's own record-keeping table is implicit version 0, outside the
/// catalog's numbering: it exists from the start, before any other table.
#[derive(Debug)]
pub struct Store {
    pub users_created: bool,
    pub products_created: bool,
    pub orders_created: bool,
    pub order_items_created: bool,
    pub settings_created: bool,
    pub orders_have_user_column: bool,
    pub users: Vec<UserRow>,
    pub products: Vec<ProductRow>,
    pub orders: Vec<OrderRow>,
    pub order_items: Vec<OrderItemRow>,
    pub settings: Vec<CompanySettingsRow>,
    pub ledger: Vec<LedgerEntry>,
}

impl View for Store {
    type V = StoreModel;

    open spec fn view(&self) -> StoreModel {
        StoreModel {
            users_created: self.users_created,
            products_created: self.products_created,
            orders_created: self.orders_created,
            order_items_created: self.order_items_created,
            settings_created: self.settings_created,
            orders_have_user_column: self.orders_have_user_column,
            users: self.users@,
            products: self.products@,
            orders: self.orders@,
            order_items: self.order_items@,
            settings: self.settings@,
            ledger: self.ledger@,
        }
    }
}

/// Two barcodes collide only when both are present and spell the same code;
/// absent barcodes never collide with each other.
pub open spec fn barcode_collides(a: Option<String>, b: Option<String>) -> bool {
    a matches Some(x) && b matches Some(y) && x@ == y@
}

/// Some user row carries this id.
pub open spec fn user_id_exists(users: Seq<UserRow>, id: u64) -> bool {
    exists|k: int| #![trigger users[k]] 0 <= k < users.len() && users[k].id == id
}

/// Some order row carries this id.
pub open spec fn order_id_exists(orders: Seq<OrderRow>, id: u64) -> bool {
    exists|k: int| #![trigger orders[k]] 0 <= k < orders.len() && orders[k].id == id
}

/// Some product row carries this id.
pub open spec fn product_id_exists(products: Seq<ProductRow>, id: u64) -> bool {
    exists|k: int| #![trigger products[k]] 0 <= k < products.len() && products[k].id == id
}

/// Some ledger record carries this version.
pub open spec fn ledger_has_version(ledger: Seq<LedgerEntry>, version: u64) -> bool {
    exists|k: int| #![trigger ledger[k]] 0 <= k < ledger.len() && ledger[k].version == version
}

/// The `users` table's schema constraints: unique ids, unique emails, and
/// the role check.
pub open spec fn users_table_wf(users: Seq<UserRow>) -> bool {
    &&& forall|i: int, j: int|
        #![trigger users[i], users[j]]
        0 <= i < j < users.len() ==> users[i].id != users[j].id && users[i].email@
            != users[j].email@
    &&& forall|i: int| #![trigger users[i]] 0 <= i < users.len() ==> valid_role(users[i].role@)
}

/// The `products` table's schema constraints: unique ids, and unique
/// barcodes among the rows whose barcode is present.
pub open spec fn products_table_wf(products: Seq<ProductRow>) -> bool {
    forall|i: int, j: int|
        #![trigger products[i], products[j]]
        0 <= i < j < products.len() ==> products[i].id != products[j].id && !barcode_collides(
            products[i].barcode,
            products[j].barcode,
        )
}

/// The `orders` table's schema constraints: unique ids, the status and
/// payment-method checks, and the foreign key from `user_id` to `users`.
/// While the `user_id` column does not exist, every row has it absent.
pub open spec fn orders_table_wf(
    orders: Seq<OrderRow>,
    users: Seq<UserRow>,
    have_user_column: bool,
) -> bool {
    &&& forall|i: int, j: int|
        #![trigger orders[i], orders[j]]
        0 <= i < j < orders.len() ==> orders[i].id != orders[j].id
    &&& forall|i: int|
        #![trigger orders[i]]
        0 <= i < orders.len() ==> {
            &&& valid_status(orders[i].status@)
            &&& (orders[i].payment_method matches Some(pm) ==> valid_payment_method(pm@))
            &&& (orders[i].user_id matches Some(u) ==> user_id_exists(users, u))
            &&& (!have_user_column ==> orders[i].user_id is None)
        }
}

/// The `order_items` table's schema constraints: unique ids and the foreign
/// keys to `orders` and `products`.
pub open spec fn order_items_table_wf(
    items: Seq<OrderItemRow>,
    orders: Seq<OrderRow>,
    products: Seq<ProductRow>,
) -> bool {
    &&& forall|i: int, j: int|
        #![trigger items[i], items[j]]
        0 <= i < j < items.len() ==> items[i].id != items[j].id
    &&& forall|i: int|
        #![trigger items[i]]
        0 <= i < items.len() ==> order_id_exists(orders, items[i].order_id) && product_id_exists(
            products,
            items[i].product_id,
        )
}

/// The `company_settings` table's schema constraints: at most one row, whose
/// key is the fixed sentinel 1.
pub open spec fn settings_table_wf(settings: Seq<CompanySettingsRow>) -> bool {
    &&& settings.len() <= 1
    &&& forall|i: int| #![trigger settings[i]] 0 <= i < settings.len() ==> settings[i].id == 1
}

/// The ledger never records a version twice.
pub open spec fn ledger_wf(ledger: Seq<LedgerEntry>) -> bool {
    forall|i: int, j: int|
        #![trigger ledger[i], ledger[j]]
        0 <= i < j < ledger.len() ==> ledger[i].version != ledger[j].version
}

impl StoreModel {
    /// Well-formedness: every table satisfies its schema constraints, and a
    /// table that has not been created holds no rows.
    pub open spec fn wf(self) -> bool {
        &&& users_table_wf(self.users)
        &&& products_table_wf(self.products)
        &&& orders_table_wf(self.orders, self.users, self.orders_have_user_column)
        &&& order_items_table_wf(self.order_items, self.orders, self.products)
        &&& settings_table_wf(self.settings)
        &&& ledger_wf(self.ledger)
        &&& !self.users_created ==> self.users.len() == 0
        &&& !self.products_created ==> self.products.len() == 0
        &&& !self.orders_created ==> self.orders.len() == 0
        &&& !self.order_items_created ==> self.order_items.len() == 0
        &&& !self.settings_created ==> self.settings.len() == 0
        &&& self.orders_have_user_column ==> self.orders_created
    }
}

/// Whether an incoming seeded user row is skipped: an invalid role, a taken
/// id, or a taken email. Insert-if-absent never overwrites the present row.
pub open spec fn user_seed_rejected(cur: Seq<UserRow>, r: UserRow) -> bool {
    ||| !valid_role(r.role@)
    ||| exists|k: int|
        #![trigger cur[k]]
        0 <= k < cur.len() && (cur[k].id == r.id || cur[k].email@ == r.email@)
}

/// Whether an incoming seeded product row is skipped: a taken id, or a
/// present barcode already taken by another row.
pub open spec fn product_seed_rejected(cur: Seq<ProductRow>, r: ProductRow) -> bool {
    exists|k: int|
        #![trigger cur[k]]
        0 <= k < cur.len() && (cur[k].id == r.id || barcode_collides(cur[k].barcode, r.barcode))
}

/// Whether an incoming seeded order row is skipped: an invalid status or
/// payment method, a user reference to no user, or a taken id.
pub open spec fn order_seed_rejected(cur: Seq<OrderRow>, users: Seq<UserRow>, r: OrderRow) -> bool {
    ||| !valid_status(r.status@)
    ||| (r.payment_method matches Some(pm) && !valid_payment_method(pm@))
    ||| (r.user_id matches Some(u) && !user_id_exists(users, u))
    ||| exists|k: int| #![trigger cur[k]] 0 <= k < cur.len() && cur[k].id == r.id
}

/// Whether an incoming seeded order item row is skipped: a taken id, or a
/// foreign key to a missing order or product.
pub open spec fn item_seed_rejected(
    cur: Seq<OrderItemRow>,
    orders: Seq<OrderRow>,
    products: Seq<ProductRow>,
    r: OrderItemRow,
) -> bool {
    ||| !order_id_exists(orders, r.order_id)
    ||| !product_id_exists(products, r.product_id)
    ||| exists|k: int| #![trigger cur[k]] 0 <= k < cur.len() && cur[k].id == r.id
}

/// Whether the seeded company settings row is skipped: a key other than the
/// sentinel 1, or a row already present.
pub open spec fn settings_seed_rejected(cur: Seq<CompanySettingsRow>, r: CompanySettingsRow) -> bool {
    r.id != 1 || cur.len() > 0
}

/// Insert-if-absent of user rows, in order: each row is appended unless it
/// is rejected against the table as seeded so far.
pub open spec fn seed_users_model(cur: Seq<UserRow>, rows: Seq<UserRow>) -> Seq<UserRow>
    decreases rows.len(),
{
    if rows.len() == 0 {
        cur
    } else {
        let next = if user_seed_rejected(cur, rows[0]) {
            cur
        } else {
            cur.push(rows[0])
        };
        seed_users_model(next, rows.skip(1))
    }
}

/// Insert-if-absent of product rows, in order.
pub open spec fn seed_products_model(cur: Seq<ProductRow>, rows: Seq<ProductRow>) -> Seq<ProductRow>
    decreases rows.len(),
{
    if rows.len() == 0 {
        cur
    } else {
        let next = if product_seed_rejected(cur, rows[0]) {
            cur
        } else {
            cur.push(rows[0])
        };
        seed_products_model(next, rows.skip(1))
    }
}

/// Insert-if-absent of order rows, in order, against a fixed users table.
pub open spec fn seed_orders_model(
    cur: Seq<OrderRow>,
    users: Seq<UserRow>,
    rows: Seq<OrderRow>,
) -> Seq<OrderRow>
    decreases rows.len(),
{
    if rows.len() == 0 {
        cur
    } else {
        let next = if order_seed_rejected(cur, users, rows[0]) {
            cur
        } else {
            cur.push(rows[0])
        };
        seed_orders_model(next, users, rows.skip(1))
    }
}

/// Insert-if-absent of order item rows, in order, against fixed orders and
/// products tables.
pub open spec fn seed_items_model(
    cur: Seq<OrderItemRow>,
    orders: Seq<OrderRow>,
    products: Seq<ProductRow>,
    rows: Seq<OrderItemRow>,
) -> Seq<OrderItemRow>
    decreases rows.len(),
{
    if rows.len() == 0 {
        cur
    } else {
        let next = if item_seed_rejected(cur, orders, products, rows[0]) {
            cur
        } else {
            cur.push(rows[0])
        };
        seed_items_model(next, orders, products, rows.skip(1))
    }
}

/// An order row after the backfill step: an absent `user_id` becomes the
/// given user, a present one is kept.
pub open spec fn backfilled_order(o: OrderRow, uid: u64) -> OrderRow {
    if o.user_id is None {
        OrderRow { user_id: Some(uid), ..o }
    } else {
        o
    }
}

/// How a pre-existing order row may relate to its successor: identical in
/// every column, except that an absent `user_id` may have been backfilled.
/// No migration ever changes anything else about a row that already exists.
pub open spec fn same_but_user(a: OrderRow, b: OrderRow) -> bool {
    &&& b == (OrderRow { user_id: b.user_id, ..a })
    &&& (b.user_id == a.user_id || a.user_id is None)
}

/// What one effect does to a store model: the new model, or the error of the
/// step, in which case the model is untouched (all-or-nothing per step).
pub open spec fn apply_effect_model(m: StoreModel, e: Effect) -> Result<StoreModel, StoreError> {
    match e {
        Effect::CreateUsersTable => Ok(StoreModel { users_created: true, ..m }),
        Effect::CreateProductsTable => Ok(StoreModel { products_created: true, ..m }),
        Effect::CreateOrdersTable => Ok(StoreModel { orders_created: true, ..m }),
        Effect::CreateOrderItemsTable => Ok(StoreModel { order_items_created: true, ..m }),
        Effect::CreateCompanySettingsTable => Ok(StoreModel { settings_created: true, ..m }),
        Effect::SeedUsers(rows) => {
            if !m.users_created {
                Err(StoreError::SchemaError)
            } else {
                Ok(StoreModel { users: seed_users_model(m.users, rows@), ..m })
            }
        },
        Effect::SeedProducts(rows) => {
            if !m.products_created {
                Err(StoreError::SchemaError)
            } else {
                Ok(StoreModel { products: seed_products_model(m.products, rows@), ..m })
            }
        },
        Effect::SeedOrders(rows) => {
            if !m.orders_created {
                Err(StoreError::SchemaError)
            } else if !m.orders_have_user_column && (exists|k: int|
                #![trigger rows@[k]]
                0 <= k < rows@.len() && rows@[k].user_id is Some) {
                // the statement names a column that does not exist yet
                Err(StoreError::SchemaError)
            } else {
                Ok(StoreModel { orders: seed_orders_model(m.orders, m.users, rows@), ..m })
            }
        },
        Effect::SeedOrderItems(rows) => {
            if !m.order_items_created {
                Err(StoreError::SchemaError)
            } else {
                Ok(
                    StoreModel {
                        order_items: seed_items_model(m.order_items, m.orders, m.products, rows@),
                        ..m
                    },
                )
            }
        },
        Effect::SeedCompanySettings(row) => {
            if !m.settings_created {
                Err(StoreError::SchemaError)
            } else if settings_seed_rejected(m.settings, row) {
                Ok(m)
            } else {
                Ok(StoreModel { settings: m.settings.push(row), ..m })
            }
        },
        Effect::AddOrderUserColumn => {
            if !m.orders_created || m.orders_have_user_column {
                // a missing table, or a duplicate column
                Err(StoreError::SchemaError)
            } else {
                Ok(StoreModel { orders_have_user_column: true, ..m })
            }
        },
        Effect::BackfillOrderUser(uid) => {
            if !m.orders_created || !m.orders_have_user_column {
                Err(StoreError::SchemaError)
            } else if (exists|k: int|
                #![trigger m.orders[k]]
                0 <= k < m.orders.len() && m.orders[k].user_id is None) && !user_id_exists(
                m.users,
                uid,
            ) {
                // the update would point a row at a user that does not exist
                Err(StoreError::ConstraintViolation)
            } else {
                Ok(
                    StoreModel {
                        orders: m.orders.map(|k: int, o: OrderRow| backfilled_order(o, uid)),
                        ..m
                    },
                )
            }
        },
    }
}

fn user_exists(users: &Vec<UserRow>, id: u64) -> (b: bool)
    ensures
        b == user_id_exists(users@, id),
{
    let mut k: usize = 0;
    while k < users.len()
        invariant
            k <= users.len(),
            forall|j: int| #![trigger users@[j]] 0 <= j < k ==> users@[j].id != id,
        decreases users.len() - k,
    {
        if users[k].id == id {
            return true;
        }
        k += 1;
    }
    false
}

fn order_exists(orders: &Vec<OrderRow>, id: u64) -> (b: bool)
    ensures
        b == order_id_exists(orders@, id),
{
    let mut k: usize = 0;
    while k < orders.len()
        invariant
            k <= orders.len(),
            forall|j: int| #![trigger orders@[j]] 0 <= j < k ==> orders@[j].id != id,
        decreases orders.len() - k,
    {
        if orders[k].id == id {
            return true;
        }
        k += 1;
    }
    false
}

fn product_exists(products: &Vec<ProductRow>, id: u64) -> (b: bool)
    ensures
        b == product_id_exists(products@, id),
{
    let mut k: usize = 0;
    while k < products.len()
        invariant
            k <= products.len(),
            forall|j: int| #![trigger products@[j]] 0 <= j < k ==> products@[j].id != id,
        decreases products.len() - k,
    {
        if products[k].id == id {
            return true;
        }
        k += 1;
    }
    false
}

/// Whether the ledger already records this version.
pub fn ledger_contains(ledger: &Vec<LedgerEntry>, version: u64) -> (b: bool)
    ensures
        b == ledger_has_version(ledger@, version),
{
    let mut k: usize = 0;
    while k < ledger.len()
        invariant
            k <= ledger.len(),
            forall|j: int| #![trigger ledger@[j]] 0 <= j < k ==> ledger@[j].version != version,
        decreases ledger.len() - k,
    {
        if ledger[k].version == version {
            return true;
        }
        k += 1;
    }
    false
}

fn user_row_conflicts(users: &Vec<UserRow>, row: &UserRow) -> (b: bool)
    ensures
        b == user_seed_rejected(users@, *row),
{
    if !crate::domain::role_is_valid(&row.role) {
        return true;
    }
    let mut k: usize = 0;
    while k < users.len()
        invariant
            k <= users.len(),
            forall|j: int|
                #![trigger users@[j]]
                0 <= j < k ==> users@[j].id != row.id && users@[j].email@ != row.email@,
        decreases users.len() - k,
    {
        if users[k].id == row.id || users[k].email == row.email {
            return true;
        }
        k += 1;
    }
    false
}

fn product_row_conflicts(products: &Vec<ProductRow>, row: &ProductRow) -> (b: bool)
    ensures
        b == product_seed_rejected(products@, *row),
{
    let mut k: usize = 0;
    while k < products.len()
        invariant
            k <= products.len(),
            forall|j: int|
                #![trigger products@[j]]
                0 <= j < k ==> products@[j].id != row.id && !barcode_collides(
                    products@[j].barcode,
                    row.barcode,
                ),
        decreases products.len() - k,
    {
        if products[k].id == row.id {
            return true;
        }
        match (&products[k].barcode, &row.barcode) {
            (Some(a), Some(b)) => {
                if *a == *b {
                    return true;
                }
            },
            _ => {},
        }
        k += 1;
    }
    false
}

fn order_row_conflicts(orders: &Vec<OrderRow>, users: &Vec<UserRow>, row: &OrderRow) -> (b: bool)
    ensures
        b == order_seed_rejected(orders@, users@, *row),
{
    if !crate::domain::status_is_valid(&row.status) {
        return true;
    }
    match &row.payment_method {
        Some(pm) => {
            if !crate::domain::payment_method_is_valid(pm) {
                return true;
            }
        },
        None => {},
    }
    match &row.user_id {
        Some(u) => {
            if !user_exists(users, *u) {
                return true;
            }
        },
        None => {},
    }
    let mut k: usize = 0;
    while k < orders.len()
        invariant
            k <= orders.len(),
            forall|j: int| #![trigger orders@[j]] 0 <= j < k ==> orders@[j].id != row.id,
        decreases orders.len() - k,
    {
        if orders[k].id == row.id {
            return true;
        }
        k += 1;
    }
    false
}

fn item_row_conflicts(
    items: &Vec<OrderItemRow>,
    orders: &Vec<OrderRow>,
    products: &Vec<ProductRow>,
    row: &OrderItemRow,
) -> (b: bool)
    ensures
        b == item_seed_rejected(items@, orders@, products@, *row),
{
    if !order_exists(orders, row.order_id) {
        return true;
    }
    if !product_exists(products, row.product_id) {
        return true;
    }
    let mut k: usize = 0;
    while k < items.len()
        invariant
            k <= items.len(),
            forall|j: int| #![trigger items@[j]] 0 <= j < k ==> items@[j].id != row.id,
        decreases items.len() - k,
    {
        if items[k].id == row.id {
            return true;
        }
        k += 1;
    }
    false
}

fn seed_users(users: &mut Vec<UserRow>, rows: &Vec<UserRow>)
    ensures
        final(users)@ == seed_users_model(old(users)@, rows@),
{
    proof {
        assert(rows@.skip(0) =~= rows@);
    }
    let mut i: usize = 0;
    while i < rows.len()
        invariant
            i <= rows.len(),
            seed_users_model(users@, rows@.skip(i as int)) == seed_users_model(
                old(users)@,
                rows@,
            ),
        decreases rows.len() - i,
    {
        proof {
            assert(rows@.skip(i as int).skip(1) =~= rows@.skip(i as int + 1));
        }
        if !user_row_conflicts(users, &rows[i]) {
            users.push(rows[i].duplicate());
        }
        i += 1;
    }
}

fn seed_products(products: &mut Vec<ProductRow>, rows: &Vec<ProductRow>)
    ensures
        final(products)@ == seed_products_model(old(products)@, rows@),
{
    proof {
        assert(rows@.skip(0) =~= rows@);
    }
    let mut i: usize = 0;
    while i < rows.len()
        invariant
            i <= rows.len(),
            seed_products_model(products@, rows@.skip(i as int)) == seed_products_model(
                old(products)@,
                rows@,
            ),
        decreases rows.len() - i,
    {
        proof {
            assert(rows@.skip(i as int).skip(1) =~= rows@.skip(i as int + 1));
        }
        if !product_row_conflicts(products, &rows[i]) {
            products.push(rows[i].duplicate());
        }
        i += 1;
    }
}

fn seed_orders(orders: &mut Vec<OrderRow>, users: &Vec<UserRow>, rows: &Vec<OrderRow>)
    ensures
        final(orders)@ == seed_orders_model(old(orders)@, users@, rows@),
{
    proof {
        assert(rows@.skip(0) =~= rows@);
    }
    let mut i: usize = 0;
    while i < rows.len()
        invariant
            i <= rows.len(),
            seed_orders_model(orders@, users@, rows@.skip(i as int)) == seed_orders_model(
                old(orders)@,
                users@,
                rows@,
            ),
        decreases rows.len() - i,
    {
        proof {
            assert(rows@.skip(i as int).skip(1) =~= rows@.skip(i as int + 1));
        }
        if !order_row_conflicts(orders, users, &rows[i]) {
            orders.push(rows[i].duplicate());
        }
        i += 1;
    }
}

fn seed_items(
    items: &mut Vec<OrderItemRow>,
    orders: &Vec<OrderRow>,
    products: &Vec<ProductRow>,
    rows: &Vec<OrderItemRow>,
)
    ensures
        final(items)@ == seed_items_model(old(items)@, orders@, products@, rows@),
{
    proof {
        assert(rows@.skip(0) =~= rows@);
    }
    let mut i: usize = 0;
    while i < rows.len()
        invariant
            i <= rows.len(),
            seed_items_model(items@, orders@, products@, rows@.skip(i as int))
                == seed_items_model(old(items)@, orders@, products@, rows@),
        decreases rows.len() - i,
    {
        proof {
            assert(rows@.skip(i as int).skip(1) =~= rows@.skip(i as int + 1));
        }
        if !item_row_conflicts(items, orders, products, &rows[i]) {
            items.push(rows[i].duplicate());
        }
        i += 1;
    }
}

fn rows_touch_user_column(rows: &Vec<OrderRow>) -> (b: bool)
    ensures
        b == exists|k: int|
            #![trigger rows@[k]]
            0 <= k < rows@.len() && rows@[k].user_id is Some,
{
    let mut k: usize = 0;
    while k < rows.len()
        invariant
            k <= rows.len(),
            forall|j: int| #![trigger rows@[j]] 0 <= j < k ==> rows@[j].user_id is None,
        decreases rows.len() - k,
    {
        match &rows[k].user_id {
            Some(_) => {
                return true;
            },
            None => {},
        }
        k += 1;
    }
    false
}

fn some_order_lacks_user(orders: &Vec<OrderRow>) -> (b: bool)
    ensures
        b == exists|k: int|
            #![trigger orders@[k]]
            0 <= k < orders@.len() && orders@[k].user_id is None,
{
    let mut k: usize = 0;
    while k < orders.len()
        invariant
            k <= orders.len(),
            forall|j: int| #![trigger orders@[j]] 0 <= j < k ==> orders@[j].user_id is Some,
        decreases orders.len() - k,
    {
        match &orders[k].user_id {
            None => {
                return true;
            },
            Some(_) => {},
        }
        k += 1;
    }
    false
}

fn backfill_orders(orders: &mut Vec<OrderRow>, uid: u64)
    ensures
        final(orders)@.len() == old(orders)@.len(),
        forall|j: int|
            0 <= j < final(orders)@.len() ==> final(orders)@[j] == backfilled_order(
                #[trigger] old(orders)@[j],
                uid,
            ),
{
    let mut updated: Vec<OrderRow> = Vec::new();
    let mut i: usize = 0;
    while i < orders.len()
        invariant
            i <= orders.len(),
            orders@ == old(orders)@,
            updated@.len() == i,
            forall|j: int|
                0 <= j < i ==> updated@[j] == backfilled_order(#[trigger] orders@[j], uid),
        decreases orders.len() - i,
    {
        let mut row = orders[i].duplicate();
        match &row.user_id {
            None => {
                row.user_id = Some(uid);
            },
            Some(_) => {},
        }
        updated.push(row);
        i += 1;
    }
    *orders = updated;
}

impl Store {
    /// A fresh, absent store: no tables yet, no rows, an empty ledger.
    pub fn new() -> (s: Store)
        ensures
            s@ == empty_store_model(),
            s@.wf(),
    {
        let s = Store {
            users_created: false,
            products_created: false,
            orders_created: false,
            order_items_created: false,
            settings_created: false,
            orders_have_user_column: false,
            users: Vec::new(),
            products: Vec::new(),
            orders: Vec::new(),
            order_items: Vec::new(),
            settings: Vec::new(),
            ledger: Vec::new(),
        };
        proof {
            assert(s@ =~= empty_store_model());
        }
        s
    }
}

/// The model of a store that does not exist yet.
pub open spec fn empty_store_model() -> StoreModel {
    StoreModel {
        users_created: false,
        products_created: false,
        orders_created: false,
        order_items_created: false,
        settings_created: false,
        orders_have_user_column: false,
        users: Seq::empty(),
        products: Seq::empty(),
        orders: Seq::empty(),
        order_items: Seq::empty(),
        settings: Seq::empty(),
        ledger: Seq::empty(),
    }
}

/// Executes one effect against the store: exactly what `apply_effect_model`
/// says, and on an error the store is left untouched (all-or-nothing).
pub fn apply_effect(store: &mut Store, effect: &Effect) -> (r: Result<(), StoreError>)
    ensures
        match r {
            Ok(_) => apply_effect_model(old(store)@, *effect) == Ok::<StoreModel, StoreError>(
                final(store)@,
            ),
            Err(e) => {
                &&& apply_effect_model(old(store)@, *effect) == Err::<StoreModel, StoreError>(e)
                &&& final(store)@ == old(store)@
            },
        },
{
    match effect {
        Effect::CreateUsersTable => {
            store.users_created = true;
            proof {
                assert(store@ =~= StoreModel { users_created: true, ..old(store)@ });
            }
            Ok(())
        },
        Effect::CreateProductsTable => {
            store.products_created = true;
            proof {
                assert(store@ =~= StoreModel { products_created: true, ..old(store)@ });
            }
            Ok(())
        },
        Effect::CreateOrdersTable => {
            store.orders_created = true;
            proof {
                assert(store@ =~= StoreModel { orders_created: true, ..old(store)@ });
            }
            Ok(())
        },
        Effect::CreateOrderItemsTable => {
            store.order_items_created = true;
            proof {
                assert(store@ =~= StoreModel { order_items_created: true, ..old(store)@ });
            }
            Ok(())
        },
        Effect::CreateCompanySettingsTable => {
            store.settings_created = true;
            proof {
                assert(store@ =~= StoreModel { settings_created: true, ..old(store)@ });
            }
            Ok(())
        },
        Effect::SeedUsers(rows) => {
            if !store.users_created {
                return Err(StoreError::SchemaError);
            }
            seed_users(&mut store.users, rows);
            proof {
                assert(store@ =~= StoreModel {
                    users: seed_users_model(old(store)@.users, rows@),
                    ..old(store)@
                });
            }
            Ok(())
        },
        Effect::SeedProducts(rows) => {
            if !store.products_created {
                return Err(StoreError::SchemaError);
            }
            seed_products(&mut store.products, rows);
            proof {
                assert(store@ =~= StoreModel {
                    products: seed_products_model(old(store)@.products, rows@),
                    ..old(store)@
                });
            }
            Ok(())
        },
        Effect::SeedOrders(rows) => {
            if !store.orders_created {
                return Err(StoreError::SchemaError);
            }
            if !store.orders_have_user_column && rows_touch_user_column(rows) {
                return Err(StoreError::SchemaError);
            }
            seed_orders(&mut store.orders, &store.users, rows);
            proof {
                assert(store@ =~= StoreModel {
                    orders: seed_orders_model(old(store)@.orders, old(store)@.users, rows@),
                    ..old(store)@
                });
            }
            Ok(())
        },
        Effect::SeedOrderItems(rows) => {
            if !store.order_items_created {
                return Err(StoreError::SchemaError);
            }
            seed_items(&mut store.order_items, &store.orders, &store.products, rows);
            proof {
                assert(store@ =~= StoreModel {
                    order_items: seed_items_model(
                        old(store)@.order_items,
                        old(store)@.orders,
                        old(store)@.products,
                        rows@,
                    ),
                    ..old(store)@
                });
            }
            Ok(())
        },
        Effect::SeedCompanySettings(row) => {
            if !store.settings_created {
                return Err(StoreError::SchemaError);
            }
            if store.settings.len() == 0 && row.id == 1 {
                store.settings.push(row.duplicate());
                proof {
                    assert(store@ =~= StoreModel {
                        settings: old(store)@.settings.push(*row),
                        ..old(store)@
                    });
                }
            }
            Ok(())
        },
        Effect::AddOrderUserColumn => {
            if !store.orders_created || store.orders_have_user_column {
                return Err(StoreError::SchemaError);
            }
            store.orders_have_user_column = true;
            proof {
                assert(store@ =~= StoreModel { orders_have_user_column: true, ..old(store)@ });
            }
            Ok(())
        },
        Effect::BackfillOrderUser(uid) => {
            if !store.orders_created || !store.orders_have_user_column {
                return Err(StoreError::SchemaError);
            }
            if some_order_lacks_user(&store.orders) && !user_exists(&store.users, *uid) {
                return Err(StoreError::ConstraintViolation);
            }
            backfill_orders(&mut store.orders, *uid);
            proof {
                assert(store@.orders =~= old(store)@.orders.map(
                    |k: int, o: OrderRow| backfilled_order(o, *uid),
                ));
                assert(store@ =~= StoreModel {
                    orders: old(store)@.orders.map(|k: int, o: OrderRow| backfilled_order(o, *uid)),
                    ..old(store)@
                });
            }
            Ok(())
        },
    }
}

/// The predicate an order row must satisfy to survive deletion of the order
/// with the given id.
pub open spec fn keeps_order(order_id: u64) -> spec_fn(OrderRow) -> bool {
    |o: OrderRow| o.id != order_id
}

/// The predicate an order item row must satisfy to survive the cascade from
/// deletion of the order with the given id.
pub open spec fn keeps_item(order_id: u64) -> spec_fn(OrderItemRow) -> bool {
    |it: OrderItemRow| it.order_id != order_id
}

/// The orders table after the order with the given id is deleted.
pub open spec fn orders_without(orders: Seq<OrderRow>, order_id: u64) -> Seq<OrderRow> {
    orders.filter(keeps_order(order_id))
}

/// The order items table after the cascade: exactly the items of other
/// orders survive.
pub open spec fn items_without_order(
    items: Seq<OrderItemRow>,
    order_id: u64,
) -> Seq<OrderItemRow> {
    items.filter(keeps_item(order_id))
}

proof fn lemma_orders_without_props(orders: Seq<OrderRow>, order_id: u64)
    ensures
        forall|i: int|
            #![trigger orders_without(orders, order_id)[i]]
            0 <= i < orders_without(orders, order_id).len() ==> orders_without(
                orders,
                order_id,
            )[i].id != order_id && exists|j: int|
                0 <= j < orders.len() && #[trigger] orders[j] == orders_without(
                    orders,
                    order_id,
                )[i],
        forall|j: int|
            #![trigger orders[j]]
            0 <= j < orders.len() && orders[j].id != order_id ==> order_id_exists(
                orders_without(orders, order_id),
                orders[j].id,
            ),
        orders_without(orders, order_id).len() <= orders.len(),
    decreases orders.len(),
{
    reveal(Seq::filter);
    if orders.len() > 0 {
        let prefix = orders.drop_last();
        let last = orders.last();
        lemma_orders_without_props(prefix, order_id);
        let sub = orders_without(prefix, order_id);
        let whole = orders_without(orders, order_id);
        assert forall|i: int| #![trigger whole[i]] 0 <= i < whole.len() implies whole[i].id
            != order_id && exists|j: int|
            0 <= j < orders.len() && #[trigger] orders[j] == whole[i] by {
            if i < sub.len() {
                assert(whole[i] == sub[i]);
                let j = choose|j: int| 0 <= j < prefix.len() && #[trigger] prefix[j] == sub[i];
                assert(orders[j] == whole[i]);
            } else {
                assert(whole[i] == last);
                assert(orders[orders.len() - 1] == whole[i]);
            }
        }
        assert forall|j: int|
            #![trigger orders[j]]
            0 <= j < orders.len() && orders[j].id != order_id implies order_id_exists(
            whole,
            orders[j].id,
        ) by {
            if j < prefix.len() {
                assert(prefix[j] == orders[j]);
                let k = choose|k: int|
                    0 <= k < sub.len() && #[trigger] sub[k].id == orders[j].id;
                assert(whole[k].id == orders[j].id);
            } else {
                assert(whole[whole.len() - 1] == last);
            }
        }
    }
}

proof fn lemma_items_without_props(items: Seq<OrderItemRow>, order_id: u64)
    ensures
        forall|i: int|
            #![trigger items_without_order(items, order_id)[i]]
            0 <= i < items_without_order(items, order_id).len() ==> items_without_order(
                items,
                order_id,
            )[i].order_id != order_id && exists|j: int|
                0 <= j < items.len() && #[trigger] items[j] == items_without_order(
                    items,
                    order_id,
                )[i],
        items_without_order(items, order_id).len() <= items.len(),
    decreases items.len(),
{
    reveal(Seq::filter);
    if items.len() > 0 {
        let prefix = items.drop_last();
        let last = items.last();
        lemma_items_without_props(prefix, order_id);
        let sub = items_without_order(prefix, order_id);
        let whole = items_without_order(items, order_id);
        assert forall|i: int| #![trigger whole[i]] 0 <= i < whole.len() implies whole[i].order_id
            != order_id && exists|j: int|
            0 <= j < items.len() && #[trigger] items[j] == whole[i] by {
            if i < sub.len() {
                assert(whole[i] == sub[i]);
                let j = choose|j: int| 0 <= j < prefix.len() && #[trigger] prefix[j] == sub[i];
                assert(items[j] == whole[i]);
            } else {
                assert(whole[i] == last);
                assert(items[items.len() - 1] == whole[i]);
            }
        }
    }
}

/// Deleting an order keeps every table constraint: the surviving rows are
/// rows of the old tables, ids stay unique, and every surviving item's order
/// survives with it.
proof fn lemma_delete_order_wf(m: StoreModel, order_id: u64)
    requires
        m.wf(),
    ensures
        orders_table_wf(
            orders_without(m.orders, order_id),
            m.users,
            m.orders_have_user_column,
        ),
        order_items_table_wf(
            items_without_order(m.order_items, order_id),
            orders_without(m.orders, order_id),
            m.products,
        ),
{
    lemma_orders_without_props(m.orders, order_id);
    lemma_items_without_props(m.order_items, order_id);
    let new_orders = orders_without(m.orders, order_id);
    let new_items = items_without_order(m.order_items, order_id);
    assert forall|i: int, j: int| 0 <= i < j < new_orders.len() implies new_orders[i].id
        != new_orders[j].id by {
        lemma_filter_distinct_positions(m.orders, order_id, i, j);
    }
    assert forall|i: int|
        #![trigger new_orders[i]]
        0 <= i < new_orders.len() implies {
        &&& valid_status(new_orders[i].status@)
        &&& (new_orders[i].payment_method matches Some(pm) ==> valid_payment_method(pm@))
        &&& (new_orders[i].user_id matches Some(u) ==> user_id_exists(m.users, u))
        &&& (!m.orders_have_user_column ==> new_orders[i].user_id is None)
    } by {
        let j = choose|j: int| 0 <= j < m.orders.len() && #[trigger] m.orders[j] == new_orders[i];
        assert(valid_status(m.orders[j].status@));
    }
    assert forall|i: int, j: int| 0 <= i < j < new_items.len() implies new_items[i].id
        != new_items[j].id by {
        lemma_item_filter_distinct_positions(m.order_items, order_id, i, j);
    }
    assert forall|i: int| #![trigger new_items[i]] 0 <= i < new_items.len() implies order_id_exists(
        new_orders,
        new_items[i].order_id,
    ) && product_id_exists(m.products, new_items[i].product_id) by {
        let j = choose|j: int| 0 <= j < m.order_items.len() && #[trigger] m.order_items[j]
            == new_items[i];
        assert(order_id_exists(m.orders, new_items[i].order_id));
        let k = choose|k: int|
            0 <= k < m.orders.len() && #[trigger] m.orders[k].id == new_items[i].order_id;
        assert(m.orders[k].id != order_id);
    }
}

/// Two distinct positions of a filtered orders table come from two distinct
/// positions of the unfiltered table, so unique ids stay unique.
proof fn lemma_filter_distinct_positions(orders: Seq<OrderRow>, order_id: u64, i: int, j: int)
    requires
        0 <= i < j < orders_without(orders, order_id).len(),
        forall|a: int, b: int|
            #![trigger orders[a], orders[b]]
            0 <= a < b < orders.len() ==> orders[a].id != orders[b].id,
    ensures
        orders_without(orders, order_id)[i].id != orders_without(orders, order_id)[j].id,
    decreases orders.len(),
{
    reveal(Seq::filter);
    if orders.len() > 0 {
        let prefix = orders.drop_last();
        let sub = orders_without(prefix, order_id);
        let whole = orders_without(orders, order_id);
        if j < sub.len() {
            lemma_filter_distinct_positions(prefix, order_id, i, j);
        } else {
            // whole[j] is the last row of the unfiltered table; whole[i] comes from
            // the front part, whose ids all differ from the last row's.
            assert(whole[j] == orders.last());
            lemma_orders_without_props(prefix, order_id);
            assert(whole[i] == sub[i]);
            let a = choose|a: int| 0 <= a < prefix.len() && #[trigger] prefix[a] == sub[i];
            assert(orders[a] == whole[i]);
            assert(orders[a].id != orders[orders.len() - 1].id);
        }
    }
}

/// Two distinct positions of a filtered order items table come from two
/// distinct positions of the unfiltered table, so unique ids stay unique.
proof fn lemma_item_filter_distinct_positions(
    items: Seq<OrderItemRow>,
    order_id: u64,
    i: int,
    j: int,
)
    requires
        0 <= i < j < items_without_order(items, order_id).len(),
        forall|a: int, b: int|
            #![trigger items[a], items[b]]
            0 <= a < b < items.len() ==> items[a].id != items[b].id,
    ensures
        items_without_order(items, order_id)[i].id != items_without_order(items, order_id)[j].id,
    decreases items.len(),
{
    reveal(Seq::filter);
    if items.len() > 0 {
        let prefix = items.drop_last();
        let sub = items_without_order(prefix, order_id);
        let whole = items_without_order(items, order_id);
        if j < sub.len() {
            lemma_item_filter_distinct_positions(prefix, order_id, i, j);
        } else {
            assert(whole[j] == items.last());
            lemma_items_without_props(prefix, order_id);
            assert(whole[i] == sub[i]);
            let a = choose|a: int| 0 <= a < prefix.len() && #[trigger] prefix[a] == sub[i];
            assert(items[a] == whole[i]);
            assert(items[a].id != items[items.len() - 1].id);
        }
    }
}

/// Seeding user rows keeps the table's constraints, appends only, and never
/// touches a row that is already present.
pub proof fn lemma_seed_users_wf(cur: Seq<UserRow>, rows: Seq<UserRow>)
    requires
        users_table_wf(cur),
    ensures
        users_table_wf(seed_users_model(cur, rows)),
        seed_users_model(cur, rows).len() >= cur.len(),
        forall|j: int| 0 <= j < cur.len() ==> #[trigger] seed_users_model(cur, rows)[j] == cur[j],
    decreases rows.len(),
{
    if rows.len() > 0 {
        let r = rows[0];
        if user_seed_rejected(cur, r) {
            lemma_seed_users_wf(cur, rows.skip(1));
        } else {
            assert forall|i: int, j: int| 0 <= i < j < cur.push(r).len() implies cur.push(r)[i].id
                != cur.push(r)[j].id && cur.push(r)[i].email@ != cur.push(r)[j].email@ by {
                if j == cur.len() {
                    assert(cur.push(r)[i] == cur[i]);
                    assert(cur.push(r)[j] == r);
                }
            }
            assert(users_table_wf(cur.push(r)));
            lemma_seed_users_wf(cur.push(r), rows.skip(1));
        }
    }
}

/// Seeding product rows keeps the table's constraints, appends only, and
/// never touches a row that is already present.
pub proof fn lemma_seed_products_wf(cur: Seq<ProductRow>, rows: Seq<ProductRow>)
    requires
        products_table_wf(cur),
    ensures
        products_table_wf(seed_products_model(cur, rows)),
        seed_products_model(cur, rows).len() >= cur.len(),
        forall|j: int|
            0 <= j < cur.len() ==> #[trigger] seed_products_model(cur, rows)[j] == cur[j],
    decreases rows.len(),
{
    if rows.len() > 0 {
        let r = rows[0];
        if product_seed_rejected(cur, r) {
            lemma_seed_products_wf(cur, rows.skip(1));
        } else {
            assert forall|i: int, j: int| 0 <= i < j < cur.push(r).len() implies cur.push(r)[i].id
                != cur.push(r)[j].id && !barcode_collides(
                cur.push(r)[i].barcode,
                cur.push(r)[j].barcode,
            ) by {
                if j == cur.len() {
                    assert(cur.push(r)[i] == cur[i]);
                    assert(cur.push(r)[j] == r);
                }
            }
            assert(products_table_wf(cur.push(r)));
            lemma_seed_products_wf(cur.push(r), rows.skip(1));
        }
    }
}

/// Seeding order rows keeps the table's constraints, appends only, and never
/// touches a row that is already present. While the `user_id` column does
/// not exist, the incoming rows must not set it.
pub proof fn lemma_seed_orders_wf(
    cur: Seq<OrderRow>,
    users: Seq<UserRow>,
    rows: Seq<OrderRow>,
    have_user_column: bool,
)
    requires
        orders_table_wf(cur, users, have_user_column),
        !have_user_column ==> forall|k: int|
            #![trigger rows[k]]
            0 <= k < rows.len() ==> rows[k].user_id is None,
    ensures
        orders_table_wf(seed_orders_model(cur, users, rows), users, have_user_column),
        seed_orders_model(cur, users, rows).len() >= cur.len(),
        forall|j: int|
            0 <= j < cur.len() ==> #[trigger] seed_orders_model(cur, users, rows)[j] == cur[j],
    decreases rows.len(),
{
    if rows.len() > 0 {
        let r = rows[0];
        if order_seed_rejected(cur, users, r) {
            lemma_seed_orders_wf(cur, users, rows.skip(1), have_user_column);
        } else {
            assert forall|i: int, j: int| 0 <= i < j < cur.push(r).len() implies cur.push(r)[i].id
                != cur.push(r)[j].id by {
                if j == cur.len() {
                    assert(cur.push(r)[i] == cur[i]);
                    assert(cur.push(r)[j] == r);
                }
            }
            assert(orders_table_wf(cur.push(r), users, have_user_column));
            lemma_seed_orders_wf(cur.push(r), users, rows.skip(1), have_user_column);
        }
    }
}

/// Seeding order item rows keeps the table's constraints, appends only, and
/// never touches a row that is already present.
pub proof fn lemma_seed_items_wf(
    cur: Seq<OrderItemRow>,
    orders: Seq<OrderRow>,
    products: Seq<ProductRow>,
    rows: Seq<OrderItemRow>,
)
    requires
        order_items_table_wf(cur, orders, products),
    ensures
        order_items_table_wf(seed_items_model(cur, orders, products, rows), orders, products),
        seed_items_model(cur, orders, products, rows).len() >= cur.len(),
        forall|j: int|
            0 <= j < cur.len() ==> #[trigger] seed_items_model(cur, orders, products, rows)[j]
                == cur[j],
    decreases rows.len(),
{
    if rows.len() > 0 {
        let r = rows[0];
        if item_seed_rejected(cur, orders, products, r) {
            lemma_seed_items_wf(cur, orders, products, rows.skip(1));
        } else {
            assert forall|i: int, j: int| 0 <= i < j < cur.push(r).len() implies cur.push(r)[i].id
                != cur.push(r)[j].id by {
                if j == cur.len() {
                    assert(cur.push(r)[i] == cur[i]);
                    assert(cur.push(r)[j] == r);
                }
            }
            assert(order_items_table_wf(cur.push(r), orders, products));
            lemma_seed_items_wf(cur.push(r), orders, products, rows.skip(1));
        }
    }
}

/// A grown users table keeps every user reference alive: appending rows
/// never invalidates a foreign key into `users`.
proof fn lemma_user_refs_survive_growth(users: Seq<UserRow>, grown: Seq<UserRow>, id: u64)
    requires
        grown.len() >= users.len(),
        forall|j: int| 0 <= j < users.len() ==> #[trigger] grown[j] == users[j],
        user_id_exists(users, id),
    ensures
        user_id_exists(grown, id),
{
    let k = choose|k: int| 0 <= k < users.len() && #[trigger] users[k].id == id;
    assert(grown[k].id == id);
}

proof fn lemma_order_refs_survive_growth(orders: Seq<OrderRow>, grown: Seq<OrderRow>, id: u64)
    requires
        grown.len() >= orders.len(),
        forall|j: int| 0 <= j < orders.len() ==> #[trigger] grown[j] == orders[j],
        order_id_exists(orders, id),
    ensures
        order_id_exists(grown, id),
{
    let k = choose|k: int| 0 <= k < orders.len() && #[trigger] orders[k].id == id;
    assert(grown[k].id == id);
}

proof fn lemma_product_refs_survive_growth(
    products: Seq<ProductRow>,
    grown: Seq<ProductRow>,
    id: u64,
)
    requires
        grown.len() >= products.len(),
        forall|j: int| 0 <= j < products.len() ==> #[trigger] grown[j] == products[j],
        product_id_exists(products, id),
    ensures
        product_id_exists(grown, id),
{
    let k = choose|k: int| 0 <= k < products.len() && #[trigger] products[k].id == id;
    assert(grown[k].id == id);
}

impl Store {
    /// Inserts a user as a general application write. Unlike a seed step, a
    /// row the schema rejects surfaces the violation to the caller: a
    /// missing table is a schema error, and a duplicate id, a duplicate
    /// email or a role outside the checked set is a constraint violation —
    /// in exactly those cases, and the store is then untouched.
    pub fn insert_user(&mut self, user: UserRow) -> (r: Result<(), StoreError>)
        requires
            old(self)@.wf(),
        ensures
            final(self)@.wf(),
            match r {
                Ok(_) => {
                    &&& old(self)@.users_created
                    &&& !user_seed_rejected(old(self)@.users, user)
                    &&& final(self)@ == StoreModel {
                        users: old(self)@.users.push(user),
                        ..old(self)@
                    }
                },
                Err(e) => {
                    &&& final(self)@ == old(self)@
                    &&& if !old(self)@.users_created {
                        e == StoreError::SchemaError
                    } else {
                        e == StoreError::ConstraintViolation && user_seed_rejected(
                            old(self)@.users,
                            user,
                        )
                    }
                },
            },
    {
        if !self.users_created {
            return Err(StoreError::SchemaError);
        }
        if user_row_conflicts(&self.users, &user) {
            return Err(StoreError::ConstraintViolation);
        }
        proof {
            let cur = self@.users;
            assert forall|i: int, j: int| 0 <= i < j < cur.push(user).len() implies cur.push(
                user,
            )[i].id != cur.push(user)[j].id && cur.push(user)[i].email@ != cur.push(
                user,
            )[j].email@ by {
                if j == cur.len() {
                    assert(cur.push(user)[i] == cur[i]);
                    assert(cur.push(user)[j] == user);
                }
            }
            assert forall|i: int|
                #![trigger self@.orders[i]]
                0 <= i < self@.orders.len() implies (self@.orders[i].user_id matches Some(u)
                ==> user_id_exists(cur.push(user), u)) by {
                if self@.orders[i].user_id is Some {
                    lemma_user_refs_survive_growth(
                        cur,
                        cur.push(user),
                        self@.orders[i].user_id->0,
                    );
                }
            }
        }
        self.users.push(user);
        proof {
            assert(self@ =~= StoreModel { users: old(self)@.users.push(user), ..old(self)@ });
        }
        Ok(())
    }

    /// Inserts a product as a general application write. A missing table is
    /// a schema error; a duplicate id or a collision of present barcodes is
    /// a constraint violation — in exactly those cases, and the store is
    /// then untouched. Two rows without a barcode never collide.
    pub fn insert_product(&mut self, product: ProductRow) -> (r: Result<(), StoreError>)
        requires
            old(self)@.wf(),
        ensures
            final(self)@.wf(),
            match r {
                Ok(_) => {
                    &&& old(self)@.products_created
                    &&& !product_seed_rejected(old(self)@.products, product)
                    &&& final(self)@ == StoreModel {
                        products: old(self)@.products.push(product),
                        ..old(self)@
                    }
                },
                Err(e) => {
                    &&& final(self)@ == old(self)@
                    &&& if !old(self)@.products_created {
                        e == StoreError::SchemaError
                    } else {
                        e == StoreError::ConstraintViolation && product_seed_rejected(
                            old(self)@.products,
                            product,
                        )
                    }
                },
            },
    {
        if !self.products_created {
            return Err(StoreError::SchemaError);
        }
        if product_row_conflicts(&self.products, &product) {
            return Err(StoreError::ConstraintViolation);
        }
        proof {
            let cur = self@.products;
            assert forall|i: int, j: int| 0 <= i < j < cur.push(product).len() implies cur.push(
                product,
            )[i].id != cur.push(product)[j].id && !barcode_collides(
                cur.push(product)[i].barcode,
                cur.push(product)[j].barcode,
            ) by {
                if j == cur.len() {
                    assert(cur.push(product)[i] == cur[i]);
                    assert(cur.push(product)[j] == product);
                }
            }
            assert forall|i: int|
                #![trigger self@.order_items[i]]
                0 <= i < self@.order_items.len() implies product_id_exists(
                cur.push(product),
                self@.order_items[i].product_id,
            ) by {
                lemma_product_refs_survive_growth(
                    cur,
                    cur.push(product),
                    self@.order_items[i].product_id,
                );
            }
        }
        self.products.push(product);
        proof {
            assert(self@ =~= StoreModel {
                products: old(self)@.products.push(product),
                ..old(self)@
            });
        }
        Ok(())
    }

    /// Deletes the order with the given id, cascading to its order items:
    /// exactly the rows of that order leave both tables, every other row
    /// stays. Deleting an absent id is a no-op, as in the storage engine.
    pub fn delete_order(&mut self, order_id: u64)
        requires
            old(self)@.wf(),
        ensures
            final(self)@.wf(),
            final(self)@ == (StoreModel {
                orders: orders_without(old(self)@.orders, order_id),
                order_items: items_without_order(old(self)@.order_items, order_id),
                ..old(self)@
            }),
    {
        proof {
            lemma_delete_order_wf(old(self)@, order_id);
        }
        let mut kept_orders: Vec<OrderRow> = Vec::new();
        let mut i: usize = 0;
        while i < self.orders.len()
            invariant
                i <= self.orders.len(),
                self == old(self),
                kept_orders@ == orders_without(self.orders@.take(i as int), order_id),
            decreases self.orders.len() - i,
        {
            proof {
                let taken = self.orders@.take(i as int);
                assert(self.orders@.take(i as int + 1) =~= taken.push(self.orders@[i as int]));
                taken.lemma_filter_push(self.orders@[i as int], keeps_order(order_id));
            }
            if self.orders[i].id != order_id {
                kept_orders.push(self.orders[i].duplicate());
            }
            i += 1;
        }
        proof {
            assert(self.orders@.take(self.orders@.len() as int) =~= self.orders@);
        }
        let mut kept_items: Vec<OrderItemRow> = Vec::new();
        let mut j: usize = 0;
        while j < self.order_items.len()
            invariant
                j <= self.order_items.len(),
                self == old(self),
                kept_items@ == items_without_order(self.order_items@.take(j as int), order_id),
            decreases self.order_items.len() - j,
        {
            proof {
                let taken = self.order_items@.take(j as int);
                assert(self.order_items@.take(j as int + 1) =~= taken.push(
                    self.order_items@[j as int],
                ));
                taken.lemma_filter_push(self.order_items@[j as int], keeps_item(order_id));
            }
            if self.order_items[j].order_id != order_id {
                kept_items.push(self.order_items[j].duplicate());
            }
            j += 1;
        }
        proof {
            assert(self.order_items@.take(self.order_items@.len() as int)
                =~= self.order_items@);
        }
        self.orders = kept_orders;
        self.order_items = kept_items;
        proof {
            assert(self@ =~= StoreModel {
                orders: orders_without(old(self)@.orders, order_id),
                order_items: items_without_order(old(self)@.order_items, order_id),
                ..old(self)@
            });
        }
    }
}

/// Every effect that succeeds leaves a well-formed store well formed: the
/// domain model's schema constraints are invariants of the migration engine.
pub proof fn lemma_apply_effect_model_wf(m: StoreModel, e: Effect)
    requires
        m.wf(),
    ensures
        apply_effect_model(m, e) matches Ok(m2) ==> m2.wf(),
{
    match e {
        Effect::SeedUsers(rows) => {
            if m.users_created {
                let m2 = apply_effect_model(m, e)->Ok_0;
                lemma_seed_users_wf(m.users, rows@);
                assert forall|i: int|
                    #![trigger m2.orders[i]]
                    0 <= i < m2.orders.len() implies (m2.orders[i].user_id matches Some(u)
                    ==> user_id_exists(m2.users, u)) by {
                    if m2.orders[i].user_id is Some {
                        lemma_user_refs_survive_growth(
                            m.users,
                            m2.users,
                            m2.orders[i].user_id->0,
                        );
                    }
                }
            }
        },
        Effect::SeedProducts(rows) => {
            if m.products_created {
                let m2 = apply_effect_model(m, e)->Ok_0;
                lemma_seed_products_wf(m.products, rows@);
                assert forall|i: int|
                    #![trigger m2.order_items[i]]
                    0 <= i < m2.order_items.len() implies order_id_exists(
                    m2.orders,
                    m2.order_items[i].order_id,
                ) && product_id_exists(m2.products, m2.order_items[i].product_id) by {
                    lemma_product_refs_survive_growth(
                        m.products,
                        m2.products,
                        m2.order_items[i].product_id,
                    );
                }
            }
        },
        Effect::SeedOrders(rows) => {
            if m.orders_created && (m.orders_have_user_column || !(exists|k: int|
                #![trigger rows@[k]]
                0 <= k < rows@.len() && rows@[k].user_id is Some)) {
                let m2 = apply_effect_model(m, e)->Ok_0;
                lemma_seed_orders_wf(m.orders, m.users, rows@, m.orders_have_user_column);
                assert forall|i: int|
                    #![trigger m2.order_items[i]]
                    0 <= i < m2.order_items.len() implies order_id_exists(
                    m2.orders,
                    m2.order_items[i].order_id,
                ) && product_id_exists(m2.products, m2.order_items[i].product_id) by {
                    lemma_order_refs_survive_growth(
                        m.orders,
                        m2.orders,
                        m2.order_items[i].order_id,
                    );
                }
            }
        },
        Effect::SeedOrderItems(rows) => {
            if m.order_items_created {
                lemma_seed_items_wf(m.order_items, m.orders, m.products, rows@);
            }
        },
        Effect::BackfillOrderUser(uid) => {
            if m.orders_created && m.orders_have_user_column {
                let lacking = exists|k: int|
                    #![trigger m.orders[k]]
                    0 <= k < m.orders.len() && m.orders[k].user_id is None;
                if !lacking || user_id_exists(m.users, uid) {
                    let m2 = apply_effect_model(m, e)->Ok_0;
                    assert forall|i: int|
                        #![trigger m2.orders[i]]
                        0 <= i < m2.orders.len() implies m2.orders[i]
                        == backfilled_order(m.orders[i], uid) by {}
                    assert forall|i: int|
                        #![trigger m2.order_items[i]]
                        0 <= i < m2.order_items.len() implies order_id_exists(
                        m2.orders,
                        m2.order_items[i].order_id,
                    ) by {
                        let k = choose|k: int|
                            0 <= k < m.orders.len() && #[trigger] m.orders[k].id
                                == m2.order_items[i].order_id;
                        assert(m2.orders[k].id == m2.order_items[i].order_id);
                    }
                    assert(orders_table_wf(m2.orders, m2.users, true));
                }
            }
        },
        _ => {},
    }
}

} // verus!
