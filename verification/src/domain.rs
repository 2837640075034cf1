//! Row types of the domain model and the error taxonomy.
//!
//! Monetary amounts are held in integer cents (`price_cents`,
//! `subtotal_cents`, ...), the tax percentage in basis points
//! (1000 basis points = 10.00%), and timestamps as ISO-8601 strings, so that
//! every field is a plain value the contracts can speak about exactly.

use vstd::prelude::*;

verus! {

/// Errors surfaced by the migration engine and by writes against the store.
#[derive(Debug, Clone, Copy, PartialEq, Eq, Structural)]
pub enum StoreError {
    /// A DDL effect is malformed or conflicts with existing structure
    /// (a seed against a missing table, a duplicate column). Fatal at startup.
    SchemaError,
    /// A uniqueness, check or foreign-key rule rejects a write.
    ConstraintViolation,
    /// The underlying file or engine cannot be opened. The in-memory model
    /// never raises it; the storage adapter around the library maps the
    /// engine's open failure to this variant.
    StorageUnavailable,
    /// The version ledger holds a version the catalog does not know.
    LedgerCorruption,
}

/// A row of the `users` table.
#[derive(Debug, Clone)]
pub struct UserRow {
    pub id: u64,
    pub email: String,
    pub password: String,
    pub name: String,
    pub role: String,
    /// Serialized permission list; `"*"` grants all capabilities.
    pub permissions: String,
    pub created_at: String,
    pub last_login: Option<String>,
}

/// A row of the `products` table.
#[derive(Debug, Clone)]
pub struct ProductRow {
    pub id: u64,
    pub name: String,
    pub description: String,
    pub price_cents: u64,
    pub cost_cents: u64,
    pub stock: u64,
    pub category: String,
    /// Unique when present; absent barcodes never collide with each other.
    pub barcode: Option<String>,
    pub image: Option<String>,
    pub is_active: bool,
    pub created_at: String,
    pub updated_at: String,
}

/// A row of the `orders` table. `user_id` is the column added by a later
/// catalog version; while the column does not exist it is `None` on every row.
#[derive(Debug, Clone)]
pub struct OrderRow {
    pub id: u64,
    pub subtotal_cents: u64,
    pub tax_cents: u64,
    pub total_cents: u64,
    pub status: String,
    pub payment_method: Option<String>,
    pub notes: Option<String>,
    pub created_at: String,
    pub updated_at: String,
    pub completed_at: Option<String>,
    pub user_id: Option<u64>,
}

/// A row of the `order_items` table. `product_name` is a point-in-time copy
/// of the product's name, decoupled from later renames.
#[derive(Debug, Clone)]
pub struct OrderItemRow {
    pub id: u64,
    pub order_id: u64,
    pub product_id: u64,
    pub product_name: String,
    pub quantity: u64,
    pub unit_price_cents: u64,
    pub total_price_cents: u64,
}

/// The singleton row of the `company_settings` table; its key is fixed to 1.
#[derive(Debug, Clone)]
pub struct CompanySettingsRow {
    pub id: u64,
    pub name: String,
    pub description: String,
    pub tax_enabled: bool,
    /// 1000 basis points = 10.00%.
    pub tax_basis_points: u64,
    pub currency_symbol: String,
    pub language: String,
    pub logo_url: Option<String>,
    pub address: Option<String>,
    pub phone: Option<String>,
    pub email: Option<String>,
    pub website: Option<String>,
    pub created_at: String,
    pub updated_at: String,
}

/// One record of the version ledger: a migration version that has been
/// applied, with its description.
#[derive(Debug, Clone)]
pub struct LedgerEntry {
    pub version: u64,
    pub description: String,
}

/// The `role` column admits exactly the three roles of the check constraint.
pub open spec fn valid_role(role: Seq<char>) -> bool {
    ||| role == "admin"@
    ||| role == "manager"@
    ||| role == "user"@
}

/// The `status` column admits exactly the four states of the check constraint.
pub open spec fn valid_status(status: Seq<char>) -> bool {
    ||| status == "pending"@
    ||| status == "paid"@
    ||| status == "cancelled"@
    ||| status == "completed"@
}

/// The `payment_method` column, when present, admits exactly three methods.
pub open spec fn valid_payment_method(method: Seq<char>) -> bool {
    ||| method == "cash"@
    ||| method == "card"@
    ||| method == "transfer"@
}

fn string_equals_literal(s: &String, lit: &str) -> (b: bool)
    ensures
        b == (s@ == lit@),
{
    let owned: String = lit.to_owned();
    *s == owned
}

/// Decides the `role` check constraint.
pub fn role_is_valid(role: &String) -> (b: bool)
    ensures
        b == valid_role(role@),
{
    string_equals_literal(role, "admin") || string_equals_literal(role, "manager")
        || string_equals_literal(role, "user")
}

/// Decides the `status` check constraint.
pub fn status_is_valid(status: &String) -> (b: bool)
    ensures
        b == valid_status(status@),
{
    string_equals_literal(status, "pending") || string_equals_literal(status, "paid")
        || string_equals_literal(status, "cancelled") || string_equals_literal(
        status,
        "completed",
    )
}

/// Decides the `payment_method` check constraint for a present value.
pub fn payment_method_is_valid(method: &String) -> (b: bool)
    ensures
        b == valid_payment_method(method@),
{
    string_equals_literal(method, "cash") || string_equals_literal(method, "card")
        || string_equals_literal(method, "transfer")
}

/// Whether a decoded permission list grants a capability: an exact token
/// grants it, and the wildcard `"*"` grants every capability.
pub open spec fn capability_granted(perms: Seq<String>, cap: Seq<char>) -> bool {
    exists|k: int|
        #![trigger perms[k]]
        0 <= k < perms.len() && (perms[k]@ == "*"@ || perms[k]@ == cap)
}

/// Decides whether a permission list, decoded from its stored serialized
/// form at the boundary, grants the given capability.
pub fn has_capability(perms: &Vec<String>, cap: &String) -> (b: bool)
    ensures
        b == capability_granted(perms@, cap@),
{
    let wildcard: String = "*".to_owned();
    let mut k: usize = 0;
    while k < perms.len()
        invariant
            k <= perms.len(),
            wildcard@ == "*"@,
            forall|j: int|
                #![trigger perms@[j]]
                0 <= j < k ==> perms@[j]@ != "*"@ && perms@[j]@ != cap@,
        decreases perms.len() - k,
    {
        if perms[k] == wildcard || perms[k] == *cap {
            return true;
        }
        k += 1;
    }
    false
}

fn clone_opt_string(o: &Option<String>) -> (r: Option<String>)
    ensures
        r == *o,
{
    match o {
        Some(s) => Some(s.clone()),
        None => None,
    }
}

impl UserRow {
    /// A copy equal to `self`, field for field.
    pub fn duplicate(&self) -> (r: UserRow)
        ensures
            r == *self,
    {
        UserRow {
            id: self.id,
            email: self.email.clone(),
            password: self.password.clone(),
            name: self.name.clone(),
            role: self.role.clone(),
            permissions: self.permissions.clone(),
            created_at: self.created_at.clone(),
            last_login: clone_opt_string(&self.last_login),
        }
    }
}

impl ProductRow {
    /// A copy equal to `self`, field for field.
    pub fn duplicate(&self) -> (r: ProductRow)
        ensures
            r == *self,
    {
        ProductRow {
            id: self.id,
            name: self.name.clone(),
            description: self.description.clone(),
            price_cents: self.price_cents,
            cost_cents: self.cost_cents,
            stock: self.stock,
            category: self.category.clone(),
            barcode: clone_opt_string(&self.barcode),
            image: clone_opt_string(&self.image),
            is_active: self.is_active,
            created_at: self.created_at.clone(),
            updated_at: self.updated_at.clone(),
        }
    }
}

impl OrderRow {
    /// A copy equal to `self`, field for field.
    pub fn duplicate(&self) -> (r: OrderRow)
        ensures
            r == *self,
    {
        OrderRow {
            id: self.id,
            subtotal_cents: self.subtotal_cents,
            tax_cents: self.tax_cents,
            total_cents: self.total_cents,
            status: self.status.clone(),
            payment_method: clone_opt_string(&self.payment_method),
            notes: clone_opt_string(&self.notes),
            created_at: self.created_at.clone(),
            updated_at: self.updated_at.clone(),
            completed_at: clone_opt_string(&self.completed_at),
            user_id: self.user_id,
        }
    }
}

impl OrderItemRow {
    /// A copy equal to `self`, field for field.
    pub fn duplicate(&self) -> (r: OrderItemRow)
        ensures
            r == *self,
    {
        OrderItemRow {
            id: self.id,
            order_id: self.order_id,
            product_id: self.product_id,
            product_name: self.product_name.clone(),
            quantity: self.quantity,
            unit_price_cents: self.unit_price_cents,
            total_price_cents: self.total_price_cents,
        }
    }
}

impl CompanySettingsRow {
    /// A copy equal to `self`, field for field.
    pub fn duplicate(&self) -> (r: CompanySettingsRow)
        ensures
            r == *self,
    {
        CompanySettingsRow {
            id: self.id,
            name: self.name.clone(),
            description: self.description.clone(),
            tax_enabled: self.tax_enabled,
            tax_basis_points: self.tax_basis_points,
            currency_symbol: self.currency_symbol.clone(),
            language: self.language.clone(),
            logo_url: clone_opt_string(&self.logo_url),
            address: clone_opt_string(&self.address),
            phone: clone_opt_string(&self.phone),
            email: clone_opt_string(&self.email),
            website: clone_opt_string(&self.website),
            created_at: self.created_at.clone(),
            updated_at: self.updated_at.clone(),
        }
    }
}

} // verus!
