//! The entity records of the invoicing domain.
//!
//! Records mirror the database rows one to one.  Identifiers are `None` on a
//! record a caller is about to insert and `Some` on every stored row.  Numeric
//! flags (`is_active`, `installment`, ...) are small integers, `0`/`1` in the
//! common case.  Monetary and quantity values are 64-bit integers; callers
//! round to their preferred fixed-point scale before insertion.

use vstd::prelude::*;

verus! {

/// Clones an optional string; the copy is equal to the original.
pub fn clone_opt_string(o: &Option<String>) -> (r: Option<String>)
    ensures
        r == *o,
{
    match o {
        Some(s) => Some(s.clone()),
        None => None,
    }
}

/// A user as the command surface reports it: the password hash never leaves
/// the store.
#[derive(Debug, PartialEq)]
pub struct User {
    pub id: String,
    pub username: String,
    pub role: String,
}

impl Clone for User {
    fn clone(&self) -> (r: Self)
        ensures
            r == *self,
    {
        User { id: self.id.clone(), username: self.username.clone(), role: self.role.clone() }
    }
}

/// A stored user row, including the password hash.
#[derive(Debug, PartialEq)]
pub struct UserRow {
    pub id: String,
    pub username: String,
    pub password: String,
    pub role: String,
    pub created_at: String,
}

impl Clone for UserRow {
    fn clone(&self) -> (r: Self)
        ensures
            r == *self,
    {
        UserRow {
            id: self.id.clone(),
            username: self.username.clone(),
            password: self.password.clone(),
            role: self.role.clone(),
            created_at: self.created_at.clone(),
        }
    }
}

#[derive(Debug, PartialEq)]
pub struct Client {
    pub id: Option<i64>,
    pub name: String,
    pub legal_name: Option<String>,
    pub mb: String,
    pub pib: Option<String>,
    pub address: Option<String>,
    pub city: Option<String>,
    pub postal_code: Option<String>,
    pub country: Option<String>,
    pub phone: Option<String>,
    pub email: Option<String>,
    pub tax_id: Option<String>,
    pub bank: Option<String>,
    pub client_type: Option<String>,
    pub abbreviation: Option<String>,
    pub municipality: Option<String>,
    pub street: Option<String>,
    pub house_number: Option<String>,
    pub is_manual_address: i32,
    pub google_maps: Option<String>,
    pub contact_person: Option<String>,
    pub contact_person_status: Option<String>,
    pub telegram: Option<String>,
    pub instagram: Option<String>,
    pub installment: i32,
    pub installment_term: Option<i32>,
    pub showcase: i32,
    pub bar: i32,
    pub notes: Option<String>,
    pub contact: Option<String>,
    pub created_at: Option<String>,
}

impl Clone for Client {
    fn clone(&self) -> (r: Self)
        ensures
            r == *self,
    {
        Client {
            id: self.id,
            name: self.name.clone(),
            legal_name: clone_opt_string(&self.legal_name),
            mb: self.mb.clone(),
            pib: clone_opt_string(&self.pib),
            address: clone_opt_string(&self.address),
            city: clone_opt_string(&self.city),
            postal_code: clone_opt_string(&self.postal_code),
            country: clone_opt_string(&self.country),
            phone: clone_opt_string(&self.phone),
            email: clone_opt_string(&self.email),
            tax_id: clone_opt_string(&self.tax_id),
            bank: clone_opt_string(&self.bank),
            client_type: clone_opt_string(&self.client_type),
            abbreviation: clone_opt_string(&self.abbreviation),
            municipality: clone_opt_string(&self.municipality),
            street: clone_opt_string(&self.street),
            house_number: clone_opt_string(&self.house_number),
            is_manual_address: self.is_manual_address,
            google_maps: clone_opt_string(&self.google_maps),
            contact_person: clone_opt_string(&self.contact_person),
            contact_person_status: clone_opt_string(&self.contact_person_status),
            telegram: clone_opt_string(&self.telegram),
            instagram: clone_opt_string(&self.instagram),
            installment: self.installment,
            installment_term: self.installment_term,
            showcase: self.showcase,
            bar: self.bar,
            notes: clone_opt_string(&self.notes),
            contact: clone_opt_string(&self.contact),
            created_at: clone_opt_string(&self.created_at),
        }
    }
}

#[derive(Debug, PartialEq)]
pub struct Product {
    pub id: Option<String>,
    pub code: String,
    pub name: String,
    pub description: Option<String>,
    pub price: Option<i64>,
    pub category: Option<String>,
    pub subcategory: Option<String>,
    pub weight: Option<i64>,
    pub supplier: Option<String>,
    pub internal_code: Option<String>,
    pub is_active: Option<i32>,
    pub created_at: Option<String>,
    pub updated_at: Option<String>,
}

impl Clone for Product {
    fn clone(&self) -> (r: Self)
        ensures
            r == *self,
    {
        Product {
            id: clone_opt_string(&self.id),
            code: self.code.clone(),
            name: self.name.clone(),
            description: clone_opt_string(&self.description),
            price: self.price,
            category: clone_opt_string(&self.category),
            subcategory: clone_opt_string(&self.subcategory),
            weight: self.weight,
            supplier: clone_opt_string(&self.supplier),
            internal_code: clone_opt_string(&self.internal_code),
            is_active: self.is_active,
            created_at: clone_opt_string(&self.created_at),
            updated_at: clone_opt_string(&self.updated_at),
        }
    }
}

#[derive(Debug, PartialEq)]
pub struct Category {
    pub id: Option<String>,
    pub name: String,
    pub created_at: Option<String>,
}

impl Clone for Category {
    fn clone(&self) -> (r: Self)
        ensures
            r == *self,
    {
        Category {
            id: clone_opt_string(&self.id),
            name: self.name.clone(),
            created_at: clone_opt_string(&self.created_at),
        }
    }
}

#[derive(Debug, PartialEq)]
pub struct Subcategory {
    pub id: Option<String>,
    pub name: String,
    pub category_id: String,
    pub created_at: Option<String>,
}

impl Clone for Subcategory {
    fn clone(&self) -> (r: Self)
        ensures
            r == *self,
    {
        Subcategory {
            id: clone_opt_string(&self.id),
            name: self.name.clone(),
            category_id: self.category_id.clone(),
            created_at: clone_opt_string(&self.created_at),
        }
    }
}

#[derive(Debug, PartialEq)]
pub struct Invoice {
    pub id: Option<String>,
    pub invoice_number: String,
    pub document_type: String,
    pub client_id: Option<String>,
    pub client_name: Option<String>,
    pub date: String,
    pub due_date: Option<String>,
    pub total: i64,
    pub status: String,
    pub notes: Option<String>,
    pub created_at: Option<String>,
}

impl Clone for Invoice {
    fn clone(&self) -> (r: Self)
        ensures
            r == *self,
    {
        Invoice {
            id: clone_opt_string(&self.id),
            invoice_number: self.invoice_number.clone(),
            document_type: self.document_type.clone(),
            client_id: clone_opt_string(&self.client_id),
            client_name: clone_opt_string(&self.client_name),
            date: self.date.clone(),
            due_date: clone_opt_string(&self.due_date),
            total: self.total,
            status: self.status.clone(),
            notes: clone_opt_string(&self.notes),
            created_at: clone_opt_string(&self.created_at),
        }
    }
}

#[derive(Debug, PartialEq)]
pub struct InvoiceItem {
    pub id: Option<String>,
    pub invoice_id: String,
    pub product_id: String,
    pub product_name: String,
    pub quantity: i64,
    pub price: i64,
    pub total: i64,
}

impl Clone for InvoiceItem {
    fn clone(&self) -> (r: Self)
        ensures
            r == *self,
    {
        InvoiceItem {
            id: clone_opt_string(&self.id),
            invoice_id: self.invoice_id.clone(),
            product_id: self.product_id.clone(),
            product_name: self.product_name.clone(),
            quantity: self.quantity,
            price: self.price,
            total: self.total,
        }
    }
}

/// An invoice together with its line items, in insertion order.
#[derive(Debug, PartialEq)]
pub struct InvoiceWithItems {
    pub invoice: Invoice,
    pub items: Vec<InvoiceItem>,
}

#[derive(Debug, PartialEq)]
pub struct Delivery {
    pub id: Option<String>,
    pub delivery_number: String,
    pub client_id: Option<String>,
    pub client_name: Option<String>,
    pub date: String,
    pub status: String,
    pub notes: Option<String>,
    pub created_at: Option<String>,
}

impl Clone for Delivery {
    fn clone(&self) -> (r: Self)
        ensures
            r == *self,
    {
        Delivery {
            id: clone_opt_string(&self.id),
            delivery_number: self.delivery_number.clone(),
            client_id: clone_opt_string(&self.client_id),
            client_name: clone_opt_string(&self.client_name),
            date: self.date.clone(),
            status: self.status.clone(),
            notes: clone_opt_string(&self.notes),
            created_at: clone_opt_string(&self.created_at),
        }
    }
}

#[derive(Debug, PartialEq)]
pub struct DeliveryItem {
    pub id: Option<String>,
    pub delivery_id: String,
    pub product_id: String,
    pub product_name: String,
    pub quantity: i64,
}

impl Clone for DeliveryItem {
    fn clone(&self) -> (r: Self)
        ensures
            r == *self,
    {
        DeliveryItem {
            id: clone_opt_string(&self.id),
            delivery_id: self.delivery_id.clone(),
            product_id: self.product_id.clone(),
            product_name: self.product_name.clone(),
            quantity: self.quantity,
        }
    }
}

#[derive(Debug, PartialEq)]
pub struct WarehouseGroup {
    pub id: Option<String>,
    pub name: String,
    pub description: Option<String>,
    pub created_at: Option<String>,
}

impl Clone for WarehouseGroup {
    fn clone(&self) -> (r: Self)
        ensures
            r == *self,
    {
        WarehouseGroup {
            id: clone_opt_string(&self.id),
            name: self.name.clone(),
            description: clone_opt_string(&self.description),
            created_at: clone_opt_string(&self.created_at),
        }
    }
}

#[derive(Debug, PartialEq)]
pub struct WarehouseItem {
    pub id: Option<String>,
    pub group_id: String,
    pub product_id: String,
    pub product_code: String,
    pub product_name: String,
    pub quantity: i64,
    pub notes: Option<String>,
    pub created_at: Option<String>,
}

impl Clone for WarehouseItem {
    fn clone(&self) -> (r: Self)
        ensures
            r == *self,
    {
        WarehouseItem {
            id: clone_opt_string(&self.id),
            group_id: self.group_id.clone(),
            product_id: self.product_id.clone(),
            product_code: self.product_code.clone(),
            product_name: self.product_name.clone(),
            quantity: self.quantity,
            notes: clone_opt_string(&self.notes),
            created_at: clone_opt_string(&self.created_at),
        }
    }
}

#[derive(Debug, PartialEq)]
pub struct Country {
    pub id: Option<String>,
    pub name: String,
    pub code: Option<String>,
    pub created_at: Option<String>,
}

impl Clone for Country {
    fn clone(&self) -> (r: Self)
        ensures
            r == *self,
    {
        Country {
            id: clone_opt_string(&self.id),
            name: self.name.clone(),
            code: clone_opt_string(&self.code),
            created_at: clone_opt_string(&self.created_at),
        }
    }
}

#[derive(Debug, PartialEq)]
pub struct SupplierSector {
    pub id: Option<String>,
    pub name: String,
    pub created_at: Option<String>,
}

impl Clone for SupplierSector {
    fn clone(&self) -> (r: Self)
        ensures
            r == *self,
    {
        SupplierSector {
            id: clone_opt_string(&self.id),
            name: self.name.clone(),
            created_at: clone_opt_string(&self.created_at),
        }
    }
}

#[derive(Debug, PartialEq)]
pub struct SupplierProduct {
    pub id: Option<String>,
    pub name: String,
    pub sector_id: String,
    pub created_at: Option<String>,
}

impl Clone for SupplierProduct {
    fn clone(&self) -> (r: Self)
        ensures
            r == *self,
    {
        SupplierProduct {
            id: clone_opt_string(&self.id),
            name: self.name.clone(),
            sector_id: self.sector_id.clone(),
            created_at: clone_opt_string(&self.created_at),
        }
    }
}

#[derive(Debug, PartialEq)]
pub struct Supplier {
    pub id: Option<i64>,
    pub name: String,
    pub legal_name: Option<String>,
    pub mb: Option<String>,
    pub pib: Option<String>,
    pub reg_number: Option<String>,
    pub address: Option<String>,
    pub city: Option<String>,
    pub country: Option<String>,
    pub phone: Option<String>,
    pub email: Option<String>,
    pub telegram: Option<String>,
    pub instagram: Option<String>,
    pub wechat: Option<String>,
    pub website: Option<String>,
    pub bank: Option<String>,
    pub sector_id: Option<String>,
    pub product_id: Option<String>,
    pub contact_person: Option<String>,
    pub contact_person_status: Option<String>,
    pub google_maps: Option<String>,
    pub notes: Option<String>,
    pub is_active: Option<i32>,
    pub created_at: Option<String>,
}

impl Clone for Supplier {
    fn clone(&self) -> (r: Self)
        ensures
            r == *self,
    {
        Supplier {
            id: self.id,
            name: self.name.clone(),
            legal_name: clone_opt_string(&self.legal_name),
            mb: clone_opt_string(&self.mb),
            pib: clone_opt_string(&self.pib),
            reg_number: clone_opt_string(&self.reg_number),
            address: clone_opt_string(&self.address),
            city: clone_opt_string(&self.city),
            country: clone_opt_string(&self.country),
            phone: clone_opt_string(&self.phone),
            email: clone_opt_string(&self.email),
            telegram: clone_opt_string(&self.telegram),
            instagram: clone_opt_string(&self.instagram),
            wechat: clone_opt_string(&self.wechat),
            website: clone_opt_string(&self.website),
            bank: clone_opt_string(&self.bank),
            sector_id: clone_opt_string(&self.sector_id),
            product_id: clone_opt_string(&self.product_id),
            contact_person: clone_opt_string(&self.contact_person),
            contact_person_status: clone_opt_string(&self.contact_person_status),
            google_maps: clone_opt_string(&self.google_maps),
            notes: clone_opt_string(&self.notes),
            is_active: self.is_active,
            created_at: clone_opt_string(&self.created_at),
        }
    }
}

} // verus!
