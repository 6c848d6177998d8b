use srecha_invoice::domain::{
    Category, Client, Delivery, DeliveryItem, Invoice, InvoiceItem, Product, Subcategory, Supplier,
    SupplierProduct, SupplierSector, WarehouseGroup, WarehouseItem,
};
use srecha_invoice::error::CmdError;
use srecha_invoice::store::Store;

fn client(name: &str) -> Client {
    Client {
        id: None,
        name: name.to_string(),
        legal_name: None,
        mb: "12345678".to_string(),
        pib: None,
        address: None,
        city: None,
        postal_code: None,
        country: None,
        phone: None,
        email: None,
        tax_id: None,
        bank: None,
        client_type: None,
        abbreviation: None,
        municipality: None,
        street: None,
        house_number: None,
        is_manual_address: 0,
        google_maps: None,
        contact_person: None,
        contact_person_status: None,
        telegram: None,
        instagram: None,
        installment: 0,
        installment_term: None,
        showcase: 0,
        bar: 0,
        notes: None,
        contact: None,
        created_at: None,
    }
}

fn product(code: &str, name: &str) -> Product {
    Product {
        id: None,
        code: code.to_string(),
        name: name.to_string(),
        description: None,
        price: Some(100),
        category: None,
        subcategory: None,
        weight: None,
        supplier: None,
        internal_code: None,
        is_active: None,
        created_at: None,
        updated_at: None,
    }
}

fn invoice(number: &str, total: i64) -> Invoice {
    Invoice {
        id: None,
        invoice_number: number.to_string(),
        document_type: "invoice".to_string(),
        client_id: None,
        client_name: None,
        date: "2024-01-15".to_string(),
        due_date: None,
        total,
        status: "draft".to_string(),
        notes: None,
        created_at: None,
    }
}

fn invoice_item(product_id: &str, name: &str, qty: i64, price: i64, total: i64) -> InvoiceItem {
    InvoiceItem {
        id: None,
        invoice_id: String::new(),
        product_id: product_id.to_string(),
        product_name: name.to_string(),
        quantity: qty,
        price,
        total,
    }
}

fn bootstrapped() -> Store {
    let mut store = Store::new();
    store.init().expect("bootstrap failed");
    store
}

#[test]
fn bootstrap_seeds_reference_tables() {
    let store = bootstrapped();
    assert_eq!(store.users.len(), 1);
    assert_eq!(store.users[0].role, "admin");
    assert_eq!(store.users[0].username, "BrankoFND");
    assert_eq!(store.users[0].password.len(), 60, "the stored value is a bcrypt hash");
    assert_ne!(store.users[0].password, "MoskvaSlezamNeVeryt2024", "plaintext is never stored");
    assert_eq!(store.categories.len(), 5);
    assert_eq!(store.supplier_sectors.len(), 5);
    assert_eq!(store.countries.len(), 193);
    let mut names: Vec<&String> = store.countries.iter().map(|c| &c.name).collect();
    let total = names.len();
    names.sort();
    names.dedup();
    assert_eq!(names.len(), total, "country names must be unique");
    for c in &store.countries {
        let code = c.code.as_ref().expect("country code missing");
        assert_eq!(code.chars().count(), 2, "code {code} is not two letters");
    }
}

#[test]
fn bootstrap_is_idempotent() {
    let mut store = bootstrapped();
    let users = store.users.len();
    let cats: Vec<String> = store.categories.iter().map(|c| c.name.clone()).collect();
    let sectors = store.supplier_sectors.len();
    let countries = store.countries.len();
    store.init().expect("second bootstrap failed");
    assert_eq!(store.users.len(), users);
    let cats2: Vec<String> = store.categories.iter().map(|c| c.name.clone()).collect();
    assert_eq!(cats2, cats);
    assert_eq!(store.supplier_sectors.len(), sectors);
    assert_eq!(store.countries.len(), countries);
}

#[test]
fn country_seed_contains_serbia() {
    let store = bootstrapped();
    let serbia = store
        .countries
        .iter()
        .find(|c| c.name == "Сербия")
        .expect("Сербия missing from the seed");
    assert_eq!(serbia.code.as_deref(), Some("RS"));
}

#[test]
fn countries_listed_in_ascending_name_order() {
    let store = bootstrapped();
    let list = store.get_countries();
    assert_eq!(list.len(), 193);
    for w in list.windows(2) {
        assert!(w[0].name <= w[1].name);
    }
}

#[test]
fn login_happy_path() {
    let store = bootstrapped();
    let user = store
        .login("BrankoFND".to_string(), "MoskvaSlezamNeVeryt2024".to_string())
        .expect("seeded administrator must log in");
    assert_eq!(user.username, "BrankoFND");
    assert_eq!(user.role, "admin");
}

#[test]
fn login_rejects_wrong_password() {
    let store = bootstrapped();
    let r = store.login("BrankoFND".to_string(), "wrong".to_string());
    assert!(matches!(r, Err(CmdError::InvalidCredentials)));
}

#[test]
fn login_rejects_unknown_user() {
    let store = bootstrapped();
    let r = store.login("nobody".to_string(), "whatever".to_string());
    assert!(matches!(r, Err(CmdError::NotFound)));
}

#[test]
fn duplicate_product_code_is_a_storage_error() {
    let mut store = bootstrapped();
    store.create_product(product("TEA-1", "Green tea")).expect("first insert");
    let r = store.create_product(product("TEA-1", "Other tea"));
    match r {
        Err(CmdError::StorageError(m)) => {
            assert_eq!(m, "UNIQUE constraint failed: products.code")
        },
        other => panic!("expected a storage error, got {other:?}"),
    }
}

#[test]
fn duplicate_invoice_number_is_a_storage_error() {
    let mut store = bootstrapped();
    store.create_invoice(invoice("2024-001", 35), Vec::new()).expect("first insert");
    let r = store.create_invoice(invoice("2024-001", 10), Vec::new());
    match r {
        Err(CmdError::StorageError(m)) => {
            assert_eq!(m, "UNIQUE constraint failed: invoices.invoice_number")
        },
        other => panic!("expected a storage error, got {other:?}"),
    }
}

#[test]
fn soft_delete_keeps_row_for_code_lookup() {
    let mut store = bootstrapped();
    let p = store.create_product(product("TEA-2", "Black tea")).expect("insert");
    let id = p.id.clone().expect("created product has an id");
    store.delete_product(id.clone()).expect("delete");
    assert!(store.get_products().iter().all(|q| q.id.as_deref() != Some(id.as_str())));
    let found = store
        .get_product_by_code("TEA-2".to_string())
        .expect("soft-deleted product must still answer its code");
    assert_eq!(found.is_active, Some(0));
    assert_eq!(found.id.as_deref(), Some(id.as_str()));
}

#[test]
fn category_delete_cascades_to_subcategories() {
    let mut store = bootstrapped();
    let cat = store
        .create_category(Category { id: None, name: "Herbs".to_string(), created_at: None })
        .expect("category");
    let cat_id = cat.id.clone().expect("id");
    store
        .create_subcategory(Subcategory {
            id: None,
            name: "Mint".to_string(),
            category_id: cat_id.clone(),
            created_at: None,
        })
        .expect("subcategory");
    assert_eq!(store.get_subcategories_by_category(cat_id.clone()).len(), 1);
    store.delete_category(cat_id.clone()).expect("delete");
    assert!(store.get_subcategories_by_category(cat_id.clone()).is_empty());
    assert!(store.get_categories().iter().all(|c| c.id.as_deref() != Some(cat_id.as_str())));
}

#[test]
fn invoice_create_and_fetch_preserves_items_in_order() {
    let mut store = bootstrapped();
    let c = store.create_client(client("Srecha d.o.o.")).expect("client");
    let p1 = store.create_product(product("PR-1", "Tea one")).expect("p1");
    let p2 = store.create_product(product("PR-2", "Tea two")).expect("p2");
    let items = vec![
        invoice_item(p1.id.as_deref().unwrap(), "Tea one", 2, 10, 20),
        invoice_item(p2.id.as_deref().unwrap(), "Tea two", 1, 15, 15),
    ];
    let mut inv = invoice("2024-002", 35);
    inv.client_id = c.id.map(|v| v.to_string());
    let inv_id = store.create_invoice(inv, items).expect("invoice");
    let fetched = store
        .get_invoice_by_id(inv_id.clone())
        .expect("created invoice must be found");
    assert_eq!(fetched.invoice.total, 35);
    assert_eq!(fetched.items.len(), 2);
    assert_eq!(fetched.items[0].product_name, "Tea one");
    assert_eq!(fetched.items[0].quantity, 2);
    assert_eq!(fetched.items[0].price, 10);
    assert_eq!(fetched.items[0].total, 20);
    assert_eq!(fetched.items[1].product_name, "Tea two");
    assert_eq!(fetched.items[1].quantity, 1);
    assert_eq!(fetched.items[1].price, 15);
    assert_eq!(fetched.items[1].total, 15);
}

#[test]
fn invoice_delete_cascades_to_items() {
    let mut store = bootstrapped();
    let p1 = store.create_product(product("PR-3", "Tea")).expect("p1");
    let items = vec![invoice_item(p1.id.as_deref().unwrap(), "Tea", 2, 10, 20)];
    let inv_id = store.create_invoice(invoice("2024-003", 20), items).expect("invoice");
    store.delete_invoice(inv_id.clone()).expect("delete");
    assert!(store.get_invoices().iter().all(|i| i.id.as_deref() != Some(inv_id.as_str())));
    assert!(store.invoice_items.iter().all(|it| it.invoice_id != inv_id));
    assert!(store.get_invoice_by_id(inv_id).is_none());
}

#[test]
fn lists_order_by_created_at_descending() {
    let mut store = Store::new();
    store
        .create_client_row(client("first"), "2024-01-01T00:00:00+00:00".to_string())
        .expect("c1");
    store
        .create_client_row(client("third"), "2024-03-01T00:00:00+00:00".to_string())
        .expect("c3");
    store
        .create_client_row(client("second"), "2024-02-01T00:00:00+00:00".to_string())
        .expect("c2");
    let names: Vec<String> = store.get_clients().into_iter().map(|c| c.name).collect();
    assert_eq!(names, vec!["third".to_string(), "second".to_string(), "first".to_string()]);
    let stamps: Vec<Option<String>> =
        store.get_clients().into_iter().map(|c| c.created_at).collect();
    for w in stamps.windows(2) {
        assert!(w[0] >= w[1]);
    }
}

#[test]
fn categories_listed_in_ascending_name_order() {
    let mut store = bootstrapped();
    store
        .create_category(Category { id: None, name: "Aaa".to_string(), created_at: None })
        .expect("category");
    let list = store.get_categories();
    assert_eq!(list.len(), 6);
    for w in list.windows(2) {
        assert!(w[0].name <= w[1].name);
    }
    assert_eq!(list[0].name, "Aaa");
}

#[test]
fn client_update_requires_identifier() {
    let mut store = bootstrapped();
    let r = store.update_client(client("no id"));
    assert!(matches!(r, Err(CmdError::MissingIdentifier)));
}

#[test]
fn client_update_and_hard_delete() {
    let mut store = bootstrapped();
    let created = store.create_client(client("before")).expect("client");
    let id = created.id.expect("id");
    let mut changed = client("after");
    changed.id = Some(id);
    store.update_client(changed).expect("update");
    let listed = store.get_clients();
    assert_eq!(listed.len(), 1);
    assert_eq!(listed[0].name, "after");
    assert_eq!(listed[0].created_at, created.created_at, "creation time is immutable");
    store.delete_client(id).expect("delete");
    assert!(store.get_clients().is_empty());
}

#[test]
fn client_ids_auto_increment() {
    let mut store = bootstrapped();
    let a = store.create_client(client("a")).expect("a");
    let b = store.create_client(client("b")).expect("b");
    assert_eq!(a.id, Some(1));
    assert_eq!(b.id, Some(2));
    store.delete_client(2).expect("delete");
    let c = store.create_client(client("c")).expect("c");
    assert_eq!(c.id, Some(3), "identifiers are never reused");
}

#[test]
fn created_rows_carry_fresh_identifiers() {
    let mut store = bootstrapped();
    let cat = store
        .create_category(Category { id: None, name: "Fresh".to_string(), created_at: None })
        .expect("category");
    let id = cat.id.expect("id");
    assert_eq!(id.len(), 36, "opaque identifiers render as 36 characters");
    assert!(cat.created_at.is_some());
}

#[test]
fn product_update_keeps_creation_time_and_checks_code() {
    let mut store = bootstrapped();
    let p1 = store.create_product(product("U-1", "one")).expect("p1");
    store.create_product(product("U-2", "two")).expect("p2");
    let id = p1.id.clone().expect("id");
    let mut changed = product("U-3", "renamed");
    changed.price = None;
    store.update_product(id.clone(), changed).expect("update");
    let row = store.get_product_by_code("U-3".to_string()).expect("renamed code");
    assert_eq!(row.name, "renamed");
    assert_eq!(row.price, Some(0), "an omitted price is stored as zero");
    assert_eq!(row.created_at, p1.created_at);
    assert!(store.get_product_by_code("U-1".to_string()).is_none());
    let clash = store.update_product(id, product("U-2", "clash"));
    match clash {
        Err(CmdError::StorageError(m)) => {
            assert_eq!(m, "UNIQUE constraint failed: products.code")
        },
        other => panic!("expected a storage error, got {other:?}"),
    }
}

#[test]
fn invoice_status_and_full_update() {
    let mut store = bootstrapped();
    let inv_id = store.create_invoice(invoice("2024-004", 10), Vec::new()).expect("invoice");
    store.update_invoice_status(inv_id.clone(), "paid".to_string()).expect("status");
    let fetched = store.get_invoice_by_id(inv_id.clone()).expect("found");
    assert_eq!(fetched.invoice.status, "paid");
    let mut replacement = invoice("2024-005", 12);
    replacement.status = "sent".to_string();
    store.update_invoice(inv_id.clone(), replacement).expect("full update");
    let fetched = store.get_invoice_by_id(inv_id).expect("found");
    assert_eq!(fetched.invoice.invoice_number, "2024-005");
    assert_eq!(fetched.invoice.total, 12);
    assert_eq!(fetched.invoice.status, "sent");
}

#[test]
fn client_history_filters_by_client() {
    let mut store = bootstrapped();
    let c = store.create_client(client("history")).expect("client");
    let cid = c.id.unwrap().to_string();
    let mut inv = invoice("2024-006", 5);
    inv.client_id = Some(cid.clone());
    store.create_invoice(inv, Vec::new()).expect("invoice");
    store.create_invoice(invoice("2024-007", 6), Vec::new()).expect("other invoice");
    let history = store.get_client_history(cid.clone());
    assert_eq!(history.len(), 1);
    assert_eq!(history[0].invoice_number, "2024-006");
}

#[test]
fn delivery_create_keeps_items_in_order() {
    let mut store = bootstrapped();
    let items = vec![
        DeliveryItem {
            id: None,
            delivery_id: String::new(),
            product_id: "p-a".to_string(),
            product_name: "first".to_string(),
            quantity: 3,
        },
        DeliveryItem {
            id: None,
            delivery_id: String::new(),
            product_id: "p-b".to_string(),
            product_name: "second".to_string(),
            quantity: 4,
        },
    ];
    let delivery = Delivery {
        id: None,
        delivery_number: "D-001".to_string(),
        client_id: None,
        client_name: None,
        date: "2024-02-02".to_string(),
        status: "new".to_string(),
        notes: None,
        created_at: None,
    };
    let del_id = store.create_delivery(delivery, items).expect("delivery");
    assert_eq!(store.get_deliveries().len(), 1);
    assert_eq!(store.delivery_items.len(), 2);
    assert_eq!(store.delivery_items[0].product_name, "first");
    assert_eq!(store.delivery_items[1].product_name, "second");
    assert!(store.delivery_items.iter().all(|it| it.delivery_id == del_id));
    let dup = Delivery {
        id: None,
        delivery_number: "D-001".to_string(),
        client_id: None,
        client_name: None,
        date: "2024-02-03".to_string(),
        status: "new".to_string(),
        notes: None,
        created_at: None,
    };
    let r = store.create_delivery(dup, Vec::new());
    assert!(matches!(r, Err(CmdError::StorageError(_))));
}

#[test]
fn warehouse_group_lifecycle() {
    let mut store = bootstrapped();
    let group = WarehouseGroup {
        id: None,
        name: "Shelf A".to_string(),
        description: None,
        created_at: None,
    };
    let gid = store.create_warehouse_group(group).expect("group");
    assert_eq!(store.get_warehouse_groups().len(), 1);
    let renamed = WarehouseGroup {
        id: None,
        name: "Shelf B".to_string(),
        description: Some("renamed".to_string()),
        created_at: None,
    };
    store.update_warehouse_group(gid.clone(), renamed).expect("update");
    assert_eq!(store.get_warehouse_groups()[0].name, "Shelf B");
    store.warehouse_items.push(WarehouseItem {
        id: Some("item-1".to_string()),
        group_id: gid.clone(),
        product_id: "prod-1".to_string(),
        product_code: "C1".to_string(),
        product_name: "tea".to_string(),
        quantity: 7,
        notes: None,
        created_at: Some("2024-01-01T00:00:00+00:00".to_string()),
    });
    store.warehouse_items.push(WarehouseItem {
        id: Some("item-2".to_string()),
        group_id: gid.clone(),
        product_id: "prod-2".to_string(),
        product_code: "C2".to_string(),
        product_name: "cups".to_string(),
        quantity: 2,
        notes: None,
        created_at: Some("2024-01-01T00:00:00+00:00".to_string()),
    });
    store
        .delete_warehouse_group_item(gid.clone(), "prod-1".to_string())
        .expect("single item delete");
    assert_eq!(store.warehouse_items.len(), 1);
    assert_eq!(store.warehouse_items[0].product_id, "prod-2");
    store.delete_warehouse_group(gid.clone()).expect("group delete");
    assert!(store.get_warehouse_groups().is_empty());
    assert!(store.warehouse_items.is_empty());
}

#[test]
fn supplier_sector_cascade_and_soft_delete() {
    let mut store = bootstrapped();
    let sector = store
        .create_supplier_sector(SupplierSector {
            id: None,
            name: "Транспорт".to_string(),
            created_at: None,
        })
        .expect("sector");
    let sid = sector.id.clone().expect("id");
    store
        .create_supplier_product(SupplierProduct {
            id: None,
            name: "Фуры".to_string(),
            sector_id: sid.clone(),
            created_at: None,
        })
        .expect("supplier product");
    assert_eq!(store.get_supplier_products_by_sector(sid.clone()).len(), 1);
    store.delete_supplier_sector(sid.clone()).expect("cascade delete");
    assert!(store.get_supplier_products_by_sector(sid.clone()).is_empty());
    assert!(store.get_supplier_sectors().iter().all(|s| s.id.as_deref() != Some(sid.as_str())));

    let supplier = Supplier {
        id: None,
        name: "Acme".to_string(),
        legal_name: None,
        mb: None,
        pib: None,
        reg_number: None,
        address: None,
        city: None,
        country: None,
        phone: None,
        email: None,
        telegram: None,
        instagram: None,
        wechat: None,
        website: None,
        bank: None,
        sector_id: None,
        product_id: None,
        contact_person: None,
        contact_person_status: None,
        google_maps: None,
        notes: None,
        is_active: None,
        created_at: None,
    };
    let created = store.create_supplier(supplier).expect("supplier");
    assert_eq!(created.id, Some(1));
    assert_eq!(store.get_suppliers().len(), 1);
    let missing = Supplier { id: None, ..created.clone() };
    assert!(matches!(store.update_supplier(missing), Err(CmdError::MissingIdentifier)));
    store.delete_supplier(1).expect("soft delete");
    assert!(store.get_suppliers().is_empty());
    assert_eq!(store.suppliers.len(), 1, "soft delete keeps the row");
    assert_eq!(store.suppliers[0].is_active, Some(0));
}

#[test]
fn duplicate_category_name_is_a_storage_error() {
    let mut store = bootstrapped();
    let r = store.create_category(Category {
        id: None,
        name: "Other".to_string(),
        created_at: None,
    });
    match r {
        Err(CmdError::StorageError(m)) => {
            assert_eq!(m, "UNIQUE constraint failed: categories.name")
        },
        other => panic!("expected a storage error, got {other:?}"),
    }
}

#[test]
fn error_messages_render() {
    assert_eq!(CmdError::NotFound.message(), "Not found");
    assert_eq!(CmdError::InvalidCredentials.message(), "Invalid credentials");
    assert_eq!(CmdError::MissingIdentifier.message(), "ID is required");
    assert_eq!(CmdError::StorageError("boom".to_string()).message(), "boom");
    assert_eq!(CmdError::SchemaError("bad".to_string()).message(), "bad");
}

#[test]
fn updates_of_missing_rows_are_no_ops() {
    let mut store = bootstrapped();
    let before = store.get_products().len();
    store
        .update_product("no-such-id".to_string(), product("X-1", "ghost"))
        .expect("an update of a missing row succeeds without effect");
    assert_eq!(store.get_products().len(), before);
    assert!(store.get_product_by_code("X-1".to_string()).is_none());
    store.update_invoice_status("no-such-id".to_string(), "paid".to_string()).expect("no-op");
}

#[test]
fn subcategories_listed_in_ascending_name_order() {
    let mut store = bootstrapped();
    let cat = store
        .create_category(Category { id: None, name: "Sorted".to_string(), created_at: None })
        .expect("category");
    let cid = cat.id.expect("id");
    for name in ["zeta", "alpha", "mid"] {
        store
            .create_subcategory(Subcategory {
                id: None,
                name: name.to_string(),
                category_id: cid.clone(),
                created_at: None,
            })
            .expect("subcategory");
    }
    let names: Vec<String> =
        store.get_subcategories().into_iter().map(|s| s.name).collect();
    assert_eq!(names, vec!["alpha".to_string(), "mid".to_string(), "zeta".to_string()]);
}
