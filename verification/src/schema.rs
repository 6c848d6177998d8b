//! The schema bootstrap statements.
//!
//! Every table is created with `IF NOT EXISTS`; the additive column
//! migrations are plain `ALTER TABLE ... ADD COLUMN` statements whose failure
//! the host ignores, since the intended failure is the benign "column already
//! exists".  The list is append-only and keeps its historical order; the host
//! shell executes it against the database file on every startup, treating a
//! failure of any non-ignorable statement as fatal.

use vstd::prelude::*;

verus! {

/// One bootstrap statement, with the flag that tells the host whether a
/// failure of it is benign.
#[derive(Debug, PartialEq)]
pub struct SchemaStatement {
    pub sql: String,
    pub ignore_failure: bool,
}

/// Whether the bootstrap statement at index `i` is an additive migration
/// whose failure the host ignores.
pub open spec fn migration_index(i: int) -> bool {
    i == 3 || 17 <= i <= 23
}

/// The fixed bootstrap sequence: sixteen `CREATE TABLE IF NOT EXISTS`
/// statements and eight additive column migrations, in their historical
/// order.
pub fn bootstrap_statements() -> (r: Vec<SchemaStatement>)
    ensures
        r@.len() == 24,
        forall|i: int| 0 <= i < 24 ==> ((#[trigger] r@[i]).ignore_failure <==> migration_index(i)),
        r@[0].sql@ == "CREATE TABLE IF NOT EXISTS users ( id TEXT PRIMARY KEY, username TEXT UNIQUE NOT NULL, password TEXT NOT NULL, role TEXT NOT NULL, created_at TEXT NOT NULL )"@,
        r@[1].sql@ == "CREATE TABLE IF NOT EXISTS clients ( id INTEGER PRIMARY KEY AUTOINCREMENT, name TEXT NOT NULL, legal_name TEXT, mb TEXT NOT NULL, pib TEXT, address TEXT, city TEXT, postal_code TEXT, country TEXT, phone TEXT, email TEXT, tax_id TEXT, bank TEXT, client_type TEXT, municipality TEXT, street TEXT, house_number TEXT, is_manual_address INTEGER DEFAULT 0, google_maps TEXT, contact_person TEXT, telegram TEXT, instagram TEXT, installment INTEGER DEFAULT 0, installment_term INTEGER, showcase INTEGER DEFAULT 0, bar INTEGER DEFAULT 0, notes TEXT, contact TEXT, created_at TEXT NOT NULL )"@,
        r@[2].sql@ == "CREATE TABLE IF NOT EXISTS products ( id TEXT PRIMARY KEY, code TEXT UNIQUE NOT NULL, name TEXT NOT NULL, description TEXT, price REAL, category TEXT, weight REAL, supplier TEXT, is_active INTEGER DEFAULT 1, created_at TEXT NOT NULL, updated_at TEXT NOT NULL )"@,
        r@[3].sql@ == "ALTER TABLE products ADD COLUMN supplier TEXT"@,
        r@[4].sql@ == "CREATE TABLE IF NOT EXISTS invoices ( id TEXT PRIMARY KEY, invoice_number TEXT UNIQUE NOT NULL, document_type TEXT NOT NULL, client_id TEXT, client_name TEXT, date TEXT NOT NULL, due_date TEXT, total REAL NOT NULL, status TEXT NOT NULL, notes TEXT, created_at TEXT NOT NULL )"@,
        r@[5].sql@ == "CREATE TABLE IF NOT EXISTS invoice_items ( id TEXT PRIMARY KEY, invoice_id TEXT NOT NULL, product_id TEXT NOT NULL, product_name TEXT NOT NULL, quantity REAL NOT NULL, price REAL NOT NULL, total REAL NOT NULL, FOREIGN KEY (invoice_id) REFERENCES invoices(id) )"@,
        r@[6].sql@ == "CREATE TABLE IF NOT EXISTS deliveries ( id TEXT PRIMARY KEY, delivery_number TEXT UNIQUE NOT NULL, client_id TEXT, client_name TEXT, date TEXT NOT NULL, status TEXT NOT NULL, notes TEXT, created_at TEXT NOT NULL )"@,
        r@[7].sql@ == "CREATE TABLE IF NOT EXISTS delivery_items ( id TEXT PRIMARY KEY, delivery_id TEXT NOT NULL, product_id TEXT NOT NULL, product_name TEXT NOT NULL, quantity REAL NOT NULL, FOREIGN KEY (delivery_id) REFERENCES deliveries(id) )"@,
        r@[8].sql@ == "CREATE TABLE IF NOT EXISTS warehouse_groups ( id TEXT PRIMARY KEY, name TEXT NOT NULL, description TEXT, created_at TEXT NOT NULL )"@,
        r@[9].sql@ == "CREATE TABLE IF NOT EXISTS warehouse_items ( id TEXT PRIMARY KEY, group_id TEXT NOT NULL, product_id TEXT NOT NULL, product_code TEXT NOT NULL, product_name TEXT NOT NULL, quantity REAL NOT NULL, notes TEXT, created_at TEXT NOT NULL, FOREIGN KEY (group_id) REFERENCES warehouse_groups(id), FOREIGN KEY (product_id) REFERENCES products(id) )"@,
        r@[10].sql@ == "CREATE TABLE IF NOT EXISTS statistics ( id TEXT PRIMARY KEY, date TEXT NOT NULL, type TEXT NOT NULL, value REAL NOT NULL, metadata TEXT, created_at TEXT NOT NULL )"@,
        r@[11].sql@ == "CREATE TABLE IF NOT EXISTS categories ( id TEXT PRIMARY KEY, name TEXT UNIQUE NOT NULL, created_at TEXT NOT NULL )"@,
        r@[12].sql@ == "CREATE TABLE IF NOT EXISTS subcategories ( id TEXT PRIMARY KEY, name TEXT NOT NULL, category_id TEXT NOT NULL, created_at TEXT NOT NULL, FOREIGN KEY (category_id) REFERENCES categories(id) )"@,
        r@[13].sql@ == "CREATE TABLE IF NOT EXISTS supplier_sectors ( id TEXT PRIMARY KEY, name TEXT UNIQUE NOT NULL, created_at TEXT NOT NULL )"@,
        r@[14].sql@ == "CREATE TABLE IF NOT EXISTS supplier_products ( id TEXT PRIMARY KEY, name TEXT NOT NULL, sector_id TEXT NOT NULL, created_at TEXT NOT NULL, FOREIGN KEY (sector_id) REFERENCES supplier_sectors(id) )"@,
        r@[15].sql@ == "CREATE TABLE IF NOT EXISTS suppliers ( id INTEGER PRIMARY KEY AUTOINCREMENT, name TEXT NOT NULL, legal_name TEXT, mb TEXT, pib TEXT, address TEXT, city TEXT, phone TEXT, email TEXT, telegram TEXT, instagram TEXT, website TEXT, bank TEXT, sector_id TEXT, product_id TEXT, contact_person TEXT, contact_person_status TEXT, google_maps TEXT, notes TEXT, is_active INTEGER DEFAULT 1, created_at TEXT NOT NULL, FOREIGN KEY (sector_id) REFERENCES supplier_sectors(id), FOREIGN KEY (product_id) REFERENCES supplier_products(id) )"@,
        r@[16].sql@ == "CREATE TABLE IF NOT EXISTS countries ( id TEXT PRIMARY KEY, name TEXT UNIQUE NOT NULL, code TEXT, created_at TEXT NOT NULL )"@,
        r@[17].sql@ == "ALTER TABLE clients ADD COLUMN contact_person_status TEXT"@,
        r@[18].sql@ == "ALTER TABLE clients ADD COLUMN abbreviation TEXT"@,
        r@[19].sql@ == "ALTER TABLE products ADD COLUMN subcategory TEXT"@,
        r@[20].sql@ == "ALTER TABLE products ADD COLUMN internal_code TEXT"@,
        r@[21].sql@ == "ALTER TABLE suppliers ADD COLUMN country TEXT"@,
        r@[22].sql@ == "ALTER TABLE suppliers ADD COLUMN reg_number TEXT"@,
        r@[23].sql@ == "ALTER TABLE suppliers ADD COLUMN wechat TEXT"@,
{
    let mut v: Vec<SchemaStatement> = Vec::new();
    v.push(SchemaStatement { sql: String::from_str("CREATE TABLE IF NOT EXISTS users ( id TEXT PRIMARY KEY, username TEXT UNIQUE NOT NULL, password TEXT NOT NULL, role TEXT NOT NULL, created_at TEXT NOT NULL )"), ignore_failure: false });
    v.push(SchemaStatement { sql: String::from_str("CREATE TABLE IF NOT EXISTS clients ( id INTEGER PRIMARY KEY AUTOINCREMENT, name TEXT NOT NULL, legal_name TEXT, mb TEXT NOT NULL, pib TEXT, address TEXT, city TEXT, postal_code TEXT, country TEXT, phone TEXT, email TEXT, tax_id TEXT, bank TEXT, client_type TEXT, municipality TEXT, street TEXT, house_number TEXT, is_manual_address INTEGER DEFAULT 0, google_maps TEXT, contact_person TEXT, telegram TEXT, instagram TEXT, installment INTEGER DEFAULT 0, installment_term INTEGER, showcase INTEGER DEFAULT 0, bar INTEGER DEFAULT 0, notes TEXT, contact TEXT, created_at TEXT NOT NULL )"), ignore_failure: false });
    v.push(SchemaStatement { sql: String::from_str("CREATE TABLE IF NOT EXISTS products ( id TEXT PRIMARY KEY, code TEXT UNIQUE NOT NULL, name TEXT NOT NULL, description TEXT, price REAL, category TEXT, weight REAL, supplier TEXT, is_active INTEGER DEFAULT 1, created_at TEXT NOT NULL, updated_at TEXT NOT NULL )"), ignore_failure: false });
    v.push(SchemaStatement { sql: String::from_str("ALTER TABLE products ADD COLUMN supplier TEXT"), ignore_failure: true });
    v.push(SchemaStatement { sql: String::from_str("CREATE TABLE IF NOT EXISTS invoices ( id TEXT PRIMARY KEY, invoice_number TEXT UNIQUE NOT NULL, document_type TEXT NOT NULL, client_id TEXT, client_name TEXT, date TEXT NOT NULL, due_date TEXT, total REAL NOT NULL, status TEXT NOT NULL, notes TEXT, created_at TEXT NOT NULL )"), ignore_failure: false });
    v.push(SchemaStatement { sql: String::from_str("CREATE TABLE IF NOT EXISTS invoice_items ( id TEXT PRIMARY KEY, invoice_id TEXT NOT NULL, product_id TEXT NOT NULL, product_name TEXT NOT NULL, quantity REAL NOT NULL, price REAL NOT NULL, total REAL NOT NULL, FOREIGN KEY (invoice_id) REFERENCES invoices(id) )"), ignore_failure: false });
    v.push(SchemaStatement { sql: String::from_str("CREATE TABLE IF NOT EXISTS deliveries ( id TEXT PRIMARY KEY, delivery_number TEXT UNIQUE NOT NULL, client_id TEXT, client_name TEXT, date TEXT NOT NULL, status TEXT NOT NULL, notes TEXT, created_at TEXT NOT NULL )"), ignore_failure: false });
    v.push(SchemaStatement { sql: String::from_str("CREATE TABLE IF NOT EXISTS delivery_items ( id TEXT PRIMARY KEY, delivery_id TEXT NOT NULL, product_id TEXT NOT NULL, product_name TEXT NOT NULL, quantity REAL NOT NULL, FOREIGN KEY (delivery_id) REFERENCES deliveries(id) )"), ignore_failure: false });
    v.push(SchemaStatement { sql: String::from_str("CREATE TABLE IF NOT EXISTS warehouse_groups ( id TEXT PRIMARY KEY, name TEXT NOT NULL, description TEXT, created_at TEXT NOT NULL )"), ignore_failure: false });
    v.push(SchemaStatement { sql: String::from_str("CREATE TABLE IF NOT EXISTS warehouse_items ( id TEXT PRIMARY KEY, group_id TEXT NOT NULL, product_id TEXT NOT NULL, product_code TEXT NOT NULL, product_name TEXT NOT NULL, quantity REAL NOT NULL, notes TEXT, created_at TEXT NOT NULL, FOREIGN KEY (group_id) REFERENCES warehouse_groups(id), FOREIGN KEY (product_id) REFERENCES products(id) )"), ignore_failure: false });
    v.push(SchemaStatement { sql: String::from_str("CREATE TABLE IF NOT EXISTS statistics ( id TEXT PRIMARY KEY, date TEXT NOT NULL, type TEXT NOT NULL, value REAL NOT NULL, metadata TEXT, created_at TEXT NOT NULL )"), ignore_failure: false });
    v.push(SchemaStatement { sql: String::from_str("CREATE TABLE IF NOT EXISTS categories ( id TEXT PRIMARY KEY, name TEXT UNIQUE NOT NULL, created_at TEXT NOT NULL )"), ignore_failure: false });
    v.push(SchemaStatement { sql: String::from_str("CREATE TABLE IF NOT EXISTS subcategories ( id TEXT PRIMARY KEY, name TEXT NOT NULL, category_id TEXT NOT NULL, created_at TEXT NOT NULL, FOREIGN KEY (category_id) REFERENCES categories(id) )"), ignore_failure: false });
    v.push(SchemaStatement { sql: String::from_str("CREATE TABLE IF NOT EXISTS supplier_sectors ( id TEXT PRIMARY KEY, name TEXT UNIQUE NOT NULL, created_at TEXT NOT NULL )"), ignore_failure: false });
    v.push(SchemaStatement { sql: String::from_str("CREATE TABLE IF NOT EXISTS supplier_products ( id TEXT PRIMARY KEY, name TEXT NOT NULL, sector_id TEXT NOT NULL, created_at TEXT NOT NULL, FOREIGN KEY (sector_id) REFERENCES supplier_sectors(id) )"), ignore_failure: false });
    v.push(SchemaStatement { sql: String::from_str("CREATE TABLE IF NOT EXISTS suppliers ( id INTEGER PRIMARY KEY AUTOINCREMENT, name TEXT NOT NULL, legal_name TEXT, mb TEXT, pib TEXT, address TEXT, city TEXT, phone TEXT, email TEXT, telegram TEXT, instagram TEXT, website TEXT, bank TEXT, sector_id TEXT, product_id TEXT, contact_person TEXT, contact_person_status TEXT, google_maps TEXT, notes TEXT, is_active INTEGER DEFAULT 1, created_at TEXT NOT NULL, FOREIGN KEY (sector_id) REFERENCES supplier_sectors(id), FOREIGN KEY (product_id) REFERENCES supplier_products(id) )"), ignore_failure: false });
    v.push(SchemaStatement { sql: String::from_str("CREATE TABLE IF NOT EXISTS countries ( id TEXT PRIMARY KEY, name TEXT UNIQUE NOT NULL, code TEXT, created_at TEXT NOT NULL )"), ignore_failure: false });
    v.push(SchemaStatement { sql: String::from_str("ALTER TABLE clients ADD COLUMN contact_person_status TEXT"), ignore_failure: true });
    v.push(SchemaStatement { sql: String::from_str("ALTER TABLE clients ADD COLUMN abbreviation TEXT"), ignore_failure: true });
    v.push(SchemaStatement { sql: String::from_str("ALTER TABLE products ADD COLUMN subcategory TEXT"), ignore_failure: true });
    v.push(SchemaStatement { sql: String::from_str("ALTER TABLE products ADD COLUMN internal_code TEXT"), ignore_failure: true });
    v.push(SchemaStatement { sql: String::from_str("ALTER TABLE suppliers ADD COLUMN country TEXT"), ignore_failure: true });
    v.push(SchemaStatement { sql: String::from_str("ALTER TABLE suppliers ADD COLUMN reg_number TEXT"), ignore_failure: true });
    v.push(SchemaStatement { sql: String::from_str("ALTER TABLE suppliers ADD COLUMN wechat TEXT"), ignore_failure: true });
    proof {
        reveal_strlit("CREATE TABLE IF NOT EXISTS users ( id TEXT PRIMARY KEY, username TEXT UNIQUE NOT NULL, password TEXT NOT NULL, role TEXT NOT NULL, created_at TEXT NOT NULL )");
        reveal_strlit("CREATE TABLE IF NOT EXISTS clients ( id INTEGER PRIMARY KEY AUTOINCREMENT, name TEXT NOT NULL, legal_name TEXT, mb TEXT NOT NULL, pib TEXT, address TEXT, city TEXT, postal_code TEXT, country TEXT, phone TEXT, email TEXT, tax_id TEXT, bank TEXT, client_type TEXT, municipality TEXT, street TEXT, house_number TEXT, is_manual_address INTEGER DEFAULT 0, google_maps TEXT, contact_person TEXT, telegram TEXT, instagram TEXT, installment INTEGER DEFAULT 0, installment_term INTEGER, showcase INTEGER DEFAULT 0, bar INTEGER DEFAULT 0, notes TEXT, contact TEXT, created_at TEXT NOT NULL )");
        reveal_strlit("CREATE TABLE IF NOT EXISTS products ( id TEXT PRIMARY KEY, code TEXT UNIQUE NOT NULL, name TEXT NOT NULL, description TEXT, price REAL, category TEXT, weight REAL, supplier TEXT, is_active INTEGER DEFAULT 1, created_at TEXT NOT NULL, updated_at TEXT NOT NULL )");
        reveal_strlit("ALTER TABLE products ADD COLUMN supplier TEXT");
        reveal_strlit("CREATE TABLE IF NOT EXISTS invoices ( id TEXT PRIMARY KEY, invoice_number TEXT UNIQUE NOT NULL, document_type TEXT NOT NULL, client_id TEXT, client_name TEXT, date TEXT NOT NULL, due_date TEXT, total REAL NOT NULL, status TEXT NOT NULL, notes TEXT, created_at TEXT NOT NULL )");
        reveal_strlit("CREATE TABLE IF NOT EXISTS invoice_items ( id TEXT PRIMARY KEY, invoice_id TEXT NOT NULL, product_id TEXT NOT NULL, product_name TEXT NOT NULL, quantity REAL NOT NULL, price REAL NOT NULL, total REAL NOT NULL, FOREIGN KEY (invoice_id) REFERENCES invoices(id) )");
        reveal_strlit("CREATE TABLE IF NOT EXISTS deliveries ( id TEXT PRIMARY KEY, delivery_number TEXT UNIQUE NOT NULL, client_id TEXT, client_name TEXT, date TEXT NOT NULL, status TEXT NOT NULL, notes TEXT, created_at TEXT NOT NULL )");
        reveal_strlit("CREATE TABLE IF NOT EXISTS delivery_items ( id TEXT PRIMARY KEY, delivery_id TEXT NOT NULL, product_id TEXT NOT NULL, product_name TEXT NOT NULL, quantity REAL NOT NULL, FOREIGN KEY (delivery_id) REFERENCES deliveries(id) )");
        reveal_strlit("CREATE TABLE IF NOT EXISTS warehouse_groups ( id TEXT PRIMARY KEY, name TEXT NOT NULL, description TEXT, created_at TEXT NOT NULL )");
        reveal_strlit("CREATE TABLE IF NOT EXISTS warehouse_items ( id TEXT PRIMARY KEY, group_id TEXT NOT NULL, product_id TEXT NOT NULL, product_code TEXT NOT NULL, product_name TEXT NOT NULL, quantity REAL NOT NULL, notes TEXT, created_at TEXT NOT NULL, FOREIGN KEY (group_id) REFERENCES warehouse_groups(id), FOREIGN KEY (product_id) REFERENCES products(id) )");
        reveal_strlit("CREATE TABLE IF NOT EXISTS statistics ( id TEXT PRIMARY KEY, date TEXT NOT NULL, type TEXT NOT NULL, value REAL NOT NULL, metadata TEXT, created_at TEXT NOT NULL )");
        reveal_strlit("CREATE TABLE IF NOT EXISTS categories ( id TEXT PRIMARY KEY, name TEXT UNIQUE NOT NULL, created_at TEXT NOT NULL )");
        reveal_strlit("CREATE TABLE IF NOT EXISTS subcategories ( id TEXT PRIMARY KEY, name TEXT NOT NULL, category_id TEXT NOT NULL, created_at TEXT NOT NULL, FOREIGN KEY (category_id) REFERENCES categories(id) )");
        reveal_strlit("CREATE TABLE IF NOT EXISTS supplier_sectors ( id TEXT PRIMARY KEY, name TEXT UNIQUE NOT NULL, created_at TEXT NOT NULL )");
        reveal_strlit("CREATE TABLE IF NOT EXISTS supplier_products ( id TEXT PRIMARY KEY, name TEXT NOT NULL, sector_id TEXT NOT NULL, created_at TEXT NOT NULL, FOREIGN KEY (sector_id) REFERENCES supplier_sectors(id) )");
        reveal_strlit("CREATE TABLE IF NOT EXISTS suppliers ( id INTEGER PRIMARY KEY AUTOINCREMENT, name TEXT NOT NULL, legal_name TEXT, mb TEXT, pib TEXT, address TEXT, city TEXT, phone TEXT, email TEXT, telegram TEXT, instagram TEXT, website TEXT, bank TEXT, sector_id TEXT, product_id TEXT, contact_person TEXT, contact_person_status TEXT, google_maps TEXT, notes TEXT, is_active INTEGER DEFAULT 1, created_at TEXT NOT NULL, FOREIGN KEY (sector_id) REFERENCES supplier_sectors(id), FOREIGN KEY (product_id) REFERENCES supplier_products(id) )");
        reveal_strlit("CREATE TABLE IF NOT EXISTS countries ( id TEXT PRIMARY KEY, name TEXT UNIQUE NOT NULL, code TEXT, created_at TEXT NOT NULL )");
        reveal_strlit("ALTER TABLE clients ADD COLUMN contact_person_status TEXT");
        reveal_strlit("ALTER TABLE clients ADD COLUMN abbreviation TEXT");
        reveal_strlit("ALTER TABLE products ADD COLUMN subcategory TEXT");
        reveal_strlit("ALTER TABLE products ADD COLUMN internal_code TEXT");
        reveal_strlit("ALTER TABLE suppliers ADD COLUMN country TEXT");
        reveal_strlit("ALTER TABLE suppliers ADD COLUMN reg_number TEXT");
        reveal_strlit("ALTER TABLE suppliers ADD COLUMN wechat TEXT");
    }
    v
}

} // verus!
