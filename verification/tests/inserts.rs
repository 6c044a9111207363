//! Behaviour of row insertion against the shipped schema: constraints,
//! defaults, and keys.

use subtrack::catalog::subscription_migrations;
use subtrack::db::Database;
use subtrack::insert::Assignment;
use subtrack::insert::InsertError;
use subtrack::value::Value;

fn text(column: &str, v: &str) -> Assignment {
    Assignment { column: column.to_string(), value: Value::Text(v.to_string()) }
}

fn migrated() -> Database {
    let mut db = Database::new();
    let records = subscription_migrations();
    assert!(db.reconcile(&records).is_ok());
    db
}

fn base_row() -> Vec<Assignment> {
    vec![
        text("id", "s-1"),
        text("name", "Power"),
        text("type", "bill"),
        text("category", "home"),
        text("frequency", "monthly"),
    ]
}

fn table() -> String {
    "subscriptions".to_string()
}

fn now() -> String {
    "2024-06-01 12:00:00".to_string()
}

#[test]
fn a_bill_row_is_accepted() {
    let mut db = migrated();
    assert!(db.insert_row(&table(), &base_row(), &now()).is_ok());
    assert_eq!(db.tables[0].rows.len(), 1);
}

#[test]
fn an_undeclared_type_value_is_rejected() {
    let mut db = migrated();
    let mut assigns = base_row();
    assigns[2] = text("type", "invalid");
    assert_eq!(
        db.insert_row(&table(), &assigns, &now()),
        Err(InsertError::CheckViolation("type".to_string())),
    );
    assert_eq!(db.tables[0].rows.len(), 0);
}

#[test]
fn an_undeclared_frequency_value_is_rejected() {
    let mut db = migrated();
    let mut assigns = base_row();
    assigns[4] = text("frequency", "daily");
    assert_eq!(
        db.insert_row(&table(), &assigns, &now()),
        Err(InsertError::CheckViolation("frequency".to_string())),
    );
}

#[test]
fn omitted_columns_take_their_declared_defaults() {
    let mut db = migrated();
    assert!(db.insert_row(&table(), &base_row(), &now()).is_ok());
    let cells = &db.tables[0].rows[0].cells;
    assert_eq!(cells[7], Value::Text("TRY".to_string()));
    assert_eq!(cells[9], Value::Text("[]".to_string()));
    assert_eq!(cells[10], Value::Integer(1));
    assert_eq!(cells[18], Value::Integer(0));
    assert_eq!(cells[16], Value::Text(now()));
    assert_eq!(cells[17], Value::Text(now()));
}

#[test]
fn a_column_without_a_default_is_left_absent() {
    let mut db = migrated();
    assert!(db.insert_row(&table(), &base_row(), &now()).is_ok());
    let cells = &db.tables[0].rows[0].cells;
    assert_eq!(cells[5], Value::Null);
    assert_eq!(cells[6], Value::Null);
    assert_eq!(cells[11], Value::Null);
}

#[test]
fn an_assigned_value_wins_over_the_default() {
    let mut db = migrated();
    let mut assigns = base_row();
    assigns.push(text("currency", "EUR"));
    assigns.push(Assignment { column: "sort_order".to_string(), value: Value::Integer(7) });
    assert!(db.insert_row(&table(), &assigns, &now()).is_ok());
    let cells = &db.tables[0].rows[0].cells;
    assert_eq!(cells[7], Value::Text("EUR".to_string()));
    assert_eq!(cells[18], Value::Integer(7));
}

#[test]
fn a_missing_required_column_is_rejected() {
    let mut db = migrated();
    let assigns = vec![
        text("id", "s-1"),
        text("type", "bill"),
        text("category", "home"),
        text("frequency", "monthly"),
    ];
    assert_eq!(
        db.insert_row(&table(), &assigns, &now()),
        Err(InsertError::NotNullViolation("name".to_string())),
    );
}

#[test]
fn an_unknown_column_is_rejected() {
    let mut db = migrated();
    let mut assigns = base_row();
    assigns.push(text("colour", "red"));
    assert_eq!(
        db.insert_row(&table(), &assigns, &now()),
        Err(InsertError::NoSuchColumn("colour".to_string())),
    );
}

#[test]
fn a_column_named_twice_is_rejected() {
    let mut db = migrated();
    let mut assigns = base_row();
    assigns.push(text("name", "Water"));
    assert_eq!(
        db.insert_row(&table(), &assigns, &now()),
        Err(InsertError::DuplicateAssignment("name".to_string())),
    );
}

#[test]
fn a_repeated_identifier_is_rejected() {
    let mut db = migrated();
    assert!(db.insert_row(&table(), &base_row(), &now()).is_ok());
    let mut again = base_row();
    again[1] = text("name", "Other name");
    assert_eq!(
        db.insert_row(&table(), &again, &now()),
        Err(InsertError::PrimaryKeyViolation("id".to_string())),
    );
    assert_eq!(db.tables[0].rows.len(), 1);
}

#[test]
fn a_second_distinct_identifier_is_accepted() {
    let mut db = migrated();
    assert!(db.insert_row(&table(), &base_row(), &now()).is_ok());
    let mut second = base_row();
    second[0] = text("id", "s-2");
    assert!(db.insert_row(&table(), &second, &now()).is_ok());
    assert_eq!(db.tables[0].rows.len(), 2);
}

#[test]
fn inserting_into_a_missing_table_is_rejected() {
    let mut db = migrated();
    assert_eq!(
        db.insert_row(&"payments".to_string(), &base_row(), &now()),
        Err(InsertError::NoSuchTable("payments".to_string())),
    );
}

#[test]
fn a_null_value_in_a_checked_optional_column_passes() {
    let mut db = migrated();
    let mut assigns = base_row();
    assigns.push(Assignment { column: "payment_method".to_string(), value: Value::Null });
    assert!(db.insert_row(&table(), &assigns, &now()).is_ok());
    assert_eq!(db.tables[0].rows[0].cells[8], Value::Null);
}
