//! Behaviour of the reconciler against an in-memory store.

use subtrack::catalog::migration_add_sort_order;
use subtrack::insert::Assignment;
use subtrack::value::Value;
use subtrack::catalog::migration_create_subscriptions;
use subtrack::catalog::subscription_migrations;
use subtrack::db::Database;
use subtrack::db::StatementError;
use subtrack::migrate::check_list;
use subtrack::migrate::Migration;
use subtrack::migrate::MigrationError;
use subtrack::migrate::MigrationKind;
use subtrack::schema::ColType;
use subtrack::schema::ColumnDef;
use subtrack::schema::Statement;
use subtrack::schema::TableDef;

fn plain_column(name: &str) -> ColumnDef {
    ColumnDef {
        name: name.to_string(),
        col_type: ColType::Text,
        not_null: false,
        primary_key: false,
        default: None,
        allowed: None,
    }
}

fn create_table(name: &str, if_not_exists: bool) -> Statement {
    Statement::CreateTable {
        if_not_exists,
        def: TableDef { name: name.to_string(), columns: vec![plain_column("id")] },
    }
}

fn record(version: u64, statements: Vec<Statement>) -> Migration {
    Migration {
        version,
        description: format!("change-set {}", version),
        kind: MigrationKind::Up,
        statements,
    }
}

#[test]
fn fresh_reconcile_builds_whole_schema() {
    let mut db = Database::new();
    let records = subscription_migrations();
    assert!(db.reconcile(&records).is_ok());
    assert_eq!(db.tables.len(), 1);
    assert_eq!(db.tables[0].def.name, "subscriptions".to_string());
    assert_eq!(db.tables[0].def.columns.len(), 19);
    assert_eq!(db.tables[0].def.columns[0].name, "id".to_string());
    assert!(db.tables[0].def.columns[0].primary_key);
    assert_eq!(db.tables[0].def.columns[18].name, "sort_order".to_string());
    assert_eq!(db.applied, vec![1u64, 2u64]);
}

#[test]
fn fresh_reconcile_matches_running_every_script_in_order() {
    let mut reconciled = Database::new();
    assert!(reconciled.reconcile(&subscription_migrations()).is_ok());

    let mut by_hand = Database::new();
    for m in subscription_migrations() {
        for st in &m.statements {
            assert!(by_hand.apply_statement(st).is_ok());
        }
    }
    assert_eq!(reconciled.tables, by_hand.tables);
    assert_eq!(by_hand.applied.len(), 0);
    assert_eq!(reconciled.applied, vec![1u64, 2u64]);
}

#[test]
fn reconcile_twice_changes_nothing() {
    let mut db = Database::new();
    let records = subscription_migrations();
    assert!(db.reconcile(&records).is_ok());
    let snapshot = db.duplicate();
    assert!(db.reconcile(&records).is_ok());
    assert_eq!(db, snapshot);
}

#[test]
fn incremental_list_applies_only_the_new_change_set() {
    let mut db = Database::new();
    let prefix = vec![migration_create_subscriptions()];
    assert!(db.reconcile(&prefix).is_ok());
    assert_eq!(db.applied, vec![1u64]);
    assert_eq!(db.tables[0].def.columns.len(), 18);

    let full = vec![migration_create_subscriptions(), migration_add_sort_order()];
    assert!(db.reconcile(&full).is_ok());
    assert_eq!(db.applied, vec![1u64, 2u64]);
    assert_eq!(db.tables[0].def.columns.len(), 19);
}

#[test]
fn out_of_order_list_is_refused_before_anything_runs() {
    let mut db = Database::new();
    let records = vec![migration_add_sort_order(), migration_create_subscriptions()];
    assert_eq!(db.reconcile(&records), Err(MigrationError::Configuration));
    assert_eq!(db.tables.len(), 0);
    assert_eq!(db.applied.len(), 0);
}

#[test]
fn duplicate_version_list_is_refused_before_anything_runs() {
    let mut db = Database::new();
    let records = vec![
        record(3, vec![create_table("ledger_a", false)]),
        record(3, vec![create_table("ledger_b", false)]),
    ];
    assert_eq!(db.reconcile(&records), Err(MigrationError::Configuration));
    assert_eq!(db.tables.len(), 0);
    assert_eq!(db.applied.len(), 0);
}

#[test]
fn zero_version_is_refused() {
    let mut db = Database::new();
    let records = vec![record(0, vec![create_table("ledger", false)])];
    assert_eq!(db.reconcile(&records), Err(MigrationError::Configuration));
    assert_eq!(db.applied.len(), 0);
}

#[test]
fn check_list_accepts_the_catalog() {
    assert!(check_list(&subscription_migrations()));
    assert!(!check_list(&vec![
        migration_add_sort_order(),
        migration_create_subscriptions(),
    ]));
}

#[test]
fn failing_change_set_keeps_the_applied_prefix() {
    let mut db = Database::new();
    let bad = Statement::AddColumn { table: "missing".to_string(), column: plain_column("x") };
    let records = vec![migration_create_subscriptions(), record(9, vec![bad])];
    let result = db.reconcile(&records);
    assert_eq!(
        result,
        Err(MigrationError::Storage {
            version: 9,
            error: StatementError::NoSuchTable("missing".to_string()),
        }),
    );
    assert_eq!(db.applied, vec![1u64]);
    assert_eq!(db.tables.len(), 1);
}

#[test]
fn creating_an_existing_table_fails_without_if_not_exists() {
    let mut db = Database::new();
    let records = vec![
        record(1, vec![create_table("ledger", false)]),
        record(2, vec![create_table("ledger", false)]),
    ];
    let result = db.reconcile(&records);
    assert_eq!(
        result,
        Err(MigrationError::Storage {
            version: 2,
            error: StatementError::TableExists("ledger".to_string()),
        }),
    );
    assert_eq!(db.applied, vec![1u64]);
}

#[test]
fn tolerant_create_skips_an_existing_table() {
    let mut db = Database::new();
    let records = vec![
        record(1, vec![create_table("ledger", false)]),
        record(2, vec![create_table("ledger", true)]),
    ];
    assert!(db.reconcile(&records).is_ok());
    assert_eq!(db.applied, vec![1u64, 2u64]);
    assert_eq!(db.tables.len(), 1);
}

#[test]
fn adding_an_existing_column_fails() {
    let mut db = Database::new();
    let again = Statement::AddColumn {
        table: "subscriptions".to_string(),
        column: plain_column("sort_order"),
    };
    let records = vec![
        migration_create_subscriptions(),
        migration_add_sort_order(),
        record(3, vec![again]),
    ];
    let result = db.reconcile(&records);
    assert_eq!(
        result,
        Err(MigrationError::Storage {
            version: 3,
            error: StatementError::DuplicateColumn("sort_order".to_string()),
        }),
    );
    assert_eq!(db.applied, vec![1u64, 2u64]);
    assert_eq!(db.tables[0].def.columns.len(), 19);
}

#[test]
fn failing_script_rolls_back_its_whole_change_set() {
    let mut db = Database::new();
    let bad = Statement::AddColumn { table: "missing".to_string(), column: plain_column("x") };
    let records = vec![record(1, vec![create_table("ledger", false), bad])];
    let result = db.reconcile(&records);
    assert_eq!(
        result,
        Err(MigrationError::Storage {
            version: 1,
            error: StatementError::NoSuchTable("missing".to_string()),
        }),
    );
    assert_eq!(db.tables.len(), 0);
    assert_eq!(db.applied.len(), 0);
}

#[test]
fn added_column_backfills_existing_rows_with_its_default() {
    let mut db = Database::new();
    let prefix = vec![migration_create_subscriptions()];
    assert!(db.reconcile(&prefix).is_ok());
    let assigns = vec![
        Assignment { column: "id".to_string(), value: Value::Text("s-1".to_string()) },
        Assignment { column: "name".to_string(), value: Value::Text("Gym".to_string()) },
        Assignment { column: "type".to_string(), value: Value::Text("bill".to_string()) },
        Assignment { column: "category".to_string(), value: Value::Text("health".to_string()) },
        Assignment { column: "frequency".to_string(), value: Value::Text("monthly".to_string()) },
    ];
    let now = "2024-01-01 00:00:00".to_string();
    assert!(db.insert_row(&"subscriptions".to_string(), &assigns, &now).is_ok());

    let full = vec![migration_create_subscriptions(), migration_add_sort_order()];
    assert!(db.reconcile(&full).is_ok());
    assert_eq!(db.tables[0].rows[0].cells.len(), 19);
    assert_eq!(db.tables[0].rows[0].cells[18], Value::Integer(0));
}
