//! The built-in change-set catalog: the versioned schema of the
//! `subscriptions` table, exactly as the application ships it.

use vstd::prelude::*;

use crate::migrate::list_well_formed;
use crate::migrate::Migration;
use crate::migrate::MigrationKind;
use crate::migrate::MigrationModel;
use crate::schema::ColType;
use crate::schema::ColumnDef;
use crate::schema::ColumnModel;
use crate::schema::Statement;
use crate::schema::StatementModel;
use crate::schema::TableDef;
use crate::schema::TableDefModel;
use crate::value::DefaultExpr;
use crate::value::DefaultModel;
use crate::value::Value;
use crate::value::ValueModel;

verus! {

/// Name of the one domain table.
pub open spec fn subscriptions_table_name() -> Seq<char> {
    "subscriptions"@
}

/// A column model, written compactly.
pub open spec fn colm(
    name: Seq<char>,
    col_type: ColType,
    not_null: bool,
    primary_key: bool,
    default: Option<DefaultModel>,
    allowed: Option<Seq<Seq<char>>>,
) -> ColumnModel {
    ColumnModel { name, col_type, not_null, primary_key, default, allowed }
}

/// The closed set of admissible `type` values.
pub open spec fn admissible_types() -> Seq<Seq<char>> {
    seq!["subscription"@, "credit_card"@, "bill"@, "other"@]
}

/// The closed set of admissible `frequency` values.
pub open spec fn admissible_frequencies() -> Seq<Seq<char>> {
    seq!["monthly"@, "weekly"@, "yearly"@, "custom"@]
}

/// The columns the first change-set creates the table with.
pub open spec fn subscriptions_columns() -> Seq<ColumnModel> {
    seq![
        colm("id"@, ColType::Text, true, true, None, None),
        colm("name"@, ColType::Text, true, false, None, None),
        colm("type"@, ColType::Text, true, false, None, Some(admissible_types())),
        colm("category"@, ColType::Text, true, false, None, None),
        colm("frequency"@, ColType::Text, true, false, None, Some(admissible_frequencies())),
        colm("day_of_month"@, ColType::Integer, false, false, None, None),
        colm("amount"@, ColType::Real, false, false, None, None),
        colm(
            "currency"@,
            ColType::Text,
            false,
            false,
            Some(DefaultModel::Literal(ValueModel::Text("TRY"@))),
            None,
        ),
        colm("payment_method"@, ColType::Text, false, false, None, None),
        colm(
            "reminders"@,
            ColType::Text,
            false,
            false,
            Some(DefaultModel::Literal(ValueModel::Text("[]"@))),
            None,
        ),
        colm(
            "is_active"@,
            ColType::Integer,
            false,
            false,
            Some(DefaultModel::Literal(ValueModel::Integer(1))),
            None,
        ),
        colm("notes"@, ColType::Text, false, false, None, None),
        colm("statement_day"@, ColType::Integer, false, false, None, None),
        colm("due_day"@, ColType::Integer, false, false, None, None),
        colm("start_date"@, ColType::Text, false, false, None, None),
        colm("end_date"@, ColType::Text, false, false, None, None),
        colm("created_at"@, ColType::Text, false, false, Some(DefaultModel::Now), None),
        colm("updated_at"@, ColType::Text, false, false, Some(DefaultModel::Now), None),
    ]
}

/// The column the second change-set adds.
pub open spec fn sort_order_column() -> ColumnModel {
    colm(
        "sort_order"@,
        ColType::Integer,
        false,
        false,
        Some(DefaultModel::Literal(ValueModel::Integer(0))),
        None,
    )
}

/// The first change-set: create the `subscriptions` table.
pub open spec fn first_migration() -> MigrationModel {
    MigrationModel {
        version: 1,
        description: "Create subscriptions table"@,
        kind: MigrationKind::Up,
        statements: seq![
            StatementModel::CreateTable {
                if_not_exists: true,
                def: TableDefModel {
                    name: subscriptions_table_name(),
                    columns: subscriptions_columns(),
                },
            },
        ],
    }
}

/// The second change-set: add the `sort_order` column.
pub open spec fn second_migration() -> MigrationModel {
    MigrationModel {
        version: 2,
        description: "Add sort_order column"@,
        kind: MigrationKind::Up,
        statements: seq![
            StatementModel::AddColumn {
                table: subscriptions_table_name(),
                column: sort_order_column(),
            },
        ],
    }
}

/// The catalog, in the order it ships.
pub open spec fn catalog_models() -> Seq<MigrationModel> {
    seq![first_migration(), second_migration()]
}

/// The catalog is a usable list: positive, strictly increasing versions.
pub proof fn lemma_catalog_well_formed()
    ensures
        list_well_formed(catalog_models()),
{
    assert(catalog_models().len() == 2);
    assert(catalog_models()[0].version == 1);
    assert(catalog_models()[1].version == 2);
}

/// One column definition.
fn col(
    name: &str,
    col_type: ColType,
    not_null: bool,
    primary_key: bool,
    default: Option<DefaultExpr>,
    allowed: Option<Vec<String>>,
) -> (c: ColumnDef)
    ensures
        c@ == colm(name@, col_type, not_null, primary_key, default.deep_view(), allowed.deep_view()),
{
    ColumnDef { name: name.to_string(), col_type, not_null, primary_key, default, allowed }
}

/// The closed set of admissible `type` values.
fn type_values() -> (r: Vec<String>)
    ensures
        r.deep_view() == admissible_types(),
{
    let mut r: Vec<String> = Vec::new();
    r.push("subscription".to_string());
    r.push("credit_card".to_string());
    r.push("bill".to_string());
    r.push("other".to_string());
    proof {
        assert(r.deep_view() =~= admissible_types());
    }
    r
}

/// The closed set of admissible `frequency` values.
fn frequency_values() -> (r: Vec<String>)
    ensures
        r.deep_view() == admissible_frequencies(),
{
    let mut r: Vec<String> = Vec::new();
    r.push("monthly".to_string());
    r.push("weekly".to_string());
    r.push("yearly".to_string());
    r.push("custom".to_string());
    proof {
        assert(r.deep_view() =~= admissible_frequencies());
    }
    r
}

/// The first change-set as shipped: create the `subscriptions` table with
/// its constraints and defaults.
pub fn migration_create_subscriptions() -> (m: Migration)
    ensures
        m@ == first_migration(),
{
    let mut columns: Vec<ColumnDef> = Vec::new();
    columns.push(col("id", ColType::Text, true, true, None, None));
    columns.push(col("name", ColType::Text, true, false, None, None));
    columns.push(col("type", ColType::Text, true, false, None, Some(type_values())));
    columns.push(col("category", ColType::Text, true, false, None, None));
    columns.push(col("frequency", ColType::Text, true, false, None, Some(frequency_values())));
    columns.push(col("day_of_month", ColType::Integer, false, false, None, None));
    columns.push(col("amount", ColType::Real, false, false, None, None));
    columns.push(
        col(
            "currency",
            ColType::Text,
            false,
            false,
            Some(DefaultExpr::Literal(Value::Text("TRY".to_string()))),
            None,
        ),
    );
    columns.push(col("payment_method", ColType::Text, false, false, None, None));
    columns.push(
        col(
            "reminders",
            ColType::Text,
            false,
            false,
            Some(DefaultExpr::Literal(Value::Text("[]".to_string()))),
            None,
        ),
    );
    columns.push(
        col(
            "is_active",
            ColType::Integer,
            false,
            false,
            Some(DefaultExpr::Literal(Value::Integer(1))),
            None,
        ),
    );
    columns.push(col("notes", ColType::Text, false, false, None, None));
    columns.push(col("statement_day", ColType::Integer, false, false, None, None));
    columns.push(col("due_day", ColType::Integer, false, false, None, None));
    columns.push(col("start_date", ColType::Text, false, false, None, None));
    columns.push(col("end_date", ColType::Text, false, false, None, None));
    columns.push(col("created_at", ColType::Text, false, false, Some(DefaultExpr::Now), None));
    columns.push(col("updated_at", ColType::Text, false, false, Some(DefaultExpr::Now), None));
    proof {
        assert(columns.deep_view() =~~= subscriptions_columns());
    }
    let mut statements: Vec<Statement> = Vec::new();
    statements.push(
        Statement::CreateTable {
            if_not_exists: true,
            def: TableDef { name: "subscriptions".to_string(), columns },
        },
    );
    let m = Migration {
        version: 1,
        description: "Create subscriptions table".to_string(),
        kind: MigrationKind::Up,
        statements,
    };
    proof {
        assert(m@ =~~= first_migration());
    }
    m
}

/// The second change-set as shipped: add the `sort_order` column.
pub fn migration_add_sort_order() -> (m: Migration)
    ensures
        m@ == second_migration(),
{
    let mut statements: Vec<Statement> = Vec::new();
    statements.push(
        Statement::AddColumn {
            table: "subscriptions".to_string(),
            column: col(
                "sort_order",
                ColType::Integer,
                false,
                false,
                Some(DefaultExpr::Literal(Value::Integer(0))),
                None,
            ),
        },
    );
    let m = Migration {
        version: 2,
        description: "Add sort_order column".to_string(),
        kind: MigrationKind::Up,
        statements,
    };
    proof {
        assert(m@ =~~= second_migration());
    }
    m
}

/// The full catalog, in the order it ships; always a well-formed list.
pub fn subscription_migrations() -> (r: Vec<Migration>)
    ensures
        r.deep_view() == catalog_models(),
        list_well_formed(r.deep_view()),
{
    let mut r: Vec<Migration> = Vec::new();
    r.push(migration_create_subscriptions());
    r.push(migration_add_sort_order());
    proof {
        assert(r.deep_view() =~= catalog_models());
        lemma_catalog_well_formed();
    }
    r
}

} // verus!
