//! Table shapes and the change-set statements that evolve them.

use vstd::prelude::*;

use crate::value::DefaultExpr;
use crate::value::DefaultModel;
use crate::value::Value;
use crate::value::ValueModel;

verus! {

/// Declared storage class of a column.
#[derive(PartialEq, Eq, Structural, Clone, Copy, Debug)]
pub enum ColType {
    Text,
    Integer,
    Real,
}

/// One column of a table: its name, storage class, nullability, key role,
/// default expression, and an optional closed set of admissible text values
/// (a membership check constraint).
#[derive(PartialEq, Eq, Debug)]
pub struct ColumnDef {
    pub name: String,
    pub col_type: ColType,
    pub not_null: bool,
    pub primary_key: bool,
    pub default: Option<DefaultExpr>,
    pub allowed: Option<Vec<String>>,
}

/// Mathematical counterpart of [`ColumnDef`].
#[verifier::ext_equal]
pub struct ColumnModel {
    pub name: Seq<char>,
    pub col_type: ColType,
    pub not_null: bool,
    pub primary_key: bool,
    pub default: Option<DefaultModel>,
    pub allowed: Option<Seq<Seq<char>>>,
}

impl View for ColumnDef {
    type V = ColumnModel;

    open spec fn view(&self) -> ColumnModel {
        ColumnModel {
            name: self.name@,
            col_type: self.col_type,
            not_null: self.not_null,
            primary_key: self.primary_key,
            default: self.default.deep_view(),
            allowed: self.allowed.deep_view(),
        }
    }
}

impl DeepView for ColumnDef {
    type V = ColumnModel;

    open spec fn deep_view(&self) -> ColumnModel {
        self.view()
    }
}

/// The declared shape of one table.
#[derive(PartialEq, Eq, Debug)]
pub struct TableDef {
    pub name: String,
    pub columns: Vec<ColumnDef>,
}

/// Mathematical counterpart of [`TableDef`].
#[verifier::ext_equal]
pub struct TableDefModel {
    pub name: Seq<char>,
    pub columns: Seq<ColumnModel>,
}

impl View for TableDef {
    type V = TableDefModel;

    open spec fn view(&self) -> TableDefModel {
        TableDefModel { name: self.name@, columns: self.columns.deep_view() }
    }
}

impl DeepView for TableDef {
    type V = TableDefModel;

    open spec fn deep_view(&self) -> TableDefModel {
        self.view()
    }
}

/// One schema-changing statement of a change-set.
#[derive(PartialEq, Eq, Debug)]
pub enum Statement {
    /// Create a table, optionally tolerating one that already exists.
    CreateTable { if_not_exists: bool, def: TableDef },
    /// Add one column to an existing table.
    AddColumn { table: String, column: ColumnDef },
}

/// Mathematical counterpart of [`Statement`].
#[verifier::ext_equal]
pub enum StatementModel {
    CreateTable { if_not_exists: bool, def: TableDefModel },
    AddColumn { table: Seq<char>, column: ColumnModel },
}

impl View for Statement {
    type V = StatementModel;

    open spec fn view(&self) -> StatementModel {
        match self {
            Statement::CreateTable { if_not_exists, def } => StatementModel::CreateTable {
                if_not_exists: *if_not_exists,
                def: def@,
            },
            Statement::AddColumn { table, column } => StatementModel::AddColumn {
                table: table@,
                column: column@,
            },
        }
    }
}

impl DeepView for Statement {
    type V = StatementModel;

    open spec fn deep_view(&self) -> StatementModel {
        self.view()
    }
}

/// Index of the first column named `name` at or after position `i`, or `-1`.
pub open spec fn col_index(cols: Seq<ColumnModel>, name: Seq<char>, i: int) -> int
    decreases cols.len() - i,
{
    if i < 0 || i >= cols.len() {
        -1
    } else if cols[i].name == name {
        i
    } else {
        col_index(cols, name, i + 1)
    }
}

/// An independent copy of a string vector, element for element.
pub fn copy_strings(v: &Vec<String>) -> (r: Vec<String>)
    ensures
        r.deep_view() == v.deep_view(),
{
    let mut r: Vec<String> = Vec::new();
    let mut i: usize = 0;
    while i < v.len()
        invariant
            i <= v.len(),
            r@.len() == i,
            forall|k: int| 0 <= k < i ==> r@[k]@ == v@[k]@,
        decreases v.len() - i,
    {
        r.push(v[i].clone());
        i += 1;
    }
    proof {
        assert(r.deep_view() =~= v.deep_view());
    }
    r
}

impl ColumnDef {
    /// An independent copy with the same model.
    pub fn duplicate(&self) -> (r: ColumnDef)
        ensures
            r@ == self@,
    {
        let default = match &self.default {
            Some(d) => Some(d.duplicate()),
            None => None,
        };
        let allowed = match &self.allowed {
            Some(vs) => Some(copy_strings(vs)),
            None => None,
        };
        ColumnDef {
            name: self.name.clone(),
            col_type: self.col_type,
            not_null: self.not_null,
            primary_key: self.primary_key,
            default,
            allowed,
        }
    }
}

/// An independent copy of a column vector, element for element.
pub fn copy_columns(v: &Vec<ColumnDef>) -> (r: Vec<ColumnDef>)
    ensures
        r.deep_view() == v.deep_view(),
{
    let mut r: Vec<ColumnDef> = Vec::new();
    let mut i: usize = 0;
    while i < v.len()
        invariant
            i <= v.len(),
            r@.len() == i,
            forall|k: int| 0 <= k < i ==> r@[k]@ == v@[k]@,
        decreases v.len() - i,
    {
        r.push(v[i].duplicate());
        i += 1;
    }
    proof {
        assert(r.deep_view() =~= v.deep_view());
    }
    r
}

impl TableDef {
    /// An independent copy with the same model.
    pub fn duplicate(&self) -> (r: TableDef)
        ensures
            r@ == self@,
    {
        TableDef { name: self.name.clone(), columns: copy_columns(&self.columns) }
    }

    /// Index of the first column with the given name, if any.
    pub fn find_column(&self, name: &String) -> (r: Option<usize>)
        ensures
            match r {
                Some(j) => j < self.columns.len() && col_index(self@.columns, name@, 0) == j as int,
                None => col_index(self@.columns, name@, 0) == -1,
            },
    {
        let mut i: usize = 0;
        while i < self.columns.len()
            invariant
                i <= self.columns.len(),
                col_index(self@.columns, name@, 0) == col_index(self@.columns, name@, i as int),
            decreases self.columns.len() - i,
        {
            if self.columns[i].name == *name {
                return Some(i);
            }
            i += 1;
        }
        None
    }
}

impl Statement {
    /// An independent copy with the same model.
    pub fn duplicate(&self) -> (r: Statement)
        ensures
            r@ == self@,
    {
        match self {
            Statement::CreateTable { if_not_exists, def } => Statement::CreateTable {
                if_not_exists: *if_not_exists,
                def: def.duplicate(),
            },
            Statement::AddColumn { table, column } => Statement::AddColumn {
                table: table.clone(),
                column: column.duplicate(),
            },
        }
    }
}

/// An independent copy of a statement vector, element for element.
pub fn copy_statements(v: &Vec<Statement>) -> (r: Vec<Statement>)
    ensures
        r.deep_view() == v.deep_view(),
{
    let mut r: Vec<Statement> = Vec::new();
    let mut i: usize = 0;
    while i < v.len()
        invariant
            i <= v.len(),
            r@.len() == i,
            forall|k: int| 0 <= k < i ==> r@[k]@ == v@[k]@,
        decreases v.len() - i,
    {
        r.push(v[i].duplicate());
        i += 1;
    }
    proof {
        assert(r.deep_view() =~= v.deep_view());
    }
    r
}

} // verus!
