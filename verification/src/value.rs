//! Runtime cell values of the embedded store, and their mathematical models.

use vstd::prelude::*;

verus! {

/// A value held in one cell of a table row: absent, an integer, or text.
#[derive(PartialEq, Eq, Debug)]
pub enum Value {
    Null,
    Integer(i64),
    Text(String),
}

/// Mathematical counterpart of [`Value`].
#[verifier::ext_equal]
pub enum ValueModel {
    Null,
    Integer(int),
    Text(Seq<char>),
}

impl View for Value {
    type V = ValueModel;

    open spec fn view(&self) -> ValueModel {
        match self {
            Value::Null => ValueModel::Null,
            Value::Integer(n) => ValueModel::Integer(*n as int),
            Value::Text(s) => ValueModel::Text(s@),
        }
    }
}

impl DeepView for Value {
    type V = ValueModel;

    open spec fn deep_view(&self) -> ValueModel {
        self.view()
    }
}

/// The default expression a column may carry: a literal value, or the
/// timestamp of the moment the row is created.
#[derive(PartialEq, Eq, Debug)]
pub enum DefaultExpr {
    Literal(Value),
    Now,
}

/// Mathematical counterpart of [`DefaultExpr`].
#[verifier::ext_equal]
pub enum DefaultModel {
    Literal(ValueModel),
    Now,
}

impl View for DefaultExpr {
    type V = DefaultModel;

    open spec fn view(&self) -> DefaultModel {
        match self {
            DefaultExpr::Literal(v) => DefaultModel::Literal(v@),
            DefaultExpr::Now => DefaultModel::Now,
        }
    }
}

impl DeepView for DefaultExpr {
    type V = DefaultModel;

    open spec fn deep_view(&self) -> DefaultModel {
        self.view()
    }
}

/// The value a freshly inserted row receives in a column it does not set:
/// the declared default, the current timestamp for a `Now` default, and
/// `Null` when the column declares no default.
pub open spec fn resolve_default(d: Option<DefaultModel>, now: Seq<char>) -> ValueModel {
    match d {
        Some(DefaultModel::Literal(v)) => v,
        Some(DefaultModel::Now) => ValueModel::Text(now),
        None => ValueModel::Null,
    }
}

/// The value existing rows receive when a column is added to their table:
/// only a literal default is backfilled; anything else becomes `Null`.
pub open spec fn backfill_default(d: Option<DefaultModel>) -> ValueModel {
    match d {
        Some(DefaultModel::Literal(v)) => v,
        _ => ValueModel::Null,
    }
}

impl Value {
    /// An independent copy with the same model.
    pub fn duplicate(&self) -> (r: Value)
        ensures
            r@ == self@,
    {
        match self {
            Value::Null => Value::Null,
            Value::Integer(n) => Value::Integer(*n),
            Value::Text(s) => Value::Text(s.clone()),
        }
    }
}

impl DefaultExpr {
    /// An independent copy with the same model.
    pub fn duplicate(&self) -> (r: DefaultExpr)
        ensures
            r@ == self@,
    {
        match self {
            DefaultExpr::Literal(v) => DefaultExpr::Literal(v.duplicate()),
            DefaultExpr::Now => DefaultExpr::Now,
        }
    }
}

/// Whether two values have the same model.
pub fn value_eq(a: &Value, b: &Value) -> (r: bool)
    ensures
        r == (a@ == b@),
{
    match (a, b) {
        (Value::Null, Value::Null) => true,
        (Value::Integer(x), Value::Integer(y)) => *x == *y,
        (Value::Text(x), Value::Text(y)) => *x == *y,
        _ => false,
    }
}

/// The declared default for a newly inserted row, with `now` standing in for
/// the current timestamp.
pub fn resolve_default_value(d: &Option<DefaultExpr>, now: &String) -> (r: Value)
    ensures
        r@ == resolve_default(d.deep_view(), now@),
{
    match d {
        Some(DefaultExpr::Literal(v)) => v.duplicate(),
        Some(DefaultExpr::Now) => Value::Text(now.clone()),
        None => Value::Null,
    }
}

} // verus!
