//! Conversions between YAML nodes and SQLite values.
use vstd::prelude::*;
use vstd::utf8::{decode_utf8, valid_utf8};

use super::value::{real_is_number, yaml_real_is_number, ScalarView, YamlValue};

verus! {

/// A value handed to SQLite as a statement parameter.
#[derive(Clone, Debug, PartialEq)]
pub enum SqlValue {
    /// SQL `NULL`.
    Null,
    /// A 64-bit integer.
    Integer(i64),
    /// A floating-point number, given by YAML float text that YAML reads as a
    /// number.
    Real(String),
    /// UTF-8 text.
    Text(String),
}

/// A value read from a result column.
#[derive(Clone, Debug, PartialEq)]
pub enum SqlValueRef {
    /// SQL `NULL`.
    Null,
    /// A 64-bit integer.
    Integer(i64),
    /// A floating-point number, written as Rust writes an `f64`.
    Real(String),
    /// The bytes of a text value.
    Text(Vec<u8>),
    /// The bytes of a blob.
    Blob(Vec<u8>),
}

/// Why a column value cannot be read as YAML.
#[derive(Clone, Copy, Debug, PartialEq, Eq)]
pub enum FromSqlError {
    /// The column holds a blob.
    InvalidType,
    /// The column holds text that is not UTF-8.
    InvalidUtf8,
}

/// The SQL value that a YAML node is written as: numbers, strings and
/// booleans as themselves (a boolean as 0 or 1), a float text that YAML does
/// not read as a number, and every other node, as `NULL`.
pub open spec fn to_sql_value(v: YamlValue) -> SqlValue {
    match v {
        YamlValue::Real(t) => if yaml_real_is_number(t@) {
            SqlValue::Real(t)
        } else {
            SqlValue::Null
        },
        YamlValue::Integer(i) => SqlValue::Integer(i),
        YamlValue::Str(s) => SqlValue::Text(s),
        YamlValue::Boolean(b) => SqlValue::Integer(if b { 1 } else { 0 }),
        _ => SqlValue::Null,
    }
}

/// The YAML scalar that a column value is read as, or why it cannot be.
pub open spec fn column_result_view(v: SqlValueRef) -> Result<ScalarView, FromSqlError> {
    match v {
        SqlValueRef::Null => Ok(ScalarView::Null),
        SqlValueRef::Integer(i) => Ok(ScalarView::Integer(i)),
        SqlValueRef::Real(t) => Ok(ScalarView::Real(t@)),
        SqlValueRef::Text(b) => if valid_utf8(b@) {
            Ok(ScalarView::Str(decode_utf8(b@)))
        } else {
            Err(FromSqlError::InvalidUtf8)
        },
        SqlValueRef::Blob(_) => Err(FromSqlError::InvalidType),
    }
}

/// The outcome of reading a column, by the scalar view of the node read.
pub open spec fn read_view(r: Result<Yaml, FromSqlError>) -> Result<ScalarView, FromSqlError> {
    match r {
        Ok(y) => Ok(y.0.scalar_view()),
        Err(e) => Err(e),
    }
}

/// Calls `String::from_utf8`.
///
/// Claims what its documentation says: the bytes give a string exactly when
/// they are UTF-8, and then the string is their decoding.
#[verifier::external_body]
fn string_from_utf8(bytes: Vec<u8>) -> (r: Option<String>)
    ensures
        r is Some <==> valid_utf8(bytes@),
        r matches Some(s) ==> s@ == decode_utf8(bytes@),
{
    String::from_utf8(bytes).ok()
}

/// The SQL value that `value` is written as.
pub fn value_to_sql(value: &YamlValue) -> (r: SqlValue)
    ensures
        r == to_sql_value(*value),
{
    match value {
        YamlValue::Real(t) => {
            if real_is_number(t) {
                SqlValue::Real(t.clone())
            } else {
                SqlValue::Null
            }
        },
        YamlValue::Integer(i) => SqlValue::Integer(*i),
        YamlValue::Str(s) => SqlValue::Text(s.clone()),
        YamlValue::Boolean(b) => SqlValue::Integer(if *b { 1 } else { 0 }),
        _ => SqlValue::Null,
    }
}

/// A YAML node as a value that SQLite can store and return.
#[derive(Debug)]
pub struct Yaml(pub YamlValue);

impl Yaml {
    /// Extracts the wrapped node.
    pub fn into_inner(self) -> (r: YamlValue)
        ensures
            r == self.0,
    {
        self.0
    }

    /// The SQL value that the node is written as.
    pub fn to_sql(&self) -> (r: SqlValue)
        ensures
            r == to_sql_value(self.0),
    {
        value_to_sql(&self.0)
    }

    /// Reads a column value as a YAML scalar: numbers as themselves, text as
    /// a string, `NULL` as null; a blob or text that is not UTF-8 is refused.
    pub fn column_result(value: SqlValueRef) -> (r: Result<Yaml, FromSqlError>)
        ensures
            read_view(r) == column_result_view(value),
            r matches Ok(y) ==> y.0.is_scalar(),
    {
        match value {
            SqlValueRef::Null => Ok(Yaml(YamlValue::Null)),
            SqlValueRef::Integer(i) => Ok(Yaml(YamlValue::Integer(i))),
            SqlValueRef::Real(t) => Ok(Yaml(YamlValue::Real(t))),
            SqlValueRef::Text(bytes) => match string_from_utf8(bytes) {
                Some(s) => Ok(Yaml(YamlValue::Str(s))),
                None => Err(FromSqlError::InvalidUtf8),
            },
            SqlValueRef::Blob(_) => Err(FromSqlError::InvalidType),
        }
    }
}

} // verus!
