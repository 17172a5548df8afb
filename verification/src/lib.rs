//! A bridge between YAML and SQLite: YAML records go into a table as rows,
//! and a row comes out as a YAML record.
pub mod database;
pub mod insert;
pub mod laws;
pub mod select;
pub mod sqlite;
pub mod statement;
pub mod update;
pub mod yaml;

mod db;

pub use insert::{insert, insert_text};
pub use select::{select, select_by_column, select_by_column_excluding, select_excluding, select_text};


use vstd::prelude::*;

verus! {

/// Why an operation on the database failed.
#[derive(Debug)]
pub enum YaqliteError {
    /// SQLite refused a statement or a step of a query.
    Sqlite(rusqlite::Error),
    /// The value in the column with this index cannot be read as YAML.
    FromSql(usize, yaml::FromSqlError),
    /// A YAML mapping has no field left that names a column.
    EmptyRecord,
    /// A query returned more rows than a `usize` counts.
    TooManyRows,
    /// The input is not YAML.
    Yaml(yaml_rust::ScanError),
}

/// The error of the library that a YAML error stands for.
pub fn error_from_yaml(e: yaml::YamlError) -> (r: YaqliteError)
    ensures
        match e {
            yaml::YamlError::Sqlite(s) => r == YaqliteError::Sqlite(s),
            yaml::YamlError::EmptyRecord => r == YaqliteError::EmptyRecord,
        },
{
    match e {
        yaml::YamlError::Sqlite(s) => YaqliteError::Sqlite(s),
        yaml::YamlError::EmptyRecord => YaqliteError::EmptyRecord,
    }
}

} // verus!
