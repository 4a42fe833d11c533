//! A small in-memory table made of typed columns.
//!
//! A [`Table`] owns a fixed [`Schema`] and one sequence of cells per column.
//! Rows are written with [`Table::save_data`], which stores a [`Row`] only
//! when every value has the declared type of its column and no value would
//! be a duplicate entry, and which leaves the table untouched otherwise.
//!
//! Each type has a mathematical view ([`model::TableView`] for the table),
//! the contracts are stated over those views, and the module [`laws`] holds
//! what follows from them for every table and every row.

pub mod error;
pub mod laws;
pub mod model;
pub mod names;
pub mod row;
pub mod schema;
pub mod table;
pub mod value;

pub use crate::error::{DatabaseError, DbError};
pub use crate::row::Row;
pub use crate::schema::Schema;
pub use crate::table::Table;
pub use crate::value::{default_value_column_type, ColumnType, DataType};
