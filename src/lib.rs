//! Parameterized SQL statement construction over JSON-shaped field maps,
//! with a single-transaction slot for a database connection.
pub mod value;
pub mod field_map;
pub mod query_params;
pub mod statement;
pub mod table;
pub mod transaction;
