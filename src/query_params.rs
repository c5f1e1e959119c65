use vstd::prelude::*;
use crate::field_map::Payload;

verus! {

/// The kind of SQL statement to build.
#[derive(Debug, Clone, Copy, PartialEq, Eq, Structural)]
pub enum Operation {
    Select,
    Insert,
    Update,
    Delete,
}

/// Everything needed to build one SQL statement.
#[derive(Debug, Clone, PartialEq)]
pub struct QueryParams {
    pub table_name: String,
    pub operation: Operation,
    /// Equality conditions of the WHERE clause (Select, Update, Delete).
    pub conditions: Payload,
    /// Column values (Insert) or assignments (Update).
    pub data: Payload,
}

} // verus!
