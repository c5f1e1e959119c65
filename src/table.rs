use vstd::prelude::*;
use crate::field_map::Payload;
use crate::query_params::{Operation, QueryParams};
use crate::statement::{construct_statement, statement_of, view_statement, Statement};
use crate::value::ClientError;

verus! {

/// A named table, for which the basic statements are built.
#[derive(Debug, Clone, PartialEq)]
pub struct Table {
    pub table_name: String,
}

impl Table {
    pub fn new(table_name: &str) -> (r: Table)
        ensures
            r.table_name@ == table_name@,
    {
        Table { table_name: table_name.to_owned() }
    }

    /// The rows that match every condition; all rows for null or `{}`.
    pub fn select(&self, conditions: Payload) -> (r: Result<Statement, ClientError>)
        ensures
            view_statement(r) == statement_of(
                self.table_name@,
                Operation::Select,
                conditions,
                Payload::Null,
            ),
    {
        construct_statement(
            QueryParams {
                table_name: self.table_name.clone(),
                operation: Operation::Select,
                conditions,
                data: Payload::Null,
            },
        )
    }

    /// Inserts one row from `data` and returns it.
    pub fn insert(&self, data: Payload) -> (r: Result<Statement, ClientError>)
        ensures
            view_statement(r) == statement_of(
                self.table_name@,
                Operation::Insert,
                Payload::Null,
                data,
            ),
    {
        construct_statement(
            QueryParams {
                table_name: self.table_name.clone(),
                operation: Operation::Insert,
                conditions: Payload::Null,
                data,
            },
        )
    }

    /// Sets the non-null fields of `data` on the rows that match `conditions`.
    pub fn update(&self, conditions: Payload, data: Payload) -> (r: Result<Statement, ClientError>)
        ensures
            view_statement(r) == statement_of(
                self.table_name@,
                Operation::Update,
                conditions,
                data,
            ),
    {
        construct_statement(
            QueryParams {
                table_name: self.table_name.clone(),
                operation: Operation::Update,
                conditions,
                data,
            },
        )
    }

    /// Deletes the rows that match `conditions`.
    pub fn delete(&self, conditions: Payload) -> (r: Result<Statement, ClientError>)
        ensures
            view_statement(r) == statement_of(
                self.table_name@,
                Operation::Delete,
                conditions,
                Payload::Null,
            ),
    {
        construct_statement(
            QueryParams {
                table_name: self.table_name.clone(),
                operation: Operation::Delete,
                conditions,
                data: Payload::Null,
            },
        )
    }
}

} // verus!
