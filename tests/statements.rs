use libsql_crud::field_map::{FieldMap, Payload};
use libsql_crud::query_params::{Operation, QueryParams};
use libsql_crud::statement::{
    build_condition_string, build_update_string, construct_statement, Statement,
};
use libsql_crud::table::Table;
use libsql_crud::transaction::TransactionSlot;
use libsql_crud::value::{json_to_sql_value, ClientError, FieldValue, SqlParam};

fn map_of(entries: Vec<(&str, FieldValue)>) -> FieldMap {
    let mut m = FieldMap::new();
    for (k, v) in entries {
        m.insert(k.to_string(), v);
    }
    m
}

fn object(entries: Vec<(&str, FieldValue)>) -> Payload {
    Payload::Object(map_of(entries))
}

fn text(s: &str) -> FieldValue {
    FieldValue::Text(s.to_string())
}

fn ok(r: Result<Statement, ClientError>) -> (String, Vec<SqlParam>) {
    let s = r.expect("statement");
    (s.text, s.parameters)
}

#[test]
fn select_without_conditions() {
    let users = Table::new("users");
    let (sql, params) = ok(users.select(Payload::Null));
    assert_eq!(sql, "SELECT * FROM users");
    assert!(params.is_empty());
}

#[test]
fn select_with_empty_object_has_no_where() {
    let users = Table::new("users");
    let (sql, params) = ok(users.select(object(vec![])));
    assert_eq!(sql, "SELECT * FROM users");
    assert!(params.is_empty());
}

#[test]
fn select_by_id() {
    let users = Table::new("users");
    let (sql, params) = ok(users.select(object(vec![("id", FieldValue::Integer(5))])));
    assert_eq!(sql, "SELECT * FROM users WHERE id = ?;");
    assert_eq!(params, vec![SqlParam::Integer(5)]);
}

#[test]
fn select_with_two_conditions_joins_with_and() {
    let users = Table::new("users");
    let (sql, params) = ok(users.select(object(vec![
        ("name", text("Bob")),
        ("active", FieldValue::Boolean(true)),
    ])));
    assert_eq!(sql, "SELECT * FROM users WHERE name = ? AND active = ?;");
    assert_eq!(
        params,
        vec![SqlParam::Text("Bob".to_string()), SqlParam::Boolean(true)]
    );
}

#[test]
fn insert_keeps_data_order() {
    let users = Table::new("users");
    let (sql, params) = ok(users.insert(object(vec![
        ("name", text("Alice")),
        ("age", FieldValue::Integer(30)),
    ])));
    assert_eq!(
        sql,
        "INSERT INTO users (name, age) VALUES (?, ?) RETURNING *;"
    );
    assert_eq!(
        params,
        vec![SqlParam::Text("Alice".to_string()), SqlParam::Integer(30)]
    );
}

#[test]
fn insert_binds_null_values() {
    let users = Table::new("users");
    let (sql, params) = ok(users.insert(object(vec![("email", FieldValue::Null)])));
    assert_eq!(sql, "INSERT INTO users (email) VALUES (?) RETURNING *;");
    assert_eq!(params, vec![SqlParam::Null]);
}

#[test]
fn update_drops_null_fields() {
    let users = Table::new("users");
    let (sql, params) = ok(users.update(
        object(vec![("id", FieldValue::Integer(5))]),
        object(vec![("age", FieldValue::Integer(31)), ("email", FieldValue::Null)]),
    ));
    assert_eq!(sql, "UPDATE users SET age = ? WHERE id = ?;");
    assert_eq!(params, vec![SqlParam::Integer(31), SqlParam::Integer(5)]);
}

#[test]
fn delete_by_id() {
    let users = Table::new("users");
    let (sql, params) = ok(users.delete(object(vec![("id", FieldValue::Integer(5))])));
    assert_eq!(sql, "DELETE FROM users WHERE id = ?;");
    assert_eq!(params, vec![SqlParam::Integer(5)]);
}

#[test]
fn construct_statement_matches_table_methods() {
    let r = construct_statement(QueryParams {
        table_name: "users".to_string(),
        operation: Operation::Delete,
        conditions: object(vec![("id", FieldValue::Integer(5))]),
        data: Payload::Null,
    });
    let (sql, params) = ok(r);
    assert_eq!(sql, "DELETE FROM users WHERE id = ?;");
    assert_eq!(params, vec![SqlParam::Integer(5)]);
}

#[test]
fn malformed_requests() {
    let users = Table::new("users");
    let e = Err(ClientError::MalformedRequest);
    assert_eq!(users.select(Payload::Other), e);
    assert_eq!(users.insert(Payload::Null), e);
    assert_eq!(users.insert(object(vec![])), e);
    assert_eq!(users.insert(Payload::Other), e);
    assert_eq!(users.delete(Payload::Null), e);
    assert_eq!(users.delete(object(vec![])), e);
    let id = object(vec![("id", FieldValue::Integer(5))]);
    assert_eq!(users.update(Payload::Null, object(vec![("a", FieldValue::Integer(1))])), e);
    assert_eq!(users.update(object(vec![]), object(vec![("a", FieldValue::Integer(1))])), e);
    assert_eq!(users.update(id.clone(), object(vec![])), e);
    assert_eq!(users.update(id, object(vec![("a", FieldValue::Null)])), e);
}

#[test]
fn composite_values_are_unsupported() {
    let users = Table::new("users");
    let e = Err(ClientError::UnsupportedValueKind);
    assert_eq!(users.select(object(vec![("tags", FieldValue::Array)])), e);
    assert_eq!(
        users.insert(object(vec![("name", text("A")), ("meta", FieldValue::Object)])),
        e
    );
    assert_eq!(
        users.update(
            object(vec![("id", FieldValue::Integer(1))]),
            object(vec![("meta", FieldValue::Object)])
        ),
        e
    );
    assert_eq!(
        users.update(
            object(vec![("id", FieldValue::Array)]),
            object(vec![("age", FieldValue::Integer(2))])
        ),
        e
    );
    assert_eq!(users.delete(object(vec![("id", FieldValue::Array)])), e);
    assert_eq!(json_to_sql_value(&FieldValue::Array), Err(ClientError::UnsupportedValueKind));
    assert_eq!(json_to_sql_value(&FieldValue::Object), Err(ClientError::UnsupportedValueKind));
}

#[test]
fn coercion_of_scalars() {
    assert_eq!(json_to_sql_value(&FieldValue::Null), Ok(SqlParam::Null));
    assert_eq!(json_to_sql_value(&FieldValue::Boolean(false)), Ok(SqlParam::Boolean(false)));
    assert_eq!(
        json_to_sql_value(&FieldValue::Integer(i64::MIN)),
        Ok(SqlParam::Integer(i64::MIN))
    );
    assert_eq!(json_to_sql_value(&text("x")), Ok(SqlParam::Text("x".to_string())));
    let n = serde_json::Number::from_f64(2.5).unwrap();
    assert_eq!(json_to_sql_value(&FieldValue::Real(n.clone())), Ok(SqlParam::Real(n)));
}

#[test]
fn numbers_split_into_integers_and_reals() {
    assert_eq!(
        FieldValue::from_number(serde_json::Number::from(30i64)),
        FieldValue::Integer(30)
    );
    assert_eq!(
        FieldValue::from_number(serde_json::Number::from(-7i64)),
        FieldValue::Integer(-7)
    );
    let big = serde_json::Number::from(u64::MAX);
    assert_eq!(FieldValue::from_number(big.clone()), FieldValue::Real(big));
    let half = serde_json::Number::from_f64(0.5).unwrap();
    assert_eq!(FieldValue::from_number(half.clone()), FieldValue::Real(half));
}

#[test]
fn clause_builders() {
    let m = map_of(vec![("a", FieldValue::Integer(1)), ("b", FieldValue::Null)]);
    let (w, wp) = build_condition_string(&m).unwrap();
    assert_eq!(w, " WHERE a = ? AND b = ?;");
    assert_eq!(wp, vec![SqlParam::Integer(1), SqlParam::Null]);
    let (u, up) = build_update_string(&m).unwrap();
    assert_eq!(u, "a = ?");
    assert_eq!(up, vec![SqlParam::Integer(1)]);
    let (e, ep) = build_condition_string(&FieldMap::new()).unwrap();
    assert_eq!(e, "");
    assert!(ep.is_empty());
}

#[test]
fn placeholders_match_parameters() {
    let m = map_of(vec![
        ("a", FieldValue::Integer(1)),
        ("b", text("two")),
        ("c", FieldValue::Boolean(true)),
    ]);
    let users = Table::new("t");
    let (sql, params) = ok(users.insert(Payload::Object(m.clone())));
    assert_eq!(sql.matches('?').count(), 3);
    assert_eq!(params.len(), 3);
    let (sql, params) = ok(users.select(Payload::Object(m)));
    assert_eq!(sql.matches('?').count(), 3);
    assert_eq!(
        params,
        vec![
            SqlParam::Integer(1),
            SqlParam::Text("two".to_string()),
            SqlParam::Boolean(true)
        ]
    );
}

#[test]
fn field_map_insert_replaces_in_place() {
    let mut m = FieldMap::new();
    assert!(m.is_empty());
    m.insert("a".to_string(), FieldValue::Integer(1));
    m.insert("b".to_string(), FieldValue::Integer(2));
    m.insert("a".to_string(), FieldValue::Integer(3));
    assert_eq!(m.len(), 2);
    assert_eq!(m.key_at(0), "a");
    assert_eq!(m.value_at(0), &FieldValue::Integer(3));
    assert_eq!(m.key_at(1), "b");
}

#[test]
fn second_transaction_conflicts() {
    let mut slot: TransactionSlot<u32> = TransactionSlot::new();
    assert!(!slot.is_active());
    assert_eq!(slot.check_begin(), Ok(()));
    assert_eq!(slot.begin(1), Ok(()));
    assert_eq!(slot.check_begin(), Err(ClientError::TransactionConflict));
    assert_eq!(slot.begin(2), Err(ClientError::TransactionConflict));
    assert_eq!(slot.current(), Some(&1));
    assert_eq!(slot.take(), Some(1));
    assert!(!slot.is_active());
    assert_eq!(slot.take(), None);
}
