use vstd::prelude::*;
use vstd::string::*;
use crate::field_map::{FieldMap, Payload};
use crate::query_params::{Operation, QueryParams};
use crate::value::{
    coerce, coerce_all, is_scalar, json_to_sql_value, lemma_coerce_all, ClientError, FieldValue,
    SqlParam,
};

verus! {

/// A parameterized SQL statement: its text and the values bound to its
/// placeholders, in placeholder order.
#[derive(Debug, Clone, PartialEq)]
pub struct Statement {
    pub text: String,
    pub parameters: Vec<SqlParam>,
}

/// `parts` joined with `sep` between each two neighbours.
pub open spec fn join(parts: Seq<Seq<char>>, sep: Seq<char>) -> Seq<char>
    decreases parts.len(),
{
    if parts.len() == 0 {
        Seq::empty()
    } else if parts.len() == 1 {
        parts[0]
    } else {
        join(parts.drop_last(), sep) + sep + parts.last()
    }
}

/// The equality predicate or assignment `<key> = ?`.
pub open spec fn assignment(key: Seq<char>) -> Seq<char> {
    key + " = ?"@
}

pub open spec fn keys(s: Seq<(Seq<char>, FieldValue)>) -> Seq<Seq<char>> {
    Seq::new(s.len(), |i: int| s[i].0)
}

pub open spec fn values(s: Seq<(Seq<char>, FieldValue)>) -> Seq<FieldValue> {
    Seq::new(s.len(), |i: int| s[i].1)
}

pub open spec fn assignments(s: Seq<(Seq<char>, FieldValue)>) -> Seq<Seq<char>> {
    Seq::new(s.len(), |i: int| assignment(s[i].0))
}

/// `n` single `?` placeholders.
pub open spec fn placeholders(n: nat) -> Seq<Seq<char>> {
    Seq::new(n, |i: int| "?"@)
}

/// The entries whose value is not null.
pub open spec fn non_null(s: Seq<(Seq<char>, FieldValue)>) -> Seq<(Seq<char>, FieldValue)> {
    s.filter(|e: (Seq<char>, FieldValue)| !(e.1 is Null))
}

/// The entries that a clause takes: all of them, or the non-null ones.
pub open spec fn selected(s: Seq<(Seq<char>, FieldValue)>, skip_nulls: bool) -> Seq<
    (Seq<char>, FieldValue),
> {
    if skip_nulls {
        non_null(s)
    } else {
        s
    }
}

/// ` WHERE k1 = ? AND k2 = ?;` for a non-empty map, nothing for an empty one.
pub open spec fn where_clause(s: Seq<(Seq<char>, FieldValue)>) -> Seq<char> {
    if s.len() == 0 {
        Seq::empty()
    } else {
        " WHERE "@ + join(assignments(s), " AND "@) + ";"@
    }
}

/// Text and parameters of a clause, or the coercion error.
pub open spec fn clause_of(text: Seq<char>, vals: Seq<FieldValue>) -> Result<
    (Seq<char>, Seq<SqlParam>),
    ClientError,
> {
    match coerce_all(vals) {
        Ok(ps) => Ok((text, ps)),
        Err(e) => Err(e),
    }
}

pub open spec fn view_clause(r: Result<(String, Vec<SqlParam>), ClientError>) -> Result<
    (Seq<char>, Seq<SqlParam>),
    ClientError,
> {
    match r {
        Ok((t, ps)) => Ok((t@, ps@)),
        Err(e) => Err(e),
    }
}

pub open spec fn view_statement(r: Result<Statement, ClientError>) -> Result<
    (Seq<char>, Seq<SqlParam>),
    ClientError,
> {
    match r {
        Ok(s) => Ok((s.text@, s.parameters@)),
        Err(e) => Err(e),
    }
}

/// Prefixes `head` to the text of a successful clause.
pub open spec fn prefixed(head: Seq<char>, c: Result<(Seq<char>, Seq<SqlParam>), ClientError>) -> Result<
    (Seq<char>, Seq<SqlParam>),
    ClientError,
> {
    match c {
        Ok((t, ps)) => Ok((head + t, ps)),
        Err(e) => Err(e),
    }
}

/// Two clauses one after the other: texts and parameters concatenated.
pub open spec fn chained(
    a: Result<(Seq<char>, Seq<SqlParam>), ClientError>,
    b: Result<(Seq<char>, Seq<SqlParam>), ClientError>,
) -> Result<(Seq<char>, Seq<SqlParam>), ClientError> {
    match a {
        Err(e) => Err(e),
        Ok((t1, p1)) => match b {
            Err(e) => Err(e),
            Ok((t2, p2)) => Ok((t1 + t2, p1 + p2)),
        },
    }
}

/// The WHERE clause of a condition map with its parameters.
pub open spec fn condition_clause(s: Seq<(Seq<char>, FieldValue)>) -> Result<
    (Seq<char>, Seq<SqlParam>),
    ClientError,
> {
    clause_of(where_clause(s), values(s))
}

/// The SET list of an update: the non-null entries, joined by `, `.
pub open spec fn update_clause(s: Seq<(Seq<char>, FieldValue)>) -> Result<
    (Seq<char>, Seq<SqlParam>),
    ClientError,
> {
    clause_of(join(assignments(non_null(s)), ", "@), values(non_null(s)))
}

/// The column list, placeholders and parameters of an insert.
pub open spec fn insert_clause(s: Seq<(Seq<char>, FieldValue)>) -> Result<
    (Seq<char>, Seq<SqlParam>),
    ClientError,
> {
    clause_of(
        " ("@ + join(keys(s), ", "@) + ") VALUES ("@ + join(placeholders(s.len()), ", "@)
            + ") RETURNING *;"@,
        values(s),
    )
}

/// The statement that a request describes, or why it has none.
pub open spec fn statement_of(
    table: Seq<char>,
    op: Operation,
    conditions: Payload,
    data: Payload,
) -> Result<(Seq<char>, Seq<SqlParam>), ClientError> {
    match op {
        Operation::Select => match conditions {
            Payload::Null => Ok(("SELECT * FROM "@ + table, Seq::empty())),
            Payload::Object(c) => prefixed("SELECT * FROM "@ + table, condition_clause(c@)),
            Payload::Other => Err(ClientError::MalformedRequest),
        },
        Operation::Insert => match data {
            Payload::Object(d) => if d@.len() > 0 {
                prefixed("INSERT INTO "@ + table, insert_clause(d@))
            } else {
                Err(ClientError::MalformedRequest)
            },
            _ => Err(ClientError::MalformedRequest),
        },
        Operation::Update => match (data, conditions) {
            (Payload::Object(d), Payload::Object(c)) => if non_null(d@).len() > 0 && c@.len()
                > 0 {
                prefixed(
                    "UPDATE "@ + table + " SET "@,
                    chained(update_clause(d@), condition_clause(c@)),
                )
            } else {
                Err(ClientError::MalformedRequest)
            },
            _ => Err(ClientError::MalformedRequest),
        },
        Operation::Delete => match conditions {
            Payload::Object(c) => if c@.len() > 0 {
                prefixed("DELETE FROM "@ + table, condition_clause(c@))
            } else {
                Err(ClientError::MalformedRequest)
            },
            _ => Err(ClientError::MalformedRequest),
        },
    }
}

/// Appends `<key> = ?` for each selected entry, separated by `sep`, and
/// coerces the selected values in the same order.
fn collect_assignments(m: &FieldMap, sep: &str, skip_nulls: bool) -> (r: Result<
    (String, Vec<SqlParam>),
    ClientError,
>)
    ensures
        view_clause(r) == clause_of(
            join(assignments(selected(m@, skip_nulls)), sep@),
            values(selected(m@, skip_nulls)),
        ),
{
    let n = m.len();
    let mut text = String::new();
    let mut params: Vec<SqlParam> = Vec::new();
    let mut failed = false;
    let mut count: usize = 0;
    let mut i: usize = 0;
    while i < n
        invariant
            n == m@.len(),
            i <= n,
            count == selected(m@.take(i as int), skip_nulls).len(),
            text@ == join(assignments(selected(m@.take(i as int), skip_nulls)), sep@),
            failed ==> coerce_all(values(selected(m@.take(i as int), skip_nulls))) == Err::<
                Seq<SqlParam>,
                ClientError,
            >(ClientError::UnsupportedValueKind),
            !failed ==> coerce_all(values(selected(m@.take(i as int), skip_nulls))) == Ok::<
                Seq<SqlParam>,
                ClientError,
            >(params@),
        decreases n - i,
    {
        let ghost sel = selected(m@.take(i as int), skip_nulls);
        let ghost e = m@[i as int];
        assert(m@.take(i + 1).drop_last() =~= m@.take(i as int));
        assert(m@.take(i + 1).last() == e);
        proof {
            reveal(Seq::filter);
        }
        assert(non_null(m@.take(i + 1)) == if !(e.1 is Null) {
            non_null(m@.take(i as int)).push(e)
        } else {
            non_null(m@.take(i as int))
        });
        let value = m.value_at(i);
        let keep = !skip_nulls || !matches!(value, FieldValue::Null);
        if keep {
            let ghost sel2 = sel.push(e);
            assert(selected(m@.take(i + 1), skip_nulls) == sel2);
            assert(assignments(sel2) =~= assignments(sel).push(assignment(e.0)));
            assert(assignments(sel2).drop_last() =~= assignments(sel));
            assert(values(sel2) =~= values(sel).push(e.1));
            assert(values(sel2).drop_last() =~= values(sel));
            if count > 0 {
                text.append(sep);
            }
            text.append(m.key_at(i).as_str());
            text.append(" = ?");
            if !failed {
                match json_to_sql_value(value) {
                    Ok(p) => params.push(p),
                    Err(_) => failed = true,
                }
            }
            count = count + 1;
        } else {
            assert(selected(m@.take(i + 1), skip_nulls) == sel);
        }
        i = i + 1;
    }
    assert(m@.take(n as int) =~= m@);
    if failed {
        Err(ClientError::UnsupportedValueKind)
    } else {
        Ok((text, params))
    }
}

/// The WHERE clause of `conditions` with one parameter per condition, in map
/// order; empty text and no parameters for an empty map.
pub fn build_condition_string(conditions: &FieldMap) -> (r: Result<
    (String, Vec<SqlParam>),
    ClientError,
>)
    ensures
        view_clause(r) == condition_clause(conditions@),
{
    if conditions.is_empty() {
        assert(values(conditions@) =~= Seq::<FieldValue>::empty());
        return Ok((String::new(), Vec::new()));
    }
    match collect_assignments(conditions, " AND ", false) {
        Err(e) => Err(e),
        Ok((list, params)) => {
            let mut text = String::from_str(" WHERE ");
            text.append(list.as_str());
            text.append(";");
            Ok((text, params))
        },
    }
}

/// The SET list of an update: `<key> = ?` for each non-null entry of `data`,
/// joined by `, `, with the matching parameters. Null entries are left out.
pub fn build_update_string(data: &FieldMap) -> (r: Result<(String, Vec<SqlParam>), ClientError>)
    ensures
        view_clause(r) == update_clause(data@),
{
    collect_assignments(data, ", ", true)
}

/// Coerces every value of `m`, in map order.
fn coerce_values(m: &FieldMap) -> (r: Result<Vec<SqlParam>, ClientError>)
    ensures
        match r {
            Ok(ps) => coerce_all(values(m@)) == Ok::<Seq<SqlParam>, ClientError>(ps@),
            Err(e) => coerce_all(values(m@)) == Err::<Seq<SqlParam>, ClientError>(e),
        },
{
    let n = m.len();
    let mut params: Vec<SqlParam> = Vec::new();
    let mut i: usize = 0;
    while i < n
        invariant
            n == m@.len(),
            i <= n,
            coerce_all(values(m@.take(i as int))) == Ok::<Seq<SqlParam>, ClientError>(params@),
        decreases n - i,
    {
        let ghost pre = values(m@.take(i as int));
        assert(values(m@.take(i + 1)) =~= pre.push(m@[i as int].1));
        assert(values(m@.take(i + 1)).drop_last() =~= pre);
        match json_to_sql_value(m.value_at(i)) {
            Ok(p) => params.push(p),
            Err(e) => {
                proof {
                    lemma_coerce_all_prefix_err(values(m@), i as int + 1);
                    assert(values(m@).take(i + 1) =~= values(m@.take(i + 1)));
                }
                return Err(e);
            },
        }
        i = i + 1;
    }
    assert(m@.take(n as int) =~= m@);
    Ok(params)
}

/// A successful coercion keeps the number of values.
proof fn lemma_coerce_all_len(vals: Seq<FieldValue>)
    ensures
        coerce_all(vals) matches Ok(ps) ==> ps.len() == vals.len(),
    decreases vals.len(),
{
    if vals.len() > 0 {
        lemma_coerce_all_len(vals.drop_last());
    }
}

/// A sequence fails to coerce when one of its prefixes does.
proof fn lemma_coerce_all_prefix_err(vals: Seq<FieldValue>, k: int)
    requires
        0 <= k <= vals.len(),
        coerce_all(vals.take(k)) is Err,
    ensures
        coerce_all(vals) == coerce_all(vals.take(k)),
    decreases vals.len() - k,
{
    if k < vals.len() {
        assert(vals.take(k + 1).drop_last() =~= vals.take(k));
        lemma_coerce_all_prefix_err(vals, k + 1);
    } else {
        assert(vals.take(k) =~= vals);
    }
}

/// The column list, placeholders and parameters of an insert of `data`.
fn build_insert_string(data: &FieldMap) -> (r: Result<(String, Vec<SqlParam>), ClientError>)
    ensures
        view_clause(r) == insert_clause(data@),
{
    let n = data.len();
    let mut columns = String::new();
    let mut marks = String::new();
    let mut i: usize = 0;
    while i < n
        invariant
            n == data@.len(),
            i <= n,
            columns@ == join(keys(data@.take(i as int)), ", "@),
            marks@ == join(placeholders(i as nat), ", "@),
        decreases n - i,
    {
        let ghost ks = keys(data@.take(i as int));
        assert(keys(data@.take(i + 1)) =~= ks.push(data@[i as int].0));
        assert(keys(data@.take(i + 1)).drop_last() =~= ks);
        assert(placeholders((i + 1) as nat) =~= placeholders(i as nat).push("?"@));
        assert(placeholders((i + 1) as nat).drop_last() =~= placeholders(i as nat));
        if i > 0 {
            columns.append(", ");
            marks.append(", ");
        }
        columns.append(data.key_at(i).as_str());
        marks.append("?");
        i = i + 1;
    }
    assert(data@.take(n as int) =~= data@);
    match coerce_values(data) {
        Err(e) => Err(e),
        Ok(params) => {
            let mut text = String::from_str(" (");
            text.append(columns.as_str());
            text.append(") VALUES (");
            text.append(marks.as_str());
            text.append(") RETURNING *;");
            Ok((text, params))
        },
    }
}

/// Prefixes `head` to a clause built by one of the clause builders.
fn with_head(head: String, c: Result<(String, Vec<SqlParam>), ClientError>) -> (r: Result<
    Statement,
    ClientError,
>)
    ensures
        view_statement(r) == prefixed(head@, view_clause(c)),
{
    match c {
        Err(e) => Err(e),
        Ok((t, parameters)) => {
            let mut text = head;
            text.append(t.as_str());
            Ok(Statement { text, parameters })
        },
    }
}

/// Builds the statement that `params` describes.
///
/// Select takes `conditions` as a WHERE clause (none when it is null or
/// empty); Insert needs a non-empty `data` object; Update needs `data` with at
/// least one non-null entry (null entries are left out of the SET list) and a
/// non-empty `conditions` object; Delete needs a non-empty `conditions`
/// object. Anything else is a `MalformedRequest`. An array or object among
/// the values that are bound gives `UnsupportedValueKind`.
pub fn construct_statement(params: QueryParams) -> (r: Result<Statement, ClientError>)
    ensures
        view_statement(r) == statement_of(
            params.table_name@,
            params.operation,
            params.conditions,
            params.data,
        ),
{
    let table = params.table_name.as_str();
    match params.operation {
        Operation::Select => match &params.conditions {
            Payload::Null => {
                let mut text = String::from_str("SELECT * FROM ");
                text.append(table);
                Ok(Statement { text, parameters: Vec::new() })
            },
            Payload::Object(c) => {
                let mut head = String::from_str("SELECT * FROM ");
                head.append(table);
                with_head(head, build_condition_string(c))
            },
            Payload::Other => Err(ClientError::MalformedRequest),
        },
        Operation::Insert => match &params.data {
            Payload::Object(d) => {
                if d.is_empty() {
                    return Err(ClientError::MalformedRequest);
                }
                let mut head = String::from_str("INSERT INTO ");
                head.append(table);
                with_head(head, build_insert_string(d))
            },
            _ => Err(ClientError::MalformedRequest),
        },
        Operation::Update => match (&params.data, &params.conditions) {
            (Payload::Object(d), Payload::Object(c)) => {
                if c.is_empty() {
                    return Err(ClientError::MalformedRequest);
                }
                let set = build_update_string(d);
                match set {
                    Err(e) => Err(e),
                    Ok((set_text, mut set_params)) => {
                        proof {
                            lemma_coerce_all_len(values(non_null(d@)));
                        }
                        if set_params.len() == 0 {
                            return Err(ClientError::MalformedRequest);
                        }
                        match build_condition_string(c) {
                            Err(e) => Err(e),
                            Ok((where_text, mut where_params)) => {
                                let mut text = String::from_str("UPDATE ");
                                text.append(table);
                                text.append(" SET ");
                                text.append(set_text.as_str());
                                text.append(where_text.as_str());
                                let ghost t = params.table_name@;
                                assert(text@ =~= "UPDATE "@ + t + " SET "@ + (set_text@
                                    + where_text@));
                                set_params.append(&mut where_params);
                                Ok(Statement { text, parameters: set_params })
                            },
                        }
                    },
                }
            },
            _ => Err(ClientError::MalformedRequest),
        },
        Operation::Delete => match &params.conditions {
            Payload::Object(c) => {
                if c.is_empty() {
                    return Err(ClientError::MalformedRequest);
                }
                let mut head = String::from_str("DELETE FROM ");
                head.append(table);
                with_head(head, build_condition_string(c))
            },
            _ => Err(ClientError::MalformedRequest),
        },
    }
}

/// The number of `?` placeholders in a text.
pub open spec fn count_marks(s: Seq<char>) -> nat
    decreases s.len(),
{
    if s.len() == 0 {
        0
    } else {
        count_marks(s.drop_last()) + if s.last() == '?' {
            1nat
        } else {
            0nat
        }
    }
}

/// No key of the entries holds a `?`.
pub open spec fn keys_free_of_marks(s: Seq<(Seq<char>, FieldValue)>) -> bool {
    forall|i: int| 0 <= i < s.len() ==> count_marks(#[trigger] s[i].0) == 0
}

proof fn lemma_count_marks_concat(a: Seq<char>, b: Seq<char>)
    ensures
        count_marks(a + b) == count_marks(a) + count_marks(b),
    decreases b.len(),
{
    if b.len() > 0 {
        assert((a + b).drop_last() =~= a + b.drop_last());
        lemma_count_marks_concat(a, b.drop_last());
    } else {
        assert(a + b =~= a);
    }
}

/// Joining parts of `c` marks each with a separator free of marks gives
/// `c` marks per part.
proof fn lemma_join_marks(parts: Seq<Seq<char>>, sep: Seq<char>, c: nat)
    requires
        count_marks(sep) == 0,
        forall|i: int| 0 <= i < parts.len() ==> count_marks(#[trigger] parts[i]) == c,
    ensures
        count_marks(join(parts, sep)) == c * parts.len(),
    decreases parts.len(),
{
    if parts.len() == 1 {
        assert(count_marks(parts[0]) == c);
    } else if parts.len() > 1 {
        let pre = parts.drop_last();
        assert forall|i: int| 0 <= i < pre.len() implies count_marks(#[trigger] pre[i]) == c by {
            assert(pre[i] == parts[i]);
        }
        lemma_join_marks(pre, sep, c);
        lemma_count_marks_concat(join(pre, sep), sep);
        lemma_count_marks_concat(join(pre, sep) + sep, parts.last());
        assert(count_marks(parts[parts.len() - 1]) == c);
        assert(c * (pre.len() + 1) == c * pre.len() + c) by (nonlinear_arith);
    }
}

proof fn lemma_literal_marks()
    ensures
        count_marks(" = ?"@) == 1,
        count_marks("?"@) == 1,
        count_marks(", "@) == 0,
        count_marks(" AND "@) == 0,
        count_marks(" WHERE "@) == 0,
        count_marks(";"@) == 0,
        count_marks(" ("@) == 0,
        count_marks(") VALUES ("@) == 0,
        count_marks(") RETURNING *;"@) == 0,
        count_marks("SELECT * FROM "@) == 0,
        count_marks("INSERT INTO "@) == 0,
        count_marks("UPDATE "@) == 0,
        count_marks(" SET "@) == 0,
        count_marks("DELETE FROM "@) == 0,
{
    reveal_strlit(" = ?");
    reveal_strlit("?");
    reveal_strlit(", ");
    reveal_strlit(" AND ");
    reveal_strlit(" WHERE ");
    reveal_strlit(";");
    reveal_strlit(" (");
    reveal_strlit(") VALUES (");
    reveal_strlit(") RETURNING *;");
    reveal_strlit("SELECT * FROM ");
    reveal_strlit("INSERT INTO ");
    reveal_strlit("UPDATE ");
    reveal_strlit(" SET ");
    reveal_strlit("DELETE FROM ");
    reveal_with_fuel(count_marks, 15);
}

/// Each clause has one `?` per entry that it binds, and its parameters are
/// the coerced values of those entries, in the same order: the `i`-th
/// placeholder binds the `i`-th entry.
pub proof fn lemma_placeholders_match_entries(m: FieldMap)
    requires
        keys_free_of_marks(m@),
    ensures
        count_marks(where_clause(m@)) == m@.len(),
        count_marks(join(assignments(m@), ", "@)) == m@.len(),
        count_marks(join(assignments(non_null(m@)), ", "@)) == non_null(m@).len(),
        count_marks(" ("@ + join(keys(m@), ", "@) + ") VALUES ("@ + join(
            placeholders(m@.len()),
            ", "@,
        ) + ") RETURNING *;"@) == m@.len(),
        coerce_all(values(m@)) matches Ok(ps) ==> ps.len() == m@.len() && forall|i: int|
            0 <= i < m@.len() ==> coerce(#[trigger] m@[i].1) == Ok::<SqlParam, ClientError>(
                ps[i],
            ),
        coerce_all(values(non_null(m@))) matches Ok(ps) ==> ps.len() == non_null(m@).len()
            && forall|i: int|
            0 <= i < non_null(m@).len() ==> coerce(#[trigger] non_null(m@)[i].1) == Ok::<
                SqlParam,
                ClientError,
            >(ps[i]),
        coerce_all(values(non_null(m@))) matches Ok(ps) ==> forall|i: int|
            0 <= i < ps.len() ==> #[trigger] ps[i] != SqlParam::Null,
{
    let s = m@;
    let nn = non_null(s);
    lemma_literal_marks();
    assert forall|i: int| 0 <= i < s.len() implies count_marks(#[trigger] assignments(s)[i])
        == 1 by {
        lemma_count_marks_concat(s[i].0, " = ?"@);
    }
    lemma_join_marks(assignments(s), ", "@, 1);
    lemma_join_marks(assignments(s), " AND "@, 1);
    assert forall|i: int| 0 <= i < nn.len() implies count_marks(#[trigger] assignments(nn)[i])
        == 1 by {
        s.lemma_filter_contains_rev(|e: (Seq<char>, FieldValue)| !(e.1 is Null), nn[i]);
        let j = choose|j: int| 0 <= j < s.len() && s[j] == nn[i];
        assert(count_marks(s[j].0) == 0);
        lemma_count_marks_concat(nn[i].0, " = ?"@);
    }
    lemma_join_marks(assignments(nn), ", "@, 1);
    if s.len() > 0 {
        let body = join(assignments(s), " AND "@);
        lemma_count_marks_concat(" WHERE "@, body);
        lemma_count_marks_concat(" WHERE "@ + body, ";"@);
    }
    assert forall|i: int| 0 <= i < s.len() implies count_marks(#[trigger] keys(s)[i]) == 0 by {}
    lemma_join_marks(keys(s), ", "@, 0);
    assert forall|i: int| 0 <= i < s.len() implies count_marks(
        #[trigger] placeholders(s.len())[i],
    ) == 1 by {}
    lemma_join_marks(placeholders(s.len()), ", "@, 1);
    let cols = join(keys(s), ", "@);
    let marks = join(placeholders(s.len()), ", "@);
    lemma_count_marks_concat(" ("@, cols);
    lemma_count_marks_concat(" ("@ + cols, ") VALUES ("@);
    lemma_count_marks_concat(" ("@ + cols + ") VALUES ("@, marks);
    lemma_count_marks_concat(" ("@ + cols + ") VALUES ("@ + marks, ") RETURNING *;"@);
    lemma_coerce_all(values(s));
    lemma_coerce_all(values(nn));
    if let Ok(ps) = coerce_all(values(s)) {
        assert forall|i: int| 0 <= i < s.len() implies coerce(#[trigger] s[i].1) == Ok::<
            SqlParam,
            ClientError,
        >(ps[i]) by {
            assert(values(s)[i] == s[i].1);
        }
    }
    if let Ok(ps) = coerce_all(values(nn)) {
        assert forall|i: int| 0 <= i < nn.len() implies coerce(#[trigger] nn[i].1) == Ok::<
            SqlParam,
            ClientError,
        >(ps[i]) by {
            assert(values(nn)[i] == nn[i].1);
        }
        assert forall|i: int| 0 <= i < ps.len() implies #[trigger] ps[i] != SqlParam::Null by {
            s.lemma_filter_pred(|e: (Seq<char>, FieldValue)| !(e.1 is Null), i);
            assert(coerce(nn[i].1) == Ok::<SqlParam, ClientError>(ps[i]));
        }
    }
}

/// Every statement built from a table name and keys free of `?` has exactly
/// one `?` per bound parameter.
pub proof fn lemma_statement_marks(
    table: Seq<char>,
    op: Operation,
    conditions: Payload,
    data: Payload,
)
    requires
        count_marks(table) == 0,
        conditions matches Payload::Object(c) ==> keys_free_of_marks(c@),
        data matches Payload::Object(d) ==> keys_free_of_marks(d@),
    ensures
        statement_of(table, op, conditions, data) matches Ok((text, ps)) ==> count_marks(text)
            == ps.len(),
{
    lemma_literal_marks();
    if let Payload::Object(c) = conditions {
        lemma_placeholders_match_entries(c);
        lemma_coerce_all(values(c@));
    }
    if let Payload::Object(d) = data {
        lemma_placeholders_match_entries(d);
        lemma_coerce_all(values(d@));
        lemma_coerce_all(values(non_null(d@)));
    }
    if let Ok((text, ps)) = statement_of(table, op, conditions, data) {
        match op {
            Operation::Select => {
                lemma_count_marks_concat("SELECT * FROM "@, table);
                if let Payload::Object(c) = conditions {
                    lemma_count_marks_concat("SELECT * FROM "@ + table, where_clause(c@));
                }
            },
            Operation::Insert => {
                lemma_count_marks_concat("INSERT INTO "@, table);
                if let Payload::Object(d) = data {
                    let body = " ("@ + join(keys(d@), ", "@) + ") VALUES ("@ + join(
                        placeholders(d@.len()),
                        ", "@,
                    ) + ") RETURNING *;"@;
                    lemma_count_marks_concat("INSERT INTO "@ + table, body);
                }
            },
            Operation::Update => {
                lemma_count_marks_concat("UPDATE "@, table);
                lemma_count_marks_concat("UPDATE "@ + table, " SET "@);
                if let (Payload::Object(d), Payload::Object(c)) = (data, conditions) {
                    let set = join(assignments(non_null(d@)), ", "@);
                    lemma_count_marks_concat(set, where_clause(c@));
                    lemma_count_marks_concat("UPDATE "@ + table + " SET "@, set + where_clause(
                        c@,
                    ));
                }
            },
            Operation::Delete => {
                lemma_count_marks_concat("DELETE FROM "@, table);
                if let Payload::Object(c) = conditions {
                    lemma_count_marks_concat("DELETE FROM "@ + table, where_clause(c@));
                }
            },
        }
    }
}

/// An array or object among the bound values makes the whole statement fail
/// with `UnsupportedValueKind`: no statement is built from the rest.
pub proof fn lemma_composite_rejected(table: Seq<char>, m: FieldMap, other: FieldMap, i: int)
    requires
        0 <= i < m@.len(),
        !is_scalar(m@[i].1),
    ensures
        statement_of(table, Operation::Select, Payload::Object(m), Payload::Null) == Err::<
            (Seq<char>, Seq<SqlParam>),
            ClientError,
        >(ClientError::UnsupportedValueKind),
        statement_of(table, Operation::Insert, Payload::Null, Payload::Object(m)) == Err::<
            (Seq<char>, Seq<SqlParam>),
            ClientError,
        >(ClientError::UnsupportedValueKind),
        statement_of(table, Operation::Delete, Payload::Object(m), Payload::Null) == Err::<
            (Seq<char>, Seq<SqlParam>),
            ClientError,
        >(ClientError::UnsupportedValueKind),
        non_null(other@).len() > 0 ==> statement_of(
            table,
            Operation::Update,
            Payload::Object(m),
            Payload::Object(other),
        ) == Err::<(Seq<char>, Seq<SqlParam>), ClientError>(ClientError::UnsupportedValueKind),
        other@.len() > 0 ==> statement_of(
            table,
            Operation::Update,
            Payload::Object(other),
            Payload::Object(m),
        ) == Err::<(Seq<char>, Seq<SqlParam>), ClientError>(ClientError::UnsupportedValueKind),
{
    let s = m@;
    let nn = non_null(s);
    lemma_coerce_all(values(s));
    assert(values(s)[i] == s[i].1);
    assert(!(coerce_all(values(s)) is Ok));
    let pred = |e: (Seq<char>, FieldValue)| !(e.1 is Null);
    s.lemma_filter_contains(pred, i);
    assert(nn.contains(s[i]));
    let j = choose|j: int| 0 <= j < nn.len() && nn[j] == s[i];
    lemma_coerce_all(values(nn));
    assert(values(nn)[j] == nn[j].1);
    assert(!(coerce_all(values(nn)) is Ok));
    lemma_coerce_all(values(non_null(other@)));
    lemma_coerce_all(values(other@));
}

} // verus!
