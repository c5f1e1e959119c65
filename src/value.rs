use vstd::prelude::*;

verus! {

#[verifier::external_type_specification]
#[verifier::external_body]
pub struct ExNumber(serde_json::Number);

/// What `serde_json::Number::as_i64` returns for a number: the number as an
/// `i64` when it is an integer in that range, `None` otherwise.
pub uninterp spec fn number_as_i64(n: serde_json::Number) -> Option<i64>;

/// Relies on `serde_json::Number::as_i64`, whose result depends on the number
/// alone.
pub assume_specification[ serde_json::Number::as_i64 ](n: &serde_json::Number) -> (r: Option<
    i64,
>)
    ensures
        r == number_as_i64(*n),
;

/// Relies on the derived `Clone` of `serde_json::Number`: the copy equals the original.
pub assume_specification[ <serde_json::Number as Clone>::clone ](n: &serde_json::Number) -> (r:
    serde_json::Number)
    ensures
        r == *n,
;

/// A leaf value of a JSON-shaped field map.
///
/// Numbers that fit an `i64` are `Integer`; every other number is kept as
/// `Real`. Arrays and objects are recorded only by their kind: they are never
/// bound as parameters.
#[derive(Debug, Clone, PartialEq)]
pub enum FieldValue {
    Null,
    Boolean(bool),
    Integer(i64),
    Real(serde_json::Number),
    Text(String),
    Array,
    Object,
}

/// A value bound to one `?` placeholder of a statement.
#[derive(Debug, Clone, PartialEq)]
pub enum SqlParam {
    Null,
    Boolean(bool),
    Integer(i64),
    Real(serde_json::Number),
    Text(String),
}

/// Why a statement or a transaction request was refused.
#[derive(Debug, Clone, Copy, PartialEq, Eq, Structural)]
pub enum ClientError {
    /// A field map that the operation needs is absent, empty or not an object.
    MalformedRequest,
    /// An array or object stands where a scalar value is needed.
    UnsupportedValueKind,
    /// A transaction was requested while another one is active.
    TransactionConflict,
}

/// Whether a value can be bound as a parameter.
pub open spec fn is_scalar(v: FieldValue) -> bool {
    !(v is Array || v is Object)
}

/// The coercion of one value into a bound parameter.
pub open spec fn coerce(v: FieldValue) -> Result<SqlParam, ClientError> {
    match v {
        FieldValue::Null => Ok(SqlParam::Null),
        FieldValue::Boolean(b) => Ok(SqlParam::Boolean(b)),
        FieldValue::Integer(i) => Ok(SqlParam::Integer(i)),
        FieldValue::Real(n) => Ok(SqlParam::Real(n)),
        FieldValue::Text(s) => Ok(SqlParam::Text(s)),
        FieldValue::Array => Err(ClientError::UnsupportedValueKind),
        FieldValue::Object => Err(ClientError::UnsupportedValueKind),
    }
}

/// Coerces a sequence of values in order; the first value that cannot be
/// bound makes the whole sequence fail.
pub open spec fn coerce_all(vals: Seq<FieldValue>) -> Result<Seq<SqlParam>, ClientError>
    decreases vals.len(),
{
    if vals.len() == 0 {
        Ok(Seq::empty())
    } else {
        match coerce_all(vals.drop_last()) {
            Err(e) => Err(e),
            Ok(ps) => match coerce(vals.last()) {
                Err(e) => Err(e),
                Ok(p) => Ok(ps.push(p)),
            },
        }
    }
}

impl FieldValue {
    /// The value of a JSON number: an `Integer` when it fits an `i64`,
    /// otherwise the number itself as `Real`.
    pub fn from_number(n: serde_json::Number) -> (r: FieldValue)
        ensures
            r == match number_as_i64(n) {
                Some(i) => FieldValue::Integer(i),
                None => FieldValue::Real(n),
            },
    {
        match n.as_i64() {
            Some(i) => FieldValue::Integer(i),
            None => FieldValue::Real(n),
        }
    }
}

/// Converts a field value into the parameter that binds it.
pub fn json_to_sql_value(v: &FieldValue) -> (r: Result<SqlParam, ClientError>)
    ensures
        r == coerce(*v),
{
    match v {
        FieldValue::Null => Ok(SqlParam::Null),
        FieldValue::Boolean(b) => Ok(SqlParam::Boolean(*b)),
        FieldValue::Integer(i) => Ok(SqlParam::Integer(*i)),
        FieldValue::Real(n) => Ok(SqlParam::Real(n.clone())),
        FieldValue::Text(s) => Ok(SqlParam::Text(s.clone())),
        FieldValue::Array => Err(ClientError::UnsupportedValueKind),
        FieldValue::Object => Err(ClientError::UnsupportedValueKind),
    }
}

/// Coercion keeps an integer as the same integer, a non-integral number as
/// the same number, and binds null as the null parameter.
pub proof fn lemma_coercion_round_trip(i: i64, n: serde_json::Number)
    ensures
        coerce(FieldValue::Integer(i)) == Ok::<SqlParam, ClientError>(SqlParam::Integer(i)),
        coerce(FieldValue::Real(n)) == Ok::<SqlParam, ClientError>(SqlParam::Real(n)),
        coerce(FieldValue::Null) == Ok::<SqlParam, ClientError>(SqlParam::Null),
{
}

/// A sequence of values coerces exactly when each value does, to the
/// parameters of the values in order; otherwise it fails with
/// `UnsupportedValueKind`.
pub proof fn lemma_coerce_all(vals: Seq<FieldValue>)
    ensures
        coerce_all(vals) is Ok <==> forall|i: int| 0 <= i < vals.len() ==> is_scalar(
            #[trigger] vals[i],
        ),
        coerce_all(vals) matches Ok(ps) ==> ps.len() == vals.len() && forall|i: int|
            0 <= i < vals.len() ==> coerce(#[trigger] vals[i]) == Ok::<SqlParam, ClientError>(
                ps[i],
            ),
        !(coerce_all(vals) is Ok) ==> coerce_all(vals) == Err::<Seq<SqlParam>, ClientError>(
            ClientError::UnsupportedValueKind,
        ),
    decreases vals.len(),
{
    if vals.len() > 0 {
        let pre = vals.drop_last();
        let last = vals.last();
        lemma_coerce_all(pre);
        assert forall|i: int| 0 <= i < pre.len() implies #[trigger] pre[i] == vals[i] by {}
        match coerce_all(pre) {
            Err(_) => {
                let j = choose|j: int| 0 <= j < pre.len() && !is_scalar(#[trigger] pre[j]);
                assert(!is_scalar(vals[j]));
            },
            Ok(ps) => {
                if let Ok(p) = coerce(last) {
                    assert(coerce_all(vals) == Ok::<Seq<SqlParam>, ClientError>(ps.push(p)));
                    assert forall|i: int| 0 <= i < vals.len() implies coerce(
                        #[trigger] vals[i],
                    ) == Ok::<SqlParam, ClientError>(ps.push(p)[i]) by {
                        if i < pre.len() {
                            assert(vals[i] == pre[i]);
                        }
                    }
                    assert forall|i: int| 0 <= i < vals.len() implies is_scalar(
                        #[trigger] vals[i],
                    ) by {
                        if i < pre.len() {
                            assert(vals[i] == pre[i]);
                        }
                    }
                } else {
                    assert(!is_scalar(vals[vals.len() - 1]));
                }
            },
        }
    }
}

} // verus!
