//! Column values of a synthetic row.
//!
//! A row is an ordered sequence of typed column values whose first column is
//! always the partition key. The driver's own value type stays outside the
//! core; these plain variants carry everything the validation logic reads.

use vstd::prelude::*;

verus! {

/// One typed column value.
#[derive(Debug)]
pub enum Value {
    /// A signed integer column.
    Int(i64),
    /// A counter column; its magnitude is not independently reproducible.
    Counter(i64),
    /// An opaque byte-string column (keys and generated payloads).
    Blob(Vec<u8>),
}

/// The mathematical value of one column.
pub ghost enum ValueV {
    Int(int),
    Counter(int),
    Blob(Seq<u8>),
}

impl View for Value {
    type V = ValueV;

    open spec fn view(&self) -> ValueV {
        match self {
            Value::Int(i) => ValueV::Int(*i as int),
            Value::Counter(c) => ValueV::Counter(*c as int),
            Value::Blob(b) => ValueV::Blob(b@),
        }
    }
}

impl Clone for Value {
    fn clone(&self) -> (r: Self)
        ensures
            r@ == self@,
    {
        match self {
            Value::Int(i) => Value::Int(*i),
            Value::Counter(c) => Value::Counter(*c),
            Value::Blob(b) => {
                let c = b.clone();
                proof {
                    assert(c@ =~= b@);
                }
                Value::Blob(c)
            },
        }
    }
}

/// A row: the partition key at index 0, payload columns after it.
pub type Row = Vec<Value>;

/// The mathematical value of a row.
pub open spec fn row_view(r: Seq<Value>) -> Seq<ValueV> {
    r.map_values(|v: Value| v@)
}

/// The mathematical value of a row set, as a read returns it.
pub open spec fn rows_view(rs: Seq<Row>) -> Seq<Seq<ValueV>> {
    rs.map_values(|r: Row| row_view(r@))
}

/// Decides whether two byte strings hold the same bytes.
pub fn bytes_eq(a: &Vec<u8>, b: &Vec<u8>) -> (r: bool)
    ensures
        r == (a@ == b@),
{
    if a.len() != b.len() {
        return false;
    }
    let mut i: usize = 0;
    while i < a.len()
        invariant
            i <= a.len(),
            a@.len() == b@.len(),
            forall|j: int| 0 <= j < i ==> a@[j] == b@[j],
        decreases a.len() - i,
    {
        if a[i] != b[i] {
            return false;
        }
        i += 1;
    }
    proof {
        assert(a@ =~= b@);
    }
    true
}

/// Decides whether two column values are equal.
pub fn value_eq(a: &Value, b: &Value) -> (r: bool)
    ensures
        r == (a@ == b@),
{
    match (a, b) {
        (Value::Int(x), Value::Int(y)) => x == y,
        (Value::Counter(x), Value::Counter(y)) => x == y,
        (Value::Blob(x), Value::Blob(y)) => bytes_eq(x, y),
        _ => false,
    }
}

} // verus!
