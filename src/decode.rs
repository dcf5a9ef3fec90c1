use vstd::prelude::*;
use vstd::utf8::encode_utf8;
use crate::error::{Error, IntKind};
use crate::numeric::{decode_u8, narrowed};
use crate::value::{Type, Value};

verus! {

/// The error for a value of the wrong variant.
pub open spec fn mismatch(expected: Type, v: Value) -> Error {
    Error::TypeMismatch(expected, v.spec_type_of())
}

/// Decodes a boolean.
pub fn decode_bool(value: Value) -> (r: Result<bool, Error>)
    ensures
        match value {
            Value::Bool(b) => r == Ok::<bool, Error>(b),
            _ => r == Err::<bool, Error>(mismatch(Type::Bool, value)),
        },
{
    match value {
        Value::Bool(b) => Ok(b),
        other => Err(Error::TypeMismatch(Type::Bool, other.type_of())),
    }
}

/// Decodes a string.
pub fn decode_string(value: Value) -> (r: Result<String, Error>)
    ensures
        match value {
            Value::String(s) => r == Ok::<String, Error>(s),
            _ => r == Err::<String, Error>(mismatch(Type::String, value)),
        },
{
    match value {
        Value::String(s) => Ok(s),
        other => Err(Error::TypeMismatch(Type::String, other.type_of())),
    }
}

/// The elements of a list, in order.
pub fn decode_list(value: Value) -> (r: Result<Vec<Value>, Error>)
    ensures
        match value {
            Value::List(xs) => r == Ok::<Vec<Value>, Error>(xs),
            _ => r == Err::<Vec<Value>, Error>(mismatch(Type::List, value)),
        },
{
    match value {
        Value::List(xs) => Ok(xs),
        other => Err(Error::TypeMismatch(Type::List, other.type_of())),
    }
}

/// The elements of a tuple of exactly `arity` elements, in order.
pub fn decode_tuple(value: Value, arity: usize) -> (r: Result<Vec<Value>, Error>)
    ensures
        match value {
            Value::Tuple(xs) => if xs@.len() == arity {
                r == Ok::<Vec<Value>, Error>(xs)
            } else {
                r == Err::<Vec<Value>, Error>(mismatch(Type::Tuple, value))
            },
            _ => r == Err::<Vec<Value>, Error>(mismatch(Type::Tuple, value)),
        },
{
    match value {
        Value::Tuple(xs) => {
            if xs.len() == arity {
                Ok(xs)
            } else {
                Err(Error::TypeMismatch(Type::Tuple, Type::Tuple))
            }
        },
        other => Err(Error::TypeMismatch(Type::Tuple, other.type_of())),
    }
}

/// The elements of a set. Elements are handed out as they are held: two
/// elements that decode to equal values are both kept.
pub fn decode_set(value: Value) -> (r: Result<Vec<Value>, Error>)
    ensures
        match value {
            Value::ValueSet(xs) => r == Ok::<Vec<Value>, Error>(xs),
            _ => r == Err::<Vec<Value>, Error>(mismatch(Type::ValueSet, value)),
        },
{
    match value {
        Value::ValueSet(xs) => Ok(xs),
        other => Err(Error::TypeMismatch(Type::ValueSet, other.type_of())),
    }
}

/// The key and value pairs of a map.
pub fn decode_map(value: Value) -> (r: Result<Vec<(Value, Value)>, Error>)
    ensures
        match value {
            Value::ValueMap(es) => r == Ok::<Vec<(Value, Value)>, Error>(es),
            _ => r == Err::<Vec<(Value, Value)>, Error>(mismatch(Type::ValueMap, value)),
        },
{
    match value {
        Value::ValueMap(es) => Ok(es),
        other => Err(Error::TypeMismatch(Type::ValueMap, other.type_of())),
    }
}

/// The fields of a record.
pub fn decode_record(value: Value) -> (r: Result<Vec<(String, Value)>, Error>)
    ensures
        match value {
            Value::Record(es) => r == Ok::<Vec<(String, Value)>, Error>(es),
            _ => r == Err::<Vec<(String, Value)>, Error>(mismatch(Type::Record, value)),
        },
{
    match value {
        Value::Record(es) => Ok(es),
        other => Err(Error::TypeMismatch(Type::Record, other.type_of())),
    }
}

/// The bytes that a list of numbers stands for, or the first number out of range.
pub open spec fn bytes_of(xs: Seq<Value>) -> Result<Seq<u8>, Error>
    decreases xs.len(),
{
    if xs.len() == 0 {
        Ok(Seq::empty())
    } else {
        match narrowed(xs[0], IntKind::U8) {
            Ok(b) => match bytes_of(xs.drop_first()) {
                Ok(t) => Ok(seq![b as u8] + t),
                Err(e) => Err(e),
            },
            Err(e) => Err(e),
        }
    }
}

/// Decodes a byte sequence: a string gives its UTF-8 bytes, a list gives one
/// byte for each of its numbers.
pub fn decode_bytes(value: Value) -> (r: Result<Vec<u8>, Error>)
    ensures
        match value {
            Value::String(s) => r matches Ok(b) && b@ == encode_utf8(s@),
            Value::List(xs) => match bytes_of(xs@) {
                Ok(t) => r matches Ok(b) && b@ == t,
                Err(e) => r == Err::<Vec<u8>, Error>(e),
            },
            _ => r == Err::<Vec<u8>, Error>(mismatch(Type::List, value)),
        },
{
    match value {
        Value::String(s) => Ok(s.as_str().as_bytes_vec()),
        Value::List(xs) => {
            let ghost all = xs@;
            let mut rest = xs;
            let mut out: Vec<u8> = Vec::new();
            while rest.len() > 0
                invariant
                    value matches Value::List(ys) && ys@ == all,
                    bytes_of(all) == match bytes_of(rest@) {
                        Ok(t) => Ok(out@ + t),
                        Err(e) => Err::<Seq<u8>, Error>(e),
                    },
                decreases rest.len(),
            {
                let ghost before = rest@;
                let x = rest.remove(0);
                proof {
                    assert(rest@ == before.drop_first());
                    assert(x == before[0]);
                }
                match decode_u8(x) {
                    Ok(b) => {
                        proof {
                            assert(out@.push(b) + bytes_of(rest@)->Ok_0 == out@ + (seq![b] + bytes_of(rest@)->Ok_0));
                        }
                        out.push(b);
                    },
                    Err(e) => {
                        proof {
                            assert(bytes_of(before) == Err::<Seq<u8>, Error>(e));
                        }
                        return Err(e);
                    },
                }
            }
            proof {
                assert(out@ + Seq::<u8>::empty() == out@);
            }
            Ok(out)
        },
        other => Err(Error::TypeMismatch(Type::List, other.type_of())),
    }
}

/// A unit value has no representation: decoding one always fails.
pub fn decode_unit(value: Value) -> (r: Result<(), Error>)
    ensures
        r matches Err(Error::InvalidType(s)) && s@ == "unit"@,
{
    Err(Error::InvalidType(String::from_str("unit")))
}

/// Consumes a value without reading it.
pub fn decode_ignored(value: Value) -> (r: Result<(), Error>)
    ensures
        r == Ok::<(), Error>(()),
{
    Ok(())
}

} // verus!
