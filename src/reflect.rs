use vstd::prelude::*;
use crate::decode::mismatch;
use crate::error::{Error, IntKind};
use crate::numeric::{decode_i64, narrowed};
use crate::value::{Type, Value};

verus! {

/// Prepares a value for a target that accepts any shape: a big integer is
/// narrowed to a 64-bit number, an unserializable value is refused, and any
/// other value is handed back as it is.
pub fn decode_any(value: Value) -> (r: Result<Value, Error>)
    ensures
        match value {
            Value::BigInt(_) => match narrowed(value, IntKind::I64) {
                Ok(x) => r matches Ok(Value::Number(n)) && n as int == x,
                Err(e) => r == Err::<Value, Error>(e),
            },
            Value::Unserializable(_) => r == Err::<Value, Error>(
                Error::UnsupportedType(Type::Unserializable),
            ),
            _ => r == Ok::<Value, Error>(value),
        },
{
    match value {
        Value::BigInt(b) => match decode_i64(Value::BigInt(b)) {
            Ok(n) => Ok(Value::Number(n)),
            Err(e) => Err(e),
        },
        Value::Unserializable(_) => Err(Error::UnsupportedType(Type::Unserializable)),
        other => Ok(other),
    }
}

/// The elements of a list or of a tuple, for a target that reads a sequence.
pub fn decode_seq(value: Value) -> (r: Result<Vec<Value>, Error>)
    ensures
        match value {
            Value::List(xs) => r == Ok::<Vec<Value>, Error>(xs),
            Value::Tuple(xs) => r == Ok::<Vec<Value>, Error>(xs),
            _ => r == Err::<Vec<Value>, Error>(mismatch(Type::List, value)),
        },
{
    match value {
        Value::List(xs) => Ok(xs),
        Value::Tuple(xs) => Ok(xs),
        other => Err(Error::TypeMismatch(Type::List, other.type_of())),
    }
}

/// The elements of a tuple or of a list of exactly `arity` elements.
pub fn decode_fixed(value: Value, arity: usize) -> (r: Result<Vec<Value>, Error>)
    ensures
        match value {
            Value::List(xs) => if xs@.len() == arity {
                r == Ok::<Vec<Value>, Error>(xs)
            } else {
                r == Err::<Vec<Value>, Error>(mismatch(Type::Tuple, value))
            },
            Value::Tuple(xs) => if xs@.len() == arity {
                r == Ok::<Vec<Value>, Error>(xs)
            } else {
                r == Err::<Vec<Value>, Error>(mismatch(Type::Tuple, value))
            },
            _ => r == Err::<Vec<Value>, Error>(mismatch(Type::Tuple, value)),
        },
{
    match value {
        Value::List(xs) => {
            if xs.len() == arity {
                Ok(xs)
            } else {
                Err(Error::TypeMismatch(Type::Tuple, Type::List))
            }
        },
        Value::Tuple(xs) => {
            if xs.len() == arity {
                Ok(xs)
            } else {
                Err(Error::TypeMismatch(Type::Tuple, Type::Tuple))
            }
        },
        other => Err(Error::TypeMismatch(Type::Tuple, other.type_of())),
    }
}

/// The entries of a record, each key written as a string value.
pub open spec fn keyed_entries(es: Seq<(String, Value)>) -> Seq<(Value, Value)> {
    es.map_values(|e: (String, Value)| (Value::String(e.0), e.1))
}

/// Whether every key of a map's entries is a string.
pub open spec fn string_keyed(es: Seq<(Value, Value)>) -> bool {
    forall|i: int| 0 <= i < es.len() ==> (#[trigger] es[i]).0 is String
}

/// Whether every key of a map's entries is a string.
pub fn all_keys_strings(es: &Vec<(Value, Value)>) -> (r: bool)
    ensures
        r == string_keyed(es@),
{
    let mut i: usize = 0;
    while i < es.len()
        invariant
            0 <= i <= es@.len(),
            forall|j: int| 0 <= j < i ==> (#[trigger] es@[j]).0 is String,
        decreases es.len() - i,
    {
        match &es[i].0 {
            Value::String(_) => {},
            _ => {
                return false;
            },
        }
        i = i + 1;
    }
    true
}

/// The entries of a struct, read from a record or from a map whose keys are
/// all strings.
pub fn decode_struct_entries(value: Value) -> (r: Result<Vec<(Value, Value)>, Error>)
    ensures
        match value {
            Value::Record(es) => r matches Ok(out) && out@ == keyed_entries(es@),
            Value::ValueMap(es) => if string_keyed(es@) {
                r == Ok::<Vec<(Value, Value)>, Error>(es)
            } else {
                r matches Err(Error::InvalidType(t)) && t@ == "map with string keys"@
            },
            _ => r == Err::<Vec<(Value, Value)>, Error>(mismatch(Type::Record, value)),
        },
{
    match value {
        Value::Record(es) => {
            let ghost all = es@;
            let mut rest = es;
            let mut out: Vec<(Value, Value)> = Vec::new();
            while rest.len() > 0
                invariant
                    value matches Value::Record(ys) && ys@ == all,
                    keyed_entries(all) == out@ + keyed_entries(rest@),
                decreases rest.len(),
            {
                let ghost before = rest@;
                let (k, v) = rest.remove(0);
                proof {
                    assert(keyed_entries(before) == seq![(Value::String(k), v)] + keyed_entries(rest@));
                }
                out.push((Value::String(k), v));
            }
            proof {
                assert(out@ + keyed_entries(rest@) == out@);
            }
            Ok(out)
        },
        Value::ValueMap(es) => {
            if all_keys_strings(&es) {
                Ok(es)
            } else {
                Err(Error::InvalidType(String::from_str("map with string keys")))
            }
        },
        other => Err(Error::TypeMismatch(Type::Record, other.type_of())),
    }
}

/// Splits an externally tagged enumeration value into the variant name and
/// its payload: a string names a variant without payload; a record of exactly
/// one entry names the variant by its key and holds the payload as its value.
pub fn enum_access(value: Value) -> (r: Result<(String, Option<Value>), Error>)
    ensures
        match value {
            Value::String(s) => r == Ok::<(String, Option<Value>), Error>((s, None)),
            Value::Record(es) => if es@.len() == 1 {
                r == Ok::<(String, Option<Value>), Error>((es@[0].0, Some(es@[0].1)))
            } else {
                r matches Err(Error::InvalidType(t)) && t@ == "map with a single key"@
            },
            _ => r matches Err(Error::InvalidType(t)) && t@ == "string or map"@,
        },
{
    match value {
        Value::String(s) => Ok((s, None)),
        Value::Record(es) => {
            if es.len() == 1 {
                let mut es = es;
                let (k, v) = es.remove(0);
                Ok((k, Some(v)))
            } else {
                Err(Error::InvalidType(String::from_str("map with a single key")))
            }
        },
        _ => Err(Error::InvalidType(String::from_str("string or map"))),
    }
}

/// Checks the payload of a variant without fields: none, or a tuple of no elements.
pub fn unit_variant(payload: Option<Value>) -> (r: Result<(), Error>)
    ensures
        match payload {
            None => r is Ok,
            Some(v) => if (v matches Value::Tuple(xs) && xs@.len() == 0) {
                r is Ok
            } else {
                r matches Err(Error::InvalidType(t)) && t@ == "unit variant"@
            },
        },
{
    match payload {
        None => Ok(()),
        Some(Value::Tuple(xs)) => {
            if xs.len() == 0 {
                Ok(())
            } else {
                Err(Error::InvalidType(String::from_str("unit variant")))
            }
        },
        Some(_) => Err(Error::InvalidType(String::from_str("unit variant"))),
    }
}

/// The payload of a variant that wraps one value.
pub fn newtype_variant(payload: Option<Value>) -> (r: Result<Value, Error>)
    ensures
        match payload {
            Some(v) => r == Ok::<Value, Error>(v),
            None => r matches Err(Error::InvalidType(t)) && t@ == "newtype variant"@,
        },
{
    match payload {
        Some(v) => Ok(v),
        None => Err(Error::InvalidType(String::from_str("newtype variant"))),
    }
}

/// The elements of a positional variant's payload, a tuple or a list; `None`
/// where the payload is empty and the variant is read as a unit.
pub fn tuple_variant(payload: Option<Value>) -> (r: Result<Option<Vec<Value>>, Error>)
    ensures
        match payload {
            Some(Value::Tuple(xs)) => if xs@.len() == 0 {
                r == Ok::<Option<Vec<Value>>, Error>(None)
            } else {
                r == Ok::<Option<Vec<Value>>, Error>(Some(xs))
            },
            Some(Value::List(xs)) => if xs@.len() == 0 {
                r == Ok::<Option<Vec<Value>>, Error>(None)
            } else {
                r == Ok::<Option<Vec<Value>>, Error>(Some(xs))
            },
            _ => r matches Err(Error::InvalidType(t)) && t@ == "tuple variant"@,
        },
{
    match payload {
        Some(Value::Tuple(xs)) => {
            if xs.len() == 0 {
                Ok(None)
            } else {
                Ok(Some(xs))
            }
        },
        Some(Value::List(xs)) => {
            if xs.len() == 0 {
                Ok(None)
            } else {
                Ok(Some(xs))
            }
        },
        _ => Err(Error::InvalidType(String::from_str("tuple variant"))),
    }
}

/// The fields of a variant with named fields: its payload must be a record.
pub fn struct_variant(payload: Option<Value>) -> (r: Result<Vec<(String, Value)>, Error>)
    ensures
        match payload {
            Some(Value::Record(es)) => r == Ok::<Vec<(String, Value)>, Error>(es),
            _ => r matches Err(Error::InvalidType(t)) && t@ == "struct variant"@,
        },
{
    match payload {
        Some(Value::Record(es)) => Ok(es),
        _ => Err(Error::InvalidType(String::from_str("struct variant"))),
    }
}

} // verus!
