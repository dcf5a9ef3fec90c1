use vstd::prelude::*;
use crate::decode::{decode_bool, decode_list, decode_map, decode_set, decode_string, decode_tuple, mismatch};
use crate::error::{Error, IntKind};
use crate::numeric::{decode_i8, decode_i16, decode_i32, decode_i64, decode_i128, decode_u8, decode_u16, decode_u32, decode_u64, decode_u128, narrowed};
use crate::value::{Type, Value};

verus! {

/// A type that can be decoded from a trace value.
pub trait DecodeItfValue: Sized {
    /// Whether `r` is what decoding `value` gives.
    spec fn decodes(value: Value, r: Result<Self, Error>) -> bool;

    /// Decodes a value, taking it over.
    fn decode(value: Value) -> (r: Result<Self, Error>)
        ensures
            Self::decodes(value, r),
    ;
}

impl DecodeItfValue for bool {
    open spec fn decodes(value: Value, r: Result<bool, Error>) -> bool {
        match value {
            Value::Bool(b) => r == Ok::<bool, Error>(b),
            _ => r == Err::<bool, Error>(mismatch(Type::Bool, value)),
        }
    }

    fn decode(value: Value) -> (r: Result<bool, Error>) {
        decode_bool(value)
    }
}

impl DecodeItfValue for String {
    open spec fn decodes(value: Value, r: Result<String, Error>) -> bool {
        match value {
            Value::String(s) => r == Ok::<String, Error>(s),
            _ => r == Err::<String, Error>(mismatch(Type::String, value)),
        }
    }

    fn decode(value: Value) -> (r: Result<String, Error>) {
        decode_string(value)
    }
}

impl DecodeItfValue for i8 {
    open spec fn decodes(value: Value, r: Result<i8, Error>) -> bool {
        match narrowed(value, IntKind::I8) {
            Ok(x) => r matches Ok(y) && y as int == x,
            Err(e) => r == Err::<i8, Error>(e),
        }
    }

    fn decode(value: Value) -> (r: Result<i8, Error>) {
        decode_i8(value)
    }
}

impl DecodeItfValue for i16 {
    open spec fn decodes(value: Value, r: Result<i16, Error>) -> bool {
        match narrowed(value, IntKind::I16) {
            Ok(x) => r matches Ok(y) && y as int == x,
            Err(e) => r == Err::<i16, Error>(e),
        }
    }

    fn decode(value: Value) -> (r: Result<i16, Error>) {
        decode_i16(value)
    }
}

impl DecodeItfValue for i32 {
    open spec fn decodes(value: Value, r: Result<i32, Error>) -> bool {
        match narrowed(value, IntKind::I32) {
            Ok(x) => r matches Ok(y) && y as int == x,
            Err(e) => r == Err::<i32, Error>(e),
        }
    }

    fn decode(value: Value) -> (r: Result<i32, Error>) {
        decode_i32(value)
    }
}

impl DecodeItfValue for i64 {
    open spec fn decodes(value: Value, r: Result<i64, Error>) -> bool {
        match narrowed(value, IntKind::I64) {
            Ok(x) => r matches Ok(y) && y as int == x,
            Err(e) => r == Err::<i64, Error>(e),
        }
    }

    fn decode(value: Value) -> (r: Result<i64, Error>) {
        decode_i64(value)
    }
}

impl DecodeItfValue for i128 {
    open spec fn decodes(value: Value, r: Result<i128, Error>) -> bool {
        match narrowed(value, IntKind::I128) {
            Ok(x) => r matches Ok(y) && y as int == x,
            Err(e) => r == Err::<i128, Error>(e),
        }
    }

    fn decode(value: Value) -> (r: Result<i128, Error>) {
        decode_i128(value)
    }
}

impl DecodeItfValue for u8 {
    open spec fn decodes(value: Value, r: Result<u8, Error>) -> bool {
        match narrowed(value, IntKind::U8) {
            Ok(x) => r matches Ok(y) && y as int == x,
            Err(e) => r == Err::<u8, Error>(e),
        }
    }

    fn decode(value: Value) -> (r: Result<u8, Error>) {
        decode_u8(value)
    }
}

impl DecodeItfValue for u16 {
    open spec fn decodes(value: Value, r: Result<u16, Error>) -> bool {
        match narrowed(value, IntKind::U16) {
            Ok(x) => r matches Ok(y) && y as int == x,
            Err(e) => r == Err::<u16, Error>(e),
        }
    }

    fn decode(value: Value) -> (r: Result<u16, Error>) {
        decode_u16(value)
    }
}

impl DecodeItfValue for u32 {
    open spec fn decodes(value: Value, r: Result<u32, Error>) -> bool {
        match narrowed(value, IntKind::U32) {
            Ok(x) => r matches Ok(y) && y as int == x,
            Err(e) => r == Err::<u32, Error>(e),
        }
    }

    fn decode(value: Value) -> (r: Result<u32, Error>) {
        decode_u32(value)
    }
}

impl DecodeItfValue for u64 {
    open spec fn decodes(value: Value, r: Result<u64, Error>) -> bool {
        match narrowed(value, IntKind::U64) {
            Ok(x) => r matches Ok(y) && y as int == x,
            Err(e) => r == Err::<u64, Error>(e),
        }
    }

    fn decode(value: Value) -> (r: Result<u64, Error>) {
        decode_u64(value)
    }
}

impl DecodeItfValue for u128 {
    open spec fn decodes(value: Value, r: Result<u128, Error>) -> bool {
        match narrowed(value, IntKind::U128) {
            Ok(x) => r matches Ok(y) && y as int == x,
            Err(e) => r == Err::<u128, Error>(e),
        }
    }

    fn decode(value: Value) -> (r: Result<u128, Error>) {
        decode_u128(value)
    }
}

/// Whether `r` is what decoding the elements `xs` one by one gives: all of
/// them, in order; or the error of the first element that fails.
pub open spec fn elements_decode<T: DecodeItfValue>(xs: Seq<Value>, r: Result<Vec<T>, Error>) -> bool {
    match r {
        Ok(out) => out@.len() == xs.len() && forall|i: int|
            0 <= i < xs.len() ==> T::decodes(#[trigger] xs[i], Ok::<T, Error>(out@[i])),
        Err(e) => exists|i: int|
            0 <= i < xs.len() && #[trigger] T::decodes(xs[i], Err::<T, Error>(e)) && forall|j: int|
                0 <= j < i ==> decodes_ok::<T>(#[trigger] xs[j]),
    }
}

/// Whether some value of `T` is what decoding `v` gives.
pub open spec fn decodes_ok<T: DecodeItfValue>(v: Value) -> bool {
    exists|y: T| T::decodes(v, Ok::<T, Error>(y))
}

/// Decodes each element of `xs` in turn, stopping at the first that fails.
pub fn decode_elements<T: DecodeItfValue>(xs: Vec<Value>) -> (r: Result<Vec<T>, Error>)
    ensures
        elements_decode(xs@, r),
{
    let ghost all = xs@;
    let mut rest = xs;
    let mut out: Vec<T> = Vec::new();
    while rest.len() > 0
        invariant
            all == xs@,
            out@.len() + rest@.len() == all.len(),
            rest@ == all.skip(out@.len() as int),
            forall|i: int| 0 <= i < out@.len() ==> T::decodes(#[trigger] all[i], Ok::<T, Error>(out@[i])),
        decreases rest.len(),
    {
        let ghost k = out@.len() as int;
        let x = rest.remove(0);
        proof {
            assert(x == all[k]);
            assert(rest@ == all.skip(k + 1));
        }
        match T::decode(x) {
            Ok(y) => {
                out.push(y);
            },
            Err(e) => {
                proof {
                    assert forall|j: int| 0 <= j < k implies decodes_ok::<T>(#[trigger] all[j]) by {
                        assert(T::decodes(all[j], Ok::<T, Error>(out@[j])));
                    }
                    assert(T::decodes(all[k], Err::<T, Error>(e)));
                    assert(elements_decode(all, Err::<Vec<T>, Error>(e)));
                }
                return Err(e);
            },
        }
    }
    Ok(out)
}

impl<T: DecodeItfValue> DecodeItfValue for Vec<T> {
    open spec fn decodes(value: Value, r: Result<Vec<T>, Error>) -> bool {
        match value {
            Value::List(xs) => elements_decode(xs@, r),
            _ => r == Err::<Vec<T>, Error>(mismatch(Type::List, value)),
        }
    }

    fn decode(value: Value) -> (r: Result<Vec<T>, Error>) {
        match decode_list(value) {
            Ok(xs) => decode_elements(xs),
            Err(e) => Err(e),
        }
    }
}

impl<A: DecodeItfValue, B: DecodeItfValue> DecodeItfValue for (A, B) {
    open spec fn decodes(value: Value, r: Result<(A, B), Error>) -> bool {
        match value {
            Value::Tuple(xs) => if xs@.len() == 2 {
                match r {
                    Ok(p) => A::decodes(xs@[0], Ok::<A, Error>(p.0)) && B::decodes(
                        xs@[1],
                        Ok::<B, Error>(p.1),
                    ),
                    Err(e) => A::decodes(xs@[0], Err::<A, Error>(e)) || (exists|a: A|
                        A::decodes(xs@[0], Ok::<A, Error>(a))) && B::decodes(
                        xs@[1],
                        Err::<B, Error>(e),
                    ),
                }
            } else {
                r == Err::<(A, B), Error>(mismatch(Type::Tuple, value))
            },
            _ => r == Err::<(A, B), Error>(mismatch(Type::Tuple, value)),
        }
    }

    fn decode(value: Value) -> (r: Result<(A, B), Error>) {
        let mut xs = match decode_tuple(value, 2) {
            Ok(xs) => xs,
            Err(e) => {
                return Err(e);
            },
        };
        let ghost all = xs@;
        let second = xs.remove(1);
        let first = xs.remove(0);
        let a = match A::decode(first) {
            Ok(a) => a,
            Err(e) => {
                return Err(e);
            },
        };
        match B::decode(second) {
            Ok(b) => Ok((a, b)),
            Err(e) => Err(e),
        }
    }
}


impl<A: DecodeItfValue> DecodeItfValue for (A,) {
    open spec fn decodes(value: Value, r: Result<(A,), Error>) -> bool {
        match value {
            Value::Tuple(xs) => if xs@.len() == 1 {
                match r {
                    Ok(p) => A::decodes(xs@[0], Ok::<A, Error>(p.0)),
                    Err(e) => A::decodes(xs@[0], Err::<A, Error>(e)),
                }
            } else {
                r == Err::<(A,), Error>(mismatch(Type::Tuple, value))
            },
            _ => r == Err::<(A,), Error>(mismatch(Type::Tuple, value)),
        }
    }

    fn decode(value: Value) -> (r: Result<(A,), Error>) {
        let mut xs = match decode_tuple(value, 1) {
            Ok(xs) => xs,
            Err(e) => {
                return Err(e);
            },
        };
        let first = xs.remove(0);
        match A::decode(first) {
            Ok(a) => Ok((a,)),
            Err(e) => Err(e),
        }
    }
}

impl<A: DecodeItfValue, B: DecodeItfValue, C: DecodeItfValue> DecodeItfValue for (A, B, C) {
    open spec fn decodes(value: Value, r: Result<(A, B, C), Error>) -> bool {
        match value {
            Value::Tuple(xs) => if xs@.len() == 3 {
                match r {
                    Ok(p) => A::decodes(xs@[0], Ok::<A, Error>(p.0)) && B::decodes(
                        xs@[1],
                        Ok::<B, Error>(p.1),
                    ) && C::decodes(xs@[2], Ok::<C, Error>(p.2)),
                    Err(e) => A::decodes(xs@[0], Err::<A, Error>(e)) || (decodes_ok::<A>(xs@[0])
                        && B::decodes(xs@[1], Err::<B, Error>(e))) || (decodes_ok::<A>(xs@[0])
                        && decodes_ok::<B>(xs@[1]) && C::decodes(xs@[2], Err::<C, Error>(e))),
                }
            } else {
                r == Err::<(A, B, C), Error>(mismatch(Type::Tuple, value))
            },
            _ => r == Err::<(A, B, C), Error>(mismatch(Type::Tuple, value)),
        }
    }

    fn decode(value: Value) -> (r: Result<(A, B, C), Error>) {
        let mut xs = match decode_tuple(value, 3) {
            Ok(xs) => xs,
            Err(e) => {
                return Err(e);
            },
        };
        let third = xs.remove(2);
        let second = xs.remove(1);
        let first = xs.remove(0);
        let a = match A::decode(first) {
            Ok(a) => a,
            Err(e) => {
                return Err(e);
            },
        };
        let b = match B::decode(second) {
            Ok(b) => b,
            Err(e) => {
                return Err(e);
            },
        };
        match C::decode(third) {
            Ok(c) => Ok((a, b, c)),
            Err(e) => Err(e),
        }
    }
}

/// Decodes the elements of a set, each on its own. Elements that decode to
/// equal values are all kept.
pub fn decode_set_of<T: DecodeItfValue>(value: Value) -> (r: Result<Vec<T>, Error>)
    ensures
        match value {
            Value::ValueSet(xs) => elements_decode(xs@, r),
            _ => r == Err::<Vec<T>, Error>(mismatch(Type::ValueSet, value)),
        },
{
    match decode_set(value) {
        Ok(xs) => decode_elements(xs),
        Err(e) => Err(e),
    }
}

/// Whether decoding one entry of a map gives `r`: the key, then the value.
pub open spec fn entry_decodes<K: DecodeItfValue, V: DecodeItfValue>(
    e: (Value, Value),
    r: Result<(K, V), Error>,
) -> bool {
    match r {
        Ok(p) => K::decodes(e.0, Ok::<K, Error>(p.0)) && V::decodes(e.1, Ok::<V, Error>(p.1)),
        Err(err) => K::decodes(e.0, Err::<K, Error>(err)) || (decodes_ok::<K>(e.0) && V::decodes(
            e.1,
            Err::<V, Error>(err),
        )),
    }
}

/// Whether some pair is what decoding the entry `e` gives.
pub open spec fn entry_ok<K: DecodeItfValue, V: DecodeItfValue>(e: (Value, Value)) -> bool {
    exists|p: (K, V)| entry_decodes::<K, V>(e, Ok::<(K, V), Error>(p))
}

/// Whether `r` is what decoding the entries `es` one by one gives: every key
/// and value, paired as they stand; or the error of the first that fails.
pub open spec fn entries_decode<K: DecodeItfValue, V: DecodeItfValue>(
    es: Seq<(Value, Value)>,
    r: Result<Vec<(K, V)>, Error>,
) -> bool {
    match r {
        Ok(out) => out@.len() == es.len() && forall|i: int|
            0 <= i < es.len() ==> entry_decodes::<K, V>(#[trigger] es[i], Ok::<(K, V), Error>(out@[i])),
        Err(e) => exists|i: int|
            0 <= i < es.len() && #[trigger] entry_decodes::<K, V>(es[i], Err::<(K, V), Error>(e))
                && forall|j: int| 0 <= j < i ==> entry_ok::<K, V>(#[trigger] es[j]),
    }
}

/// Decodes one entry of a map: its key, then its value.
pub fn decode_entry<K: DecodeItfValue, V: DecodeItfValue>(e: (Value, Value)) -> (r: Result<(K, V), Error>)
    ensures
        entry_decodes(e, r),
{
    let (k, v) = e;
    let key = match K::decode(k) {
        Ok(key) => key,
        Err(err) => {
            return Err(err);
        },
    };
    match V::decode(v) {
        Ok(val) => Ok((key, val)),
        Err(err) => Err(err),
    }
}

/// Decodes the entries of a map, each key and value on its own, keeping them
/// paired as they stand.
pub fn decode_map_of<K: DecodeItfValue, V: DecodeItfValue>(value: Value) -> (r: Result<Vec<(K, V)>, Error>)
    ensures
        match value {
            Value::ValueMap(es) => entries_decode(es@, r),
            _ => r == Err::<Vec<(K, V)>, Error>(mismatch(Type::ValueMap, value)),
        },
{
    let es = match decode_map(value) {
        Ok(es) => es,
        Err(e) => {
            return Err(e);
        },
    };
    let ghost all = es@;
    let mut rest = es;
    let mut out: Vec<(K, V)> = Vec::new();
    while rest.len() > 0
        invariant
            value matches Value::ValueMap(ys) && ys@ == all,
            out@.len() + rest@.len() == all.len(),
            rest@ == all.skip(out@.len() as int),
            forall|i: int|
                0 <= i < out@.len() ==> entry_decodes::<K, V>(#[trigger] all[i], Ok::<(K, V), Error>(out@[i])),
        decreases rest.len(),
    {
        let ghost k = out@.len() as int;
        let x = rest.remove(0);
        proof {
            assert(x == all[k]);
            assert(rest@ == all.skip(k + 1));
        }
        match decode_entry::<K, V>(x) {
            Ok(p) => {
                out.push(p);
            },
            Err(e) => {
                proof {
                    assert forall|j: int| 0 <= j < k implies entry_ok::<K, V>(#[trigger] all[j]) by {
                        assert(entry_decodes::<K, V>(all[j], Ok::<(K, V), Error>(out@[j])));
                    }
                    assert(entry_decodes::<K, V>(all[k], Err::<(K, V), Error>(e)));
                }
                return Err(e);
            },
        }
    }
    Ok(out)
}

} // verus!
