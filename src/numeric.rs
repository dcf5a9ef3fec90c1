use vstd::prelude::*;
use crate::error::{Error, IntKind};
use crate::value::{digits_value, BigInt, Type, Value, DIGIT_BASE};

verus! {

/// The integer a value holds, if it is a number.
pub open spec fn integer_of(v: Value) -> Option<int> {
    match v {
        Value::Number(n) => Some(n as int),
        Value::BigInt(b) => Some(b.value()),
        _ => None,
    }
}

/// What narrowing `v` to `k` gives: the integer, or the error that reports it.
pub open spec fn narrowed(v: Value, k: IntKind) -> Result<int, Error> {
    match v {
        Value::Number(n) => if k.holds(n as int) {
            Ok(n as int)
        } else {
            Err(Error::Number(n, k))
        },
        Value::BigInt(b) => if k.holds(b.value()) {
            Ok(b.value())
        } else {
            Err(Error::BigInt(b, k))
        },
        _ => Err(Error::TypeMismatch(Type::Number, v.spec_type_of())),
    }
}

pub open spec fn signed(negative: bool, m: u128) -> int {
    if negative {
        -(m as int)
    } else {
        m as int
    }
}

proof fn lemma_prefix_grows(d: Seq<u32>, i: int, j: int)
    requires
        0 <= i <= j <= d.len(),
    ensures
        digits_value(d.take(i)) <= digits_value(d.take(j)),
    decreases j - i,
{
    if i < j {
        lemma_prefix_grows(d, i, j - 1);
        assert(d.take(j).drop_last() == d.take(j - 1));
    }
}

/// The magnitude of a big integer, where it fits in 128 bits.
pub fn magnitude_u128(b: &BigInt) -> (r: Option<u128>)
    ensures
        match r {
            Some(m) => m as nat == b.magnitude(),
            None => b.magnitude() > u128::MAX,
        },
{
    let mut acc: u128 = 0;
    let mut i: usize = 0;
    proof {
        assert(b.digits@.take(0) =~= Seq::<u32>::empty());
    }
    while i < b.digits.len()
        invariant
            0 <= i <= b.digits@.len(),
            acc as nat == digits_value(b.digits@.take(i as int)),
        decreases b.digits.len() - i,
    {
        let d = b.digits[i];
        proof {
            assert(b.digits@.take(i + 1).drop_last() == b.digits@.take(i as int));
        }
        if acc >= 0x1_0000_0000_0000_0000_0000_0000 {
            proof {
                lemma_prefix_grows(b.digits@, i + 1, b.digits@.len() as int);
                assert(b.digits@.take(b.digits@.len() as int) == b.digits@);
            }
            return None;
        }
        acc = acc * DIGIT_BASE + d as u128;
        i = i + 1;
    }
    proof {
        assert(b.digits@.take(b.digits@.len() as int) == b.digits@);
    }
    Some(acc)
}

/// How far below zero and how far above it a kind reaches.
fn limits(k: IntKind) -> (r: (u128, u128))
    ensures
        r.0 as int == -k.min(),
        r.1 as int == k.max(),
{
    match k {
        IntKind::I8 => (128, 127),
        IntKind::I16 => (32768, 32767),
        IntKind::I32 => (0x8000_0000, 0x7fff_ffff),
        IntKind::I64 => (0x8000_0000_0000_0000, 0x7fff_ffff_ffff_ffff),
        IntKind::I128 => (
            0x8000_0000_0000_0000_0000_0000_0000_0000,
            0x7fff_ffff_ffff_ffff_ffff_ffff_ffff_ffff,
        ),
        IntKind::U8 => (0, 255),
        IntKind::U16 => (0, 65535),
        IntKind::U32 => (0, 0xffff_ffff),
        IntKind::U64 => (0, 0xffff_ffff_ffff_ffff),
        IntKind::U128 => (0, 0xffff_ffff_ffff_ffff_ffff_ffff_ffff_ffff),
    }
}

fn fits(negative: bool, m: u128, k: IntKind) -> (r: bool)
    ensures
        r == k.holds(signed(negative, m)),
{
    let (below, above) = limits(k);
    if negative {
        m <= below
    } else {
        m <= above
    }
}

/// Narrows a `Number` or `BigInt` to the range of `kind`, as a sign and a magnitude.
/// A value out of range is reported, never truncated.
pub fn decode_integer(value: Value, kind: IntKind) -> (r: Result<(bool, u128), Error>)
    ensures
        match narrowed(value, kind) {
            Ok(x) => r matches Ok(p) && signed(p.0, p.1) == x,
            Err(e) => r == Err::<(bool, u128), Error>(e),
        },
{
    match value {
        Value::Number(n) => {
            let negative = n < 0;
            let m: u128 = if negative {
                (0 - (n as i128)) as u128
            } else {
                n as u128
            };
            if fits(negative, m, kind) {
                Ok((negative, m))
            } else {
                Err(Error::Number(n, kind))
            }
        },
        Value::BigInt(b) => {
            match magnitude_u128(&b) {
                Some(m) => {
                    if fits(b.negative, m, kind) {
                        Ok((b.negative, m))
                    } else {
                        Err(Error::BigInt(b, kind))
                    }
                },
                None => Err(Error::BigInt(b, kind)),
            }
        },
        other => Err(Error::TypeMismatch(Type::Number, other.type_of())),
    }
}

fn to_i128(negative: bool, m: u128) -> (r: i128)
    requires
        IntKind::I128.holds(signed(negative, m)),
    ensures
        r as int == signed(negative, m),
{
    if negative {
        if m == 0x8000_0000_0000_0000_0000_0000_0000_0000 {
            i128::MIN
        } else {
            0 - (m as i128)
        }
    } else {
        m as i128
    }
}

/// Decodes a `i8` from a `Number` or `BigInt`.
pub fn decode_i8(value: Value) -> (r: Result<i8, Error>)
    ensures
        match narrowed(value, IntKind::I8) {
            Ok(x) => r matches Ok(y) && y as int == x,
            Err(e) => r == Err::<i8, Error>(e),
        },
{
    match decode_integer(value, IntKind::I8) {
        Ok((negative, m)) => Ok(to_i128(negative, m) as i8),
        Err(e) => Err(e),
    }
}

/// Decodes a `i16` from a `Number` or `BigInt`.
pub fn decode_i16(value: Value) -> (r: Result<i16, Error>)
    ensures
        match narrowed(value, IntKind::I16) {
            Ok(x) => r matches Ok(y) && y as int == x,
            Err(e) => r == Err::<i16, Error>(e),
        },
{
    match decode_integer(value, IntKind::I16) {
        Ok((negative, m)) => Ok(to_i128(negative, m) as i16),
        Err(e) => Err(e),
    }
}

/// Decodes a `i32` from a `Number` or `BigInt`.
pub fn decode_i32(value: Value) -> (r: Result<i32, Error>)
    ensures
        match narrowed(value, IntKind::I32) {
            Ok(x) => r matches Ok(y) && y as int == x,
            Err(e) => r == Err::<i32, Error>(e),
        },
{
    match decode_integer(value, IntKind::I32) {
        Ok((negative, m)) => Ok(to_i128(negative, m) as i32),
        Err(e) => Err(e),
    }
}

/// Decodes a `i64` from a `Number` or `BigInt`.
pub fn decode_i64(value: Value) -> (r: Result<i64, Error>)
    ensures
        match narrowed(value, IntKind::I64) {
            Ok(x) => r matches Ok(y) && y as int == x,
            Err(e) => r == Err::<i64, Error>(e),
        },
{
    match decode_integer(value, IntKind::I64) {
        Ok((negative, m)) => Ok(to_i128(negative, m) as i64),
        Err(e) => Err(e),
    }
}

/// Decodes a `i128` from a `Number` or `BigInt`.
pub fn decode_i128(value: Value) -> (r: Result<i128, Error>)
    ensures
        match narrowed(value, IntKind::I128) {
            Ok(x) => r matches Ok(y) && y as int == x,
            Err(e) => r == Err::<i128, Error>(e),
        },
{
    match decode_integer(value, IntKind::I128) {
        Ok((negative, m)) => Ok(to_i128(negative, m)),
        Err(e) => Err(e),
    }
}

/// Decodes a `u8` from a `Number` or `BigInt`.
pub fn decode_u8(value: Value) -> (r: Result<u8, Error>)
    ensures
        match narrowed(value, IntKind::U8) {
            Ok(x) => r matches Ok(y) && y as int == x,
            Err(e) => r == Err::<u8, Error>(e),
        },
{
    match decode_integer(value, IntKind::U8) {
        Ok((negative, m)) => Ok(m as u8),
        Err(e) => Err(e),
    }
}

/// Decodes a `u16` from a `Number` or `BigInt`.
pub fn decode_u16(value: Value) -> (r: Result<u16, Error>)
    ensures
        match narrowed(value, IntKind::U16) {
            Ok(x) => r matches Ok(y) && y as int == x,
            Err(e) => r == Err::<u16, Error>(e),
        },
{
    match decode_integer(value, IntKind::U16) {
        Ok((negative, m)) => Ok(m as u16),
        Err(e) => Err(e),
    }
}

/// Decodes a `u32` from a `Number` or `BigInt`.
pub fn decode_u32(value: Value) -> (r: Result<u32, Error>)
    ensures
        match narrowed(value, IntKind::U32) {
            Ok(x) => r matches Ok(y) && y as int == x,
            Err(e) => r == Err::<u32, Error>(e),
        },
{
    match decode_integer(value, IntKind::U32) {
        Ok((negative, m)) => Ok(m as u32),
        Err(e) => Err(e),
    }
}

/// Decodes a `u64` from a `Number` or `BigInt`.
pub fn decode_u64(value: Value) -> (r: Result<u64, Error>)
    ensures
        match narrowed(value, IntKind::U64) {
            Ok(x) => r matches Ok(y) && y as int == x,
            Err(e) => r == Err::<u64, Error>(e),
        },
{
    match decode_integer(value, IntKind::U64) {
        Ok((negative, m)) => Ok(m as u64),
        Err(e) => Err(e),
    }
}

/// Decodes a `u128` from a `Number` or `BigInt`.
pub fn decode_u128(value: Value) -> (r: Result<u128, Error>)
    ensures
        match narrowed(value, IntKind::U128) {
            Ok(x) => r matches Ok(y) && y as int == x,
            Err(e) => r == Err::<u128, Error>(e),
        },
{
    match decode_integer(value, IntKind::U128) {
        Ok((negative, m)) => Ok(m),
        Err(e) => Err(e),
    }
}

} // verus!
