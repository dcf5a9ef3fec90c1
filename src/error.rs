use vstd::prelude::*;
use crate::value::{BigInt, Type};

verus! {

/// The fixed-width integer types a number can be narrowed to.
#[derive(Debug, Clone, Copy, PartialEq, Eq, Structural)]
pub enum IntKind {
    I8,
    I16,
    I32,
    I64,
    I128,
    U8,
    U16,
    U32,
    U64,
    U128,
}

impl IntKind {
    pub open spec fn min(self) -> int {
        match self {
            IntKind::I8 => i8::MIN as int,
            IntKind::I16 => i16::MIN as int,
            IntKind::I32 => i32::MIN as int,
            IntKind::I64 => i64::MIN as int,
            IntKind::I128 => i128::MIN as int,
            _ => 0,
        }
    }

    pub open spec fn max(self) -> int {
        match self {
            IntKind::I8 => i8::MAX as int,
            IntKind::I16 => i16::MAX as int,
            IntKind::I32 => i32::MAX as int,
            IntKind::I64 => i64::MAX as int,
            IntKind::I128 => i128::MAX as int,
            IntKind::U8 => u8::MAX as int,
            IntKind::U16 => u16::MAX as int,
            IntKind::U32 => u32::MAX as int,
            IntKind::U64 => u64::MAX as int,
            IntKind::U128 => u128::MAX as int,
        }
    }

    pub open spec fn holds(self, v: int) -> bool {
        self.min() <= v <= self.max()
    }

    /// The Rust name of the type.
    pub fn name(self) -> (r: &'static str)
        ensures
            r@ == self.spec_name(),
    {
        match self {
            IntKind::I8 => "i8",
            IntKind::I16 => "i16",
            IntKind::I32 => "i32",
            IntKind::I64 => "i64",
            IntKind::I128 => "i128",
            IntKind::U8 => "u8",
            IntKind::U16 => "u16",
            IntKind::U32 => "u32",
            IntKind::U64 => "u64",
            IntKind::U128 => "u128",
        }
    }

    pub open spec fn spec_name(self) -> Seq<char> {
        match self {
            IntKind::I8 => "i8"@,
            IntKind::I16 => "i16"@,
            IntKind::I32 => "i32"@,
            IntKind::I64 => "i64"@,
            IntKind::I128 => "i128"@,
            IntKind::U8 => "u8"@,
            IntKind::U16 => "u16"@,
            IntKind::U32 => "u32"@,
            IntKind::U64 => "u64"@,
            IntKind::U128 => "u128"@,
        }
    }
}

/// Why a value could not be decoded.
#[derive(Debug, Clone)]
pub enum Error {
    /// A diagnostic supplied by the caller.
    Custom(String),
    /// The value has another variant than the target expects: expected, found.
    TypeMismatch(Type, Type),
    /// A big integer that does not fit the target width.
    BigInt(BigInt, IntKind),
    /// A value that nothing can be decoded from.
    UnsupportedType(Type),
    /// A number that does not fit the target width.
    Number(i64, IntKind),
    /// A required record field is absent.
    FieldNotFound(String),
    /// An internally tagged record lacks its tag field.
    UnknownTag(String),
    /// A tag that names no variant.
    UnknownVariant(String),
    /// The value does not have the shape described.
    InvalidType(String),
}

} // verus!
