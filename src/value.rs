use vstd::prelude::*;

verus! {

/// The shape of a value, used to report what was expected and what was found.
#[derive(Debug, Clone, Copy, PartialEq, Eq, Structural)]
pub enum Type {
    Bool,
    Number,
    BigInt,
    String,
    List,
    Tuple,
    ValueSet,
    ValueMap,
    Record,
    Unserializable,
}

/// An arbitrary-precision integer: a sign and a magnitude written in base 2^32,
/// most significant digit first.
#[derive(Debug, Clone)]
pub struct BigInt {
    pub negative: bool,
    pub digits: Vec<u32>,
}

pub const DIGIT_BASE: u128 = 0x1_0000_0000;

/// The number that a sequence of base 2^32 digits stands for, most significant first.
pub open spec fn digits_value(d: Seq<u32>) -> nat
    decreases d.len(),
{
    if d.len() == 0 {
        0
    } else {
        (digits_value(d.drop_last()) * 0x1_0000_0000 + d.last()) as nat
    }
}

impl BigInt {
    pub open spec fn magnitude(&self) -> nat {
        digits_value(self.digits@)
    }

    /// The integer this value stands for.
    pub open spec fn value(&self) -> int {
        if self.negative {
            -(self.magnitude() as int)
        } else {
            self.magnitude() as int
        }
    }
}

/// A node of a trace value tree. Each node owns its children.
#[derive(Debug)]
pub enum Value {
    Bool(bool),
    Number(i64),
    BigInt(BigInt),
    String(String),
    List(Vec<Value>),
    Tuple(Vec<Value>),
    ValueSet(Vec<Value>),
    ValueMap(Vec<(Value, Value)>),
    Record(Vec<(String, Value)>),
    Unserializable(String),
}

impl Value {
    pub open spec fn spec_type_of(&self) -> Type {
        match self {
            Value::Bool(_) => Type::Bool,
            Value::Number(_) => Type::Number,
            Value::BigInt(_) => Type::BigInt,
            Value::String(_) => Type::String,
            Value::List(_) => Type::List,
            Value::Tuple(_) => Type::Tuple,
            Value::ValueSet(_) => Type::ValueSet,
            Value::ValueMap(_) => Type::ValueMap,
            Value::Record(_) => Type::Record,
            Value::Unserializable(_) => Type::Unserializable,
        }
    }

    /// The variant of this value.
    #[verifier::when_used_as_spec(spec_type_of)]
    pub fn type_of(&self) -> (r: Type)
        ensures
            r == self.spec_type_of(),
    {
        match self {
            Value::Bool(_) => Type::Bool,
            Value::Number(_) => Type::Number,
            Value::BigInt(_) => Type::BigInt,
            Value::String(_) => Type::String,
            Value::List(_) => Type::List,
            Value::Tuple(_) => Type::Tuple,
            Value::ValueSet(_) => Type::ValueSet,
            Value::ValueMap(_) => Type::ValueMap,
            Value::Record(_) => Type::Record,
            Value::Unserializable(_) => Type::Unserializable,
        }
    }
}

/// The keys of a record's entries, in order.
pub open spec fn record_keys(es: Seq<(String, Value)>) -> Seq<Seq<char>> {
    es.map_values(|e: (String, Value)| e.0@)
}

/// A record holds each key at most once.
pub open spec fn record_wf(es: Seq<(String, Value)>) -> bool {
    forall|i: int, j: int|
        0 <= i < es.len() && 0 <= j < es.len() && i != j ==> #[trigger] es[i].0@ != #[trigger] es[j].0@
}

impl Value {
    /// The node itself is well formed: a record's keys, a set's elements and
    /// a map's keys are each unique.
    pub open spec fn node_wf(&self) -> bool {
        match self {
            Value::Record(es) => record_wf(es@),
            Value::ValueSet(xs) => forall|i: int, j: int|
                0 <= i < xs@.len() && 0 <= j < xs@.len() && i != j ==> #[trigger] xs@[i] != #[trigger] xs@[j],
            Value::ValueMap(es) => forall|i: int, j: int|
                0 <= i < es@.len() && 0 <= j < es@.len() && i != j ==> #[trigger] es@[i].0 != #[trigger] es@[j].0,
            _ => true,
        }
    }
}

} // verus!
