use vstd::prelude::*;
use crate::decode::{decode_string, mismatch};
use crate::error::Error;
use crate::value::{record_keys, Type, Value};

verus! {

/// The text of each name.
pub open spec fn names_of(v: Seq<String>) -> Seq<Seq<char>> {
    v.map_values(|s: String| s@)
}

/// The first position at which `s` stands in `names`, if any.
pub open spec fn first_index(names: Seq<Seq<char>>, s: Seq<char>) -> Option<int> {
    if exists|i: int| 0 <= i < names.len() && names[i] == s {
        Some(
            choose|i: int|
                0 <= i < names.len() && names[i] == s && forall|j: int|
                    0 <= j < i ==> names[j] != s,
        )
    } else {
        None
    }
}

pub(crate) proof fn lemma_first_index(names: Seq<Seq<char>>, s: Seq<char>, i: int)
    requires
        0 <= i < names.len(),
        names[i] == s,
        forall|j: int| 0 <= j < i ==> names[j] != s,
    ensures
        first_index(names, s) == Some(i),
{
    let k = choose|k: int|
        0 <= k < names.len() && names[k] == s && forall|j: int| 0 <= j < k ==> names[j] != s;
    assert(0 <= k < names.len() && names[k] == s);
    if k < i {
        assert(names[k] != s);
    }
    if k > i {
        assert(names[i] != s);
    }
}

proof fn lemma_least_position(names: Seq<Seq<char>>, s: Seq<char>, i: int)
    requires
        0 <= i < names.len(),
        names[i] == s,
    ensures
        exists|k: int| 0 <= k < names.len() && names[k] == s && forall|j: int| 0 <= j < k ==> names[j] != s,
    decreases i,
{
    if exists|j: int| 0 <= j < i && names[j] == s {
        let j = choose|j: int| 0 <= j < i && names[j] == s;
        lemma_least_position(names, s, j);
    } else {
        assert(forall|j: int| 0 <= j < i ==> names[j] != s);
    }
}

/// Where `first_index` gives a position, `s` stands there.
pub(crate) proof fn lemma_first_index_found(names: Seq<Seq<char>>, s: Seq<char>)
    requires
        first_index(names, s) is Some,
    ensures
        0 <= first_index(names, s)->Some_0 < names.len(),
        names[first_index(names, s)->Some_0] == s,
{
    let i = choose|i: int| 0 <= i < names.len() && names[i] == s;
    lemma_least_position(names, s, i);
}

/// The position of the first entry of a record with key `k`, if any.
pub open spec fn key_index(es: Seq<(String, Value)>, k: Seq<char>) -> Option<int> {
    first_index(record_keys(es), k)
}

/// Finds the first position of `s` in `names`.
pub fn find_name(names: &Vec<String>, s: &String) -> (r: Option<usize>)
    ensures
        match r {
            Some(k) => first_index(names_of(names@), s@) == Some(k as int) && k < names@.len(),
            None => first_index(names_of(names@), s@) is None,
        },
{
    let mut i: usize = 0;
    while i < names.len()
        invariant
            0 <= i <= names@.len(),
            forall|j: int| 0 <= j < i ==> names_of(names@)[j] != s@,
        decreases names.len() - i,
    {
        if names[i] == *s {
            proof {
                lemma_first_index(names_of(names@), s@, i as int);
            }
            return Some(i);
        }
        i = i + 1;
    }
    None
}

/// Removes the first entry of a record with key `key`, and gives its value.
pub fn take_field(record: &mut Vec<(String, Value)>, key: &String) -> (r: Option<Value>)
    ensures
        match key_index(old(record)@, key@) {
            Some(i) => r == Some(old(record)@[i].1) && final(record)@ == old(record)@.remove(i),
            None => r is None && final(record)@ == old(record)@,
        },
{
    let ghost start = record@;
    let mut i: usize = 0;
    while i < record.len()
        invariant
            0 <= i <= record@.len(),
            record@ == start,
            start == old(record)@,
            forall|j: int| 0 <= j < i ==> record_keys(record@)[j] != key@,
        decreases record.len() - i,
    {
        proof {
            assert(record_keys(record@)[i as int] == record@[i as int].0@);
        }
        if record[i].0 == *key {
            proof {
                assert(record_keys(record@)[i as int] == record@[i as int].0@);
                lemma_first_index(record_keys(record@), key@, i as int);
            }
            let e = record.remove(i);
            proof {
                assert(e == start[i as int]);
                assert(key_index(start, key@) == Some(i as int));
                assert(record@ == start.remove(i as int));
            }
            return Some(e.1);
        }
        i = i + 1;
    }
    None
}

/// The values of `fields`, taken out of a record one after another, in order;
/// or the first field that is absent from what is left.
pub open spec fn take_fields(es: Seq<(String, Value)>, fields: Seq<Seq<char>>) -> Result<
    Seq<Value>,
    Seq<char>,
>
    decreases fields.len(),
{
    if fields.len() == 0 {
        Ok(Seq::empty())
    } else {
        match key_index(es, fields[0]) {
            None => Err(fields[0]),
            Some(i) => match take_fields(es.remove(i), fields.drop_first()) {
                Ok(vs) => Ok(seq![es[i].1] + vs),
                Err(k) => Err(k),
            },
        }
    }
}

/// Whether `r` is what taking `fields` out of a record gives.
pub open spec fn fields_outcome(r: Result<Vec<Value>, Error>, t: Result<Seq<Value>, Seq<char>>) -> bool {
    match t {
        Ok(vs) => r matches Ok(out) && out@ == vs,
        Err(k) => r matches Err(Error::FieldNotFound(n)) && n@ == k,
    }
}

/// Takes the value of each of `fields` out of a record, in order. Keys that no
/// field names are left alone. Every field is taken before any is decoded; a
/// caller that must decode each field as it is taken calls `take_field` per field.
pub fn decode_fields(record: Vec<(String, Value)>, fields: &Vec<String>) -> (r: Result<Vec<Value>, Error>)
    ensures
        fields_outcome(r, take_fields(record@, names_of(fields@))),
{
    let ghost all = names_of(fields@);
    let ghost whole = take_fields(record@, all);
    let mut rest = record;
    let mut out: Vec<Value> = Vec::new();
    let mut i: usize = 0;
    proof {
        assert(all.skip(0) == all);
    }
    while i < fields.len()
        invariant
            0 <= i <= fields@.len(),
            all == names_of(fields@),
            whole == take_fields(record@, all),
            whole == match take_fields(rest@, all.skip(i as int)) {
                Ok(vs) => Ok(out@ + vs),
                Err(k) => Err::<Seq<Value>, Seq<char>>(k),
            },
        decreases fields.len() - i,
    {
        let ghost before = rest@;
        proof {
            assert(all.skip(i as int)[0] == fields@[i as int]@);
            assert(all.skip(i as int).drop_first() == all.skip(i + 1));
        }
        match take_field(&mut rest, &fields[i]) {
            Some(v) => {
                proof {
                    let t = take_fields(rest@, all.skip(i + 1));
                    if t is Ok {
                        assert(out@.push(v) + t->Ok_0 == out@ + (seq![v] + t->Ok_0));
                    }
                }
                out.push(v);
            },
            None => {
                proof {
                    assert(take_fields(before, all.skip(i as int)) == Err::<Seq<Value>, Seq<char>>(
                        fields@[i as int]@,
                    ));
                }
                return Err(Error::FieldNotFound(fields[i].clone()));
            },
        }
        i = i + 1;
    }
    proof {
        assert(all.skip(i as int).len() == 0);
        assert(out@ + Seq::<Value>::empty() == out@);
    }
    Ok(out)
}

/// Decodes a record with the given fields: the value of each, in the order given.
pub fn decode_struct(value: Value, fields: &Vec<String>) -> (r: Result<Vec<Value>, Error>)
    ensures
        match value {
            Value::Record(es) => fields_outcome(r, take_fields(es@, names_of(fields@))),
            _ => r == Err::<Vec<Value>, Error>(mismatch(Type::Record, value)),
        },
{
    match value {
        Value::Record(es) => decode_fields(es, fields),
        other => Err(Error::TypeMismatch(Type::Record, other.type_of())),
    }
}


/// Decodes a variant of an enumeration whose variants carry no fields: the
/// position of the variant whose name the string is.
pub fn decode_unit_enum(value: Value, variants: &Vec<String>) -> (r: Result<usize, Error>)
    ensures
        match value {
            Value::String(s) => match first_index(names_of(variants@), s@) {
                Some(i) => r == Ok::<usize, Error>(i as usize),
                None => r matches Err(Error::UnknownVariant(u)) && u@ == s@,
            },
            _ => r matches Err(Error::InvalidType(t)) && t@ == "string"@,
        },
{
    match value {
        Value::String(s) => match find_name(variants, &s) {
            Some(i) => Ok(i),
            None => Err(Error::UnknownVariant(s)),
        },
        _ => Err(Error::InvalidType(String::from_str("string"))),
    }
}

/// What decoding an internally tagged record gives, once its tag is known:
/// the variant at `index` in `variants`, with the fields of `fields[index]`
/// taken from `rest`, the record without its tag.
pub open spec fn variant_outcome(
    r: Result<(usize, Vec<Value>), Error>,
    tag_value: Value,
    rest: Seq<(String, Value)>,
    variants: Seq<String>,
    fields: Seq<Vec<String>>,
) -> bool {
    match tag_value {
        Value::String(s) => match first_index(names_of(variants), s@) {
            None => r matches Err(Error::UnknownVariant(u)) && u@ == s@,
            Some(k) => match take_fields(rest, names_of(fields[k]@)) {
                Ok(vs) => r matches Ok(p) && p.0 == k && p.1@ == vs,
                Err(n) => r matches Err(Error::FieldNotFound(m)) && m@ == n,
            },
        },
        _ => r == Err::<(usize, Vec<Value>), Error>(mismatch(Type::String, tag_value)),
    }
}

/// Decodes an internally tagged enumeration whose variants have named fields.
/// The record holds the tag field `tag`, whose string names the variant, beside
/// that variant's fields. Gives the variant's position and its field values.
pub fn decode_tagged_enum(
    value: Value,
    tag: &String,
    variants: &Vec<String>,
    fields: &Vec<Vec<String>>,
) -> (r: Result<(usize, Vec<Value>), Error>)
    requires
        variants@.len() == fields@.len(),
    ensures
        match value {
            Value::Record(es) => match key_index(es@, tag@) {
                None => r matches Err(Error::UnknownTag(t)) && t@ == tag@,
                Some(i) => variant_outcome(r, es@[i].1, es@.remove(i), variants@, fields@),
            },
            _ => r == Err::<(usize, Vec<Value>), Error>(mismatch(Type::Record, value)),
        },
{
    let mut record = match value {
        Value::Record(es) => es,
        other => {
            return Err(Error::TypeMismatch(Type::Record, other.type_of()));
        },
    };
    let tag_value = match take_field(&mut record, tag) {
        Some(v) => v,
        None => {
            return Err(Error::UnknownTag(tag.clone()));
        },
    };
    decode_variant(tag_value, record, variants, fields)
}

/// Selects the variant that a tag names and takes its fields from the record
/// that is left once the tag is removed.
pub fn decode_variant(
    tag_value: Value,
    rest: Vec<(String, Value)>,
    variants: &Vec<String>,
    fields: &Vec<Vec<String>>,
) -> (r: Result<(usize, Vec<Value>), Error>)
    requires
        variants@.len() == fields@.len(),
    ensures
        variant_outcome(r, tag_value, rest@, variants@, fields@),
{
    let name = match decode_string(tag_value) {
        Ok(s) => s,
        Err(e) => {
            return Err(e);
        },
    };
    match find_name(variants, &name) {
        Some(k) => {
            let got = decode_fields(rest, &fields[k]);
            match got {
                Ok(vs) => Ok((k, vs)),
                Err(e) => Err(e),
            }
        },
        None => Err(Error::UnknownVariant(name)),
    }
}

} // verus!
