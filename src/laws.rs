use vstd::prelude::*;
use crate::contract::{elements_decode, entries_decode, entry_decodes, DecodeItfValue};
use crate::error::{Error, IntKind};
use crate::numeric::narrowed;
use crate::tagged::{first_index, key_index, lemma_first_index, lemma_first_index_found, names_of, take_fields};
use crate::value::{record_keys, record_wf, BigInt, Value};

verus! {

/// A record built from field names and their values, in that order.
pub open spec fn record_of(names: Seq<String>, vs: Seq<Value>) -> Seq<(String, Value)> {
    Seq::new(names.len(), |i: int| (names[i], vs[i]))
}

/// A record built from fields and values gives back, when those fields are
/// decoded from it in the same order, exactly the values it was built from.
pub proof fn lemma_fields_recovered(names: Seq<String>, vs: Seq<Value>)
    requires
        names.len() == vs.len(),
    ensures
        take_fields(record_of(names, vs), names_of(names)) == Ok::<Seq<Value>, Seq<char>>(vs),
    decreases names.len(),
{
    let es = record_of(names, vs);
    let fields = names_of(names);
    if names.len() > 0 {
        assert(record_keys(es)[0] == fields[0]);
        assert(first_index(record_keys(es), fields[0]) == Some(0int)) by {
            let k = choose|k: int|
                0 <= k < record_keys(es).len() && record_keys(es)[k] == fields[0] && forall|j: int|
                    0 <= j < k ==> record_keys(es)[j] != fields[0];
            assert(0 <= k < record_keys(es).len() && record_keys(es)[k] == fields[0]);
            if k > 0 {
                assert(record_keys(es)[0] != fields[0]);
            }
        }
        assert(es.remove(0) == record_of(names.drop_first(), vs.drop_first()));
        assert(fields.drop_first() == names_of(names.drop_first()));
        lemma_fields_recovered(names.drop_first(), vs.drop_first());
        assert(es[0].1 == vs[0]);
        assert(seq![vs[0]] + vs.drop_first() == vs);
    } else {
        assert(vs == Seq::<Value>::empty());
    }
}

/// The value a record holds under key `k`.
pub open spec fn field_value(es: Seq<(String, Value)>, k: Seq<char>) -> Value {
    es[key_index(es, k)->Some_0].1
}

proof fn lemma_key_index_some(es: Seq<(String, Value)>, k: Seq<char>)
    requires
        key_index(es, k) is Some,
    ensures
        0 <= key_index(es, k)->Some_0 < es.len(),
        es[key_index(es, k)->Some_0].0@ == k,
{
    lemma_first_index_found(record_keys(es), k);
    let i = key_index(es, k)->Some_0;
    assert(record_keys(es)[i] == es[i].0@);
}

proof fn lemma_key_at(es: Seq<(String, Value)>, j: int)
    requires
        record_wf(es),
        0 <= j < es.len(),
    ensures
        key_index(es, es[j].0@) == Some(j),
{
    assert forall|m: int| 0 <= m < j implies record_keys(es)[m] != es[j].0@ by {
        assert(record_keys(es)[m] == es[m].0@);
    }
    assert(record_keys(es)[j] == es[j].0@);
    lemma_first_index(record_keys(es), es[j].0@, j);
}

/// A record whose keys are unique gives, for distinct fields that it all
/// holds, the value under each field, in the order the fields are asked
/// for; its other keys are ignored.
pub proof fn lemma_struct_fields_found(es: Seq<(String, Value)>, fields: Seq<Seq<char>>)
    requires
        record_wf(es),
        forall|i: int, j: int|
            0 <= i < fields.len() && 0 <= j < fields.len() && i != j ==> #[trigger] fields[i] != #[trigger] fields[j],
        forall|i: int| 0 <= i < fields.len() ==> #[trigger] key_index(es, fields[i]) is Some,
    ensures
        take_fields(es, fields) is Ok,
        take_fields(es, fields)->Ok_0.len() == fields.len(),
        forall|i: int|
            0 <= i < fields.len() ==> take_fields(es, fields)->Ok_0[i] == field_value(es, #[trigger] fields[i]),
    decreases fields.len(),
{
    if fields.len() > 0 {
        let f0 = fields[0];
        assert(key_index(es, fields[0]) is Some);
        lemma_key_index_some(es, f0);
        let i0 = key_index(es, f0)->Some_0;
        let rest = es.remove(i0);
        let tail = fields.drop_first();
        assert(record_wf(rest)) by {
            assert forall|a: int, b: int|
                0 <= a < rest.len() && 0 <= b < rest.len() && a != b implies #[trigger] rest[a].0@
                != #[trigger] rest[b].0@ by {
                let a0 = if a < i0 { a } else { a + 1 };
                let b0 = if b < i0 { b } else { b + 1 };
                assert(rest[a] == es[a0]);
                assert(rest[b] == es[b0]);
            }
        }
        assert forall|m: int| 0 <= m < tail.len() implies #[trigger] key_index(rest, tail[m]) is Some
            && field_value(rest, tail[m]) == field_value(es, tail[m]) by {
            let f = tail[m];
            assert(f == fields[m + 1]);
            assert(key_index(es, fields[m + 1]) is Some);
            lemma_key_index_some(es, f);
            let j = key_index(es, f)->Some_0;
            assert(j != i0);
            let j1 = if j < i0 { j } else { j - 1 };
            assert(rest[j1] == es[j]);
            lemma_key_at(rest, j1);
        }
        assert forall|a: int, b: int|
            0 <= a < tail.len() && 0 <= b < tail.len() && a != b implies #[trigger] tail[a]
            != #[trigger] tail[b] by {
            assert(tail[a] == fields[a + 1]);
            assert(tail[b] == fields[b + 1]);
        }
        lemma_struct_fields_found(rest, tail);
        let vs = take_fields(rest, tail)->Ok_0;
        assert forall|i: int| 0 <= i < fields.len() implies take_fields(es, fields)->Ok_0[i]
            == field_value(es, #[trigger] fields[i]) by {
            if i > 0 {
                assert(fields[i] == tail[i - 1]);
                assert(vs[i - 1] == field_value(rest, tail[i - 1]));
            }
        }
    }
}

/// An empty record lacks every field: decoding any fields from it reports the first.
pub proof fn lemma_empty_record_lacks_field(fields: Seq<Seq<char>>)
    requires
        fields.len() > 0,
    ensures
        take_fields(Seq::<(String, Value)>::empty(), fields) == Err::<Seq<Value>, Seq<char>>(
            fields[0],
        ),
{
    assert(record_keys(Seq::<(String, Value)>::empty()).len() == 0);
    assert(key_index(Seq::<(String, Value)>::empty(), fields[0]) is None);
}

/// The widths of at most 64 bits.
pub open spec fn at_most_64_bits(k: IntKind) -> bool {
    !(k is I128) && !(k is U128)
}

/// A big integer outside the 64-bit range fits no width of at most 64 bits:
/// narrowing it reports it with the width.
pub proof fn lemma_big_out_of_range(b: BigInt, k: IntKind)
    requires
        b.value() < i64::MIN || b.value() > u64::MAX,
        at_most_64_bits(k),
    ensures
        narrowed(Value::BigInt(b), k) == Err::<int, Error>(Error::BigInt(b, k)),
{
}

/// Decoding gives at most one value of `T` from any value.
pub open spec fn ok_unique<T: DecodeItfValue>() -> bool {
    forall|v: Value, x: T, y: T|
        #[trigger] T::decodes(v, Ok::<T, Error>(x)) && #[trigger] T::decodes(v, Ok::<T, Error>(y))
            ==> x == y
}

/// Booleans, strings and integers decode to at most one value each.
pub proof fn lemma_scalars_ok_unique()
    ensures
        ok_unique::<bool>(),
        ok_unique::<String>(),
        ok_unique::<i8>(),
        ok_unique::<i16>(),
        ok_unique::<i32>(),
        ok_unique::<i64>(),
        ok_unique::<i128>(),
        ok_unique::<u8>(),
        ok_unique::<u16>(),
        ok_unique::<u32>(),
        ok_unique::<u64>(),
        ok_unique::<u128>(),
{
}

proof fn lemma_entries_within<K: DecodeItfValue, V: DecodeItfValue>(
    a: Seq<(Value, Value)>,
    b: Seq<(Value, Value)>,
    oa: Seq<(K, V)>,
    ob: Seq<(K, V)>,
)
    requires
        ok_unique::<K>(),
        ok_unique::<V>(),
        forall|e: (Value, Value)| a.contains(e) ==> b.contains(e),
        oa.len() == a.len(),
        ob.len() == b.len(),
        forall|i: int| 0 <= i < a.len() ==> entry_decodes::<K, V>(#[trigger] a[i], Ok::<(K, V), Error>(oa[i])),
        forall|i: int| 0 <= i < b.len() ==> entry_decodes::<K, V>(#[trigger] b[i], Ok::<(K, V), Error>(ob[i])),
    ensures
        forall|p: (K, V)| oa.contains(p) ==> ob.contains(p),
{
    assert forall|p: (K, V)| oa.contains(p) implies ob.contains(p) by {
        let i = choose|i: int| 0 <= i < oa.len() && oa[i] == p;
        assert(a.contains(a[i]));
        let j = choose|j: int| 0 <= j < b.len() && b[j] == a[i];
        assert(entry_decodes::<K, V>(b[j], Ok::<(K, V), Error>(ob[j])));
        assert(K::decodes(a[i].0, Ok::<K, Error>(p.0)));
        assert(K::decodes(a[i].0, Ok::<K, Error>(ob[j].0)));
        assert(V::decodes(a[i].1, Ok::<V, Error>(p.1)));
        assert(V::decodes(a[i].1, Ok::<V, Error>(ob[j].1)));
        assert(ob[j] == p);
    }
}

/// Two maps that hold the same entries in different orders, decoded by
/// `decode_map_of` into key and value types that decode deterministically,
/// give the same pairs, as many of each.
pub proof fn lemma_map_decode_order_irrelevant<K: DecodeItfValue, V: DecodeItfValue>(
    a: Seq<(Value, Value)>,
    b: Seq<(Value, Value)>,
    oa: Vec<(K, V)>,
    ob: Vec<(K, V)>,
)
    requires
        ok_unique::<K>(),
        ok_unique::<V>(),
        a.to_multiset() == b.to_multiset(),
        entries_decode(a, Ok::<Vec<(K, V)>, Error>(oa)),
        entries_decode(b, Ok::<Vec<(K, V)>, Error>(ob)),
    ensures
        oa@.to_set() == ob@.to_set(),
        oa@.len() == ob@.len(),
{
    broadcast use vstd::seq_lib::group_to_multiset_ensures;
    assert forall|e: (Value, Value)| a.contains(e) <==> b.contains(e) by {
        assert(a.contains(e) <==> a.to_multiset().count(e) > 0);
        assert(b.contains(e) <==> b.to_multiset().count(e) > 0);
    }
    lemma_entries_within(a, b, oa@, ob@);
    lemma_entries_within(b, a, ob@, oa@);
    assert(oa@.to_set() =~= ob@.to_set());
    assert(a.len() == a.to_multiset().len());
    assert(b.len() == b.to_multiset().len());
}

proof fn lemma_elements_within<T: DecodeItfValue>(a: Seq<Value>, b: Seq<Value>, oa: Seq<T>, ob: Seq<T>)
    requires
        ok_unique::<T>(),
        forall|e: Value| a.contains(e) ==> b.contains(e),
        oa.len() == a.len(),
        ob.len() == b.len(),
        forall|i: int| 0 <= i < a.len() ==> T::decodes(#[trigger] a[i], Ok::<T, Error>(oa[i])),
        forall|i: int| 0 <= i < b.len() ==> T::decodes(#[trigger] b[i], Ok::<T, Error>(ob[i])),
    ensures
        forall|p: T| oa.contains(p) ==> ob.contains(p),
{
    assert forall|p: T| oa.contains(p) implies ob.contains(p) by {
        let i = choose|i: int| 0 <= i < oa.len() && oa[i] == p;
        assert(a.contains(a[i]));
        let j = choose|j: int| 0 <= j < b.len() && b[j] == a[i];
        assert(T::decodes(b[j], Ok::<T, Error>(ob[j])));
        assert(ob[j] == p);
    }
}

/// Two sets that hold the same elements in different orders, decoded by
/// `decode_set_of` into a type that decodes deterministically, give the same
/// values; every element is kept, so both results are as long as the sets.
pub proof fn lemma_set_decode_order_irrelevant<T: DecodeItfValue>(
    a: Seq<Value>,
    b: Seq<Value>,
    oa: Vec<T>,
    ob: Vec<T>,
)
    requires
        ok_unique::<T>(),
        a.to_multiset() == b.to_multiset(),
        elements_decode(a, Ok::<Vec<T>, Error>(oa)),
        elements_decode(b, Ok::<Vec<T>, Error>(ob)),
    ensures
        oa@.to_set() == ob@.to_set(),
        oa@.len() == a.len(),
        ob@.len() == b.len(),
        oa@.len() == ob@.len(),
{
    broadcast use vstd::seq_lib::group_to_multiset_ensures;
    assert forall|e: Value| a.contains(e) <==> b.contains(e) by {
        assert(a.contains(e) <==> a.to_multiset().count(e) > 0);
        assert(b.contains(e) <==> b.to_multiset().count(e) > 0);
    }
    lemma_elements_within(a, b, oa@, ob@);
    lemma_elements_within(b, a, ob@, oa@);
    assert(oa@.to_set() =~= ob@.to_set());
    assert(a.len() == a.to_multiset().len());
    assert(b.len() == b.to_multiset().len());
}

} // verus!
