use itf_decode::decode::{
    decode_bool, decode_bytes, decode_ignored, decode_list, decode_map, decode_record, decode_set,
    decode_string, decode_tuple, decode_unit,
};
use itf_decode::directives::{
    classify_enum, parse_itf_attrs, resolved_name, Attribute, Directives, EnumKind, FieldsShape,
    Meta,
};
use itf_decode::error::{Error, IntKind};
use itf_decode::numeric::{
    decode_i128, decode_i16, decode_i32, decode_i64, decode_i8, decode_u128, decode_u16,
    decode_u32, decode_u64, decode_u8, magnitude_u128,
};
use itf_decode::reflect::{
    decode_any, decode_fixed, decode_seq, decode_struct_entries, enum_access, newtype_variant,
    struct_variant, tuple_variant, unit_variant,
};
use itf_decode::tagged::{decode_struct, decode_tagged_enum, decode_unit_enum, take_field};
use itf_decode::value::{BigInt, Type, Value};

fn s(x: &str) -> String {
    x.to_string()
}

fn names(xs: &[&str]) -> Vec<String> {
    xs.iter().map(|x| x.to_string()).collect()
}

fn num(n: i64) -> Value {
    Value::Number(n)
}

fn big(negative: bool, digits: Vec<u32>) -> BigInt {
    BigInt { negative, digits }
}

#[test]
fn bool_and_string_round_trip() {
    assert!(matches!(decode_bool(Value::Bool(true)), Ok(true)));
    assert!(matches!(decode_string(Value::String(s("hi"))), Ok(ref t) if t == "hi"));
    assert!(matches!(
        decode_bool(num(1)),
        Err(Error::TypeMismatch(Type::Bool, Type::Number))
    ));
    assert!(matches!(
        decode_string(Value::Bool(false)),
        Err(Error::TypeMismatch(Type::String, Type::Bool))
    ));
}

#[test]
fn struct_fields_recovered() {
    let rec = Value::Record(vec![
        (s("b"), num(2)),
        (s("a"), Value::String(s("x"))),
        (s("extra"), Value::Bool(true)),
    ]);
    let out = decode_struct(rec, &names(&["a", "b"])).unwrap();
    assert_eq!(out.len(), 2);
    assert!(matches!(out[0], Value::String(ref t) if t == "x"));
    assert!(matches!(out[1], Value::Number(2)));
}

#[test]
fn empty_record_lacks_required_field() {
    let r = decode_struct(Value::Record(vec![]), &names(&["thatField"]));
    assert!(matches!(r, Err(Error::FieldNotFound(ref n)) if n == "thatField"));
}

#[test]
fn struct_from_non_record() {
    let r = decode_struct(num(3), &names(&["a"]));
    assert!(matches!(r, Err(Error::TypeMismatch(Type::Record, Type::Number))));
}

#[test]
fn number_200_out_of_i8() {
    let r = decode_i8(num(200));
    assert!(matches!(r, Err(Error::Number(200, IntKind::I8))));
    assert_eq!(IntKind::I8.name(), "i8");
}

#[test]
fn narrowing_edges() {
    assert_eq!(decode_i8(num(-128)).unwrap(), -128);
    assert_eq!(decode_i8(num(127)).unwrap(), 127);
    assert!(matches!(decode_i8(num(-129)), Err(Error::Number(-129, IntKind::I8))));
    assert_eq!(decode_u8(num(255)).unwrap(), 255);
    assert!(matches!(decode_u8(num(-1)), Err(Error::Number(-1, IntKind::U8))));
    assert_eq!(decode_i16(num(-300)).unwrap(), -300);
    assert_eq!(decode_u16(num(65535)).unwrap(), 65535);
    assert!(matches!(decode_u16(num(65536)), Err(Error::Number(65536, IntKind::U16))));
    assert_eq!(decode_i32(num(-70000)).unwrap(), -70000);
    assert_eq!(decode_u32(num(4294967295)).unwrap(), 4294967295);
    assert_eq!(decode_i64(num(i64::MIN)).unwrap(), i64::MIN);
    assert_eq!(decode_u64(num(i64::MAX)).unwrap(), i64::MAX as u64);
    assert_eq!(decode_i128(num(i64::MIN)).unwrap(), i64::MIN as i128);
    assert_eq!(decode_u128(num(7)).unwrap(), 7);
    assert!(matches!(
        decode_u32(Value::String(s("1"))),
        Err(Error::TypeMismatch(Type::Number, Type::String))
    ));
}

#[test]
fn big_integer_narrowing() {
    // 2^64 + 5 is digits [1, 0, 5] in base 2^32.
    let b = big(false, vec![1, 0, 5]);
    assert_eq!(magnitude_u128(&b), Some((1u128 << 64) + 5));
    for k in [IntKind::I8, IntKind::I16, IntKind::I32, IntKind::I64] {
        let r = match k {
            IntKind::I8 => decode_i8(Value::BigInt(b.clone())).map(|x| x as i128),
            IntKind::I16 => decode_i16(Value::BigInt(b.clone())).map(|x| x as i128),
            IntKind::I32 => decode_i32(Value::BigInt(b.clone())).map(|x| x as i128),
            _ => decode_i64(Value::BigInt(b.clone())).map(|x| x as i128),
        };
        assert!(matches!(r, Err(Error::BigInt(_, kind)) if kind == k));
    }
    assert!(matches!(decode_u64(Value::BigInt(b.clone())), Err(Error::BigInt(_, IntKind::U64))));
    assert!(matches!(decode_u8(Value::BigInt(b.clone())), Err(Error::BigInt(_, IntKind::U8))));
    assert_eq!(decode_u128(Value::BigInt(b.clone())).unwrap(), (1u128 << 64) + 5);
    assert_eq!(
        decode_i128(Value::BigInt(big(true, vec![1, 0, 5]))).unwrap(),
        -((1i128 << 64) + 5)
    );
    assert_eq!(decode_i8(Value::BigInt(big(true, vec![0, 0, 128]))).unwrap(), -128);
    assert_eq!(decode_i128(Value::BigInt(big(true, vec![0x8000_0000, 0, 0, 0]))).unwrap(), i128::MIN);
    let huge = big(false, vec![1, 0, 0, 0, 0]);
    assert_eq!(magnitude_u128(&huge), None);
    assert!(matches!(decode_u128(Value::BigInt(huge)), Err(Error::BigInt(_, IntKind::U128))));
}

#[test]
fn unit_enum_variants() {
    let vs = names(&["A", "B"]);
    assert_eq!(decode_unit_enum(Value::String(s("B")), &vs).unwrap(), 1);
    let r = decode_unit_enum(Value::String(s("C")), &vs);
    assert!(matches!(r, Err(Error::UnknownVariant(ref u)) if u == "C"));
    let r = decode_unit_enum(num(1), &vs);
    assert!(matches!(r, Err(Error::InvalidType(ref t)) if t == "string"));
}

fn shape_variants() -> (Vec<String>, Vec<Vec<String>>) {
    (names(&["A", "B"]), vec![names(&["x"]), names(&["y", "z"])])
}

#[test]
fn tagged_enum_missing_tag() {
    let (vs, fs) = shape_variants();
    let rec = Value::Record(vec![(s("kind"), Value::String(s("A")))]);
    let r = decode_tagged_enum(rec, &s("tag"), &vs, &fs);
    assert!(matches!(r, Err(Error::UnknownTag(ref t)) if t == "tag"));
}

#[test]
fn tagged_enum_unknown_variant() {
    let (vs, fs) = shape_variants();
    let rec = Value::Record(vec![(s("tag"), Value::String(s("Z")))]);
    let r = decode_tagged_enum(rec, &s("tag"), &vs, &fs);
    assert!(matches!(r, Err(Error::UnknownVariant(ref t)) if t == "Z"));
}

#[test]
fn tagged_enum_selects_variant_with_flat_fields() {
    let (vs, fs) = shape_variants();
    let rec = Value::Record(vec![
        (s("z"), num(3)),
        (s("tag"), Value::String(s("B"))),
        (s("y"), num(2)),
    ]);
    let (k, out) = decode_tagged_enum(rec, &s("tag"), &vs, &fs).unwrap();
    assert_eq!(k, 1);
    assert!(matches!(out[0], Value::Number(2)));
    assert!(matches!(out[1], Value::Number(3)));
    let rec = Value::Record(vec![(s("kind"), Value::String(s("A"))), (s("x"), num(1))]);
    let (k, out) = decode_tagged_enum(rec, &s("kind"), &vs, &fs).unwrap();
    assert_eq!(k, 0);
    assert!(matches!(out[0], Value::Number(1)));
    let rec = Value::Record(vec![(s("tag"), num(4))]);
    let r = decode_tagged_enum(rec, &s("tag"), &vs, &fs);
    assert!(matches!(r, Err(Error::TypeMismatch(Type::String, Type::Number))));
    let rec = Value::Record(vec![(s("tag"), Value::String(s("A")))]);
    let r = decode_tagged_enum(rec, &s("tag"), &vs, &fs);
    assert!(matches!(r, Err(Error::FieldNotFound(ref n)) if n == "x"));
}

#[test]
fn rename_directive_reads_new_key() {
    let attrs = vec![Attribute::Itf(vec![Meta::NameValue(s("rename"), s("n"))])];
    let d = parse_itf_attrs(&attrs);
    let key = resolved_name(&s("count"), &d);
    assert_eq!(key, "n");
    let ok = decode_struct(Value::Record(vec![(s("n"), num(9))]), &vec![key.clone()]).unwrap();
    assert!(matches!(ok[0], Value::Number(9)));
    let r = decode_struct(Value::Record(vec![(s("count"), num(9))]), &vec![key]);
    assert!(matches!(r, Err(Error::FieldNotFound(ref n)) if n == "n"));
}

#[test]
fn directives_defaults_and_last_wins() {
    let d = Directives::new();
    assert_eq!(d.tag, "tag");
    assert!(d.rename.is_none());
    assert_eq!(resolved_name(&s("count"), &d), "count");
    let attrs = vec![
        Attribute::Other,
        Attribute::Itf(vec![Meta::NameValue(s("tag"), s("kind")), Meta::Other]),
        Attribute::Itf(vec![
            Meta::NameValue(s("rename"), s("a")),
            Meta::NameValue(s("other"), s("q")),
            Meta::NameValue(s("rename"), s("b")),
        ]),
    ];
    let d = parse_itf_attrs(&attrs);
    assert_eq!(d.tag, "kind");
    assert_eq!(d.rename.as_deref(), Some("b"));
}

#[test]
fn enum_shapes_classified() {
    assert_eq!(
        classify_enum(&vec![FieldsShape::Unit, FieldsShape::Unit]),
        Some(EnumKind::UnitOnly)
    );
    assert_eq!(
        classify_enum(&vec![FieldsShape::Named(names(&["a"])), FieldsShape::Named(vec![])]),
        Some(EnumKind::NamedOnly)
    );
    assert_eq!(
        classify_enum(&vec![FieldsShape::Unit, FieldsShape::Named(names(&["a"]))]),
        None
    );
    assert_eq!(classify_enum(&vec![FieldsShape::Unnamed(2)]), None);
    assert_eq!(classify_enum(&vec![]), Some(EnumKind::UnitOnly));
}

fn map_entries(v: Value) -> Vec<(i64, String)> {
    let mut out: Vec<(i64, String)> = decode_map(v)
        .unwrap()
        .into_iter()
        .map(|(k, v)| (decode_i64(k).unwrap(), decode_string(v).unwrap()))
        .collect();
    out.sort();
    out
}

#[test]
fn map_decode_ignores_order() {
    let a = Value::ValueMap(vec![
        (num(1), Value::String(s("one"))),
        (num(2), Value::String(s("two"))),
    ]);
    let b = Value::ValueMap(vec![
        (num(2), Value::String(s("two"))),
        (num(1), Value::String(s("one"))),
    ]);
    let ma: std::collections::BTreeMap<i64, String> = map_entries(a).into_iter().collect();
    let mb: std::collections::BTreeMap<i64, String> = map_entries(b).into_iter().collect();
    assert_eq!(ma, mb);
    assert_eq!(ma.len(), 2);
}

#[test]
fn set_keeps_every_element() {
    let v = Value::ValueSet(vec![num(1), Value::BigInt(big(false, vec![1]))]);
    let xs = decode_set(v).unwrap();
    let typed: Vec<i64> = xs.into_iter().map(|x| decode_i64(x).unwrap()).collect();
    assert_eq!(typed, vec![1, 1]);
}

#[test]
fn external_enum_positional_variant() {
    let v = Value::Record(vec![(s("Foo"), Value::List(vec![num(1), num(2)]))]);
    let (name, payload) = enum_access(v).unwrap();
    assert_eq!(name, "Foo");
    let xs = tuple_variant(payload).unwrap().unwrap();
    assert_eq!(xs.len(), 2);
    assert_eq!(decode_i64(xs.into_iter().nth(1).unwrap()).unwrap(), 2);
}

#[test]
fn external_enum_two_keys_rejected() {
    let v = Value::Record(vec![(s("Foo"), num(1)), (s("Bar"), num(2))]);
    let r = enum_access(v);
    assert!(matches!(r, Err(Error::InvalidType(ref t)) if t == "map with a single key"));
    let r = enum_access(Value::Record(vec![]));
    assert!(matches!(r, Err(Error::InvalidType(ref t)) if t == "map with a single key"));
    let r = enum_access(num(1));
    assert!(matches!(r, Err(Error::InvalidType(ref t)) if t == "string or map"));
}

#[test]
fn external_enum_payloads() {
    let (name, payload) = enum_access(Value::String(s("Unit"))).unwrap();
    assert_eq!(name, "Unit");
    assert!(payload.is_none());
    assert!(unit_variant(None).is_ok());
    assert!(unit_variant(Some(Value::Tuple(vec![]))).is_ok());
    assert!(matches!(
        unit_variant(Some(Value::List(vec![]))),
        Err(Error::InvalidType(ref t)) if t == "unit variant"
    ));
    assert!(matches!(
        unit_variant(Some(Value::Tuple(vec![num(1)]))),
        Err(Error::InvalidType(ref t)) if t == "unit variant"
    ));
    assert!(matches!(unit_variant(Some(num(1))), Err(Error::InvalidType(ref t)) if t == "unit variant"));
    assert!(matches!(tuple_variant(Some(Value::Tuple(vec![]))), Ok(None)));
    assert!(matches!(tuple_variant(None), Err(Error::InvalidType(ref t)) if t == "tuple variant"));
    assert!(matches!(newtype_variant(Some(num(5))), Ok(Value::Number(5))));
    assert!(matches!(newtype_variant(None), Err(Error::InvalidType(ref t)) if t == "newtype variant"));
    let fields = struct_variant(Some(Value::Record(vec![(s("a"), num(1))]))).unwrap();
    assert_eq!(fields[0].0, "a");
    assert!(matches!(struct_variant(Some(num(1))), Err(Error::InvalidType(ref t)) if t == "struct variant"));
}

#[test]
fn sequences_and_tuples() {
    assert_eq!(decode_list(Value::List(vec![num(1)])).unwrap().len(), 1);
    assert!(matches!(decode_list(Value::Tuple(vec![])), Err(Error::TypeMismatch(Type::List, Type::Tuple))));
    assert_eq!(decode_tuple(Value::Tuple(vec![num(1), num(2)]), 2).unwrap().len(), 2);
    assert!(matches!(
        decode_tuple(Value::Tuple(vec![num(1)]), 2),
        Err(Error::TypeMismatch(Type::Tuple, Type::Tuple))
    ));
    assert_eq!(decode_fixed(Value::List(vec![num(1), num(2)]), 2).unwrap().len(), 2);
    assert!(decode_fixed(Value::List(vec![num(1)]), 2).is_err());
    assert_eq!(decode_seq(Value::Tuple(vec![num(1)])).unwrap().len(), 1);
    assert!(matches!(decode_seq(Value::Bool(true)), Err(Error::TypeMismatch(Type::List, Type::Bool))));
}

#[test]
fn bytes_from_string_or_numbers() {
    assert_eq!(decode_bytes(Value::String(s("ab"))).unwrap(), vec![97, 98]);
    assert_eq!(decode_bytes(Value::List(vec![num(0), num(255)])).unwrap(), vec![0, 255]);
    assert!(matches!(
        decode_bytes(Value::List(vec![num(1), num(256)])),
        Err(Error::Number(256, IntKind::U8))
    ));
    assert!(decode_bytes(Value::Bool(true)).is_err());
}

#[test]
fn unit_fails_and_ignored_succeeds() {
    assert!(matches!(decode_unit(Value::Tuple(vec![])), Err(Error::InvalidType(ref t)) if t == "unit"));
    assert!(decode_ignored(Value::Unserializable(s("?"))).is_ok());
}

#[test]
fn any_refuses_unserializable_and_narrows_big() {
    assert!(matches!(
        decode_any(Value::Unserializable(s("f"))),
        Err(Error::UnsupportedType(Type::Unserializable))
    ));
    assert!(matches!(decode_any(Value::BigInt(big(true, vec![7]))), Ok(Value::Number(-7))));
    assert!(matches!(
        decode_any(Value::BigInt(big(false, vec![1, 0, 0]))),
        Err(Error::BigInt(_, IntKind::I64))
    ));
    assert!(matches!(decode_any(Value::Bool(true)), Ok(Value::Bool(true))));
}

#[test]
fn struct_entries_from_record_or_map() {
    let es = decode_struct_entries(Value::Record(vec![(s("a"), num(1))])).unwrap();
    assert!(matches!(es[0].0, Value::String(ref k) if k == "a"));
    let es = decode_struct_entries(Value::ValueMap(vec![(Value::String(s("a")), num(2))])).unwrap();
    assert!(matches!(es[0], (Value::String(_), Value::Number(2))));
    assert!(decode_struct_entries(Value::ValueMap(vec![(num(1), num(2))])).is_err());
    assert!(decode_struct_entries(num(1)).is_err());
    let es = decode_struct_entries(Value::ValueMap(vec![(Value::String(s("k")), num(2))])).unwrap();
    assert!(matches!(es[0].0, Value::String(ref k) if k == "k"));
    assert!(matches!(
        decode_struct_entries(Value::ValueMap(vec![(Value::String(s("k")), num(2)), (num(1), num(2))])),
        Err(Error::InvalidType(ref t)) if t == "map with string keys"
    ));
    assert_eq!(decode_record(Value::Record(vec![(s("k"), num(1))])).unwrap().len(), 1);
}

#[test]
fn take_field_removes_first_match() {
    let mut rec = vec![(s("a"), num(1)), (s("b"), num(2))];
    assert!(matches!(take_field(&mut rec, &s("b")), Some(Value::Number(2))));
    assert_eq!(rec.len(), 1);
    assert!(take_field(&mut rec, &s("b")).is_none());
}
