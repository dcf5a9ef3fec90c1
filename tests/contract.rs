use itf_decode::contract::{decode_elements, decode_entry, decode_map_of, decode_set_of, DecodeItfValue};
use std::collections::BTreeMap;
use itf_decode::error::{Error, IntKind};
use itf_decode::value::{Type, Value};

#[test]
fn list_of_bools_recovered() {
    let v = Value::List(vec![Value::Bool(true), Value::Bool(false), Value::Bool(true)]);
    assert_eq!(<Vec<bool>>::decode(v).unwrap(), vec![true, false, true]);
}

#[test]
fn list_stops_at_first_failing_element() {
    let v = Value::List(vec![Value::Number(1), Value::Number(300), Value::Bool(true)]);
    let r = <Vec<i8>>::decode(v);
    assert!(matches!(r, Err(Error::Number(300, IntKind::I8))));
    let r = <Vec<i8>>::decode(Value::Tuple(vec![]));
    assert!(matches!(r, Err(Error::TypeMismatch(Type::List, Type::Tuple))));
}

#[test]
fn nested_lists_and_pairs() {
    let v = Value::List(vec![
        Value::Tuple(vec![Value::String("a".to_string()), Value::Number(-4)]),
        Value::Tuple(vec![Value::String("b".to_string()), Value::Number(9)]),
    ]);
    let out = <Vec<(String, i64)>>::decode(v).unwrap();
    assert_eq!(out, vec![("a".to_string(), -4), ("b".to_string(), 9)]);
    let bad = Value::Tuple(vec![Value::Number(1)]);
    assert!(matches!(
        <(i64, i64)>::decode(bad),
        Err(Error::TypeMismatch(Type::Tuple, Type::Tuple))
    ));
    let second_fails = Value::Tuple(vec![Value::Number(1), Value::Bool(true)]);
    assert!(matches!(
        <(i64, u8)>::decode(second_fails),
        Err(Error::TypeMismatch(Type::Number, Type::Bool))
    ));
}

#[test]
fn elements_of_empty_list() {
    let out: Vec<u64> = decode_elements(vec![]).unwrap();
    assert!(out.is_empty());
    assert_eq!(<Vec<u32>>::decode(Value::List(vec![])).unwrap(), Vec::<u32>::new());
}

#[test]
fn scalars_through_the_trait() {
    assert_eq!(String::decode(Value::String("x".to_string())).unwrap(), "x");
    assert!(bool::decode(Value::Number(0)).is_err());
    assert_eq!(u128::decode(Value::Number(12)).unwrap(), 12);
    assert!(matches!(i8::decode(Value::Number(200)), Err(Error::Number(200, IntKind::I8))));
}

fn pair(k: i64, v: &str) -> (Value, Value) {
    (Value::Number(k), Value::String(v.to_string()))
}

#[test]
fn typed_map_order_independent() {
    let a = Value::ValueMap(vec![pair(1, "one"), pair(2, "two"), pair(3, "three")]);
    let b = Value::ValueMap(vec![pair(3, "three"), pair(1, "one"), pair(2, "two")]);
    let ma: BTreeMap<u8, String> = decode_map_of::<u8, String>(a).unwrap().into_iter().collect();
    let mb: BTreeMap<u8, String> = decode_map_of::<u8, String>(b).unwrap().into_iter().collect();
    assert_eq!(ma, mb);
    assert_eq!(ma.get(&2).map(|s| s.as_str()), Some("two"));
}

#[test]
fn typed_map_errors() {
    let bad_key = Value::ValueMap(vec![pair(1, "a"), pair(-1, "b")]);
    assert!(matches!(decode_map_of::<u8, String>(bad_key), Err(Error::Number(-1, IntKind::U8))));
    let bad_value = Value::ValueMap(vec![(Value::Number(1), Value::Bool(true))]);
    assert!(matches!(
        decode_map_of::<u8, String>(bad_value),
        Err(Error::TypeMismatch(Type::String, Type::Bool))
    ));
    assert!(matches!(
        decode_map_of::<u8, String>(Value::List(vec![])),
        Err(Error::TypeMismatch(Type::ValueMap, Type::List))
    ));
    let p: (i64, String) = decode_entry(pair(4, "d")).unwrap();
    assert_eq!(p, (4, "d".to_string()));
}

#[test]
fn typed_set_keeps_equal_results() {
    let v = Value::ValueSet(vec![Value::Number(5), Value::Number(5), Value::Number(6)]);
    assert_eq!(decode_set_of::<u16>(v).unwrap(), vec![5, 5, 6]);
    assert!(matches!(
        decode_set_of::<u16>(Value::List(vec![])),
        Err(Error::TypeMismatch(Type::ValueSet, Type::List))
    ));
}

#[test]
fn tuples_of_one_and_three() {
    let one = Value::Tuple(vec![Value::Bool(true)]);
    assert_eq!(<(bool,)>::decode(one).unwrap(), (true,));
    let three = Value::Tuple(vec![Value::Number(1), Value::String("b".to_string()), Value::Bool(false)]);
    assert_eq!(<(u8, String, bool)>::decode(three).unwrap(), (1, "b".to_string(), false));
    let third_fails = Value::Tuple(vec![Value::Number(1), Value::String("b".to_string()), Value::Number(0)]);
    assert!(matches!(
        <(u8, String, bool)>::decode(third_fails),
        Err(Error::TypeMismatch(Type::Bool, Type::Number))
    ));
    assert!(matches!(
        <(u8, String, bool)>::decode(Value::Tuple(vec![Value::Number(1)])),
        Err(Error::TypeMismatch(Type::Tuple, Type::Tuple))
    ));
    assert!(matches!(
        <(bool,)>::decode(Value::List(vec![Value::Bool(true)])),
        Err(Error::TypeMismatch(Type::Tuple, Type::List))
    ));
}

#[test]
fn typed_set_order_independent() {
    let a = Value::ValueSet(vec![Value::Number(3), Value::Number(1), Value::Number(2)]);
    let b = Value::ValueSet(vec![Value::Number(2), Value::Number(3), Value::Number(1)]);
    let sa: std::collections::BTreeSet<i32> = decode_set_of::<i32>(a).unwrap().into_iter().collect();
    let sb: std::collections::BTreeSet<i32> = decode_set_of::<i32>(b).unwrap().into_iter().collect();
    assert_eq!(sa, sb);
    assert_eq!(sa.len(), 3);
}
