use valuable::{Valuable, Value};

#[test]
fn test_valuable_ref() {
    let val = &123;
    assert!(matches!(val.as_value(), Value::I32(v) if v == 123));
}

#[test]
fn test_valuable_box() {
    let val = Box::new(123);
    assert!(matches!(val.as_value(), Value::I32(v) if v == 123));
}

#[test]
fn test_valuable_option() {
    let val: Option<u8> = Some(7);
    assert!(matches!(val.as_value(), Value::U8(v) if v == 7));
    let none: Option<u8> = None;
    assert!(matches!(none.as_value(), Value::Unit));
}

#[test]
fn test_valuable_vec() {
    let val = vec![1u8, 2, 3];
    assert!(matches!(val.as_value(), Value::Listable(_)));
    let l = val.as_value();
    let list = l.as_listable().unwrap();
    assert_eq!(list.len(), 3);
}
