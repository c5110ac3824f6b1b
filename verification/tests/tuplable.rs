use valuable::{render, TupleDef, TupleValue, Value};

#[test]
fn test_dyn_impl() {
    let def = TupleDef::new_dynamic((0, None));
    assert!(!def.is_unit());
    assert!(def.is_dynamic());

    let tuple = TupleValue::new(
        def,
        vec![
            vec![Value::I32(123), Value::String("hello world")],
            vec![Value::String("j/k there is more")],
        ],
    );

    assert_eq!(
        render(&Value::Tuplable(tuple)),
        format!("{:?}", (123, "hello world", "j/k there is more")),
    );
}

#[test]
fn test_static_def() {
    let def = TupleDef::new_static(2);
    assert!(def.is_static());
    assert!(!def.is_dynamic());
    assert!(!def.is_unit());
    assert!(TupleDef::new_static(0).is_unit());
}

#[test]
fn test_one_tuple_rendering() {
    let tuple = TupleValue::new(TupleDef::new_static(1), vec![vec![Value::I32(123)]]);
    assert_eq!(render(&Value::Tuplable(tuple)), format!("{:?}", (123,)));
}
