use valuable::{
    render, FieldValues, Fields, ListValue, NamedField, NamedValues, Names, Slice, StructDef,
    StructValue, Value,
};

#[test]
fn structable_test_manual_static_impl() {
    let sub_fields = [NamedField::new("message")];
    let sub_names = Names::new(&sub_fields);
    let sub_def = StructDef::new_static("SubStruct", Fields::Named(&sub_names));
    let sub = StructValue::new(
        sub_def,
        FieldValues::Named(vec![NamedValues::new(&sub_fields, vec![Value::String("world")])]),
    );

    let list = vec!["hello".to_string()];

    let my_fields = [
        NamedField::new("num"),
        NamedField::new("list"),
        NamedField::new("sub"),
    ];
    let my_names = Names::new(&my_fields);
    let my_def = StructDef::new_static("MyStruct", Fields::Named(&my_names));
    let my_struct = StructValue::new(
        my_def,
        FieldValues::Named(vec![NamedValues::new(
            &my_fields,
            vec![
                Value::U32(12),
                Value::Listable(ListValue::Slice(Slice::String(&list))),
                Value::Structable(sub),
            ],
        )]),
    );

    assert_eq!(
        render(&Value::Structable(my_struct)),
        "MyStruct { num: 12, list: [\"hello\"], sub: SubStruct { message: \"world\" } }"
    );
}

#[test]
fn structable_test_manual_dyn_impl() {
    let foo_fields = [NamedField::new("foo")];
    let bar_fields = [NamedField::new("bar")];
    let empty: [NamedField<'_>; 0] = [];
    let names = Names::new(&empty);
    let def = StructDef::new_dynamic("MyStruct", Fields::Named(&names));
    let my_struct = StructValue::new(
        def,
        FieldValues::Named(vec![
            NamedValues::new(&foo_fields, vec![Value::U32(1)]),
            NamedValues::new(&bar_fields, vec![Value::String("two")]),
        ]),
    );

    assert_eq!(
        render(&Value::Structable(my_struct)),
        "MyStruct { foo: 1, bar: \"two\" }"
    );
}

#[test]
fn test_named_field() {
    let name = "hello".to_string();
    let field = NamedField::new(&name[..]);
    assert_eq!(field.name(), "hello");

    let fields = [field];
    let names = Names::new(&fields[..]);

    let fields = Fields::Named(&names);
    assert!(fields.is_named());
    assert!(!fields.is_unnamed());

    match fields {
        Fields::Named(..) => {}
        _ => panic!(),
    }
}

#[test]
fn test_fields_unnamed() {
    let fields = Fields::Unnamed;
    assert!(fields.is_unnamed());
    assert!(!fields.is_named());
}

#[test]
fn test_struct_def() {
    let def = StructDef::new_static("hello", Fields::Unnamed);

    assert_eq!(def.name(), "hello");
    assert!(matches!(def.fields(), Fields::Unnamed));
    assert!(!def.is_dynamic());
}

#[test]
fn test_named_values() {
    let fields = [
        NamedField::with_index("foo", 0),
        NamedField::with_index("bar", 1),
    ];

    let vals = NamedValues::new(&fields, vec![Value::U32(123), Value::String("hello")]);

    let other_field = NamedField::new("foo");

    assert!(matches!(vals.get(&fields[0]), Some(Value::U32(v)) if *v == 123));
    assert!(matches!(vals.get(&fields[1]), Some(Value::String(v)) if *v == "hello"));
    assert!(vals.get(&other_field).is_none());

    let e = vals.entries();
    assert_eq!(2, e.len());

    assert_eq!(e[0].0.name(), "foo");
    assert!(matches!(e[0].1, Value::U32(v) if *v == 123));

    assert_eq!(e[1].0.name(), "bar");
    assert!(matches!(e[1].1, Value::String(v) if *v == "hello"));
}
