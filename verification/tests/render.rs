use valuable::{
    render, EnumDef, EnumValue, FieldValues, Fields, ListValue, MapValue, NamedField, NamedValues,
    Names, Slice, StructDef, StructValue, TupleDef, TupleValue, Variant, VariantDef, Value,
};

#[test]
fn golden_nested_struct() {
    let world_fields = [NamedField::new("answer")];
    let world_names = Names::new(&world_fields);
    let world = StructValue::new(
        StructDef::new_static("World", Fields::Named(&world_names)),
        FieldValues::Named(vec![NamedValues::new(&world_fields, vec![Value::I32(42)])]),
    );

    let hello_fields = [NamedField::new("hello"), NamedField::new("world")];
    let hello_names = Names::new(&hello_fields);
    let hello = StructValue::new(
        StructDef::new_static("HelloWorld", Fields::Named(&hello_names)),
        FieldValues::Named(vec![NamedValues::new(
            &hello_fields,
            vec![Value::String("wut"), Value::Structable(world)],
        )]),
    );

    assert_eq!(
        render(&Value::Structable(hello)),
        r#"HelloWorld { hello: "wut", world: World { answer: 42 } }"#
    );
}

#[test]
fn golden_tuple_struct() {
    let s = StructValue::new(
        StructDef::new_static("S", Fields::Unnamed),
        FieldValues::Unnamed(vec![vec![Value::I32(-1), Value::I32(1)]]),
    );
    assert_eq!(render(&Value::Structable(s)), "S(-1, 1)");
}

#[test]
fn golden_enum_unit_variant() {
    let variants = [VariantDef::new("Unit", Fields::Unnamed)];
    let def = EnumDef::new_static("E", &variants);
    let v = EnumValue::new(
        def,
        Variant::Static(&variants[0]),
        FieldValues::Unnamed(vec![vec![]]),
    );
    assert_eq!(render(&Value::Enumerable(v)), "E::Unit");
}

#[test]
fn golden_lists() {
    let empty: Vec<u8> = Vec::new();
    assert_eq!(render(&Value::Listable(ListValue::Slice(Slice::U8(&empty)))), "[]");
    let items = [1u8, 2, 3];
    assert_eq!(
        render(&Value::Listable(ListValue::Slice(Slice::U8(&items)))),
        "[1, 2, 3]"
    );
    let general = ListValue::Values(vec![Value::U8(1), Value::U8(2), Value::U8(3)]);
    assert_eq!(render(&Value::Listable(general)), "[1, 2, 3]");
}

#[test]
fn golden_map() {
    let map = MapValue::new(vec![
        (Value::String("a"), Value::I32(10)),
        (Value::String("b"), Value::I32(20)),
    ]);
    assert_eq!(render(&Value::Mappable(map)), r#"{"a": 10, "b": 20}"#);
}

#[test]
fn static_and_dynamic_render_alike() {
    let fields = [NamedField::new("foo")];
    let names = Names::new(&fields);
    let fixed = StructValue::new(
        StructDef::new_static("Same", Fields::Named(&names)),
        FieldValues::Named(vec![NamedValues::new(&fields, vec![Value::U8(9)])]),
    );
    let dynamic = StructValue::new(
        StructDef::new_dynamic("Same", Fields::Named(&names)),
        FieldValues::Named(vec![NamedValues::new(&fields, vec![Value::U8(9)])]),
    );
    assert_eq!(render(&Value::Structable(fixed)), render(&Value::Structable(dynamic)));
}

#[test]
fn render_scalars() {
    assert_eq!(render(&Value::Bool(true)), "true");
    assert_eq!(render(&Value::Bool(false)), "false");
    assert_eq!(render(&Value::Char('h')), "'h'");
    assert_eq!(render(&Value::Char('\'')), "'\\''");
    assert_eq!(render(&Value::String("with \"quotes\" and \\ slash")),
        "\"with \\\"quotes\\\" and \\\\ slash\"");
    assert_eq!(render(&Value::Unit), "()");
    assert_eq!(render(&Value::I64(i64::MIN)), format!("{:?}", i64::MIN));
    assert_eq!(render(&Value::I8(-128)), "-128");
    assert_eq!(render(&Value::U128(u128::MAX)), format!("{:?}", u128::MAX));
    assert_eq!(render(&Value::I128(i128::MIN)), format!("{:?}", i128::MIN));
    assert_eq!(render(&Value::Usize(0)), "0");
}

#[test]
fn render_tuple_kinds() {
    let empty = TupleValue::new(TupleDef::new_static(0), vec![]);
    assert_eq!(render(&Value::Tuplable(empty)), "()");
    let pair = TupleValue::new(
        TupleDef::new_static(2),
        vec![vec![Value::Bool(true), Value::String("x")]],
    );
    assert_eq!(render(&Value::Tuplable(pair)), "(true, \"x\")");
}
