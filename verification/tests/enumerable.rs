use valuable::{
    render, EnumDef, EnumValue, FieldValues, Fields, NamedField, NamedValues, Names, Variant,
    VariantDef, Value,
};

#[test]
fn enumerable_test_manual_static_impl() {
    let x_fields = [NamedField::new("x")];
    let x_names = Names::new(&x_fields);
    let variants = [
        VariantDef::new("Struct", Fields::Named(&x_names)),
        VariantDef::new("Tuple", Fields::Unnamed),
        VariantDef::new("Unit", Fields::Unnamed),
    ];
    let def = EnumDef::new_static("Enum", &variants);

    let v = EnumValue::new(
        def,
        Variant::Static(&variants[0]),
        FieldValues::Named(vec![NamedValues::new(&x_fields, vec![Value::String("a")])]),
    );
    assert_eq!(render(&Value::Enumerable(v)), r#"Enum::Struct { x: "a" }"#);

    let v = EnumValue::new(
        def,
        Variant::Static(&variants[1]),
        FieldValues::Unnamed(vec![vec![Value::U8(0)]]),
    );
    assert_eq!(render(&Value::Enumerable(v)), r#"Enum::Tuple(0)"#);

    let v = EnumValue::new(
        def,
        Variant::Static(&variants[2]),
        FieldValues::Unnamed(vec![vec![]]),
    );
    assert_eq!(render(&Value::Enumerable(v)), r#"Enum::Unit"#);
}

#[test]
fn enumerable_test_manual_dyn_impl() {
    let variants: [VariantDef<'_>; 0] = [];
    let def = EnumDef::new_dynamic("MyEnum", &variants);
    let v = EnumValue::new(
        def,
        Variant::Dynamic(VariantDef::new("MyVariant", Fields::Unnamed)),
        FieldValues::Unnamed(vec![vec![Value::String("hello")]]),
    );
    assert_eq!(render(&Value::Enumerable(v)), "MyEnum::MyVariant(\"hello\")");
}

#[test]
fn test_variant_named_field() {
    let name = "my_field".to_string();
    let fields = [NamedField::new(&name[..])];
    let names = Names::new(&fields[..]);
    let variant = VariantDef::new("Hello", Fields::Named(&names));

    assert_eq!(variant.name(), "Hello");

    match *variant.fields() {
        Fields::Named(f) => {
            assert_eq!(f.len(), 1);
            assert_eq!(f.names()[0].name(), "my_field");
        }
        _ => panic!(),
    }
}

#[test]
fn test_variant_unnamed_field() {
    let variant = VariantDef::new("Hello", Fields::Unnamed);

    assert_eq!(variant.name(), "Hello");
    assert!(matches!(variant.fields(), Fields::Unnamed));
}

#[test]
fn test_enum_def() {
    let fields = [NamedField::new("foo")];
    let names = Names::new(&fields[..]);
    let a = VariantDef::new("A", Fields::Named(&names));
    let b = VariantDef::new("B", Fields::Unnamed);
    let variants = [a, b];
    let def = EnumDef::new_dynamic("Foo", &variants);

    assert_eq!(def.name(), "Foo");
    assert!(std::ptr::eq(variants.as_ptr(), def.variants().as_ptr()));
    assert!(def.is_dynamic());
}

#[test]
fn test_manual_impl() {
    let x_fields = [NamedField::new("x")];
    let x_names = Names::new(&x_fields);
    let variants = [
        VariantDef::new("Struct", Fields::Named(&x_names)),
        VariantDef::new("Tuple", Fields::Unnamed),
        VariantDef::new("Unit", Fields::Unnamed),
    ];
    let def = EnumDef::new_static("Enum", &variants);

    let v = EnumValue::new(
        def,
        Variant::Static(&variants[0]),
        FieldValues::Named(vec![NamedValues::new(&x_fields, vec![Value::String("a")])]),
    );
    assert_eq!(render(&Value::Enumerable(v)), r#"Enum::Struct { x: "a" }"#);

    let v = EnumValue::new(
        def,
        Variant::Static(&variants[1]),
        FieldValues::Unnamed(vec![vec![Value::U8(0)]]),
    );
    assert_eq!(render(&Value::Enumerable(v)), r#"Enum::Tuple(0)"#);

    let v = EnumValue::new(
        def,
        Variant::Static(&variants[2]),
        FieldValues::Unnamed(vec![vec![]]),
    );
    assert_eq!(render(&Value::Enumerable(v)), r#"Enum::Unit"#);
}

