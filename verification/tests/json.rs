use valuable::Valuable;
use valuable::{
    to_vec, to_vec_pretty, EnumDef, EnumValue, FieldValues, Fields, ListValue, MapValue,
    NamedField, NamedValues, Names, Serializer, Slice, StructDef, StructValue, TupleDef,
    TupleValue, Variant, VariantDef, Value,
};

fn check(v: &Value<'_>, compact: &str, pretty: &str) {
    let bytes = to_vec(v).unwrap();
    assert_eq!(String::from_utf8(bytes).unwrap(), compact);
    let bytes = to_vec_pretty(v).unwrap();
    assert_eq!(String::from_utf8(bytes).unwrap(), pretty);
}

fn check_err(v: &Value<'_>, message: &str) {
    let err = to_vec(v).unwrap_err();
    assert_eq!(err.message(), message);
}

#[test]
fn test_bool() {
    check(&Value::Bool(false), "false", "false");
    check(&Value::Bool(true), "true", "true");
}

#[test]
fn test_bool_key() {
    let map = MapValue::new(vec![(Value::Bool(true), Value::U8(1))]);
    check_err(&Value::Mappable(map), "bool cannot be a key");
}

#[test]
fn test_int() {
    check(&Value::I8(i8::MIN), "-128", "-128");
    check(&Value::I8(i8::MAX), "127", "127");
    check(&Value::U8(u8::MAX), "255", "255");
    check(&Value::I64(i64::MIN), "-9223372036854775808", "-9223372036854775808");
    check(&Value::U64(u64::MAX), "18446744073709551615", "18446744073709551615");
    check(&Value::U128(u128::MAX), &u128::MAX.to_string(), &u128::MAX.to_string());
    check(&Value::I128(i128::MIN), &i128::MIN.to_string(), &i128::MIN.to_string());
    check(&Value::Usize(0), "0", "0");
}

#[test]
fn test_int_key() {
    let map = MapValue::new(vec![(Value::U32(10), Value::Bool(true))]);
    check(&Value::Mappable(map), "{\"10\":true}", "{\n  \"10\": true\n}");
    let map = MapValue::new(vec![(Value::I8(-3), Value::Bool(false))]);
    check(&Value::Mappable(map), "{\"-3\":false}", "{\n  \"-3\": false\n}");
}

#[test]
fn test_char() {
    check(&Value::Char('a'), "\"a\"", "\"a\"");
    check(&Value::Char('"'), "\"\\\"\"", "\"\\\"\"");
    check(&Value::Char('\\'), "\"\\\\\"", "\"\\\\\"");
    check(&Value::Char('/'), "\"/\"", "\"/\"");
    check(&Value::Char('\n'), "\"\\n\"", "\"\\n\"");
    check(&Value::Char('\r'), "\"\\r\"", "\"\\r\"");
    check(&Value::Char('\t'), "\"\\t\"", "\"\\t\"");
    check(&Value::Char('\u{8}'), "\"\\b\"", "\"\\b\"");
    check(&Value::Char('\u{c}'), "\"\\f\"", "\"\\f\"");
    check(&Value::Char('\u{0}'), "\"\\u0000\"", "\"\\u0000\"");
    check(&Value::Char('\u{1f}'), "\"\\u001f\"", "\"\\u001f\"");
    check(&Value::Char('\u{3A3}'), "\"\u{3A3}\"", "\"\u{3A3}\"");
}

#[test]
fn test_char_key() {
    let map = MapValue::new(vec![(Value::Char('k'), Value::U8(1))]);
    check(&Value::Mappable(map), "{\"k\":1}", "{\n  \"k\": 1\n}");
}

#[test]
fn test_escape_solidus() {
    let mut ser = Serializer::new();
    ser.escape_solidus();
    ser.serialize(&Value::String("/")).unwrap();
    let out: String = ser.into_output().into_iter().collect();
    assert_eq!(out, "\"\\/\"");
}

#[test]
fn test_str() {
    check(&Value::String(""), "\"\"", "\"\"");
    check(&Value::String("a"), "\"a\"", "\"a\"");
}

#[test]
fn test_unit() {
    check(&Value::Unit, "null", "null");
}

#[test]
fn test_unit_key() {
    let map = MapValue::new(vec![(Value::Unit, Value::U8(1))]);
    check_err(&Value::Mappable(map), "unit cannot be a key");
}

#[test]
fn test_tuple_key() {
    let tuple = TupleValue::new(TupleDef::new_static(1), vec![vec![Value::U8(1)]]);
    let map = MapValue::new(vec![(Value::Tuplable(tuple), Value::U8(1))]);
    check_err(&Value::Mappable(map), "tuple cannot be a key");
}

#[test]
fn test_list() {
    check(&vec![1, 2, 3].as_value(), "[1,2,3]", "[\n  1,\n  2,\n  3\n]");
    check(&vec![1, 2].as_value(), "[1,2]", "[\n  1,\n  2\n]");
    check(
        &vec![vec![1, 2]].as_value(),
        "[[1,2]]",
        "[\n  [\n    1,\n    2\n  ]\n]",
    );
    let empty: Vec<Vec<i32>> = vec![vec![]];
    check(&empty.as_value(), "[[]]", "[\n  []\n]");
    let items = [1u8, 2, 3];
    let slice_list = Value::Listable(ListValue::Slice(Slice::U8(&items)));
    check(&slice_list, "[1,2,3]", "[\n  1,\n  2,\n  3\n]");
}

#[test]
fn test_list_key() {
    let list = ListValue::Values(vec![Value::U8(1)]);
    let map = MapValue::new(vec![(Value::Listable(list), Value::U8(1))]);
    check_err(&Value::Mappable(map), "list cannot be a key");
}

#[test]
fn test_map() {
    let map = MapValue::new(vec![(Value::String("a"), Value::I32(10))]);
    check(&Value::Mappable(map), "{\"a\":10}", "{\n  \"a\": 10\n}");
    let map = MapValue::new(vec![
        (Value::String("a"), Value::I32(10)),
        (Value::String("b"), Value::I32(20)),
    ]);
    check(
        &Value::Mappable(map),
        "{\"a\":10,\"b\":20}",
        "{\n  \"a\": 10,\n  \"b\": 20\n}",
    );
}

#[test]
fn test_map_key() {
    let inner = MapValue::new(vec![]);
    let map = MapValue::new(vec![(Value::Mappable(inner), Value::U8(1))]);
    check_err(&Value::Mappable(map), "map cannot be a key");
}

#[test]
fn test_struct() {
    let f_fields = [NamedField::new("f")];
    let f_names = Names::new(&f_fields);
    let s = StructValue::new(
        StructDef::new_static("S", Fields::Named(&f_names)),
        FieldValues::Named(vec![NamedValues::new(&f_fields, vec![Value::I32(1)])]),
    );
    check(&Value::Structable(s), "{\"f\":1}", "{\n  \"f\": 1\n}");

    let fg_fields = [NamedField::new("f"), NamedField::new("g")];
    let fg_names = Names::new(&fg_fields);
    let s = StructValue::new(
        StructDef::new_static("S", Fields::Named(&fg_names)),
        FieldValues::Named(vec![NamedValues::new(
            &fg_fields,
            vec![Value::I32(1), Value::String("a")],
        )]),
    );
    check(
        &Value::Structable(s),
        "{\"f\":1,\"g\":\"a\"}",
        "{\n  \"f\": 1,\n  \"g\": \"a\"\n}",
    );
}

#[test]
fn test_struct_key() {
    let s = StructValue::new(
        StructDef::new_static("S", Fields::Unnamed),
        FieldValues::Unnamed(vec![]),
    );
    let map = MapValue::new(vec![(Value::Structable(s), Value::U8(1))]);
    check_err(&Value::Mappable(map), "struct cannot be a key");
}

#[test]
fn test_tuple_struct() {
    let s = StructValue::new(
        StructDef::new_static("S", Fields::Unnamed),
        FieldValues::Unnamed(vec![vec![Value::I32(0)]]),
    );
    check(&Value::Structable(s), "[0]", "[\n  0\n]");

    let s = StructValue::new(
        StructDef::new_static("S", Fields::Unnamed),
        FieldValues::Unnamed(vec![vec![Value::I32(-1), Value::I32(1)]]),
    );
    check(&Value::Structable(s), "[-1,1]", "[\n  -1,\n  1\n]");
}

#[test]
fn test_enum() {
    let unit_variants = [VariantDef::new("Unit", Fields::Unnamed)];
    let def = EnumDef::new_static("E", &unit_variants);
    let v = EnumValue::new(
        def,
        Variant::Static(&unit_variants[0]),
        FieldValues::Unnamed(vec![vec![]]),
    );
    check(&Value::Enumerable(v), "{\"Unit\":[]}", "{\n  \"Unit\": []\n}");

    let newtype_variants = [VariantDef::new("Newtype", Fields::Unnamed)];
    let def = EnumDef::new_static("E", &newtype_variants);
    let v = EnumValue::new(
        def,
        Variant::Static(&newtype_variants[0]),
        FieldValues::Unnamed(vec![vec![Value::I32(0)]]),
    );
    check(
        &Value::Enumerable(v),
        "{\"Newtype\":[0]}",
        "{\n  \"Newtype\": [\n    0\n  ]\n}",
    );

    let tuple_variants = [VariantDef::new("Tuple", Fields::Unnamed)];
    let def = EnumDef::new_static("E", &tuple_variants);
    let v = EnumValue::new(
        def,
        Variant::Static(&tuple_variants[0]),
        FieldValues::Unnamed(vec![vec![Value::I32(-1), Value::I32(1)]]),
    );
    check(
        &Value::Enumerable(v),
        "{\"Tuple\":[-1,1]}",
        "{\n  \"Tuple\": [\n    -1,\n    1\n  ]\n}",
    );

    let f_fields = [NamedField::new("f")];
    let f_names = Names::new(&f_fields);
    let struct_variants = [VariantDef::new("Struct", Fields::Named(&f_names))];
    let def = EnumDef::new_static("E", &struct_variants);
    let v = EnumValue::new(
        def,
        Variant::Static(&struct_variants[0]),
        FieldValues::Named(vec![NamedValues::new(&f_fields, vec![Value::I32(1)])]),
    );
    check(
        &Value::Enumerable(v),
        "{\"Struct\":{\"f\":1}}",
        "{\n  \"Struct\": {\n    \"f\": 1\n  }\n}",
    );
}

#[test]
fn test_enum_key() {
    let variants = [VariantDef::new("Unit", Fields::Unnamed)];
    let def = EnumDef::new_static("E", &variants);
    let v = EnumValue::new(
        def,
        Variant::Static(&variants[0]),
        FieldValues::Unnamed(vec![vec![]]),
    );
    let map = MapValue::new(vec![(Value::Enumerable(v), Value::U8(1))]);
    check_err(&Value::Mappable(map), "enum cannot be a key");
}

#[test]
fn test_option() {
    let none: Option<i32> = None;
    check(&none.as_value(), "null", "null");
    check(&vec![0, 1].as_value(), "[0,1]", "[\n  0,\n  1\n]");
}

#[test]
fn test_unit_tuple_is_null() {
    let t = TupleValue::new(TupleDef::new_static(0), vec![]);
    check(&Value::Tuplable(t), "null", "null");
}

#[test]
fn test_unit_struct() {
    let s = StructValue::new(
        StructDef::new_static("S", Fields::Unnamed),
        FieldValues::Unnamed(vec![]),
    );
    check(&Value::Structable(s), "[]", "[]");
}

#[test]
fn test_renderable_unsupported() {
    let v = Value::Renderable("NotValuable");
    check_err(&v, "unsupported value kind");
}
