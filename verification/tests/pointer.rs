use valuable::{
    render, visit_pointer, FieldValues, Fields, NamedField, NamedValues, Names, Pointer, Segment,
    Slice, StructDef, StructValue, Value, Visit,
};

#[derive(Default)]
struct CollectValues(Vec<String>);

impl Visit for CollectValues {
    fn obs(&self) -> vstd::seq::Seq<valuable::VisitEvent> {
        panic!()
    }
    fn visit_value(&mut self, value: &Value<'_>) {
        self.0.push(render(value));
    }
    fn visit_named_fields(&mut self, _: &NamedValues<'_>) {}
    fn visit_unnamed_fields(&mut self, _: &[Value<'_>]) {}
    fn visit_primitive_slice(&mut self, _: Slice<'_>) {}
    fn visit_entry(&mut self, _: &Value<'_>, _: &Value<'_>) {}
}

fn struct1<'a>(
    fields1: &'a [NamedField<'a>],
    names1: &'a Names<'a>,
    fields2: &'a [NamedField<'a>],
    names2: &'a Names<'a>,
) -> StructValue<'a> {
    let inner = StructValue::new(
        StructDef::new_static("Struct2", Fields::Named(names2)),
        FieldValues::Named(vec![NamedValues::new(fields2, vec![Value::String("b")])]),
    );
    StructValue::new(
        StructDef::new_static("Struct1", Fields::Named(names1)),
        FieldValues::Named(vec![NamedValues::new(
            fields1,
            vec![Value::String("a"), Value::Structable(inner)],
        )]),
    )
}

#[test]
fn basic() {
    let fields1 = [NamedField::new("x"), NamedField::new("y")];
    let names1 = Names::new(&fields1);
    let fields2 = [NamedField::new("z")];
    let names2 = Names::new(&fields2);
    let value = struct1(&fields1, &names1, &fields2, &names2);

    let mut visitor = CollectValues::default();
    visit_pointer(&value, Pointer::new(&[Segment::Field("x")]), &mut visitor);
    assert_eq!(visitor.0.len(), 1);
    assert_eq!(visitor.0[0], r#""a""#);

    let mut visitor = CollectValues::default();
    visit_pointer(&value, Pointer::new(&[Segment::Field("y")]), &mut visitor);
    assert_eq!(visitor.0.len(), 1);
    assert_eq!(visitor.0[0], r#"Struct2 { z: "b" }"#);

    let mut visitor = CollectValues::default();
    visit_pointer(
        &value,
        Pointer::new(&[Segment::Field("y"), Segment::Field("z")]),
        &mut visitor,
    );
    assert_eq!(visitor.0.len(), 1);
    assert_eq!(visitor.0[0], r#""b""#);
}

#[test]
fn pointer_into_lists_and_maps() {
    let items = [10u32, 20, 30];
    let list = Value::Listable(valuable::ListValue::Slice(Slice::U32(&items)));

    let mut visitor = CollectValues::default();
    visit_pointer(&list, Pointer::new(&[Segment::Index(Value::Usize(1))]), &mut visitor);
    assert_eq!(visitor.0, vec!["20".to_string()]);

    let map = Value::Mappable(valuable::MapValue::new(vec![
        (Value::String("a"), Value::U8(1)),
        (Value::String("b"), Value::U8(2)),
    ]));
    let mut visitor = CollectValues::default();
    visit_pointer(
        &map,
        Pointer::new(&[Segment::Index(Value::String("b"))]),
        &mut visitor,
    );
    assert_eq!(visitor.0, vec!["2".to_string()]);

    let mut visitor = CollectValues::default();
    visit_pointer(
        &map,
        Pointer::new(&[Segment::Index(Value::String("missing"))]),
        &mut visitor,
    );
    assert!(visitor.0.is_empty());
}

#[test]
fn pointer_step_and_path() {
    let segs = [Segment::Field("x"), Segment::Field("y")];
    let p = Pointer::new(&segs);
    assert_eq!(p.path().len(), 2);
    let stepped = p.step();
    assert_eq!(stepped.path().len(), 1);
    assert!(matches!(stepped.path()[0], Segment::Field(n) if n == "y"));
}

#[test]
fn visit_pointer_macro() {
    let fields1 = [NamedField::new("x"), NamedField::new("y")];
    let names1 = Names::new(&fields1);
    let fields2 = [NamedField::new("z")];
    let names2 = Names::new(&fields2);
    let value = struct1(&fields1, &names1, &fields2, &names2);

    let mut visitor = CollectValues::default();
    let path = [Segment::Field("x")];
    visit_pointer(&value, Pointer::new(&path), &mut visitor);
    assert_eq!(visitor.0.len(), 1);
    assert_eq!(visitor.0[0], r#""a""#);

    let mut visitor = CollectValues::default();
    let path = [Segment::Field("y")];
    visit_pointer(&value, Pointer::new(&path), &mut visitor);
    assert_eq!(visitor.0.len(), 1);
    assert_eq!(visitor.0[0], r#"Struct2 { z: "b" }"#);

    let mut visitor = CollectValues::default();
    let path = [Segment::Field("y"), Segment::Field("z")];
    visit_pointer(&value, Pointer::new(&path), &mut visitor);
    assert_eq!(visitor.0.len(), 1);
    assert_eq!(visitor.0[0], r#""b""#);
}
