use valuable::{
    visit, FieldValues, Fields, ListValue, NamedField, NamedValues, Names, Slice, StructDef,
    StructValue, Valuable, Value, Visit,
};

/// Counts what a consumer observes, element by element.
#[derive(Default)]
struct Counter {
    values: usize,
    named_pairs: Vec<(String, String)>,
    unnamed: usize,
    slice_elems: usize,
    entries: usize,
}

impl Visit for Counter {
    fn obs(&self) -> vstd::seq::Seq<valuable::VisitEvent> {
        panic!()
    }
    fn visit_value(&mut self, _: &Value<'_>) {
        self.values += 1;
    }
    fn visit_named_fields(&mut self, named_values: &NamedValues<'_>) {
        for (field, value) in named_values.entries() {
            self.named_pairs
                .push((field.name().to_string(), valuable::render(value)));
        }
    }
    fn visit_unnamed_fields(&mut self, values: &[Value<'_>]) {
        self.unnamed += values.len();
    }
    fn visit_primitive_slice(&mut self, slice: Slice<'_>) {
        self.slice_elems += slice.len();
    }
    fn visit_entry(&mut self, _: &Value<'_>, _: &Value<'_>) {
        self.entries += 1;
    }
}

#[test]
fn round_trip_named_fields() {
    let fields = [NamedField::new("a"), NamedField::new("b")];
    let names = Names::new(&fields);
    let producer = StructValue::new(
        StructDef::new_static("P", Fields::Named(&names)),
        FieldValues::Named(vec![NamedValues::new(
            &fields,
            vec![Value::U8(1), Value::String("two")],
        )]),
    );

    let mut counter = Counter::default();
    producer.visit(&mut counter);
    assert_eq!(
        counter.named_pairs,
        vec![
            ("a".to_string(), "1".to_string()),
            ("b".to_string(), "\"two\"".to_string())
        ]
    );
}

#[test]
fn slice_batching_counts() {
    // A primitive run is delivered in one batch holding all the elements.
    let items = [1u16, 2, 3, 4, 5];
    let mut counter = Counter::default();
    u16::visit_slice(&items, &mut counter);
    assert_eq!(counter.slice_elems, 5);
    assert_eq!(counter.values, 0);

    // An empty run still issues exactly one (empty) batch call.
    let empty: [u16; 0] = [];
    let mut counter = Counter::default();
    u16::visit_slice(&empty, &mut counter);
    assert_eq!(counter.slice_elems, 0);

    // A general list delivers one value per element; the total observed is
    // the element count either way.
    let general = ListValue::Values(vec![Value::U16(1), Value::U16(2), Value::U16(3)]);
    let mut counter = Counter::default();
    general.visit(&mut counter);
    assert_eq!(counter.values, 3);
}

#[test]
fn free_visit_delivers_one_value() {
    let mut counter = Counter::default();
    visit(&42u8, &mut counter);
    assert_eq!(counter.values, 1);
}

#[test]
fn static_and_dynamic_same_batches() {
    let fields = [NamedField::new("k")];
    let names = Names::new(&fields);
    let fixed = StructValue::new(
        StructDef::new_static("T", Fields::Named(&names)),
        FieldValues::Named(vec![NamedValues::new(&fields, vec![Value::I32(5)])]),
    );
    let dynamic = StructValue::new(
        StructDef::new_dynamic("T", Fields::Named(&names)),
        FieldValues::Named(vec![NamedValues::new(&fields, vec![Value::I32(5)])]),
    );
    let mut c1 = Counter::default();
    fixed.visit(&mut c1);
    let mut c2 = Counter::default();
    dynamic.visit(&mut c2);
    assert_eq!(c1.named_pairs, c2.named_pairs);
}
