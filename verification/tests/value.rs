use valuable::{NamedValues, Slice, Valuable, Value, Visit};

struct ExpectBool(bool, usize);

impl Visit for ExpectBool {
    fn obs(&self) -> vstd::seq::Seq<valuable::VisitEvent> {
        panic!()
    }
    fn visit_value(&mut self, value: &Value<'_>) {
        assert!(matches!(value, Value::Bool(v) if *v == self.0));
        assert_eq!(self.1, 0);
        self.1 += 1;
    }
    fn visit_named_fields(&mut self, _: &NamedValues<'_>) {
        panic!();
    }
    fn visit_unnamed_fields(&mut self, _: &[Value<'_>]) {
        panic!();
    }
    fn visit_primitive_slice(&mut self, _: Slice<'_>) {
        panic!();
    }
    fn visit_entry(&mut self, _: &Value<'_>, _: &Value<'_>) {
        panic!();
    }
}

struct ExpectChar(char, usize);

impl Visit for ExpectChar {
    fn obs(&self) -> vstd::seq::Seq<valuable::VisitEvent> {
        panic!()
    }
    fn visit_value(&mut self, value: &Value<'_>) {
        assert!(matches!(value, Value::Char(v) if *v == self.0));
        assert_eq!(self.1, 0);
        self.1 += 1;
    }
    fn visit_named_fields(&mut self, _: &NamedValues<'_>) {
        panic!();
    }
    fn visit_unnamed_fields(&mut self, _: &[Value<'_>]) {
        panic!();
    }
    fn visit_primitive_slice(&mut self, _: Slice<'_>) {
        panic!();
    }
    fn visit_entry(&mut self, _: &Value<'_>, _: &Value<'_>) {
        panic!();
    }
}

struct ExpectStr(String, usize);

impl Visit for ExpectStr {
    fn obs(&self) -> vstd::seq::Seq<valuable::VisitEvent> {
        panic!()
    }
    fn visit_value(&mut self, value: &Value<'_>) {
        assert!(matches!(value, Value::String(v) if *v == self.0));
        self.1 += 1;
    }
    fn visit_named_fields(&mut self, _: &NamedValues<'_>) {
        panic!();
    }
    fn visit_unnamed_fields(&mut self, _: &[Value<'_>]) {
        panic!();
    }
    fn visit_primitive_slice(&mut self, _: Slice<'_>) {
        panic!();
    }
    fn visit_entry(&mut self, _: &Value<'_>, _: &Value<'_>) {
        panic!();
    }
}

#[test]
fn value_test_default() {
    assert!(matches!(Value::default(), Value::Unit));
}

#[test]
fn value_test_bool() {
    for &src in &[true, false] {
        let mut visit = ExpectBool(src, 0);
        src.visit(&mut visit);
        assert_eq!(visit.1, 1);

        let val = Value::from(src);
        let mut visit = ExpectBool(src, 0);
        val.visit(&mut visit);
        assert_eq!(visit.1, 1);

        assert!(matches!(val, Value::Bool(v) if v == src));
        assert!(matches!(Valuable::as_value(&val), Value::Bool(v) if v == src));
        assert!(matches!(val.clone(), Value::Bool(v) if v == src));
    }
}

#[test]
fn value_test_char() {
    for &src in &['a', 'b', 'c'] {
        let mut visit = ExpectChar(src, 0);
        src.visit(&mut visit);
        assert_eq!(visit.1, 1);

        let val = Value::from(src);
        let mut visit = ExpectChar(src, 0);
        val.visit(&mut visit);
        assert_eq!(visit.1, 1);

        assert!(matches!(val, Value::Char(v) if v == src));
        assert!(matches!(Valuable::as_value(&val), Value::Char(v) if v == src));
        assert!(matches!(val.clone(), Value::Char(v) if v == src));
    }
}

#[test]
fn value_test_str() {
    let string = "in a string".to_string();
    for src in ["hello world", &string[..]] {
        let mut visit = ExpectStr(src.to_string(), 0);
        src.visit(&mut visit);
        assert_eq!(visit.1, 1);

        let val = Value::from(src);
        let mut visit = ExpectStr(src.to_string(), 0);
        val.visit(&mut visit);
        assert_eq!(visit.1, 1);

        assert!(matches!(val, Value::String(v) if v == src));
        assert!(matches!(Valuable::as_value(&val), Value::String(v) if v == src));
        assert!(matches!(val.clone(), Value::String(v) if v == src));
    }
}

#[test]
fn value_test_error() {
    let message = "could not read the stream".to_string();
    let val = Value::Error(&message);
    assert!(matches!(val, Value::Error(_)));
    assert!(matches!(Valuable::as_value(&val), Value::Error(_)));
    assert_eq!(val.as_error(), Some(&message[..]));
}

#[test]
fn value_test_unit() {
    assert!(matches!(().as_value(), Value::Unit));
    assert!(matches!(Value::Unit, Value::Unit));
    assert!(Value::Unit.as_bool().is_none());
    assert!(Value::Unit.as_char().is_none());
    assert!(Value::Unit.as_str().is_none());
    assert!(Value::Unit.as_i32().is_none());
}

#[test]
fn value_test_numeric_narrowing() {
    let v = Value::U64(300);
    assert_eq!(v.as_u8(), None);
    assert_eq!(v.as_u16(), Some(300));
    assert_eq!(v.as_i16(), Some(300));
    assert_eq!(v.as_u64(), Some(300));
    assert_eq!(v.as_i64(), Some(300));

    let neg = Value::I8(-5);
    assert_eq!(neg.as_u8(), None);
    assert_eq!(neg.as_u128(), None);
    assert_eq!(neg.as_i8(), Some(-5));
    assert_eq!(neg.as_i128(), Some(-5));

    let big = Value::U128(u128::MAX);
    assert_eq!(big.as_u128(), Some(u128::MAX));
    assert_eq!(big.as_i128(), None);
    assert_eq!(big.as_u64(), None);

    let min = Value::I128(i128::MIN);
    assert_eq!(min.as_i128(), Some(i128::MIN));
    assert_eq!(min.as_i64(), None);
    assert_eq!(min.as_u128(), None);
}

#[test]
fn value_test_renderable() {
    let rendered = "NotValuable { foo: 123, bar: 456 }".to_string();
    let val = Value::Renderable(&rendered);
    assert!(matches!(val, Value::Renderable(_)));
    assert!(matches!(Valuable::as_value(&val), Value::Renderable(_)));
    assert_eq!(val.as_renderable(), Some(&rendered[..]));
    assert_eq!(valuable::render(&val), rendered);
}
