use valuable::{NamedField, NamedValues, Value};

#[test]
fn named_values_test_iter() {
    let f = [NamedField::new("a"), NamedField::new("b")];
    let v = NamedValues::new(&f, vec![Value::I32(1), Value::I32(2)]);

    let entries = v.entries();
    assert_eq!(entries.len(), 2);
    let v: Vec<_> = entries
        .iter()
        .map(|(f, v)| (f.name(), v.as_i32().unwrap()))
        .collect();
    assert_eq!(v, vec![("a", 1), ("b", 2)]);
}

#[test]
fn named_values_test_iter_rev() {
    let f = [NamedField::new("a"), NamedField::new("b")];
    let v = NamedValues::new(&f, vec![Value::I32(1), Value::I32(2)]);

    let entries = v.entries();
    assert_eq!(entries.len(), 2);
    let v: Vec<_> = entries
        .iter()
        .rev()
        .map(|(f, v)| (f.name(), v.as_i32().unwrap()))
        .collect();
    assert_eq!(v, vec![("b", 2), ("a", 1)]);
}

#[test]
fn test_get_by_name() {
    let f = [NamedField::new("a"), NamedField::new("b")];
    let v = NamedValues::new(&f, vec![Value::I32(1), Value::I32(2)]);

    assert!(matches!(v.get_by_name("a"), Some(Value::I32(v)) if *v == 1));
    assert!(matches!(v.get_by_name("b"), Some(Value::I32(v)) if *v == 2));
    assert!(v.get_by_name("c").is_none());
}

#[test]
fn test_get() {
    let f = [NamedField::with_index("a", 0), NamedField::with_index("b", 1)];
    let bad = NamedField::new("a");
    let v = NamedValues::new(&f, vec![Value::I32(1), Value::I32(2)]);

    assert!(matches!(v.get(&f[0]), Some(Value::I32(v)) if *v == 1));
    assert!(matches!(v.get(&f[1]), Some(Value::I32(v)) if *v == 2));
    assert!(v.get(&bad).is_none());
}

#[test]
fn test_get_foreign_positions() {
    let f = [NamedField::with_index("a", 0), NamedField::with_index("b", 1)];
    let v = NamedValues::new(&f, vec![Value::I32(1), Value::I32(2)]);

    // A descriptor from another field list: its position carries a
    // different name here, so it is not found.
    let elsewhere = NamedField::with_index("c", 1);
    assert!(v.get(&elsewhere).is_none());
    // A position the batch does not have is not found either.
    let beyond = NamedField::with_index("a", 7);
    assert!(v.get(&beyond).is_none());
    // Duplicate names do not confuse positional lookup.
    let g = [NamedField::with_index("a", 0), NamedField::with_index("a", 1)];
    let w = NamedValues::new(&g, vec![Value::I32(10), Value::I32(20)]);
    assert!(matches!(w.get(&g[1]), Some(Value::I32(v)) if *v == 20));
}
