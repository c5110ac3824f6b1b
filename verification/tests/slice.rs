use valuable::Slice;

#[test]
fn test_iter() {
    let slice = Slice::I32(&[1, 2, 3]);

    let items = slice.iter();
    assert_eq!(items.len(), 3);
    let v: Vec<_> = items.iter().map(|v| v.as_i32().unwrap()).collect();
    assert_eq!(v, vec![1, 2, 3]);
}

#[test]
fn test_iter_rev() {
    let slice = Slice::I32(&[1, 2, 3]);

    let items = slice.iter_rev();
    assert_eq!(items.len(), 3);
    let v: Vec<_> = items.iter().map(|v| v.as_i32().unwrap()).collect();
    assert_eq!(v, vec![3, 2, 1]);
}

#[test]
fn test_slice_kinds() {
    assert_eq!(Slice::Bool(&[true, false]).len(), 2);
    assert_eq!(Slice::U8(&[1, 2, 3, 4]).len(), 4);
    let strings = ["x", "y"];
    let slice = Slice::Str(&strings);
    let v: Vec<_> = slice
        .iter()
        .into_iter()
        .map(|v| v.as_str().unwrap().to_string())
        .collect();
    assert_eq!(v, vec!["x".to_string(), "y".to_string()]);
    let empty = Slice::I64(&[]);
    assert!(empty.is_empty());
    assert_eq!(empty.iter().len(), 0);
}
