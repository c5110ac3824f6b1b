use valuable::{NamedField, Names};

#[test]
fn names_indexes() {
    let fields = [
        NamedField::new("hello"),
        NamedField::new("world"),
        NamedField::new("have"),
        NamedField::new("lots_of_fun"),
    ];
    let names = Names::new(&fields);
    assert_eq!(names.names()[0].name(), "hello");
    assert_eq!(names.names()[3].name(), "lots_of_fun");
    assert_eq!(names.len(), 4);
    assert!(!names.is_empty());
    let listed = names.iter();
    let text: Vec<_> = listed.iter().map(|f| f.name()).collect();
    assert_eq!(text, vec!["hello", "world", "have", "lots_of_fun"]);
}

#[test]
fn names_owned() {
    let hello = "hello".to_string();
    let names = Names::new_owned(vec![NamedField::new(&hello)]);
    assert_eq!(names.len(), 1);
    assert_eq!(names.names()[0].name(), "hello");
}
