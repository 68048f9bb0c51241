use lspedit::client::IdCounter;
use lspedit::id::RequestId;

#[test]
fn integer_id_never_equals_string_id() {
    let int_id = RequestId::from(3);
    let str_id = RequestId::from("3".to_string());
    assert!(int_id != str_id);
    assert!(!int_id.same(&str_id));
}

#[test]
fn ids_of_the_same_kind_compare_by_value() {
    assert!(RequestId::from(7) == RequestId::from(7));
    assert!(RequestId::from(7) != RequestId::from(8));
    assert!(RequestId::from("a".to_string()) == RequestId::from("a".to_string()));
    assert!(RequestId::from("a".to_string()) != RequestId::from("b".to_string()));
}

#[test]
fn ids_are_handed_out_from_zero_in_order() {
    let mut ids = IdCounter::new();
    assert!(ids.get_new_id().unwrap() == RequestId::from(0));
    assert!(ids.get_new_id().unwrap() == RequestId::from(1));
    assert!(ids.get_new_id().unwrap() == RequestId::from(2));
}

#[test]
fn copy_id_keeps_the_value() {
    let id = RequestId::from("x".to_string());
    assert!(id.copy_id() == id);
    assert_eq!(RequestId::from(5).as_i32(), Some(5));
    assert_eq!(id.as_i32(), None);
}
