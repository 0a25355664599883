use staple::filter::{get_json_pointer, keep_in_not_field, not_field_mask, FieldValue};

#[test]
fn test_get_json_pointer() {
    assert_eq!("/a", get_json_pointer("a"));
    assert_eq!("/a/b", get_json_pointer("a.b"));
}

#[test]
fn not_field_keeps_absent_null_and_false_like_values() {
    assert!(keep_in_not_field(&FieldValue::Missing));
    assert!(keep_in_not_field(&FieldValue::Null));
    assert!(keep_in_not_field(&FieldValue::Bool(false)));
    assert!(keep_in_not_field(&FieldValue::Text("false".to_string())));
    assert!(keep_in_not_field(&FieldValue::Text("False".to_string())));
    assert!(keep_in_not_field(&FieldValue::Text("FALSE".to_string())));
}

#[test]
fn not_field_drops_true_like_and_opaque_values() {
    assert!(!keep_in_not_field(&FieldValue::Bool(true)));
    assert!(!keep_in_not_field(&FieldValue::Text("true".to_string())));
    assert!(!keep_in_not_field(&FieldValue::Text("no".to_string())));
    assert!(!keep_in_not_field(&FieldValue::Text("".to_string())));
    assert!(!keep_in_not_field(&FieldValue::Other));
}

#[test]
fn not_field_mask_follows_each_item() {
    let fields = vec![
        FieldValue::Bool(true),
        FieldValue::Null,
        FieldValue::Text("FALSE".to_string()),
        FieldValue::Other,
    ];
    assert_eq!(vec![false, true, true, false], not_field_mask(&fields));
}
