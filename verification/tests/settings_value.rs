use heddle::settings_value::{find_field, FileValue, SettingsValue};

#[test]
fn vec_recursive() {
    let v = vec![10u32, 20u32];
    let file_val = v.to_file_value();
    assert_eq!(
        file_val,
        FileValue::Array(vec![FileValue::Number(10), FileValue::Number(20)])
    );
    let back = Vec::<u32>::from_file_value(&file_val).unwrap();
    assert_eq!(back, v);
}

#[test]
fn vec_skips_unparseable_elements() {
    let file_val = FileValue::Array(vec![
        FileValue::Number(10),
        FileValue::String("not a number".into()),
        FileValue::Number(30),
    ]);
    let back = Vec::<u32>::from_file_value(&file_val).unwrap();
    assert_eq!(back, vec![10u32, 30u32]);
}

#[test]
fn vec_rejects_non_array() {
    assert_eq!(Vec::<u32>::from_file_value(&FileValue::Number(1)), None);
}

#[test]
fn option_some() {
    let v: Option<u32> = Some(5);
    let file_val = v.to_file_value();
    assert_eq!(file_val, FileValue::Number(5));
    let back = Option::<u32>::from_file_value(&file_val).unwrap();
    assert_eq!(back, v);
}

#[test]
fn option_none() {
    let v: Option<u32> = None;
    let file_val = v.to_file_value();
    assert_eq!(file_val, FileValue::Null);
    let back = Option::<u32>::from_file_value(&file_val).unwrap();
    assert_eq!(back, v);
}

#[test]
fn bool_passthrough() {
    assert_eq!(true.to_file_value(), FileValue::Bool(true));
    assert_eq!(bool::from_file_value(&FileValue::Bool(false)), Some(false));
}

#[test]
fn string_passthrough() {
    let s = "hello".to_string();
    let file_val = s.to_file_value();
    assert_eq!(file_val, FileValue::String("hello".into()));
    assert_eq!(String::from_file_value(&file_val), Some(s));
}

#[test]
fn a_number_past_the_type_does_not_read() {
    assert_eq!(u32::from_file_value(&FileValue::Number(1 << 32)), None);
    assert_eq!(
        u32::from_file_value(&FileValue::Number(u32::MAX as u64)),
        Some(u32::MAX)
    );
    assert_eq!(u32::from_file_value(&FileValue::Bool(true)), None);
}

#[test]
fn an_option_of_the_wrong_kind_does_not_read() {
    assert_eq!(
        Option::<u32>::from_file_value(&FileValue::String("x".into())),
        None
    );
}

#[test]
fn nested_lists_keep_what_they_can_read() {
    let stored = FileValue::Array(vec![
        FileValue::Array(vec![FileValue::Bool(true), FileValue::Null]),
        FileValue::Number(3),
        FileValue::Array(vec![]),
    ]);
    assert_eq!(
        Vec::<Vec<bool>>::from_file_value(&stored),
        Some(vec![vec![true], vec![]])
    );
}

#[test]
fn fields_are_found_by_key() {
    let entries = vec![
        ("a".to_string(), FileValue::Number(1)),
        ("b".to_string(), FileValue::Bool(false)),
        ("a".to_string(), FileValue::Number(2)),
    ];
    assert_eq!(find_field(&entries, "a"), Some(&FileValue::Number(1)));
    assert_eq!(find_field(&entries, "b"), Some(&FileValue::Bool(false)));
    assert_eq!(find_field(&entries, "c"), None);
}
