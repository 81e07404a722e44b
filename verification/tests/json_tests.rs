use escli::json::{json_write, Json};

#[test]
fn serializer_writes_scalars() {
    assert_eq!(json_write(&Json::Null), "null");
    assert_eq!(json_write(&Json::Bool(true)), "true");
    assert_eq!(json_write(&Json::Bool(false)), "false");
    assert_eq!(json_write(&Json::UInt(0)), "0");
    assert_eq!(json_write(&Json::UInt(u64::MAX)), "18446744073709551615");
    assert_eq!(json_write(&Json::Int(-5)), "-5");
    assert_eq!(json_write(&Json::Int(i64::MIN)), "-9223372036854775808");
    assert_eq!(json_write(&Json::Num("1.5".to_string())), "1.5");
    assert_eq!(json_write(&Json::Str("plain".to_string())), "\"plain\"");
}

#[test]
fn serializer_escapes_strings() {
    assert_eq!(
        json_write(&Json::Str("a\"b\\c\nd\te".to_string())),
        "\"a\\\"b\\\\c\\nd\\te\""
    );
    assert_eq!(json_write(&Json::Str("\u{1}".to_string())), "\"\\u0001\"");
}

#[test]
fn serializer_writes_nested_values_compactly() {
    let value = Json::Obj(vec![
        ("a".to_string(), Json::Arr(vec![Json::UInt(1), Json::Null])),
        (
            "b".to_string(),
            Json::Obj(vec![("c".to_string(), Json::Str("d".to_string()))]),
        ),
    ]);
    assert_eq!(json_write(&value), "{\"a\":[1,null],\"b\":{\"c\":\"d\"}}");
    assert_eq!(json_write(&Json::Arr(vec![])), "[]");
    assert_eq!(json_write(&Json::Obj(vec![])), "{}");
}
