use escli::field::Field;

#[test]
fn short_help_returns_first_line_of_description() {
    let field = Field::new(
        "example".to_string(),
        "First line.\nSecond line.".to_string(),
        true,
        "String".to_string(),
        None,
    );
    assert_eq!(field.short_help(), "First line.");
}

#[test]
fn short_help_returns_empty_string_when_description_is_empty() {
    let field = Field::new(
        "example".to_string(),
        "".to_string(),
        true,
        "String".to_string(),
        None,
    );
    assert_eq!(field.short_help(), "");
}

#[test]
fn short_help_handles_single_line_description() {
    let field = Field::new(
        "example".to_string(),
        "Single line description.".to_string(),
        true,
        "String".to_string(),
        None,
    );
    assert_eq!(field.short_help(), "Single line description.");
}

#[test]
fn long_help_returns_full_description() {
    let field = Field::new(
        "example".to_string(),
        "Full description text.".to_string(),
        true,
        "String".to_string(),
        None,
    );
    assert_eq!(field.long_help(), "Full description text.");
}

#[test]
fn long_help_returns_empty_string_when_description_is_empty() {
    let field = Field::new(
        "example".to_string(),
        "".to_string(),
        true,
        "String".to_string(),
        None,
    );
    assert_eq!(field.long_help(), "");
}

#[test]
fn long_help_handles_multiline_description() {
    let field = Field::new(
        "example".to_string(),
        "Line one.\nLine two.\nLine three.".to_string(),
        true,
        "String".to_string(),
        None,
    );
    assert_eq!(field.long_help(), "Line one.\nLine two.\nLine three.");
}

#[test]
fn typ_returns_original_type_when_field_is_required() {
    let field = Field::new(
        "example".to_string(),
        "A required field.".to_string(),
        true,
        "String".to_string(),
        None,
    );
    assert_eq!(field.typ(), "String");
}

#[test]
fn typ_returns_option_wrapped_type_when_field_is_not_required() {
    let field = Field::new(
        "example".to_string(),
        "An optional field.".to_string(),
        false,
        "String".to_string(),
        None,
    );
    assert_eq!(field.typ(), "Option<String>");
}

#[test]
fn typ_handles_empty_type_correctly() {
    let field = Field::new(
        "example".to_string(),
        "A field with no type.".to_string(),
        true,
        "".to_string(),
        None,
    );
    assert_eq!(field.typ(), "");
}

#[test]
fn typ_handles_non_standard_type_correctly() {
    let field = Field::new(
        "example".to_string(),
        "A field with a custom type.".to_string(),
        false,
        "CustomType".to_string(),
        None,
    );
    assert_eq!(field.typ(), "Option<CustomType>");
}

#[test]
fn new_sanitizes_reserved_field_names() {
    let field = Field::new(
        "type".to_string(),
        "".to_string(),
        true,
        "String".to_string(),
        None,
    );
    assert_eq!(field.name(), "ty");
    let field = Field::new(
        "help".to_string(),
        "".to_string(),
        true,
        "String".to_string(),
        None,
    );
    assert_eq!(field.name(), "help_");
    let field = Field::new(
        "h".to_string(),
        "".to_string(),
        true,
        "String".to_string(),
        None,
    );
    assert_eq!(field.name(), "h_");
    let field = Field::new(
        "plain".to_string(),
        "".to_string(),
        true,
        "String".to_string(),
        None,
    );
    assert_eq!(field.name(), "plain");
}

#[test]
fn required_reports_the_flag() {
    let req = Field::new(
        "example".to_string(),
        "".to_string(),
        true,
        "bool".to_string(),
        None,
    );
    assert!(req.required());
    let opt = Field::new(
        "example".to_string(),
        "".to_string(),
        false,
        "bool".to_string(),
        Some("false".to_string()),
    );
    assert!(!opt.required());
}

#[test]
fn short_help_strips_carriage_return_before_newline() {
    let field = Field::new(
        "example".to_string(),
        "First line.\r\nSecond line.".to_string(),
        true,
        "String".to_string(),
        None,
    );
    assert_eq!(field.short_help(), "First line.");
}
