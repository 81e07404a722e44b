use escli::path_parameter::PathParameter;

#[test]
fn params_returns_combined_optional_and_mandatory_parameters() {
    let path_param = PathParameter::new(
        "example_path".to_string(),
        vec![],
        vec!["param1".to_string(), "param2".to_string()],
        vec!["param3".to_string()],
        "GET".to_string(),
    );
    let mut result = path_param.params();
    result.sort();
    assert_eq!(
        result,
        vec![
            "param1".to_string(),
            "param2".to_string(),
            "param3".to_string()
        ]
    );
}

#[test]
fn params_returns_empty_vector_when_no_parameters_exist() {
    let path_param = PathParameter::new(
        "example_path".to_string(),
        vec![],
        vec![],
        vec![],
        "GET".to_string(),
    );
    let result = path_param.params();
    assert!(result.is_empty());
}

#[test]
fn pattern_params_returns_single_mandatory_parameter() {
    let path_param = PathParameter::new(
        "example_path".to_string(),
        vec!["param1".to_string()],
        vec!["param1".to_string()],
        vec![],
        "GET".to_string(),
    );
    let result = path_param.pattern_params();
    assert_eq!(result, "param1");
}

#[test]
fn pattern_params_returns_single_optional_parameter_wrapped_in_some() {
    let path_param = PathParameter::new(
        "example_path".to_string(),
        vec!["param1".to_string()],
        vec![],
        vec!["param1".to_string()],
        "GET".to_string(),
    );
    let result = path_param.pattern_params();
    assert_eq!(result, "Some(param1)");
}

#[test]
fn pattern_params_returns_none_for_missing_parameters() {
    let path_param = PathParameter::new(
        "example_path".to_string(),
        vec!["param1".to_string(), "param2".to_string()],
        vec![],
        vec![],
        "GET".to_string(),
    );
    let result = path_param.pattern_params();
    assert_eq!(result, "(None,None)");
}

#[test]
fn pattern_params_returns_combined_mandatory_and_optional_parameters() {
    let path_param = PathParameter::new(
        "example_path".to_string(),
        vec!["param1".to_string(), "param2".to_string()],
        vec!["param1".to_string()],
        vec!["param2".to_string()],
        "GET".to_string(),
    );
    let result = path_param.pattern_params();
    assert_eq!(result, "(param1,Some(param2))");
}

#[test]
fn pattern_params_handles_empty_endpoints_params() {
    let path_param = PathParameter::new(
        "example_path".to_string(),
        vec![],
        vec!["param1".to_string()],
        vec!["param2".to_string()],
        "GET".to_string(),
    );
    let result = path_param.pattern_params();
    assert_eq!(result, "()");
}

#[test]
fn pattern_params_prefers_optional_over_mandatory_for_shared_names() {
    let path_param = PathParameter::new(
        "example_path".to_string(),
        vec!["param1".to_string()],
        vec!["param1".to_string()],
        vec!["param1".to_string()],
        "GET".to_string(),
    );
    assert_eq!(path_param.pattern_params(), "Some(param1)");
}

#[test]
fn method_and_path_report_the_template() {
    let path_param = PathParameter::new(
        "/foo/{bar}".to_string(),
        vec!["bar".to_string()],
        vec!["bar".to_string()],
        vec![],
        "Post".to_string(),
    );
    assert_eq!(path_param.method(), "Post");
    assert_eq!(path_param.path(), "/foo/{bar}");
}
