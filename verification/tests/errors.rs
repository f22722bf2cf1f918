use rustpilot::AgentError;

#[test]
fn each_kind_of_error_has_its_own_prefix() {
    assert_eq!(AgentError::ApiError("down".to_string()).message(), "API error: down");
    assert_eq!(
        AgentError::ToolError("not found in a.txt".to_string()).message(),
        "Tool execution error: not found in a.txt"
    );
    assert_eq!(
        AgentError::FileError("permission denied".to_string()).message(),
        "File operation error: permission denied"
    );
    assert_eq!(
        AgentError::JsonError("missing field `path`".to_string()).message(),
        "JSON parsing error: missing field `path`"
    );
    assert_eq!(AgentError::Unknown("?".to_string()).message(), "Unknown error: ?");
}

#[test]
fn an_error_without_detail_is_its_prefix() {
    assert_eq!(AgentError::Unknown(String::new()).message(), "Unknown error: ");
}

#[test]
fn a_copy_of_an_error_is_the_same_error() {
    let failure = AgentError::JsonError("expected value at line 1 column 1".to_string());
    assert_eq!(failure.clone(), failure);
    assert_ne!(failure.clone(), AgentError::ApiError("expected value at line 1 column 1".to_string()));
}
