use rustpilot::error::AgentError;
use rustpilot::tools::{Tool, ToolDefinition, ToolRegistry, ToolResult, ToolUse};
use serde_json::Value;

/// A tool that answers with its input written out.
struct Echo {
    name: &'static str,
    description: &'static str,
}

impl Tool for Echo {
    fn name(&self) -> &str {
        self.name
    }

    fn description(&self) -> &str {
        self.description
    }

    fn input_schema(&self) -> Value {
        Value::String(format!("schema of {}", self.description))
    }

    fn execute(&self, input: Value) -> Result<String, AgentError> {
        Ok(format!("{} got {}", self.description, input))
    }
}

/// A tool that always fails.
struct Broken;

impl Tool for Broken {
    fn name(&self) -> &str {
        "broken"
    }

    fn description(&self) -> &str {
        "never works"
    }

    fn input_schema(&self) -> Value {
        Value::Null
    }

    fn execute(&self, _input: Value) -> Result<String, AgentError> {
        Err(AgentError::ToolError("out of order".to_string()))
    }
}

fn call(id: &str, name: &str, input: Value) -> ToolUse {
    ToolUse { id: id.to_string(), name: name.to_string(), input }
}

#[test]
fn execute_on_an_empty_registry_reports_the_missing_tool() {
    let registry = ToolRegistry::new();
    let result = registry.execute(&call("call-1", "ls", Value::Null)).unwrap();
    assert_eq!(
        result,
        ToolResult {
            tool_use_id: "call-1".to_string(),
            content: "tool 'ls' not found".to_string(),
            is_error: true,
        }
    );
    assert!(result.content.contains("ls"));
}

#[test]
fn execute_reports_a_missing_tool_beside_registered_ones() {
    let mut registry = ToolRegistry::new();
    registry.register(Box::new(Echo { name: "echo", description: "first" }));
    let result = registry.execute(&call("7", "Echo", Value::Null)).unwrap();
    assert_eq!(result.tool_use_id, "7");
    assert_eq!(result.content, "tool 'Echo' not found");
    assert!(result.is_error);
}

#[test]
fn execute_hands_the_input_to_the_tool_and_reports_its_content() {
    let mut registry = ToolRegistry::new();
    registry.register(Box::new(Echo { name: "echo", description: "first" }));
    let result = registry.execute(&call("call-2", "echo", Value::String("hi".to_string()))).unwrap();
    assert_eq!(
        result,
        ToolResult {
            tool_use_id: "call-2".to_string(),
            content: "first got \"hi\"".to_string(),
            is_error: false,
        }
    );
}

#[test]
fn execute_turns_a_failing_tool_into_an_error_result() {
    let mut registry = ToolRegistry::new();
    registry.register(Box::new(Broken));
    let result = registry.execute(&call("call-3", "broken", Value::Null)).unwrap();
    assert_eq!(
        result,
        ToolResult {
            tool_use_id: "call-3".to_string(),
            content: "Error: Tool execution error: out of order".to_string(),
            is_error: true,
        }
    );
}

#[test]
fn execute_leaves_the_catalog_as_it_was() {
    let mut registry = ToolRegistry::new();
    registry.register(Box::new(Echo { name: "echo", description: "first" }));
    registry.register(Box::new(Broken));
    let before = registry.definitions();
    registry.execute(&call("1", "echo", Value::Null)).unwrap();
    registry.execute(&call("2", "broken", Value::Null)).unwrap();
    registry.execute(&call("3", "nobody", Value::Null)).unwrap();
    assert_eq!(registry.definitions(), before);
}

#[test]
fn registering_the_same_name_twice_keeps_the_second() {
    let mut registry = ToolRegistry::new();
    registry.register(Box::new(Echo { name: "echo", description: "first" }));
    registry.register(Box::new(Echo { name: "echo", description: "second" }));
    let catalog = registry.definitions();
    assert_eq!(
        catalog,
        vec![ToolDefinition {
            name: "echo".to_string(),
            description: "second".to_string(),
            input_schema: Value::String("schema of second".to_string()),
        }]
    );
    let result = registry.execute(&call("1", "echo", Value::Bool(true))).unwrap();
    assert_eq!(result.content, "second got true");
    assert!(!result.is_error);
}

#[test]
fn registering_again_keeps_the_place_in_the_catalog() {
    let mut registry = ToolRegistry::new();
    registry.register(Box::new(Echo { name: "a", description: "one" }));
    registry.register(Box::new(Echo { name: "b", description: "two" }));
    registry.register(Box::new(Echo { name: "a", description: "three" }));
    let catalog = registry.definitions();
    let names: Vec<&str> = catalog.iter().map(|definition| definition.name.as_str()).collect();
    let descriptions: Vec<&str> =
        catalog.iter().map(|definition| definition.description.as_str()).collect();
    assert_eq!(names, vec!["a", "b"]);
    assert_eq!(descriptions, vec!["three", "two"]);
}

#[test]
fn definitions_come_in_the_order_of_registration() {
    let mut registry = ToolRegistry::new();
    assert!(registry.definitions().is_empty());
    registry.register(Box::new(Echo { name: "read", description: "r" }));
    registry.register(Box::new(Echo { name: "ls", description: "l" }));
    registry.register(Box::new(Echo { name: "edit", description: "e" }));
    let first = registry.definitions();
    let second = registry.definitions();
    let names: Vec<&str> = first.iter().map(|definition| definition.name.as_str()).collect();
    assert_eq!(names, vec!["read", "ls", "edit"]);
    assert_eq!(first, second);
}

#[test]
fn get_finds_a_tool_by_its_name_only() {
    let mut registry = ToolRegistry::new();
    registry.register(Box::new(Echo { name: "echo", description: "first" }));
    registry.register(Box::new(Broken));
    assert_eq!(registry.get("echo").map(|tool| tool.description()), Some("first"));
    assert_eq!(registry.get("broken").map(|tool| tool.description()), Some("never works"));
    assert!(registry.get("").is_none());
    assert!(registry.get("ech").is_none());
}

#[test]
fn install_registers_under_the_given_definition() {
    let mut registry = ToolRegistry::new();
    let definition = ToolDefinition {
        name: "alias".to_string(),
        description: "an echo under another name".to_string(),
        input_schema: Value::Null,
    };
    registry.install(definition.clone(), Box::new(Echo { name: "echo", description: "first" }));
    assert_eq!(registry.definitions(), vec![definition]);
    assert!(registry.get("echo").is_none());
    let result = registry.execute(&call("1", "alias", Value::Null)).unwrap();
    assert_eq!(result.content, "first got null");
}

#[test]
fn from_tool_asks_the_tool_what_it_is() {
    let definition = ToolDefinition::from_tool(&Broken);
    assert_eq!(
        definition,
        ToolDefinition {
            name: "broken".to_string(),
            description: "never works".to_string(),
            input_schema: Value::Null,
        }
    );
}

#[test]
fn from_outcome_keeps_the_content_of_a_success() {
    let result = ToolResult::from_outcome("id-1".to_string(), Ok("done".to_string()));
    assert_eq!(
        result,
        ToolResult { tool_use_id: "id-1".to_string(), content: "done".to_string(), is_error: false }
    );
}

#[test]
fn from_outcome_writes_a_failure_after_the_word_error() {
    let failure = AgentError::FileError("No such file or directory (os error 2)".to_string());
    let result = ToolResult::from_outcome("id-2".to_string(), Err(failure));
    assert_eq!(
        result,
        ToolResult {
            tool_use_id: "id-2".to_string(),
            content: "Error: File operation error: No such file or directory (os error 2)"
                .to_string(),
            is_error: true,
        }
    );
}

#[test]
fn copies_of_requests_and_results_hold_the_same() {
    let input: Value = serde_json::from_str("{\"path\": \".\", \"depth\": [1, 2.5, null]}").unwrap();
    let request = call("1", "ls", input);
    assert_eq!(request.clone(), request);
    let result = ToolResult { tool_use_id: "1".to_string(), content: "x".to_string(), is_error: true };
    assert_eq!(result.clone(), result);
}
