use rustpilot::tools::file_tools::{
    is_approval, is_yes, list, preview, propose, render, settle, show_entry, try_propose,
    ChangeTag, EditInput, LineChange, ListedEntry, Probe, Proposal, Verdict, APPLIED,
    CONFIRM_PROMPT, CONTEXT_LINES, REJECTED,
};
use rustpilot::tools::{Tool, ToolRegistry, ToolResult, ToolUse};
use rustpilot::AgentError;
use serde_json::Value;
use std::sync::Mutex;

fn entry(is_dir: bool, name: &str) -> ListedEntry {
    ListedEntry { is_dir, name: Some(name.to_string()) }
}

fn piece(tag: ChangeTag, text: &str) -> LineChange {
    LineChange { tag, text: text.to_string() }
}

fn edit(path: &str, old_content: &str, new_content: &str) -> EditInput {
    EditInput {
        path: path.to_string(),
        old_content: old_content.to_string(),
        new_content: new_content.to_string(),
    }
}

fn heading(path: &str) -> Vec<LineChange> {
    vec![
        piece(ChangeTag::Equal, "\n"),
        piece(ChangeTag::Delete, &format!("--- {}", path)),
        piece(ChangeTag::Equal, "\n"),
        piece(ChangeTag::Insert, &format!("+++ {}", path)),
        piece(ChangeTag::Equal, "\n"),
    ]
}

#[test]
fn an_entry_shows_its_kind_and_its_name() {
    assert_eq!(show_entry(&entry(true, "src")), "[DIR] src");
    assert_eq!(show_entry(&entry(false, "Cargo.toml")), "[FILE] Cargo.toml");
    assert_eq!(show_entry(&ListedEntry { is_dir: false, name: None }), "[FILE] ?");
    assert_eq!(show_entry(&ListedEntry { is_dir: true, name: None }), "[DIR] ?");
}

#[test]
fn a_directory_is_listed_one_entry_to_a_line() {
    let probe = Probe::Directory(vec![entry(true, "src"), entry(false, "a b.txt"), entry(true, "")]);
    assert_eq!(list(".", &probe), Ok("[DIR] src\n[FILE] a b.txt\n[DIR] ".to_string()));
}

#[test]
fn an_empty_directory_is_listed_as_nothing() {
    assert_eq!(list("empty", &Probe::Directory(vec![])), Ok(String::new()));
}

#[test]
fn a_file_is_listed_as_itself() {
    assert_eq!(list("src/lib.rs", &Probe::File), Ok("[FILE] src/lib.rs".to_string()));
}

#[test]
fn a_missing_path_fails_the_listing() {
    let failure = list("nowhere", &Probe::Missing).unwrap_err();
    assert_eq!(failure, AgentError::ToolError("not found: nowhere".to_string()));
    assert_eq!(failure.message(), "Tool execution error: not found: nowhere");
}

#[test]
fn render_signs_every_line() {
    let changes = vec![
        piece(ChangeTag::Equal, "a\n"),
        piece(ChangeTag::Delete, "b\n"),
        piece(ChangeTag::Insert, "B\n"),
    ];
    assert_eq!(
        render(&changes),
        vec![
            piece(ChangeTag::Equal, " a\n"),
            piece(ChangeTag::Delete, "-b\n"),
            piece(ChangeTag::Insert, "+B\n"),
        ]
    );
    assert_eq!(render(&vec![]), vec![]);
}

#[test]
fn render_shows_two_unchanged_lines_in_a_row_at_most() {
    assert_eq!(CONTEXT_LINES, 2);
    let changes = vec![
        piece(ChangeTag::Equal, "1\n"),
        piece(ChangeTag::Equal, "2\n"),
        piece(ChangeTag::Equal, "3\n"),
        piece(ChangeTag::Equal, "4\n"),
        piece(ChangeTag::Delete, "x\n"),
        piece(ChangeTag::Equal, "5\n"),
        piece(ChangeTag::Insert, "y\n"),
        piece(ChangeTag::Equal, "6\n"),
        piece(ChangeTag::Equal, "7\n"),
        piece(ChangeTag::Equal, "8\n"),
    ];
    assert_eq!(
        render(&changes),
        vec![
            piece(ChangeTag::Equal, " 1\n"),
            piece(ChangeTag::Equal, " 2\n"),
            piece(ChangeTag::Delete, "-x\n"),
            piece(ChangeTag::Equal, " 5\n"),
            piece(ChangeTag::Insert, "+y\n"),
            piece(ChangeTag::Equal, " 6\n"),
            piece(ChangeTag::Equal, " 7\n"),
        ]
    );
}

#[test]
fn review_fails_where_the_old_content_is_not_in_the_file() {
    let failure = propose("fn main() {}\n", &edit("src/main.rs", "fn mian", "fn main")).unwrap_err();
    assert_eq!(failure, AgentError::ToolError("not found in src/main.rs".to_string()));
    assert_eq!(failure.message(), "Tool execution error: not found in src/main.rs");
}

#[test]
fn review_fails_on_an_empty_file_unless_the_old_content_is_empty_too() {
    assert!(propose("", &edit("a", "x", "y")).is_err());
    let proposal = propose("", &edit("a", "", "y")).unwrap();
    assert_eq!(proposal.updated, "y");
}

#[test]
fn review_replaces_the_first_occurrence_and_previews_the_difference() {
    let current = "let a = 1;\nlet b = 2;\nlet a = 1;\n";
    let proposal = propose(current, &edit("src/x.rs", "let a = 1;\n", "let a = 10;\n")).unwrap();
    assert_eq!(proposal.path, "src/x.rs");
    assert_eq!(proposal.updated, "let a = 10;\nlet b = 2;\nlet a = 1;\n");
    let mut preview = heading("src/x.rs");
    preview.push(piece(ChangeTag::Delete, "-let a = 1;\n"));
    preview.push(piece(ChangeTag::Insert, "+let a = 10;\n"));
    assert_eq!(proposal.preview, preview);
}

#[test]
fn the_preview_compares_line_by_line_and_ends_every_line() {
    let proposal = propose("a\nb\nc", &edit("f", "a\nb\nc", "a\nb\nC")).unwrap();
    let mut preview = heading("f");
    preview.push(piece(ChangeTag::Equal, " a\n"));
    preview.push(piece(ChangeTag::Equal, " b\n"));
    preview.push(piece(ChangeTag::Delete, "-c\n"));
    preview.push(piece(ChangeTag::Insert, "+C\n"));
    assert_eq!(proposal.preview, preview);
    assert_eq!(proposal.updated, "a\nb\nC");
}

#[test]
fn the_preview_leaves_out_context_beyond_two_lines() {
    let old_content = "1\n2\n3\n4\nx\n5\n6\n7\n";
    let new_content = "1\n2\n3\n4\ny\n5\n6\n7\n";
    let proposal = propose(old_content, &edit("f", old_content, new_content)).unwrap();
    let mut preview = heading("f");
    preview.push(piece(ChangeTag::Equal, " 1\n"));
    preview.push(piece(ChangeTag::Equal, " 2\n"));
    preview.push(piece(ChangeTag::Delete, "-x\n"));
    preview.push(piece(ChangeTag::Insert, "+y\n"));
    preview.push(piece(ChangeTag::Equal, " 5\n"));
    preview.push(piece(ChangeTag::Equal, " 6\n"));
    assert_eq!(proposal.preview, preview);
}

#[test]
fn an_edit_that_changes_nothing_previews_context_only() {
    let proposal = propose("same\n", &edit("f", "same\n", "same\n")).unwrap();
    let mut preview = heading("f");
    preview.push(piece(ChangeTag::Equal, " same\n"));
    assert_eq!(proposal.preview, preview);
    assert_eq!(proposal.updated, "same\n");
}

#[test]
fn preview_puts_the_path_before_the_shown_changes() {
    let changes = vec![
        piece(ChangeTag::Equal, "a\n"),
        piece(ChangeTag::Equal, "b\n"),
        piece(ChangeTag::Equal, "c\n"),
        piece(ChangeTag::Insert, "d\n"),
    ];
    let mut expected = heading("dir/file.txt");
    expected.push(piece(ChangeTag::Equal, " a\n"));
    expected.push(piece(ChangeTag::Equal, " b\n"));
    expected.push(piece(ChangeTag::Insert, "+d\n"));
    assert_eq!(preview("dir/file.txt", &changes), expected);
    assert_eq!(preview("", &vec![]), heading(""));
}

#[test]
fn try_propose_prepares_an_edit_of_ordinary_size() {
    let input = edit("f", "b", "B");
    assert_eq!(try_propose("a b c", &input), Some(propose("a b c", &input)));
    assert_eq!(
        try_propose("a c", &input),
        Some(Err(AgentError::ToolError("not found in f".to_string())))
    );
}

#[test]
fn only_the_letter_y_approves() {
    for response in ["y", "Y", "y\n", "  Y \r\n", "\ty"] {
        assert!(is_approval(response));
    }
    for response in ["", "\n", "n", "N", "yes", "yy", "y y", "Yes\n", "ｙ", "ý", "1"] {
        assert!(!is_approval(response));
    }
}

#[test]
fn yes_is_the_letter_y_alone() {
    assert!(is_yes("y"));
    assert!(is_yes("Y"));
    for answer in ["", " y", "y ", "y\n", "yes", "n", "yy"] {
        assert!(!is_yes(answer));
    }
}

#[test]
fn approval_agrees_with_lower_casing_the_trimmed_response() {
    for response in ["y", "Y", " y ", "n", "", "yes", "Ｙ", "K", "\u{212a}"] {
        assert_eq!(is_approval(response), response.trim().to_lowercase() == "y");
    }
}

fn sample_proposal() -> Proposal {
    Proposal { path: "f".to_string(), updated: "new text".to_string(), preview: vec![] }
}

#[test]
fn approval_applies_the_reviewed_content() {
    let verdict = settle(sample_proposal(), "y\n");
    assert_eq!(
        verdict,
        Verdict::Apply { path: "f".to_string(), content: "new text".to_string() }
    );
    assert_eq!(verdict.message(), "changes applied");
    assert_eq!(APPLIED, "changes applied");
}

#[test]
fn anything_else_rejects_the_edit() {
    let verdict = settle(sample_proposal(), "no\n");
    assert_eq!(verdict, Verdict::Reject);
    assert_eq!(verdict.message(), "changes rejected");
    assert_eq!(REJECTED, "changes rejected");
    assert_eq!(settle(sample_proposal(), ""), Verdict::Reject);
}

#[test]
fn the_operator_is_asked_after_the_preview() {
    assert_eq!(CONFIRM_PROMPT, "\napply changes? (y/n) ");
}

/// The edit tool over a file kept in memory and an operator who always gives
/// the same response.
struct ScriptedEdit {
    file: Mutex<String>,
    response: &'static str,
}

impl Tool for ScriptedEdit {
    fn name(&self) -> &str {
        "edit"
    }

    fn description(&self) -> &str {
        "edit file"
    }

    fn input_schema(&self) -> Value {
        Value::Null
    }

    fn execute(&self, input: Value) -> Result<String, AgentError> {
        let field = |name: &str| match input.get(name).and_then(|value| value.as_str()) {
            Some(text) => Ok(text.to_string()),
            None => Err(AgentError::JsonError(format!("missing field `{}`", name))),
        };
        let input = EditInput {
            path: field("path")?,
            old_content: field("old_content")?,
            new_content: field("new_content")?,
        };
        let mut file = self.file.lock().unwrap();
        let proposed = propose(&file, &input)?;
        let verdict = settle(proposed, self.response);
        if let Verdict::Apply { content, .. } = &verdict {
            *file = content.clone();
        }
        Ok(verdict.message())
    }
}

/// Runs one edit of `file` through a registry that holds the edit tool.
fn run_edit(file: &str, response: &'static str, old_content: &str, new_content: &str) -> ToolResult {
    let mut registry = ToolRegistry::new();
    registry.register(Box::new(ScriptedEdit { file: Mutex::new(file.to_string()), response }));
    let mut input = serde_json::Map::new();
    input.insert("path".to_string(), Value::String("notes.txt".to_string()));
    input.insert("old_content".to_string(), Value::String(old_content.to_string()));
    input.insert("new_content".to_string(), Value::String(new_content.to_string()));
    let call = ToolUse { id: "e1".to_string(), name: "edit".to_string(), input: Value::Object(input) };
    registry.execute(&call).unwrap()
}

#[test]
fn a_rejected_edit_leaves_the_file_unchanged_and_is_no_error() {
    let file = "alpha\nbeta\nalpha\n";
    let tool = ScriptedEdit { file: Mutex::new(file.to_string()), response: "n\n" };
    let input: Value = serde_json::from_str(
        "{\"path\": \"notes.txt\", \"old_content\": \"alpha\", \"new_content\": \"gamma\"}",
    )
    .unwrap();
    let outcome = tool.execute(input);
    assert_eq!(outcome, Ok("changes rejected".to_string()));
    assert_eq!(tool.file.lock().unwrap().as_bytes(), file.as_bytes());
    let result = ToolResult::from_outcome("e1".to_string(), outcome);
    assert_eq!(
        result,
        ToolResult {
            tool_use_id: "e1".to_string(),
            content: "changes rejected".to_string(),
            is_error: false,
        }
    );
}

#[test]
fn a_rejected_edit_run_through_the_registry_is_no_error() {
    let result = run_edit("alpha\nbeta\nalpha\n", "n\n", "alpha", "gamma");
    assert_eq!(
        result,
        ToolResult {
            tool_use_id: "e1".to_string(),
            content: "changes rejected".to_string(),
            is_error: false,
        }
    );
}

#[test]
fn an_approved_edit_replaces_the_first_occurrence_only() {
    let tool = ScriptedEdit { file: Mutex::new("alpha\nbeta\nalpha\n".to_string()), response: "Y\n" };
    let input: Value = serde_json::from_str(
        "{\"path\": \"notes.txt\", \"old_content\": \"alpha\", \"new_content\": \"gamma!\"}",
    )
    .unwrap();
    assert_eq!(tool.execute(input), Ok("changes applied".to_string()));
    let after = tool.file.lock().unwrap().clone();
    assert_eq!(after, "gamma!\nbeta\nalpha\n");
    assert_eq!(&after[12..17], "alpha");
}

#[test]
fn an_edit_of_content_that_is_not_there_is_an_error_result() {
    let result = run_edit("alpha\n", "y\n", "delta", "gamma");
    assert_eq!(
        result,
        ToolResult {
            tool_use_id: "e1".to_string(),
            content: "Error: Tool execution error: not found in notes.txt".to_string(),
            is_error: true,
        }
    );
}
