#![allow(dead_code)]

use lineguard::checker::{CheckResult, Issue, IssueType};
use lineguard::reporter::{
    Color, ColoredOutput, GitHubReporter, HumanReporter, JsonReporter, Output,
    ReporterWithOutput,
};
use serde_json::Value;
use std::io;

/// An output that keeps what is written to it.
#[derive(Default)]
struct MockOutput {
    buffer: Vec<String>,
    color_calls: Vec<(String, Color)>,
    simulate_error: bool,
}

impl MockOutput {
    fn new() -> Self {
        Self::default()
    }

    fn simulate_error(&mut self) {
        self.simulate_error = true;
    }

    fn get_output(&self) -> String {
        self.buffer.join("")
    }

    fn get_lines(&self) -> Vec<&str> {
        self.buffer.iter().map(|s| s.as_str()).collect()
    }

    fn clear(&mut self) {
        self.buffer.clear();
        self.color_calls.clear();
    }

    fn contains(&self, content: &str) -> bool {
        self.get_output().contains(content)
    }

    fn contains_colored(&self, content: &str, color: Color) -> bool {
        self.color_calls
            .iter()
            .any(|(text, c)| text.contains(content) && *c == color)
    }

    fn has_color_output(&self) -> bool {
        !self.color_calls.is_empty()
    }
}

impl Output for MockOutput {
    fn write(&mut self, content: &str) -> io::Result<()> {
        if self.simulate_error {
            self.simulate_error = false;
            return Err(io::Error::other("Simulated error"));
        }
        self.buffer.push(content.to_string());
        Ok(())
    }

    fn flush(&mut self) -> io::Result<()> {
        if self.simulate_error {
            self.simulate_error = false;
            return Err(io::Error::other("Simulated flush error"));
        }
        Ok(())
    }
}

impl ColoredOutput for MockOutput {
    fn write_colored(&mut self, content: &str, color: Color) -> io::Result<()> {
        if self.simulate_error {
            self.simulate_error = false;
            return Err(io::Error::other("Simulated error"));
        }
        self.color_calls.push((content.to_string(), color));
        self.buffer.push(content.to_string());
        Ok(())
    }
}

/// The JSON value of the report that the reporter gives for the results.
fn json_value(reporter: &JsonReporter, results: &[CheckResult]) -> Value {
    let report = reporter.summarize(results);
    let mut files = Vec::new();
    for file in &report.issues {
        let mut issues = Vec::new();
        for issue in &file.issues {
            let mut record = serde_json::Map::new();
            record.insert("type".to_string(), Value::from(issue.issue_type.clone()));
            record.insert(
                "line".to_string(),
                match issue.line {
                    Some(line) => Value::from(line),
                    None => Value::Null,
                },
            );
            record.insert("message".to_string(), Value::from(issue.message.clone()));
            issues.push(Value::Object(record));
        }
        let mut record = serde_json::Map::new();
        record.insert("file".to_string(), Value::from(file.file.clone()));
        record.insert("issues".to_string(), Value::Array(issues));
        files.push(Value::Object(record));
    }
    let mut root = serde_json::Map::new();
    root.insert(
        "files_checked".to_string(),
        Value::from(report.files_checked),
    );
    root.insert(
        "files_with_issues".to_string(),
        Value::from(report.files_with_issues),
    );
    root.insert(
        "total_issues".to_string(),
        Value::from(report.total_issues as u64),
    );
    root.insert("issues".to_string(), Value::Array(files));
    if let Some(errors) = &report.errors {
        let mut list = Vec::new();
        for error in errors {
            let mut record = serde_json::Map::new();
            record.insert("file".to_string(), Value::from(error.file.clone()));
            record.insert("error".to_string(), Value::from(error.error.clone()));
            list.push(Value::Object(record));
        }
        root.insert("errors".to_string(), Value::Array(list));
    }
    Value::Object(root)
}

/// The JSON text of the report, indented or on one line as the reporter says.
fn json_text(reporter: &JsonReporter, results: &[CheckResult]) -> String {
    let value = json_value(reporter, results);
    if reporter.pretty {
        serde_json::to_string_pretty(&value).unwrap()
    } else {
        serde_json::to_string(&value).unwrap()
    }
}

/// A reporter whose report is had as a string.
trait TestableReporter {
    fn report_to_string(&self, results: &[CheckResult]) -> String;
}

struct TestableJsonReporter;

impl TestableReporter for TestableJsonReporter {
    fn report_to_string(&self, results: &[CheckResult]) -> String {
        json_text(&JsonReporter::new(), results)
    }
}

struct TestableGitHubReporter;

impl TestableReporter for TestableGitHubReporter {
    fn report_to_string(&self, results: &[CheckResult]) -> String {
        let mut output = MockOutput::new();
        GitHubReporter::new()
            .report_to(results, &mut output)
            .unwrap();
        output.get_output()
    }
}

struct TestableHumanReporter {
    use_color: bool,
}

impl TestableReporter for TestableHumanReporter {
    fn report_to_string(&self, results: &[CheckResult]) -> String {
        let reporter = HumanReporter {
            use_color: self.use_color,
        };
        let mut output = MockOutput::new();
        reporter.report_to(results, &mut output).unwrap();
        output.get_output()
    }
}

struct TestFile {
    name: String,
    content: String,
    should_have_issues: bool,
}

impl TestFile {
    fn new(name: &str, content: &str, should_have_issues: bool) -> Self {
        Self {
            name: name.to_string(),
            content: content.to_string(),
            should_have_issues,
        }
    }

    fn with_issues(name: &str, content: &str) -> Self {
        Self::new(name, content, true)
    }

    fn clean(name: &str, content: &str) -> Self {
        Self::new(name, &format!("{content}\n"), false)
    }
}

fn create_sample_check_result(file_path: &str, issues: Vec<Issue>) -> CheckResult {
    CheckResult {
        file_path: file_path.to_string(),
        issues,
        error: None,
    }
}

fn create_check_result_with_error(file_path: &str, error: &str) -> CheckResult {
    CheckResult {
        file_path: file_path.to_string(),
        issues: vec![],
        error: Some(error.to_string()),
    }
}

fn create_sample_issue(issue_type: IssueType, line: Option<usize>, message: &str) -> Issue {
    Issue {
        issue_type,
        line,
        message: message.to_string(),
    }
}

fn verify_json_output(output: &str, expected_files: usize, expected_issues: usize) -> bool {
    if let Ok(json) = serde_json::from_str::<Value>(output) {
        let files_checked = json
            .get("files_checked")
            .and_then(|v| v.as_u64())
            .unwrap_or(0) as usize;
        let total_issues = json
            .get("total_issues")
            .and_then(|v| v.as_u64())
            .unwrap_or(0) as usize;

        files_checked == expected_files && total_issues == expected_issues
    } else {
        false
    }
}

fn verify_github_output(output: &str, expected_annotations: &[&str]) -> bool {
    for expected in expected_annotations {
        if !output.contains(expected) {
            return false;
        }
    }
    true
}

fn verify_human_output(output: &str, expected_patterns: &[&str]) -> bool {
    for pattern in expected_patterns {
        if !output.contains(pattern) {
            return false;
        }
    }
    true
}

fn is_valid_json(output: &str) -> bool {
    serde_json::from_str::<Value>(output).is_ok()
}

fn count_issues_in_json(output: &str) -> Option<usize> {
    serde_json::from_str::<Value>(output)
        .ok()?
        .get("total_issues")?
        .as_u64()
        .map(|n| n as usize)
}

fn count_files_in_json(output: &str) -> Option<usize> {
    serde_json::from_str::<Value>(output)
        .ok()?
        .get("files_checked")?
        .as_u64()
        .map(|n| n as usize)
}

#[test]
fn test_github_reporter_with_issues() {
    let reporter = TestableGitHubReporter;

    let results = vec![
        CheckResult {
            file_path: "src/main.rs".to_string(),
            issues: vec![
                Issue {
                    issue_type: IssueType::MissingNewline,
                    line: None,
                    message: "Missing newline at end of file".to_string(),
                },
                Issue {
                    issue_type: IssueType::TrailingSpace,
                    line: Some(45),
                    message: "Trailing spaces found".to_string(),
                },
            ],
            error: None,
        },
        CheckResult {
            file_path: "tests/test_utils.rs".to_string(),
            issues: vec![Issue {
                issue_type: IssueType::TrailingSpace,
                line: Some(23),
                message: "Trailing spaces found".to_string(),
            }],
            error: None,
        },
    ];

    // Capture and verify GitHub Actions annotation output
    let output = reporter.report_to_string(&results);

    // Verify GitHub Actions annotation format
    assert!(
        output.contains("::error"),
        "Should contain GitHub Actions error annotations"
    );

    // Verify specific file paths and line numbers in annotations
    assert!(
        output.contains("::error file=src/main.rs::Missing newline at end of file"),
        "Should contain annotation for missing newline without line number"
    );
    assert!(
        output.contains("::error file=src/main.rs,line=45::Trailing spaces found"),
        "Should contain annotation for trailing space with line number 45"
    );
    assert!(
        output.contains("::error file=tests/test_utils.rs,line=23::Trailing spaces found"),
        "Should contain annotation for trailing space with line number 23"
    );

    // Verify annotation format using verification utility
    let expected_annotations = &[
        "::error file=src/main.rs::Missing newline at end of file",
        "::error file=src/main.rs,line=45::Trailing spaces found",
        "::error file=tests/test_utils.rs,line=23::Trailing spaces found",
    ];
    assert!(
        verify_github_output(&output, expected_annotations),
        "Should contain all expected GitHub Actions annotations"
    );
}

#[test]
fn reporter_tests_test_github_reporter_empty_results() {
    let reporter = TestableGitHubReporter;
    let results = vec![];

    // Capture and verify GitHub Actions output with empty results
    let output = reporter.report_to_string(&results);

    // Should produce no output for empty results
    assert!(
        output.is_empty(),
        "Should produce no output for empty results"
    );

    // Verify no annotations are present
    assert!(
        !output.contains("::error"),
        "Should not contain any error annotations"
    );
}

#[test]
fn reporter_tests_test_github_reporter_no_issues() {
    let reporter = TestableGitHubReporter;

    let results = vec![CheckResult {
        file_path: "src/clean.rs".to_string(),
        issues: vec![],
        error: None,
    }];

    // Capture and verify GitHub Actions output with no issues
    let output = reporter.report_to_string(&results);

    // Should produce no output for files without issues
    assert!(
        output.is_empty(),
        "Should produce no output for files without issues"
    );

    // Verify no annotations are present
    assert!(
        !output.contains("::error"),
        "Should not contain any error annotations"
    );
    assert!(
        !output.contains("src/clean.rs"),
        "Should not mention files without issues"
    );
}

#[test]
fn test_json_reporter_with_issues() {
    let reporter = TestableJsonReporter;

    let results = vec![
        CheckResult {
            file_path: "src/main.rs".to_string(),
            issues: vec![
                Issue {
                    issue_type: IssueType::MissingNewline,
                    line: None,
                    message: "Missing newline at end of file".to_string(),
                },
                Issue {
                    issue_type: IssueType::TrailingSpace,
                    line: Some(45),
                    message: "Trailing spaces found".to_string(),
                },
            ],
            error: None,
        },
        CheckResult {
            file_path: "tests/test_utils.rs".to_string(),
            issues: vec![Issue {
                issue_type: IssueType::MultipleNewlines,
                line: Some(100),
                message: "Multiple trailing newlines".to_string(),
            }],
            error: None,
        },
    ];

    // Capture and verify JSON output
    let output = reporter.report_to_string(&results);

    // Verify it's valid JSON
    assert!(
        is_valid_json(&output),
        "Output should be valid JSON"
    );

    // Verify structure and counts
    assert!(
        verify_json_output(&output, 2, 3),
        "Should have 2 files and 3 total issues"
    );
    assert_eq!(count_files_in_json(&output), Some(2));
    assert_eq!(count_issues_in_json(&output), Some(3));

    // Verify specific content
    assert!(
        output.contains("src/main.rs"),
        "Should contain first file path"
    );
    assert!(
        output.contains("tests/test_utils.rs"),
        "Should contain second file path"
    );
    assert!(
        output.contains("missing_newline"),
        "Should contain missing_newline issue type"
    );
    assert!(
        output.contains("trailing_space"),
        "Should contain trailing_space issue type"
    );
    assert!(
        output.contains("multiple_newlines"),
        "Should contain multiple_newlines issue type"
    );
    assert!(
        output.contains("\"line\": 45"),
        "Should contain line number 45"
    );
    assert!(
        output.contains("\"line\": 100"),
        "Should contain line number 100"
    );
}

#[test]
fn reporter_tests_test_json_reporter_no_issues() {
    let reporter = TestableJsonReporter;

    let results = vec![
        CheckResult {
            file_path: "src/clean.rs".to_string(),
            issues: vec![],
            error: None,
        },
        CheckResult {
            file_path: "src/perfect.rs".to_string(),
            issues: vec![],
            error: None,
        },
    ];

    // Capture and verify JSON output
    let output = reporter.report_to_string(&results);

    // Should still produce valid JSON output
    assert!(
        is_valid_json(&output),
        "Output should be valid JSON"
    );

    // Verify structure and counts - no issues but files were checked
    assert!(
        verify_json_output(&output, 2, 0),
        "Should have 2 files and 0 issues"
    );
    assert_eq!(count_files_in_json(&output), Some(2));
    assert_eq!(count_issues_in_json(&output), Some(0));

    // Verify specific content
    assert!(
        output.contains("\"files_checked\": 2"),
        "Should show 2 files checked"
    );
    assert!(
        output.contains("\"files_with_issues\": 0"),
        "Should show 0 files with issues"
    );
    assert!(
        output.contains("\"total_issues\": 0"),
        "Should show 0 total issues"
    );
}

#[test]
fn test_json_reporter_with_errors() {
    let reporter = TestableJsonReporter;

    let results = vec![
        CheckResult {
            file_path: "src/readable.rs".to_string(),
            issues: vec![Issue {
                issue_type: IssueType::MissingNewline,
                line: None,
                message: "Missing newline at end of file".to_string(),
            }],
            error: None,
        },
        CheckResult {
            file_path: "src/unreadable.rs".to_string(),
            issues: vec![],
            error: Some("Permission denied".to_string()),
        },
    ];

    // Capture and verify JSON output with errors
    let output = reporter.report_to_string(&results);

    // Should include errors in output
    assert!(
        is_valid_json(&output),
        "Output should be valid JSON"
    );

    // Verify structure and counts - 2 files, 1 issue
    assert!(
        verify_json_output(&output, 2, 1),
        "Should have 2 files and 1 issue"
    );
    assert_eq!(count_files_in_json(&output), Some(2));
    assert_eq!(count_issues_in_json(&output), Some(1));

    // Verify specific content
    assert!(
        output.contains("src/readable.rs"),
        "Should contain readable file path"
    );
    assert!(
        output.contains("src/unreadable.rs"),
        "Should contain unreadable file path"
    );
    assert!(
        output.contains("missing_newline"),
        "Should contain issue type"
    );
    assert!(
        output.contains("\"errors\""),
        "Should contain errors section"
    );
    assert!(
        output.contains("Permission denied"),
        "Should contain error message"
    );
}

#[test]
fn reporter_tests_test_json_reporter_empty_results() {
    let reporter = TestableJsonReporter;
    let results = vec![];

    // Capture and verify JSON output with empty results
    let output = reporter.report_to_string(&results);

    // Should produce valid JSON even with empty results
    assert!(
        is_valid_json(&output),
        "Output should be valid JSON"
    );

    // Verify structure and counts - no files, no issues
    assert!(
        verify_json_output(&output, 0, 0),
        "Should have 0 files and 0 issues"
    );
    assert_eq!(count_files_in_json(&output), Some(0));
    assert_eq!(count_issues_in_json(&output), Some(0));

    // Verify specific content
    assert!(
        output.contains("\"files_checked\": 0"),
        "Should show 0 files checked"
    );
    assert!(
        output.contains("\"files_with_issues\": 0"),
        "Should show 0 files with issues"
    );
    assert!(
        output.contains("\"total_issues\": 0"),
        "Should show 0 total issues"
    );
    assert!(
        output.contains("\"issues\": []"),
        "Should have empty issues array"
    );
}

#[test]
fn test_human_reporter_with_color_disabled() {
    let reporter = TestableHumanReporter { use_color: false };

    let results = vec![CheckResult {
        file_path: "src/main.rs".to_string(),
        issues: vec![Issue {
            issue_type: IssueType::MissingNewline,
            line: None,
            message: "Missing newline at end of file".to_string(),
        }],
        error: None,
    }];

    // Capture and verify human-readable output without color
    let output = reporter.report_to_string(&results);

    // Should work without color and contain expected text patterns
    assert!(
        !output.is_empty(),
        "Should produce output for files with issues"
    );

    // Verify expected text patterns and formatting
    assert!(
        output.contains("✗ src/main.rs"),
        "Should contain file path with error indicator"
    );
    assert!(
        output.contains("Missing newline at end of file"),
        "Should contain issue message"
    );
    assert!(
        output.contains("Found 1 issues in 1 files"),
        "Should contain summary with issue count"
    );
    assert!(
        output.contains("Files checked: 1"),
        "Should contain files checked count"
    );

    // Verify human-readable output using verification utility
    let expected_patterns = &[
        "✗ src/main.rs",
        "Missing newline at end of file",
        "Found 1 issues in 1 files",
        "Files checked: 1",
    ];
    assert!(
        verify_human_output(&output, expected_patterns),
        "Should contain all expected human-readable patterns"
    );
}

#[test]
fn test_human_reporter_with_color_enabled() {
    let reporter = TestableHumanReporter { use_color: true };

    let results = vec![CheckResult {
        file_path: "docs/README.md".to_string(),
        issues: vec![
            Issue {
                issue_type: IssueType::TrailingSpace,
                line: Some(15),
                message: "Trailing spaces found".to_string(),
            },
            Issue {
                issue_type: IssueType::MultipleNewlines,
                line: Some(42),
                message: "Multiple trailing newlines".to_string(),
            },
        ],
        error: None,
    }];

    // Capture and verify human-readable output with color enabled
    let output = reporter.report_to_string(&results);

    // Should contain expected text patterns and formatting with color enabled
    assert!(
        !output.is_empty(),
        "Should produce output for files with issues"
    );

    // Verify expected text patterns and formatting
    assert!(
        output.contains("✗ docs/README.md"),
        "Should contain file path with error indicator"
    );
    assert!(
        output.contains("Line 15: Trailing spaces found"),
        "Should contain line number and message"
    );
    assert!(
        output.contains("Line 42: Multiple trailing newlines"),
        "Should contain line number and message"
    );
    assert!(
        output.contains("Found 2 issues in 1 files"),
        "Should contain summary with issue count"
    );
    assert!(
        output.contains("Files checked: 1"),
        "Should contain files checked count"
    );

    // Verify human-readable output using verification utility
    let expected_patterns = &[
        "✗ docs/README.md",
        "Line 15: Trailing spaces found",
        "Line 42: Multiple trailing newlines",
        "Found 2 issues in 1 files",
        "Files checked: 1",
    ];
    assert!(
        verify_human_output(&output, expected_patterns),
        "Should contain all expected human-readable patterns with color enabled"
    );
}

#[test]
fn reporter_tests_test_human_reporter_no_issues() {
    let reporter = TestableHumanReporter { use_color: false };

    let results = vec![
        CheckResult {
            file_path: "src/clean.rs".to_string(),
            issues: vec![],
            error: None,
        },
        CheckResult {
            file_path: "src/perfect.rs".to_string(),
            issues: vec![],
            error: None,
        },
    ];

    // Capture and verify human-readable output with no issues
    let output = reporter.report_to_string(&results);

    // Should show success message when no issues are found
    assert!(
        !output.is_empty(),
        "Should produce output even when no issues found"
    );

    // Verify expected success patterns
    assert!(
        output.contains("✓ All files passed lint checks!"),
        "Should contain success message"
    );
    assert!(
        output.contains("Files checked: 2"),
        "Should contain files checked count"
    );
    assert!(!output.contains("✗"), "Should not contain error indicators");
    assert!(
        !output.contains("Found"),
        "Should not contain issue count message"
    );

    // Verify human-readable output using verification utility
    let expected_patterns = &["✓ All files passed lint checks!", "Files checked: 2"];
    assert!(
        verify_human_output(&output, expected_patterns),
        "Should contain all expected success patterns"
    );
}

#[test]
fn reporter_tests_test_human_reporter_empty_results() {
    let reporter = TestableHumanReporter { use_color: true };
    let results = vec![];

    // Capture and verify human-readable output with empty results
    let output = reporter.report_to_string(&results);

    // Should show success message even with empty results
    assert!(
        !output.is_empty(),
        "Should produce output even with empty results"
    );

    // Verify expected success patterns
    assert!(
        output.contains("✓ All files passed lint checks!"),
        "Should contain success message"
    );
    assert!(
        output.contains("Files checked: 0"),
        "Should show 0 files checked"
    );
    assert!(!output.contains("✗"), "Should not contain error indicators");

    // Verify human-readable output using verification utility
    let expected_patterns = &["✓ All files passed lint checks!", "Files checked: 0"];
    assert!(
        verify_human_output(&output, expected_patterns),
        "Should contain all expected success patterns for empty results"
    );
}

#[test]
fn test_human_reporter_multiple_files_with_issues() {
    let reporter = TestableHumanReporter { use_color: false };

    let results = vec![
        CheckResult {
            file_path: "src/file1.rs".to_string(),
            issues: vec![Issue {
                issue_type: IssueType::MissingNewline,
                line: None,
                message: "Missing newline at end of file".to_string(),
            }],
            error: None,
        },
        CheckResult {
            file_path: "src/file2.rs".to_string(),
            issues: vec![
                Issue {
                    issue_type: IssueType::TrailingSpace,
                    line: Some(10),
                    message: "Trailing spaces found".to_string(),
                },
                Issue {
                    issue_type: IssueType::MultipleNewlines,
                    line: Some(25),
                    message: "Multiple trailing newlines".to_string(),
                },
            ],
            error: None,
        },
        CheckResult {
            file_path: "src/clean.rs".to_string(),
            issues: vec![],
            error: None,
        },
    ];

    // Capture and verify human-readable output with multiple files
    let output = reporter.report_to_string(&results);

    // Should contain information for all files with issues
    assert!(
        !output.is_empty(),
        "Should produce output for files with issues"
    );

    // Verify file paths and issues are present
    assert!(
        output.contains("✗ src/file1.rs"),
        "Should contain first file with issues"
    );
    assert!(
        output.contains("✗ src/file2.rs"),
        "Should contain second file with issues"
    );
    assert!(
        !output.contains("src/clean.rs"),
        "Should not mention clean file"
    );

    // Verify issue details
    assert!(
        output.contains("Missing newline at end of file"),
        "Should contain first file's issue"
    );
    assert!(
        output.contains("Line 10: Trailing spaces found"),
        "Should contain second file's first issue"
    );
    assert!(
        output.contains("Line 25: Multiple trailing newlines"),
        "Should contain second file's second issue"
    );

    // Verify summary
    assert!(
        output.contains("Found 3 issues in 2 files"),
        "Should show correct issue and file counts"
    );
    assert!(
        output.contains("Files checked: 3"),
        "Should show total files checked"
    );

    // Verify human-readable output using verification utility
    let expected_patterns = &[
        "✗ src/file1.rs",
        "✗ src/file2.rs",
        "Missing newline at end of file",
        "Line 10: Trailing spaces found",
        "Line 25: Multiple trailing newlines",
        "Found 3 issues in 2 files",
        "Files checked: 3",
    ];
    assert!(
        verify_human_output(&output, expected_patterns),
        "Should contain all expected patterns for multiple files with issues"
    );
}

#[test]
fn test_all_issue_types_in_json() {
    let reporter = TestableJsonReporter;

    let results = vec![CheckResult {
        file_path: "test.txt".to_string(),
        issues: vec![
            Issue {
                issue_type: IssueType::MissingNewline,
                line: None,
                message: "Missing newline".to_string(),
            },
            Issue {
                issue_type: IssueType::MultipleNewlines,
                line: Some(50),
                message: "Multiple newlines".to_string(),
            },
            Issue {
                issue_type: IssueType::TrailingSpace,
                line: Some(25),
                message: "Trailing space".to_string(),
            },
        ],
        error: None,
    }];

    // Capture and verify JSON output with all issue types
    let output = reporter.report_to_string(&results);

    // Should map all issue types correctly
    assert!(
        is_valid_json(&output),
        "Output should be valid JSON"
    );

    // Verify structure and counts - 1 file, 3 issues
    assert!(
        verify_json_output(&output, 1, 3),
        "Should have 1 file and 3 issues"
    );
    assert_eq!(count_files_in_json(&output), Some(1));
    assert_eq!(count_issues_in_json(&output), Some(3));

    // Verify all issue types are present
    assert!(output.contains("test.txt"), "Should contain file path");
    assert!(
        output.contains("missing_newline"),
        "Should contain missing_newline issue type"
    );
    assert!(
        output.contains("multiple_newlines"),
        "Should contain multiple_newlines issue type"
    );
    assert!(
        output.contains("trailing_space"),
        "Should contain trailing_space issue type"
    );

    // Verify line numbers are correctly mapped
    assert!(
        output.contains("\"line\": null"),
        "Should contain null line for missing_newline"
    );
    assert!(
        output.contains("\"line\": 50"),
        "Should contain line number 50"
    );
    assert!(
        output.contains("\"line\": 25"),
        "Should contain line number 25"
    );

    // Verify messages are included
    assert!(
        output.contains("Missing newline"),
        "Should contain missing newline message"
    );
    assert!(
        output.contains("Multiple newlines"),
        "Should contain multiple newlines message"
    );
    assert!(
        output.contains("Trailing space"),
        "Should contain trailing space message"
    );
}

#[test]
fn test_github_reporter_all_line_scenarios() {
    let reporter = TestableGitHubReporter;

    let results = vec![CheckResult {
        file_path: "test.rs".to_string(),
        issues: vec![
            Issue {
                issue_type: IssueType::MissingNewline,
                line: None,
                message: "No line number".to_string(),
            },
            Issue {
                issue_type: IssueType::TrailingSpace,
                line: Some(1),
                message: "Line 1".to_string(),
            },
            Issue {
                issue_type: IssueType::TrailingSpace,
                line: Some(999),
                message: "Line 999".to_string(),
            },
        ],
        error: None,
    }];

    // Capture and verify GitHub Actions output with all line number scenarios
    let output = reporter.report_to_string(&results);

    // Should handle all line number scenarios
    assert!(
        output.contains("::error"),
        "Should contain GitHub Actions error annotations"
    );

    // Verify specific line number handling
    assert!(
        output.contains("::error file=test.rs::No line number"),
        "Should contain annotation without line number"
    );
    assert!(
        output.contains("::error file=test.rs,line=1::Line 1"),
        "Should contain annotation with line number 1"
    );
    assert!(
        output.contains("::error file=test.rs,line=999::Line 999"),
        "Should contain annotation with line number 999"
    );

    // Verify annotation format using verification utility
    let expected_annotations = &[
        "::error file=test.rs::No line number",
        "::error file=test.rs,line=1::Line 1",
        "::error file=test.rs,line=999::Line 999",
    ];
    assert!(
        verify_github_output(&output, expected_annotations),
        "Should contain all expected GitHub Actions annotations with correct line number handling"
    );
}

#[test]
fn example_json_reporter_test() {
    let reporter = TestableJsonReporter;

    // Create test data using utilities
    let issue1 = create_sample_issue(
        IssueType::MissingNewline,
        None,
        "Missing newline at end of file",
    );
    let issue2 = create_sample_issue(IssueType::TrailingSpace, Some(15), "Trailing spaces found");

    let results = vec![
        create_sample_check_result("src/main.rs", vec![issue1]),
        create_sample_check_result("src/lib.rs", vec![issue2]),
    ];

    // Capture output using testable reporter
    let output = reporter.report_to_string(&results);

    // Verify output using verification utilities
    assert!(is_valid_json(&output));
    assert!(verify_json_output(&output, 2, 2)); // 2 files, 2 issues
    assert_eq!(count_files_in_json(&output), Some(2));
    assert_eq!(count_issues_in_json(&output), Some(2));

    // Verify specific content
    assert!(output.contains("src/main.rs"));
    assert!(output.contains("src/lib.rs"));
    assert!(output.contains("missing_newline"));
    assert!(output.contains("trailing_space"));
}

#[test]
fn example_github_reporter_test() {
    let reporter = TestableGitHubReporter;

    let issue = create_sample_issue(
        IssueType::MultipleNewlines,
        Some(100),
        "Multiple trailing newlines",
    );
    let results = vec![create_sample_check_result("docs/README.md", vec![issue])];

    let output = reporter.report_to_string(&results);

    // Verify GitHub Actions annotation format
    assert!(verify_github_output(
        &output,
        &[
            "::error file=docs/README.md,line=100",
            "Multiple trailing newlines"
        ]
    ));

    // Verify exact format
    assert_eq!(
        output.trim(),
        "::error file=docs/README.md,line=100::Multiple trailing newlines"
    );
}

#[test]
fn example_human_reporter_test() {
    let reporter = TestableHumanReporter { use_color: false };

    let issues = vec![
        create_sample_issue(IssueType::TrailingSpace, Some(5), "Trailing space"),
        create_sample_issue(IssueType::MissingNewline, None, "Missing newline"),
    ];
    let results = vec![create_sample_check_result("config.toml", issues)];

    let output = reporter.report_to_string(&results);

    // Verify human-readable patterns
    assert!(verify_human_output(
        &output,
        &[
            "✗ config.toml",
            "Line 5: Trailing space",
            "Missing newline",
            "Found 2 issues in 1 files"
        ]
    ));
}

#[test]
fn example_comprehensive_reporter_test() {
    let json_reporter = TestableJsonReporter;
    let github_reporter = TestableGitHubReporter;
    let human_reporter = TestableHumanReporter { use_color: true };

    // Create complex test scenario
    let results = vec![
        create_sample_check_result(
            "src/main.rs",
            vec![create_sample_issue(
                IssueType::MissingNewline,
                None,
                "Missing newline at EOF",
            )],
        ),
        create_sample_check_result(
            "src/lib.rs",
            vec![
                create_sample_issue(
                    IssueType::TrailingSpace,
                    Some(10),
                    "Trailing space on line 10",
                ),
                create_sample_issue(
                    IssueType::TrailingSpace,
                    Some(25),
                    "Trailing space on line 25",
                ),
            ],
        ),
        create_sample_check_result(
            "tests/mod.rs",
            vec![create_sample_issue(
                IssueType::MultipleNewlines,
                Some(50),
                "Multiple trailing newlines",
            )],
        ),
        create_sample_check_result("README.md", vec![]), // Clean file
    ];

    // Test all reporters
    let json_output = json_reporter.report_to_string(&results);
    let github_output = github_reporter.report_to_string(&results);
    let human_output = human_reporter.report_to_string(&results);

    // Comprehensive JSON verification
    assert!(is_valid_json(&json_output));
    assert!(verify_json_output(&json_output, 4, 4)); // 4 files, 4 issues total
    assert_eq!(count_files_in_json(&json_output), Some(4));
    assert_eq!(count_issues_in_json(&json_output), Some(4));

    // GitHub output should contain all error annotations
    let expected_github_patterns = &[
        "::error file=src/main.rs::Missing newline at EOF",
        "::error file=src/lib.rs,line=10::Trailing space on line 10",
        "::error file=src/lib.rs,line=25::Trailing space on line 25",
        "::error file=tests/mod.rs,line=50::Multiple trailing newlines",
    ];
    assert!(verify_github_output(
        &github_output,
        expected_github_patterns
    ));

    // Human output should show summary and details
    let expected_human_patterns = &[
        "Found 4 issues in 3 files",
        "Files checked: 4",
        "src/main.rs",
        "src/lib.rs",
        "tests/mod.rs",
    ];
    assert!(verify_human_output(
        &human_output,
        expected_human_patterns
    ));

    // Clean file should not appear in human output (only files with issues are shown)
    assert!(!human_output.contains("README.md"));
}

#[test]
fn test_test_file_creation() {
    let file = TestFile::with_issues("test.txt", "content without newline");
    assert_eq!(file.name, "test.txt");
    assert_eq!(file.content, "content without newline");
    assert!(file.should_have_issues);

    let clean_file = TestFile::clean("clean.txt", "content");
    assert_eq!(clean_file.content, "content\n");
    assert!(!clean_file.should_have_issues);
}

#[test]
fn test_sample_check_result_creation() {
    let issue = create_sample_issue(IssueType::MissingNewline, None, "Missing newline");
    let result = create_sample_check_result("test.txt", vec![issue]);

    assert_eq!(result.file_path, "test.txt".to_string());
    assert_eq!(result.issues.len(), 1);
    assert!(result.error.is_none());
}

#[test]
fn test_json_verification() {
    let json_output =
        r#"{"files_checked": 2, "total_issues": 3, "files_with_issues": 1, "issues": []}"#;
    assert!(verify_json_output(json_output, 2, 3));
    assert!(!verify_json_output(json_output, 1, 3));
    assert!(is_valid_json(json_output));
    assert_eq!(count_issues_in_json(json_output), Some(3));
    assert_eq!(count_files_in_json(json_output), Some(2));
}

#[test]
fn test_testable_json_reporter() {
    let reporter = TestableJsonReporter;
    let issue = create_sample_issue(IssueType::MissingNewline, None, "Missing newline");
    let results = vec![create_sample_check_result("test.txt", vec![issue])];

    let output = reporter.report_to_string(&results);

    assert!(!output.is_empty());
    assert!(output.contains("\"files_checked\""));
    assert!(output.contains("\"total_issues\""));
    assert!(output.contains("test.txt"));
    assert!(is_valid_json(&output));
    assert!(verify_json_output(&output, 1, 1));
}

#[test]
fn test_testable_github_reporter() {
    let reporter = TestableGitHubReporter;
    let issue = create_sample_issue(IssueType::TrailingSpace, Some(42), "Trailing space found");
    let results = vec![create_sample_check_result("src/main.rs", vec![issue])];

    let output = reporter.report_to_string(&results);

    assert!(!output.is_empty());
    assert!(output.contains("::error"));
    assert!(output.contains("src/main.rs"));
    assert!(output.contains("line=42"));
    assert!(output.contains("Trailing space found"));
    assert!(verify_github_output(
        &output,
        &["::error file=src/main.rs,line=42"]
    ));
}

#[test]
fn test_testable_human_reporter() {
    let reporter = TestableHumanReporter { use_color: false };
    let issue = create_sample_issue(IssueType::MultipleNewlines, Some(10), "Multiple newlines");
    let results = vec![create_sample_check_result("docs/README.md", vec![issue])];

    let output = reporter.report_to_string(&results);

    assert!(!output.is_empty());
    assert!(output.contains("docs/README.md"));
    assert!(output.contains("Line 10"));
    assert!(output.contains("Multiple newlines"));
    assert!(output.contains("Found 1 issues in 1 files"));
    assert!(verify_human_output(
        &output,
        &["✗ docs/README.md", "Line 10: Multiple newlines"]
    ));
}

#[test]
fn test_testable_reporters_with_empty_results() {
    let json_reporter = TestableJsonReporter;
    let github_reporter = TestableGitHubReporter;
    let human_reporter = TestableHumanReporter { use_color: false };
    let results = vec![];

    let json_output = json_reporter.report_to_string(&results);
    let github_output = github_reporter.report_to_string(&results);
    let human_output = human_reporter.report_to_string(&results);

    // JSON reporter should produce valid JSON even with empty results
    assert!(is_valid_json(&json_output));
    assert!(verify_json_output(&json_output, 0, 0));

    // GitHub reporter produces no output for empty results
    assert!(github_output.is_empty());

    // Human reporter should show success message
    assert!(human_output.contains("All files passed lint checks"));
    assert!(human_output.contains("Files checked: 0"));
}

#[test]
fn test_testable_reporters_with_multiple_files() {
    let json_reporter = TestableJsonReporter;
    let github_reporter = TestableGitHubReporter;
    let human_reporter = TestableHumanReporter { use_color: false };

    let results = vec![
        create_sample_check_result(
            "file1.txt",
            vec![create_sample_issue(
                IssueType::MissingNewline,
                None,
                "Missing newline",
            )],
        ),
        create_sample_check_result(
            "file2.txt",
            vec![
                create_sample_issue(IssueType::TrailingSpace, Some(5), "Trailing space"),
                create_sample_issue(IssueType::MultipleNewlines, Some(10), "Multiple newlines"),
            ],
        ),
        create_sample_check_result("file3.txt", vec![]), // No issues
    ];

    let json_output = json_reporter.report_to_string(&results);
    let github_output = github_reporter.report_to_string(&results);
    let human_output = human_reporter.report_to_string(&results);

    // JSON output verification
    assert!(is_valid_json(&json_output));
    assert!(verify_json_output(&json_output, 3, 3)); // 3 files, 3 total issues
    assert_eq!(count_files_in_json(&json_output), Some(3));
    assert_eq!(count_issues_in_json(&json_output), Some(3));

    // GitHub output verification
    assert!(github_output.contains("::error file=file1.txt::Missing newline"));
    assert!(github_output.contains("::error file=file2.txt,line=5::Trailing space"));
    assert!(github_output.contains("::error file=file2.txt,line=10::Multiple newlines"));

    // Human output verification
    assert!(human_output.contains("Found 3 issues in 2 files"));
    assert!(human_output.contains("Files checked: 3"));
    assert!(human_output.contains("file1.txt"));
    assert!(human_output.contains("file2.txt"));
    assert!(!human_output.contains("file3.txt")); // Clean file shouldn't appear in output
}
