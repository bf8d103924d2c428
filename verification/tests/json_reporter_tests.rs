#![allow(dead_code)]

use lineguard::checker::{CheckResult, Issue, IssueType};
use lineguard::reporter::{Color, ColoredOutput, JsonReporter, Output};
use serde_json::Value;
use std::io;

/// An output that keeps what is written to it.
#[derive(Default)]
struct MockOutput {
    buffer: Vec<String>,
    color_calls: Vec<(String, Color)>,
    simulate_error: bool,
}

impl MockOutput {
    fn new() -> Self {
        Self::default()
    }

    fn simulate_error(&mut self) {
        self.simulate_error = true;
    }

    fn get_output(&self) -> String {
        self.buffer.join("")
    }

    fn get_lines(&self) -> Vec<&str> {
        self.buffer.iter().map(|s| s.as_str()).collect()
    }

    fn clear(&mut self) {
        self.buffer.clear();
        self.color_calls.clear();
    }

    fn contains(&self, content: &str) -> bool {
        self.get_output().contains(content)
    }

    fn contains_colored(&self, content: &str, color: Color) -> bool {
        self.color_calls
            .iter()
            .any(|(text, c)| text.contains(content) && *c == color)
    }

    fn has_color_output(&self) -> bool {
        !self.color_calls.is_empty()
    }
}

impl Output for MockOutput {
    fn write(&mut self, content: &str) -> io::Result<()> {
        if self.simulate_error {
            self.simulate_error = false;
            return Err(io::Error::other("Simulated error"));
        }
        self.buffer.push(content.to_string());
        Ok(())
    }

    fn flush(&mut self) -> io::Result<()> {
        if self.simulate_error {
            self.simulate_error = false;
            return Err(io::Error::other("Simulated flush error"));
        }
        Ok(())
    }
}

impl ColoredOutput for MockOutput {
    fn write_colored(&mut self, content: &str, color: Color) -> io::Result<()> {
        if self.simulate_error {
            self.simulate_error = false;
            return Err(io::Error::other("Simulated error"));
        }
        self.color_calls.push((content.to_string(), color));
        self.buffer.push(content.to_string());
        Ok(())
    }
}

/// The JSON value of the report that the reporter gives for the results.
fn json_value(reporter: &JsonReporter, results: &[CheckResult]) -> Value {
    let report = reporter.summarize(results);
    let mut files = Vec::new();
    for file in &report.issues {
        let mut issues = Vec::new();
        for issue in &file.issues {
            let mut record = serde_json::Map::new();
            record.insert("type".to_string(), Value::from(issue.issue_type.clone()));
            record.insert(
                "line".to_string(),
                match issue.line {
                    Some(line) => Value::from(line),
                    None => Value::Null,
                },
            );
            record.insert("message".to_string(), Value::from(issue.message.clone()));
            issues.push(Value::Object(record));
        }
        let mut record = serde_json::Map::new();
        record.insert("file".to_string(), Value::from(file.file.clone()));
        record.insert("issues".to_string(), Value::Array(issues));
        files.push(Value::Object(record));
    }
    let mut root = serde_json::Map::new();
    root.insert(
        "files_checked".to_string(),
        Value::from(report.files_checked),
    );
    root.insert(
        "files_with_issues".to_string(),
        Value::from(report.files_with_issues),
    );
    root.insert(
        "total_issues".to_string(),
        Value::from(report.total_issues as u64),
    );
    root.insert("issues".to_string(), Value::Array(files));
    if let Some(errors) = &report.errors {
        let mut list = Vec::new();
        for error in errors {
            let mut record = serde_json::Map::new();
            record.insert("file".to_string(), Value::from(error.file.clone()));
            record.insert("error".to_string(), Value::from(error.error.clone()));
            list.push(Value::Object(record));
        }
        root.insert("errors".to_string(), Value::Array(list));
    }
    Value::Object(root)
}

/// The JSON text of the report, indented or on one line as the reporter says.
fn json_text(reporter: &JsonReporter, results: &[CheckResult]) -> String {
    let value = json_value(reporter, results);
    if reporter.pretty {
        serde_json::to_string_pretty(&value).unwrap()
    } else {
        serde_json::to_string(&value).unwrap()
    }
}

/// Writing the JSON report to an output.
trait JsonWrite {
    fn report_to(&self, results: &[CheckResult], output: &mut dyn Output) -> io::Result<()>;
    fn report(&self, results: &[CheckResult]);
}

impl JsonWrite for JsonReporter {
    fn report_to(&self, results: &[CheckResult], output: &mut dyn Output) -> io::Result<()> {
        output.write_line(&json_text(self, results))?;
        output.flush()
    }

    fn report(&self, results: &[CheckResult]) {
        println!("{}", json_text(self, results));
    }
}


fn create_test_results() -> Vec<CheckResult> {
    vec![
        CheckResult {
            file_path: "test1.txt".to_string(),
            issues: vec![
                Issue {
                    issue_type: IssueType::TrailingSpace,
                    line: Some(5),
                    message: "Trailing spaces found".to_string(),
                },
                Issue {
                    issue_type: IssueType::MissingNewline,
                    line: None,
                    message: "Missing newline at end of file".to_string(),
                },
            ],
            error: None,
        },
        CheckResult {
            file_path: "test2.txt".to_string(),
            issues: vec![],
            error: None,
        },
        CheckResult {
            file_path: "test3.txt".to_string(),
            issues: vec![],
            error: Some("Permission denied".to_string()),
        },
    ]
}

#[test]
fn test_json_reporter_basic() {
    let reporter = JsonReporter::new();
    let mut output = MockOutput::new();
    let results = create_test_results();

    reporter.report_to(&results, &mut output).unwrap();

    let json_str = output.get_output();
    let json: serde_json::Value = serde_json::from_str(&json_str).unwrap();

    assert_eq!(json["files_checked"], 3);
    assert_eq!(json["files_with_issues"], 1);
    assert_eq!(json["total_issues"], 2);
    assert_eq!(json["issues"].as_array().unwrap().len(), 1);
    assert_eq!(json["errors"].as_array().unwrap().len(), 1);
}

#[test]
fn json_test_json_reporter_no_issues() {
    let reporter = JsonReporter::new();
    let mut output = MockOutput::new();
    let results = vec![
        CheckResult {
            file_path: "clean1.txt".to_string(),
            issues: vec![],
            error: None,
        },
        CheckResult {
            file_path: "clean2.txt".to_string(),
            issues: vec![],
            error: None,
        },
    ];

    reporter.report_to(&results, &mut output).unwrap();

    let json_str = output.get_output();
    let json: serde_json::Value = serde_json::from_str(&json_str).unwrap();

    assert_eq!(json["files_checked"], 2);
    assert_eq!(json["files_with_issues"], 0);
    assert_eq!(json["total_issues"], 0);
    assert_eq!(json["issues"].as_array().unwrap().len(), 0);
    assert!(json.get("errors").is_none());
}

#[test]
fn test_json_reporter_compact() {
    let reporter = JsonReporter::compact();
    let mut output = MockOutput::new();
    let results = vec![CheckResult {
        file_path: "test.txt".to_string(),
        issues: vec![Issue {
            issue_type: IssueType::TrailingSpace,
            line: Some(1),
            message: "Trailing spaces".to_string(),
        }],
        error: None,
    }];

    reporter.report_to(&results, &mut output).unwrap();

    let json_str = output.get_output();
    // Compact JSON should not contain newlines within the JSON structure
    assert_eq!(json_str.matches('\n').count(), 1); // Only the final newline
}

#[test]
fn test_json_reporter_issue_types() {
    let reporter = JsonReporter::new();
    let mut output = MockOutput::new();
    let results = vec![CheckResult {
        file_path: "test.txt".to_string(),
        issues: vec![
            Issue {
                issue_type: IssueType::MissingNewline,
                line: None,
                message: "Missing newline".to_string(),
            },
            Issue {
                issue_type: IssueType::MultipleNewlines,
                line: None,
                message: "Multiple newlines".to_string(),
            },
            Issue {
                issue_type: IssueType::TrailingSpace,
                line: Some(10),
                message: "Trailing space".to_string(),
            },
        ],
        error: None,
    }];

    reporter.report_to(&results, &mut output).unwrap();

    let json_str = output.get_output();
    let json: serde_json::Value = serde_json::from_str(&json_str).unwrap();

    let file_issues = &json["issues"][0]["issues"];
    assert_eq!(file_issues[0]["type"], "missing_newline");
    assert_eq!(file_issues[1]["type"], "multiple_newlines");
    assert_eq!(file_issues[2]["type"], "trailing_space");
    assert_eq!(file_issues[2]["line"], 10);
}

#[test]
fn test_json_reporter_legacy_interface() {
    let reporter = JsonReporter::new();
    let results = create_test_results();

    // This should not panic
    reporter.report(&results);
}

#[test]
fn json_test_json_reporter_empty_results() {
    let reporter = JsonReporter::new();
    let mut output = MockOutput::new();
    let results = vec![];

    reporter.report_to(&results, &mut output).unwrap();

    let json_str = output.get_output();
    let json: serde_json::Value = serde_json::from_str(&json_str).unwrap();

    assert_eq!(json["files_checked"], 0);
    assert_eq!(json["files_with_issues"], 0);
    assert_eq!(json["total_issues"], 0);
    assert_eq!(json["issues"].as_array().unwrap().len(), 0);
}

#[test]
fn test_json_reporter_with_errors_only() {
    let reporter = JsonReporter::new();
    let mut output = MockOutput::new();
    let results = vec![
        CheckResult {
            file_path: "error1.txt".to_string(),
            issues: vec![],
            error: Some("File not found".to_string()),
        },
        CheckResult {
            file_path: "error2.txt".to_string(),
            issues: vec![],
            error: Some("Permission denied".to_string()),
        },
    ];

    reporter.report_to(&results, &mut output).unwrap();

    let json_str = output.get_output();
    let json: serde_json::Value = serde_json::from_str(&json_str).unwrap();

    assert_eq!(json["files_checked"], 2);
    assert_eq!(json["files_with_issues"], 0);
    assert_eq!(json["total_issues"], 0);
    assert_eq!(json["errors"].as_array().unwrap().len(), 2);
    assert_eq!(json["errors"][0]["file"], "error1.txt");
    assert_eq!(json["errors"][0]["error"], "File not found");
}
