#![allow(dead_code)]

use lineguard::checker::{FileChecker, FileMetadata, FileReader, LineEvent, LineSource};
use lineguard::config::Config;
use std::collections::HashMap;

/// Metadata of a regular file of the given length.
fn file_metadata(len: u64) -> FileMetadata {
    FileMetadata {
        len,
        is_file: true,
        is_dir: false,
    }
}

/// Metadata of a directory.
fn dir_metadata() -> FileMetadata {
    FileMetadata {
        len: 0,
        is_file: false,
        is_dir: true,
    }
}

/// The lines of a file held in memory, handed out one by one.
struct MemoryLines {
    events: Vec<LineEvent>,
    next: usize,
}

impl LineSource for MemoryLines {
    fn next_line(&mut self) -> LineEvent {
        if self.next < self.events.len() {
            let event = self.events[self.next].clone();
            self.next += 1;
            event
        } else {
            LineEvent::End
        }
    }
}

/// A file system held in memory.
#[derive(Clone, Default)]
struct MockFileSystem {
    files: HashMap<String, String>,
    metadata: HashMap<String, FileMetadata>,
    errors: HashMap<String, String>,
    broken_after: HashMap<String, usize>,
}

impl MockFileSystem {
    fn new() -> Self {
        Self::default()
    }

    fn add_file(&mut self, path: &str, content: impl Into<String>) {
        let content = content.into();
        let len = content.len() as u64;
        self.files.insert(path.to_string(), content);
        self.metadata.insert(path.to_string(), file_metadata(len));
    }

    fn add_dir(&mut self, path: &str) {
        self.metadata.insert(path.to_string(), dir_metadata());
    }

    fn add_error(&mut self, path: &str, error: &str) {
        self.errors.insert(path.to_string(), error.to_string());
    }

    fn set_metadata(&mut self, path: &str, metadata: FileMetadata) {
        self.metadata.insert(path.to_string(), metadata);
    }

    /// Makes reading the file line by line fail after `lines` lines.
    fn break_after(&mut self, path: &str, lines: usize) {
        self.broken_after.insert(path.to_string(), lines);
    }

    fn lookup(&self, path: &str) -> Result<&String, String> {
        if let Some(error) = self.errors.get(path) {
            return Err(error.clone());
        }
        self.files
            .get(path)
            .ok_or_else(|| format!("File not found: {path:?}"))
    }
}

impl FileReader for MockFileSystem {
    type Lines = MemoryLines;

    fn read_to_string(&self, path: &str) -> Result<String, String> {
        self.lookup(path).cloned()
    }

    fn open(&self, path: &str) -> Result<MemoryLines, String> {
        let content = self.lookup(path)?;
        let mut events: Vec<LineEvent> = content
            .lines()
            .map(|line| LineEvent::Line(line.to_string()))
            .collect();
        if let Some(limit) = self.broken_after.get(path) {
            events.truncate(*limit);
            events.push(LineEvent::Failed);
        }
        Ok(MemoryLines { events, next: 0 })
    }

    fn metadata(&self, path: &str) -> Result<FileMetadata, String> {
        if let Some(error) = self.errors.get(path) {
            return Err(error.clone());
        }
        self.metadata
            .get(path)
            .cloned()
            .ok_or_else(|| format!("File not found: {path:?}"))
    }

    fn read_tail(&self, path: &str, count: usize) -> Result<Vec<u8>, String> {
        let content = self.lookup(path)?;
        let bytes = content.as_bytes();
        let from = bytes.len().saturating_sub(count);
        Ok(bytes[from..].to_vec())
    }
}

/// Line ending style.
#[derive(Debug, Clone, Copy, PartialEq, Eq)]
enum LineEnding {
    Lf,
    Crlf,
}

impl Default for LineEnding {
    fn default() -> Self {
        LineEnding::Lf
    }
}

/// Builds the content of a file line by line.
#[derive(Default)]
struct TestFileBuilder {
    path: String,
    lines: Vec<String>,
    add_final_newline: bool,
    line_ending: LineEnding,
}

impl TestFileBuilder {
    fn new(path: &str) -> Self {
        Self {
            path: path.to_string(),
            lines: Vec::new(),
            add_final_newline: true,
            line_ending: LineEnding::default(),
        }
    }

    fn with_line(mut self, line: &str) -> Self {
        self.lines.push(line.to_string());
        self
    }

    fn with_lines(mut self, lines: &[&str]) -> Self {
        for line in lines {
            self.lines.push(line.to_string());
        }
        self
    }

    fn with_trailing_spaces(mut self) -> Self {
        self.lines.push("line with trailing spaces   ".to_string());
        self
    }

    fn with_trailing_tabs(mut self) -> Self {
        self.lines.push("line with trailing tabs\t\t".to_string());
        self
    }

    fn with_empty_line(mut self) -> Self {
        self.lines.push(String::new());
        self
    }

    fn without_final_newline(mut self) -> Self {
        self.add_final_newline = false;
        self
    }

    fn with_crlf_endings(mut self) -> Self {
        self.line_ending = LineEnding::Crlf;
        self
    }

    fn with_lf_endings(mut self) -> Self {
        self.line_ending = LineEnding::Lf;
        self
    }

    fn build(self) -> (String, String) {
        let line_ending = match self.line_ending {
            LineEnding::Lf => "\n",
            LineEnding::Crlf => "\r\n",
        };
        let mut content = String::new();
        for (index, line) in self.lines.iter().enumerate() {
            content.push_str(line);
            if index < self.lines.len() - 1 || self.add_final_newline {
                content.push_str(line_ending);
            }
        }
        (self.path, content)
    }

    fn with_common_issues(self) -> Self {
        self.with_line("normal line")
            .with_trailing_spaces()
            .with_empty_line()
            .with_trailing_tabs()
            .with_line("another normal line")
    }
}

/// An issue that a scenario expects.
#[derive(Debug, Clone, PartialEq, Eq)]
enum TestIssue {
    MissingNewline { file: String },
    TrailingSpace { file: String, line: usize },
    TrailingTab { file: String, line: usize },
}

/// Files together with the issues expected of them.
struct TestScenario {
    files: HashMap<String, String>,
    expected_issues: Vec<TestIssue>,
    config: Config,
}

impl TestScenario {
    fn new() -> Self {
        Self {
            files: HashMap::new(),
            expected_issues: Vec::new(),
            config: Config::default(),
        }
    }

    fn with_file(mut self, builder: TestFileBuilder) -> Self {
        let (path, content) = builder.build();
        self.files.insert(path, content);
        self
    }

    fn with_file_content(mut self, path: &str, content: &str) -> Self {
        self.files.insert(path.to_string(), content.to_string());
        self
    }

    fn with_config(mut self, config: Config) -> Self {
        self.config = config;
        self
    }

    fn expecting_missing_newline(mut self, file: &str) -> Self {
        self.expected_issues.push(TestIssue::MissingNewline {
            file: file.to_string(),
        });
        self
    }

    fn expecting_trailing_space(mut self, file: &str, line: usize) -> Self {
        self.expected_issues.push(TestIssue::TrailingSpace {
            file: file.to_string(),
            line,
        });
        self
    }

    fn expecting_trailing_tab(mut self, file: &str, line: usize) -> Self {
        self.expected_issues.push(TestIssue::TrailingTab {
            file: file.to_string(),
            line,
        });
        self
    }

    fn expecting_no_issues(mut self) -> Self {
        self.expected_issues.clear();
        self
    }

    fn build_mock_filesystem(&self) -> MockFileSystem {
        let mut fs = MockFileSystem::new();
        for (path, content) in &self.files {
            fs.add_file(path, content.clone());
        }
        fs
    }

    fn files(&self) -> &HashMap<String, String> {
        &self.files
    }

    fn expected_issues(&self) -> &[TestIssue] {
        &self.expected_issues
    }

    fn config(&self) -> &Config {
        &self.config
    }
}

#[test]
fn test_scenario_builder_basic() {
    let scenario = TestScenario::new()
        .with_file(
            TestFileBuilder::new("test1.txt")
                .with_line("hello")
                .without_final_newline(),
        )
        .expecting_missing_newline("test1.txt");

    assert_eq!(scenario.files().len(), 1);
    assert_eq!(scenario.expected_issues().len(), 1);
}

#[test]
fn test_scenario_builder_multiple_files() {
    let scenario = TestScenario::new()
        .with_file(TestFileBuilder::new("file1.txt").with_line("content1"))
        .with_file(TestFileBuilder::new("file2.txt").with_line("content2"))
        .with_file_content("file3.txt", "content3\n");

    assert_eq!(scenario.files().len(), 3);
    assert!(scenario.files().contains_key("file1.txt"));
    assert!(scenario.files().contains_key("file2.txt"));
    assert!(scenario.files().contains_key("file3.txt"));
}

#[test]
fn test_scenario_builder_with_issues() {
    let scenario = TestScenario::new()
        .with_file(
            TestFileBuilder::new("test.txt")
                .with_line("line 1")
                .with_trailing_spaces()
                .with_trailing_tabs()
                .without_final_newline(),
        )
        .expecting_trailing_space("test.txt", 2)
        .expecting_trailing_tab("test.txt", 3)
        .expecting_missing_newline("test.txt");

    assert_eq!(scenario.expected_issues().len(), 3);
}

#[test]
fn test_scenario_builder_mock_filesystem() {
    let scenario = TestScenario::new().with_file_content("test.txt", "hello world");

    let fs = scenario.build_mock_filesystem();
    let content = fs.read_to_string("test.txt").unwrap();
    assert_eq!(content, "hello world");
}

#[test]
fn test_scenario_builder_no_issues() {
    let scenario = TestScenario::new()
        .with_file(TestFileBuilder::new("good.txt").with_line("perfect"))
        .expecting_trailing_space("good.txt", 1)
        .expecting_no_issues(); // This clears all expected issues

    assert_eq!(scenario.expected_issues().len(), 0);
}

#[test]
fn test_scenario_builder_custom_config() {
    let mut config = Config::default();
    config.checks.trailing_spaces = false;

    let scenario = TestScenario::new().with_config(config.clone());

    assert!(!scenario.config().checks.trailing_spaces);
}

#[test]
fn test_scenario_is_checked_as_expected() {
    let scenario = TestScenario::new()
        .with_file(
            TestFileBuilder::new("test.txt")
                .with_line("line 1")
                .with_trailing_spaces()
                .with_trailing_tabs()
                .without_final_newline(),
        )
        .expecting_trailing_space("test.txt", 2)
        .expecting_trailing_tab("test.txt", 3)
        .expecting_missing_newline("test.txt");

    let checker = FileChecker::new(scenario.build_mock_filesystem(), scenario.config().clone());
    let result = checker.check_file("test.txt");
    assert!(result.error.is_none());
    assert_eq!(result.issues.len(), scenario.expected_issues().len());
    assert_eq!(result.issues[0].line, Some(2));
    assert_eq!(result.issues[1].line, Some(3));
    assert_eq!(result.issues[2].line, None);
}
