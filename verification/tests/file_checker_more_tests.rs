#![allow(dead_code)]

use lineguard::checker::{
    CheckResult, FileChecker, FileMetadata, FileReader, IssueType, LineEvent, LineSource,
};
use lineguard::config::Config;
use std::collections::HashMap;

/// Metadata of a regular file of the given length.
fn file_metadata(len: u64) -> FileMetadata {
    FileMetadata {
        len,
        is_file: true,
        is_dir: false,
    }
}

/// Metadata of a directory.
fn dir_metadata() -> FileMetadata {
    FileMetadata {
        len: 0,
        is_file: false,
        is_dir: true,
    }
}

/// The lines of a file held in memory, handed out one by one.
struct MemoryLines {
    events: Vec<LineEvent>,
    next: usize,
}

impl LineSource for MemoryLines {
    fn next_line(&mut self) -> LineEvent {
        if self.next < self.events.len() {
            let event = self.events[self.next].clone();
            self.next += 1;
            event
        } else {
            LineEvent::End
        }
    }
}

/// A file system held in memory.
#[derive(Clone, Default)]
struct MockFileSystem {
    files: HashMap<String, String>,
    metadata: HashMap<String, FileMetadata>,
    errors: HashMap<String, String>,
    broken_after: HashMap<String, usize>,
}

impl MockFileSystem {
    fn new() -> Self {
        Self::default()
    }

    fn add_file(&mut self, path: &str, content: impl Into<String>) {
        let content = content.into();
        let len = content.len() as u64;
        self.files.insert(path.to_string(), content);
        self.metadata.insert(path.to_string(), file_metadata(len));
    }

    fn add_dir(&mut self, path: &str) {
        self.metadata.insert(path.to_string(), dir_metadata());
    }

    fn add_error(&mut self, path: &str, error: &str) {
        self.errors.insert(path.to_string(), error.to_string());
    }

    fn set_metadata(&mut self, path: &str, metadata: FileMetadata) {
        self.metadata.insert(path.to_string(), metadata);
    }

    /// Makes reading the file line by line fail after `lines` lines.
    fn break_after(&mut self, path: &str, lines: usize) {
        self.broken_after.insert(path.to_string(), lines);
    }

    fn lookup(&self, path: &str) -> Result<&String, String> {
        if let Some(error) = self.errors.get(path) {
            return Err(error.clone());
        }
        self.files
            .get(path)
            .ok_or_else(|| format!("File not found: {path:?}"))
    }
}

impl FileReader for MockFileSystem {
    type Lines = MemoryLines;

    fn read_to_string(&self, path: &str) -> Result<String, String> {
        self.lookup(path).cloned()
    }

    fn open(&self, path: &str) -> Result<MemoryLines, String> {
        let content = self.lookup(path)?;
        let mut events: Vec<LineEvent> = content
            .lines()
            .map(|line| LineEvent::Line(line.to_string()))
            .collect();
        if let Some(limit) = self.broken_after.get(path) {
            events.truncate(*limit);
            events.push(LineEvent::Failed);
        }
        Ok(MemoryLines { events, next: 0 })
    }

    fn metadata(&self, path: &str) -> Result<FileMetadata, String> {
        if let Some(error) = self.errors.get(path) {
            return Err(error.clone());
        }
        self.metadata
            .get(path)
            .cloned()
            .ok_or_else(|| format!("File not found: {path:?}"))
    }

    fn read_tail(&self, path: &str, count: usize) -> Result<Vec<u8>, String> {
        let content = self.lookup(path)?;
        let bytes = content.as_bytes();
        let from = bytes.len().saturating_sub(count);
        Ok(bytes[from..].to_vec())
    }
}

/// A checker over a file system that holds `content` under the name
/// `stored.txt`.
fn checker_of(content: &str, config: &Config) -> FileChecker<MockFileSystem> {
    let mut fs = MockFileSystem::new();
    fs.add_file("stored.txt", content);
    FileChecker::new(fs, config.clone())
}

/// Checks `content` as the file `stored.txt`.
fn check_stored(content: &str, config: &Config) -> CheckResult {
    checker_of(content, config).check_file("stored.txt")
}

#[test]
fn test_check_file_success() {
    let result = check_stored("Hello world\n", &Config::default());

    assert_eq!(result.file_path, "stored.txt");
    assert!(result.error.is_none());
    assert!(result.issues.is_empty());
}

#[test]
fn tests_test_check_file_with_issues() {
    let result = check_stored("trailing spaces   \nno final newline", &Config::default());

    assert!(result.error.is_none());
    assert_eq!(result.issues.len(), 2);
    assert!(result
        .issues
        .iter()
        .any(|i| i.issue_type == IssueType::TrailingSpace));
    assert!(result
        .issues
        .iter()
        .any(|i| i.issue_type == IssueType::MissingNewline));
}

#[test]
fn tests_test_check_file_with_disabled_checks() {
    let mut config = Config::default();
    config.checks.trailing_spaces = false;
    config.checks.newline_ending = false;

    let result = check_stored("trailing spaces   \nno final newline", &config);

    assert!(result.error.is_none());
    assert!(result.issues.is_empty());
}

#[test]
fn test_check_file_large_file() {
    let mut content = String::new();
    for _ in 0..50000 {
        content.push_str("This is a line of text that is exactly 100 characters long including the newline character at end\n");
    }

    let start = std::time::Instant::now();
    let result = check_stored(&content, &Config::default());
    let duration = start.elapsed();

    assert!(result.error.is_none());
    assert!(result.issues.is_empty());
    assert!(duration.as_secs() < 2);
}

#[test]
fn test_empty_file_handling() {
    let result = check_stored("", &Config::default());

    assert!(result.error.is_none());
    assert!(result.issues.is_empty());
}

#[test]
fn test_single_newline_file() {
    let result = check_stored("\n", &Config::default());

    assert!(result.error.is_none());
    assert!(result.issues.is_empty());
}

#[test]
fn test_windows_line_endings() {
    let result = check_stored("line1\r\nline2\r\n", &Config::default());

    assert!(result.error.is_none());
    assert!(result.issues.is_empty());
}

#[test]
fn test_partial_config_disabled() {
    let mut config = Config::default();
    config.checks.trailing_spaces = false;
    config.checks.newline_ending = true;

    let result = check_stored("trailing   ", &config);

    assert!(result.error.is_none());
    assert_eq!(result.issues.len(), 1);
    assert_eq!(result.issues[0].issue_type, IssueType::MissingNewline);
}

#[test]
fn test_all_checks_enabled() {
    let mut config = Config::default();
    config.checks.trailing_spaces = true;
    config.checks.newline_ending = true;

    let result = check_stored("line1   \nline2\n\n", &config);

    assert!(result.error.is_none());
    assert_eq!(result.issues.len(), 2);
}

#[test]
fn test_binary_content_detection() {
    let mut fs = MockFileSystem::new();
    fs.set_metadata("binary.dat", file_metadata(4));
    fs.add_error("binary.dat", "stream did not contain valid UTF-8");
    let result = FileChecker::new(fs, Config::default()).check_file("binary.dat");

    assert!(result.error.is_some());
    assert!(result.issues.is_empty());
}

#[test]
fn test_check_file_in_memory_read_error() {
    let mut fs = MockFileSystem::new();
    fs.add_error("read_error.txt", "Invalid UTF-8");

    let checker = FileChecker::new(fs, Config::default());
    let result = checker.check_file("read_error.txt");

    assert!(result.error.is_some());
    assert!(result.error.unwrap().contains("Invalid UTF-8"));
    assert!(result.issues.is_empty());
}

#[test]
fn test_check_file_streaming_empty_file() {
    let mut fs = MockFileSystem::new();
    fs.add_file("empty.txt", "");
    fs.set_metadata(
        "empty.txt",
        FileMetadata {
            len: 11 * 1024 * 1024,
            is_file: true,
            is_dir: false,
        },
    );

    let checker = FileChecker::new(fs, Config::default());
    let result = checker.check_file("empty.txt");

    assert!(result.error.is_none());
    assert!(result.issues.is_empty());
}

#[test]
fn test_check_final_newline_streaming_coverage() {
    let checker = checker_of("no newline", &Config::default());
    let result = checker.check_file_streaming("stored.txt");

    assert!(result.error.is_none());
    assert!(result
        .issues
        .iter()
        .any(|i| i.issue_type == IssueType::MissingNewline));

    let checker2 = checker_of("content\n\n", &Config::default());
    let result2 = checker2.check_file_streaming("stored.txt");
    assert!(result2
        .issues
        .iter()
        .any(|i| i.issue_type == IssueType::MultipleNewlines));
}

#[test]
fn test_check_final_newline_streaming_seek_error() {
    let checker = checker_of("x", &Config::default());

    let result = checker.check_final_newline_streaming("stored.txt");
    assert!(result.is_some());
    assert_eq!(result.unwrap().issue_type, IssueType::MissingNewline);
}

#[test]
fn test_check_final_newline_streaming_with_single_byte() {
    let checker = checker_of("a", &Config::default());
    let result = checker.check_final_newline_streaming("stored.txt");

    assert!(result.is_some());
    assert_eq!(result.unwrap().issue_type, IssueType::MissingNewline);
}

#[test]
fn test_check_final_newline_streaming_nonexistent_file() {
    let checker = FileChecker::new(MockFileSystem::new(), Config::default());
    let result = checker.check_final_newline_streaming("/nonexistent/file.txt");

    assert!(result.is_none());
}

#[test]
fn test_check_final_newline_streaming_coverage_gaps() {
    let checker = checker_of("\n\n", &Config::default());
    let result = checker.check_final_newline_streaming("stored.txt");

    assert!(result.is_some());
    assert_eq!(result.unwrap().issue_type, IssueType::MultipleNewlines);

    let checker2 = checker_of("content\n", &Config::default());
    let result2 = checker2.check_final_newline_streaming("stored.txt");
    assert!(result2.is_none());

    let checker3 = checker_of("x", &Config::default());
    let result3 = checker3.check_final_newline_streaming("stored.txt");
    assert!(result3.is_some());
    assert_eq!(result3.unwrap().issue_type, IssueType::MissingNewline);
}

#[test]
fn test_check_final_newline_streaming_real_file_variations() {
    let checker = checker_of("", &Config::default());
    let result = checker.check_final_newline_streaming("stored.txt");
    assert!(result.is_none());
}

#[test]
fn test_check_final_newline_streaming_edge_cases() {
    let checker = checker_of("\n", &Config::default());
    let result = checker.check_final_newline_streaming("stored.txt");
    assert!(result.is_none());
}

#[test]
fn test_mock_filesystem_read_file() {
    let mut fs = MockFileSystem::new();
    fs.add_file("test.txt", "content");
    assert_eq!(fs.read_to_string("test.txt").unwrap(), "content");
}

#[test]
fn test_mock_filesystem_file_not_found() {
    let fs = MockFileSystem::new();
    let result = fs.read_to_string("nonexistent.txt");
    assert!(result.is_err());
    assert!(result.unwrap_err().contains("not found"));
}

#[test]
fn test_mock_filesystem_with_error() {
    let mut fs = MockFileSystem::new();
    fs.add_file("test.txt", "content");
    fs.add_error("test.txt", "Access denied");

    let result = fs.read_to_string("test.txt");
    assert!(result.is_err());
    assert_eq!(result.unwrap_err(), "Access denied");
}

#[test]
fn test_mock_filesystem_metadata() {
    let mut fs = MockFileSystem::new();
    fs.add_file("test.txt", "hello world");

    let metadata = fs.metadata("test.txt").unwrap();
    assert_eq!(metadata.len, 11);
    assert!(metadata.is_file);
    assert!(!metadata.is_dir);
}

#[test]
fn test_mock_filesystem_directory() {
    let mut fs = MockFileSystem::new();
    fs.add_dir("test_dir");

    let metadata = fs.metadata("test_dir").unwrap();
    assert_eq!(metadata.len, 0);
    assert!(!metadata.is_file);
    assert!(metadata.is_dir);
}

#[test]
fn test_mock_filesystem_open_file() {
    let mut fs = MockFileSystem::new();
    fs.add_file("test.txt", "hello\nworld");

    let mut reader = fs.open("test.txt").unwrap();
    assert!(matches!(reader.next_line(), LineEvent::Line(line) if line == "hello"));
    assert!(matches!(reader.next_line(), LineEvent::Line(line) if line == "world"));
    assert!(matches!(reader.next_line(), LineEvent::End));
    assert_eq!(fs.read_tail("test.txt", 2).unwrap(), b"ld".to_vec());
}

#[test]
fn test_mock_filesystem_custom_metadata() {
    let mut fs = MockFileSystem::new();
    fs.add_file("test.txt", "content");

    let custom_metadata = file_metadata(1024);
    fs.set_metadata("test.txt", custom_metadata);

    let metadata = fs.metadata("test.txt").unwrap();
    assert_eq!(metadata.len, 1024);
}
