use lineguard::checker::check_trailing_spaces;

/// Generates a file of the given number of lines.
fn generate_large_file(lines: usize) -> String {
    (0..lines).map(|i| format!("line {i}\n")).collect()
}

/// Generates a file with trailing spaces on every nth line.
fn generate_file_with_trailing_spaces(lines: usize, every_nth: usize) -> String {
    (0..lines)
        .map(|i| {
            if i % every_nth == 0 {
                format!("line {i}   \n")
            } else {
                format!("line {i}\n")
            }
        })
        .collect()
}


#[test]
fn test_generate_large_file() {
    let content = generate_large_file(3);
    assert_eq!(content, "line 0\nline 1\nline 2\n");
}

#[test]
fn test_generate_file_with_trailing_spaces() {
    let content = generate_file_with_trailing_spaces(3, 2);
    assert_eq!(content, "line 0   \nline 1\nline 2   \n");
}

#[test]
fn test_generated_trailing_spaces_are_found() {
    let content = generate_file_with_trailing_spaces(6, 2);
    let issues = check_trailing_spaces(&content);
    let lines: Vec<Option<usize>> = issues.iter().map(|i| i.line).collect();
    assert_eq!(lines, vec![Some(1), Some(3), Some(5)]);
    assert!(check_trailing_spaces(&generate_large_file(5)).is_empty());
}
