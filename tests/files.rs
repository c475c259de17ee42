use lexer::is_markdown_file;

#[test]
fn should_return_true_when_markdown_file() {
    let result = is_markdown_file("test.md");
    assert!(result.is_ok());
}

#[test]
fn should_return_false_when_not_markdown_file() {
    let result = is_markdown_file("test.txt");
    assert!(result.is_err());
}

#[test]
fn should_return_false_when_not_markdown_file_with_path() {
    let result = is_markdown_file("/home/dummy/test.txt");
    assert!(result.is_err());
}

#[test]
fn not_markdown_message_names_the_path() {
    let result = is_markdown_file("notes.txt");
    assert_eq!(
        result,
        Err(String::from("Expected a markdown file, instead I have notes.txt"))
    );
}

#[test]
fn markdown_suffix_edge_cases() {
    assert!(is_markdown_file(".md").is_ok());
    assert!(is_markdown_file("md").is_err());
    assert!(is_markdown_file("").is_err());
    assert!(is_markdown_file("a.MD").is_err());
    assert!(is_markdown_file("a.md.txt").is_err());
}
