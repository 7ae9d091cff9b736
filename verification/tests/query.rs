use pls_reply::query::{os_name, read_query, QueryError};

#[test]
fn piped_query_reads_all_lines_verbatim() {
    let input = "explain `git show`\nand $HOME\n";
    assert_eq!(read_query(input, false).unwrap(), input.trim());
}

#[test]
fn interactive_query_reads_one_line() {
    let input = "first question\nsecond question\n";
    assert_eq!(read_query(input, true).unwrap(), "first question");
}

#[test]
fn empty_query_is_rejected() {
    let error = read_query(" \n", false).unwrap_err();
    assert_eq!(
        error.message(),
        "no query provided (pipe it in or type it at the prompt)"
    );
    assert_eq!(error, QueryError::Empty);
}

#[test]
fn first_line_that_is_blank_is_empty() {
    assert!(read_query("\nsecond\n", true).is_err());
    assert_eq!(read_query("\nsecond\n", false).unwrap(), "second");
}

#[test]
fn unicode_whitespace_is_trimmed() {
    assert_eq!(read_query("\u{a0}\u{3000} q \t\r\n", false).unwrap(), "q");
}

#[test]
fn os_names() {
    assert_eq!(os_name("macos"), "darwin");
    assert_eq!(os_name("linux"), "linux");
    assert_eq!(os_name("freebsd"), "unix");
}
