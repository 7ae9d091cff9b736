use pls_reply::commit::{
    git_diff_args, staged_changes_prompt_from, CommitError, DEFAULT_SYSTEM_PROMPT, MAX_DIFF_BYTES,
};

#[test]
fn git_is_asked_for_the_staged_patch() {
    assert_eq!(
        git_diff_args(),
        vec![
            "diff",
            "--cached",
            "--no-ext-diff",
            "--no-textconv",
            "--find-renames",
            "--stat",
            "--patch",
            "--unified=3",
        ]
    );
}

#[test]
fn rejects_an_empty_index() {
    // `git diff --cached` prints nothing when nothing is staged.
    let error = staged_changes_prompt_from(true, b"", b"").unwrap_err();
    assert_eq!(error.message(), "no staged changes");
}

#[test]
fn prompt_wraps_the_diff() {
    let diff = b" staged.txt | 1 +\n+staged content\n";
    let prompt = staged_changes_prompt_from(true, diff, b"").unwrap();
    assert_eq!(
        prompt,
        "Generate a Conventional Commit message for exactly the staged changes below.\n\n<staged-diff>\n staged.txt | 1 +\n+staged content\n</staged-diff>"
    );
    assert!(prompt.contains("staged content"));
}

#[test]
fn rejects_an_oversized_diff() {
    // A staged file of MAX_DIFF_BYTES bytes makes a diff longer than the limit.
    let diff = vec![b'x'; MAX_DIFF_BYTES + 1];
    let error = staged_changes_prompt_from(true, &diff, b"").unwrap_err();
    assert!(error.message().contains("staged diff is too large"));
    assert_eq!(
        error.message(),
        "staged diff is too large (257 KiB; limit is 256 KiB); stage a smaller change"
    );
    let diff = vec![b'x'; MAX_DIFF_BYTES];
    assert!(staged_changes_prompt_from(true, &diff, b"").is_ok());
}

#[test]
fn git_failure_reports_its_error() {
    let error =
        staged_changes_prompt_from(false, b"", b"fatal: not a git repository\n").unwrap_err();
    assert!(matches!(error, CommitError::GitFailed(_)));
    assert_eq!(
        error.message(),
        "reading staged changes: fatal: not a git repository"
    );
}

#[test]
fn invalid_utf8_is_replaced() {
    let prompt = staged_changes_prompt_from(true, b"a\xffb\n", b"").unwrap();
    assert!(prompt.contains("a\u{fffd}b\n</staged-diff>"));
}

#[test]
fn default_prompt_asks_for_conventional_commits() {
    assert!(DEFAULT_SYSTEM_PROMPT.starts_with("You write Conventional Commit messages"));
    assert!(DEFAULT_SYSTEM_PROMPT.ends_with("breaking behavior.\n"));
}
