use pls_reply::cli::{Cli, CliError, Command};

#[test]
fn bare_invocation_selects_implicit_ask() {
    let cli = Cli::parse_from(&[]).unwrap();
    assert_eq!(cli.command, None);
}

#[test]
fn parses_commands() {
    let ask = Cli::parse_from(&["ask"]).unwrap();
    assert_eq!(ask.command, Some(Command::Ask));

    let commit = Cli::parse_from(&["commit"]).unwrap();
    assert_eq!(commit.command, Some(Command::Commit));
}

#[test]
fn arbitrary_root_words_are_rejected() {
    let argv = ["git", "show"];
    assert!(Cli::parse_from(&argv).is_err());
}

#[test]
fn commands_reject_query_arguments() {
    let argv = ["ask", "git", "show"];
    assert!(Cli::parse_from(&argv).is_err());
}

#[test]
fn global_flags_work_before_and_after_commands() {
    for argv in [["--no-copy", "commit"], ["commit", "--no-copy"]] {
        let cli = Cli::parse_from(&argv).unwrap();
        assert!(cli.no_copy);
        assert_eq!(cli.command, Some(Command::Commit));
    }
}

#[test]
fn profile_is_independent_of_stats() {
    for profile in ["--profile", "--profile-json"] {
        for stats in ["--stats", "--stats-json"] {
            let argv = [profile, stats, "ask"];
            assert!(Cli::parse_from(&argv).is_ok());
        }
    }
    let argv = ["--profile", "--profile-json", "ask"];
    assert!(Cli::parse_from(&argv).is_err());
}

#[test]
fn stats_formats_conflict() {
    let argv = ["--stats", "--stats-json", "ask"];
    assert!(Cli::parse_from(&argv).is_err());
}

#[test]
fn unknown_flags_are_rejected() {
    let argv = ["--definitely-invalid"];
    assert!(Cli::parse_from(&argv).is_err());
}

#[test]
fn model_takes_a_value_in_every_form() {
    for argv in [
        vec!["-m", "gpt-x"],
        vec!["--model", "gpt-x"],
        vec!["--model=gpt-x"],
        vec!["-mgpt-x"],
        vec!["-m=gpt-x"],
        vec!["commit", "--model", "gpt-x"],
    ] {
        let cli = Cli::parse_from(&argv).unwrap();
        assert_eq!(cli.model.as_deref(), Some("gpt-x"));
    }
}

#[test]
fn model_without_value_is_refused() {
    assert!(matches!(Cli::parse_from(&["-m"]), Err(CliError::MissingValue(_))));
    assert!(matches!(
        Cli::parse_from(&["--model", "--stats"]),
        Err(CliError::MissingValue(_))
    ));
}

#[test]
fn repeated_flags_are_refused() {
    assert!(matches!(
        Cli::parse_from(&["--stats", "ask", "--stats"]),
        Err(CliError::Repeated(f)) if f == "--stats"
    ));
    assert!(matches!(
        Cli::parse_from(&["-m", "a", "--model=b"]),
        Err(CliError::Repeated(f)) if f == "--model"
    ));
}

#[test]
fn conflicts_name_both_flags() {
    match Cli::parse_from(&["--stats-json", "--stats"]) {
        Err(CliError::Conflict(a, b)) => {
            assert_eq!(a, "--stats");
            assert_eq!(b, "--stats-json");
        }
        other => panic!("unexpected {:?}", other),
    }
}

#[test]
fn help_and_version_are_requests() {
    assert!(matches!(Cli::parse_from(&["--help"]), Err(CliError::HelpRequested)));
    assert!(matches!(Cli::parse_from(&["ask", "-h"]), Err(CliError::HelpRequested)));
    assert!(matches!(Cli::parse_from(&["-V"]), Err(CliError::VersionRequested)));
}

#[test]
fn words_after_double_dash_are_refused() {
    assert!(Cli::parse_from(&["--"]).is_ok());
    assert!(matches!(
        Cli::parse_from(&["--", "ask"]),
        Err(CliError::UnexpectedArgument(a)) if a == "ask"
    ));
}

#[test]
fn all_flags_together() {
    let cli = Cli::parse_from(&["--no-copy", "--profile", "commit", "--stats", "-m", "x"]).unwrap();
    assert!(cli.no_copy && cli.profile && cli.stats);
    assert!(!cli.profile_json && !cli.stats_json);
    assert_eq!(cli.command, Some(Command::Commit));
    assert_eq!(cli.model.as_deref(), Some("x"));
}
