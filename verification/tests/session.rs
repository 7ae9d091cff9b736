use pls_reply::cli::Cli;
use pls_reply::clipboard::clipboard_tools;
use pls_reply::config::{ModelConfig, Output, Prompt};
use pls_reply::llm::Stats;
use pls_reply::session::{
    copies_answer, model_name, profiled, stats_mode, system_prompt, writes_commit_message,
};

fn output(copy: bool, stats: bool) -> Output {
    Output { copy, stats }
}

#[test]
fn json_stats_take_precedence() {
    let cli = Cli::parse_from(&["--stats-json"]).unwrap();
    assert_eq!(stats_mode(&cli, &output(true, true)), Stats::Json);
    let cli = Cli::parse_from(&["--stats"]).unwrap();
    assert_eq!(stats_mode(&cli, &output(true, false)), Stats::Human);
    let cli = Cli::parse_from(&[]).unwrap();
    assert_eq!(stats_mode(&cli, &output(true, true)), Stats::Human);
    assert_eq!(stats_mode(&cli, &output(true, false)), Stats::Off);
}

#[test]
fn copy_needs_permission_and_an_answer() {
    let cli = Cli::parse_from(&[]).unwrap();
    assert!(copies_answer(&cli, &output(true, false), "ls"));
    assert!(!copies_answer(&cli, &output(true, false), ""));
    assert!(!copies_answer(&cli, &output(false, false), "ls"));
    let cli = Cli::parse_from(&["--no-copy"]).unwrap();
    assert!(!copies_answer(&cli, &output(true, false), "ls"));
}

#[test]
fn command_line_model_overrides_config() {
    let m = ModelConfig::new("openai".into(), "configured".into(), None, None, None);
    let cli = Cli::parse_from(&["-m", "chosen"]).unwrap();
    assert_eq!(model_name(&cli, &m), "chosen");
    let cli = Cli::parse_from(&[]).unwrap();
    assert_eq!(model_name(&cli, &m), "configured");
}

#[test]
fn commit_uses_the_commit_prompt() {
    let p = Prompt { system: "ask prompt".into(), commit: "commit prompt".into() };
    let cli = Cli::parse_from(&["commit"]).unwrap();
    assert!(writes_commit_message(&cli));
    assert_eq!(system_prompt(&cli, &p), "commit prompt");
    let cli = Cli::parse_from(&["ask"]).unwrap();
    assert!(!writes_commit_message(&cli));
    assert_eq!(system_prompt(&cli, &p), "ask prompt");
}

#[test]
fn either_profile_flag_profiles() {
    assert!(profiled(&Cli::parse_from(&["--profile"]).unwrap()));
    assert!(profiled(&Cli::parse_from(&["--profile-json"]).unwrap()));
    assert!(!profiled(&Cli::parse_from(&[]).unwrap()));
}

#[test]
fn clipboard_tools_by_platform() {
    let mac = clipboard_tools(true);
    assert_eq!(mac.len(), 1);
    assert_eq!(mac[0].program, "pbcopy");
    assert!(mac[0].args.is_empty());
    let other = clipboard_tools(false);
    let programs: Vec<&str> = other.iter().map(|t| t.program.as_str()).collect();
    assert_eq!(programs, vec!["wl-copy", "xclip", "xsel"]);
    assert_eq!(other[1].args, vec!["-selection", "clipboard"]);
    assert_eq!(other[2].args, vec!["--clipboard", "--input"]);
}
