use pls_reply::commit::DEFAULT_SYSTEM_PROMPT;
use pls_reply::config::{
    config_path_from, default_commit_prompt, default_true, non_empty, ModelConfig, Output,
};

#[test]
fn settings_are_trimmed_and_blank_ones_unset() {
    let m = ModelConfig::new(
        "openai".to_string(),
        "gpt".to_string(),
        Some(" http://x/ ".to_string()),
        Some("   ".to_string()),
        None,
    );
    assert_eq!(m.base_url().as_deref(), Some("http://x/"));
    assert_eq!(m.api_key_env(), None);
    assert_eq!(m.api_key(), None);
    assert_eq!(m.provider_name(), "openai");
    assert_eq!(m.model_name(), "gpt");
}

#[test]
fn non_empty_values() {
    assert_eq!(non_empty(Some("  a b  ")).as_deref(), Some("a b"));
    assert_eq!(non_empty(Some("\t\n")), None);
    assert_eq!(non_empty(None), None);
}

#[test]
fn output_defaults_copy_without_stats() {
    let o = Output::default();
    assert!(o.copy);
    assert!(!o.stats);
    assert!(default_true());
}

#[test]
fn commit_prompt_defaults_to_the_builtin_one() {
    assert_eq!(default_commit_prompt(), DEFAULT_SYSTEM_PROMPT);
}

#[test]
fn config_path_prefers_xdg() {
    assert_eq!(
        config_path_from(Some(b"/x/cfg"), Some(b"/home/u")).unwrap(),
        b"/x/cfg/pls/pls.toml".to_vec()
    );
    assert_eq!(
        config_path_from(Some(b"/x/cfg/"), None).unwrap(),
        b"/x/cfg/pls/pls.toml".to_vec()
    );
}

#[test]
fn config_path_falls_back_to_home() {
    assert_eq!(
        config_path_from(Some(b""), Some(b"/home/u")).unwrap(),
        b"/home/u/.config/pls/pls.toml".to_vec()
    );
    assert_eq!(
        config_path_from(None, Some(b"/home/u")).unwrap(),
        b"/home/u/.config/pls/pls.toml".to_vec()
    );
    assert_eq!(
        config_path_from(None, Some(b"")).unwrap(),
        b".config/pls/pls.toml".to_vec()
    );
}

#[test]
fn config_path_needs_a_home() {
    let error = config_path_from(None, None).unwrap_err();
    assert_eq!(error.message(), "neither XDG_CONFIG_HOME nor HOME is set");
    assert!(config_path_from(Some(b""), None).is_err());
}
