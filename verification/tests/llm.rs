use genai::adapter::AdapterKind;
use pls_reply::config::ModelConfig;
use pls_reply::llm::{
    adapter_kind, reasoning_effort, service_credentials, service_endpoint, system_message,
    Credentials, Stats, Transcript,
};

#[test]
fn resolves_adapters_from_genai_registry() {
    assert_eq!(
        adapter_kind("open_router").unwrap(),
        AdapterKind::OpenRouter
    );
}

#[test]
fn provider_names_are_case_insensitive() {
    assert_eq!(adapter_kind("OpenAI").unwrap(), AdapterKind::OpenAI);
}

#[test]
fn custom_uses_openai_adapter() {
    assert_eq!(adapter_kind("custom").unwrap(), AdapterKind::OpenAI);
    assert_eq!(adapter_kind("CUSTOM").unwrap(), AdapterKind::OpenAI);
}

#[test]
fn rejects_unknown_provider() {
    let error = adapter_kind("not-a-provider").unwrap_err();
    assert_eq!(error.message(), "unknown provider 'not-a-provider'");
    let error = adapter_kind("Not-A-Provider").unwrap_err();
    assert_eq!(error.message(), "unknown provider 'not-a-provider'");
}

#[test]
fn reasoning_effort_settings() {
    assert!(reasoning_effort("high").is_ok());
    assert!(reasoning_effort("1024").is_ok());
    assert!(reasoning_effort("+42").is_ok());
    assert!(reasoning_effort("none").is_ok());
    assert!(reasoning_effort("4294967295").is_ok());
    assert!(reasoning_effort("4294967296").is_err());
    assert!(reasoning_effort("-1").is_err());
    assert!(reasoning_effort("+").is_err());
    assert!(reasoning_effort("High").is_err());
    let error = reasoning_effort("extreme").unwrap_err();
    assert_eq!(error.message(), "invalid reasoning_effort 'extreme'");
}

#[test]
fn system_message_names_the_os() {
    assert_eq!(
        system_message("running on a {os} unix system, {os}!", "darwin"),
        "running on a darwin unix system, darwin!"
    );
    assert_eq!(system_message("no placeholder", "linux"), "no placeholder");
    assert_eq!(system_message("{os{os}}", "x"), "{osx}");
}

fn model(base_url: Option<&str>, env: Option<&str>, key: Option<&str>) -> ModelConfig {
    ModelConfig::new(
        "openai".to_string(),
        "m".to_string(),
        base_url.map(str::to_string),
        env.map(str::to_string),
        key.map(str::to_string),
    )
}

#[test]
fn endpoint_ends_with_slash() {
    assert_eq!(
        service_endpoint(&model(Some(" http://localhost:8000/v1 "), None, None)).as_deref(),
        Some("http://localhost:8000/v1/")
    );
    assert_eq!(
        service_endpoint(&model(Some("http://h/v1/"), None, None)).as_deref(),
        Some("http://h/v1/")
    );
    assert_eq!(service_endpoint(&model(Some("  "), None, None)), None);
    assert_eq!(service_endpoint(&model(None, None, None)), None);
}

#[test]
fn key_is_preferred_over_its_variable() {
    match service_credentials(&model(None, Some("KEY_VAR"), Some(" sk-1 "))) {
        Some(Credentials::Key(k)) => assert_eq!(k, "sk-1"),
        other => panic!("unexpected {:?}", other),
    }
    match service_credentials(&model(None, Some(" KEY_VAR "), Some(" "))) {
        Some(Credentials::FromEnv(v)) => assert_eq!(v, "KEY_VAR"),
        other => panic!("unexpected {:?}", other),
    }
    assert!(service_credentials(&model(None, None, None)).is_none());
}

#[test]
fn transcript_is_trimmed() {
    let mut t = Transcript::new();
    let p = t.receive("");
    assert!(!p.nonempty && !p.first);
    let p = t.receive("  git log");
    assert!(p.nonempty && p.first);
    assert!(p.flushed_content(true));
    assert!(!p.flushed_content(false));
    let p = t.receive(" --reverse\n");
    assert!(p.nonempty && !p.first);
    assert_eq!(t.answer(), "git log --reverse");
}

#[test]
fn usage_is_captured_only_with_stats() {
    assert!(!Stats::Off.captures_usage());
    assert!(Stats::Human.captures_usage());
    assert!(Stats::Json.captures_usage());
}
