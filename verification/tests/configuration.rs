use abcb::config::{
    build_provider, endpoint_label, parse_config, required_config, DEFAULT_MAX_STEPS,
};

#[test]
fn parses_project_name_from_config() {
    let config = parse_config(
        r#"
        [project]
        name = "abcb"
        "#,
    )
    .expect("config should parse");

    assert_eq!(config.project_name(), Some("abcb"));
}

#[test]
fn parses_empty_config() {
    let config = parse_config("").expect("empty config should parse");

    assert_eq!(config.project_name(), None);
}

#[test]
fn parses_model_config() {
    let config = parse_config(
        r#"
        [model]
        base_url = "http://localhost:8083/v1"
        health_url = "http://localhost:8083/health"
        model = "/path/to/model"
        "#,
    )
    .expect("model config should parse");

    let model = config.model.expect("model section present");
    assert_eq!(model.base_url, "http://localhost:8083/v1");
    assert_eq!(model.model, "/path/to/model");
    assert_eq!(
        model.health_url.as_deref(),
        Some("http://localhost:8083/health")
    );
}

#[test]
fn parses_model_config_without_health_url() {
    let config = parse_config(
        r#"
        [model]
        base_url = "http://localhost:8083/v1"
        model = "/path/to/model"
        "#,
    )
    .expect("model config without health_url should parse");

    let model = config.model.expect("model section present");
    assert_eq!(model.health_url, None);
}

#[test]
fn model_config_requires_base_url_and_model() {
    let err = parse_config(
        r#"
        [model]
        base_url = "http://localhost:8083/v1"
        "#,
    )
    .expect_err("missing model field should error");

    assert!(err.to_string().contains("model"));
}

#[test]
fn parses_agent_max_steps() {
    let config = parse_config(
        r#"
        [agent]
        max_steps = 9
        "#,
    )
    .expect("agent config should parse");

    assert_eq!(config.max_steps(), 9);
}

#[test]
fn max_steps_defaults_to_five_when_absent() {
    let config = parse_config("").expect("empty config should parse");

    assert_eq!(config.max_steps(), DEFAULT_MAX_STEPS);
    assert_eq!(DEFAULT_MAX_STEPS, 5);
}

#[test]
fn parses_memory_dir() {
    let config = parse_config(
        r#"
        [memory]
        dir = "/tmp/sessions"
        "#,
    )
    .expect("memory config should parse");

    assert_eq!(config.memory_dir(), "/tmp/sessions");
}

#[test]
fn memory_dir_defaults_when_absent() {
    let config = parse_config("").expect("empty config should parse");

    assert_eq!(config.memory_dir(), ".abcb/sessions");
}

#[test]
fn build_provider_errors_without_model_section() {
    let config = parse_config("").expect("empty config parses");

    let err = build_provider(&config).expect_err("missing [model] should error");

    assert!(err.to_string().contains("[model]"));
}

#[test]
fn build_provider_takes_the_configured_endpoint() {
    let config = parse_config("[model]\nbase_url = \"http://h/v1\"\nmodel = \"m\"\n")
        .expect("config parses");
    let provider = build_provider(&config).expect("a provider");
    assert_eq!(provider.base_url, "http://h/v1");
    assert_eq!(provider.model, "m");
    assert_eq!(endpoint_label(&config), "http://h/v1 (m)");
    assert_eq!(endpoint_label(&parse_config("").expect("empty")), "unknown");
}

#[test]
fn a_missing_config_is_refused_with_advice() {
    let err = required_config(None).expect_err("nothing was loaded");
    assert_eq!(err, "no abcb.toml found; add a [model] section or pass --mock");
    let config = parse_config("[agent]\nmax_steps = 2").expect("config parses");
    assert_eq!(required_config(Some(&config)).expect("loaded").max_steps(), 2);
}

#[test]
fn bad_settings_are_refused() {
    for source in [
        "[agent]\nmax_steps = -1",
        "[agent]\nmax_steps = \"two\"",
        "[agent]\nmax_steps = 1.5",
        "[project]\nname = 3",
        "[memory]\ndir = []",
        "[model]\nmodel = \"m\"",
        "model = \"m\"",
        "project = 5",
        "agent = []",
        "[project",
    ] {
        assert!(parse_config(source).is_err(), "{source}");
    }
    let config = parse_config("[other]\nx = 1\n[project]\nunknown = 2\n[agent]\n").expect("parses");
    assert_eq!(config.project_name(), None);
    assert_eq!(config.max_steps(), 5);
}
