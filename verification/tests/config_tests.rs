use mq_task::config::Config;
use mq_task::errors::{ConfigError, ParseError};
use mq_task::mode::ExecutionMode;

#[test]
fn mode_tokens_parse_case_insensitively() {
    assert_eq!(ExecutionMode::try_from("FILE"), Ok(ExecutionMode::File));
    assert_eq!(ExecutionMode::try_from("file"), Ok(ExecutionMode::File));
    assert_eq!(ExecutionMode::try_from("stdin"), Ok(ExecutionMode::Stdin));
    assert_eq!(ExecutionMode::try_from("StDiN"), Ok(ExecutionMode::Stdin));
    assert_eq!(ExecutionMode::try_from("ARG"), Ok(ExecutionMode::Arg));
}

#[test]
fn unknown_mode_token_is_named() {
    assert_eq!(
        ExecutionMode::try_from("socket"),
        Err(ConfigError::UnrecognizedMode(String::from("socket")))
    );
}

#[test]
fn default_config_seeds_builtin_runtimes() {
    let config = Config::default();
    assert_eq!(config.heading_level(), 2);
    assert_eq!(config.default_mode(), ExecutionMode::Stdin);
    let py = config.resolve("python").unwrap();
    assert_eq!(py.command, "python3");
    assert_eq!(py.mode, ExecutionMode::Stdin);
    let bash = config.resolve("bash").unwrap();
    assert_eq!(bash.command, "bash");
    assert_eq!(config.resolve("js").unwrap().command, "node");
    assert!(config.resolve("cobol").is_none());
}

#[test]
fn set_heading_level_validates_range() {
    let mut config = Config::default();
    assert_eq!(config.set_heading_level(3), Ok(()));
    assert_eq!(config.heading_level(), 3);
    assert_eq!(
        config.set_heading_level(0),
        Err(ParseError::InvalidHeadingLevel(0))
    );
    assert_eq!(
        config.set_heading_level(9),
        Err(ParseError::InvalidHeadingLevel(9))
    );
    assert_eq!(config.heading_level(), 3);
}

#[test]
fn override_changes_command() {
    let mut config = Config::default();
    let overrides = vec![String::from("python:python3.11")];
    config.apply_runtime_overrides(&overrides, None).unwrap();
    let py = config.resolve("python").unwrap();
    assert_eq!(py.command, "python3.11");
}

#[test]
fn override_without_mode_keeps_previous_mode() {
    let mut config = Config::default();
    let with_mode = vec![String::from("python:pyrun")];
    config
        .apply_runtime_overrides(&with_mode, Some(ExecutionMode::File))
        .unwrap();
    assert_eq!(config.resolve("python").unwrap().mode, ExecutionMode::File);
    let no_mode = vec![String::from("python:python3.11")];
    config.apply_runtime_overrides(&no_mode, None).unwrap();
    let py = config.resolve("python").unwrap();
    assert_eq!(py.command, "python3.11");
    assert_eq!(py.mode, ExecutionMode::File);
}

#[test]
fn applying_overrides_twice_equals_once() {
    let overrides = vec![
        String::from("python:python3.12"),
        String::from("go:go run"),
        String::from("python:python3.13"),
    ];
    let mut once = Config::default();
    once.apply_runtime_overrides(&overrides, None).unwrap();
    let mut twice = Config::default();
    twice.apply_runtime_overrides(&overrides, None).unwrap();
    twice.apply_runtime_overrides(&overrides, None).unwrap();
    for lang in ["python", "go", "bash", "ruby", "js"] {
        let a = once.resolve(lang);
        let b = twice.resolve(lang);
        assert_eq!(a, b);
    }
    assert_eq!(once.resolve("python").unwrap().command, "python3.13");
    assert_eq!(once.resolve("go").unwrap().command, "go run");
}

#[test]
fn override_command_may_contain_colons() {
    let mut config = Config::default();
    let overrides = vec![String::from("python:/opt/py:latest/bin/python")];
    config.apply_runtime_overrides(&overrides, None).unwrap();
    assert_eq!(
        config.resolve("python").unwrap().command,
        "/opt/py:latest/bin/python"
    );
}

#[test]
fn override_key_is_lowercased() {
    let mut config = Config::default();
    let overrides = vec![String::from("PyThOn:python3.11")];
    config.apply_runtime_overrides(&overrides, None).unwrap();
    assert_eq!(config.resolve("python").unwrap().command, "python3.11");
}

#[test]
fn malformed_overrides_are_named_and_leave_config_unchanged() {
    for bad in ["nocolon", ":cmd", "lang:", ":"] {
        let mut config = Config::default();
        let overrides = vec![String::from(bad)];
        assert_eq!(
            config.apply_runtime_overrides(&overrides, None),
            Err(ConfigError::MalformedOverride(String::from(bad)))
        );
        assert_eq!(config.resolve("python").unwrap().command, "python3");
    }
}

#[test]
fn new_language_without_mode_gets_default_mode() {
    let mut config = Config::default();
    let overrides = vec![String::from("go:go run")];
    config.apply_runtime_overrides(&overrides, None).unwrap();
    let go = config.resolve("go").unwrap();
    assert_eq!(go.command, "go run");
    assert_eq!(go.mode, ExecutionMode::Stdin);
}

#[test]
fn from_parts_builds_exact_table() {
    let rows = vec![
        (
            String::from("Python"),
            String::from("python3.10"),
            ExecutionMode::File,
        ),
        (String::from("sh"), String::from("dash"), ExecutionMode::Stdin),
    ];
    let config = Config::from_parts(4, rows, ExecutionMode::Arg).unwrap();
    assert_eq!(config.heading_level(), 4);
    assert_eq!(config.default_mode(), ExecutionMode::Arg);
    let py = config.resolve("python").unwrap();
    assert_eq!(py.command, "python3.10");
    assert_eq!(py.mode, ExecutionMode::File);
    assert_eq!(config.resolve("sh").unwrap().command, "dash");
    assert!(config.resolve("bash").is_none());
}

#[test]
fn from_parts_rejects_bad_level() {
    let r = Config::from_parts(0, Vec::new(), ExecutionMode::Stdin);
    assert_eq!(r.unwrap_err(), ParseError::InvalidHeadingLevel(0));
}
