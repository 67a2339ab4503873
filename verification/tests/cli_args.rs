use blippy::cli::{parse_args, CliCommand, USAGE};

#[test]
fn parse_args_returns_auth_reset() {
    let args = vec![
        "blippy".to_string(),
        "auth".to_string(),
        "reset".to_string(),
    ];

    let parsed = parse_args(&args).expect("parse succeeds");
    assert_eq!(parsed, Some(CliCommand::AuthReset));
}

#[test]
fn parse_args_returns_none_for_empty() {
    let args = vec!["blippy".to_string()];
    let parsed = parse_args(&args).expect("parse succeeds");
    assert_eq!(parsed, None);
}

#[test]
fn parse_args_returns_cache_reset() {
    let args = vec![
        "blippy".to_string(),
        "cache".to_string(),
        "reset".to_string(),
    ];

    let parsed = parse_args(&args).expect("parse succeeds");
    assert_eq!(parsed, Some(CliCommand::CacheReset));
}

#[test]
fn parse_args_returns_sync() {
    let args = vec!["blippy".to_string(), "sync".to_string()];
    let parsed = parse_args(&args).expect("parse succeeds");
    assert_eq!(parsed, Some(CliCommand::Sync));
}

#[test]
fn parse_args_returns_version() {
    let args = vec!["blippy".to_string(), "--version".to_string()];
    let parsed = parse_args(&args).expect("parse succeeds");
    assert_eq!(parsed, Some(CliCommand::Version));
}

#[test]
fn parse_args_returns_short_version() {
    let args = vec!["blippy".to_string(), "-V".to_string()];
    let parsed = parse_args(&args).expect("parse succeeds");
    assert_eq!(parsed, Some(CliCommand::Version));
}

#[test]
fn parse_args_returns_help() {
    let args = vec!["blippy".to_string(), "--help".to_string()];
    let parsed = parse_args(&args).expect("parse succeeds");
    assert_eq!(parsed, Some(CliCommand::Help));
}

#[test]
fn parse_args_rejects_unknown_commands() {
    let args = vec!["blippy".to_string(), "typo".to_string()];
    let error = parse_args(&args).expect_err("unknown command fails");
    assert!(error.message().contains("Unknown command: typo"));
}

#[test]
fn parse_args_rejects_extra_arguments() {
    let args = vec![
        "blippy".to_string(),
        "cache".to_string(),
        "reset".to_string(),
        "extra".to_string(),
    ];
    assert!(parse_args(&args).is_err());
}

#[test]
fn parse_args_error_names_all_words_and_shows_usage() {
    let args = vec!["blippy".to_string(), "cache".to_string(), "clear".to_string()];
    let error = parse_args(&args).expect_err("unknown command fails");
    assert_eq!(error.message(), format!("Unknown command: cache clear\n\n{}", USAGE));
}

#[test]
fn parse_args_accepts_short_and_word_help() {
    for word in ["-h", "help"] {
        let args = vec!["blippy".to_string(), word.to_string()];
        assert_eq!(parse_args(&args).expect("parse"), Some(CliCommand::Help));
    }
}

#[test]
fn parse_args_without_program_name_is_none() {
    let args: Vec<String> = Vec::new();
    assert_eq!(parse_args(&args).expect("parse"), None);
}
