use minigrep::search_with_config;
use minigrep::Config;
use minigrep::ConfigError;

#[test]
fn config_missing_query() {
    let r = Config::new(vec!["prog".to_string()], false);

    assert_eq!(r.err(), Some(ConfigError::MissingQuery));
}

#[test]
fn config_empty_args_missing_query() {
    let r = Config::new(Vec::new(), false);

    assert_eq!(r.err(), Some(ConfigError::MissingQuery));
}

#[test]
fn config_missing_filename() {
    let r = Config::new(vec!["prog".to_string(), "q".to_string()], false);

    assert_eq!(r.err(), Some(ConfigError::MissingFilename));
}

#[test]
fn config_defaults_to_case_sensitive() {
    let args = vec!["prog".to_string(), "q".to_string(), "f.txt".to_string()];
    let config = Config::new(args, false).unwrap();

    assert_eq!(config.query, "q");
    assert_eq!(config.filename, "f.txt");
    assert!(config.case_sensitive);
}

#[test]
fn config_env_presence_disables_case_sensitivity() {
    let args = vec!["prog".to_string(), "q".to_string(), "f.txt".to_string()];
    let config = Config::new(args, true).unwrap();

    assert!(!config.case_sensitive);
}

#[test]
fn config_ignores_extra_arguments() {
    let args = vec![
        "prog".to_string(),
        "q".to_string(),
        "f.txt".to_string(),
        "extra".to_string(),
    ];
    let config = Config::new(args, false).unwrap();

    assert_eq!(config.query, "q");
    assert_eq!(config.filename, "f.txt");
}

#[test]
fn config_error_messages_differ() {
    assert_eq!(
        ConfigError::MissingQuery.message(),
        "Didn't get a query string"
    );
    assert_eq!(
        ConfigError::MissingFilename.message(),
        "Didn't get a file name"
    );
    assert_ne!(
        ConfigError::MissingQuery.message(),
        ConfigError::MissingFilename.message()
    );
}

#[test]
fn search_with_config_dispatches_on_case_sensitivity() {
    let contents = "Rust:\nTrust me.";

    let args = vec!["prog".to_string(), "rUsT".to_string(), "f".to_string()];
    let sensitive = Config::new(args, false).unwrap();
    assert_eq!(Vec::<&str>::new(), search_with_config(&sensitive, contents));

    let args = vec!["prog".to_string(), "rUsT".to_string(), "f".to_string()];
    let insensitive = Config::new(args, true).unwrap();
    assert_eq!(
        vec!["Rust:", "Trust me."],
        search_with_config(&insensitive, contents)
    );
}
