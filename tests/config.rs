use lilgrep::config::{Config, ConfigError};

fn args(items: &[&str]) -> Vec<String> {
    items.iter().map(|s| s.to_string()).collect()
}

#[test]
fn query_and_path_from_the_end() {
    let config = Config::build(args(&["prog", "duct", "poem.txt"]), false).unwrap();
    assert_eq!(
        Config {
            query: "duct".to_string(),
            file_path: "poem.txt".to_string(),
            ignore_case: false,
        },
        config
    );
}

#[test]
fn flag_before_query_ignores_case() {
    let config = Config::build(args(&["prog", "--ignore-case", "rUsT", "poem.txt"]), false).unwrap();
    assert_eq!("rUsT", config.query);
    assert_eq!("poem.txt", config.file_path);
    assert!(config.ignore_case);
}

#[test]
fn environment_ignores_case() {
    let config = Config::build(args(&["prog", "duct", "poem.txt"]), true).unwrap();
    assert!(config.ignore_case);
    let config = Config::build(args(&["prog", "--ignore-case", "duct", "poem.txt"]), true).unwrap();
    assert!(config.ignore_case);
}

#[test]
fn flag_in_query_position_is_the_query() {
    let config = Config::build(args(&["prog", "--ignore-case", "poem.txt"]), false).unwrap();
    assert_eq!("--ignore-case", config.query);
    assert!(!config.ignore_case);
}

#[test]
fn other_leading_arguments_are_ignored() {
    let config = Config::build(args(&["prog", "-v", "--other", "q", "f"]), false).unwrap();
    assert_eq!("q", config.query);
    assert_eq!("f", config.file_path);
    assert!(!config.ignore_case);
}

#[test]
fn missing_arguments() {
    assert_eq!(Err(ConfigError::MissingFilePath), Config::build(args(&["prog"]), false));
    assert_eq!(Err(ConfigError::MissingFilePath), Config::build(args(&[]), false));
    assert_eq!(Err(ConfigError::MissingQuery), Config::build(args(&["prog", "onlyone"]), false));
}

#[test]
fn error_messages() {
    assert_eq!("Didn't get a file path", ConfigError::MissingFilePath.message());
    assert_eq!("Didn't get a query string", ConfigError::MissingQuery.message());
}
