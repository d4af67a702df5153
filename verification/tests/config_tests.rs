use minigrep::Config;
use minigrep::ConfigError;

fn strings(parts: &[&str]) -> Vec<String> {
    parts.iter().map(|p| p.to_string()).collect()
}

#[test]
#[should_panic]
fn config_check_error() {
    Config::new(&vec![String::from("test")], false).unwrap();
}

#[test]
fn config_check_success() {
    Config::new(
        &vec![
            String::from("test"),
            String::from("very"),
            String::from("nice"),
        ],
        false,
    )
    .unwrap();

    Config::new(
        &vec![
            String::from("test"),
            String::from("very"),
            String::from("nice"),
            String::from("true"),
        ],
        false,
    )
    .unwrap();
}

#[test]
fn too_few_arguments_are_missing_arguments() {
    let r = Config::new(&strings(&["prog", "q"]), false);
    assert!(matches!(r, Err(ConfigError::MissingArguments)));
    let r = Config::new(&strings(&["prog"]), false);
    assert!(matches!(r, Err(ConfigError::MissingArguments)));
    let r = Config::new(&strings(&[]), true);
    assert!(matches!(r, Err(ConfigError::MissingArguments)));
}

#[test]
fn query_and_filename_taken_verbatim() {
    let config = Config::new(&strings(&["prog", "q", "file.txt"]), false).unwrap();
    assert_eq!(config.query, "q");
    assert_eq!(config.filename, "file.txt");
}

#[test]
fn unparseable_flag_is_invalid_flag() {
    let r = Config::new(&strings(&["prog", "q", "file.txt", "notabool"]), false);
    assert!(matches!(r, Err(ConfigError::InvalidFlag)));
    let r = Config::new(&strings(&["prog", "q", "file.txt", "True"]), false);
    assert!(matches!(r, Err(ConfigError::InvalidFlag)));
    let r = Config::new(&strings(&["prog", "q", "file.txt", ""]), true);
    assert!(matches!(r, Err(ConfigError::InvalidFlag)));
}

#[test]
fn flag_overrides_environment() {
    let config = Config::new(&strings(&["prog", "q", "f", "false"]), false).unwrap();
    assert!(!config.case_sensitive);
    let config = Config::new(&strings(&["prog", "q", "f", "true"]), true).unwrap();
    assert!(config.case_sensitive);
    let config = Config::new(&strings(&["prog", "q", "f", "false"]), true).unwrap();
    assert!(!config.case_sensitive);
    let config = Config::new(&strings(&["prog", "q", "f", "true"]), false).unwrap();
    assert!(config.case_sensitive);
}

#[test]
fn environment_sets_the_default() {
    let config = Config::new(&strings(&["prog", "q", "f"]), false).unwrap();
    assert!(config.case_sensitive);
    let config = Config::new(&strings(&["prog", "q", "f"]), true).unwrap();
    assert!(!config.case_sensitive);
}

#[test]
fn error_messages_describe_usage() {
    assert_eq!(
        ConfigError::MissingArguments.message(),
        "expected 2 arguments: <query> <filename>"
    );
    assert_eq!(
        ConfigError::InvalidFlag.message(),
        "failed to parse the case sensitivity flag: expected true or false"
    );
}
