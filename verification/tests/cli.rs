use hypr_workstyle::args::{parse_level, Args, CliError, Invocation, LogLevel, Parsed};

fn words(items: &[&str]) -> Vec<String> {
    items.iter().map(|s| String::from(*s)).collect()
}

fn read(items: &[&str]) -> Parsed {
    Args::from_cli(&words(items), Some(String::from("/home/u/.config/sworkstyle/config.toml")))
}

fn run(parsed: Parsed) -> Args {
    match parsed.invocation {
        Invocation::Run(args) => args,
        _ => panic!("the command line does not run"),
    }
}

fn error(parsed: Parsed) -> CliError {
    match parsed.invocation {
        Invocation::Invalid(error) => error,
        _ => panic!("the command line is not in error"),
    }
}

#[test]
fn cli_no_words_gives_the_defaults() {
    let args = run(read(&[]));
    assert_eq!(args.log_level, LogLevel::Warn);
    assert_eq!(args.config_path, Some(String::from("/home/u/.config/sworkstyle/config.toml")));
    assert!(!args.deduplicate);
}

#[test]
fn cli_without_a_default_path_has_none() {
    let parsed = Args::from_cli(&words(&[]), None);
    assert!(parsed.config_paths.is_empty());
    assert_eq!(run(parsed).config_path, None);
}

#[test]
fn cli_help_in_both_spellings() {
    assert!(matches!(read(&["-h"]).invocation, Invocation::Help));
    assert!(matches!(read(&["--help"]).invocation, Invocation::Help));
}

#[test]
fn cli_version_in_both_spellings() {
    assert!(matches!(read(&["-v"]).invocation, Invocation::Version));
    assert!(matches!(read(&["--version"]).invocation, Invocation::Version));
}

#[test]
fn cli_deduplicate_in_both_spellings() {
    assert!(run(read(&["-d"])).deduplicate);
    assert!(run(read(&["--deduplicate"])).deduplicate);
}

#[test]
fn cli_every_log_level() {
    assert_eq!(run(read(&["-l", "error"])).log_level, LogLevel::Error);
    assert_eq!(run(read(&["-l", "warn"])).log_level, LogLevel::Warn);
    assert_eq!(run(read(&["-l", "info"])).log_level, LogLevel::Info);
    assert_eq!(run(read(&["--log-level", "debug"])).log_level, LogLevel::Debug);
    assert_eq!(run(read(&["--log-level", "off"])).log_level, LogLevel::Off);
}

#[test]
fn cli_invalid_log_level() {
    match error(read(&["-l", "loud"])) {
        CliError::InvalidLogLevel(word) => assert_eq!(word, "loud"),
        _ => panic!("another error"),
    }
    match error(read(&["-l", "trace"])) {
        CliError::InvalidLogLevel(word) => assert_eq!(word, "trace"),
        _ => panic!("another error"),
    }
}

#[test]
fn cli_missing_log_level() {
    assert!(matches!(error(read(&["-l"])), CliError::MissingLogLevel));
    assert!(matches!(error(read(&["-d", "--log-level"])), CliError::MissingLogLevel));
}

#[test]
fn cli_missing_config_path() {
    assert!(matches!(error(read(&["-c"])), CliError::MissingConfigPath));
    assert!(matches!(error(read(&["--config"])), CliError::MissingConfigPath));
}

#[test]
fn cli_unknown_option() {
    match error(read(&["--frobnicate"])) {
        CliError::UnknownOption(word) => assert_eq!(word, "--frobnicate"),
        _ => panic!("another error"),
    }
    match error(read(&["-d", "stray"])) {
        CliError::UnknownOption(word) => assert_eq!(word, "stray"),
        _ => panic!("another error"),
    }
}

#[test]
fn cli_config_path_overrides_the_default_and_is_listed() {
    let parsed = read(&["-c", "/tmp/a.toml"]);
    assert_eq!(parsed.config_paths, vec![String::from("/tmp/a.toml")]);
    assert_eq!(run(parsed).config_path, Some(String::from("/tmp/a.toml")));
}

#[test]
fn cli_later_flags_override_earlier_ones() {
    let parsed = read(&["-c", "a", "-l", "info", "--config", "b", "-l", "debug", "-d"]);
    assert_eq!(parsed.config_paths, vec![String::from("a"), String::from("b")]);
    let args = run(parsed);
    assert_eq!(args.config_path, Some(String::from("b")));
    assert_eq!(args.log_level, LogLevel::Debug);
    assert!(args.deduplicate);
}

#[test]
fn cli_reading_stops_at_the_first_word_that_ends_it() {
    let parsed = read(&["-c", "a", "-h", "-c", "b", "--bogus"]);
    assert!(matches!(parsed.invocation, Invocation::Help));
    assert_eq!(parsed.config_paths, vec![String::from("a")]);
    let parsed = read(&["--bogus", "-h"]);
    assert!(matches!(parsed.invocation, Invocation::Invalid(CliError::UnknownOption(_))));
    let parsed = read(&["-v", "-h"]);
    assert!(matches!(parsed.invocation, Invocation::Version));
}

#[test]
fn cli_an_operand_is_not_read_as_a_flag() {
    let parsed = read(&["-c", "-h"]);
    assert_eq!(parsed.config_paths, vec![String::from("-h")]);
    assert_eq!(run(parsed).config_path, Some(String::from("-h")));
    match error(read(&["-l", "-d"])) {
        CliError::InvalidLogLevel(word) => assert_eq!(word, "-d"),
        _ => panic!("another error"),
    }
}

#[test]
fn cli_flags_are_matched_exactly() {
    assert!(matches!(error(read(&["-H"])), CliError::UnknownOption(_)));
    assert!(matches!(error(read(&["--help "])), CliError::UnknownOption(_)));
    assert!(matches!(error(read(&[""])), CliError::UnknownOption(_)));
}

#[test]
fn parse_level_names() {
    assert_eq!(parse_level(&String::from("error")), Some(LogLevel::Error));
    assert_eq!(parse_level(&String::from("off")), Some(LogLevel::Off));
    assert_eq!(parse_level(&String::from("Error")), None);
    assert_eq!(parse_level(&String::from("")), None);
}
