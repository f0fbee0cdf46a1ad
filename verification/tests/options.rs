//! Settings from the environment, the command line and the configuration file.

use rime_poc::config::{
    AppConfig, CandidateLayout, ConfigError, ConversionMode, RuntimeOptionsError, Setting,
    SettingsError,
};
use rime_poc::data_dirs::{shared_data, user_data, Installed, Named, SharedData, UserData};
use rime_poc::options::{
    config_source, env_flag, next_arg, parse_i32, parse_usize, trimmed_lower, ConfigSource,
    Environment, FileConfig, Options, Settings, Task,
};
use rime_poc::permissions::{permission_step, user_gives_up, Permission, PermissionStep};
use rime_poc::triggers::{extract_body, ExtractError};
use rime_poc::tokens::{
    body_has_pinyin, ensure_body_has_pinyin, normalize_pinyin_run, pending_pinyin_for_preview,
};
use rime_poc::validation::{
    parse_interaction_key, validate_config, validate_runtime_options, validate_trigger_part,
};

fn no_environment() -> Environment {
    Environment {
        schema: None,
        log_events: None,
        conversion_mode: None,
        candidate_layout: None,
        candidate_count: None,
        max_buffer_chars: None,
        inject_delay_ms: None,
    }
}

fn defaults() -> Settings {
    Settings::from_environment(no_environment()).unwrap()
}

fn parse(args: &[&str]) -> Result<Option<Settings>, SettingsError> {
    let args: Vec<String> = args.iter().map(|arg| arg.to_string()).collect();
    defaults().parse(&args)
}

fn options(args: &[&str]) -> Result<Options, SettingsError> {
    parse(args)?.unwrap().with_config(AppConfig::default())
}

#[test]
fn an_empty_environment_gives_the_defaults() {
    let settings = defaults();
    assert_eq!(settings.schema, "luna_pinyin_simp");
    assert_eq!(settings.max_buffer_chars, 4096);
    assert_eq!(settings.inject_delay_ms, 1);
    assert!(!settings.log_events);
    assert_eq!(settings.conversion_mode, None);
    assert_eq!(settings.candidate_layout, None);
    assert_eq!(settings.candidate_count, None);
}

#[test]
fn the_environment_is_read() {
    let settings = Settings::from_environment(Environment {
        schema: Some("pinyin_simp".to_owned()),
        log_events: Some("1".to_owned()),
        conversion_mode: Some("auto".to_owned()),
        candidate_layout: Some("v".to_owned()),
        candidate_count: Some("7".to_owned()),
        max_buffer_chars: Some("64".to_owned()),
        inject_delay_ms: Some("-3".to_owned()),
    })
    .unwrap();
    assert_eq!(settings.schema, "pinyin_simp");
    assert!(settings.log_events);
    assert_eq!(settings.conversion_mode, Some(ConversionMode::RimeAuto));
    assert_eq!(settings.candidate_layout, Some(CandidateLayout::Vertical));
    assert_eq!(settings.candidate_count, Some(7));
    assert_eq!(settings.max_buffer_chars, 64);
    assert_eq!(settings.inject_delay_ms, -3);
}

#[test]
fn the_first_bad_value_of_the_environment_is_complained_about() {
    let bad = Some("bad".to_owned());
    let mut environment = Environment {
        conversion_mode: bad.clone(),
        candidate_layout: bad.clone(),
        candidate_count: bad.clone(),
        max_buffer_chars: bad.clone(),
        inject_delay_ms: bad,
        ..no_environment()
    };
    let error = |environment: Environment| Settings::from_environment(environment).unwrap_err().message();
    let copy = |from: &Environment| Environment {
        schema: from.schema.clone(),
        log_events: from.log_events.clone(),
        conversion_mode: from.conversion_mode.clone(),
        candidate_layout: from.candidate_layout.clone(),
        candidate_count: from.candidate_count.clone(),
        max_buffer_chars: from.max_buffer_chars.clone(),
        inject_delay_ms: from.inject_delay_ms.clone(),
    };
    assert_eq!(
        error(copy(&environment)),
        "invalid conversion mode \"bad\"; expected \"segmented\" or \"rime-auto\""
    );
    environment.conversion_mode = None;
    assert_eq!(
        error(copy(&environment)),
        "invalid candidate layout \"bad\"; expected \"horizontal\" or \"vertical\""
    );
    environment.candidate_layout = None;
    assert_eq!(
        error(copy(&environment)),
        "failed to parse RIME_POC_CANDIDATE_COUNT as a positive integer"
    );
    environment.candidate_count = None;
    assert_eq!(
        error(copy(&environment)),
        "failed to parse RIME_POC_MAX_BUFFER_CHARS as a positive integer"
    );
    environment.max_buffer_chars = None;
    assert_eq!(
        error(copy(&environment)),
        "failed to parse RIME_POC_INJECT_DELAY_MS as an integer"
    );
    environment.inject_delay_ms = None;
    assert!(Settings::from_environment(environment).is_ok());
}

#[test]
fn switches_in_the_environment() {
    for off in ["", "  ", "0", " 0 ", "false", "FALSE", "No", "\tno\n"] {
        assert!(!env_flag(&Some(off.to_owned())), "{off:?}");
    }
    for on in ["1", "yes", "true", "00", "nope"] {
        assert!(env_flag(&Some(on.to_owned())), "{on:?}");
    }
    assert!(!env_flag(&None));
    assert_eq!(trimmed_lower("\u{3000} Ab C\n"), "ab c");
}

#[test]
fn the_command_line_overrides_the_environment() {
    let settings = parse(&[
        "--shared-data-dir", "/s", "--user-data-dir", "/u", "--schema", "other", "--config", "c.toml",
        "--conversion-mode", "rime_auto", "--candidate-layout", "h", "--candidate-count", "3",
        "--listen", "--log-events", "--max-buffer-chars", "32", "--inject-delay-ms", "5", "--body",
        "--doctor", "wo", "ai", "ni",
    ])
    .unwrap()
    .unwrap();
    assert_eq!(settings.shared_data_dir.as_deref(), Some("/s"));
    assert_eq!(settings.user_data_dir.as_deref(), Some("/u"));
    assert_eq!(settings.schema, "other");
    assert_eq!(settings.config_path.as_deref(), Some("c.toml"));
    assert_eq!(settings.conversion_mode, Some(ConversionMode::RimeAuto));
    assert_eq!(settings.candidate_layout, Some(CandidateLayout::Horizontal));
    assert_eq!(settings.candidate_count, Some(3));
    assert!(settings.listen && settings.log_events && settings.body_mode && settings.doctor);
    assert_eq!(settings.max_buffer_chars, 32);
    assert_eq!(settings.inject_delay_ms, 5);
    assert_eq!(settings.input, "wo ai ni");
}

#[test]
fn input_parts_are_joined_with_spaces() {
    assert_eq!(parse(&[]).unwrap().unwrap().input, "");
    assert_eq!(parse(&[""]).unwrap().unwrap().input, "");
    assert_eq!(parse(&["", "a"]).unwrap().unwrap().input, " a");
    assert_eq!(parse(&["-x", "a b", "-"]).unwrap().unwrap().input, "-x a b -");
    assert_eq!(parse(&["--schema", "--listen"]).unwrap().unwrap().schema, "--listen");
}

#[test]
fn arguments_are_read_from_left_to_right() {
    let settings = parse(&["--candidate-count", "3", "--candidate-count", "4"]).unwrap().unwrap();
    assert_eq!(settings.candidate_count, Some(4));
    assert_eq!(parse(&["a", "-h", "--nonsense"]), Ok(None));
    assert_eq!(parse(&["--help"]), Ok(None));
    assert_eq!(
        parse(&["--nonsense", "-h"]).unwrap_err().message(),
        "unknown option: --nonsense"
    );
    let whole = parse(&["--listen", "a", "--schema", "s", "b"]).unwrap();
    let first = parse(&["--listen", "a"]).unwrap().unwrap();
    let second: Vec<String> = ["--schema", "s", "b"].iter().map(|arg| arg.to_string()).collect();
    assert_eq!(first.parse(&second).unwrap(), whole);
}

#[test]
fn options_want_their_values() {
    for flag in ["--shared-data-dir", "--user-data-dir", "--schema", "--config", "--conversion-mode",
        "--candidate-layout", "--candidate-count", "--max-buffer-chars", "--inject-delay-ms"]
    {
        assert_eq!(parse(&[flag]).unwrap_err().message(), format!("missing value for {flag}"));
    }
    assert_eq!(
        parse(&["--candidate-count", "x"]).unwrap_err().message(),
        "failed to parse --candidate-count as a positive integer"
    );
    assert_eq!(
        parse(&["--inject-delay-ms", "x"]).unwrap_err().message(),
        "failed to parse --inject-delay-ms as an integer"
    );
    assert!(parse(&["--conversion-mode", "x"]).is_err());
    assert!(parse(&["--candidate-layout", "x"]).is_err());
    assert_eq!(next_arg(&["v".to_owned()], 0, "--schema"), Ok("v".to_owned()));
    assert_eq!(parse_usize("12", "n"), Ok(12));
    assert_eq!(parse_i32("-12", "n"), Ok(-12));
}

#[test]
fn accepted_options_are_valid() {
    let accepted = options(&["--candidate-count", "10", "--conversion-mode", "auto", ";;wo;;"]).unwrap();
    assert_eq!(accepted.config.candidate_count, 10);
    assert_eq!(accepted.config.conversion_mode, ConversionMode::RimeAuto);
    assert_eq!(accepted.input, ";;wo;;");
    assert!(validate_config(&accepted.config).is_ok());

    let error = |args: &[&str]| options(args).unwrap_err().message();
    assert_eq!(error(&["--candidate-count", "0"]), "candidate count must be at least 1");
    assert_eq!(
        error(&["--candidate-count", "11"]),
        "candidate_count (11) exceeds candidate_select_keys capacity (10)"
    );
    assert_eq!(error(&["--max-buffer-chars", "15"]), "max buffer chars must be at least 16");
    assert_eq!(
        error(&["--inject-delay-ms", "-1"]),
        "inject delay must be greater than or equal to 0"
    );
    assert_eq!(
        validate_runtime_options(16, 0, 11),
        Err(RuntimeOptionsError::CountTooLarge)
    );
    assert_eq!(
        RuntimeOptionsError::CountTooLarge.message(),
        "candidate count must be at most 10"
    );
}

#[test]
fn a_file_that_sets_nothing_gives_the_default_configuration() {
    let config = FileConfig::default().resolve().unwrap();
    assert_eq!(config, AppConfig::default());
    assert!(validate_config(&config).is_ok());
}

#[test]
fn a_file_sets_what_it_names() {
    let config = FileConfig {
        trigger_prefix: Some("[[".to_owned()),
        conversion_mode: Some("segment".to_owned()),
        candidate_layout: Some("vertical".to_owned()),
        candidate_count: Some(2),
        ..FileConfig::default()
    }
    .resolve()
    .unwrap();
    assert_eq!(config.trigger_prefix, "[[");
    assert_eq!(config.trigger_suffix, ";;");
    assert_eq!(config.conversion_mode, ConversionMode::Segmented);
    assert_eq!(config.candidate_layout, CandidateLayout::Vertical);
    assert_eq!(config.candidate_count, 2);

    let error = FileConfig {
        conversion_mode: Some("x".to_owned()),
        candidate_layout: Some("y".to_owned()),
        ..FileConfig::default()
    }
    .resolve()
    .unwrap_err();
    assert_eq!(error, SettingsError::ConversionMode { value: "x".to_owned() });
}

#[test]
fn names_of_modes_and_layouts_read_back() {
    for mode in [ConversionMode::Segmented, ConversionMode::RimeAuto] {
        assert_eq!(ConversionMode::parse(mode.as_str()), Ok(mode));
    }
    for layout in [CandidateLayout::Horizontal, CandidateLayout::Vertical] {
        assert_eq!(CandidateLayout::parse(layout.as_str()), Ok(layout));
    }
}

#[test]
fn the_nearest_configuration_is_taken() {
    assert_eq!(config_source(true, true, true, true), ConfigSource::Named);
    assert_eq!(config_source(false, true, true, true), ConfigSource::Environment);
    assert_eq!(config_source(false, false, true, true), ConfigSource::CurrentDirectory);
    assert_eq!(config_source(false, false, false, true), ConfigSource::Packaged);
    assert_eq!(config_source(false, false, false, false), ConfigSource::Defaults);
}

#[test]
fn data_directories_are_taken_in_order() {
    let named = |by_option, by_environment, packaged| Named { by_option, by_environment, packaged };
    let installed = |squirrel, homebrew, local, system| Installed {
        squirrel,
        homebrew,
        local,
        system,
    };
    let all = installed(true, true, true, true);
    assert_eq!(shared_data(named(true, true, true), all), SharedData::ByOption);
    assert_eq!(shared_data(named(false, true, true), all), SharedData::ByEnvironment);
    assert_eq!(shared_data(named(false, false, true), all), SharedData::Packaged);
    let none = named(false, false, false);
    assert_eq!(shared_data(none, all), SharedData::Squirrel);
    assert_eq!(shared_data(none, installed(false, true, true, true)), SharedData::Homebrew);
    assert_eq!(shared_data(none, installed(false, false, true, true)), SharedData::Local);
    assert_eq!(shared_data(none, installed(false, false, false, true)), SharedData::System);
    assert_eq!(shared_data(none, installed(false, false, false, false)), SharedData::Homebrew);

    assert_eq!(user_data(named(true, true, true), true), UserData::ByOption);
    assert_eq!(user_data(named(false, true, true), true), UserData::ByEnvironment);
    assert_eq!(user_data(named(false, false, true), true), UserData::Packaged);
    assert_eq!(user_data(none, true), UserData::Home);
    assert_eq!(user_data(none, false), UserData::Fallback);
}

#[test]
fn a_run_without_input_is_for_nothing() {
    let task = |args: &[&str]| {
        let args: Vec<String> = args.iter().map(|arg| arg.to_string()).collect();
        let settings = Settings::from_environment(no_environment()).unwrap();
        let settings = settings.parse(&args).unwrap().unwrap();
        settings.with_config(AppConfig::default()).unwrap().task()
    };
    assert_eq!(task(&[]), Task::Refuse);
    assert_eq!(task(&["--doctor"]), Task::Doctor);
    assert_eq!(task(&["--listen"]), Task::Listen);
    assert_eq!(task(&["--doctor", "--listen"]), Task::Listen);
    assert_eq!(task(&["--doctor", ";;wo;;"]), Task::Convert);
    assert_eq!(task(&[";;wo;;"]), Task::Convert);
    assert_eq!(task(&["--listen", ";;wo;;"]), Task::Listen);
}

#[test]
fn every_configuration_error_has_its_message() {
    let refused = |config: AppConfig| validate_config(&config).unwrap_err();
    let base = AppConfig::default;

    let error = refused(AppConfig { trigger_prefix: String::new(), ..base() });
    assert_eq!(error, ConfigError::EmptyTrigger { setting: Setting::TriggerPrefix });
    assert_eq!(error.message(), "trigger_prefix cannot be empty");

    let error = refused(AppConfig { trigger_suffix: ";…".to_owned(), ..base() });
    assert_eq!(error.message(), "trigger_suffix contains reserved separator character: '…'");

    let error = refused(AppConfig { candidate_select_keys: String::new(), ..base() });
    assert_eq!(error, ConfigError::NoSelectKeys);
    assert_eq!(error.message(), "candidate_select_keys must not be empty");

    let error = refused(AppConfig { candidate_page_previous_key: "\u{7f}".to_owned(), ..base() });
    assert_eq!(
        error.message(),
        "candidate_page_previous_key must contain exactly one printable character"
    );

    let error = refused(AppConfig { english_commit_key: "'".to_owned(), ..base() });
    assert_eq!(
        error.message(),
        "english_commit_key must not be an ASCII pinyin character: '\\''"
    );

    let error = refused(AppConfig { candidate_page_next_key: "7".to_owned(), ..base() });
    assert_eq!(
        error.message(),
        "candidate_page_next_key conflicts with candidate_select_keys: '7'"
    );

    let error = refused(AppConfig { candidate_page_next_key: ";".to_owned(), ..base() });
    assert_eq!(
        error.message(),
        "candidate_page_next_key conflicts with a trigger character: ';'"
    );

    let error = refused(AppConfig { trigger_prefix: "1;".to_owned(), ..base() });
    assert_eq!(
        error.message(),
        "candidate_select_keys conflicts with a trigger character: '1'"
    );

    assert_eq!(
        ConfigError::KeysNotDistinct.message(),
        "candidate page keys and english_commit_key must be distinct"
    );
    assert_eq!(
        ConfigError::SelectKeyNotDigit.message(),
        "candidate_select_keys must contain only ASCII digits"
    );
    assert_eq!(
        ConfigError::DuplicateSelectKey.message(),
        "candidate_select_keys must not contain duplicate digits"
    );
    assert_eq!(
        ConfigError::EmptyKey { setting: Setting::EnglishCommitKey }.message(),
        "english_commit_key must contain exactly one character"
    );
}

#[test]
fn parts_of_the_configuration_are_checked_alone() {
    assert_eq!(validate_trigger_part(Setting::TriggerPrefix, ";; "), Ok(()));
    assert_eq!(parse_interaction_key(Setting::EnglishCommitKey, "\\"), Ok('\\'));
    assert_eq!(
        parse_interaction_key(Setting::EnglishCommitKey, "ab"),
        Err(ConfigError::NotOnePrintableKey { setting: Setting::EnglishCommitKey })
    );
}

#[test]
fn a_body_stands_between_the_triggers() {
    let config = AppConfig {
        trigger_prefix: "[[".to_owned(),
        trigger_suffix: "]]".to_owned(),
        ..AppConfig::default()
    };
    assert_eq!(extract_body("[[]]", &config, false).unwrap(), "");
    assert_eq!(extract_body("wo", &config, true).unwrap(), "wo");
    let error = extract_body("wo]]", &config, false).unwrap_err();
    assert_eq!(error, ExtractError::MissingPrefix { prefix: "[[".to_owned() });
    assert_eq!(
        error.message(),
        "input does not start with configured trigger_prefix: \"[[\""
    );
    let error = extract_body("[[wo", &config, false).unwrap_err();
    assert_eq!(
        error.message(),
        "input does not end with configured trigger_suffix: \"]]\""
    );
    let error = extract_body(";;;", &AppConfig::default(), false).unwrap_err();
    assert_eq!(error, ExtractError::TooShort);
    assert_eq!(error.message(), "input is shorter than configured triggers");
}

#[test]
fn pinyin_is_found_in_a_body() {
    assert!(body_has_pinyin("1,a"));
    assert!(!body_has_pinyin("1,''"));
    assert!(ensure_body_has_pinyin("a").is_ok());
    assert_eq!(
        ensure_body_has_pinyin("…").unwrap_err().message(),
        "input body has no pinyin runs"
    );
    assert_eq!(normalize_pinyin_run("Xi'an 1"), "xi'an");
    assert_eq!(pending_pinyin_for_preview("wo,Ni'"), "ni'");
    assert_eq!(pending_pinyin_for_preview("wo,'"), "wo");
    assert_eq!(pending_pinyin_for_preview("1"), "");
}

#[test]
fn asking_for_a_permission() {
    let line = |text: &str| Some(text.to_owned());
    assert!(user_gives_up(&None));
    assert!(user_gives_up(&line(" Q \n")));
    assert!(!user_gives_up(&line("\n")));
    assert_eq!(permission_step(&line("q"), true), PermissionStep::Refused);
    assert_eq!(permission_step(&line("\n"), true), PermissionStep::Granted);
    assert_eq!(permission_step(&line("\n"), false), PermissionStep::AskAgain);
    assert_eq!(
        Permission::Accessibility.refusal(),
        "Accessibility permission was not granted"
    );
    assert_eq!(
        Permission::InputMonitoring.refusal(),
        "Input Monitoring permission was not granted"
    );
}
