//! Configuration, triggers and input sources.

use rime_poc::config::{
    AppConfig, CandidateInteractionKey, CandidateLayout, ConversionMode, DEFAULT_CANDIDATE_COUNT,
    DEFAULT_CANDIDATE_PAGE_PREVIOUS_KEY, DEFAULT_CANDIDATE_SELECT_KEYS, MAX_CANDIDATE_COUNT,
};
use rime_poc::options::FileConfig;
use rime_poc::sources::input_source_is_system;
use rime_poc::triggers::extract_body;
use rime_poc::validation::{validate_config, validate_runtime_options};

#[test]
fn extracts_body_with_configured_triggers() {
    let config = AppConfig {
        trigger_prefix: "[[".to_owned(),
        trigger_suffix: "]]".to_owned(),
        ..AppConfig::default()
    };

    let body = extract_body("[[woyaoceshi]]", &config, false).unwrap();

    assert_eq!(body, "woyaoceshi");
}

#[test]
fn rejects_reserved_trigger_chars() {
    let config = AppConfig {
        trigger_prefix: ";;".to_owned(),
        trigger_suffix: "?".to_owned(),
        ..AppConfig::default()
    };

    let error = validate_config(&config).unwrap_err().message();

    assert!(error.contains("trigger_suffix"));

    let config = AppConfig {
        trigger_prefix: "!".to_owned(),
        trigger_suffix: ";;".to_owned(),
        ..AppConfig::default()
    };

    let error = validate_config(&config).unwrap_err().message();

    assert!(error.contains("trigger_prefix"));
}

#[test]
fn detects_system_input_source() {
    assert!(!input_source_is_system(
        "source=com.bytedance.inputmethod.doubaoime.pinyin|mode=com.bytedance.inputmethod.doubaoime.pinyin|type=TISTypeKeyboardInputMode|ascii=0"
    ));
    assert!(!input_source_is_system(
        "source=com.bytedance.inputmethod.doubaoime.pinyin|mode=com.bytedance.inputmethod.doubaoime.pinyin|type=TISTypeKeyboardInputMode|ascii=1"
    ));
    assert!(input_source_is_system(
        "source=com.apple.keylayout.ABC|mode=|type=TISTypeKeyboardLayout|ascii=1"
    ));
    assert!(!input_source_is_system("<unknown>"));
}

#[test]
fn parses_conversion_modes() {
    assert_eq!(
        ConversionMode::parse("segmented").unwrap(),
        ConversionMode::Segmented
    );
    assert_eq!(
        ConversionMode::parse("rime-auto").unwrap(),
        ConversionMode::RimeAuto
    );
    assert!(ConversionMode::parse("unknown").is_err());
}

#[test]
fn parses_candidate_layouts() {
    assert_eq!(
        CandidateLayout::parse("horizontal").unwrap(),
        CandidateLayout::Horizontal
    );
    assert_eq!(
        CandidateLayout::parse("vertical").unwrap(),
        CandidateLayout::Vertical
    );
    assert!(CandidateLayout::parse("diagonal").is_err());
}

#[test]
fn validates_candidate_count_range() {
    assert!(validate_runtime_options(128, 0, DEFAULT_CANDIDATE_COUNT).is_ok());
    assert!(validate_runtime_options(128, 0, 0).is_err());
    assert!(validate_runtime_options(128, 0, MAX_CANDIDATE_COUNT + 1).is_err());
}

#[test]
fn validates_candidate_interaction_keys() {
    assert!(validate_config(&AppConfig::default()).is_ok());

    let config = AppConfig {
        candidate_select_keys: "112".to_owned(),
        ..AppConfig::default()
    };
    assert!(validate_config(&config)
        .unwrap_err()
        .message()
        .contains("duplicate"));

    let config = AppConfig {
        candidate_select_keys: "12x".to_owned(),
        ..AppConfig::default()
    };
    assert!(validate_config(&config)
        .unwrap_err()
        .message()
        .contains("ASCII digits"));

    let config = AppConfig {
        english_commit_key: "1".to_owned(),
        ..AppConfig::default()
    };
    assert!(validate_config(&config)
        .unwrap_err()
        .message()
        .contains("candidate_select_keys"));

    let config = AppConfig {
        candidate_page_next_key: DEFAULT_CANDIDATE_PAGE_PREVIOUS_KEY.to_owned(),
        ..AppConfig::default()
    };
    assert!(validate_config(&config)
        .unwrap_err()
        .message()
        .contains("must be distinct"));

    let config = AppConfig {
        candidate_count: DEFAULT_CANDIDATE_SELECT_KEYS.chars().count() + 1,
        ..AppConfig::default()
    };
    assert!(validate_config(&config)
        .unwrap_err()
        .message()
        .contains("capacity"));

    let config = AppConfig {
        candidate_page_next_key: String::new(),
        ..AppConfig::default()
    };
    assert!(validate_config(&config)
        .unwrap_err()
        .message()
        .contains("exactly one character"));

    let config = AppConfig {
        english_commit_key: "ab".to_owned(),
        ..AppConfig::default()
    };
    assert!(validate_config(&config)
        .unwrap_err()
        .message()
        .contains("exactly one printable character"));

    let config = AppConfig {
        candidate_page_next_key: "a".to_owned(),
        ..AppConfig::default()
    };
    assert!(validate_config(&config)
        .unwrap_err()
        .message()
        .contains("pinyin"));

    let config = AppConfig {
        english_commit_key: ";".to_owned(),
        ..AppConfig::default()
    };
    assert!(validate_config(&config)
        .unwrap_err()
        .message()
        .contains("trigger character"));
}

#[test]
fn loads_and_classifies_custom_candidate_interaction_keys() {
    let table: toml::Table = r#"
trigger_prefix = ";;"
trigger_suffix = ";;"
candidate_count = 5
candidate_select_keys = "0987654321"
candidate_page_next_key = "]"
candidate_page_previous_key = "["
english_commit_key = "\\"
"#
    .parse()
    .unwrap();
    let text = |key: &str| table.get(key).and_then(|value| value.as_str()).map(str::to_owned);
    let file = FileConfig {
        trigger_prefix: text("trigger_prefix"),
        trigger_suffix: text("trigger_suffix"),
        conversion_mode: text("conversion_mode"),
        candidate_layout: text("candidate_layout"),
        candidate_count: table
            .get("candidate_count")
            .and_then(|value| value.as_integer())
            .map(|value| value as usize),
        candidate_select_keys: text("candidate_select_keys"),
        candidate_page_next_key: text("candidate_page_next_key"),
        candidate_page_previous_key: text("candidate_page_previous_key"),
        english_commit_key: text("english_commit_key"),
    };

    let config = file.resolve().unwrap();

    assert!(validate_config(&config).is_ok());
    assert_eq!(
        config.candidate_interaction_key('0'),
        Some(CandidateInteractionKey::Select(0))
    );
    assert_eq!(
        config.candidate_interaction_key('1'),
        Some(CandidateInteractionKey::Select(9))
    );
    assert_eq!(
        config.candidate_interaction_key(']'),
        Some(CandidateInteractionKey::NextPage)
    );
    assert_eq!(
        config.candidate_interaction_key('['),
        Some(CandidateInteractionKey::PreviousPage)
    );
    assert_eq!(
        config.candidate_interaction_key('\\'),
        Some(CandidateInteractionKey::EnglishCommit)
    );
}
