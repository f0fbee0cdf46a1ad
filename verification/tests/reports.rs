//! What the program prints.

use rime_poc::config::AppConfig;
use rime_poc::conversion::ConversionOutput;
use rime_poc::options::Options;
use rime_poc::report::{buffer_tail, conversion_report, doctor_report, listener_report, Places};
use rime_poc::segments::ConvertedSegment;
use rime_poc::tokens::Token;

fn options() -> Options {
    Options {
        schema: "luna_pinyin_simp".to_owned(),
        config: AppConfig::default(),
        body_mode: false,
        doctor: true,
        listen: false,
        max_buffer_chars: 4096,
        inject_delay_ms: 1,
        log_events: false,
        input: ";;wo,;;".to_owned(),
    }
}

#[test]
fn a_conversion_is_reported() {
    let output = ConversionOutput {
        body: "wo,".to_owned(),
        output: "我，".to_owned(),
        tokens: vec![
            Token::Pinyin("wo".to_owned()),
            Token::Separator(",".to_owned()),
            Token::RimeAuto("x".to_owned()),
        ],
        segments: vec![
            ConvertedSegment {
                raw: "wo".to_owned(),
                normalized: "wo".to_owned(),
                preedit: "wo".to_owned(),
                first: "我".to_owned(),
            },
            ConvertedSegment {
                raw: "Ni".to_owned(),
                normalized: "ni".to_owned(),
                preedit: "ni".to_owned(),
                first: "你".to_owned(),
            },
        ],
    };
    assert_eq!(
        conversion_report(&options(), &None, &output),
        vec![
            "input:           ;;wo,;;",
            "body:            wo,",
            "schema:          luna_pinyin_simp",
            "trigger_prefix:  \";;\"",
            "trigger_suffix:  \";;\"",
            "conversion_mode: segmented",
            "candidate_layout: horizontal",
            "candidate_count: 5",
            "candidate_select_keys: \"1234567890\"",
            "candidate_page_next_key: \"=\"",
            "candidate_page_previous_key: \"-\"",
            "english_commit_key: \"`\"",
            "config:          <defaults>",
            "output:          我，",
            "delete_chars:    7",
            "tokens:",
            "  pinyin:    wo",
            "  separator: ,",
            "  rime-auto: x",
            "segments:",
            "  1. wo -> wo -> 我",
            "  2. Ni -> ni -> 你",
            "     normalized: ni",
        ]
    );
    let named = conversion_report(&options(), &Some("rime-poc.toml".to_owned()), &output);
    assert_eq!(named[12], "config:          rime-poc.toml");
}

#[test]
fn the_settings_are_reported() {
    let places = Places {
        shared_data_dir: "/shared".to_owned(),
        shared_data_exists: true,
        user_data_dir: "/user".to_owned(),
        user_data_exists: false,
        config: "None".to_owned(),
    };
    let lines = doctor_report(&options(), &places);
    assert_eq!(
        lines[..7],
        [
            "rime-poc doctor",
            "shared_data_dir: /shared",
            "  exists: true",
            "user_data_dir:   /user",
            "  exists: false",
            "schema:          luna_pinyin_simp",
            "config:          None",
        ]
    );
    assert_eq!(
        lines[16..],
        [
            "body_mode:       false",
            "listen:          false",
            "max_buffer_chars: 4096",
            "inject_delay_ms: 1",
            "log_events:      false",
        ]
    );
}

#[test]
fn the_listener_reports_its_start() {
    let lines = listener_report(&options(), 42, true, false);
    assert_eq!(
        lines[..5],
        [
            "rime-poc listener started",
            "pid:             42",
            "accessibility:   true",
            "input_monitoring: false",
            "schema:          luna_pinyin_simp",
        ]
    );
    assert_eq!(lines.len(), 16);
}

#[test]
fn a_long_buffer_is_cut_at_its_beginning() {
    assert_eq!(buffer_tail("我是中国人", 2), "国人");
    assert_eq!(buffer_tail("我是", 80), "我是");
    assert_eq!(buffer_tail("我是", 0), "");
}
