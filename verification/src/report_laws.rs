//! What the reports and the messages say, in terms of what they are about.

use vstd::prelude::*;

use crate::bytes::NulError;
use crate::config::{
    CandidateLayout, ConfigError, ConfigView, ConversionMode, RuntimeOptionsError, Setting,
    SettingsErrorView,
};
use crate::conversion::OutputView;
use crate::engine::EngineErrorView;
use crate::failures::{
    injection_text, nul_text, FailureView, ListenerErrorView, Occasion, Trouble,
};
use crate::listener::RuntimeView;
use crate::mac::InputEvent;
use crate::options::OptionsView;
use crate::report::{
    all_segment_lines, conversion_lines, doctor_lines, listener_lines, token_lines, Places,
};
use crate::rime_table::{TableError, TableField};
use crate::segments::SegmentView;
use crate::sources::{fingerprint_or_unknown, system_source};
use crate::text::{char_debug, decimal, signed_decimal, str_debug};
use crate::tokens::TokenView;
use crate::triggers::ExtractErrorView;

verus! {

/// How a truth value is printed.
pub open spec fn printed(value: bool) -> Seq<char> {
    if value {
        "true"@
    } else {
        "false"@
    }
}

/// `lines` has the configuration from line `at` on: the triggers, the way of conversion where it
/// is reported, the candidates and the keys.
pub open spec fn tells_config(
    lines: Seq<Seq<char>>,
    at: int,
    config: ConfigView,
    with_mode: bool,
) -> bool {
    let then = if with_mode {
        at + 3
    } else {
        at + 2
    };
    &&& lines[at] == "trigger_prefix:  "@ + str_debug(config.trigger_prefix)
    &&& lines[at + 1] == "trigger_suffix:  "@ + str_debug(config.trigger_suffix)
    &&& with_mode ==> lines[at + 2] == "conversion_mode: "@ + (if config.conversion_mode
        == ConversionMode::RimeAuto {
        "rime-auto"@
    } else {
        "segmented"@
    })
    &&& lines[then] == "candidate_layout: "@ + (if config.candidate_layout
        == CandidateLayout::Vertical {
        "vertical"@
    } else {
        "horizontal"@
    })
    &&& lines[then + 1] == "candidate_count: "@ + decimal(config.candidate_count as nat)
    &&& lines[then + 2] == "candidate_select_keys: "@ + str_debug(config.candidate_select_keys)
    &&& lines[then + 3] == "candidate_page_next_key: "@ + str_debug(config.candidate_page_next_key)
    &&& lines[then + 4] == "candidate_page_previous_key: "@ + str_debug(
        config.candidate_page_previous_key,
    )
    &&& lines[then + 5] == "english_commit_key: "@ + str_debug(config.english_commit_key)
}

/// The report of a conversion tells the input, the body, the schema, the configuration and where
/// it comes from, the output, how many characters the input has, and then the tokens and the
/// segments.
pub proof fn law_conversion_is_reported(
    options: OptionsView,
    config_path: Option<Seq<char>>,
    output: OutputView,
)
    ensures
        ({
            let lines = conversion_lines(options, config_path, output);
            let tokens = output.tokens;
            let segments = all_segment_lines(output.segments);
            &&& lines.len() == 17 + tokens.len() + segments.len()
            &&& lines[0] == "input:           "@ + options.input
            &&& lines[1] == "body:            "@ + output.body
            &&& lines[2] == "schema:          "@ + options.schema
            &&& tells_config(lines, 3, options.config, true)
            &&& config_path matches Some(path) ==> lines[12] == "config:          "@ + path
            &&& config_path is None ==> lines[12] == "config:          "@ + "<defaults>"@
            &&& lines[13] == "output:          "@ + output.output
            &&& lines[14] == "delete_chars:    "@ + decimal(options.input.len())
            &&& lines[15] == "tokens:"@
            &&& forall|i: int|
                0 <= i < tokens.len() ==> #[trigger] lines[16 + i] == (match tokens[i] {
                    TokenView::Pinyin(text) => "  pinyin:    "@ + text,
                    TokenView::Separator(text) => "  separator: "@ + text,
                    TokenView::RimeAuto(text) => "  rime-auto: "@ + text,
                })
            &&& lines[16 + tokens.len() as int] == "segments:"@
            &&& lines.skip(17 + tokens.len() as int) == segments
        }),
{
    let lines = conversion_lines(options, config_path, output);
    let tokens = output.tokens;
    let segments = all_segment_lines(output.segments);
    assert(token_lines(tokens).len() == tokens.len());
    assert(lines.skip(17 + tokens.len() as int) =~= segments);
    assert forall|i: int| 0 <= i < tokens.len() implies #[trigger] lines[16 + i] == (
    match tokens[i] {
        TokenView::Pinyin(text) => "  pinyin:    "@ + text,
        TokenView::Separator(text) => "  separator: "@ + text,
        TokenView::RimeAuto(text) => "  rime-auto: "@ + text,
    }) by {
        assert(lines[16 + i] == token_lines(tokens)[i]);
    }
}

/// Each segment is reported by its number, from 1 on, with its run, what the engine makes of it
/// and its first candidate; and by its normal form where that is another.
pub proof fn law_segments_are_numbered(segments: Seq<SegmentView>, segment: SegmentView)
    ensures
        all_segment_lines(seq![]) == Seq::<Seq<char>>::empty(),
        ({
            let line = "  "@ + (decimal(segments.len() + 1) + ". "@ + segment.raw + " -> "@
                + segment.preedit + " -> "@ + segment.first);
            all_segment_lines(segments.push(segment)) == all_segment_lines(segments) + (
            if segment.normalized == segment.raw {
                seq![line]
            } else {
                seq![line, "     normalized: "@ + segment.normalized]
            })
        }),
{
    assert(segments.push(segment).drop_last() =~= segments);
}

/// The doctor tells where the data are and whether they are there, and all options.
pub proof fn law_doctor_tells_the_options(options: OptionsView, places: Places)
    ensures
        ({
            let lines = doctor_lines(options, places);
            &&& lines.len() == 21
            &&& lines[0] == "rime-poc doctor"@
            &&& lines[1] == "shared_data_dir: "@ + places.shared_data_dir@
            &&& lines[2] == "  exists: "@ + printed(places.shared_data_exists)
            &&& lines[3] == "user_data_dir:   "@ + places.user_data_dir@
            &&& lines[4] == "  exists: "@ + printed(places.user_data_exists)
            &&& lines[5] == "schema:          "@ + options.schema
            &&& lines[6] == "config:          "@ + places.config@
            &&& tells_config(lines, 7, options.config, true)
            &&& lines[16] == "body_mode:       "@ + printed(options.body_mode)
            &&& lines[17] == "listen:          "@ + printed(options.listen)
            &&& lines[18] == "max_buffer_chars: "@ + decimal(options.max_buffer_chars as nat)
            &&& lines[19] == "inject_delay_ms: "@ + signed_decimal(options.inject_delay_ms as int)
            &&& lines[20] == "log_events:      "@ + printed(options.log_events)
        }),
{
}

/// The listener tells its process, its permissions and its options.
pub proof fn law_listener_tells_the_options(
    options: OptionsView,
    pid: u32,
    accessibility: bool,
    input_monitoring: bool,
)
    ensures
        ({
            let lines = listener_lines(options, pid, accessibility, input_monitoring);
            &&& lines.len() == 16
            &&& lines[0] == "rime-poc listener started"@
            &&& lines[1] == "pid:             "@ + decimal(pid as nat)
            &&& lines[2] == "accessibility:   "@ + printed(accessibility)
            &&& lines[3] == "input_monitoring: "@ + printed(input_monitoring)
            &&& lines[4] == "schema:          "@ + options.schema
            &&& tells_config(lines, 5, options.config, false)
            &&& lines[13] == "max_buffer_chars: "@ + decimal(options.max_buffer_chars as nat)
            &&& lines[14] == "inject_delay_ms: "@ + signed_decimal(options.inject_delay_ms as int)
            &&& lines[15] == "log_events:      "@ + printed(options.log_events)
        }),
{
}

// Messages.

/// A message of the engine names the schema, the preedit, the pinyin and the boundary that it is
/// about.
pub proof fn law_engine_messages_name_what_they_are_about(
    schema: Seq<char>,
    raw: Seq<char>,
    preedit: Seq<char>,
    boundary: usize,
)
    ensures
        (EngineErrorView::SelectSchema { schema }).text() == "failed to select Rime schema: "@ + schema,
        (EngineErrorView::BadBoundary { boundary, preedit }).text()
            == "Rime partial selection boundary "@ + decimal(boundary as nat)
            + " is invalid for preedit "@ + str_debug(preedit),
        (EngineErrorView::NoProgress { raw, preedit, boundary }).text()
            == "Rime partial selection made no valid progress: raw="@ + str_debug(raw)
            + " preedit="@ + str_debug(preedit) + " boundary="@ + decimal(boundary as nat),
        (EngineErrorView::NoCandidatesLeft { remaining: raw }).text()
            == "Rime partial selection left no candidates for "@ + str_debug(raw),
{
}

/// A message about the engine's table names the field and the sizes.
pub proof fn law_table_messages_name_the_sizes(
    field: TableField,
    required: usize,
    available: usize,
    data_size: i32,
)
    ensures
        ({
            let name = if field == TableField::ChangePage {
                "change_page"@
            } else {
                "select_candidate_on_current_page"@
            };
            &&& (TableError::NegativeSize { data_size }).text()
                == "librime API table has an invalid negative data_size: "@ + signed_decimal(
                data_size as int,
            )
            &&& (TableError::FieldBeyondTable { field, required, available }).text()
                == "librime API "@ + name + " requires "@ + decimal(required as nat)
                + " table bytes, but this version exposes "@ + decimal(available as nat)
            &&& (TableError::MissingFunction { field }).text() == "librime API "@ + name
                + " is unavailable"@
            &&& EngineErrorView::Table(TableError::MissingFunction { field }).text()
                == (TableError::MissingFunction { field }).text()
        }),
{
}

/// A message of the listener says what failed, and in a failed recovery both failures.
pub proof fn law_listener_messages_say_what_failed(
    nul: NulError,
    error: EngineErrorView,
    failure: FailureView,
    page_no: usize,
    index: usize,
    after: Occasion,
)
    ensures
        nul_text(nul) == "nul byte found in provided data at position: "@ + decimal(
            nul.position as nat,
        ),
        injection_text(nul)
            == "replacement text contains an interior NUL byte and cannot be injected: "@
            + nul_text(nul),
        FailureView::Injection(nul).text() == injection_text(nul),
        FailureView::Panel(nul).text() == nul_text(nul),
        FailureView::Engine(error).text() == error.text(),
        ListenerErrorView::Failed(failure).text() == failure.text(),
        (ListenerErrorView::RecoveryFailed { failure, recovery: nul }).text()
            == "raw rewrite recovery also failed: "@ + injection_text(nul) + ": "@ + failure.text(),
        (Occasion::Candidate { page_no, index }).text() == "candidate page="@ + decimal(
            page_no as nat,
        ) + " index="@ + decimal(index as nat),
        (Trouble::Panel { after }).text() == "listener candidate panel error after "@ + after.text()
            + ": "@,
{
}

/// A message about the settings names the setting and the value that is wrong.
pub proof fn law_settings_messages_name_what_is_wrong(
    setting: Setting,
    key: char,
    count: usize,
    capacity: usize,
    value: Seq<char>,
    name: Seq<char>,
    error: ConfigError,
    limit: RuntimeOptionsError,
)
    ensures
        ({
            let named = match setting {
                Setting::TriggerPrefix => "trigger_prefix"@,
                Setting::TriggerSuffix => "trigger_suffix"@,
                Setting::CandidatePageNextKey => "candidate_page_next_key"@,
                Setting::CandidatePagePreviousKey => "candidate_page_previous_key"@,
                Setting::EnglishCommitKey => "english_commit_key"@,
            };
            &&& (ConfigError::EmptyTrigger { setting }).text() == named + " cannot be empty"@
            &&& (ConfigError::ReservedTriggerChar { setting, ch: key }).text() == named
                + " contains reserved separator character: "@ + char_debug(key)
            &&& (ConfigError::EmptyKey { setting }).text() == named
                + " must contain exactly one character"@
            &&& (ConfigError::NotOnePrintableKey { setting }).text() == named
                + " must contain exactly one printable character"@
            &&& (ConfigError::PinyinKey { setting, key }).text() == named
                + " must not be an ASCII pinyin character: "@ + char_debug(key)
            &&& (ConfigError::KeyIsSelectKey { setting, key }).text() == named
                + " conflicts with candidate_select_keys: "@ + char_debug(key)
            &&& (ConfigError::KeyIsTriggerChar { setting, key }).text() == named
                + " conflicts with a trigger character: "@ + char_debug(key)
        }),
        (ConfigError::CountExceedsSelectKeys { count, capacity }).text() == "candidate_count ("@
            + decimal(count as nat) + ") exceeds candidate_select_keys capacity ("@ + decimal(
            capacity as nat,
        ) + ")"@,
        (ConfigError::SelectKeyIsTriggerChar { key }).text()
            == "candidate_select_keys conflicts with a trigger character: "@ + char_debug(key),
        (SettingsErrorView::NotPositiveInteger { name, value }).text() == "failed to parse "@ + name
            + " as a positive integer"@,
        (SettingsErrorView::NotInteger { name, value }).text() == "failed to parse "@ + name
            + " as an integer"@,
        (SettingsErrorView::MissingValue { flag: name }).text() == "missing value for "@ + name,
        (SettingsErrorView::UnknownOption { arg: name }).text() == "unknown option: "@ + name,
        (SettingsErrorView::ConversionMode { value }).text() == "invalid conversion mode "@
            + str_debug(value) + "; expected \"segmented\" or \"rime-auto\""@,
        (SettingsErrorView::CandidateLayout { value }).text() == "invalid candidate layout "@
            + str_debug(value) + "; expected \"horizontal\" or \"vertical\""@,
        SettingsErrorView::Config(error).text() == error.text(),
        SettingsErrorView::Runtime(limit).text() == limit.text(),
        (ExtractErrorView::MissingPrefix { prefix: value }).text()
            == "input does not start with configured trigger_prefix: "@ + str_debug(value),
        (ExtractErrorView::MissingSuffix { suffix: value }).text()
            == "input does not end with configured trigger_suffix: "@ + str_debug(value),
{
}

/// The reason that is logged for forgetting a session names the key, the sources or the context
/// that it is about.
pub proof fn law_clear_reasons_name_what_happened(rt: RuntimeView, event: InputEvent)
    ensures
        ({
            let source = fingerprint_or_unknown(event.source());
            let reason = rt.clear_reason(event);
            let key = event.status == 1 && event.event_type == 1;
            let other = rt.capture.active() && rt.session_input_source is Some
                && rt.session_input_source->0 != source;
            let ours = key && system_source(source) && !other;
            let plain = !event.command() && !event.control() && !event.option();
            &&& key && !system_source(source) ==> reason == Some(
                "non-system input source: "@ + str_debug(source),
            )
            &&& key && system_source(source) && other ==> reason == Some(
                "input source changed: "@ + str_debug(rt.session_input_source->0) + " -> "@
                    + str_debug(source),
            )
            &&& ours && plain && seq![36u32, 76, 53, 123, 124, 125, 126].contains(event.key_code)
                ==> reason == Some("key "@ + decimal(event.key_code as nat))
            &&& ours && event.command() && !event.control() && seq![0u32, 8, 9, 7, 6].contains(
                event.key_code,
            ) ==> reason == Some("command shortcut key "@ + decimal(event.key_code as nat))
            &&& event.status == 1 && event.event_type == 3 && !event.rewriting()
                && event.typed().len() > 0 ==> reason == Some("context changed: "@ + event.typed())
            &&& event.status == 1 && event.event_type == 2 && !event.rewriting() ==> reason == Some(
                "mouse event"@,
            )
        }),
{
    let keys = seq![36u32, 76, 53, 123, 124, 125, 126];
    assert(keys[0] == 36 && keys[1] == 76 && keys[2] == 53 && keys[3] == 123 && keys[4] == 124
        && keys[5] == 125 && keys[6] == 126);
    let shortcuts = seq![0u32, 8, 9, 7, 6];
    assert(shortcuts[0] == 0 && shortcuts[1] == 8 && shortcuts[2] == 9 && shortcuts[3] == 7
        && shortcuts[4] == 6);
}

} // verus!
