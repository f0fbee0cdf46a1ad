//! What the program prints: the settings, a conversion, and the end of a long buffer.

use vstd::prelude::*;

use crate::actions::text_option;
use crate::config::{AppConfig, ConfigView};
use crate::conversion::{ConversionOutput, OutputView};
use crate::engine::texts;
use crate::options::{Options, OptionsView};
use crate::segments::{segment_views, ConvertedSegment, SegmentView};
use crate::text::{
    char_count, debug_str, decimal, decimal_of, join, same, signed_decimal, signed_decimal_of,
    slice, str_debug,
};
use crate::tokens::{token_views, Token, TokenView};

verus! {

/// The last `max_chars` characters of `value`, or all of them.
pub fn buffer_tail(value: &str, max_chars: usize) -> (r: String)
    ensures
        r@ == if value@.len() > max_chars {
            value@.skip(value@.len() - max_chars)
        } else {
            value@
        },
{
    let count = char_count(value);
    let start = count.saturating_sub(max_chars);
    let tail = slice(value, start, count);
    assert(tail@ =~= value@.skip(start as int));
    assert(value@.skip(0) =~= value@);
    tail
}

/// How a truth value is printed.
pub open spec fn bool_text(value: bool) -> Seq<char> {
    if value {
        "true"@
    } else {
        "false"@
    }
}

/// How a truth value is printed.
fn print_bool(value: bool) -> (r: &'static str)
    ensures
        r@ == bool_text(value),
{
    if value {
        "true"
    } else {
        "false"
    }
}

/// Adds a line with a label and a value.
fn add_line(lines: &mut Vec<String>, label: &str, value: &str)
    ensures
        texts(final(lines)@) == texts(old(lines)@).push(label@ + value@),
{
    let ghost before = lines@;
    let line = join(label, value);
    lines.push(line);
    assert(texts(lines@) =~= texts(before).push(label@ + value@));
}

/// Adds a line that is a heading.
fn add_heading(lines: &mut Vec<String>, heading: &str)
    ensures
        texts(final(lines)@) == texts(old(lines)@).push(heading@),
{
    let ghost before = lines@;
    lines.push(heading.to_owned());
    assert(texts(lines@) =~= texts(before).push(heading@));
}

/// A list without lines.
fn no_lines() -> (r: Vec<String>)
    ensures
        texts(r@) == Seq::<Seq<char>>::empty(),
{
    let r: Vec<String> = Vec::new();
    assert(texts(r@) =~= Seq::<Seq<char>>::empty());
    r
}

impl ConfigView {
    /// The lines on the triggers.
    pub open spec fn trigger_lines(self) -> Seq<Seq<char>> {
        seq![
            "trigger_prefix:  "@ + str_debug(self.trigger_prefix),
            "trigger_suffix:  "@ + str_debug(self.trigger_suffix),
        ]
    }

    /// The lines on the candidates.
    pub open spec fn candidate_lines(self) -> Seq<Seq<char>> {
        seq![
            "candidate_layout: "@ + self.candidate_layout.name(),
            "candidate_count: "@ + decimal(self.candidate_count as nat),
            "candidate_select_keys: "@ + str_debug(self.candidate_select_keys),
            "candidate_page_next_key: "@ + str_debug(self.candidate_page_next_key),
            "candidate_page_previous_key: "@ + str_debug(self.candidate_page_previous_key),
            "english_commit_key: "@ + str_debug(self.english_commit_key),
        ]
    }
}

/// Adds the lines on the triggers.
fn add_trigger_lines(lines: &mut Vec<String>, config: &AppConfig)
    ensures
        texts(final(lines)@) == texts(old(lines)@) + config@.trigger_lines(),
{
    let ghost before = texts(lines@);
    add_line(lines, "trigger_prefix:  ", &debug_str(&config.trigger_prefix));
    add_line(lines, "trigger_suffix:  ", &debug_str(&config.trigger_suffix));
    assert(texts(lines@) =~= before + config@.trigger_lines());
}

/// Adds the lines on the candidates.
fn add_candidate_lines(lines: &mut Vec<String>, config: &AppConfig)
    ensures
        texts(final(lines)@) == texts(old(lines)@) + config@.candidate_lines(),
{
    let ghost before = texts(lines@);
    add_line(lines, "candidate_layout: ", config.candidate_layout.as_str());
    add_line(lines, "candidate_count: ", &decimal_of(config.candidate_count));
    add_line(lines, "candidate_select_keys: ", &debug_str(&config.candidate_select_keys));
    add_line(lines, "candidate_page_next_key: ", &debug_str(&config.candidate_page_next_key));
    add_line(
        lines,
        "candidate_page_previous_key: ",
        &debug_str(&config.candidate_page_previous_key),
    );
    add_line(lines, "english_commit_key: ", &debug_str(&config.english_commit_key));
    assert(texts(lines@) =~= before + config@.candidate_lines());
}

impl TokenView {
    /// The line on a token.
    pub open spec fn line(self) -> Seq<char> {
        match self {
            TokenView::Pinyin(raw) => "  pinyin:    "@ + raw,
            TokenView::Separator(value) => "  separator: "@ + value,
            TokenView::RimeAuto(raw) => "  rime-auto: "@ + raw,
        }
    }
}

/// The lines on a segment, the `number`-th one.
pub open spec fn segment_lines(segment: SegmentView, number: nat) -> Seq<Seq<char>> {
    let line = "  "@ + (decimal(number) + ". "@ + segment.raw + " -> "@ + segment.preedit + " -> "@
        + segment.first);
    if segment.normalized == segment.raw {
        seq![line]
    } else {
        seq![line, "     normalized: "@ + segment.normalized]
    }
}

/// The lines on all segments.
pub open spec fn all_segment_lines(segments: Seq<SegmentView>) -> Seq<Seq<char>>
    decreases segments.len(),
{
    if segments.len() == 0 {
        seq![]
    } else {
        all_segment_lines(segments.drop_last()) + segment_lines(segments.last(), segments.len())
    }
}

/// The lines on all tokens.
pub open spec fn token_lines(tokens: Seq<TokenView>) -> Seq<Seq<char>> {
    tokens.map_values(|t: TokenView| t.line())
}

/// Adds the lines on the tokens.
fn add_token_lines(lines: &mut Vec<String>, tokens: &Vec<Token>)
    ensures
        texts(final(lines)@) == texts(old(lines)@) + token_lines(token_views(tokens@)),
{
    let ghost before = texts(lines@);
    let ghost all = token_lines(token_views(tokens@));
    let mut i: usize = 0;
    assert(before + all.take(0) =~= before);
    while i < tokens.len()
        invariant
            i <= tokens@.len(),
            all == token_lines(token_views(tokens@)),
            texts(lines@) == before + all.take(i as int),
        decreases tokens.len() - i,
    {
        match &tokens[i] {
            Token::Pinyin(raw) => add_line(lines, "  pinyin:    ", raw),
            Token::Separator(value) => add_line(lines, "  separator: ", value),
            Token::RimeAuto(raw) => add_line(lines, "  rime-auto: ", raw),
        }
        assert(texts(lines@) =~= before + all.take(i + 1));
        i = i + 1;
    }
    assert(all.take(i as int) =~= all);
}

/// Adds the lines on the segments.
fn add_segment_lines(lines: &mut Vec<String>, segments: &Vec<ConvertedSegment>)
    ensures
        texts(final(lines)@) == texts(old(lines)@) + all_segment_lines(segment_views(segments@)),
{
    let ghost before = texts(lines@);
    let ghost all = segment_views(segments@);
    let mut i: usize = 0;
    assert(all_segment_lines(all.take(0)) =~= Seq::<Seq<char>>::empty());
    assert(before + all_segment_lines(all.take(0)) =~= before);
    while i < segments.len()
        invariant
            i <= segments@.len(),
            all == segment_views(segments@),
            texts(lines@) == before + all_segment_lines(all.take(i as int)),
        decreases segments.len() - i,
    {
        let ghost done = texts(lines@);
        let segment = &segments[i];
        assert(all.take(i + 1).drop_last() =~= all.take(i as int));
        assert(all.take(i + 1).last() == segment@);
        let mut line = decimal_of(i + 1);
        line.append(". ");
        line.append(&segment.raw);
        line.append(" -> ");
        line.append(&segment.preedit);
        line.append(" -> ");
        line.append(&segment.first);
        add_line(lines, "  ", &line);
        if !same(&segment.normalized, &segment.raw) {
            add_line(lines, "     normalized: ", &segment.normalized);
        }
        assert(texts(lines@) =~= done + segment_lines(segment@, (i + 1) as nat));
        assert(texts(lines@) =~= before + all_segment_lines(all.take(i + 1)));
        i = i + 1;
    }
    assert(all.take(i as int) =~= all);
}

/// What is printed of a conversion.
pub open spec fn conversion_lines(
    options: OptionsView,
    config_path: Option<Seq<char>>,
    output: OutputView,
) -> Seq<Seq<char>> {
    let config = options.config;
    seq![
        "input:           "@ + options.input,
        "body:            "@ + output.body,
        "schema:          "@ + options.schema,
    ] + config.trigger_lines() + seq!["conversion_mode: "@ + config.conversion_mode.name()]
        + config.candidate_lines() + seq![
        "config:          "@ + match config_path {
            Some(path) => path,
            None => "<defaults>"@,
        },
        "output:          "@ + output.output,
        "delete_chars:    "@ + decimal(options.input.len()),
        "tokens:"@,
    ] + token_lines(output.tokens) + seq!["segments:"@] + all_segment_lines(output.segments)
}

/// What is printed of a conversion.
pub fn conversion_report(
    options: &Options,
    config_path: &Option<String>,
    output: &ConversionOutput,
) -> (r: Vec<String>)
    ensures
        texts(r@) == conversion_lines(options@, text_option(*config_path), output@),
{
    let mut lines = no_lines();
    let config = &options.config;
    add_line(&mut lines, "input:           ", &options.input);
    add_line(&mut lines, "body:            ", &output.body);
    add_line(&mut lines, "schema:          ", &options.schema);
    add_trigger_lines(&mut lines, config);
    add_line(&mut lines, "conversion_mode: ", config.conversion_mode.as_str());
    add_candidate_lines(&mut lines, config);
    match config_path {
        Some(path) => add_line(&mut lines, "config:          ", path),
        None => add_line(&mut lines, "config:          ", "<defaults>"),
    }
    add_line(&mut lines, "output:          ", &output.output);
    add_line(&mut lines, "delete_chars:    ", &decimal_of(char_count(&options.input)));
    add_heading(&mut lines, "tokens:");
    add_token_lines(&mut lines, &output.tokens);
    add_heading(&mut lines, "segments:");
    add_segment_lines(&mut lines, &output.segments);
    assert(texts(lines@) =~= conversion_lines(options@, text_option(*config_path), output@));
    lines
}

/// Where the engine's data and the configuration are, and whether they are there.
#[derive(Debug, PartialEq, Eq)]
pub struct Places {
    pub shared_data_dir: String,
    pub shared_data_exists: bool,
    pub user_data_dir: String,
    pub user_data_exists: bool,
    pub config: String,
}

/// What is printed of the settings.
pub open spec fn doctor_lines(options: OptionsView, places: Places) -> Seq<Seq<char>> {
    let config = options.config;
    seq![
        "rime-poc doctor"@,
        "shared_data_dir: "@ + places.shared_data_dir@,
        "  exists: "@ + bool_text(places.shared_data_exists),
        "user_data_dir:   "@ + places.user_data_dir@,
        "  exists: "@ + bool_text(places.user_data_exists),
        "schema:          "@ + options.schema,
        "config:          "@ + places.config@,
    ] + config.trigger_lines() + seq!["conversion_mode: "@ + config.conversion_mode.name()]
        + config.candidate_lines() + seq![
        "body_mode:       "@ + bool_text(options.body_mode),
        "listen:          "@ + bool_text(options.listen),
        "max_buffer_chars: "@ + decimal(options.max_buffer_chars as nat),
        "inject_delay_ms: "@ + signed_decimal(options.inject_delay_ms as int),
        "log_events:      "@ + bool_text(options.log_events),
    ]
}

/// What is printed of the settings.
pub fn doctor_report(options: &Options, places: &Places) -> (r: Vec<String>)
    ensures
        texts(r@) == doctor_lines(options@, *places),
{
    let mut lines = no_lines();
    let config = &options.config;
    add_heading(&mut lines, "rime-poc doctor");
    add_line(&mut lines, "shared_data_dir: ", &places.shared_data_dir);
    add_line(&mut lines, "  exists: ", print_bool(places.shared_data_exists));
    add_line(&mut lines, "user_data_dir:   ", &places.user_data_dir);
    add_line(&mut lines, "  exists: ", print_bool(places.user_data_exists));
    add_line(&mut lines, "schema:          ", &options.schema);
    add_line(&mut lines, "config:          ", &places.config);
    add_trigger_lines(&mut lines, config);
    add_line(&mut lines, "conversion_mode: ", config.conversion_mode.as_str());
    add_candidate_lines(&mut lines, config);
    add_line(&mut lines, "body_mode:       ", print_bool(options.body_mode));
    add_line(&mut lines, "listen:          ", print_bool(options.listen));
    add_line(&mut lines, "max_buffer_chars: ", &decimal_of(options.max_buffer_chars));
    add_line(&mut lines, "inject_delay_ms: ", &signed_decimal_of(options.inject_delay_ms));
    add_line(&mut lines, "log_events:      ", print_bool(options.log_events));
    assert(texts(lines@) =~= doctor_lines(options@, *places));
    lines
}

/// What is printed when the listener starts.
pub open spec fn listener_lines(
    options: OptionsView,
    pid: u32,
    accessibility: bool,
    input_monitoring: bool,
) -> Seq<Seq<char>> {
    seq![
        "rime-poc listener started"@,
        "pid:             "@ + decimal(pid as nat),
        "accessibility:   "@ + bool_text(accessibility),
        "input_monitoring: "@ + bool_text(input_monitoring),
        "schema:          "@ + options.schema,
    ] + options.config.trigger_lines() + options.config.candidate_lines() + seq![
        "max_buffer_chars: "@ + decimal(options.max_buffer_chars as nat),
        "inject_delay_ms: "@ + signed_decimal(options.inject_delay_ms as int),
        "log_events:      "@ + bool_text(options.log_events),
    ]
}

/// What is printed when the listener starts.
pub fn listener_report(
    options: &Options,
    pid: u32,
    accessibility: bool,
    input_monitoring: bool,
) -> (r: Vec<String>)
    ensures
        texts(r@) == listener_lines(options@, pid, accessibility, input_monitoring),
{
    let mut lines = no_lines();
    add_heading(&mut lines, "rime-poc listener started");
    add_line(&mut lines, "pid:             ", &decimal_of(pid as usize));
    add_line(&mut lines, "accessibility:   ", print_bool(accessibility));
    add_line(&mut lines, "input_monitoring: ", print_bool(input_monitoring));
    add_line(&mut lines, "schema:          ", &options.schema);
    add_trigger_lines(&mut lines, &options.config);
    add_candidate_lines(&mut lines, &options.config);
    add_line(&mut lines, "max_buffer_chars: ", &decimal_of(options.max_buffer_chars));
    add_line(&mut lines, "inject_delay_ms: ", &signed_decimal_of(options.inject_delay_ms));
    add_line(&mut lines, "log_events:      ", print_bool(options.log_events));
    assert(texts(lines@) =~= listener_lines(options@, pid, accessibility, input_monitoring));
    lines
}

} // verus!
