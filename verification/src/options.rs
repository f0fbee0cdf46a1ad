//! The settings of a run: from the environment, the command line and the configuration file.

use vstd::prelude::*;

use crate::actions::text_option;
use crate::chars::{is_whitespace, to_ascii_lower};
use crate::config::{
    default_config, AppConfig, CandidateLayout, ConfigView, ConversionMode, SettingsError,
    settings_result, SettingsErrorView, DEFAULT_INJECT_DELAY_MS, DEFAULT_MAX_BUFFER_CHARS,
};
use crate::engine::texts;
use crate::text::{
    begins_with, join, lower, read_i32, read_usize, same, signed_value, starts_with, to_chars,
    trim_end, trim_start, unsigned_value,
};
use crate::validation::{
    law_no_error_means_valid, runtime_options_error, validate_config, validate_runtime_options,
};

verus! {

/// The schema that is used where none is named.
pub const DEFAULT_SCHEMA: &'static str = "luna_pinyin_simp";

/// The number that `value` stands for, or the complaint about the setting `name`.
pub open spec fn usize_setting(value: Seq<char>, name: Seq<char>) -> Result<
    usize,
    SettingsErrorView,
> {
    match unsigned_value(value) {
        Some(n) if n <= usize::MAX => Ok(n as usize),
        _ => Err(SettingsErrorView::NotPositiveInteger { name, value }),
    }
}

/// The number that `value` stands for, or the complaint about the setting `name`.
pub open spec fn i32_setting(value: Seq<char>, name: Seq<char>) -> Result<i32, SettingsErrorView> {
    match signed_value(value) {
        Some(n) if i32::MIN <= n <= i32::MAX => Ok(n as i32),
        _ => Err(SettingsErrorView::NotInteger { name, value }),
    }
}

/// Reads the number that `value` stands for.
pub fn parse_usize(value: &str, name: &str) -> (r: Result<usize, SettingsError>)
    ensures
        settings_result(r) == usize_setting(value@, name@),
{
    match read_usize(value) {
        Some(n) => Ok(n),
        None => Err(
            SettingsError::NotPositiveInteger { name: name.to_owned(), value: value.to_owned() },
        ),
    }
}

/// Reads the number that `value` stands for.
pub fn parse_i32(value: &str, name: &str) -> (r: Result<i32, SettingsError>)
    ensures
        settings_result(r) == i32_setting(value@, name@),
{
    match read_i32(value) {
        Some(n) => Ok(n),
        None => Err(
            SettingsError::NotInteger { name: name.to_owned(), value: value.to_owned() },
        ),
    }
}

/// `s` without the white space at both ends.
pub open spec fn trim(s: Seq<char>) -> Seq<char> {
    trim_end(trim_start(s))
}

/// `s` without the white space at both ends, in lower case.
pub fn trimmed_lower(s: &str) -> (r: String)
    ensures
        r@ == lower(trim(s@)),
{
    let chars = to_chars(s);
    let mut start: usize = 0;
    assert(s@.skip(0) =~= s@);
    while start < chars.len() && is_whitespace(chars[start])
        invariant
            start <= chars@.len(),
            chars@ == s@,
            trim_start(s@) == trim_start(s@.skip(start as int)),
        decreases chars.len() - start,
    {
        assert(s@.skip(start as int).drop_first() =~= s@.skip(start + 1));
        start = start + 1;
    }
    let ghost rest = s@.skip(start as int);
    assert(trim_start(s@) == rest);
    let mut end: usize = chars.len();
    assert(rest.take(end - start) =~= rest);
    while end > start && is_whitespace(chars[end - 1])
        invariant
            start <= end <= chars@.len(),
            chars@ == s@,
            rest == s@.skip(start as int),
            trim_end(rest) == trim_end(rest.take(end - start)),
        decreases end,
    {
        assert(rest.take(end - start).drop_last() =~= rest.take(end - start - 1));
        end = end - 1;
    }
    let ghost kept = rest.take(end - start);
    assert(trim_end(rest) == kept);
    let mut out = String::new();
    let mut i: usize = start;
    assert(lower(kept.take(0)) =~= Seq::<char>::empty());
    while i < end
        invariant
            start <= i <= end <= chars@.len(),
            chars@ == s@,
            kept == s@.skip(start as int).take(end - start),
            out@ == lower(kept.take(i - start)),
        decreases end - i,
    {
        out.push(to_ascii_lower(chars[i]));
        assert(kept.take(i + 1 - start) =~= kept.take(i - start).push(chars@[i as int]));
        assert(out@ =~= lower(kept.take(i + 1 - start)));
        i = i + 1;
    }
    assert(kept.take(end - start) =~= kept);
    out
}

/// A switch in the environment is on: it is set, and neither empty nor `0`, `false` or `no`.
pub open spec fn switched_on(value: Option<Seq<char>>) -> bool {
    match value {
        None => false,
        Some(value) => {
            let word = lower(trim(value));
            word.len() > 0 && word != "0"@ && word != "false"@ && word != "no"@
        },
    }
}

/// Is a switch in the environment on?
pub fn env_flag(value: &Option<String>) -> (r: bool)
    ensures
        r == switched_on(text_option(*value)),
{
    match value {
        None => false,
        Some(value) => {
            let word = trimmed_lower(value);
            !word.as_str().is_empty() && !same(&word, "0") && !same(&word, "false") && !same(
                &word,
                "no",
            )
        },
    }
}

/// The settings in the environment, as they stand there.
#[derive(Debug, PartialEq, Eq)]
pub struct Environment {
    pub schema: Option<String>,
    pub log_events: Option<String>,
    pub conversion_mode: Option<String>,
    pub candidate_layout: Option<String>,
    pub candidate_count: Option<String>,
    pub max_buffer_chars: Option<String>,
    pub inject_delay_ms: Option<String>,
}

/// What an [`Environment`] holds.
#[verifier::ext_equal]
pub struct EnvironmentView {
    pub schema: Option<Seq<char>>,
    pub log_events: Option<Seq<char>>,
    pub conversion_mode: Option<Seq<char>>,
    pub candidate_layout: Option<Seq<char>>,
    pub candidate_count: Option<Seq<char>>,
    pub max_buffer_chars: Option<Seq<char>>,
    pub inject_delay_ms: Option<Seq<char>>,
}

impl View for Environment {
    type V = EnvironmentView;

    open spec fn view(&self) -> EnvironmentView {
        EnvironmentView {
            schema: text_option(self.schema),
            log_events: text_option(self.log_events),
            conversion_mode: text_option(self.conversion_mode),
            candidate_layout: text_option(self.candidate_layout),
            candidate_count: text_option(self.candidate_count),
            max_buffer_chars: text_option(self.max_buffer_chars),
            inject_delay_ms: text_option(self.inject_delay_ms),
        }
    }
}

/// The settings of the environment and the command line.
#[derive(Debug, PartialEq, Eq)]
pub struct Settings {
    pub shared_data_dir: Option<String>,
    pub user_data_dir: Option<String>,
    pub schema: String,
    pub config_path: Option<String>,
    pub body_mode: bool,
    pub doctor: bool,
    pub listen: bool,
    pub log_events: bool,
    pub conversion_mode: Option<ConversionMode>,
    pub candidate_layout: Option<CandidateLayout>,
    pub candidate_count: Option<usize>,
    pub max_buffer_chars: usize,
    pub inject_delay_ms: i32,
    /// The parts of the input, one space apart.
    pub input: String,
    /// There is a part of the input already.
    pub has_input: bool,
}

/// What [`Settings`] hold.
#[verifier::ext_equal]
pub struct SettingsView {
    pub shared_data_dir: Option<Seq<char>>,
    pub user_data_dir: Option<Seq<char>>,
    pub schema: Seq<char>,
    pub config_path: Option<Seq<char>>,
    pub body_mode: bool,
    pub doctor: bool,
    pub listen: bool,
    pub log_events: bool,
    pub conversion_mode: Option<ConversionMode>,
    pub candidate_layout: Option<CandidateLayout>,
    pub candidate_count: Option<usize>,
    pub max_buffer_chars: usize,
    pub inject_delay_ms: i32,
    pub input: Seq<char>,
    pub has_input: bool,
}

impl View for Settings {
    type V = SettingsView;

    open spec fn view(&self) -> SettingsView {
        SettingsView {
            shared_data_dir: text_option(self.shared_data_dir),
            user_data_dir: text_option(self.user_data_dir),
            schema: self.schema@,
            config_path: text_option(self.config_path),
            body_mode: self.body_mode,
            doctor: self.doctor,
            listen: self.listen,
            log_events: self.log_events,
            conversion_mode: self.conversion_mode,
            candidate_layout: self.candidate_layout,
            candidate_count: self.candidate_count,
            max_buffer_chars: self.max_buffer_chars,
            inject_delay_ms: self.inject_delay_ms,
            input: self.input@,
            has_input: self.has_input,
        }
    }
}

/// What a result that holds [`Settings`] holds.
pub open spec fn settings_views(r: Result<Settings, SettingsError>) -> Result<
    SettingsView,
    SettingsErrorView,
> {
    match r {
        Ok(s) => Ok(s@),
        Err(e) => Err(e@),
    }
}

impl SettingsView {
    /// The settings of the environment; what it does not set has its default. Of several bad
    /// values the first is complained about.
    pub open spec fn of_environment(env: EnvironmentView) -> Result<SettingsView, SettingsErrorView> {
        let mode = match env.conversion_mode {
            Some(value) => match ConversionMode::read(value) {
                Ok(mode) => Ok(Some(mode)),
                Err(e) => Err(e),
            },
            None => Ok(None),
        };
        let layout = match env.candidate_layout {
            Some(value) => match CandidateLayout::read(value) {
                Ok(layout) => Ok(Some(layout)),
                Err(e) => Err(e),
            },
            None => Ok(None),
        };
        let count = match env.candidate_count {
            Some(value) => match usize_setting(value, "RIME_POC_CANDIDATE_COUNT"@) {
                Ok(count) => Ok(Some(count)),
                Err(e) => Err(e),
            },
            None => Ok(None),
        };
        let max_buffer_chars = match env.max_buffer_chars {
            Some(value) => usize_setting(value, "RIME_POC_MAX_BUFFER_CHARS"@),
            None => Ok(DEFAULT_MAX_BUFFER_CHARS),
        };
        let inject_delay_ms = match env.inject_delay_ms {
            Some(value) => i32_setting(value, "RIME_POC_INJECT_DELAY_MS"@),
            None => Ok(DEFAULT_INJECT_DELAY_MS),
        };
        match (mode, layout, count, max_buffer_chars, inject_delay_ms) {
            (Err(e), _, _, _, _) => Err(e),
            (_, Err(e), _, _, _) => Err(e),
            (_, _, Err(e), _, _) => Err(e),
            (_, _, _, Err(e), _) => Err(e),
            (_, _, _, _, Err(e)) => Err(e),
            (Ok(mode), Ok(layout), Ok(count), Ok(max_buffer_chars), Ok(inject_delay_ms)) => Ok(
                SettingsView {
                    shared_data_dir: None,
                    user_data_dir: None,
                    schema: match env.schema {
                        Some(schema) => schema,
                        None => DEFAULT_SCHEMA@,
                    },
                    config_path: None,
                    body_mode: false,
                    doctor: false,
                    listen: false,
                    log_events: switched_on(env.log_events),
                    conversion_mode: mode,
                    candidate_layout: layout,
                    candidate_count: count,
                    max_buffer_chars,
                    inject_delay_ms,
                    input: seq![],
                    has_input: false,
                },
            ),
        }
    }

    /// The settings with the option `flag` set to `value`.
    pub open spec fn with_value(self, flag: Seq<char>, value: Seq<char>) -> Result<
        SettingsView,
        SettingsErrorView,
    > {
        if flag == "--shared-data-dir"@ {
            Ok(SettingsView { shared_data_dir: Some(value), ..self })
        } else if flag == "--user-data-dir"@ {
            Ok(SettingsView { user_data_dir: Some(value), ..self })
        } else if flag == "--schema"@ {
            Ok(SettingsView { schema: value, ..self })
        } else if flag == "--config"@ {
            Ok(SettingsView { config_path: Some(value), ..self })
        } else if flag == "--conversion-mode"@ {
            match ConversionMode::read(value) {
                Ok(mode) => Ok(SettingsView { conversion_mode: Some(mode), ..self }),
                Err(e) => Err(e),
            }
        } else if flag == "--candidate-layout"@ {
            match CandidateLayout::read(value) {
                Ok(layout) => Ok(SettingsView { candidate_layout: Some(layout), ..self }),
                Err(e) => Err(e),
            }
        } else if flag == "--candidate-count"@ {
            match usize_setting(value, flag) {
                Ok(count) => Ok(SettingsView { candidate_count: Some(count), ..self }),
                Err(e) => Err(e),
            }
        } else if flag == "--max-buffer-chars"@ {
            match usize_setting(value, flag) {
                Ok(count) => Ok(SettingsView { max_buffer_chars: count, ..self }),
                Err(e) => Err(e),
            }
        } else {
            match i32_setting(value, flag) {
                Ok(delay) => Ok(SettingsView { inject_delay_ms: delay, ..self }),
                Err(e) => Err(e),
            }
        }
    }

    /// The settings with the switch `flag` on, or `arg` as a part of the input.
    pub open spec fn with_switch(self, arg: Seq<char>) -> SettingsView {
        if arg == "--listen"@ {
            SettingsView { listen: true, ..self }
        } else if arg == "--log-events"@ {
            SettingsView { log_events: true, ..self }
        } else if arg == "--body"@ {
            SettingsView { body_mode: true, ..self }
        } else if arg == "--doctor"@ {
            SettingsView { doctor: true, ..self }
        } else {
            SettingsView {
                input: if self.has_input {
                    self.input + " "@ + arg
                } else {
                    arg
                },
                has_input: true,
                ..self
            }
        }
    }

    /// What comes of the arguments: they are read one by one, an option with the argument
    /// after it, up to the first that asks for help or that is refused.
    pub open spec fn parsed(self, args: Seq<Seq<char>>) -> Result<
        Option<SettingsView>,
        SettingsErrorView,
    >
        decreases args.len(),
    {
        if args.len() == 0 {
            Ok(Some(self))
        } else {
            let arg = args[0];
            if takes_value(arg) {
                if args.len() == 1 {
                    Err(SettingsErrorView::MissingValue { flag: arg })
                } else {
                    match self.with_value(arg, args[1]) {
                        Ok(next) => next.parsed(args.skip(2)),
                        Err(e) => Err(e),
                    }
                }
            } else if asks_for_help(arg) {
                Ok(None)
            } else if !is_switch(arg) && begins_with(arg, "--"@) {
                Err(SettingsErrorView::UnknownOption { arg })
            } else {
                self.with_switch(arg).parsed(args.drop_first())
            }
        }
    }
}

/// The argument is an option that takes the next argument as its value.
pub open spec fn takes_value(arg: Seq<char>) -> bool {
    ||| arg == "--shared-data-dir"@
    ||| arg == "--user-data-dir"@
    ||| arg == "--schema"@
    ||| arg == "--config"@
    ||| arg == "--conversion-mode"@
    ||| arg == "--candidate-layout"@
    ||| arg == "--candidate-count"@
    ||| arg == "--max-buffer-chars"@
    ||| arg == "--inject-delay-ms"@
}

/// The argument is an option without a value.
pub open spec fn is_switch(arg: Seq<char>) -> bool {
    ||| arg == "--listen"@
    ||| arg == "--log-events"@
    ||| arg == "--body"@
    ||| arg == "--doctor"@
}

/// The argument asks for help.
pub open spec fn asks_for_help(arg: Seq<char>) -> bool {
    arg == "-h"@ || arg == "--help"@
}

/// Does the option take the next argument as its value?
fn has_value(arg: &str) -> (r: bool)
    ensures
        r == takes_value(arg@),
{
    same(arg, "--shared-data-dir") || same(arg, "--user-data-dir") || same(arg, "--schema") || same(
        arg,
        "--config",
    ) || same(arg, "--conversion-mode") || same(arg, "--candidate-layout") || same(
        arg,
        "--candidate-count",
    ) || same(arg, "--max-buffer-chars") || same(arg, "--inject-delay-ms")
}

/// Is the argument an option without a value?
fn has_no_value(arg: &str) -> (r: bool)
    ensures
        r == is_switch(arg@),
{
    same(arg, "--listen") || same(arg, "--log-events") || same(arg, "--body") || same(
        arg,
        "--doctor",
    )
}

/// What the result of reading the command line holds.
pub open spec fn parsed_views(r: Result<Option<Settings>, SettingsError>) -> Result<
    Option<SettingsView>,
    SettingsErrorView,
> {
    match r {
        Ok(Some(s)) => Ok(Some(s@)),
        Ok(None) => Ok(None),
        Err(e) => Err(e@),
    }
}

/// The argument that follows the option `flag`.
pub fn next_arg(args: &[String], index: usize, flag: &str) -> (r: Result<String, SettingsError>)
    ensures
        match r {
            Ok(value) => index < args@.len() && value@ == args@[index as int]@,
            Err(e) => index >= args@.len() && e@ == (SettingsErrorView::MissingValue {
                flag: flag@,
            }),
        },
{
    if index < args.len() {
        Ok(args[index].clone())
    } else {
        Err(SettingsError::MissingValue { flag: flag.to_owned() })
    }
}

impl Settings {
    /// The settings of the environment.
    pub fn from_environment(env: Environment) -> (r: Result<Settings, SettingsError>)
        ensures
            settings_views(r) == SettingsView::of_environment(env@),
    {
        let log_events = env_flag(&env.log_events);
        let conversion_mode = match env.conversion_mode {
            Some(value) => Some(ConversionMode::parse(&value)?),
            None => None,
        };
        let candidate_layout = match env.candidate_layout {
            Some(value) => Some(CandidateLayout::parse(&value)?),
            None => None,
        };
        let candidate_count = match env.candidate_count {
            Some(value) => Some(parse_usize(&value, "RIME_POC_CANDIDATE_COUNT")?),
            None => None,
        };
        let max_buffer_chars = match env.max_buffer_chars {
            Some(value) => parse_usize(&value, "RIME_POC_MAX_BUFFER_CHARS")?,
            None => DEFAULT_MAX_BUFFER_CHARS,
        };
        let inject_delay_ms = match env.inject_delay_ms {
            Some(value) => parse_i32(&value, "RIME_POC_INJECT_DELAY_MS")?,
            None => DEFAULT_INJECT_DELAY_MS,
        };
        Ok(
            Settings {
                shared_data_dir: None,
                user_data_dir: None,
                schema: match env.schema {
                    Some(schema) => schema,
                    None => DEFAULT_SCHEMA.to_owned(),
                },
                config_path: None,
                body_mode: false,
                doctor: false,
                listen: false,
                log_events,
                conversion_mode,
                candidate_layout,
                candidate_count,
                max_buffer_chars,
                inject_delay_ms,
                input: String::new(),
                has_input: false,
            },
        )
    }

    /// Sets the option `flag` to `value`.
    fn set_value(self, flag: &str, value: String) -> (r: Result<Settings, SettingsError>)
        ensures
            settings_views(r) == self@.with_value(flag@, value@),
    {
        let mut next = self;
        if same(flag, "--shared-data-dir") {
            next.shared_data_dir = Some(value);
        } else if same(flag, "--user-data-dir") {
            next.user_data_dir = Some(value);
        } else if same(flag, "--schema") {
            next.schema = value;
        } else if same(flag, "--config") {
            next.config_path = Some(value);
        } else if same(flag, "--conversion-mode") {
            next.conversion_mode = Some(ConversionMode::parse(&value)?);
        } else if same(flag, "--candidate-layout") {
            next.candidate_layout = Some(CandidateLayout::parse(&value)?);
        } else if same(flag, "--candidate-count") {
            next.candidate_count = Some(parse_usize(&value, flag)?);
        } else if same(flag, "--max-buffer-chars") {
            next.max_buffer_chars = parse_usize(&value, flag)?;
        } else {
            next.inject_delay_ms = parse_i32(&value, flag)?;
        }
        Ok(next)
    }

    /// Turns a switch on, or takes the argument as a part of the input.
    fn set_switch(&mut self, arg: &str)
        ensures
            final(self)@ == old(self)@.with_switch(arg@),
    {
        if same(arg, "--listen") {
            self.listen = true;
        } else if same(arg, "--log-events") {
            self.log_events = true;
        } else if same(arg, "--body") {
            self.body_mode = true;
        } else if same(arg, "--doctor") {
            self.doctor = true;
        } else {
            self.input = if self.has_input {
                join(&join(&self.input, " "), arg)
            } else {
                arg.to_owned()
            };
            self.has_input = true;
        }
    }

    /// Reads the command line; `None` where it asks for help.
    pub fn parse(self, args: &[String]) -> (r: Result<Option<Settings>, SettingsError>)
        ensures
            parsed_views(r) == self@.parsed(texts(args@)),
    {
        let ghost all = texts(args@);
        let ghost start = self@;
        let mut settings = self;
        let mut index: usize = 0;
        assert(all.skip(0) =~= all);
        while index < args.len()
            invariant
                index <= args@.len(),
                all == texts(args@),
                start == self@,
                start.parsed(all) == settings@.parsed(all.skip(index as int)),
            decreases args.len() - index,
        {
            let ghost rest = all.skip(index as int);
            let arg = args[index].as_str();
            assert(rest[0] == arg@);
            if has_value(arg) {
                let value = next_arg(args, index + 1, arg)?;
                assert(rest[1] == value@);
                assert(rest.skip(2) =~= all.skip(index + 2));
                settings = settings.set_value(arg, value)?;
                index = index + 2;
            } else if same(arg, "-h") || same(arg, "--help") {
                return Ok(None);
            } else if !has_no_value(arg) && starts_with(arg, "--") {
                return Err(SettingsError::UnknownOption { arg: arg.to_owned() });
            } else {
                assert(rest.drop_first() =~= all.skip(index + 1));
                settings.set_switch(arg);
                index = index + 1;
            }
        }
        assert(all.skip(index as int) =~= Seq::<Seq<char>>::empty());
        Ok(Some(settings))
    }
}

/// The configuration file, as it stands there.
#[derive(Debug, PartialEq, Eq)]
pub struct FileConfig {
    pub trigger_prefix: Option<String>,
    pub trigger_suffix: Option<String>,
    pub conversion_mode: Option<String>,
    pub candidate_layout: Option<String>,
    pub candidate_count: Option<usize>,
    pub candidate_select_keys: Option<String>,
    pub candidate_page_next_key: Option<String>,
    pub candidate_page_previous_key: Option<String>,
    pub english_commit_key: Option<String>,
}

/// What a [`FileConfig`] holds.
#[verifier::ext_equal]
pub struct FileView {
    pub trigger_prefix: Option<Seq<char>>,
    pub trigger_suffix: Option<Seq<char>>,
    pub conversion_mode: Option<Seq<char>>,
    pub candidate_layout: Option<Seq<char>>,
    pub candidate_count: Option<usize>,
    pub candidate_select_keys: Option<Seq<char>>,
    pub candidate_page_next_key: Option<Seq<char>>,
    pub candidate_page_previous_key: Option<Seq<char>>,
    pub english_commit_key: Option<Seq<char>>,
}

impl View for FileConfig {
    type V = FileView;

    open spec fn view(&self) -> FileView {
        FileView {
            trigger_prefix: text_option(self.trigger_prefix),
            trigger_suffix: text_option(self.trigger_suffix),
            conversion_mode: text_option(self.conversion_mode),
            candidate_layout: text_option(self.candidate_layout),
            candidate_count: self.candidate_count,
            candidate_select_keys: text_option(self.candidate_select_keys),
            candidate_page_next_key: text_option(self.candidate_page_next_key),
            candidate_page_previous_key: text_option(self.candidate_page_previous_key),
            english_commit_key: text_option(self.english_commit_key),
        }
    }
}

impl Default for FileConfig {
    /// A file that sets nothing.
    fn default() -> (r: Self)
        ensures
            r@ == (FileView {
                trigger_prefix: None,
                trigger_suffix: None,
                conversion_mode: None,
                candidate_layout: None,
                candidate_count: None,
                candidate_select_keys: None,
                candidate_page_next_key: None,
                candidate_page_previous_key: None,
                english_commit_key: None,
            }),
    {
        FileConfig {
            trigger_prefix: None,
            trigger_suffix: None,
            conversion_mode: None,
            candidate_layout: None,
            candidate_count: None,
            candidate_select_keys: None,
            candidate_page_next_key: None,
            candidate_page_previous_key: None,
            english_commit_key: None,
        }
    }
}

/// A value, or another where it is missing.
pub open spec fn or_else<T>(value: Option<T>, other: T) -> T {
    match value {
        Some(v) => v,
        None => other,
    }
}

impl FileView {
    /// The configuration of the file; what it does not set has its default.
    pub open spec fn resolved(self) -> Result<ConfigView, SettingsErrorView> {
        let defaults = default_config();
        let mode = match self.conversion_mode {
            Some(value) => ConversionMode::read(value),
            None => Ok(defaults.conversion_mode),
        };
        let layout = match self.candidate_layout {
            Some(value) => CandidateLayout::read(value),
            None => Ok(defaults.candidate_layout),
        };
        match (mode, layout) {
            (Err(e), _) => Err(e),
            (_, Err(e)) => Err(e),
            (Ok(conversion_mode), Ok(candidate_layout)) => Ok(
                ConfigView {
                    trigger_prefix: or_else(self.trigger_prefix, defaults.trigger_prefix),
                    trigger_suffix: or_else(self.trigger_suffix, defaults.trigger_suffix),
                    conversion_mode,
                    candidate_layout,
                    candidate_count: or_else(self.candidate_count, defaults.candidate_count),
                    candidate_select_keys: or_else(
                        self.candidate_select_keys,
                        defaults.candidate_select_keys,
                    ),
                    candidate_page_next_key: or_else(
                        self.candidate_page_next_key,
                        defaults.candidate_page_next_key,
                    ),
                    candidate_page_previous_key: or_else(
                        self.candidate_page_previous_key,
                        defaults.candidate_page_previous_key,
                    ),
                    english_commit_key: or_else(
                        self.english_commit_key,
                        defaults.english_commit_key,
                    ),
                },
            ),
        }
    }
}

/// What a result that holds a configuration holds.
pub open spec fn config_views(r: Result<AppConfig, SettingsError>) -> Result<
    ConfigView,
    SettingsErrorView,
> {
    match r {
        Ok(c) => Ok(c@),
        Err(e) => Err(e@),
    }
}

/// A string, or another where it is missing.
fn text_or(value: Option<String>, other: String) -> (r: String)
    ensures
        r@ == or_else(text_option(value), other@),
{
    match value {
        Some(value) => value,
        None => other,
    }
}

impl FileConfig {
    /// The configuration of the file.
    pub fn resolve(self) -> (r: Result<AppConfig, SettingsError>)
        ensures
            config_views(r) == self@.resolved(),
    {
        let defaults = AppConfig::default();
        let conversion_mode = match self.conversion_mode {
            Some(value) => ConversionMode::parse(&value)?,
            None => defaults.conversion_mode,
        };
        let candidate_layout = match self.candidate_layout {
            Some(value) => CandidateLayout::parse(&value)?,
            None => defaults.candidate_layout,
        };
        Ok(
            AppConfig {
                trigger_prefix: text_or(self.trigger_prefix, defaults.trigger_prefix),
                trigger_suffix: text_or(self.trigger_suffix, defaults.trigger_suffix),
                conversion_mode,
                candidate_layout,
                candidate_count: match self.candidate_count {
                    Some(count) => count,
                    None => defaults.candidate_count,
                },
                candidate_select_keys: text_or(
                    self.candidate_select_keys,
                    defaults.candidate_select_keys,
                ),
                candidate_page_next_key: text_or(
                    self.candidate_page_next_key,
                    defaults.candidate_page_next_key,
                ),
                candidate_page_previous_key: text_or(
                    self.candidate_page_previous_key,
                    defaults.candidate_page_previous_key,
                ),
                english_commit_key: text_or(self.english_commit_key, defaults.english_commit_key),
            },
        )
    }
}

/// Where the configuration comes from.
#[derive(Debug, Clone, Copy, PartialEq, Eq, Structural)]
pub enum ConfigSource {
    /// The file that an option names.
    Named,
    /// The file that the environment names.
    Environment,
    /// The file in the current directory.
    CurrentDirectory,
    /// The file beside the program.
    Packaged,
    /// No file: the defaults.
    Defaults,
}

/// Where the configuration comes from: the file that an option names, else the one that the
/// environment names, else the one in the current directory, else the one beside the program.
pub fn config_source(
    named: bool,
    in_environment: bool,
    in_current_directory: bool,
    packaged: bool,
) -> (r: ConfigSource)
    ensures
        r == if named {
            ConfigSource::Named
        } else if in_environment {
            ConfigSource::Environment
        } else if in_current_directory {
            ConfigSource::CurrentDirectory
        } else if packaged {
            ConfigSource::Packaged
        } else {
            ConfigSource::Defaults
        },
{
    if named {
        ConfigSource::Named
    } else if in_environment {
        ConfigSource::Environment
    } else if in_current_directory {
        ConfigSource::CurrentDirectory
    } else if packaged {
        ConfigSource::Packaged
    } else {
        ConfigSource::Defaults
    }
}

/// The options of a run.
#[derive(Debug, PartialEq, Eq)]
pub struct Options {
    pub schema: String,
    pub config: AppConfig,
    pub body_mode: bool,
    pub doctor: bool,
    pub listen: bool,
    pub max_buffer_chars: usize,
    pub inject_delay_ms: i32,
    pub log_events: bool,
    pub input: String,
}

/// What [`Options`] hold.
#[verifier::ext_equal]
pub struct OptionsView {
    pub schema: Seq<char>,
    pub config: ConfigView,
    pub body_mode: bool,
    pub doctor: bool,
    pub listen: bool,
    pub max_buffer_chars: usize,
    pub inject_delay_ms: i32,
    pub log_events: bool,
    pub input: Seq<char>,
}

impl View for Options {
    type V = OptionsView;

    open spec fn view(&self) -> OptionsView {
        OptionsView {
            schema: self.schema@,
            config: self.config@,
            body_mode: self.body_mode,
            doctor: self.doctor,
            listen: self.listen,
            max_buffer_chars: self.max_buffer_chars,
            inject_delay_ms: self.inject_delay_ms,
            log_events: self.log_events,
            input: self.input@,
        }
    }
}

impl OptionsView {
    /// The configuration is valid, and so are the runtime options.
    pub open spec fn valid(self) -> bool {
        &&& self.config.valid()
        &&& runtime_options_error(
            self.max_buffer_chars,
            self.inject_delay_ms,
            self.config.candidate_count,
        ) is None
    }
}

/// What a run is for.
#[derive(Debug, Clone, Copy, PartialEq, Eq, Structural)]
pub enum Task {
    /// To listen to the keyboard.
    Listen,
    /// To convert the input.
    Convert,
    /// To say what the settings are, and nothing else.
    Doctor,
    /// Nothing: there is no input, and that is refused.
    Refuse,
}

impl OptionsView {
    /// What the run is for: an empty input is refused, unless it is to listen or to say what
    /// the settings are.
    pub open spec fn task(self) -> Task {
        if self.listen {
            Task::Listen
        } else if self.input.len() > 0 {
            Task::Convert
        } else if self.doctor {
            Task::Doctor
        } else {
            Task::Refuse
        }
    }
}

impl Options {
    /// What the run is for.
    pub fn task(&self) -> (r: Task)
        ensures
            r == self@.task(),
    {
        if self.listen {
            Task::Listen
        } else if !self.input.as_str().is_empty() {
            Task::Convert
        } else if self.doctor {
            Task::Doctor
        } else {
            Task::Refuse
        }
    }
}

impl SettingsView {
    /// The configuration, with what the settings override.
    pub open spec fn overriding(self, config: ConfigView) -> ConfigView {
        ConfigView {
            conversion_mode: or_else(self.conversion_mode, config.conversion_mode),
            candidate_layout: or_else(self.candidate_layout, config.candidate_layout),
            candidate_count: or_else(self.candidate_count, config.candidate_count),
            ..config
        }
    }

    /// The options of a run with this configuration, or why they are refused.
    pub open spec fn options(self, config: ConfigView) -> Result<OptionsView, SettingsErrorView> {
        let config = self.overriding(config);
        match (
            config.error(),
            runtime_options_error(
                self.max_buffer_chars,
                self.inject_delay_ms,
                config.candidate_count,
            ),
        ) {
            (Some(e), _) => Err(SettingsErrorView::Config(e)),
            (None, Some(e)) => Err(SettingsErrorView::Runtime(e)),
            (None, None) => Ok(
                OptionsView {
                    schema: self.schema,
                    config,
                    body_mode: self.body_mode,
                    doctor: self.doctor,
                    listen: self.listen,
                    max_buffer_chars: self.max_buffer_chars,
                    inject_delay_ms: self.inject_delay_ms,
                    log_events: self.log_events,
                    input: self.input,
                },
            ),
        }
    }
}

/// What a result that holds [`Options`] holds.
pub open spec fn options_views(r: Result<Options, SettingsError>) -> Result<
    OptionsView,
    SettingsErrorView,
> {
    match r {
        Ok(o) => Ok(o@),
        Err(e) => Err(e@),
    }
}

impl Settings {
    /// The options of a run with this configuration. What comes out is valid.
    pub fn with_config(self, config: AppConfig) -> (r: Result<Options, SettingsError>)
        ensures
            options_views(r) == self@.options(config@),
            r matches Ok(options) ==> options@.valid(),
    {
        let mut config = config;
        if let Some(conversion_mode) = self.conversion_mode {
            config.conversion_mode = conversion_mode;
        }
        if let Some(candidate_layout) = self.candidate_layout {
            config.candidate_layout = candidate_layout;
        }
        if let Some(candidate_count) = self.candidate_count {
            config.candidate_count = candidate_count;
        }
        if let Err(error) = validate_config(&config) {
            return Err(SettingsError::Config(error));
        }
        if let Err(error) = validate_runtime_options(
            self.max_buffer_chars,
            self.inject_delay_ms,
            config.candidate_count,
        ) {
            return Err(SettingsError::Runtime(error));
        }
        Ok(
            Options {
                schema: self.schema,
                config,
                body_mode: self.body_mode,
                doctor: self.doctor,
                listen: self.listen,
                max_buffer_chars: self.max_buffer_chars,
                inject_delay_ms: self.inject_delay_ms,
                log_events: self.log_events,
                input: self.input,
            },
        )
    }
}

/// Arguments are read from left to right: what comes of a command line is what comes of its
/// second part from the settings that the first part has made.
pub proof fn law_arguments_are_read_in_order(
    settings: SettingsView,
    first: Seq<Seq<char>>,
    second: Seq<Seq<char>>,
)
    ensures
        settings.parsed(first) matches Ok(Some(between)) ==> settings.parsed(first + second)
            == between.parsed(second),
    decreases first.len(),
{
    let all = first + second;
    if first.len() == 0 {
        assert(all =~= second);
    } else {
        assert(all[0] == first[0]);
        if takes_value(first[0]) {
            if first.len() > 1 {
                assert(all[1] == first[1]);
                if let Ok(next) = settings.with_value(first[0], first[1]) {
                    law_arguments_are_read_in_order(next, first.skip(2), second);
                    assert(all.skip(2) =~= first.skip(2) + second);
                }
            }
        } else if !asks_for_help(first[0]) && (is_switch(first[0]) || !begins_with(first[0], "--"@)) {
            law_arguments_are_read_in_order(
                settings.with_switch(first[0]),
                first.drop_first(),
                second,
            );
            assert(all.drop_first() =~= first.drop_first() + second);
        }
    }
}

/// Options that are accepted are valid: their configuration passes every check, and so do the
/// runtime options.
pub proof fn law_accepted_options_are_valid(settings: SettingsView, config: ConfigView)
    ensures
        settings.options(config) matches Ok(options) ==> options.valid(),
        settings.options(config) is Ok <==> settings.overriding(config).valid()
            && runtime_options_error(
            settings.max_buffer_chars,
            settings.inject_delay_ms,
            settings.overriding(config).candidate_count,
        ) is None,
{
    law_no_error_means_valid(settings.overriding(config));
}

/// A configuration file that sets nothing gives the defaults.
pub proof fn law_file_that_sets_nothing_gives_the_defaults(file: FileView)
    requires
        file == (FileView {
            trigger_prefix: None,
            trigger_suffix: None,
            conversion_mode: None,
            candidate_layout: None,
            candidate_count: None,
            candidate_select_keys: None,
            candidate_page_next_key: None,
            candidate_page_previous_key: None,
            english_commit_key: None,
        }),
    ensures
        file.resolved() == Ok::<ConfigView, SettingsErrorView>(default_config()),
{
}

} // verus!
