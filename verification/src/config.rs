//! Configuration: triggers, candidate keys and conversion mode, and the rules they obey.

use vstd::prelude::*;

use crate::text::{
    char_count, char_debug, debug_char, debug_str, decimal, decimal_of, join, same, str_debug,
    to_chars,
};

verus! {

/// The configuration file that is read where none is named.
pub const DEFAULT_CONFIG_FILE: &'static str = "rime-poc.toml";

pub const DEFAULT_TRIGGER: &'static str = ";;";

pub const DEFAULT_MAX_BUFFER_CHARS: usize = 4096;

pub const DEFAULT_INJECT_DELAY_MS: i32 = 1;

pub const DEFAULT_CANDIDATE_COUNT: usize = 5;

pub const DEFAULT_CANDIDATE_SELECT_KEYS: &'static str = "1234567890";

pub const DEFAULT_CANDIDATE_PAGE_NEXT_KEY: &'static str = "=";

pub const DEFAULT_CANDIDATE_PAGE_PREVIOUS_KEY: &'static str = "-";

pub const DEFAULT_ENGLISH_COMMIT_KEY: &'static str = "`";

pub const MIN_MAX_BUFFER_CHARS: usize = 16;

pub const MIN_CANDIDATE_COUNT: usize = 1;

pub const MAX_CANDIDATE_COUNT: usize = 10;

/// How a body is turned into Chinese text.
#[derive(Debug, Clone, Copy, PartialEq, Eq, Structural)]
pub enum ConversionMode {
    /// Each pinyin run is converted on its own, separators are mapped.
    Segmented,
    /// The whole body is fed to one engine session.
    RimeAuto,
}

/// How the candidate panel lists its candidates.
#[derive(Debug, Clone, Copy, PartialEq, Eq, Structural)]
pub enum CandidateLayout {
    Horizontal,
    Vertical,
}

/// What a key does while candidates are shown.
#[derive(Debug, Clone, Copy, PartialEq, Eq, Structural)]
pub enum CandidateInteractionKey {
    /// Takes the candidate at this place of the page.
    Select(usize),
    NextPage,
    PreviousPage,
    /// Commits the typed letters as they are.
    EnglishCommit,
}

/// The settings of the tool.
#[derive(Debug, PartialEq, Eq)]
pub struct AppConfig {
    pub trigger_prefix: String,
    pub trigger_suffix: String,
    pub conversion_mode: ConversionMode,
    pub candidate_layout: CandidateLayout,
    pub candidate_count: usize,
    pub candidate_select_keys: String,
    pub candidate_page_next_key: String,
    pub candidate_page_previous_key: String,
    pub english_commit_key: String,
}

/// What an [`AppConfig`] holds.
#[verifier::ext_equal]
pub struct ConfigView {
    pub trigger_prefix: Seq<char>,
    pub trigger_suffix: Seq<char>,
    pub conversion_mode: ConversionMode,
    pub candidate_layout: CandidateLayout,
    pub candidate_count: usize,
    pub candidate_select_keys: Seq<char>,
    pub candidate_page_next_key: Seq<char>,
    pub candidate_page_previous_key: Seq<char>,
    pub english_commit_key: Seq<char>,
}

impl View for AppConfig {
    type V = ConfigView;

    open spec fn view(&self) -> ConfigView {
        ConfigView {
            trigger_prefix: self.trigger_prefix@,
            trigger_suffix: self.trigger_suffix@,
            conversion_mode: self.conversion_mode,
            candidate_layout: self.candidate_layout,
            candidate_count: self.candidate_count,
            candidate_select_keys: self.candidate_select_keys@,
            candidate_page_next_key: self.candidate_page_next_key@,
            candidate_page_previous_key: self.candidate_page_previous_key@,
            english_commit_key: self.english_commit_key@,
        }
    }
}

impl Clone for AppConfig {
    fn clone(&self) -> (r: Self)
        ensures
            r@ == self@,
    {
        AppConfig {
            trigger_prefix: self.trigger_prefix.clone(),
            trigger_suffix: self.trigger_suffix.clone(),
            conversion_mode: self.conversion_mode,
            candidate_layout: self.candidate_layout,
            candidate_count: self.candidate_count,
            candidate_select_keys: self.candidate_select_keys.clone(),
            candidate_page_next_key: self.candidate_page_next_key.clone(),
            candidate_page_previous_key: self.candidate_page_previous_key.clone(),
            english_commit_key: self.english_commit_key.clone(),
        }
    }
}

/// The settings that hold where nothing else is said.
pub open spec fn default_config() -> ConfigView {
    ConfigView {
        trigger_prefix: DEFAULT_TRIGGER@,
        trigger_suffix: DEFAULT_TRIGGER@,
        conversion_mode: ConversionMode::Segmented,
        candidate_layout: CandidateLayout::Horizontal,
        candidate_count: DEFAULT_CANDIDATE_COUNT,
        candidate_select_keys: DEFAULT_CANDIDATE_SELECT_KEYS@,
        candidate_page_next_key: DEFAULT_CANDIDATE_PAGE_NEXT_KEY@,
        candidate_page_previous_key: DEFAULT_CANDIDATE_PAGE_PREVIOUS_KEY@,
        english_commit_key: DEFAULT_ENGLISH_COMMIT_KEY@,
    }
}

impl Default for AppConfig {
    fn default() -> (r: Self)
        ensures
            r@ == default_config(),
    {
        AppConfig {
            trigger_prefix: DEFAULT_TRIGGER.to_owned(),
            trigger_suffix: DEFAULT_TRIGGER.to_owned(),
            conversion_mode: ConversionMode::Segmented,
            candidate_layout: CandidateLayout::Horizontal,
            candidate_count: DEFAULT_CANDIDATE_COUNT,
            candidate_select_keys: DEFAULT_CANDIDATE_SELECT_KEYS.to_owned(),
            candidate_page_next_key: DEFAULT_CANDIDATE_PAGE_NEXT_KEY.to_owned(),
            candidate_page_previous_key: DEFAULT_CANDIDATE_PAGE_PREVIOUS_KEY.to_owned(),
            english_commit_key: DEFAULT_ENGLISH_COMMIT_KEY.to_owned(),
        }
    }
}

/// A setting that is checked.
#[derive(Debug, Clone, Copy, PartialEq, Eq, Structural)]
pub enum Setting {
    TriggerPrefix,
    TriggerSuffix,
    CandidatePageNextKey,
    CandidatePagePreviousKey,
    EnglishCommitKey,
}

impl Setting {
    /// The name of the setting in a configuration file.
    pub open spec fn name(self) -> Seq<char> {
        match self {
            Setting::TriggerPrefix => "trigger_prefix"@,
            Setting::TriggerSuffix => "trigger_suffix"@,
            Setting::CandidatePageNextKey => "candidate_page_next_key"@,
            Setting::CandidatePagePreviousKey => "candidate_page_previous_key"@,
            Setting::EnglishCommitKey => "english_commit_key"@,
        }
    }

    /// The name of the setting in a configuration file.
    pub fn as_str(self) -> (r: &'static str)
        ensures
            r@ == self.name(),
    {
        match self {
            Setting::TriggerPrefix => "trigger_prefix",
            Setting::TriggerSuffix => "trigger_suffix",
            Setting::CandidatePageNextKey => "candidate_page_next_key",
            Setting::CandidatePagePreviousKey => "candidate_page_previous_key",
            Setting::EnglishCommitKey => "english_commit_key",
        }
    }
}

/// Why a configuration is refused.
#[derive(Debug, Clone, Copy, PartialEq, Eq, Structural)]
pub enum ConfigError {
    /// A trigger is empty.
    EmptyTrigger { setting: Setting },
    /// A trigger holds a reserved separator.
    ReservedTriggerChar { setting: Setting, ch: char },
    /// There are no selection keys.
    NoSelectKeys,
    /// A selection key is not an ASCII digit.
    SelectKeyNotDigit,
    /// A selection key occurs twice.
    DuplicateSelectKey,
    /// More candidates are shown than there are selection keys.
    CountExceedsSelectKeys { count: usize, capacity: usize },
    /// A key setting is empty.
    EmptyKey { setting: Setting },
    /// A key setting holds more than one character, or a control character.
    NotOnePrintableKey { setting: Setting },
    /// A key is a pinyin character.
    PinyinKey { setting: Setting, key: char },
    /// A key is a selection key too.
    KeyIsSelectKey { setting: Setting, key: char },
    /// A key is part of a trigger.
    KeyIsTriggerChar { setting: Setting, key: char },
    /// Two of the paging and English keys are the same.
    KeysNotDistinct,
    /// A selection key is part of a trigger.
    SelectKeyIsTriggerChar { key: char },
}

impl ConfigError {
    /// What the user is told of the error.
    pub open spec fn text(self) -> Seq<char> {
        match self {
            ConfigError::EmptyTrigger { setting } => setting.name() + " cannot be empty"@,
            ConfigError::ReservedTriggerChar { setting, ch } => setting.name()
                + " contains reserved separator character: "@ + char_debug(ch),
            ConfigError::NoSelectKeys => "candidate_select_keys must not be empty"@,
            ConfigError::SelectKeyNotDigit =>
            "candidate_select_keys must contain only ASCII digits"@,
            ConfigError::DuplicateSelectKey =>
            "candidate_select_keys must not contain duplicate digits"@,
            ConfigError::CountExceedsSelectKeys { count, capacity } => "candidate_count ("@
                + decimal(count as nat) + ") exceeds candidate_select_keys capacity ("@ + decimal(
                capacity as nat,
            ) + ")"@,
            ConfigError::EmptyKey { setting } => setting.name()
                + " must contain exactly one character"@,
            ConfigError::NotOnePrintableKey { setting } => setting.name()
                + " must contain exactly one printable character"@,
            ConfigError::PinyinKey { setting, key } => setting.name()
                + " must not be an ASCII pinyin character: "@ + char_debug(key),
            ConfigError::KeyIsSelectKey { setting, key } => setting.name()
                + " conflicts with candidate_select_keys: "@ + char_debug(key),
            ConfigError::KeyIsTriggerChar { setting, key } => setting.name()
                + " conflicts with a trigger character: "@ + char_debug(key),
            ConfigError::KeysNotDistinct =>
            "candidate page keys and english_commit_key must be distinct"@,
            ConfigError::SelectKeyIsTriggerChar { key } =>
            "candidate_select_keys conflicts with a trigger character: "@ + char_debug(key),
        }
    }

    /// What the user is told of the error.
    pub fn message(self) -> (r: String)
        ensures
            r@ == self.text(),
    {
        match self {
            ConfigError::EmptyTrigger { setting } => join(setting.as_str(), " cannot be empty"),
            ConfigError::ReservedTriggerChar { setting, ch } => join(
                &join(setting.as_str(), " contains reserved separator character: "),
                &debug_char(ch),
            ),
            ConfigError::NoSelectKeys => "candidate_select_keys must not be empty".to_owned(),
            ConfigError::SelectKeyNotDigit =>
            "candidate_select_keys must contain only ASCII digits".to_owned(),
            ConfigError::DuplicateSelectKey =>
            "candidate_select_keys must not contain duplicate digits".to_owned(),
            ConfigError::CountExceedsSelectKeys { count, capacity } => {
                let mut out = "candidate_count (".to_owned();
                out.append(&decimal_of(count));
                out.append(") exceeds candidate_select_keys capacity (");
                out.append(&decimal_of(capacity));
                out.append(")");
                out
            },
            ConfigError::EmptyKey { setting } => join(
                setting.as_str(),
                " must contain exactly one character",
            ),
            ConfigError::NotOnePrintableKey { setting } => join(
                setting.as_str(),
                " must contain exactly one printable character",
            ),
            ConfigError::PinyinKey { setting, key } => join(
                &join(setting.as_str(), " must not be an ASCII pinyin character: "),
                &debug_char(key),
            ),
            ConfigError::KeyIsSelectKey { setting, key } => join(
                &join(setting.as_str(), " conflicts with candidate_select_keys: "),
                &debug_char(key),
            ),
            ConfigError::KeyIsTriggerChar { setting, key } => join(
                &join(setting.as_str(), " conflicts with a trigger character: "),
                &debug_char(key),
            ),
            ConfigError::KeysNotDistinct =>
            "candidate page keys and english_commit_key must be distinct".to_owned(),
            ConfigError::SelectKeyIsTriggerChar { key } => join(
                "candidate_select_keys conflicts with a trigger character: ",
                &debug_char(key),
            ),
        }
    }
}

/// Why a runtime option is refused.
#[derive(Debug, Clone, Copy, PartialEq, Eq, Structural)]
pub enum RuntimeOptionsError {
    BufferTooSmall,
    NegativeDelay,
    CountTooSmall,
    CountTooLarge,
}

impl RuntimeOptionsError {
    /// What the user is told of the error.
    pub open spec fn text(self) -> Seq<char> {
        match self {
            RuntimeOptionsError::BufferTooSmall => "max buffer chars must be at least "@ + decimal(
                MIN_MAX_BUFFER_CHARS as nat,
            ),
            RuntimeOptionsError::NegativeDelay =>
            "inject delay must be greater than or equal to 0"@,
            RuntimeOptionsError::CountTooSmall => "candidate count must be at least "@ + decimal(
                MIN_CANDIDATE_COUNT as nat,
            ),
            RuntimeOptionsError::CountTooLarge => "candidate count must be at most "@ + decimal(
                MAX_CANDIDATE_COUNT as nat,
            ),
        }
    }

    /// What the user is told of the error.
    pub fn message(self) -> (r: String)
        ensures
            r@ == self.text(),
    {
        match self {
            RuntimeOptionsError::BufferTooSmall => join(
                "max buffer chars must be at least ",
                &decimal_of(MIN_MAX_BUFFER_CHARS),
            ),
            RuntimeOptionsError::NegativeDelay =>
            "inject delay must be greater than or equal to 0".to_owned(),
            RuntimeOptionsError::CountTooSmall => join(
                "candidate count must be at least ",
                &decimal_of(MIN_CANDIDATE_COUNT),
            ),
            RuntimeOptionsError::CountTooLarge => join(
                "candidate count must be at most ",
                &decimal_of(MAX_CANDIDATE_COUNT),
            ),
        }
    }
}

/// Why the settings, from whatever source, are refused.
#[derive(Debug, PartialEq, Eq)]
pub enum SettingsError {
    /// Not the name of a conversion mode.
    ConversionMode { value: String },
    /// Not the name of a candidate layout.
    CandidateLayout { value: String },
    /// The named value is not a number of type `usize`.
    NotPositiveInteger { name: String, value: String },
    /// The named value is not a number of type `i32`.
    NotInteger { name: String, value: String },
    /// An option stands at the end without its value.
    MissingValue { flag: String },
    /// There is no such option.
    UnknownOption { arg: String },
    Config(ConfigError),
    Runtime(RuntimeOptionsError),
}

/// What a [`SettingsError`] holds.
pub enum SettingsErrorView {
    ConversionMode { value: Seq<char> },
    CandidateLayout { value: Seq<char> },
    NotPositiveInteger { name: Seq<char>, value: Seq<char> },
    NotInteger { name: Seq<char>, value: Seq<char> },
    MissingValue { flag: Seq<char> },
    UnknownOption { arg: Seq<char> },
    Config(ConfigError),
    Runtime(RuntimeOptionsError),
}

impl View for SettingsError {
    type V = SettingsErrorView;

    open spec fn view(&self) -> SettingsErrorView {
        match *self {
            SettingsError::ConversionMode { value } => SettingsErrorView::ConversionMode {
                value: value@,
            },
            SettingsError::CandidateLayout { value } => SettingsErrorView::CandidateLayout {
                value: value@,
            },
            SettingsError::NotPositiveInteger { name, value } =>
            SettingsErrorView::NotPositiveInteger { name: name@, value: value@ },
            SettingsError::NotInteger { name, value } => SettingsErrorView::NotInteger {
                name: name@,
                value: value@,
            },
            SettingsError::MissingValue { flag } => SettingsErrorView::MissingValue { flag: flag@ },
            SettingsError::UnknownOption { arg } => SettingsErrorView::UnknownOption { arg: arg@ },
            SettingsError::Config(e) => SettingsErrorView::Config(e),
            SettingsError::Runtime(e) => SettingsErrorView::Runtime(e),
        }
    }
}

impl SettingsErrorView {
    /// What the user is told of the error.
    pub open spec fn text(self) -> Seq<char> {
        match self {
            SettingsErrorView::ConversionMode { value } => "invalid conversion mode "@ + str_debug(
                value,
            ) + "; expected \"segmented\" or \"rime-auto\""@,
            SettingsErrorView::CandidateLayout { value } => "invalid candidate layout "@
                + str_debug(value) + "; expected \"horizontal\" or \"vertical\""@,
            SettingsErrorView::NotPositiveInteger { name, .. } => "failed to parse "@ + name
                + " as a positive integer"@,
            SettingsErrorView::NotInteger { name, .. } => "failed to parse "@ + name
                + " as an integer"@,
            SettingsErrorView::MissingValue { flag } => "missing value for "@ + flag,
            SettingsErrorView::UnknownOption { arg } => "unknown option: "@ + arg,
            SettingsErrorView::Config(e) => e.text(),
            SettingsErrorView::Runtime(e) => e.text(),
        }
    }
}

impl SettingsError {
    /// What the user is told of the error.
    pub fn message(&self) -> (r: String)
        ensures
            r@ == self@.text(),
    {
        match self {
            SettingsError::ConversionMode { value } => join(
                &join("invalid conversion mode ", &debug_str(value)),
                "; expected \"segmented\" or \"rime-auto\"",
            ),
            SettingsError::CandidateLayout { value } => join(
                &join("invalid candidate layout ", &debug_str(value)),
                "; expected \"horizontal\" or \"vertical\"",
            ),
            SettingsError::NotPositiveInteger { name, .. } => join(
                &join("failed to parse ", name),
                " as a positive integer",
            ),
            SettingsError::NotInteger { name, .. } => join(
                &join("failed to parse ", name),
                " as an integer",
            ),
            SettingsError::MissingValue { flag } => join("missing value for ", flag),
            SettingsError::UnknownOption { arg } => join("unknown option: ", arg),
            SettingsError::Config(e) => e.message(),
            SettingsError::Runtime(e) => e.message(),
        }
    }
}

/// What a result of settings work holds.
pub open spec fn settings_result<T>(r: Result<T, SettingsError>) -> Result<T, SettingsErrorView> {
    match r {
        Ok(v) => Ok(v),
        Err(e) => Err(e@),
    }
}

impl ConversionMode {
    /// The mode that `name` names.
    pub open spec fn named(name: Seq<char>) -> Option<ConversionMode> {
        if name == "segmented"@ || name == "segment"@ {
            Some(ConversionMode::Segmented)
        } else if name == "rime-auto"@ || name == "rime_auto"@ || name == "auto"@ {
            Some(ConversionMode::RimeAuto)
        } else {
            None
        }
    }

    /// What reading `name` as a mode gives.
    pub open spec fn read(name: Seq<char>) -> Result<ConversionMode, SettingsErrorView> {
        match ConversionMode::named(name) {
            Some(mode) => Ok(mode),
            None => Err(SettingsErrorView::ConversionMode { value: name }),
        }
    }

    /// Reads the name of a mode.
    pub fn parse(value: &str) -> (r: Result<ConversionMode, SettingsError>)
        ensures
            settings_result(r) == ConversionMode::read(value@),
    {
        if same(value, "segmented") || same(value, "segment") {
            Ok(ConversionMode::Segmented)
        } else if same(value, "rime-auto") || same(value, "rime_auto") || same(value, "auto") {
            Ok(ConversionMode::RimeAuto)
        } else {
            Err(SettingsError::ConversionMode { value: value.to_owned() })
        }
    }

    /// The name of the mode.
    pub open spec fn name(self) -> Seq<char> {
        match self {
            ConversionMode::Segmented => "segmented"@,
            ConversionMode::RimeAuto => "rime-auto"@,
        }
    }

    /// The name of the mode.
    pub fn as_str(self) -> (r: &'static str)
        ensures
            r@ == self.name(),
    {
        match self {
            ConversionMode::Segmented => "segmented",
            ConversionMode::RimeAuto => "rime-auto",
        }
    }
}

impl CandidateLayout {
    /// The layout that `name` names.
    pub open spec fn named(name: Seq<char>) -> Option<CandidateLayout> {
        if name == "horizontal"@ || name == "h"@ {
            Some(CandidateLayout::Horizontal)
        } else if name == "vertical"@ || name == "v"@ {
            Some(CandidateLayout::Vertical)
        } else {
            None
        }
    }

    /// What reading `name` as a layout gives.
    pub open spec fn read(name: Seq<char>) -> Result<CandidateLayout, SettingsErrorView> {
        match CandidateLayout::named(name) {
            Some(layout) => Ok(layout),
            None => Err(SettingsErrorView::CandidateLayout { value: name }),
        }
    }

    /// Reads the name of a layout.
    pub fn parse(value: &str) -> (r: Result<CandidateLayout, SettingsError>)
        ensures
            settings_result(r) == CandidateLayout::read(value@),
    {
        if same(value, "horizontal") || same(value, "h") {
            Ok(CandidateLayout::Horizontal)
        } else if same(value, "vertical") || same(value, "v") {
            Ok(CandidateLayout::Vertical)
        } else {
            Err(SettingsError::CandidateLayout { value: value.to_owned() })
        }
    }

    /// The name of the layout.
    pub open spec fn name(self) -> Seq<char> {
        match self {
            CandidateLayout::Horizontal => "horizontal"@,
            CandidateLayout::Vertical => "vertical"@,
        }
    }

    /// The name of the layout.
    pub fn as_str(self) -> (r: &'static str)
        ensures
            r@ == self.name(),
    {
        match self {
            CandidateLayout::Horizontal => "horizontal",
            CandidateLayout::Vertical => "vertical",
        }
    }
}

/// A mode is read back from its own name.
pub proof fn law_mode_name_reads_back(mode: ConversionMode)
    ensures
        ConversionMode::read(mode.name()) == Ok::<ConversionMode, SettingsErrorView>(mode),
{
    reveal_strlit("segmented");
    reveal_strlit("segment");
    reveal_strlit("rime-auto");
    assert("segmented"@.len() != "rime-auto"@.len() || "segmented"@[0] != "rime-auto"@[0]);
    assert("segment"@.len() != "rime-auto"@.len());
}

/// A layout is read back from its own name.
pub proof fn law_layout_name_reads_back(layout: CandidateLayout)
    ensures
        CandidateLayout::read(layout.name()) == Ok::<CandidateLayout, SettingsErrorView>(layout),
{
    reveal_strlit("horizontal");
    reveal_strlit("h");
    reveal_strlit("vertical");
    assert("horizontal"@.len() != "vertical"@.len());
    assert("h"@.len() != "vertical"@.len());
}

/// `s` begins with `key`.
pub open spec fn first_is(s: Seq<char>, key: char) -> bool {
    s.len() > 0 && s[0] == key
}

/// The first place at which `key` stands in `s`, or the length of `s` where it does not.
pub open spec fn position(s: Seq<char>, key: char) -> nat
    decreases s.len(),
{
    if s.len() == 0 || s[0] == key {
        0
    } else {
        1 + position(s.drop_first(), key)
    }
}

/// What [`position`] finds.
pub proof fn lemma_position(s: Seq<char>, key: char)
    ensures
        position(s, key) <= s.len(),
        position(s, key) < s.len() <==> s.contains(key),
        position(s, key) < s.len() ==> s[position(s, key) as int] == key,
        forall|j: int| 0 <= j < position(s, key) ==> s[j] != key,
    decreases s.len(),
{
    if s.len() > 0 && s[0] != key {
        let rest = s.drop_first();
        lemma_position(rest, key);
        assert forall|j: int| 0 <= j < position(s, key) implies s[j] != key by {
            if j > 0 {
                assert(s[j] == rest[j - 1]);
            }
        }
        if s.contains(key) {
            let j = choose|j: int| 0 <= j < s.len() && s[j] == key;
            assert(rest[j - 1] == key);
        }
        if rest.contains(key) {
            let j = choose|j: int| 0 <= j < rest.len() && rest[j] == key;
            assert(s[j + 1] == key);
        }
    }
}

impl ConfigView {
    /// What `key` does while candidates are shown: the English key comes first, then the
    /// selection keys, each for its place, then the paging keys.
    pub open spec fn interaction_key(self, key: char) -> Option<CandidateInteractionKey> {
        if first_is(self.english_commit_key, key) {
            Some(CandidateInteractionKey::EnglishCommit)
        } else if self.candidate_select_keys.contains(key) {
            Some(
                CandidateInteractionKey::Select(position(self.candidate_select_keys, key) as usize),
            )
        } else if first_is(self.candidate_page_next_key, key) {
            Some(CandidateInteractionKey::NextPage)
        } else if first_is(self.candidate_page_previous_key, key) {
            Some(CandidateInteractionKey::PreviousPage)
        } else {
            None
        }
    }
}

/// Does `s` begin with `key`?
fn begins_with_key(s: &str, key: char) -> (r: bool)
    ensures
        r == first_is(s@, key),
{
    char_count(s) > 0 && s.get_char(0) == key
}

impl AppConfig {
    /// What `key` does while candidates are shown.
    pub fn candidate_interaction_key(&self, key: char) -> (r: Option<CandidateInteractionKey>)
        ensures
            r == self@.interaction_key(key),
    {
        if begins_with_key(&self.english_commit_key, key) {
            return Some(CandidateInteractionKey::EnglishCommit);
        }
        let select_keys = to_chars(&self.candidate_select_keys);
        let mut index: usize = 0;
        assert(select_keys@.skip(0) =~= select_keys@);
        while index < select_keys.len()
            invariant
                index <= select_keys.len(),
                select_keys@ == self@.candidate_select_keys,
                !first_is(self@.english_commit_key, key),
                forall|j: int| 0 <= j < index ==> select_keys@[j] != key,
                position(select_keys@, key) == index + position(
                    select_keys@.skip(index as int),
                    key,
                ),
            decreases select_keys.len() - index,
        {
            if select_keys[index] == key {
                assert(select_keys@[index as int] == key);
                return Some(CandidateInteractionKey::Select(index));
            }
            assert(select_keys@.skip(index as int).drop_first() =~= select_keys@.skip(index + 1));
            index += 1;
        }
        if begins_with_key(&self.candidate_page_next_key, key) {
            return Some(CandidateInteractionKey::NextPage);
        }
        if begins_with_key(&self.candidate_page_previous_key, key) {
            return Some(CandidateInteractionKey::PreviousPage);
        }
        None
    }
}

} // verus!
