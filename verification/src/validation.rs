//! The rules that a configuration obeys, and the first rule that a refused one breaks.

use vstd::prelude::*;

use crate::chars::{
    ascii_digit, control_char, is_ascii_digit, is_control, is_pinyin_char, is_reserved_separator,
    pinyin_char, reserved_separator,
};
use crate::config::{
    default_config, lemma_position, AppConfig, CandidateInteractionKey, ConfigError, ConfigView,
    RuntimeOptionsError, Setting, MAX_CANDIDATE_COUNT, MIN_CANDIDATE_COUNT, MIN_MAX_BUFFER_CHARS,
};
use crate::text::{contains_char, to_chars};

verus! {

/// The first character of `s` that is `such`.
pub open spec fn first_such(s: Seq<char>, such: spec_fn(char) -> bool) -> Option<char>
    decreases s.len(),
{
    if s.len() == 0 {
        None
    } else if such(s[0]) {
        Some(s[0])
    } else {
        first_such(s.drop_first(), such)
    }
}

/// What [`first_such`] finds.
proof fn lemma_first_such(s: Seq<char>, such: spec_fn(char) -> bool)
    ensures
        first_such(s, such) is None <==> forall|i: int| 0 <= i < s.len() ==> !such(#[trigger] s[i]),
        first_such(s, such) matches Some(ch) ==> such(ch) && s.contains(ch),
    decreases s.len(),
{
    if s.len() > 0 && !such(s[0]) {
        let rest = s.drop_first();
        lemma_first_such(rest, such);
        if first_such(s, such) is None {
            assert forall|i: int| 0 <= i < s.len() implies !such(#[trigger] s[i]) by {
                if i > 0 {
                    assert(s[i] == rest[i - 1]);
                }
            }
        } else {
            let ch = first_such(s, such)->0;
            let i = choose|i: int| 0 <= i < rest.len() && rest[i] == ch;
            assert(s[i + 1] == ch);
        }
        if forall|i: int| 0 <= i < s.len() ==> !such(#[trigger] s[i]) {
            assert forall|i: int| 0 <= i < rest.len() implies !such(#[trigger] rest[i]) by {
                assert(rest[i] == s[i + 1]);
            }
        }
    } else if s.len() > 0 {
        assert(such(s[0]));
    }
}

/// What is wrong with the trigger `value`.
pub open spec fn trigger_error(setting: Setting, value: Seq<char>) -> Option<ConfigError> {
    if value.len() == 0 {
        Some(ConfigError::EmptyTrigger { setting })
    } else {
        match first_such(value, |ch: char| reserved_separator(ch)) {
            Some(ch) => Some(ConfigError::ReservedTriggerChar { setting, ch }),
            None => None,
        }
    }
}

/// The key that the setting `value` names: its only character, which is not a control
/// character.
pub open spec fn read_key(setting: Setting, value: Seq<char>) -> Result<char, ConfigError> {
    if value.len() == 0 {
        Err(ConfigError::EmptyKey { setting })
    } else if value.len() > 1 || control_char(value[0]) {
        Err(ConfigError::NotOnePrintableKey { setting })
    } else {
        Ok(value[0])
    }
}

impl ConfigView {
    /// `ch` is part of a trigger.
    pub open spec fn in_trigger(self, ch: char) -> bool {
        self.trigger_prefix.contains(ch) || self.trigger_suffix.contains(ch)
    }

    /// What is wrong with `key` as a paging or English key.
    pub open spec fn named_key_error(self, setting: Setting, key: char) -> Option<ConfigError> {
        if pinyin_char(key) {
            Some(ConfigError::PinyinKey { setting, key })
        } else if self.candidate_select_keys.contains(key) {
            Some(ConfigError::KeyIsSelectKey { setting, key })
        } else if self.in_trigger(key) {
            Some(ConfigError::KeyIsTriggerChar { setting, key })
        } else {
            None
        }
    }

    /// What is wrong with the selection keys by themselves.
    pub open spec fn select_keys_error(self) -> Option<ConfigError> {
        let keys = self.candidate_select_keys;
        if keys.len() == 0 {
            Some(ConfigError::NoSelectKeys)
        } else if exists|i: int| 0 <= i < keys.len() && !ascii_digit(#[trigger] keys[i]) {
            Some(ConfigError::SelectKeyNotDigit)
        } else if !keys.no_duplicates() {
            Some(ConfigError::DuplicateSelectKey)
        } else if self.candidate_count > keys.len() {
            Some(
                ConfigError::CountExceedsSelectKeys {
                    count: self.candidate_count,
                    capacity: keys.len() as usize,
                },
            )
        } else {
            None
        }
    }

    /// What is wrong with three keys that have been read, taken together with the rest.
    pub open spec fn keys_error(
        self,
        next: char,
        previous: char,
        english: char,
    ) -> Option<ConfigError> {
        let next_error = self.named_key_error(Setting::CandidatePageNextKey, next);
        let previous_error = self.named_key_error(Setting::CandidatePagePreviousKey, previous);
        let english_error = self.named_key_error(Setting::EnglishCommitKey, english);
        if next_error is Some {
            next_error
        } else if previous_error is Some {
            previous_error
        } else if english_error is Some {
            english_error
        } else if next == previous || next == english || previous == english {
            Some(ConfigError::KeysNotDistinct)
        } else {
            match first_such(self.candidate_select_keys, |key: char| self.in_trigger(key)) {
                Some(key) => Some(ConfigError::SelectKeyIsTriggerChar { key }),
                None => None,
            }
        }
    }

    /// The first rule on candidate keys that is broken.
    pub open spec fn interaction_keys_error(self) -> Option<ConfigError> {
        if self.select_keys_error() is Some {
            self.select_keys_error()
        } else {
            match (
                read_key(Setting::CandidatePageNextKey, self.candidate_page_next_key),
                read_key(Setting::CandidatePagePreviousKey, self.candidate_page_previous_key),
                read_key(Setting::EnglishCommitKey, self.english_commit_key),
            ) {
                (Err(e), _, _) => Some(e),
                (_, Err(e), _) => Some(e),
                (_, _, Err(e)) => Some(e),
                (Ok(next), Ok(previous), Ok(english)) => self.keys_error(next, previous, english),
            }
        }
    }

    /// The first rule that is broken.
    pub open spec fn error(self) -> Option<ConfigError> {
        let prefix_error = trigger_error(Setting::TriggerPrefix, self.trigger_prefix);
        let suffix_error = trigger_error(Setting::TriggerSuffix, self.trigger_suffix);
        if prefix_error is Some {
            prefix_error
        } else if suffix_error is Some {
            suffix_error
        } else {
            self.interaction_keys_error()
        }
    }

    /// `value` is a key setting that a configuration may have: one character, which is no
    /// control character, no pinyin character, no selection key and no trigger character.
    pub open spec fn usable_key(self, value: Seq<char>) -> bool {
        &&& value.len() == 1
        &&& !control_char(value[0])
        &&& !pinyin_char(value[0])
        &&& !self.candidate_select_keys.contains(value[0])
        &&& !self.in_trigger(value[0])
    }

    /// All rules hold.
    pub open spec fn valid(self) -> bool {
        let keys = self.candidate_select_keys;
        &&& self.trigger_prefix.len() > 0
        &&& self.trigger_suffix.len() > 0
        &&& forall|ch: char| self.in_trigger(ch) ==> !reserved_separator(ch)
        &&& keys.len() > 0
        &&& forall|i: int| 0 <= i < keys.len() ==> ascii_digit(#[trigger] keys[i])
        &&& keys.no_duplicates()
        &&& self.candidate_count <= keys.len()
        &&& self.usable_key(self.candidate_page_next_key)
        &&& self.usable_key(self.candidate_page_previous_key)
        &&& self.usable_key(self.english_commit_key)
        &&& self.candidate_page_next_key != self.candidate_page_previous_key
        &&& self.candidate_page_next_key != self.english_commit_key
        &&& self.candidate_page_previous_key != self.english_commit_key
        &&& forall|ch: char| keys.contains(ch) ==> !self.in_trigger(ch)
    }
}

/// The answer that reports `error`.
pub open spec fn refusal(error: Option<ConfigError>) -> Result<(), ConfigError> {
    match error {
        Some(e) => Err(e),
        None => Ok(()),
    }
}

/// A configuration breaks no rule exactly if all rules hold.
pub proof fn law_no_error_means_valid(c: ConfigView)
    ensures
        c.error() is None <==> c.valid(),
{
    let keys = c.candidate_select_keys;
    let reserved = |ch: char| reserved_separator(ch);
    let in_trigger = |key: char| c.in_trigger(key);
    lemma_first_such(c.trigger_prefix, reserved);
    lemma_first_such(c.trigger_suffix, reserved);
    lemma_first_such(keys, in_trigger);
    if c.error() is None {
        assert forall|ch: char| c.in_trigger(ch) implies !reserved_separator(ch) by {
            if c.trigger_prefix.contains(ch) {
                let i = choose|i: int| 0 <= i < c.trigger_prefix.len() && c.trigger_prefix[i] == ch;
                assert(!reserved(c.trigger_prefix[i]));
            } else {
                let i = choose|i: int| 0 <= i < c.trigger_suffix.len() && c.trigger_suffix[i] == ch;
                assert(!reserved(c.trigger_suffix[i]));
            }
        }
        assert forall|ch: char| keys.contains(ch) implies !c.in_trigger(ch) by {
            let i = choose|i: int| 0 <= i < keys.len() && keys[i] == ch;
            assert(!in_trigger(keys[i]));
        }
    }
    if c.valid() {
        assert forall|i: int| 0 <= i < c.trigger_prefix.len() implies !reserved(
            #[trigger] c.trigger_prefix[i],
        ) by {
            assert(c.in_trigger(c.trigger_prefix[i]));
        }
        assert forall|i: int| 0 <= i < c.trigger_suffix.len() implies !reserved(
            #[trigger] c.trigger_suffix[i],
        ) by {
            assert(c.in_trigger(c.trigger_suffix[i]));
        }
        assert forall|i: int| 0 <= i < keys.len() implies !in_trigger(#[trigger] keys[i]) by {
            assert(keys.contains(keys[i]));
        }
        let next = c.candidate_page_next_key;
        let previous = c.candidate_page_previous_key;
        let english = c.english_commit_key;
        if next[0] == previous[0] {
            assert(next =~= previous);
        }
        if next[0] == english[0] {
            assert(next =~= english);
        }
        if previous[0] == english[0] {
            assert(previous =~= english);
        }
    }
}

/// Checks one trigger: it is not empty and holds no reserved separator.
pub fn validate_trigger_part(setting: Setting, value: &str) -> (r: Result<(), ConfigError>)
    ensures
        r == refusal(trigger_error(setting, value@)),
{
    let ghost reserved = |ch: char| reserved_separator(ch);
    let chars = to_chars(value);
    if chars.len() == 0 {
        return Err(ConfigError::EmptyTrigger { setting });
    }
    let mut i: usize = 0;
    assert(chars@.skip(0) =~= chars@);
    while i < chars.len()
        invariant
            i <= chars.len(),
            0 < chars.len(),
            chars@ == value@,
            reserved == (|ch: char| reserved_separator(ch)),
            first_such(value@, reserved) == first_such(chars@.skip(i as int), reserved),
        decreases chars.len() - i,
    {
        let ch = chars[i];
        if is_reserved_separator(ch) {
            return Err(ConfigError::ReservedTriggerChar { setting, ch });
        }
        assert(chars@.skip(i as int).drop_first() =~= chars@.skip(i + 1));
        i += 1;
    }
    Ok(())
}

/// Reads a key setting: exactly one character that is not a control character.
pub fn parse_interaction_key(setting: Setting, value: &str) -> (r: Result<char, ConfigError>)
    ensures
        r == read_key(setting, value@),
{
    let chars = to_chars(value);
    if chars.len() == 0 {
        return Err(ConfigError::EmptyKey { setting });
    }
    if chars.len() > 1 || is_control(chars[0]) {
        return Err(ConfigError::NotOnePrintableKey { setting });
    }
    Ok(chars[0])
}

/// Checks the selection keys by themselves.
fn validate_select_keys(config: &AppConfig) -> (r: Result<(), ConfigError>)
    ensures
        r == refusal(config@.select_keys_error()),
{
    let keys = to_chars(&config.candidate_select_keys);
    if keys.len() == 0 {
        return Err(ConfigError::NoSelectKeys);
    }
    let mut i: usize = 0;
    while i < keys.len()
        invariant
            i <= keys.len(),
            0 < keys.len(),
            keys@ == config@.candidate_select_keys,
            forall|j: int| 0 <= j < i ==> ascii_digit(#[trigger] keys@[j]),
        decreases keys.len() - i,
    {
        if !is_ascii_digit(keys[i]) {
            assert(!ascii_digit(keys@[i as int]));
            return Err(ConfigError::SelectKeyNotDigit);
        }
        i += 1;
    }
    i = 0;
    while i < keys.len()
        invariant
            i <= keys.len(),
            0 < keys.len(),
            keys@ == config@.candidate_select_keys,
            forall|j: int| 0 <= j < keys.len() ==> ascii_digit(#[trigger] keys@[j]),
            forall|a: int, b: int| 0 <= a < b < i ==> keys@[a] != keys@[b],
        decreases keys.len() - i,
    {
        let mut j: usize = 0;
        while j < i
            invariant
                j <= i < keys.len(),
                keys@ == config@.candidate_select_keys,
                forall|k: int| 0 <= k < keys.len() ==> ascii_digit(#[trigger] keys@[k]),
                forall|a: int| 0 <= a < j ==> keys@[a] != keys@[i as int],
            decreases i - j,
        {
            if keys[j] == keys[i] {
                assert(keys@[j as int] == keys@[i as int]);
                assert(!config@.candidate_select_keys.no_duplicates());
                return Err(ConfigError::DuplicateSelectKey);
            }
            j += 1;
        }
        i += 1;
    }
    assert(config@.candidate_select_keys.no_duplicates());
    if config.candidate_count > keys.len() {
        return Err(
            ConfigError::CountExceedsSelectKeys {
                count: config.candidate_count,
                capacity: keys.len(),
            },
        );
    }
    Ok(())
}

/// Is `ch` part of a trigger?
fn is_in_trigger(config: &AppConfig, ch: char) -> (r: bool)
    ensures
        r == config@.in_trigger(ch),
{
    contains_char(&config.trigger_prefix, ch) || contains_char(&config.trigger_suffix, ch)
}

/// Checks one paging or English key against pinyin, the selection keys and the triggers.
fn validate_named_key(config: &AppConfig, setting: Setting, key: char) -> (r: Result<
    (),
    ConfigError,
>)
    ensures
        r == refusal(config@.named_key_error(setting, key)),
{
    if is_pinyin_char(key) {
        Err(ConfigError::PinyinKey { setting, key })
    } else if contains_char(&config.candidate_select_keys, key) {
        Err(ConfigError::KeyIsSelectKey { setting, key })
    } else if is_in_trigger(config, key) {
        Err(ConfigError::KeyIsTriggerChar { setting, key })
    } else {
        Ok(())
    }
}

/// Checks the keys that work on candidates.
pub fn validate_interaction_keys(config: &AppConfig) -> (r: Result<(), ConfigError>)
    ensures
        r == refusal(config@.interaction_keys_error()),
{
    validate_select_keys(config)?;
    let page_next = parse_interaction_key(
        Setting::CandidatePageNextKey,
        &config.candidate_page_next_key,
    )?;
    let page_previous = parse_interaction_key(
        Setting::CandidatePagePreviousKey,
        &config.candidate_page_previous_key,
    )?;
    let english_commit = parse_interaction_key(
        Setting::EnglishCommitKey,
        &config.english_commit_key,
    )?;
    validate_named_key(config, Setting::CandidatePageNextKey, page_next)?;
    validate_named_key(config, Setting::CandidatePagePreviousKey, page_previous)?;
    validate_named_key(config, Setting::EnglishCommitKey, english_commit)?;
    if page_next == page_previous || page_next == english_commit || page_previous
        == english_commit {
        return Err(ConfigError::KeysNotDistinct);
    }
    let ghost in_trigger = |key: char| config@.in_trigger(key);
    let keys = to_chars(&config.candidate_select_keys);
    let mut i: usize = 0;
    assert(keys@.skip(0) =~= keys@);
    while i < keys.len()
        invariant
            i <= keys.len(),
            keys@ == config@.candidate_select_keys,
            in_trigger == (|key: char| config@.in_trigger(key)),
            first_such(keys@, in_trigger) == first_such(keys@.skip(i as int), in_trigger),
            config@.interaction_keys_error() == match first_such(keys@, in_trigger) {
                Some(key) => Some(ConfigError::SelectKeyIsTriggerChar { key }),
                None => None,
            },
        decreases keys.len() - i,
    {
        let key = keys[i];
        if is_in_trigger(config, key) {
            return Err(ConfigError::SelectKeyIsTriggerChar { key });
        }
        assert(keys@.skip(i as int).drop_first() =~= keys@.skip(i + 1));
        i += 1;
    }
    Ok(())
}

/// Checks a configuration. It is accepted exactly if all rules hold; otherwise the first
/// broken rule is reported.
pub fn validate_config(config: &AppConfig) -> (r: Result<(), ConfigError>)
    ensures
        r == refusal(config@.error()),
        r is Ok <==> config@.valid(),
{
    proof {
        law_no_error_means_valid(config@);
    }
    validate_trigger_part(Setting::TriggerPrefix, &config.trigger_prefix)?;
    validate_trigger_part(Setting::TriggerSuffix, &config.trigger_suffix)?;
    validate_interaction_keys(config)?;
    Ok(())
}

/// What is wrong with the runtime options.
pub open spec fn runtime_options_error(
    max_buffer_chars: usize,
    inject_delay_ms: i32,
    candidate_count: usize,
) -> Option<RuntimeOptionsError> {
    if max_buffer_chars < MIN_MAX_BUFFER_CHARS {
        Some(RuntimeOptionsError::BufferTooSmall)
    } else if inject_delay_ms < 0 {
        Some(RuntimeOptionsError::NegativeDelay)
    } else if candidate_count < MIN_CANDIDATE_COUNT {
        Some(RuntimeOptionsError::CountTooSmall)
    } else if candidate_count > MAX_CANDIDATE_COUNT {
        Some(RuntimeOptionsError::CountTooLarge)
    } else {
        None
    }
}

/// Checks the runtime options: a buffer of at least sixteen characters, a delay that is not
/// negative, and one to ten candidates.
pub fn validate_runtime_options(
    max_buffer_chars: usize,
    inject_delay_ms: i32,
    candidate_count: usize,
) -> (r: Result<(), RuntimeOptionsError>)
    ensures
        r == match runtime_options_error(max_buffer_chars, inject_delay_ms, candidate_count) {
            Some(e) => Err::<(), RuntimeOptionsError>(e),
            None => Ok(()),
        },
{
    if max_buffer_chars < MIN_MAX_BUFFER_CHARS {
        return Err(RuntimeOptionsError::BufferTooSmall);
    }
    if inject_delay_ms < 0 {
        return Err(RuntimeOptionsError::NegativeDelay);
    }
    if candidate_count < MIN_CANDIDATE_COUNT {
        return Err(RuntimeOptionsError::CountTooSmall);
    }
    if candidate_count > MAX_CANDIDATE_COUNT {
        return Err(RuntimeOptionsError::CountTooLarge);
    }
    Ok(())
}

/// The built-in settings are valid.
pub proof fn law_default_config_is_valid()
    ensures
        default_config().valid(),
{
    reveal_strlit(";;");
    reveal_strlit("1234567890");
    reveal_strlit("=");
    reveal_strlit("-");
    reveal_strlit("`");
    let c = default_config();
    let keys = c.candidate_select_keys;
    assert forall|ch: char| c.in_trigger(ch) implies ch == ';' by {
        let i = choose|i: int| 0 <= i < c.trigger_prefix.len() && c.trigger_prefix[i] == ch;
        assert(0 <= i < 2);
    }
    assert(keys.no_duplicates());
    assert(c.candidate_page_next_key[0] == '=');
    assert(c.candidate_page_previous_key[0] == '-');
    assert(c.english_commit_key[0] == '`');
}

/// In a valid configuration each key does what its setting says: the selection keys select,
/// each its own place, the paging and English keys page and commit, and no other key does
/// anything.
pub proof fn law_valid_keys_do_what_they_say(c: ConfigView)
    requires
        c.valid(),
    ensures
        forall|i: int|
            0 <= i < c.candidate_select_keys.len() ==> c.interaction_key(
                #[trigger] c.candidate_select_keys[i],
            ) == Some(CandidateInteractionKey::Select(i as usize)),
        c.interaction_key(c.candidate_page_next_key[0]) == Some(CandidateInteractionKey::NextPage),
        c.interaction_key(c.candidate_page_previous_key[0]) == Some(
            CandidateInteractionKey::PreviousPage,
        ),
        c.interaction_key(c.english_commit_key[0]) == Some(CandidateInteractionKey::EnglishCommit),
        forall|key: char|
            !c.candidate_select_keys.contains(key) && key != c.candidate_page_next_key[0] && key
                != c.candidate_page_previous_key[0] && key != c.english_commit_key[0]
                ==> #[trigger] c.interaction_key(key) is None,
{
    let keys = c.candidate_select_keys;
    assert forall|i: int| 0 <= i < keys.len() implies c.interaction_key(#[trigger] keys[i])
        == Some(CandidateInteractionKey::Select(i as usize)) by {
        lemma_position(keys, keys[i]);
        assert(keys.contains(keys[i]));
    }
    if c.candidate_page_next_key[0] == c.english_commit_key[0] {
        assert(c.candidate_page_next_key =~= c.english_commit_key);
    }
    if c.candidate_page_previous_key[0] == c.english_commit_key[0] {
        assert(c.candidate_page_previous_key =~= c.english_commit_key);
    }
    if c.candidate_page_previous_key[0] == c.candidate_page_next_key[0] {
        assert(c.candidate_page_previous_key =~= c.candidate_page_next_key);
    }
}

/// In a valid configuration a key that works on candidates is neither a pinyin character nor
/// part of a trigger.
pub proof fn law_candidate_keys_are_apart(c: ConfigView, key: char)
    requires
        c.valid(),
        c.interaction_key(key) is Some,
    ensures
        !pinyin_char(key),
        !c.in_trigger(key),
{
    let keys = c.candidate_select_keys;
    if keys.contains(key) {
        let i = choose|i: int| 0 <= i < keys.len() && keys[i] == key;
        assert(ascii_digit(keys[i]));
    }
}

} // verus!
