//! Taking the body out of a text with triggers.

use vstd::prelude::*;

use crate::config::{AppConfig, ConfigView};
use crate::text::{
    begins_with, char_count, debug_str, ends_with, finishes_with, join, slice, starts_with,
    str_debug,
};

verus! {

/// Why a text with triggers is refused.
#[derive(Debug, PartialEq, Eq)]
pub enum ExtractError {
    /// The text does not begin with the trigger.
    MissingPrefix { prefix: String },
    /// The text does not end with the trigger.
    MissingSuffix { suffix: String },
    /// The triggers overlap.
    TooShort,
}

/// What an [`ExtractError`] holds.
pub enum ExtractErrorView {
    MissingPrefix { prefix: Seq<char> },
    MissingSuffix { suffix: Seq<char> },
    TooShort,
}

impl View for ExtractError {
    type V = ExtractErrorView;

    open spec fn view(&self) -> ExtractErrorView {
        match *self {
            ExtractError::MissingPrefix { prefix } => ExtractErrorView::MissingPrefix {
                prefix: prefix@,
            },
            ExtractError::MissingSuffix { suffix } => ExtractErrorView::MissingSuffix {
                suffix: suffix@,
            },
            ExtractError::TooShort => ExtractErrorView::TooShort,
        }
    }
}

impl ExtractErrorView {
    /// What the user is told of the error.
    pub open spec fn text(self) -> Seq<char> {
        match self {
            ExtractErrorView::MissingPrefix { prefix } =>
            "input does not start with configured trigger_prefix: "@ + str_debug(prefix),
            ExtractErrorView::MissingSuffix { suffix } =>
            "input does not end with configured trigger_suffix: "@ + str_debug(suffix),
            ExtractErrorView::TooShort => "input is shorter than configured triggers"@,
        }
    }
}

impl ExtractError {
    /// What the user is told of the error.
    pub fn message(&self) -> (r: String)
        ensures
            r@ == self@.text(),
    {
        match self {
            ExtractError::MissingPrefix { prefix } => join(
                "input does not start with configured trigger_prefix: ",
                &debug_str(prefix),
            ),
            ExtractError::MissingSuffix { suffix } => join(
                "input does not end with configured trigger_suffix: ",
                &debug_str(suffix),
            ),
            ExtractError::TooShort => "input is shorter than configured triggers".to_owned(),
        }
    }
}

/// The body of `input`: all of it where it is given as a body, otherwise what stands between
/// the triggers.
pub open spec fn body_of(input: Seq<char>, config: ConfigView, body_mode: bool) -> Result<
    Seq<char>,
    ExtractErrorView,
> {
    let prefix = config.trigger_prefix;
    let suffix = config.trigger_suffix;
    if body_mode {
        Ok(input)
    } else if !begins_with(input, prefix) {
        Err(ExtractErrorView::MissingPrefix { prefix })
    } else if !finishes_with(input, suffix) {
        Err(ExtractErrorView::MissingSuffix { suffix })
    } else if prefix.len() + suffix.len() > input.len() {
        Err(ExtractErrorView::TooShort)
    } else {
        Ok(input.subrange(prefix.len() as int, input.len() - suffix.len()))
    }
}

/// Takes the triggers off a text.
pub fn extract_body(input: &str, config: &AppConfig, body_mode: bool) -> (r: Result<
    String,
    ExtractError,
>)
    ensures
        body_of(input@, config@, body_mode) == match r {
            Ok(body) => Ok::<Seq<char>, ExtractErrorView>(body@),
            Err(e) => Err(e@),
        },
{
    if body_mode {
        return Ok(input.to_owned());
    }
    if !starts_with(input, &config.trigger_prefix) {
        return Err(ExtractError::MissingPrefix { prefix: config.trigger_prefix.clone() });
    }
    if !ends_with(input, &config.trigger_suffix) {
        return Err(ExtractError::MissingSuffix { suffix: config.trigger_suffix.clone() });
    }
    let body_start = char_count(&config.trigger_prefix);
    let body_end = char_count(input) - char_count(&config.trigger_suffix);
    if body_start > body_end {
        return Err(ExtractError::TooShort);
    }
    Ok(slice(input, body_start, body_end))
}

/// What is taken off are the triggers, and nothing else.
pub proof fn law_body_and_triggers_make_the_input(input: Seq<char>, config: ConfigView)
    requires
        body_of(input, config, false) is Ok,
    ensures
        input == config.trigger_prefix + body_of(input, config, false)->Ok_0
            + config.trigger_suffix,
{
    let prefix = config.trigger_prefix;
    let suffix = config.trigger_suffix;
    let body = body_of(input, config, false)->Ok_0;
    assert(input =~= input.take(prefix.len() as int) + body + input.skip(
        input.len() - suffix.len(),
    ));
}

/// Any body between the triggers is found again.
pub proof fn law_body_between_triggers_is_found(body: Seq<char>, config: ConfigView)
    ensures
        body_of(config.trigger_prefix + body + config.trigger_suffix, config, false) == Ok::<
            Seq<char>,
            ExtractErrorView,
        >(body),
{
    let prefix = config.trigger_prefix;
    let suffix = config.trigger_suffix;
    let input = prefix + body + suffix;
    assert(input.take(prefix.len() as int) =~= prefix);
    assert(input.skip(input.len() - suffix.len()) =~= suffix);
    assert(input.subrange(prefix.len() as int, input.len() - suffix.len()) =~= body);
}

} // verus!
