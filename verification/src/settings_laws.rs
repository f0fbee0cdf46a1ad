//! What the settings come to, in terms of the arguments, the environment and the files.

use vstd::prelude::*;

use crate::chars::{ascii_digit, control_char, reserved_separator};
use crate::config::{
    CandidateLayout, ConfigError, ConfigView, ConversionMode, RuntimeOptionsError, Setting,
    SettingsErrorView,
};
use crate::options::{
    i32_setting, switched_on, usize_setting, EnvironmentView, FileView, OptionsView,
    SettingsView, Task,
};
use crate::permissions::gives_up;
use crate::text::{
    begins_with, decimal, digits_value, lower, signed_decimal, signed_value, unsigned_value,
};
use crate::text_laws::{
    all_white, law_numbers_read_back, law_prefix_is_a_first_part,
    law_text_begins_and_ends_with_its_parts, law_trim_takes_off_white_space,
    law_white_space_is_trimmed_to_nothing,
};
use crate::capture_laws::{completes, lemma_completes};
use crate::triggers::{body_of, ExtractErrorView};
use crate::validation::{
    first_such, read_key, runtime_options_error, trigger_error,
};

verus! {

// Numbers.

/// All characters are digits, and there is one.
pub open spec fn digits_only(s: Seq<char>) -> bool {
    s.len() > 0 && forall|i: int| 0 <= i < s.len() ==> '0' <= #[trigger] s[i] <= '9'
}

/// A number is read digit by digit, with a sign before it or none. Anything else is no number.
pub proof fn law_numbers_are_read_digit_by_digit(s: Seq<char>, d: char)
    requires
        digits_only(s),
        '0' <= d <= '9',
    ensures
        unsigned_value(seq![d]) == Some(d as int - '0' as int),
        unsigned_value(s) is Some,
        unsigned_value(s.push(d)) == Some(unsigned_value(s)->0 * 10 + (d as int - '0' as int)),
        unsigned_value(seq!['+'] + s) == unsigned_value(s),
        signed_value(s) == unsigned_value(s),
        signed_value(seq!['+'] + s) == unsigned_value(s),
        signed_value(seq!['-'] + s) == Some(-unsigned_value(s)->0),
        unsigned_value(seq!['-'] + s) is None,
{
    let longer = s.push(d);
    assert(longer.drop_last() =~= s);
    assert(s[0] != '+' && s[0] != '-');
    assert forall|i: int| 0 <= i < s.len() implies ascii_digit(#[trigger] s[i]) by {}
    assert forall|i: int| 0 <= i < longer.len() implies ascii_digit(#[trigger] longer[i]) by {
        if i < s.len() {
            assert(longer[i] == s[i]);
        }
    }
    assert(longer[0] == s[0]);
    assert((seq!['+'] + s).drop_first() =~= s);
    assert((seq!['-'] + s).drop_first() =~= s);
    assert((seq!['-'] + s)[0] == '-');
    assert((seq!['+'] + s)[0] == '+');
    let one = seq![d];
    assert(one[0] == d);
    assert(one.drop_last() =~= Seq::<char>::empty());
    assert(digits_value(one.drop_last()) == 0);
}

/// What is not made of digits, but for a sign before them, is no number.
pub proof fn law_other_texts_are_no_numbers(s: Seq<char>, i: int)
    requires
        s.len() == 0 || (0 <= i < s.len() && !('0' <= s[i] <= '9') && (i > 0 || (s[0] != '+'
            && s[0] != '-') || s.len() == 1)),
    ensures
        unsigned_value(s) is None,
        signed_value(s) is None,
{
    if s.len() > 0 {
        assert(!ascii_digit(s[i]));
        if i > 0 {
            assert(s.drop_first()[i - 1] == s[i]);
        }
    }
}

/// A count or a delay is the number that is written, where it fits; anything else is refused
/// by the name of the setting.
pub proof fn law_numeric_settings_are_read(value: Seq<char>, name: Seq<char>)
    ensures
        ({
            let count = usize_setting(value, name);
            let delay = i32_setting(value, name);
            &&& unsigned_value(value) matches Some(n) ==> (n <= usize::MAX ==> count == Ok::<
                usize,
                SettingsErrorView,
            >(n as usize))
            &&& unsigned_value(value) is None || unsigned_value(value)->0 > usize::MAX ==> count
                == Err::<usize, _>(SettingsErrorView::NotPositiveInteger { name, value })
            &&& signed_value(value) matches Some(n) ==> (-0x8000_0000 <= n <= 0x7fff_ffff ==> delay
                == Ok::<i32, SettingsErrorView>(n as i32))
            &&& signed_value(value) is None || signed_value(value)->0 > 0x7fff_ffff || signed_value(
                value,
            )->0 < -0x8000_0000 ==> delay == Err::<i32, _>(
                SettingsErrorView::NotInteger { name, value },
            )
        }),
{
    crate::text_laws::law_numbers_read_back(0);
    if let Some(n) = unsigned_value(value) {
        assert(n >= 0);
    }
}

/// A number that is written out is read back.
pub proof fn law_written_settings_are_read_back(count: usize, delay: i32, name: Seq<char>)
    ensures
        usize_setting(decimal(count as nat), name) == Ok::<usize, SettingsErrorView>(count),
        i32_setting(signed_decimal(delay as int), name) == Ok::<i32, SettingsErrorView>(delay),
{
    law_numbers_read_back(count as nat);
    if delay >= 0 {
        law_numbers_read_back(delay as nat);
    } else {
        law_numbers_read_back((-delay) as nat);
    }
}

// Words.

/// A switch of the environment is on where its word, without the white space round it, is none
/// of those that mean off, in whatever case.
pub proof fn law_switch_is_on_unless_it_says_off(
    before: Seq<char>,
    word: Seq<char>,
    after: Seq<char>,
)
    requires
        all_white(before),
        all_white(after),
        word.len() > 0 ==> !crate::chars::whitespace_char(word[0])
            && !crate::chars::whitespace_char(word.last()),
    ensures
        !switched_on(None),
        word.len() == 0 ==> !switched_on(Some(before + word + after)),
        word.len() > 0 ==> switched_on(Some(before + word + after)) == (lower(word) != "0"@ && lower(
            word,
        ) != "false"@ && lower(word) != "no"@),
        gives_up(None),
        gives_up(Some(before + word + after)) == (word == "q"@ || word == "Q"@),
{
    if word.len() > 0 {
        law_trim_takes_off_white_space(before, word, after);
    } else {
        let white = before + word + after;
        assert forall|i: int| 0 <= i < white.len() implies crate::chars::whitespace_char(
            #[trigger] white[i],
        ) by {
            if i < before.len() {
                assert(white[i] == before[i]);
            } else {
                assert(white[i] == after[i - before.len()]);
            }
        }
        law_white_space_is_trimmed_to_nothing(white);
    }
    reveal_strlit("q");
    reveal_strlit("Q");
    if word.len() == 1 {
        crate::chars::lemma_ascii_lower(word[0]);
        if word[0] == 'q' {
            assert(word =~= "q"@);
            assert(lower(word) =~= "q"@);
        } else if word[0] == 'Q' {
            assert(word =~= "Q"@);
            assert(lower(word)[0] == crate::chars::ascii_lower('Q'));
            assert(lower(word) =~= "q"@);
        } else {
            assert(lower(word)[0] == crate::chars::ascii_lower(word[0]));
            assert(lower(word)[0] != 'q');
            assert(word != "q"@);
            assert(word != "Q"@);
        }
    } else {
        assert(lower(word).len() == word.len());
    }
    if word.len() == 0 {
        assert(lower(word).len() == 0);
    }
}

/// Names other than those of the modes and layouts are refused, with the name.
pub proof fn law_other_names_are_refused(name: Seq<char>)
    ensures
        !seq!["segmented"@, "segment"@, "rime-auto"@, "rime_auto"@, "auto"@].contains(name)
            ==> ConversionMode::read(name) == Err::<ConversionMode, _>(
            SettingsErrorView::ConversionMode { value: name },
        ),
        !seq!["horizontal"@, "h"@, "vertical"@, "v"@].contains(name) ==> CandidateLayout::read(name)
            == Err::<CandidateLayout, _>(SettingsErrorView::CandidateLayout { value: name }),
{
    let modes = seq!["segmented"@, "segment"@, "rime-auto"@, "rime_auto"@, "auto"@];
    let layouts = seq!["horizontal"@, "h"@, "vertical"@, "v"@];
    assert(modes[0] == "segmented"@ && modes[1] == "segment"@ && modes[2] == "rime-auto"@
        && modes[3] == "rime_auto"@ && modes[4] == "auto"@);
    assert(layouts[0] == "horizontal"@ && layouts[1] == "h"@ && layouts[2] == "vertical"@
        && layouts[3] == "v"@);
}

/// Each mode and each layout has its names.
pub proof fn law_names_mean_their_modes()
    ensures
        forall|name: Seq<char>|
            seq!["segmented"@, "segment"@].contains(name) ==> #[trigger] ConversionMode::read(name)
                == Ok::<_, SettingsErrorView>(ConversionMode::Segmented),
        forall|name: Seq<char>|
            seq!["rime-auto"@, "rime_auto"@, "auto"@].contains(name)
                ==> #[trigger] ConversionMode::read(name) == Ok::<_, SettingsErrorView>(
                ConversionMode::RimeAuto,
            ),
        forall|name: Seq<char>|
            seq!["horizontal"@, "h"@].contains(name) ==> #[trigger] CandidateLayout::read(name)
                == Ok::<_, SettingsErrorView>(CandidateLayout::Horizontal),
        forall|name: Seq<char>|
            seq!["vertical"@, "v"@].contains(name) ==> #[trigger] CandidateLayout::read(name)
                == Ok::<_, SettingsErrorView>(CandidateLayout::Vertical),
{
    reveal_strlit("segmented");
    reveal_strlit("segment");
    reveal_strlit("rime-auto");
    reveal_strlit("rime_auto");
    reveal_strlit("auto");
    reveal_strlit("horizontal");
    reveal_strlit("h");
    reveal_strlit("vertical");
    reveal_strlit("v");
    assert("segmented"@[0] == 's' && "segment"@[0] == 's' && "rime-auto"@[0] == 'r' && "rime_auto"@[0]
        == 'r' && "auto"@[0] == 'a');
    assert("horizontal"@[0] == 'h' && "h"@[0] == 'h' && "vertical"@[0] == 'v' && "v"@[0] == 'v');
}

// Arguments.

proof fn lemma_flags_differ()
    ensures
        ({
            let flags = seq![
                "--shared-data-dir"@,
                "--user-data-dir"@,
                "--schema"@,
                "--config"@,
                "--conversion-mode"@,
                "--candidate-layout"@,
                "--candidate-count"@,
                "--max-buffer-chars"@,
                "--inject-delay-ms"@,
            ];
            forall|i: int, j: int| 0 <= i < j < 9 ==> #[trigger] flags[i] != #[trigger] flags[j]
        }),
{
    reveal_strlit("--shared-data-dir");
    reveal_strlit("--user-data-dir");
    reveal_strlit("--schema");
    reveal_strlit("--config");
    reveal_strlit("--conversion-mode");
    reveal_strlit("--candidate-layout");
    reveal_strlit("--candidate-count");
    reveal_strlit("--max-buffer-chars");
    reveal_strlit("--inject-delay-ms");
    assert("--shared-data-dir"@[2] == 's' && "--shared-data-dir"@.len() == 17);
    assert("--user-data-dir"@.len() == 15);
    assert("--schema"@[2] == 's' && "--schema"@.len() == 8);
    assert("--config"@[2] == 'c' && "--config"@.len() == 8);
    assert("--conversion-mode"@[3] == 'o' && "--conversion-mode"@[2] == 'c'
        && "--conversion-mode"@.len() == 17);
    assert("--candidate-layout"@[2] == 'c' && "--candidate-layout"@.len() == 18);
    assert("--candidate-count"@[3] == 'a' && "--candidate-count"@[2] == 'c'
        && "--candidate-count"@.len() == 17);
    assert("--max-buffer-chars"@[2] == 'm' && "--max-buffer-chars"@.len() == 18);
    assert("--inject-delay-ms"@[2] == 'i' && "--inject-delay-ms"@.len() == 17);
}

/// An option sets what it is named after to the value that follows it, and nothing else, and the
/// arguments after them are read then.
pub proof fn law_options_set_what_they_name(
    settings: SettingsView,
    value: Seq<char>,
    rest: Seq<Seq<char>>,
)
    ensures
        settings.parsed(seq!["--shared-data-dir"@, value] + rest) == (SettingsView {
            shared_data_dir: Some(value),
            ..settings
        }).parsed(rest),
        settings.parsed(seq!["--user-data-dir"@, value] + rest) == (SettingsView {
            user_data_dir: Some(value),
            ..settings
        }).parsed(rest),
        settings.parsed(seq!["--schema"@, value] + rest) == (SettingsView {
            schema: value,
            ..settings
        }).parsed(rest),
        settings.parsed(seq!["--config"@, value] + rest) == (SettingsView {
            config_path: Some(value),
            ..settings
        }).parsed(rest),
{
    let flags = seq![
        "--shared-data-dir"@,
        "--user-data-dir"@,
        "--schema"@,
        "--config"@,
        "--conversion-mode"@,
        "--candidate-layout"@,
        "--candidate-count"@,
        "--max-buffer-chars"@,
        "--inject-delay-ms"@,
    ];
    lemma_flags_differ();
    assert(flags[0] == "--shared-data-dir"@ && flags[1] == "--user-data-dir"@ && flags[2]
        == "--schema"@ && flags[3] == "--config"@);
    lemma_two_arguments(flags[0], value, rest);
    lemma_two_arguments(flags[1], value, rest);
    lemma_two_arguments(flags[2], value, rest);
    lemma_two_arguments(flags[3], value, rest);
}

proof fn lemma_two_arguments(flag: Seq<char>, value: Seq<char>, rest: Seq<Seq<char>>)
    ensures
        (seq![flag, value] + rest)[0] == flag,
        (seq![flag, value] + rest)[1] == value,
        (seq![flag, value] + rest).len() == rest.len() + 2,
        (seq![flag, value] + rest).skip(2) == rest,
{
    assert((seq![flag, value] + rest).skip(2) =~= rest);
}

/// The same of the options whose value has to be read.
pub proof fn law_read_options_set_what_they_name(
    settings: SettingsView,
    value: Seq<char>,
    rest: Seq<Seq<char>>,
)
    ensures
        match ConversionMode::read(value) {
            Ok(mode) => settings.parsed(seq!["--conversion-mode"@, value] + rest) == (
            SettingsView { conversion_mode: Some(mode), ..settings }).parsed(rest),
            Err(e) => settings.parsed(seq!["--conversion-mode"@, value] + rest) == Err::<
                Option<SettingsView>,
                _,
            >(e),
        },
        match CandidateLayout::read(value) {
            Ok(layout) => settings.parsed(seq!["--candidate-layout"@, value] + rest) == (
            SettingsView { candidate_layout: Some(layout), ..settings }).parsed(rest),
            Err(e) => settings.parsed(seq!["--candidate-layout"@, value] + rest) == Err::<
                Option<SettingsView>,
                _,
            >(e),
        },
        match usize_setting(value, "--candidate-count"@) {
            Ok(count) => settings.parsed(seq!["--candidate-count"@, value] + rest) == (
            SettingsView { candidate_count: Some(count), ..settings }).parsed(rest),
            Err(e) => settings.parsed(seq!["--candidate-count"@, value] + rest) == Err::<
                Option<SettingsView>,
                _,
            >(e),
        },
        match usize_setting(value, "--max-buffer-chars"@) {
            Ok(count) => settings.parsed(seq!["--max-buffer-chars"@, value] + rest) == (
            SettingsView { max_buffer_chars: count, ..settings }).parsed(rest),
            Err(e) => settings.parsed(seq!["--max-buffer-chars"@, value] + rest) == Err::<
                Option<SettingsView>,
                _,
            >(e),
        },
        match i32_setting(value, "--inject-delay-ms"@) {
            Ok(delay) => settings.parsed(seq!["--inject-delay-ms"@, value] + rest) == (
            SettingsView { inject_delay_ms: delay, ..settings }).parsed(rest),
            Err(e) => settings.parsed(seq!["--inject-delay-ms"@, value] + rest) == Err::<
                Option<SettingsView>,
                _,
            >(e),
        },
{
    let flags = seq![
        "--shared-data-dir"@,
        "--user-data-dir"@,
        "--schema"@,
        "--config"@,
        "--conversion-mode"@,
        "--candidate-layout"@,
        "--candidate-count"@,
        "--max-buffer-chars"@,
        "--inject-delay-ms"@,
    ];
    lemma_flags_differ();
    assert(flags[0] == "--shared-data-dir"@ && flags[1] == "--user-data-dir"@ && flags[2]
        == "--schema"@ && flags[3] == "--config"@ && flags[4] == "--conversion-mode"@ && flags[5]
        == "--candidate-layout"@ && flags[6] == "--candidate-count"@ && flags[7]
        == "--max-buffer-chars"@ && flags[8] == "--inject-delay-ms"@);
    lemma_two_arguments(flags[4], value, rest);
    lemma_two_arguments(flags[5], value, rest);
    lemma_two_arguments(flags[6], value, rest);
    lemma_two_arguments(flags[7], value, rest);
    lemma_two_arguments(flags[8], value, rest);
}

/// An option at the end has no value, and is refused.
pub proof fn law_option_without_a_value_is_refused(settings: SettingsView, flag: Seq<char>)
    requires
        seq![
            "--shared-data-dir"@,
            "--user-data-dir"@,
            "--schema"@,
            "--config"@,
            "--conversion-mode"@,
            "--candidate-layout"@,
            "--candidate-count"@,
            "--max-buffer-chars"@,
            "--inject-delay-ms"@,
        ].contains(flag),
    ensures
        settings.parsed(seq![flag]) == Err::<Option<SettingsView>, _>(
            SettingsErrorView::MissingValue { flag },
        ),
{
    assert(seq![flag][0] == flag);
}

/// An argument that does not begin with a hyphen is input. The inputs are put together with a
/// space between them, in order.
pub proof fn law_other_arguments_are_input(
    settings: SettingsView,
    word: Seq<char>,
    rest: Seq<Seq<char>>,
)
    requires
        word.len() == 0 || word[0] != '-',
    ensures
        settings.parsed(seq![word] + rest) == (SettingsView {
            input: if settings.has_input {
                settings.input + seq![' '] + word
            } else {
                word
            },
            has_input: true,
            ..settings
        }).parsed(rest),
{
    reveal_strlit("--shared-data-dir");
    reveal_strlit("--user-data-dir");
    reveal_strlit("--schema");
    reveal_strlit("--config");
    reveal_strlit("--conversion-mode");
    reveal_strlit("--candidate-layout");
    reveal_strlit("--candidate-count");
    reveal_strlit("--max-buffer-chars");
    reveal_strlit("--inject-delay-ms");
    reveal_strlit("--listen");
    reveal_strlit("--log-events");
    reveal_strlit("--body");
    reveal_strlit("--doctor");
    reveal_strlit("--help");
    reveal_strlit("-h");
    reveal_strlit("--");
    reveal_strlit(" ");
    assert(" "@ =~= seq![' ']);
    let args = seq![word] + rest;
    assert(args[0] == word);
    assert(args.drop_first() =~= rest);
    assert("--shared-data-dir"@[0] == '-' && "--user-data-dir"@[0] == '-' && "--schema"@[0] == '-'
        && "--config"@[0] == '-' && "--conversion-mode"@[0] == '-' && "--candidate-layout"@[0]
        == '-' && "--candidate-count"@[0] == '-' && "--max-buffer-chars"@[0] == '-'
        && "--inject-delay-ms"@[0] == '-');
    assert("--listen"@[0] == '-' && "--log-events"@[0] == '-' && "--body"@[0] == '-'
        && "--doctor"@[0] == '-' && "--help"@[0] == '-' && "-h"@[0] == '-');
    if begins_with(word, "--"@) {
        assert(word.take(2)[0] == '-');
    }
}

/// A switch sets what it is named after, and nothing else.
pub proof fn law_switches_set_what_they_name(settings: SettingsView, rest: Seq<Seq<char>>)
    ensures
        settings.parsed(seq!["--listen"@] + rest) == (SettingsView { listen: true, ..settings })
            .parsed(rest),
        settings.parsed(seq!["--log-events"@] + rest) == (SettingsView {
            log_events: true,
            ..settings
        }).parsed(rest),
        settings.parsed(seq!["--body"@] + rest) == (SettingsView { body_mode: true, ..settings })
            .parsed(rest),
        settings.parsed(seq!["--doctor"@] + rest) == (SettingsView { doctor: true, ..settings })
            .parsed(rest),
        settings.parsed(seq!["--help"@] + rest) == Ok::<_, SettingsErrorView>(None::<SettingsView>),
        settings.parsed(seq!["-h"@] + rest) == Ok::<_, SettingsErrorView>(None::<SettingsView>),
{
    reveal_strlit("--shared-data-dir");
    reveal_strlit("--user-data-dir");
    reveal_strlit("--schema");
    reveal_strlit("--config");
    reveal_strlit("--conversion-mode");
    reveal_strlit("--candidate-layout");
    reveal_strlit("--candidate-count");
    reveal_strlit("--max-buffer-chars");
    reveal_strlit("--inject-delay-ms");
    reveal_strlit("--listen");
    reveal_strlit("--log-events");
    reveal_strlit("--body");
    reveal_strlit("--doctor");
    reveal_strlit("--help");
    reveal_strlit("-h");
    assert("--schema"@.len() == 8 && "--config"@.len() == 8 && "--listen"@.len() == 8
        && "--doctor"@.len() == 8 && "--body"@.len() == 6 && "--help"@.len() == 6 && "-h"@.len()
        == 2 && "--log-events"@.len() == 12);
    assert("--shared-data-dir"@.len() == 17 && "--user-data-dir"@.len() == 15
        && "--conversion-mode"@.len() == 17 && "--candidate-layout"@.len() == 18
        && "--candidate-count"@.len() == 17 && "--max-buffer-chars"@.len() == 18
        && "--inject-delay-ms"@.len() == 17);
    assert("--schema"@[2] == 's' && "--config"@[2] == 'c' && "--listen"@[2] == 'l' && "--doctor"@[2]
        == 'd' && "--body"@[2] == 'b' && "--help"@[2] == 'h');
    lemma_one_argument("--listen"@, rest);
    lemma_one_argument("--log-events"@, rest);
    lemma_one_argument("--body"@, rest);
    lemma_one_argument("--doctor"@, rest);
    lemma_one_argument("--help"@, rest);
    lemma_one_argument("-h"@, rest);
}

proof fn lemma_one_argument(arg: Seq<char>, rest: Seq<Seq<char>>)
    ensures
        (seq![arg] + rest)[0] == arg,
        (seq![arg] + rest).len() == rest.len() + 1,
        (seq![arg] + rest).drop_first() == rest,
{
    assert((seq![arg] + rest).drop_first() =~= rest);
}

/// Any other argument that begins with two hyphens is refused.
pub proof fn law_unknown_options_are_refused(
    settings: SettingsView,
    name: Seq<char>,
    rest: Seq<Seq<char>>,
)
    requires
        !seq![
            "--shared-data-dir"@,
            "--user-data-dir"@,
            "--schema"@,
            "--config"@,
            "--conversion-mode"@,
            "--candidate-layout"@,
            "--candidate-count"@,
            "--max-buffer-chars"@,
            "--inject-delay-ms"@,
            "--listen"@,
            "--log-events"@,
            "--body"@,
            "--doctor"@,
            "--help"@,
        ].contains("--"@ + name),
    ensures
        settings.parsed(seq!["--"@ + name] + rest) == Err::<Option<SettingsView>, _>(
            SettingsErrorView::UnknownOption { arg: "--"@ + name },
        ),
{
    let arg = "--"@ + name;
    let known = seq![
        "--shared-data-dir"@,
        "--user-data-dir"@,
        "--schema"@,
        "--config"@,
        "--conversion-mode"@,
        "--candidate-layout"@,
        "--candidate-count"@,
        "--max-buffer-chars"@,
        "--inject-delay-ms"@,
        "--listen"@,
        "--log-events"@,
        "--body"@,
        "--doctor"@,
        "--help"@,
    ];
    assert(known[0] == "--shared-data-dir"@ && known[1] == "--user-data-dir"@ && known[2]
        == "--schema"@ && known[3] == "--config"@ && known[4] == "--conversion-mode"@ && known[5]
        == "--candidate-layout"@ && known[6] == "--candidate-count"@ && known[7]
        == "--max-buffer-chars"@ && known[8] == "--inject-delay-ms"@ && known[9] == "--listen"@
        && known[10] == "--log-events"@ && known[11] == "--body"@ && known[12] == "--doctor"@
        && known[13] == "--help"@);
    reveal_strlit("--");
    reveal_strlit("-h");
    assert(arg[1] == '-');
    assert("-h"@[1] == 'h');
    law_text_begins_and_ends_with_its_parts("--"@, name);
    lemma_one_argument(arg, rest);
}

// Where settings come from.

/// A variable of the environment sets what it is for; what no variable sets has its default.
pub proof fn law_environment_sets_what_it_names(env: EnvironmentView)
    ensures
        SettingsView::of_environment(env) matches Ok(s) ==> {
            &&& env.schema matches Some(schema) ==> s.schema == schema
            &&& env.schema is None ==> s.schema == "luna_pinyin_simp"@
            &&& s.log_events == switched_on(env.log_events)
            &&& env.conversion_mode matches Some(name) ==> ConversionMode::read(name) == Ok::<
                _,
                SettingsErrorView,
            >(s.conversion_mode->0) && s.conversion_mode is Some
            &&& env.conversion_mode is None ==> s.conversion_mode is None
            &&& env.candidate_layout matches Some(name) ==> CandidateLayout::read(name) == Ok::<
                _,
                SettingsErrorView,
            >(s.candidate_layout->0) && s.candidate_layout is Some
            &&& env.candidate_layout is None ==> s.candidate_layout is None
            &&& env.candidate_count matches Some(value) ==> s.candidate_count is Some
                && unsigned_value(value) == Some(s.candidate_count->0 as int)
            &&& env.candidate_count is None ==> s.candidate_count is None
            &&& env.max_buffer_chars matches Some(value) ==> unsigned_value(value) == Some(
                s.max_buffer_chars as int,
            )
            &&& env.max_buffer_chars is None ==> s.max_buffer_chars == 4096
            &&& env.inject_delay_ms matches Some(value) ==> signed_value(value) == Some(
                s.inject_delay_ms as int,
            )
            &&& env.inject_delay_ms is None ==> s.inject_delay_ms == 1
            &&& !s.body_mode && !s.doctor && !s.listen && !s.has_input && s.input.len() == 0
            &&& s.shared_data_dir is None && s.user_data_dir is None && s.config_path is None
        },
        env.conversion_mode is None && env.candidate_layout is None && env.candidate_count is None
            && env.max_buffer_chars is None && env.inject_delay_ms is None
            ==> SettingsView::of_environment(env) is Ok,
{
}

/// A setting of the file is taken as it is; what the file does not set has its default.
pub proof fn law_file_sets_what_it_names(file: FileView)
    ensures
        file.resolved() matches Ok(c) ==> {
            &&& c.trigger_prefix == (match file.trigger_prefix {
                Some(value) => value,
                None => ";;"@,
            })
            &&& c.trigger_suffix == (match file.trigger_suffix {
                Some(value) => value,
                None => ";;"@,
            })
            &&& file.conversion_mode matches Some(name) ==> ConversionMode::read(name) == Ok::<
                _,
                SettingsErrorView,
            >(c.conversion_mode)
            &&& file.conversion_mode is None ==> c.conversion_mode == ConversionMode::Segmented
            &&& file.candidate_layout matches Some(name) ==> CandidateLayout::read(name) == Ok::<
                _,
                SettingsErrorView,
            >(c.candidate_layout)
            &&& file.candidate_layout is None ==> c.candidate_layout == CandidateLayout::Horizontal
            &&& c.candidate_count == (match file.candidate_count {
                Some(count) => count,
                None => 5,
            })
            &&& c.candidate_select_keys == (match file.candidate_select_keys {
                Some(value) => value,
                None => "1234567890"@,
            })
            &&& c.candidate_page_next_key == (match file.candidate_page_next_key {
                Some(value) => value,
                None => "="@,
            })
            &&& c.candidate_page_previous_key == (match file.candidate_page_previous_key {
                Some(value) => value,
                None => "-"@,
            })
            &&& c.english_commit_key == (match file.english_commit_key {
                Some(value) => value,
                None => "`"@,
            })
        },
        file.resolved() is Ok <==> (file.conversion_mode matches Some(name) ==> ConversionMode::read(
            name,
        ) is Ok) && (file.candidate_layout matches Some(name) ==> CandidateLayout::read(name) is Ok),
{
}

/// What the arguments or the environment set comes before the file, and the rest is the file's.
/// Everything else is taken over as it is.
pub proof fn law_settings_come_before_the_file(settings: SettingsView, config: ConfigView)
    ensures
        settings.options(config) matches Ok(o) ==> {
            &&& o.schema == settings.schema
            &&& o.body_mode == settings.body_mode
            &&& o.doctor == settings.doctor
            &&& o.listen == settings.listen
            &&& o.max_buffer_chars == settings.max_buffer_chars
            &&& o.inject_delay_ms == settings.inject_delay_ms
            &&& o.log_events == settings.log_events
            &&& o.input == settings.input
            &&& o.config.conversion_mode == (match settings.conversion_mode {
                Some(mode) => mode,
                None => config.conversion_mode,
            })
            &&& o.config.candidate_layout == (match settings.candidate_layout {
                Some(layout) => layout,
                None => config.candidate_layout,
            })
            &&& o.config.candidate_count == (match settings.candidate_count {
                Some(count) => count,
                None => config.candidate_count,
            })
            &&& o.config.trigger_prefix == config.trigger_prefix
            &&& o.config.trigger_suffix == config.trigger_suffix
            &&& o.config.candidate_select_keys == config.candidate_select_keys
            &&& o.config.candidate_page_next_key == config.candidate_page_next_key
            &&& o.config.candidate_page_previous_key == config.candidate_page_previous_key
            &&& o.config.english_commit_key == config.english_commit_key
        },
{
}

/// The listener comes before a conversion, which needs input, and that before the doctor.
pub proof fn law_task_goes_by_what_is_asked_for(o: OptionsView)
    ensures
        o.listen ==> o.task() == Task::Listen,
        !o.listen && o.input.len() > 0 ==> o.task() == Task::Convert,
        !o.listen && o.input.len() == 0 && o.doctor ==> o.task() == Task::Doctor,
        !o.listen && o.input.len() == 0 && !o.doctor ==> o.task() == Task::Refuse,
{
}

// What is refused.

/// The buffer holds 16 characters at least, the delay is not negative, and 1 to 10 candidates
/// are shown. What is wrong is told in this order.
pub proof fn law_runtime_options_have_limits(buffer: usize, delay: i32, count: usize)
    ensures
        ({
            let error = runtime_options_error(buffer, delay, count);
            &&& error is None <==> buffer >= 16 && delay >= 0 && 1 <= count <= 10
            &&& buffer < 16 ==> error == Some(RuntimeOptionsError::BufferTooSmall)
            &&& buffer >= 16 && delay < 0 ==> error == Some(RuntimeOptionsError::NegativeDelay)
            &&& buffer >= 16 && delay >= 0 && count == 0 ==> error == Some(
                RuntimeOptionsError::CountTooSmall,
            )
            &&& buffer >= 16 && delay >= 0 && count > 10 ==> error == Some(
                RuntimeOptionsError::CountTooLarge,
            )
        }),
{
}

/// A trigger must not be empty, and is refused for its first reserved character.
pub proof fn law_trigger_is_refused_for_its_first_reserved_character(
    setting: Setting,
    front: Seq<char>,
    ch: char,
    rest: Seq<char>,
)
    requires
        forall|i: int| 0 <= i < front.len() ==> !reserved_separator(#[trigger] front[i]),
    ensures
        trigger_error(setting, seq![]) == Some(ConfigError::EmptyTrigger { setting }),
        front.len() > 0 ==> trigger_error(setting, front) is None,
        reserved_separator(ch) ==> trigger_error(setting, front + seq![ch] + rest) == Some(
            ConfigError::ReservedTriggerChar { setting, ch },
        ),
{
    let reserved = |ch: char| reserved_separator(ch);
    lemma_first_such(front, ch, rest, reserved);
}

proof fn lemma_first_such(
    front: Seq<char>,
    ch: char,
    rest: Seq<char>,
    such: spec_fn(char) -> bool,
)
    requires
        forall|i: int| 0 <= i < front.len() ==> !such(#[trigger] front[i]),
    ensures
        first_such(front, such) is None,
        such(ch) ==> first_such(front + seq![ch] + rest, such) == Some(ch),
    decreases front.len(),
{
    let whole = front + seq![ch] + rest;
    if front.len() == 0 {
        assert(whole[0] == ch);
    } else {
        let fewer = front.drop_first();
        assert(whole[0] == front[0]);
        assert(whole.drop_first() =~= fewer + seq![ch] + rest);
        assert forall|i: int| 0 <= i < fewer.len() implies !such(#[trigger] fewer[i]) by {
            assert(fewer[i] == front[i + 1]);
        }
        lemma_first_such(fewer, ch, rest, such);
    }
}

/// A key is one printable character.
pub proof fn law_key_is_one_printable_character(setting: Setting, value: Seq<char>)
    ensures
        value.len() == 0 ==> read_key(setting, value) == Err::<char, _>(
            ConfigError::EmptyKey { setting },
        ),
        value.len() == 1 && !control_char(value[0]) ==> read_key(setting, value) == Ok::<
            char,
            ConfigError,
        >(value[0]),
        value.len() > 1 || (value.len() == 1 && control_char(value[0])) ==> read_key(
            setting,
            value,
        ) == Err::<char, _>(ConfigError::NotOnePrintableKey { setting }),
{
}

/// A key must not be pinyin, nor a select key, nor part of a trigger. What is wrong is told in
/// this order.
pub proof fn law_key_stays_clear_of_the_others(c: ConfigView, setting: Setting, key: char)
    ensures
        ({
            let error = c.named_key_error(setting, key);
            let pinyin = 'a' <= key <= 'z' || 'A' <= key <= 'Z' || key == '\'';
            let select = c.candidate_select_keys.contains(key);
            let trigger = c.trigger_prefix.contains(key) || c.trigger_suffix.contains(key);
            &&& pinyin ==> error == Some(ConfigError::PinyinKey { setting, key })
            &&& !pinyin && select ==> error == Some(ConfigError::KeyIsSelectKey { setting, key })
            &&& !pinyin && !select && trigger ==> error == Some(
                ConfigError::KeyIsTriggerChar { setting, key },
            )
            &&& !pinyin && !select && !trigger ==> error is None
        }),
{
}

/// The select keys are digits, each there once, and as many as candidates are shown at least.
/// What is wrong is told in this order.
pub proof fn law_select_keys_are_different_digits(c: ConfigView, i: int, j: int)
    requires
        c.candidate_select_keys.len() <= usize::MAX,
    ensures
        ({
            let keys = c.candidate_select_keys;
            let error = c.select_keys_error();
            &&& keys.len() == 0 ==> error == Some(ConfigError::NoSelectKeys)
            &&& 0 <= i < keys.len() && !('0' <= keys[i] <= '9') ==> error == Some(
                ConfigError::SelectKeyNotDigit,
            )
            &&& digits_only(keys) && 0 <= i < j < keys.len() && keys[i] == keys[j] ==> error
                == Some(ConfigError::DuplicateSelectKey)
            &&& digits_only(keys) && keys.no_duplicates() && c.candidate_count > keys.len()
                ==> error == Some(
                ConfigError::CountExceedsSelectKeys {
                    count: c.candidate_count,
                    capacity: keys.len() as usize,
                },
            )
            &&& digits_only(keys) && keys.no_duplicates() && c.candidate_count <= keys.len()
                ==> error is None
            &&& error is None ==> digits_only(keys) && c.candidate_count <= keys.len()
        }),
{
    let keys = c.candidate_select_keys;
    if 0 <= i < keys.len() && !('0' <= keys[i] <= '9') {
        assert(!ascii_digit(keys[i]));
    }
    if digits_only(keys) {
        assert(forall|k: int| 0 <= k < keys.len() ==> ascii_digit(#[trigger] keys[k]));
        if 0 <= i < j < keys.len() && keys[i] == keys[j] {
            assert(!keys.no_duplicates());
        }
    }
    if c.select_keys_error() is None {
        assert forall|k: int| 0 <= k < keys.len() implies '0' <= #[trigger] keys[k] <= '9' by {
            assert(ascii_digit(keys[k]));
        }
    }
}

/// A configuration is told what is wrong with it in order: the triggers, the select keys, the
/// three keys by themselves, each of them with regard to the others, and at last the first
/// select key that is part of a trigger.
pub proof fn law_first_fault_is_told(c: ConfigView, next: char, previous: char, english: char)
    requires
        !control_char(next),
        !control_char(previous),
        !control_char(english),
        c.candidate_page_next_key == seq![next],
        c.candidate_page_previous_key == seq![previous],
        c.english_commit_key == seq![english],
    ensures
        ({
            let prefix = trigger_error(Setting::TriggerPrefix, c.trigger_prefix);
            let suffix = trigger_error(Setting::TriggerSuffix, c.trigger_suffix);
            let select = c.select_keys_error();
            let first = c.named_key_error(Setting::CandidatePageNextKey, next);
            let second = c.named_key_error(Setting::CandidatePagePreviousKey, previous);
            let third = c.named_key_error(Setting::EnglishCommitKey, english);
            let same = next == previous || next == english || previous == english;
            let fine = prefix is None && suffix is None && select is None;
            &&& prefix is Some ==> c.error() == prefix
            &&& prefix is None && suffix is Some ==> c.error() == suffix
            &&& prefix is None && suffix is None && select is Some ==> c.error() == select
            &&& fine && first is Some ==> c.error() == first
            &&& fine && first is None && second is Some ==> c.error() == second
            &&& fine && first is None && second is None && third is Some ==> c.error() == third
            &&& fine && first is None && second is None && third is None && same ==> c.error()
                == Some(ConfigError::KeysNotDistinct)
            &&& fine && first is None && second is None && third is None && !same ==> {
                &&& c.error() is None <==> forall|i: int|
                    0 <= i < c.candidate_select_keys.len() ==> !c.trigger_prefix.contains(
                        #[trigger] c.candidate_select_keys[i],
                    ) && !c.trigger_suffix.contains(c.candidate_select_keys[i])
                &&& c.error() matches Some(e) ==> exists|i: int|
                    0 <= i < c.candidate_select_keys.len() && e == (
                    ConfigError::SelectKeyIsTriggerChar {
                        key: #[trigger] c.candidate_select_keys[i],
                    }) && (c.trigger_prefix.contains(c.candidate_select_keys[i])
                        || c.trigger_suffix.contains(c.candidate_select_keys[i]))
            }
        }),
{
    let keys = c.candidate_select_keys;
    let such = |key: char| c.in_trigger(key);
    assert(c.candidate_page_next_key[0] == next);
    assert(c.candidate_page_previous_key[0] == previous);
    assert(c.english_commit_key[0] == english);
    lemma_first_such_is_there(keys, such);
    if first_such(keys, such) is None {
        assert forall|i: int| 0 <= i < keys.len() implies !c.trigger_prefix.contains(
            #[trigger] keys[i],
        ) && !c.trigger_suffix.contains(keys[i]) by {
            assert(!such(keys[i]));
        }
    } else {
        let i = choose|i: int|
            0 <= i < keys.len() && first_such(keys, such) == Some(#[trigger] keys[i]) && such(
                keys[i],
            );
        assert(c.in_trigger(keys[i]));
    }
}

proof fn lemma_first_such_is_there(s: Seq<char>, such: spec_fn(char) -> bool)
    ensures
        first_such(s, such) is None ==> forall|i: int| 0 <= i < s.len() ==> !such(#[trigger] s[i]),
        first_such(s, such) is Some ==> exists|i: int|
            0 <= i < s.len() && first_such(s, such) == Some(#[trigger] s[i]) && such(s[i]),
    decreases s.len(),
{
    if s.len() > 0 {
        let fewer = s.drop_first();
        lemma_first_such_is_there(fewer, such);
        if such(s[0]) {
            assert(first_such(s, such) == Some(s[0]));
        } else if first_such(fewer, such) is Some {
            let i = choose|i: int|
                0 <= i < fewer.len() && first_such(fewer, such) == Some(#[trigger] fewer[i])
                    && such(fewer[i]);
            assert(s[i + 1] == fewer[i]);
        } else {
            assert forall|i: int| 0 <= i < s.len() implies !such(#[trigger] s[i]) by {
                if i > 0 {
                    assert(fewer[i - 1] == s[i]);
                }
            }
        }
    }
}

// The body of an input.

/// Between the triggers stands the body; an input as a body is taken as it is. An input without
/// a trigger, or in which the triggers overlap, is refused.
pub proof fn law_body_stands_between_the_triggers(
    input: Seq<char>,
    body: Seq<char>,
    config: ConfigView,
)
    ensures
        ({
            let prefix = config.trigger_prefix;
            let suffix = config.trigger_suffix;
            &&& body_of(input, config, true) == Ok::<_, ExtractErrorView>(input)
            &&& input == prefix + body + suffix ==> body_of(input, config, false) == Ok::<
                _,
                ExtractErrorView,
            >(body)
            &&& (forall|rest: Seq<char>| input != #[trigger] (prefix + rest)) ==> body_of(
                input,
                config,
                false,
            ) == Err::<Seq<char>, _>(ExtractErrorView::MissingPrefix { prefix })
            &&& (exists|rest: Seq<char>| input == #[trigger] (prefix + rest)) && !completes(
                input,
                suffix,
            ) ==> body_of(input, config, false) == Err::<Seq<char>, _>(
                ExtractErrorView::MissingSuffix { suffix },
            )
            &&& (exists|rest: Seq<char>| input == #[trigger] (prefix + rest)) && completes(
                input,
                suffix,
            ) && input.len() < prefix.len() + suffix.len() ==> body_of(input, config, false)
                == Err::<Seq<char>, _>(ExtractErrorView::TooShort)
        }),
{
    let prefix = config.trigger_prefix;
    let suffix = config.trigger_suffix;
    lemma_completes(input, suffix);
    if begins_with(input, prefix) {
        law_prefix_is_a_first_part(input, prefix);
        assert(input =~= prefix + input.skip(prefix.len() as int));
    }
    if exists|rest: Seq<char>| input == #[trigger] (prefix + rest) {
        let rest = choose|rest: Seq<char>| input == #[trigger] (prefix + rest);
        law_text_begins_and_ends_with_its_parts(prefix, rest);
    }
    if input == prefix + body + suffix {
        assert(input =~= prefix + (body + suffix));
        law_text_begins_and_ends_with_its_parts(prefix, body + suffix);
        law_text_begins_and_ends_with_its_parts(prefix + body, suffix);
        assert(input.subrange(prefix.len() as int, input.len() - suffix.len()) =~= body);
    }
}

/// Where the triggers and the select keys are fine, the first of the three keys that is not one
/// printable character is told.
pub proof fn law_first_malformed_key_is_told(c: ConfigView)
    requires
        trigger_error(Setting::TriggerPrefix, c.trigger_prefix) is None,
        trigger_error(Setting::TriggerSuffix, c.trigger_suffix) is None,
        c.select_keys_error() is None,
    ensures
        ({
            let next = read_key(Setting::CandidatePageNextKey, c.candidate_page_next_key);
            let previous = read_key(
                Setting::CandidatePagePreviousKey,
                c.candidate_page_previous_key,
            );
            let english = read_key(Setting::EnglishCommitKey, c.english_commit_key);
            &&& next matches Err(e) ==> c.error() == Some(e)
            &&& next is Ok && previous is Err ==> c.error() == Some(previous->Err_0)
            &&& next is Ok && previous is Ok && english is Err ==> c.error() == Some(
                english->Err_0,
            )
        }),
{
}

} // verus!
