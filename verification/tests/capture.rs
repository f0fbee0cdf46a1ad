//! The capture state: sessions, conversions and deletions.

use rime_poc::actions::{
    CandidateSelection, CaptureAction, ConversionAction, DeletePreviousWordDisposition,
    DeletePreviousWordOutcome, EndSessionAction, InsertLiteralAction, PendingCandidateAction,
    PendingCommitAction, RestoreAction, StartSessionAction,
};
use rime_poc::capture::{CaptureMode, CaptureState};
use rime_poc::chars::is_pinyin_char;
use rime_poc::config::AppConfig;
use rime_poc::listener::is_pending_pinyin_commit_space;
use rime_poc::mac::KEY_SPACE;
use rime_poc::segments::raw_fallback_segment;
use rime_poc::separators::{map_separator, QuoteState};

fn test_capture_state() -> CaptureState {
    CaptureState::new(AppConfig::default(), 128)
}

#[test]
fn starts_active_capture_after_trigger_prefix() {
    let mut capture = test_capture_state();

    assert_eq!(
        capture.push_text(";;"),
        Some(CaptureAction::StartSession(StartSessionAction {
            trigger_text: ";;".to_owned(),
            delete_chars: 2,
        }))
    );

    assert_eq!(capture.mode, CaptureMode::Active);
    assert_eq!(capture.committed_output_chars, 0);
    assert_eq!(capture.hidden_prefix_backspaces_remaining, 2);
    assert!(capture.buffer.is_empty());
}

#[test]
fn entering_active_state_isolates_previous_idle_buffer() {
    let mut capture = test_capture_state();

    assert_eq!(
        capture.push_text("old text ;;"),
        Some(CaptureAction::StartSession(StartSessionAction {
            trigger_text: ";;".to_owned(),
            delete_chars: 2,
        }))
    );

    assert_eq!(capture.mode, CaptureMode::Active);
    assert!(capture.buffer.is_empty());

    let action = capture.push_text("ceshi ");

    assert_eq!(
        action,
        Some(CaptureAction::Convert(ConversionAction {
            typed_text: "ceshi ".to_owned(),
            body: "ceshi".to_owned(),
            restore_text: "ceshi".to_owned(),
            delete_chars: "ceshi ".chars().count(),
            stay_active: true,
        }))
    );
}

#[test]
fn space_triggers_incremental_conversion_without_restoring_space() {
    let mut capture = test_capture_state();
    capture.push_text(";;");
    capture.push_text("woyaoceshi");

    assert!(capture.will_rewrite_after_text(" ", false));
    let action = capture.push_text_with_visibility(" ", false);

    assert_eq!(
        action,
        Some(CaptureAction::Convert(ConversionAction {
            typed_text: "woyaoceshi ".to_owned(),
            body: "woyaoceshi".to_owned(),
            restore_text: "woyaoceshi".to_owned(),
            delete_chars: "woyaoceshi".chars().count(),
            stay_active: true,
        }))
    );
    assert_eq!(capture.mode, CaptureMode::Active);
    assert_eq!(capture.committed_output_chars, 0);
    assert_eq!(capture.hidden_prefix_backspaces_remaining, 2);
    assert!(capture.buffer.is_empty());
}

#[test]
fn buffered_replay_conversion_does_not_delete_host_text() {
    let mut capture = test_capture_state();
    capture.push_text(";;");

    let action = capture.push_text_with_visibility("woyaoceshi ", false);

    assert_eq!(
        action,
        Some(CaptureAction::Convert(ConversionAction {
            typed_text: "woyaoceshi ".to_owned(),
            body: "woyaoceshi".to_owned(),
            restore_text: "woyaoceshi".to_owned(),
            delete_chars: 0,
            stay_active: true,
        }))
    );
    assert_eq!(capture.mode, CaptureMode::Active);
    assert!(capture.buffer.is_empty());
    assert!(capture.buffer_visible.is_empty());
}

#[test]
fn punctuation_triggers_incremental_conversion_and_keeps_separator() {
    let mut capture = test_capture_state();
    capture.push_text(";;");

    let action = capture.push_text("woyaoceshi,");

    assert_eq!(
        action,
        Some(CaptureAction::Convert(ConversionAction {
            typed_text: "woyaoceshi,".to_owned(),
            body: "woyaoceshi,".to_owned(),
            restore_text: "woyaoceshi,".to_owned(),
            delete_chars: "woyaoceshi,".chars().count(),
            stay_active: true,
        }))
    );
}

#[test]
fn punctuation_separator_is_committed_as_chinese_punctuation() {
    let mut quote_state = QuoteState::default();

    assert_eq!(map_separator(",", &mut quote_state), "，");
    assert_eq!(map_separator(".", &mut quote_state), "。");
    assert_eq!(map_separator(":", &mut quote_state), "：");
    assert_eq!(map_separator(";", &mut quote_state), "；");

    let mut capture = test_capture_state();
    capture.push_text(";;");
    let action = capture.push_text("woyaoceshi ");
    assert!(matches!(
        action,
        Some(CaptureAction::Convert(ConversionAction { body, .. })) if body == "woyaoceshi"
    ));
}

#[test]
fn arbitrary_non_pinyin_separator_triggers_incremental_conversion() {
    let mut capture = test_capture_state();
    capture.push_text(";;");

    let action = capture.push_text("woyaoceshi:");

    assert_eq!(
        action,
        Some(CaptureAction::Convert(ConversionAction {
            typed_text: "woyaoceshi:".to_owned(),
            body: "woyaoceshi:".to_owned(),
            restore_text: "woyaoceshi:".to_owned(),
            delete_chars: "woyaoceshi:".chars().count(),
            stay_active: true,
        }))
    );
}

#[test]
fn trigger_characters_do_not_trigger_incremental_conversion() {
    let mut capture = test_capture_state();
    capture.push_text(";;");

    assert!(!capture.will_rewrite_after_text("woyaoceshi;", true));
    let action = capture.push_text("woyaoceshi;");

    assert_eq!(action, None);
    assert_eq!(capture.mode, CaptureMode::Active);
    assert_eq!(capture.buffer, "woyaoceshi;");
}

#[test]
fn non_pinyin_literals_do_not_enter_an_empty_active_buffer() {
    let mut capture = test_capture_state();
    capture.push_text(";;");

    for literal in ["1", "=", "-", "`", "!"] {
        assert_eq!(capture.push_text(literal), None);
        assert!(
            capture.buffer.is_empty(),
            "literal {literal:?} must stay outside the candidate buffer"
        );
    }

    assert!(!is_pinyin_char('1'));
    assert!(is_pinyin_char('n'));
    assert!(is_pinyin_char('\''));
}

#[test]
fn shifted_punctuation_converts_pending_pinyin() {
    let mut capture = test_capture_state();
    capture.push_text(";;ni");

    let action = capture.push_text("!");

    assert!(matches!(
        action,
        Some(CaptureAction::Convert(ConversionAction { body, .. })) if body == "ni!"
    ));
}

#[test]
fn candidate_commit_clears_pending_text_and_resets_page() {
    let mut capture = test_capture_state();
    capture.push_text(";;ni");
    capture.set_candidate_page(2);

    let action = capture.take_pending_commit("你".to_owned());

    assert_eq!(
        action,
        Some(PendingCommitAction {
            original_text: "ni".to_owned(),
            replacement_text: "你".to_owned(),
            delete_chars: 2,
        })
    );
    assert!(capture.buffer.is_empty());
    assert_eq!(capture.candidate_page, 0);
    assert!(capture.is_active());
}

#[test]
fn partial_candidate_selection_preserves_remaining_pinyin() {
    let mut capture = test_capture_state();
    capture.push_text(";;woshizhongguoren");
    capture.set_candidate_page(2);

    let action = capture
        .take_candidate_selection(CandidateSelection::Partial {
            selected_text: "我是".to_owned(),
            remaining_pinyin: "zhongguoren".to_owned(),
        })
        .unwrap();

    assert_eq!(
        action,
        PendingCandidateAction {
            original_text: "woshizhongguoren".to_owned(),
            selected_text: "我是".to_owned(),
            remaining_pinyin: Some("zhongguoren".to_owned()),
            replacement_text: "我是zhongguoren".to_owned(),
            delete_chars: "woshizhongguoren".chars().count(),
        }
    );
    assert_eq!(capture.buffer, "zhongguoren");
    assert_eq!(capture.buffer_visible, vec![true; "zhongguoren".len()]);
    assert_eq!(capture.candidate_page, 0);
    assert!(capture.is_active());
    assert_eq!(capture.committed_output_chars, 0);

    capture.record_partial_candidate(&action.selected_text);
    assert_eq!(capture.committed_output_chars, 2);
    assert_eq!(capture.last_conversion, None);

    capture.backspace();
    assert_eq!(capture.buffer, "zhongguore");
    assert_eq!(capture.committed_output_chars, 2);
}

#[test]
fn repeated_partial_candidate_selection_finishes_the_remaining_pinyin() {
    let mut capture = test_capture_state();
    capture.push_text(";;woshizhongguoren");

    let first = capture
        .take_candidate_selection(CandidateSelection::Partial {
            selected_text: "我是".to_owned(),
            remaining_pinyin: "zhongguoren".to_owned(),
        })
        .unwrap();
    capture.record_partial_candidate(&first.selected_text);

    let second = capture
        .take_candidate_selection(CandidateSelection::Partial {
            selected_text: "中国".to_owned(),
            remaining_pinyin: "ren".to_owned(),
        })
        .unwrap();
    assert_eq!(second.original_text, "zhongguoren");
    assert_eq!(second.replacement_text, "中国ren");
    assert_eq!(second.delete_chars, "zhongguoren".chars().count());
    capture.record_partial_candidate(&second.selected_text);

    let final_action = capture
        .take_candidate_selection(CandidateSelection::Complete {
            text: "人".to_owned(),
        })
        .unwrap();
    assert_eq!(final_action.original_text, "ren");
    assert_eq!(final_action.replacement_text, "人");
    assert_eq!(final_action.remaining_pinyin, None);
    assert!(capture.buffer.is_empty());
    capture.record_conversion(
        final_action.original_text,
        final_action.replacement_text,
        QuoteState::default(),
    );

    assert_eq!(capture.committed_output_chars, 5);
    assert!(capture.is_active());
}

#[test]
fn space_commit_is_invisible_and_deletes_only_pending_pinyin() {
    let mut capture = test_capture_state();
    capture.push_text(";;ni");

    assert!(is_pending_pinyin_commit_space(
        &capture,
        KEY_SPACE,
        " "
    ));
    let action = capture.push_text_with_visibility(" ", false);

    assert!(matches!(
        action,
        Some(CaptureAction::Convert(ConversionAction {
            typed_text,
            body,
            delete_chars: 2,
            stay_active: true,
            ..
        })) if typed_text == "ni " && body == "ni"
    ));

    let mut empty = test_capture_state();
    empty.push_text(";;");
    assert!(!is_pending_pinyin_commit_space(&empty, KEY_SPACE, " "));
}

#[test]
fn english_commit_keeps_raw_pending_text() {
    let mut capture = test_capture_state();
    capture.push_text(";;hello");

    let action = capture.take_pending_commit("hello".to_owned()).unwrap();
    capture.record_conversion(
        action.original_text,
        action.replacement_text,
        QuoteState::default(),
    );

    assert_eq!(capture.committed_output_chars, 5);
    assert_eq!(capture.last_conversion, None);
    assert!(capture.is_active());
}

#[test]
fn invalid_pinyin_followed_by_digit_commits_as_raw_literal_text() {
    let mut capture = test_capture_state();
    capture.push_text(";;vke");

    let action = capture.push_text("1");

    assert!(matches!(
        action,
        Some(CaptureAction::Convert(ConversionAction { body, .. })) if body == "vke1"
    ));
    assert!(capture.buffer.is_empty());
}

#[test]
fn no_candidate_control_key_can_be_recorded_as_raw_literal_output() {
    let mut capture = test_capture_state();
    capture.push_text(";;vke");

    let action = capture.take_pending_commit("vke-".to_owned()).unwrap();
    capture.record_committed_literal(&action.replacement_text);

    assert_eq!(action.delete_chars, 3);
    assert_eq!(capture.committed_output_chars, 4);
    assert_eq!(capture.last_conversion, None);
    assert!(capture.buffer.is_empty());
    assert!(capture.is_active());
}

#[test]
fn buffered_literal_outside_pending_pinyin_is_reinjected() {
    let mut capture = test_capture_state();
    capture.push_text(";;");

    let action = capture.push_text_with_visibility("1", false);

    assert_eq!(
        action,
        Some(CaptureAction::InsertLiteral(InsertLiteralAction {
            text: "1".to_owned(),
        }))
    );
    assert!(capture.buffer.is_empty());
    assert_eq!(capture.committed_output_chars, 1);
}

#[test]
fn visible_literal_deletion_preserves_hidden_prefix_budget() {
    let mut capture = test_capture_state();
    capture.push_text(";;");

    assert_eq!(capture.push_text("1"), None);
    assert_eq!(capture.committed_output_chars, 1);
    assert_eq!(capture.hidden_prefix_backspaces_remaining, 2);

    capture.backspace();

    assert!(capture.is_active());
    assert_eq!(capture.committed_output_chars, 0);
    assert_eq!(capture.hidden_prefix_backspaces_remaining, 2);
    assert!(capture.should_consume_backspace());
}

#[test]
fn clear_exits_active_state_and_drops_restore_history() {
    let mut capture = test_capture_state();
    capture.push_text(";;woyaoceshi");
    capture.record_conversion(
        "woyaoceshi".to_owned(),
        "我要测试".to_owned(),
        QuoteState::default(),
    );

    capture.clear();

    assert_eq!(capture.mode, CaptureMode::Idle);
    assert!(capture.buffer.is_empty());
    assert_eq!(capture.restore_last_conversion(true), None);
}

#[test]
fn delete_previous_word_keeps_active_state() {
    let mut capture = test_capture_state();
    capture.buffer = "woyao ceshi".to_owned();
    capture.buffer_visible = vec![true; capture.buffer.chars().count()];
    capture.mode = CaptureMode::Active;

    let first = capture.delete_previous_word();

    assert_eq!(capture.mode, CaptureMode::Active);
    assert_eq!(capture.buffer, "woyao ");
    assert_eq!(first.removed_chars, 5);
    assert_eq!(first.removed_visible_chars, 5);

    let second = capture.delete_previous_word();

    assert_eq!(capture.mode, CaptureMode::Active);
    assert!(capture.buffer.is_empty());
    assert_eq!(second.removed_chars, 6);
    assert_eq!(second.removed_visible_chars, 6);
}

#[test]
fn backspace_consumes_invisible_buffered_replay_text() {
    let mut capture = test_capture_state();
    capture.push_text(";;");
    capture.append_text_without_actions("ab", false);

    assert!(capture.should_consume_backspace());
    assert!(!capture.backspace_affects_visible_host());
    capture.backspace();
    assert_eq!(capture.buffer, "a");
    assert!(capture.should_consume_backspace());

    capture.backspace();
    assert!(capture.buffer.is_empty());
    assert!(capture.should_consume_backspace());
    assert_eq!(capture.hidden_prefix_backspaces_remaining, 2);
}

#[test]
fn replayed_backspace_requests_host_deletion_for_visible_state() {
    let mut capture = test_capture_state();
    capture.push_text(";;visible");
    assert!(capture.backspace_affects_visible_host());

    capture.buffer.clear();
    capture.buffer_visible.clear();
    capture.committed_output_chars = 2;
    assert!(capture.backspace_affects_visible_host());

    capture.committed_output_chars = 0;
    assert!(!capture.backspace_affects_visible_host());
    assert!(capture.should_consume_backspace());
}

#[test]
fn deleting_an_invisible_previous_word_requests_event_consumption() {
    let mut capture = test_capture_state();
    capture.push_text(";;");
    capture.append_text_without_actions("buffered ", false);

    let outcome = capture.delete_previous_word();

    assert_eq!(outcome.removed_chars, "buffered ".chars().count());
    assert_eq!(outcome.removed_visible_chars, 0);
    assert!(capture.buffer.is_empty());
    assert!(capture.is_active());
}

#[test]
fn mixed_visibility_previous_word_clears_instead_of_guessing_host_deletion() {
    let outcome = DeletePreviousWordOutcome {
        removed_chars: 5,
        removed_visible_chars: 2,
    };

    assert_eq!(
        outcome.disposition(),
        DeletePreviousWordDisposition::ClearAndPassThrough
    );
}

#[test]
fn suffix_still_converts_pending_body_and_ends_session() {
    let mut capture = test_capture_state();

    let action = capture.push_text(";;woyaoceshi;;");

    assert_eq!(
        action,
        Some(CaptureAction::Convert(ConversionAction {
            typed_text: "woyaoceshi;;".to_owned(),
            body: "woyaoceshi".to_owned(),
            restore_text: "woyaoceshi".to_owned(),
            delete_chars: "woyaoceshi;;".chars().count(),
            stay_active: false,
        }))
    );
    assert_eq!(capture.mode, CaptureMode::Idle);
    assert!(capture.buffer.is_empty());
}

#[test]
fn suffix_after_incremental_conversion_removes_visible_marker() {
    let mut capture = test_capture_state();
    capture.push_text(";;");
    capture.push_text("woyaoceshi ");
    capture.record_conversion(
        "woyaoceshi".to_owned(),
        "我要测试".to_owned(),
        QuoteState::default(),
    );

    let action = capture.push_text(";;");

    assert_eq!(
        action,
        Some(CaptureAction::EndSession(EndSessionAction {
            typed_text: ";;".to_owned(),
            replacement_text: String::new(),
            delete_chars: ";;".chars().count(),
        }))
    );
    assert_eq!(capture.mode, CaptureMode::Idle);
}

#[test]
fn suffix_after_incremental_conversion_converts_pending_body_and_removes_marker() {
    let mut capture = test_capture_state();
    capture.push_text(";;");
    capture.push_text("woyao ");
    capture.record_conversion("woyao".to_owned(), "我要".to_owned(), QuoteState::default());

    let action = capture.push_text("ceshi;;");

    assert_eq!(
        action,
        Some(CaptureAction::Convert(ConversionAction {
            typed_text: "ceshi;;".to_owned(),
            body: "ceshi".to_owned(),
            restore_text: "ceshi".to_owned(),
            delete_chars: "ceshi;;".chars().count(),
            stay_active: false,
        }))
    );
    assert_eq!(capture.mode, CaptureMode::Idle);
}

#[test]
fn backspace_after_conversion_restores_original_text() {
    let mut capture = test_capture_state();
    let quote_state_before = QuoteState { next_is_open: true };
    capture.mode = CaptureMode::Active;
    capture.record_conversion(
        "woyaoceshi".to_owned(),
        "我要测试".to_owned(),
        quote_state_before,
    );

    let restore = capture.restore_last_conversion(true);

    assert_eq!(
        restore,
        Some(RestoreAction {
            original_text: "woyaoceshi".to_owned(),
            replacement_text: "woyaoceshi".to_owned(),
            delete_remaining_chars: 3,
            quote_state_before,
        })
    );
    assert_eq!(capture.mode, CaptureMode::Active);
    assert_eq!(capture.buffer, "woyaoceshi");
    assert_eq!(capture.committed_output_chars, 0);
}

#[test]
fn buffered_replay_backspace_restores_all_inserted_characters() {
    let mut capture = test_capture_state();
    capture.mode = CaptureMode::Active;
    capture.record_conversion("ceshi".to_owned(), "测试".to_owned(), QuoteState::default());

    let restore = capture.restore_last_conversion(false).unwrap();

    assert_eq!(restore.delete_remaining_chars, 2);
    assert_eq!(restore.replacement_text, "ceshi");
}

#[test]
fn empty_conversion_output_consumes_backspace_before_restore() {
    let mut capture = test_capture_state();
    capture.mode = CaptureMode::Active;
    capture.record_conversion("vke".to_owned(), String::new(), QuoteState::default());

    assert!(capture.should_consume_backspace());
    let restore = capture.restore_last_conversion(false).unwrap();

    assert_eq!(restore.delete_remaining_chars, 0);
    assert_eq!(restore.replacement_text, "vke");
}

#[test]
fn deleting_multiple_committed_segments_preserves_hidden_prefix_budget() {
    let mut capture = test_capture_state();
    capture.push_text(";;");

    capture.push_text("woyao ");
    capture.record_conversion("woyao".to_owned(), "我要".to_owned(), QuoteState::default());
    capture.push_text("ceshi ");
    capture.record_conversion("ceshi".to_owned(), "测试".to_owned(), QuoteState::default());

    let restored = capture.restore_last_conversion(true).unwrap();
    assert_eq!(restored.replacement_text, "ceshi");
    assert_eq!(capture.committed_output_chars, 2);
    assert_eq!(capture.hidden_prefix_backspaces_remaining, 2);

    for _ in 0.."ceshi".chars().count() {
        capture.backspace();
    }
    assert!(capture.is_active());
    assert_eq!(capture.committed_output_chars, 2);

    capture.backspace();
    assert!(capture.is_active());
    capture.backspace();
    assert!(
        capture.is_active(),
        "deleting the first segment must not consume the hidden prefix budget"
    );
    assert_eq!(capture.committed_output_chars, 0);
    assert_eq!(capture.hidden_prefix_backspaces_remaining, 2);
    assert!(capture.should_consume_backspace());

    capture.backspace();
    assert!(capture.is_active());
    assert_eq!(capture.hidden_prefix_backspaces_remaining, 1);
    capture.backspace();
    assert!(!capture.is_active());
}

#[test]
fn retyping_does_not_reset_partially_consumed_hidden_prefix_budget() {
    let mut capture = test_capture_state();
    capture.push_text(";;");
    capture.backspace();
    assert_eq!(capture.hidden_prefix_backspaces_remaining, 1);

    capture.push_text("ni");
    capture.backspace();
    capture.backspace();

    assert!(capture.is_active());
    assert_eq!(capture.hidden_prefix_backspaces_remaining, 1);
    capture.backspace();
    assert!(!capture.is_active());
}

#[test]
fn failed_rewrite_restores_raw_buffer_and_visibility() {
    let mut capture = test_capture_state();
    capture.push_text(";;vke");
    let previous = capture.clone();

    assert!(matches!(
        capture.push_text_with_visibility(" ", false),
        Some(CaptureAction::Convert(ConversionAction { .. }))
    ));
    assert!(capture.buffer.is_empty());

    capture.restore_after_failed_rewrite(previous, " ", false);

    assert_eq!(capture.mode, CaptureMode::Active);
    assert_eq!(capture.buffer, "vke ");
    assert_eq!(capture.buffer_visible, vec![true, true, true, false]);
    assert_eq!(capture.hidden_prefix_backspaces_remaining, 2);
}

#[test]
fn backspace_to_empty_raw_buffer_keeps_hidden_marker_session() {
    let mut capture = test_capture_state();
    capture.push_text(";;");
    capture.buffer = "bug".to_owned();
    capture.buffer_visible = vec![true; 3];

    capture.backspace();
    capture.backspace();
    capture.backspace();

    assert_eq!(capture.mode, CaptureMode::Active);
    assert_eq!(capture.hidden_prefix_backspaces_remaining, 2);
    assert!(capture.buffer.is_empty());

    let action = capture.push_text("le ");

    assert_eq!(
        action,
        Some(CaptureAction::Convert(ConversionAction {
            typed_text: "le ".to_owned(),
            body: "le".to_owned(),
            restore_text: "le".to_owned(),
            delete_chars: "le ".chars().count(),
            stay_active: true,
        }))
    );
    assert_eq!(capture.mode, CaptureMode::Active);
}

#[test]
fn backspace_with_empty_raw_buffer_consumes_trigger_length_before_exit() {
    let mut capture = test_capture_state();
    capture.mode = CaptureMode::Active;
    capture.hidden_prefix_backspaces_remaining = capture.active_exit_backspace_count();

    capture.backspace();

    assert_eq!(capture.mode, CaptureMode::Active);
    assert_eq!(capture.hidden_prefix_backspaces_remaining, 1);

    capture.backspace();

    assert_eq!(capture.mode, CaptureMode::Idle);
    assert_eq!(capture.hidden_prefix_backspaces_remaining, 0);
}

#[test]
fn backspace_after_deleting_all_marker_chars_exits_active_state() {
    let mut capture = test_capture_state();
    capture.hidden_prefix_backspaces_remaining = capture.config.trigger_prefix.chars().count();
    capture.mode = CaptureMode::Active;

    capture.backspace();

    assert_eq!(capture.mode, CaptureMode::Active);
    assert_eq!(capture.hidden_prefix_backspaces_remaining, 1);

    capture.backspace();

    assert_eq!(capture.mode, CaptureMode::Idle);
    assert_eq!(capture.hidden_prefix_backspaces_remaining, 0);
}

#[test]
fn raw_fallback_segment_preserves_invalid_pinyin() {
    let segment = raw_fallback_segment("vke", "vke", "vke");

    assert_eq!(segment.raw, "vke");
    assert_eq!(segment.normalized, "vke");
    assert_eq!(segment.preedit, "vke");
    assert_eq!(segment.first, "vke");

    let mut capture = test_capture_state();
    capture.mode = CaptureMode::Active;
    capture.record_conversion("vke".to_owned(), "vke".to_owned(), QuoteState::default());
    assert_eq!(capture.committed_output_chars, 3);
    assert_eq!(capture.last_conversion, None);
}
