//! Tokens, separators, candidates and rewrites.

use rime_poc::candidates::remaining_raw_pinyin;
use rime_poc::config::{AppConfig, CandidateInteractionKey, DEFAULT_CANDIDATE_PAGE_NEXT_KEY};
use rime_poc::listener::candidate_interaction_for_event;
use rime_poc::mac::{NativeCommand, KEY_SPACE};
use rime_poc::rewrite::RewriteTransactionGuard;
use rime_poc::separators::{map_separator, QuoteState};
use rime_poc::tokens::{tokenize_body, Token};

#[test]
fn candidate_selection_suffix_preserves_internal_apostrophe() {
    assert_eq!(
        remaining_raw_pinyin("woshizhongguoren", "zhong guo ren"),
        Some("zhongguoren".to_owned())
    );
    assert_eq!(
        remaining_raw_pinyin("woxi'anren", "xi an ren"),
        Some("xi'anren".to_owned())
    );
    assert_eq!(remaining_raw_pinyin("ni", "ni"), None);
    assert_eq!(remaining_raw_pinyin("ni", ""), None);
}

#[test]
fn space_selects_first_candidate_on_current_page() {
    let config = AppConfig::default();

    assert_eq!(
        candidate_interaction_for_event(&config, KEY_SPACE, ' '),
        Some(CandidateInteractionKey::Select(0))
    );
    assert_eq!(
        candidate_interaction_for_event(&config, 18, '1'),
        Some(CandidateInteractionKey::Select(0))
    );
    assert_eq!(
        candidate_interaction_for_event(
            &config,
            27,
            DEFAULT_CANDIDATE_PAGE_NEXT_KEY.chars().next().unwrap()
        ),
        Some(CandidateInteractionKey::NextPage)
    );
}

#[test]
fn rewrite_transaction_guard_aborts_only_when_uncommitted() {
    let mut commands = Vec::new();

    {
        let transaction = RewriteTransactionGuard::new();
        transaction.finish(&mut commands);
    }
    assert_eq!(commands, vec![NativeCommand::AbortRewrite]);

    {
        let mut transaction = RewriteTransactionGuard::new();
        transaction.mark_committed();
        transaction.finish(&mut commands);
    }
    assert_eq!(commands, vec![NativeCommand::AbortRewrite]);
}

#[test]
fn tokenizes_pinyin_runs_and_separators() {
    assert_eq!(
        tokenize_body("woyaoceshi,nihaoma?\"hao...zaijian\""),
        vec![
            Token::Pinyin("woyaoceshi".to_owned()),
            Token::Separator(",".to_owned()),
            Token::Pinyin("nihaoma".to_owned()),
            Token::Separator("?".to_owned()),
            Token::Separator("\"".to_owned()),
            Token::Pinyin("hao".to_owned()),
            Token::Separator("...".to_owned()),
            Token::Pinyin("zaijian".to_owned()),
            Token::Separator("\"".to_owned()),
        ]
    );

    assert_eq!(
        tokenize_body("hao……zaijian"),
        vec![
            Token::Pinyin("hao".to_owned()),
            Token::Separator("……".to_owned()),
            Token::Pinyin("zaijian".to_owned()),
        ]
    );
}

#[test]
fn maps_half_width_separators_to_chinese_punctuation() {
    let mut quote_state = QuoteState::default();
    let mapped = [",", ".", "?", "!", "-", "+", "...", "~", "\"", "\""]
        .into_iter()
        .map(|item| map_separator(item, &mut quote_state))
        .collect::<String>();

    assert_eq!(mapped, "，。？！－＋……～“”");

    let mut quote_state = QuoteState::default();
    let mapped_quotes = ["\"", "\"", "\"", "\""]
        .into_iter()
        .map(|item| map_separator(item, &mut quote_state))
        .collect::<String>();

    assert_eq!(mapped_quotes, "“”“”");
}
