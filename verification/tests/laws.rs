//! Laws of tokens, keys and typed text, on concrete values.

use rime_poc::capture::CaptureState;
use rime_poc::config::{AppConfig, CandidateInteractionKey, ConversionMode};
use rime_poc::engine::{EngineContext, EngineReply, EngineRequest, Progress};
use rime_poc::rime_auto::convert_body;
use rime_poc::segments::ConvertedSegment;
use rime_poc::tokens::{tokenize_body, Token};

#[test]
fn ellipses_are_whole() {
    let separators = |body: &str| -> Vec<String> {
        tokenize_body(body)
            .into_iter()
            .map(|token| match token {
                Token::Separator(text) => text,
                other => panic!("{other:?}"),
            })
            .collect()
    };
    assert_eq!(separators("....."), ["...", ".", "."]);
    assert_eq!(separators("......"), ["...", "..."]);
    assert_eq!(separators("………"), ["……", "…"]);
    assert_eq!(separators("…..…"), ["…", ".", ".", "…"]);
}

#[test]
fn only_the_configured_keys_work_on_candidates() {
    let config = AppConfig::default();
    for ch in '\0'..=char::MAX {
        let expected = match ch {
            '1'..='9' => Some(CandidateInteractionKey::Select(ch as usize - '1' as usize)),
            '0' => Some(CandidateInteractionKey::Select(9)),
            '=' => Some(CandidateInteractionKey::NextPage),
            '-' => Some(CandidateInteractionKey::PreviousPage),
            '`' => Some(CandidateInteractionKey::EnglishCommit),
            _ => None,
        };
        assert_eq!(config.candidate_interaction_key(ch), expected, "{ch:?}");
    }
}

#[test]
fn text_is_typed_part_by_part_and_without_control_characters() {
    let state = || CaptureState::new(AppConfig::default(), 128);
    let text = ";;wo\u{7}yao\r,ni";
    let mut whole = state();
    let whole_action = whole.push_text_with_visibility(text, true);
    assert!(whole_action.is_some());
    for split in 0..=text.len() {
        let mut parts = state();
        let first = parts.push_text_with_visibility(&text[..split], true);
        let second = parts.push_text_with_visibility(&text[split..], true);
        assert_eq!(second.or(first), whole_action);
        assert_eq!(parts.buffer, whole.buffer);
        assert_eq!(parts.buffer_visible, whole.buffer_visible);
        assert_eq!(parts.mode, whole.mode);
    }
    let mut plain = state();
    assert_eq!(plain.push_text_with_visibility(";;woyao,ni", true), whole_action);
    assert_eq!(plain.buffer, whole.buffer);
    assert_eq!(plain.push_text_with_visibility("\u{7}\r\n", true), None);
    assert_eq!(plain.buffer, whole.buffer);
}

#[test]
fn an_unconverted_body_is_one_token_and_one_segment() {
    let mut progress = convert_body(ConversionMode::RimeAuto, "luna", "a,B".to_owned());
    let converted = loop {
        let conversion = match progress {
            Progress::Going(conversion) => conversion,
            Progress::Done(result) => break result.unwrap().output,
        };
        let reply = match conversion.request() {
            EngineRequest::Open { .. } => EngineReply::Opened(Ok(())),
            EngineRequest::ProcessKey { code } => EngineReply::Key { accepted: code != 44 },
            EngineRequest::TakeCommit => EngineReply::Commit(None),
            EngineRequest::ReadContext => EngineReply::Context(Some(EngineContext {
                preedit: Some("b".to_owned()),
                sel_start: 0,
                candidates: Vec::new(),
                page_no: 0,
                is_last_page: true,
            })),
            EngineRequest::Close => EngineReply::Closed { ok: true },
            other => panic!("{other:?}"),
        };
        progress = conversion.advance(reply);
    };
    assert_eq!(converted.body, "a,B");
    assert_eq!(converted.output, "a,B");
    assert_eq!(converted.tokens, [Token::RimeAuto("a,B".to_owned())]);
    assert_eq!(
        converted.segments,
        [ConvertedSegment {
            raw: "a,B".to_owned(),
            normalized: "a,B".to_owned(),
            preedit: "b".to_owned(),
            first: "a,B".to_owned(),
        }]
    );
}
