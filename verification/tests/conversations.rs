//! Conversations with an engine: conversions, look-ups and selections.

use rime_poc::actions::CandidateSelection;
use rime_poc::candidate_session::{
    open_candidate_session, preview_candidates, select_candidate, CandidateSession,
};
use rime_poc::candidates::{
    empty_preview, partial_selection, preview_from, remaining_raw_pinyin, CandidatePreview,
    SelectOutcome,
};
use rime_poc::config::ConversionMode;
use rime_poc::conversion::{convert_body_with_quote_state, ConversionOutput};
use rime_poc::engine::{EngineContext, EngineError, EngineReply, EngineRequest, Progress};
use rime_poc::rime_auto::{convert_body, convert_body_in_mode};
use rime_poc::rime_table::{ensure_field_available, TableError, TableField};
use rime_poc::segments::{convert_pinyin_run, raw_fallback_segment, segment_from, ConvertedSegment};
use rime_poc::separators::QuoteState;
use rime_poc::tokens::Token;

/// An engine with a small lexicon: the candidates of a pinyin, each with what it leaves.
struct Engine {
    lexicon: Vec<(&'static str, Vec<(&'static str, &'static str)>)>,
    page_size: usize,
    typed: String,
    page: usize,
    selected: Option<(String, String)>,
    commit: Option<String>,
    open: bool,
    closing_fails: bool,
    log: Vec<String>,
}

fn engine() -> Engine {
    Engine {
        lexicon: vec![
            ("woyaoceshi", vec![("我要测试", "")]),
            ("nihaoma", vec![("你好吗", "")]),
            ("hao", vec![("好", ""), ("号", "")]),
            ("shi", vec![("是", ""), ("时", ""), ("事", ""), ("市", ""), ("十", "")]),
            (
                "woshizhongguoren",
                vec![("我是中国人", ""), ("我是", "zhong guo ren")],
            ),
            ("zhongguoren", vec![("中国人", "")]),
        ],
        page_size: 2,
        typed: String::new(),
        page: 0,
        selected: None,
        commit: None,
        open: false,
        closing_fails: false,
        log: Vec::new(),
    }
}

impl Engine {
    fn candidates(&self) -> Vec<(&'static str, &'static str)> {
        self.lexicon
            .iter()
            .find(|(pinyin, _)| *pinyin == self.typed)
            .map(|(_, candidates)| candidates.clone())
            .unwrap_or_default()
    }

    fn page_of(&self, page: usize) -> Vec<(&'static str, &'static str)> {
        self.candidates()
            .into_iter()
            .skip(page * self.page_size)
            .take(self.page_size)
            .collect()
    }

    fn answer(&mut self, request: EngineRequest) -> EngineReply {
        match request {
            EngineRequest::Open { schema } => {
                self.log.push(format!("open {schema}"));
                self.open = true;
                self.typed.clear();
                self.page = 0;
                self.selected = None;
                EngineReply::Opened(Ok(()))
            }
            EngineRequest::ProcessKey { code } => {
                let ch = char::from_u32(code).unwrap();
                let accepted = ch.is_ascii_lowercase() && ch != 'v';
                if accepted {
                    self.typed.push(ch);
                }
                EngineReply::Key { accepted }
            }
            EngineRequest::TakeCommit => EngineReply::Commit(self.commit.take()),
            EngineRequest::ReadContext => {
                if let Some((text, left)) = &self.selected {
                    return EngineReply::Context(Some(EngineContext {
                        preedit: Some(format!("{text}{left}")),
                        sel_start: text.len(),
                        candidates: vec!["中国人".to_owned()],
                        page_no: 0,
                        is_last_page: true,
                    }));
                }
                let last = self.page_of(self.page + 1).is_empty();
                EngineReply::Context(Some(EngineContext {
                    preedit: Some(self.typed.clone()),
                    sel_start: 0,
                    candidates: self
                        .page_of(self.page)
                        .into_iter()
                        .map(|(text, _)| text.to_owned())
                        .collect(),
                    page_no: self.page,
                    is_last_page: last,
                }))
            }
            EngineRequest::NextPage => {
                let more = !self.page_of(self.page + 1).is_empty();
                if more {
                    self.page += 1;
                }
                self.log.push("page".to_owned());
                EngineReply::Page(Ok(more))
            }
            EngineRequest::SelectOnPage { index } => {
                let (text, left) = self.page_of(self.page)[index];
                if left.is_empty() {
                    self.commit = Some(text.to_owned());
                } else {
                    self.selected = Some((text.to_owned(), left.to_owned()));
                }
                self.log.push(format!("select {index}"));
                EngineReply::Selected(Ok(true))
            }
            EngineRequest::Close => {
                self.log.push("close".to_owned());
                self.open = false;
                EngineReply::Closed { ok: !self.closing_fails }
            }
        }
    }
}

fn converted(engine: &mut Engine, mode: ConversionMode, body: &str) -> Result<ConversionOutput, EngineError> {
    let mut progress = convert_body(mode, "luna", body.to_owned());
    loop {
        match progress {
            Progress::Going(conversion) => {
                let reply = engine.answer(conversion.request());
                progress = conversion.advance(reply);
            }
            Progress::Done(result) => return result.map(|converted| converted.output),
        }
    }
}

fn previewed(engine: &mut Engine, body: &str, count: usize, page: usize) -> Result<CandidatePreview, EngineError> {
    let mut progress = preview_candidates("luna", body, count, page);
    loop {
        match progress {
            Progress::Going(lookup) => {
                let reply = engine.answer(lookup.request());
                progress = lookup.advance(reply);
            }
            Progress::Done(result) => return result,
        }
    }
}

fn selected(engine: &mut Engine, body: &str, page: usize, index: usize) -> Result<SelectOutcome, EngineError> {
    let mut progress = select_candidate("luna", body, page, index);
    loop {
        match progress {
            Progress::Going(choice) => {
                let reply = engine.answer(choice.request());
                progress = choice.advance(reply);
            }
            Progress::Done(result) => return result,
        }
    }
}

fn context(preedit: Option<&str>, sel_start: usize, candidates: &[&str]) -> EngineContext {
    EngineContext {
        preedit: preedit.map(str::to_owned),
        sel_start,
        candidates: candidates.iter().map(|text| text.to_string()).collect(),
        page_no: 0,
        is_last_page: true,
    }
}

#[test]
fn a_body_is_converted_run_by_run() {
    let mut engine = engine();

    let output = converted(&mut engine, ConversionMode::Segmented, "woyaoceshi,nihaoma!").unwrap();

    assert_eq!(output.output, "我要测试，你好吗！");
    assert_eq!(output.body, "woyaoceshi,nihaoma!");
    assert_eq!(output.segments.len(), 2);
    assert_eq!(output.segments[1].raw, "nihaoma");
    assert_eq!(output.segments[1].first, "你好吗");
    assert_eq!(
        output.tokens,
        vec![
            Token::Pinyin("woyaoceshi".to_owned()),
            Token::Separator(",".to_owned()),
            Token::Pinyin("nihaoma".to_owned()),
            Token::Separator("!".to_owned()),
        ]
    );
    assert_eq!(engine.log, vec!["open luna", "close", "open luna", "close"]);
    assert!(!engine.open);
}

#[test]
fn quotes_alternate_within_a_body_and_carry_over() {
    let mut engine = engine();
    let output = converted(&mut engine, ConversionMode::Segmented, "\"hao\",\"hao").unwrap();
    assert_eq!(output.output, "“好”，“好");

    match convert_body_with_quote_state("luna", "\"...".to_owned(), QuoteState { next_is_open: true }) {
        Progress::Done(Ok(conversion)) => {
            assert_eq!(conversion.output.output, "”……");
            assert_eq!(conversion.quote_state, QuoteState { next_is_open: false });
        }
        other => panic!("a body without pinyin needs no engine: {other:?}"),
    }
}

#[test]
fn invalid_pinyin_stays_as_it_is_in_both_modes() {
    let mut engine = engine();
    let output = converted(&mut engine, ConversionMode::Segmented, "vke").unwrap();
    assert_eq!(output.output, "vke");
    assert_eq!(output.segments[0], raw_fallback_segment("vke", "vke", "vke"));

    let output = converted(&mut engine, ConversionMode::RimeAuto, "vke").unwrap();
    assert_eq!(output.output, "vke");
    assert_eq!(output.tokens, vec![Token::RimeAuto("vke".to_owned())]);
    assert!(!engine.open);
}

#[test]
fn a_run_without_candidates_stays_as_it_is() {
    let mut engine = engine();
    let output = converted(&mut engine, ConversionMode::Segmented, "xyz").unwrap();
    assert_eq!(output.output, "xyz");
    assert_eq!(output.segments[0].preedit, "xyz");
}

#[test]
fn the_engine_segments_a_body_by_itself() {
    let mut engine = engine();
    let output = converted(&mut engine, ConversionMode::RimeAuto, "hao").unwrap();
    assert_eq!(output.output, "好");
    assert_eq!(
        output.segments,
        vec![ConvertedSegment {
            raw: "hao".to_owned(),
            normalized: "hao".to_owned(),
            preedit: "hao".to_owned(),
            first: "好".to_owned(),
        }]
    );
}

#[test]
fn a_commit_takes_the_place_of_what_was_pending() {
    let mut progress = convert_body(ConversionMode::RimeAuto, "luna", "ni 1".to_owned());
    let replies = [
        EngineReply::Opened(Ok(())),
        EngineReply::Key { accepted: true },
        EngineReply::Commit(None),
        EngineReply::Key { accepted: true },
        EngineReply::Commit(None),
        EngineReply::Key { accepted: true },
        EngineReply::Commit(Some("你".to_owned())),
        EngineReply::Key { accepted: false },
        EngineReply::Commit(None),
        EngineReply::Context(None),
        EngineReply::Closed { ok: true },
    ];
    for reply in replies {
        progress = match progress {
            Progress::Going(conversion) => conversion.advance(reply),
            done => done,
        };
    }
    match progress {
        Progress::Done(Ok(converted)) => {
            assert_eq!(converted.output.output, "你1");
            assert_eq!(converted.output.segments[0].preedit, "<none>");
            assert_eq!(converted.quote_state, QuoteState::default());
        }
        other => panic!("{other:?}"),
    }
}

#[test]
fn a_quotation_goes_on_through_a_conversion_as_a_whole() {
    for mode in [ConversionMode::Segmented, ConversionMode::RimeAuto] {
        let mut engine = engine();
        let open = QuoteState { next_is_open: true };
        let mut progress = convert_body_in_mode(mode, "luna", "hao\"".to_owned(), open);
        let converted = loop {
            match progress {
                Progress::Going(conversion) => {
                    let reply = engine.answer(conversion.request());
                    progress = conversion.advance(reply);
                }
                Progress::Done(result) => break result.unwrap(),
            }
        };
        match mode {
            ConversionMode::Segmented => {
                assert_eq!(converted.output.output, "好”");
                assert_eq!(converted.quote_state, QuoteState::default());
            }
            ConversionMode::RimeAuto => {
                assert_eq!(converted.output.output, "hao\"好");
                assert_eq!(converted.quote_state, open);
            }
        }
    }
}

#[test]
fn an_engine_that_does_not_open_or_close_fails_the_conversion() {
    let mut engine = engine();
    engine.closing_fails = true;
    let error = converted(&mut engine, ConversionMode::Segmented, "hao").unwrap_err();
    assert_eq!(error, EngineError::CloseSession);
    assert_eq!(error.message(), "failed to close Rime session");
    let error = converted(&mut engine, ConversionMode::RimeAuto, "hao").unwrap_err();
    assert_eq!(error, EngineError::CloseSession);

    let run = convert_pinyin_run("luna", "hao", "hao");
    assert_eq!(run.request(), EngineRequest::Open { schema: "luna".to_owned() });
    match run.advance(EngineReply::Opened(Err(EngineError::CreateSession))) {
        Progress::Done(Err(error)) => {
            assert_eq!(error.message(), "failed to create Rime session");
        }
        other => panic!("{other:?}"),
    }
    let error = EngineError::SelectSchema { schema: "luna".to_owned() };
    assert_eq!(error.message(), "failed to select Rime schema: luna");
}

#[test]
fn a_segment_takes_the_first_candidate() {
    let segment = segment_from("hao", "hao", Some(context(None, 0, &["好", "号"])));
    assert_eq!(segment.first, "好");
    assert_eq!(segment.preedit, "hao");
    let segment = segment_from("hao", "hao", Some(context(Some("h ao"), 0, &[])));
    assert_eq!(segment.first, "hao");
    assert_eq!(segment.preedit, "h ao");
    assert_eq!(segment_from("hao", "hao", None), raw_fallback_segment("hao", "hao", "hao"));
}

#[test]
fn candidates_are_looked_up_by_page() {
    let mut engine = engine();

    let first = previewed(&mut engine, "shi", 5, 0).unwrap();
    assert_eq!(first.candidates, vec!["是", "时"]);
    assert_eq!(first.page_no, 0);
    assert!(!first.is_last_page);

    let second = previewed(&mut engine, "shi", 1, 1).unwrap();
    assert_eq!(second.candidates, vec!["事"]);
    assert_eq!(second.page_no, 1);

    engine.log.clear();
    let beyond = previewed(&mut engine, "shi", 5, 9).unwrap();
    assert_eq!(beyond.candidates, vec!["十"]);
    assert_eq!(beyond.page_no, 2);
    assert!(beyond.is_last_page);
    assert_eq!(engine.log, vec!["open luna", "page", "page", "page", "close"]);
}

#[test]
fn candidates_are_for_the_last_run_with_a_letter() {
    let mut engine = engine();
    let preview = previewed(&mut engine, "hao,SHI;", 5, 0).unwrap();
    assert_eq!(preview.preedit, "shi");
    assert_eq!(preview.candidates, vec!["是", "时"]);
}

#[test]
fn without_pinyin_the_preview_is_idle() {
    let mut engine = engine();
    for body in ["", "''", ",1"] {
        let preview = previewed(&mut engine, body, 5, 0).unwrap();
        assert_eq!(preview, empty_preview());
    }
    assert_eq!(empty_preview().preedit, "Rime active");
    assert!(engine.log.is_empty());

    let preview = previewed(&mut engine, "av", 5, 0).unwrap();
    assert_eq!(preview, empty_preview());
    assert_eq!(engine.log, vec!["open luna", "close"]);
    assert!(matches!(
        open_candidate_session("luna", "1", 0),
        Progress::Done(Ok(CandidateSession::Absent))
    ));
}

#[test]
fn a_preview_shows_the_pinyin_where_nothing_is_composed() {
    let preview = preview_from("ni".to_owned(), None, 5);
    assert_eq!(preview.preedit, "ni");
    assert!(preview.candidates.is_empty());
    assert!(preview.is_last_page);
    let preview = preview_from("ni".to_owned(), Some(context(None, 0, &["你", "呢"])), 1);
    assert_eq!(preview.preedit, "ni");
    assert_eq!(preview.candidates, vec!["你"]);
}

#[test]
fn a_page_that_cannot_be_turned_is_an_error() {
    let missing = TableError::MissingFunction { field: TableField::ChangePage };
    let mut progress = preview_candidates("luna", "a", 5, 1);
    for reply in [
        EngineReply::Opened(Ok(())),
        EngineReply::Key { accepted: true },
        EngineReply::Page(Err(EngineError::Table(missing))),
    ] {
        progress = match progress {
            Progress::Going(lookup) => lookup.advance(reply),
            done => done,
        };
    }
    // The session is closed first; whether that succeeds does not matter any more.
    progress = match progress {
        Progress::Going(lookup) => {
            assert_eq!(lookup.request(), EngineRequest::Close);
            lookup.advance(EngineReply::Closed { ok: false })
        }
        done => panic!("{done:?}"),
    };
    match progress {
        Progress::Done(Err(error)) => {
            assert_eq!(error.message(), "librime API change_page is unavailable");
        }
        other => panic!("{other:?}"),
    }
}

#[test]
fn a_candidate_is_selected_on_its_page() {
    let mut engine = engine();
    let outcome = selected(&mut engine, "shi", 1, 1).unwrap();
    assert_eq!(
        outcome,
        SelectOutcome::Selected(CandidateSelection::Complete { text: "市".to_owned() })
    );
    assert_eq!(engine.log, vec!["open luna", "page", "select 1", "close"]);

    let outcome = selected(&mut engine, "shi", 0, 7).unwrap();
    assert_eq!(outcome, SelectOutcome::Nothing);
    assert!(!engine.open);
    assert_eq!(selected(&mut engine, "", 0, 0).unwrap(), SelectOutcome::Nothing);
}

#[test]
fn a_partial_selection_leaves_the_rest_of_the_pinyin() {
    let mut engine = engine();
    let outcome = selected(&mut engine, "woshizhongguoren", 0, 1).unwrap();
    assert_eq!(
        outcome,
        SelectOutcome::Selected(CandidateSelection::Partial {
            selected_text: "我是".to_owned(),
            remaining_pinyin: "zhongguoren".to_owned(),
        })
    );
    assert!(!engine.open);
}

#[test]
fn a_selection_error_comes_before_a_closing_error() {
    let mut progress = select_candidate("luna", "a", 0, 0);
    for reply in [
        EngineReply::Opened(Ok(())),
        EngineReply::Key { accepted: true },
        EngineReply::Context(Some(context(Some("a"), 0, &["啊"]))),
        EngineReply::Selected(Err(EngineError::Table(TableError::NullTable))),
        EngineReply::Closed { ok: false },
    ] {
        progress = match progress {
            Progress::Going(choice) => choice.advance(reply),
            done => done,
        };
    }
    match progress {
        Progress::Done(Err(error)) => assert_eq!(error.message(), "librime returned a null API table"),
        other => panic!("{other:?}"),
    }
}

#[test]
fn a_partial_selection_must_make_progress() {
    let outcome = |context| partial_selection("woxi'an".to_owned(), "我".to_owned(), context);

    assert_eq!(
        outcome(Some(context(Some("我xi an"), 3, &["西安"]))),
        Ok(SelectOutcome::Selected(CandidateSelection::Partial {
            selected_text: "我".to_owned(),
            remaining_pinyin: "xi'an".to_owned(),
        }))
    );
    assert_eq!(
        outcome(None).unwrap_err().message(),
        "Rime returned neither a commit nor a post-selection context"
    );
    assert_eq!(
        outcome(Some(context(None, 3, &["西安"]))).unwrap_err().message(),
        "Rime partial selection has no preedit"
    );
    assert_eq!(
        outcome(Some(context(Some("我xi an"), 1, &["西安"]))).unwrap_err().message(),
        "Rime partial selection boundary 1 is invalid for preedit \"我xi an\""
    );
    assert_eq!(
        outcome(Some(context(Some("wo xi an"), 0, &["西安"]))).unwrap_err().message(),
        "Rime partial selection made no valid progress: raw=\"woxi'an\" preedit=\"wo xi an\" boundary=0"
    );
    assert_eq!(
        outcome(Some(context(Some("我xi an"), 3, &[]))).unwrap_err().message(),
        "Rime partial selection left no candidates for \"xi'an\""
    );
}

#[test]
fn what_is_left_of_the_pinyin_begins_with_a_letter() {
    assert_eq!(remaining_raw_pinyin("wo''an", "an"), Some("an".to_owned()));
    assert_eq!(remaining_raw_pinyin("woan'", "AN"), Some("an'".to_owned()));
    assert_eq!(remaining_raw_pinyin("woan", "xi"), None);
}

#[test]
fn a_table_must_reach_to_the_end_of_a_function() {
    let field = TableField::SelectCandidateOnCurrentPage;
    assert_eq!(ensure_field_available(12, 8, 8, field), Ok(()));
    let error = ensure_field_available(11, 8, 8, field).unwrap_err();
    assert_eq!(
        error.message(),
        "librime API select_candidate_on_current_page requires 16 table bytes, but this version exposes 15"
    );
    let error = ensure_field_available(-1, 0, 0, field).unwrap_err();
    assert_eq!(error, TableError::NegativeSize { data_size: -1 });
    assert_eq!(
        error.message(),
        "librime API table has an invalid negative data_size: -1"
    );
    assert_eq!(
        ensure_field_available(i32::MAX, usize::MAX, 8, field),
        Err(TableError::FieldBeyondTable {
            field,
            required: usize::MAX,
            available: i32::MAX as usize + 4,
        })
    );
}
