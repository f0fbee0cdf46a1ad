//! Candidates: what is shown of them, and what a selected one leaves of the pinyin.

use vstd::prelude::*;

use crate::actions::{text_option, CandidateSelection, SelectionView};
use crate::bytes::{tail_at_byte, tail_from_byte};
use crate::capture::{all_pinyin, CaptureView};
use crate::chars::{ascii_letter, pinyin_char};
use crate::engine::{texts, ContextView, EngineContext, EngineError, EngineErrorView};
use crate::text::{
    char_count, finishes_with, has_letter, letters, letters_of, lower, same_chars, slice, to_chars,
};
use crate::tokens::{last_lettered_run, run_length, tokens_of, TokenView};

verus! {

/// A page of candidates for the pending pinyin.
#[derive(Debug, PartialEq, Eq)]
pub struct CandidatePreview {
    pub preedit: String,
    pub candidates: Vec<String>,
    pub page_no: usize,
    pub is_last_page: bool,
}

/// What a [`CandidatePreview`] holds.
#[verifier::ext_equal]
pub struct PreviewView {
    pub preedit: Seq<char>,
    pub candidates: Seq<Seq<char>>,
    pub page_no: usize,
    pub is_last_page: bool,
}

impl View for CandidatePreview {
    type V = PreviewView;

    open spec fn view(&self) -> PreviewView {
        PreviewView {
            preedit: self.preedit@,
            candidates: texts(self.candidates@),
            page_no: self.page_no,
            is_last_page: self.is_last_page,
        }
    }
}

/// What is shown of a session that has nothing to offer.
pub const IDLE_PREEDIT: &'static str = "Rime active";

/// The preview while there is no pinyin to offer candidates for.
pub open spec fn idle_preview() -> PreviewView {
    PreviewView { preedit: IDLE_PREEDIT@, candidates: seq![], page_no: 0, is_last_page: true }
}

/// The preview of the pinyin `raw` for which the engine shows `context`: at most
/// `candidate_count` candidates, and the pinyin itself where the engine composes nothing.
pub open spec fn preview_of(
    raw: Seq<char>,
    context: Option<ContextView>,
    candidate_count: usize,
) -> PreviewView {
    match context {
        None => PreviewView { preedit: raw, candidates: seq![], page_no: 0, is_last_page: true },
        Some(c) => PreviewView {
            preedit: match c.preedit {
                Some(p) => p,
                None => raw,
            },
            candidates: if candidate_count < c.candidates.len() {
                c.candidates.take(candidate_count as int)
            } else {
                c.candidates
            },
            page_no: c.page_no,
            is_last_page: c.is_last_page,
        },
    }
}

/// The preview while there is no pinyin to offer candidates for.
pub fn empty_preview() -> (r: CandidatePreview)
    ensures
        r@ == idle_preview(),
{
    let r = CandidatePreview {
        preedit: IDLE_PREEDIT.to_owned(),
        candidates: Vec::new(),
        page_no: 0,
        is_last_page: true,
    };
    assert(texts(r.candidates@) =~= Seq::<Seq<char>>::empty());
    r
}

/// The preview of the pinyin `raw` for which the engine shows `context`.
pub fn preview_from(raw: String, context: Option<EngineContext>, candidate_count: usize) -> (r:
    CandidatePreview)
    ensures
        r@ == preview_of(
            raw@,
            match context {
                Some(c) => Some(c@),
                None => None,
            },
            candidate_count,
        ),
{
    match context {
        Some(context) => {
            let mut candidates = context.candidates;
            let ghost all = texts(candidates@);
            if candidate_count < candidates.len() {
                candidates.truncate(candidate_count);
                assert(texts(candidates@) =~= all.take(candidate_count as int));
            }
            CandidatePreview {
                preedit: match context.preedit {
                    Some(preedit) => preedit,
                    None => raw,
                },
                candidates,
                page_no: context.page_no,
                is_last_page: context.is_last_page,
            }
        },
        None => {
            let candidates: Vec<String> = Vec::new();
            assert(texts(candidates@) =~= Seq::<Seq<char>>::empty());
            CandidatePreview { preedit: raw, candidates, page_no: 0, is_last_page: true }
        },
    }
}

/// `s` without the apostrophes at its beginning.
pub open spec fn after_apostrophes(s: Seq<char>) -> Seq<char>
    decreases s.len(),
{
    if s.len() > 0 && s[0] == '\'' {
        after_apostrophes(s.drop_first())
    } else {
        s
    }
}

/// The end of `original` from `i` on, without the apostrophes at its beginning, holds the
/// letters `rest` and nothing else than apostrophes beside them.
pub open spec fn leaves(original: Seq<char>, i: int, rest: Seq<char>) -> bool {
    let suffix = after_apostrophes(original.skip(i));
    suffix.len() > 0 && letters(suffix) == rest
}

/// The first end of `original`, from `i` on, that holds the letters `rest`.
pub open spec fn first_end_with(original: Seq<char>, i: int, rest: Seq<char>) -> Option<Seq<char>>
    decreases original.len() - i,
{
    if i < 0 || i >= original.len() {
        None
    } else if leaves(original, i, rest) {
        Some(after_apostrophes(original.skip(i)))
    } else {
        first_end_with(original, i + 1, rest)
    }
}

/// What a selection leaves of the pinyin `original`, where the engine still composes
/// `remaining_preedit`: the end with the same letters. There is none where no letters are
/// left, or all of them.
pub open spec fn remaining_pinyin(original: Seq<char>, remaining_preedit: Seq<char>) -> Option<
    Seq<char>,
> {
    let rest = letters(remaining_preedit);
    if rest.len() == 0 || rest == letters(original) {
        None
    } else {
        first_end_with(original, 0, rest)
    }
}

/// What a selection leaves of the pinyin `original`, where the engine still composes
/// `remaining_preedit`.
pub fn remaining_raw_pinyin(original: &str, remaining_preedit: &str) -> (r: Option<String>)
    ensures
        text_option(r) == remaining_pinyin(original@, remaining_preedit@),
{
    let rest = letters_of(remaining_preedit);
    let all = letters_of(original);
    if rest.len() == 0 || same_chars(&rest, &all) {
        return None;
    }
    let chars = to_chars(original);
    let count = char_count(original);
    let mut i: usize = 0;
    while i < count
        invariant
            i <= count,
            count == original@.len(),
            chars@ == original@,
            rest@ == letters(remaining_preedit@),
            remaining_pinyin(original@, remaining_preedit@) == first_end_with(
                original@,
                i as int,
                rest@,
            ),
        decreases count - i,
    {
        let mut start: usize = i;
        while start < count && chars[start] == '\''
            invariant
                i <= start <= count,
                count == original@.len(),
                chars@ == original@,
                after_apostrophes(original@.skip(i as int)) == after_apostrophes(
                    original@.skip(start as int),
                ),
            decreases count - start,
        {
            assert(original@.skip(start as int).drop_first() =~= original@.skip(start + 1));
            start = start + 1;
        }
        let suffix = slice(original, start, count);
        assert(suffix@ =~= original@.skip(start as int));
        assert(suffix@ == after_apostrophes(original@.skip(i as int)));
        if start < count && same_chars(&letters_of(&suffix), &rest) {
            return Some(suffix);
        }
        i = i + 1;
    }
    None
}

/// Apostrophes are dropped from the beginning only.
proof fn lemma_after_apostrophes(s: Seq<char>)
    ensures
        finishes_with(s, after_apostrophes(s)),
        after_apostrophes(s).len() > 0 ==> after_apostrophes(s)[0] != '\'',
        letters(after_apostrophes(s)) == letters(s),
    decreases s.len(),
{
    if s.len() > 0 && s[0] == '\'' {
        let rest = s.drop_first();
        lemma_after_apostrophes(rest);
        let n = after_apostrophes(rest).len() as int;
        assert(s.skip(s.len() - n) =~= rest.skip(rest.len() - n));
        lemma_letters_concat(seq!['\''], rest);
        assert(s =~= seq!['\''] + rest);
        assert(letters(seq!['\'']) =~= Seq::<char>::empty()) by {
            reveal(Seq::filter);
            let keep = |ch: char| ascii_letter(ch);
            assert(seq!['\''].drop_last() =~= Seq::<char>::empty());
            assert(seq!['\''].drop_last().filter(keep) =~= Seq::<char>::empty());
        }
    } else {
        assert(s.skip(0) =~= s);
    }
}

/// The letters of two texts put together are their letters put together.
proof fn lemma_letters_concat(a: Seq<char>, b: Seq<char>)
    ensures
        letters(a + b) == letters(a) + letters(b),
{
    let keep = |ch: char| ascii_letter(ch);
    Seq::filter_distributes_over_add(a, b, keep);
    assert(lower(a.filter(keep) + b.filter(keep)) =~= lower(a.filter(keep)) + lower(
        b.filter(keep),
    ));
}

/// The first end that is found is an end of the pinyin.
proof fn lemma_first_end(original: Seq<char>, i: int, rest: Seq<char>)
    requires
        0 <= i,
    ensures
        first_end_with(original, i, rest) matches Some(r) ==> {
            &&& finishes_with(original, r)
            &&& r.len() > 0
            &&& r[0] != '\''
            &&& letters(r) == rest
        },
        first_end_with(original, i, rest) is None ==> forall|j: int|
            i <= j < original.len() ==> !#[trigger] leaves(original, j, rest),
    decreases original.len() - i,
{
    if i < original.len() {
        if leaves(original, i, rest) {
            let tail = original.skip(i);
            lemma_after_apostrophes(tail);
            let r = after_apostrophes(tail);
            assert(original.skip(original.len() - r.len()) =~= tail.skip(tail.len() - r.len()));
        } else {
            lemma_first_end(original, i + 1, rest);
        }
    }
}

/// What is left of the pinyin is a proper end of it, with exactly the letters that the engine
/// still composes, and it begins with a letter or another character, not with an apostrophe.
/// It is found wherever the pinyin ends with those letters.
pub proof fn law_remaining_pinyin_is_a_proper_end(
    original: Seq<char>,
    remaining_preedit: Seq<char>,
)
    ensures
        remaining_pinyin(original, remaining_preedit) matches Some(r) ==> {
            &&& finishes_with(original, r)
            &&& 0 < r.len() < original.len()
            &&& letters(r) == letters(remaining_preedit)
            &&& has_letter(r)
            &&& r[0] != '\''
        },
        forall|j: int|
            #![trigger original.skip(j)]
            0 < j < original.len() && letters(original.skip(j)) == letters(remaining_preedit)
                && letters(remaining_preedit).len() > 0 && letters(remaining_preedit) != letters(
                original,
            ) ==> remaining_pinyin(original, remaining_preedit) is Some,
{
    let rest = letters(remaining_preedit);
    lemma_first_end(original, 0, rest);
    if let Some(r) = remaining_pinyin(original, remaining_preedit) {
        if r.len() == original.len() {
            assert(original.skip(0) =~= original);
        }
        lemma_letters_need_a_letter(r);
    }
    assert forall|j: int|
        #![trigger original.skip(j)]
        0 < j < original.len() && letters(original.skip(j)) == rest && rest.len() > 0 && rest
            != letters(original) implies remaining_pinyin(original, remaining_preedit) is Some by {
        lemma_after_apostrophes(original.skip(j));
        if after_apostrophes(original.skip(j)).len() == 0 {
            lemma_letters_need_a_letter(after_apostrophes(original.skip(j)));
        }
        assert(leaves(original, j, rest));
    }
}

/// A text has letters only where one of its characters is one.
proof fn lemma_letters_need_a_letter(s: Seq<char>)
    ensures
        letters(s).len() > 0 ==> has_letter(s),
    decreases s.len(),
{
    reveal(Seq::filter);
    if s.len() > 0 {
        if ascii_letter(s.last()) {
            assert(s[s.len() - 1] == s.last());
        } else {
            lemma_letters_need_a_letter(s.drop_last());
            if has_letter(s.drop_last()) {
                let i = choose|i: int|
                    0 <= i < s.drop_last().len() && ascii_letter(#[trigger] s.drop_last()[i]);
                assert(ascii_letter(s[i]));
            }
        }
    }
}

/// Pinyin characters alone are one run.
proof fn lemma_one_run(s: Seq<char>)
    requires
        all_pinyin(s),
    ensures
        run_length(s) == s.len(),
        s.len() > 0 ==> tokens_of(s) == seq![TokenView::Pinyin(lower(s))],
    decreases s.len(),
{
    if s.len() > 0 {
        let rest = s.drop_first();
        assert forall|i: int| 0 <= i < rest.len() implies pinyin_char(#[trigger] rest[i]) by {
            assert(rest[i] == s[i + 1]);
        }
        lemma_one_run(rest);
        assert(pinyin_char(s[0]));
        assert(s.take(s.len() as int) =~= s);
        assert(s.skip(s.len() as int) =~= Seq::<char>::empty());
        assert(tokens_of(Seq::<char>::empty()) =~= Seq::<TokenView>::empty());
        assert(tokens_of(s) =~= seq![TokenView::Pinyin(lower(s))]);
    }
}

/// What a selection leaves of the pending pinyin can be taken over, where the pinyin was typed
/// in small letters and the selected candidate is not empty.
pub proof fn law_remaining_pinyin_is_accepted(
    c: CaptureView,
    selected: Seq<char>,
    remaining_preedit: Seq<char>,
)
    requires
        c.pending() is Some,
        lower(c.buffer) == c.buffer,
        selected.len() > 0,
    ensures
        last_lettered_run(tokens_of(c.buffer)) == c.buffer,
        remaining_pinyin(c.buffer, remaining_preedit) matches Some(r) ==> c.accepts(
            SelectionView::Partial { selected_text: selected, remaining_pinyin: r },
        ),
{
    let s = c.buffer;
    lemma_one_run(s);
    assert(tokens_of(s).last().is_lettered_run());
    law_remaining_pinyin_is_a_proper_end(s, remaining_preedit);
    if let Some(r) = remaining_pinyin(s, remaining_preedit) {
        assert forall|i: int| 0 <= i < r.len() implies pinyin_char(#[trigger] r[i]) by {
            assert(r[i] == s.skip(s.len() - r.len())[i]);
            assert(pinyin_char(s[s.len() - r.len() + i]));
        }
    }
}

/// What a selection came to.
#[derive(Debug, PartialEq, Eq)]
pub enum SelectOutcome {
    /// There was no such candidate.
    Nothing,
    Selected(CandidateSelection),
}

/// What a [`SelectOutcome`] holds.
#[verifier::ext_equal]
pub enum OutcomeView {
    Nothing,
    Selected(SelectionView),
}

impl View for SelectOutcome {
    type V = OutcomeView;

    open spec fn view(&self) -> OutcomeView {
        match *self {
            SelectOutcome::Nothing => OutcomeView::Nothing,
            SelectOutcome::Selected(s) => OutcomeView::Selected(s@),
        }
    }
}

/// What the result of a selection holds.
pub open spec fn outcome_result(r: Result<SelectOutcome, EngineError>) -> Result<
    OutcomeView,
    EngineErrorView,
> {
    match r {
        Ok(v) => Ok(v@),
        Err(e) => Err(e@),
    }
}

/// What the selection of `selected` among the candidates for `raw` came to, where the engine
/// committed nothing and shows `context`.
pub open spec fn partial_outcome(
    raw: Seq<char>,
    selected: Seq<char>,
    context: Option<ContextView>,
) -> Result<OutcomeView, EngineErrorView> {
    match context {
        None => Err(EngineErrorView::NoContext),
        Some(c) => match c.preedit {
            None => Err(EngineErrorView::NoPreedit),
            Some(preedit) => match tail_at_byte(preedit, c.sel_start as nat) {
                None => Err(EngineErrorView::BadBoundary { boundary: c.sel_start, preedit }),
                Some(tail) => match remaining_pinyin(raw, tail) {
                    None => Err(
                        EngineErrorView::NoProgress { raw, preedit, boundary: c.sel_start },
                    ),
                    Some(remaining) => if c.candidates.len() == 0 {
                        Err(EngineErrorView::NoCandidatesLeft { remaining })
                    } else {
                        Ok(
                            OutcomeView::Selected(
                                SelectionView::Partial {
                                    selected_text: selected,
                                    remaining_pinyin: remaining,
                                },
                            ),
                        )
                    },
                },
            },
        },
    }
}

/// What the selection of `selected` among the candidates for `raw` came to, where the engine
/// committed nothing and shows `context`.
pub fn partial_selection(raw: String, selected: String, context: Option<EngineContext>) -> (r:
    Result<SelectOutcome, EngineError>)
    ensures
        outcome_result(r) == partial_outcome(
            raw@,
            selected@,
            match context {
                Some(c) => Some(c@),
                None => None,
            },
        ),
{
    let context = match context {
        Some(context) => context,
        None => return Err(EngineError::NoContext),
    };
    let preedit = match context.preedit {
        Some(preedit) => preedit,
        None => return Err(EngineError::NoPreedit),
    };
    let tail = match tail_from_byte(&preedit, context.sel_start) {
        Some(tail) => tail,
        None => return Err(EngineError::BadBoundary { boundary: context.sel_start, preedit }),
    };
    let remaining = match remaining_raw_pinyin(&raw, &tail) {
        Some(remaining) => remaining,
        None => return Err(
            EngineError::NoProgress { raw, preedit, boundary: context.sel_start },
        ),
    };
    if context.candidates.len() == 0 {
        return Err(EngineError::NoCandidatesLeft { remaining });
    }
    Ok(
        SelectOutcome::Selected(
            CandidateSelection::Partial { selected_text: selected, remaining_pinyin: remaining },
        ),
    )
}

} // verus!
