//! Splitting a body into pinyin runs and separators.

use vstd::prelude::*;

use crate::chars::{
    ascii_letter, ascii_lower, is_pinyin_char, lemma_ascii_lower, pinyin_char, to_ascii_lower,
};
use crate::text::{any_letter, from_char, has_letter, lemma_filter_take, lower, to_chars};

verus! {

/// A piece of a body.
#[derive(Debug, PartialEq, Eq)]
pub enum Token {
    /// A run of pinyin characters, in lower case.
    Pinyin(String),
    /// A character, or an ellipsis, between pinyin runs.
    Separator(String),
    /// A whole body that the engine segments by itself.
    RimeAuto(String),
}

/// What a [`Token`] holds.
pub enum TokenView {
    Pinyin(Seq<char>),
    Separator(Seq<char>),
    RimeAuto(Seq<char>),
}

impl View for Token {
    type V = TokenView;

    open spec fn view(&self) -> TokenView {
        match *self {
            Token::Pinyin(s) => TokenView::Pinyin(s@),
            Token::Separator(s) => TokenView::Separator(s@),
            Token::RimeAuto(s) => TokenView::RimeAuto(s@),
        }
    }
}

impl TokenView {
    /// The characters of the token.
    pub open spec fn text(self) -> Seq<char> {
        match self {
            TokenView::Pinyin(s) => s,
            TokenView::Separator(s) => s,
            TokenView::RimeAuto(s) => s,
        }
    }

    /// A pinyin run with a letter in it (and not only apostrophes).
    pub open spec fn is_lettered_run(self) -> bool {
        self matches TokenView::Pinyin(s) && has_letter(s)
    }
}

/// What each token of a list holds.
pub open spec fn token_views(tokens: Seq<Token>) -> Seq<TokenView> {
    tokens.map_values(|t: Token| t@)
}

/// The number of pinyin characters that `s` begins with.
pub open spec fn run_length(s: Seq<char>) -> nat
    decreases s.len(),
{
    if s.len() > 0 && pinyin_char(s[0]) {
        1 + run_length(s.drop_first())
    } else {
        0
    }
}

/// `s` begins with three ASCII periods.
pub open spec fn at_ascii_ellipsis(s: Seq<char>) -> bool {
    s.len() >= 3 && s[0] == '.' && s[1] == '.' && s[2] == '.'
}

/// `s` begins with two ellipsis characters.
pub open spec fn at_chinese_ellipsis(s: Seq<char>) -> bool {
    s.len() >= 2 && s[0] == '…' && s[1] == '…'
}

/// The tokens of a body: a longest run of pinyin characters is one token, in lower case;
/// three periods are one separator, as are two ellipsis characters; any other character is a
/// separator of its own.
pub open spec fn tokens_of(s: Seq<char>) -> Seq<TokenView>
    decreases s.len(),
{
    if s.len() == 0 {
        seq![]
    } else if at_ascii_ellipsis(s) {
        seq![TokenView::Separator("..."@)] + tokens_of(s.skip(3))
    } else if at_chinese_ellipsis(s) {
        seq![TokenView::Separator("……"@)] + tokens_of(s.skip(2))
    } else if pinyin_char(s[0]) {
        let n = 1 + run_length(s.drop_first()) as int;
        proof {
            lemma_run_length(s.drop_first());
        }
        seq![TokenView::Pinyin(lower(s.take(n)))] + tokens_of(s.skip(n))
    } else {
        seq![TokenView::Separator(seq![s[0]])] + tokens_of(s.drop_first())
    }
}

/// The tokens of a pinyin run `run` (already in lower case) that is followed by `rest`.
spec fn tokens_after_run(run: Seq<char>, rest: Seq<char>) -> Seq<TokenView> {
    if run.len() == 0 {
        tokens_of(rest)
    } else {
        let n = run_length(rest) as int;
        seq![TokenView::Pinyin(run + lower(rest.take(n)))] + tokens_of(rest.skip(n))
    }
}

/// A run is no longer than what it is a part of.
pub proof fn lemma_run_length(s: Seq<char>)
    ensures
        run_length(s) <= s.len(),
        forall|i: int| 0 <= i < run_length(s) ==> pinyin_char(#[trigger] s[i]),
        run_length(s) < s.len() ==> !pinyin_char(s[run_length(s) as int]),
    decreases s.len(),
{
    if s.len() > 0 && pinyin_char(s[0]) {
        let rest = s.drop_first();
        lemma_run_length(rest);
        assert forall|i: int| 0 <= i < run_length(s) implies pinyin_char(#[trigger] s[i]) by {
            if i > 0 {
                assert(s[i] == rest[i - 1]);
            }
        }
    }
}

/// Does `chars` hold three ASCII periods at `index`?
pub fn starts_with_ascii_ellipsis(chars: &[char], index: usize) -> (r: bool)
    ensures
        r == (index <= chars@.len() && at_ascii_ellipsis(chars@.skip(index as int))),
{
    index < chars.len() && chars[index] == '.' && index + 1 < chars.len() && chars[index + 1] == '.'
        && index + 2 < chars.len() && chars[index + 2] == '.'
}

/// Does `chars` hold two ellipsis characters at `index`?
pub fn starts_with_chinese_ellipsis_pair(chars: &[char], index: usize) -> (r: bool)
    ensures
        r == (index <= chars@.len() && at_chinese_ellipsis(chars@.skip(index as int))),
{
    index < chars.len() && chars[index] == '…' && index + 1 < chars.len() && chars[index + 1]
        == '…'
}

/// Ends the pinyin run collected in `pinyin`, if there is one: it becomes a token and the
/// collection starts afresh.
pub fn flush_pinyin(tokens: &mut Vec<Token>, pinyin: &mut String)
    ensures
        final(pinyin)@ == Seq::<char>::empty(),
        token_views(final(tokens)@) == token_views(old(tokens)@) + if old(pinyin)@.len() > 0 {
            seq![TokenView::Pinyin(old(pinyin)@)]
        } else {
            seq![]
        },
{
    let ghost before = tokens@;
    if !pinyin.as_str().is_empty() {
        let mut run = String::new();
        std::mem::swap(&mut run, pinyin);
        tokens.push(Token::Pinyin(run));
        assert(token_views(tokens@) =~= token_views(before) + seq![TokenView::Pinyin(run@)]);
    } else {
        assert(pinyin@ =~= Seq::<char>::empty());
        assert(token_views(tokens@) =~= token_views(before) + Seq::<TokenView>::empty());
    }
}

/// Splits a body into pinyin runs and separators.
pub fn tokenize_body(input: &str) -> (r: Vec<Token>)
    ensures
        token_views(r@) == tokens_of(input@),
{
    let mut tokens: Vec<Token> = Vec::new();
    let mut pinyin = String::new();
    let chars = to_chars(input);
    let mut index: usize = 0;
    proof {
        assert(chars@.skip(0) =~= chars@);
        assert(token_views(tokens@) + tokens_of(chars@) =~= tokens_of(chars@));
    }
    while index < chars.len()
        invariant
            index <= chars.len(),
            chars@ == input@,
            tokens_of(input@) == token_views(tokens@) + tokens_after_run(
                pinyin@,
                chars@.skip(index as int),
            ),
        decreases chars.len() - index,
    {
        let ghost rest = chars@.skip(index as int);
        let ghost done = token_views(tokens@);
        let ghost run = pinyin@;
        if starts_with_ascii_ellipsis(&chars, index) {
            flush_pinyin(&mut tokens, &mut pinyin);
            let ghost flushed = token_views(tokens@);
            tokens.push(Token::Separator("...".to_owned()));
            index += 3;
            proof {
                lemma_run_ends(run, rest);
                assert(rest.skip(3) =~= chars@.skip(index as int));
                assert(token_views(tokens@) =~= flushed.push(TokenView::Separator("..."@)));
                assert(tokens_of(input@) =~= token_views(tokens@) + tokens_of(rest.skip(3)));
            }
            continue;
        }
        if starts_with_chinese_ellipsis_pair(&chars, index) {
            flush_pinyin(&mut tokens, &mut pinyin);
            let ghost flushed = token_views(tokens@);
            tokens.push(Token::Separator("……".to_owned()));
            index += 2;
            proof {
                lemma_run_ends(run, rest);
                assert(rest.skip(2) =~= chars@.skip(index as int));
                assert(token_views(tokens@) =~= flushed.push(TokenView::Separator("……"@)));
                assert(tokens_of(input@) =~= token_views(tokens@) + tokens_of(rest.skip(2)));
            }
            continue;
        }
        let ch = chars[index];
        if is_pinyin_char(ch) {
            pinyin.push(to_ascii_lower(ch));
            proof {
                lemma_run_grows(run, rest);
                assert(rest.drop_first() =~= chars@.skip(index + 1));
            }
        } else {
            flush_pinyin(&mut tokens, &mut pinyin);
            let ghost flushed = token_views(tokens@);
            tokens.push(Token::Separator(from_char(ch)));
            proof {
                lemma_run_ends(run, rest);
                assert(rest.drop_first() =~= chars@.skip(index + 1));
                assert(token_views(tokens@) =~= flushed.push(TokenView::Separator(seq![ch])));
                assert(tokens_of(input@) =~= token_views(tokens@) + tokens_of(rest.drop_first()));
            }
        }
        index += 1;
    }
    proof {
        let rest = chars@.skip(index as int);
        assert(rest =~= Seq::<char>::empty());
        lemma_run_ends(pinyin@, rest);
    }
    flush_pinyin(&mut tokens, &mut pinyin);
    assert(token_views(tokens@) =~= tokens_of(input@));
    tokens
}

/// A run that no pinyin character follows is a token of its own.
proof fn lemma_run_ends(run: Seq<char>, rest: Seq<char>)
    requires
        rest.len() > 0 ==> !pinyin_char(rest[0]),
    ensures
        tokens_after_run(run, rest) == if run.len() > 0 {
            seq![TokenView::Pinyin(run)] + tokens_of(rest)
        } else {
            tokens_of(rest)
        },
{
    assert(run_length(rest) == 0);
    assert(run + lower(rest.take(0)) =~= run);
    assert(rest.skip(0) =~= rest);
}

/// A pinyin character that follows a run is part of it.
proof fn lemma_run_grows(run: Seq<char>, rest: Seq<char>)
    requires
        rest.len() > 0,
        pinyin_char(rest[0]),
    ensures
        tokens_after_run(run, rest) == tokens_after_run(
            run.push(ascii_lower(rest[0])),
            rest.drop_first(),
        ),
{
    let n = run_length(rest.drop_first()) as int;
    lemma_run_length(rest.drop_first());
    assert(run_length(rest) == n + 1);
    assert(lower(rest.take(n + 1)) =~= seq![ascii_lower(rest[0])] + lower(
        rest.drop_first().take(n),
    ));
    assert(run + lower(rest.take(n + 1)) =~= run.push(ascii_lower(rest[0])) + lower(
        rest.drop_first().take(n),
    ));
    assert(rest.skip(n + 1) =~= rest.drop_first().skip(n));
}

/// The pinyin characters of a run in lower case: what the engine is fed.
pub open spec fn normalized(s: Seq<char>) -> Seq<char> {
    lower(s.filter(|ch: char| pinyin_char(ch)))
}

/// The pinyin characters of `input`, in lower case.
pub fn normalize_pinyin_run(input: &str) -> (r: String)
    ensures
        r@ == normalized(input@),
{
    let ghost keep = |ch: char| pinyin_char(ch);
    let chars = to_chars(input);
    let mut out = String::new();
    let mut i: usize = 0;
    proof {
        reveal(Seq::filter);
        assert(lower(chars@.take(0).filter(keep)) =~= Seq::<char>::empty());
    }
    while i < chars.len()
        invariant
            i <= chars.len(),
            keep == (|ch: char| pinyin_char(ch)),
            out@ == lower(chars@.take(i as int).filter(keep)),
        decreases chars.len() - i,
    {
        proof {
            lemma_filter_take(chars@, i as int, keep);
            let before = chars@.take(i as int).filter(keep);
            assert(lower(before.push(chars@[i as int])) =~= lower(before).push(
                ascii_lower(chars@[i as int]),
            ));
        }
        if is_pinyin_char(chars[i]) {
            out.push(to_ascii_lower(chars[i]));
        }
        i += 1;
    }
    assert(chars@.take(chars@.len() as int) =~= chars@);
    out
}

/// Some token of the list is a pinyin run with a letter.
pub open spec fn any_lettered_run(tokens: Seq<TokenView>) -> bool {
    exists|i: int| 0 <= i < tokens.len() && (#[trigger] tokens[i]).is_lettered_run()
}

/// The last pinyin run with a letter, or nothing where there is none.
pub open spec fn last_lettered_run(tokens: Seq<TokenView>) -> Seq<char>
    decreases tokens.len(),
{
    if tokens.len() == 0 {
        seq![]
    } else if tokens.last().is_lettered_run() {
        tokens.last().text()
    } else {
        last_lettered_run(tokens.drop_last())
    }
}

/// Does the body hold pinyin, that is a letter?
pub fn body_has_pinyin(body: &str) -> (r: bool)
    ensures
        r == has_letter(body@),
{
    let tokens = tokenize_body(body);
    let ghost views = token_views(tokens@);
    proof {
        law_letters_are_in_runs(body@);
    }
    let mut i: usize = 0;
    while i < tokens.len()
        invariant
            i <= tokens.len(),
            views == token_views(tokens@),
            any_lettered_run(views) == has_letter(body@),
            forall|j: int| 0 <= j < i ==> !(#[trigger] views[j]).is_lettered_run(),
        decreases tokens.len() - i,
    {
        assert(views[i as int] == tokens@[i as int]@);
        if let Token::Pinyin(value) = &tokens[i] {
            if any_letter(value) {
                assert(views[i as int].is_lettered_run());
                return true;
            }
        }
        i += 1;
    }
    false
}

/// A body was refused because it holds no pinyin.
#[derive(Debug, Clone, Copy, PartialEq, Eq)]
pub struct NoPinyinRuns;

impl NoPinyinRuns {
    /// What the user is told.
    pub fn message(self) -> (r: String)
        ensures
            r@ == "input body has no pinyin runs"@,
    {
        "input body has no pinyin runs".to_owned()
    }
}

/// Accepts a body that holds pinyin, and no other.
pub fn ensure_body_has_pinyin(body: &str) -> (r: Result<(), NoPinyinRuns>)
    ensures
        r is Ok <==> has_letter(body@),
{
    if !body_has_pinyin(body) {
        return Err(NoPinyinRuns);
    }
    Ok(())
}

/// The pinyin run for which candidates are shown: the last one with a letter, or nothing.
pub fn pending_pinyin_for_preview(body: &str) -> (r: String)
    ensures
        r@ == last_lettered_run(tokens_of(body@)),
{
    let tokens = tokenize_body(body);
    let ghost views = token_views(tokens@);
    let mut i: usize = tokens.len();
    assert(views.take(i as int) =~= views);
    while i > 0
        invariant
            i <= tokens.len(),
            views == token_views(tokens@),
            views == tokens_of(body@),
            last_lettered_run(views) == last_lettered_run(views.take(i as int)),
        decreases i,
    {
        i -= 1;
        proof {
            assert(views.take(i + 1).drop_last() =~= views.take(i as int));
            assert(views.take(i + 1).last() == tokens@[i as int]@);
        }
        if let Token::Pinyin(value) = &tokens[i] {
            if any_letter(value) {
                return value.clone();
            }
        }
    }
    String::new()
}

/// The characters of all tokens, one after the other.
pub open spec fn joined(tokens: Seq<TokenView>) -> Seq<char>
    decreases tokens.len(),
{
    if tokens.len() == 0 {
        seq![]
    } else {
        tokens[0].text() + joined(tokens.drop_first())
    }
}

/// Tokenizing loses nothing: the tokens, put together again, are the body in lower case.
pub proof fn law_tokens_rejoin_to_body(s: Seq<char>)
    ensures
        joined(tokens_of(s)) == lower(s),
    decreases s.len(),
{
    reveal_strlit("...");
    reveal_strlit("……");
    if s.len() == 0 {
        assert(lower(s) =~= Seq::<char>::empty());
    } else {
        let first = tokens_of(s)[0];
        let n: int = if at_ascii_ellipsis(s) {
            3
        } else if at_chinese_ellipsis(s) {
            2
        } else if pinyin_char(s[0]) {
            1 + run_length(s.drop_first()) as int
        } else {
            1
        };
        lemma_run_length(s.drop_first());
        assert(s.drop_first() =~= s.skip(1));
        law_tokens_rejoin_to_body(s.skip(n));
        assert(tokens_of(s).drop_first() =~= tokens_of(s.skip(n)));
        assert(first.text() =~= lower(s.take(n)));
        assert(lower(s) =~= lower(s.take(n)) + lower(s.skip(n)));
    }
}

/// The letters of a body are all in pinyin runs: there is a run with a letter exactly if the
/// body has a letter.
pub proof fn law_letters_are_in_runs(s: Seq<char>)
    ensures
        any_lettered_run(tokens_of(s)) == has_letter(s),
    decreases s.len(),
{
    if s.len() > 0 {
        let tokens = tokens_of(s);
        let n: int = if at_ascii_ellipsis(s) {
            3
        } else if at_chinese_ellipsis(s) {
            2
        } else if pinyin_char(s[0]) {
            1 + run_length(s.drop_first()) as int
        } else {
            1
        };
        lemma_run_length(s.drop_first());
        assert(s.drop_first() =~= s.skip(1));
        let rest = tokens_of(s.skip(n));
        law_letters_are_in_runs(s.skip(n));
        assert(tokens =~= seq![tokens[0]] + rest);
        assert(tokens[0].is_lettered_run() == has_letter(s.take(n))) by {
            if pinyin_char(s[0]) {
                lemma_lower_keeps_letters(s.take(n));
            } else {
                assert(!has_letter(s.take(n)));
            }
        }
        if has_letter(s) {
            let i = choose|i: int| 0 <= i < s.len() && ascii_letter(#[trigger] s[i]);
            if i < n {
                assert(s.take(n)[i] == s[i]);
                assert(tokens[0].is_lettered_run());
            } else {
                assert(s.skip(n)[i - n] == s[i]);
                let j = choose|j: int| 0 <= j < rest.len() && (#[trigger] rest[j]).is_lettered_run();
                assert(tokens[j + 1] == rest[j]);
            }
        }
        if any_lettered_run(tokens) {
            let j = choose|j: int|
                0 <= j < tokens.len() && (#[trigger] tokens[j]).is_lettered_run();
            if j == 0 {
                let i = choose|i: int|
                    0 <= i < s.take(n).len() && ascii_letter(#[trigger] s.take(n)[i]);
                assert(s[i] == s.take(n)[i]);
            } else {
                assert(rest[j - 1] == tokens[j]);
                let i = choose|i: int|
                    0 <= i < s.skip(n).len() && ascii_letter(#[trigger] s.skip(n)[i]);
                assert(s[i + n] == s.skip(n)[i]);
            }
        }
    }
}

/// Lower-casing keeps what is a letter.
pub proof fn lemma_lower_keeps_letters(s: Seq<char>)
    ensures
        has_letter(lower(s)) == has_letter(s),
{
    if has_letter(s) {
        let i = choose|i: int| 0 <= i < s.len() && ascii_letter(#[trigger] s[i]);
        lemma_ascii_lower(s[i]);
        assert(ascii_letter(lower(s)[i]));
    }
    if has_letter(lower(s)) {
        let i = choose|i: int| 0 <= i < lower(s).len() && ascii_letter(#[trigger] lower(s)[i]);
        lemma_ascii_lower(s[i]);
        assert(ascii_letter(s[i]));
    }
}

/// A token of a body: a pinyin run is not empty and holds pinyin characters in lower case
/// only, and a separator is an ellipsis or one character, and holds no pinyin character.
pub open spec fn well_formed_token(t: TokenView) -> bool {
    match t {
        TokenView::Pinyin(s) => s.len() > 0 && lower(s) == s && forall|i: int|
            0 <= i < s.len() ==> pinyin_char(#[trigger] s[i]),
        TokenView::Separator(s) => (s == "..."@ || s == "……"@ || s.len() == 1) && forall|i: int|
            0 <= i < s.len() ==> !pinyin_char(#[trigger] s[i]),
        TokenView::RimeAuto(_) => false,
    }
}

/// Every token of a body is well formed, and two pinyin runs are never next to each other.
pub proof fn law_tokens_alternate(s: Seq<char>)
    ensures
        forall|i: int| 0 <= i < tokens_of(s).len() ==> well_formed_token(#[trigger] tokens_of(s)[i]),
        forall|i: int|
            0 <= i < tokens_of(s).len() - 1 && #[trigger] tokens_of(s)[i] is Pinyin
                ==> tokens_of(s)[i + 1] is Separator,
        tokens_of(s).len() > 0 && !pinyin_char(s[0]) ==> tokens_of(s)[0] is Separator,
    decreases s.len(),
{
    reveal_strlit("...");
    reveal_strlit("……");
    if s.len() > 0 {
        let tokens = tokens_of(s);
        let n: int = if at_ascii_ellipsis(s) {
            3
        } else if at_chinese_ellipsis(s) {
            2
        } else if pinyin_char(s[0]) {
            1 + run_length(s.drop_first()) as int
        } else {
            1
        };
        lemma_run_length(s);
        lemma_run_length(s.drop_first());
        assert(s.drop_first() =~= s.skip(1));
        let rest = tokens_of(s.skip(n));
        law_tokens_alternate(s.skip(n));
        assert(tokens =~= seq![tokens[0]] + rest);
        assert(well_formed_token(tokens[0])) by {
            if pinyin_char(s[0]) {
                let run = lower(s.take(n));
                assert forall|i: int| 0 <= i < run.len() implies pinyin_char(#[trigger] run[i])
                    && ascii_lower(run[i]) == run[i] by {
                    assert(pinyin_char(s[i]));
                    lemma_ascii_lower(s[i]);
                }
                assert(lower(run) =~= run);
            }
        }
        assert forall|i: int| 0 <= i < tokens.len() implies well_formed_token(
            #[trigger] tokens[i],
        ) by {
            if i > 0 {
                assert(tokens[i] == rest[i - 1]);
            }
        }
        assert forall|i: int|
            0 <= i < tokens.len() - 1 && #[trigger] tokens[i] is Pinyin implies tokens[i
            + 1] is Separator by {
            if i > 0 {
                assert(tokens[i] == rest[i - 1]);
                assert(tokens[i + 1] == rest[i]);
            } else {
                assert(tokens[1] == rest[0]);
                assert(s.skip(n)[0] == s[n]);
            }
        }
    }
}

/// The separator that is the one character `ch`.
pub open spec fn lone_separator(ch: char) -> TokenView {
    TokenView::Separator(seq![ch])
}

/// Where the first token is the one character `ch`, so is the first character, and the other
/// tokens are those of the rest.
proof fn lemma_lone_separator(s: Seq<char>, ch: char)
    requires
        tokens_of(s).len() > 0,
        tokens_of(s)[0] == lone_separator(ch),
    ensures
        s.len() > 0,
        s[0] == ch,
        tokens_of(s).drop_first() == tokens_of(s.drop_first()),
{
    reveal_strlit("...");
    reveal_strlit("……");
    let tokens = tokens_of(s);
    if at_ascii_ellipsis(s) {
        assert("..."@.len() == 3 && seq![ch].len() == 1);
    } else if at_chinese_ellipsis(s) {
        assert("……"@.len() == 2 && seq![ch].len() == 1);
    } else if !pinyin_char(s[0]) {
        assert(seq![s[0]][0] == seq![ch][0]);
        assert(tokens.drop_first() =~= tokens_of(s.drop_first()));
    }
}

/// An ellipsis is never taken apart: there are no three periods next to each other that are
/// separators of their own, and no two ellipsis characters.
pub proof fn law_ellipses_are_whole(s: Seq<char>)
    ensures
        forall|i: int|
            0 <= i < tokens_of(s).len() - 2 ==> !(#[trigger] tokens_of(s)[i] == lone_separator('.')
                && tokens_of(s)[i + 1] == lone_separator('.') && tokens_of(s)[i + 2]
                == lone_separator('.')),
        forall|i: int|
            0 <= i < tokens_of(s).len() - 1 ==> !(#[trigger] tokens_of(s)[i] == lone_separator('…')
                && tokens_of(s)[i + 1] == lone_separator('…')),
    decreases s.len(),
{
    if s.len() > 0 {
        let tokens = tokens_of(s);
        let n: int = if at_ascii_ellipsis(s) {
            3
        } else if at_chinese_ellipsis(s) {
            2
        } else if pinyin_char(s[0]) {
            1 + run_length(s.drop_first()) as int
        } else {
            1
        };
        lemma_run_length(s.drop_first());
        assert(s.drop_first() =~= s.skip(1));
        let rest = tokens_of(s.skip(n));
        law_ellipses_are_whole(s.skip(n));
        assert(tokens =~= seq![tokens[0]] + rest);
        let second = s.drop_first();
        assert forall|i: int| 0 <= i < tokens.len() - 2 implies !(#[trigger] tokens[i]
            == lone_separator('.') && tokens[i + 1] == lone_separator('.') && tokens[i + 2]
            == lone_separator('.')) by {
            if i > 0 {
                assert(tokens[i] == rest[i - 1] && tokens[i + 1] == rest[i] && tokens[i + 2]
                    == rest[i + 1]);
            } else if tokens[0] == lone_separator('.') && tokens[1] == lone_separator('.')
                && tokens[2] == lone_separator('.') {
                lemma_lone_separator(s, '.');
                assert(tokens_of(second)[0] == tokens[1]);
                lemma_lone_separator(second, '.');
                assert(tokens_of(second.drop_first())[0] == tokens_of(second)[1]);
                lemma_lone_separator(second.drop_first(), '.');
                assert(s[1] == second[0] && s[2] == second.drop_first()[0]);
                assert(at_ascii_ellipsis(s));
                reveal_strlit("...");
                assert("..."@.len() == 3);
            }
        }
        assert forall|i: int| 0 <= i < tokens.len() - 1 implies !(#[trigger] tokens[i]
            == lone_separator('…') && tokens[i + 1] == lone_separator('…')) by {
            if i > 0 {
                assert(tokens[i] == rest[i - 1] && tokens[i + 1] == rest[i]);
            } else if tokens[0] == lone_separator('…') && tokens[1] == lone_separator('…') {
                lemma_lone_separator(s, '…');
                assert(tokens_of(second)[0] == tokens[1]);
                lemma_lone_separator(second, '…');
                assert(s[1] == second[0]);
                assert(at_chinese_ellipsis(s));
                reveal_strlit("……");
                assert("……"@.len() == 2);
            }
        }
    }
}

/// A pinyin run of a body is fed to the engine as it stands: normalizing does not change it.
pub proof fn law_run_is_normalized(run: Seq<char>)
    requires
        well_formed_token(TokenView::Pinyin(run)),
    ensures
        normalized(run) == run,
{
    lemma_filter_all(run, |ch: char| pinyin_char(ch));
}

/// Filtering keeps everything where everything passes.
pub proof fn lemma_filter_all(s: Seq<char>, keep: spec_fn(char) -> bool)
    requires
        forall|i: int| 0 <= i < s.len() ==> keep(#[trigger] s[i]),
    ensures
        s.filter(keep) == s,
    decreases s.len(),
{
    reveal(Seq::filter);
    if s.len() > 0 {
        lemma_filter_all(s.drop_last(), keep);
        assert(s.drop_last().push(s.last()) =~= s);
        assert(keep(s[s.len() - 1]));
    }
}

} // verus!
