//! Chinese punctuation for the separators between pinyin runs.

use vstd::prelude::*;

use crate::text::same;

verus! {

/// Whether the last double quote opened a quotation.
#[derive(Debug, Clone, Copy, PartialEq, Eq, Structural)]
pub struct QuoteState {
    pub next_is_open: bool,
}

impl Default for QuoteState {
    /// No quotation is open.
    fn default() -> (r: Self)
        ensures
            r == (QuoteState { next_is_open: false }),
    {
        QuoteState { next_is_open: false }
    }
}

/// No quotation is open.
pub open spec fn no_quote() -> QuoteState {
    QuoteState { next_is_open: false }
}

/// The Chinese form of the separator `value`, where `quote` says whether a quotation is open.
pub open spec fn chinese_separator(value: Seq<char>, quote: QuoteState) -> Seq<char> {
    if value == ","@ {
        "，"@
    } else if value == "."@ {
        "。"@
    } else if value == "?"@ {
        "？"@
    } else if value == "!"@ {
        "！"@
    } else if value == ":"@ {
        "："@
    } else if value == ";"@ {
        "；"@
    } else if value == "-"@ {
        "－"@
    } else if value == "+"@ {
        "＋"@
    } else if value == "..."@ {
        "……"@
    } else if value == "……"@ {
        "……"@
    } else if value == "~"@ {
        "～"@
    } else if value == "\""@ {
        if quote.next_is_open {
            "”"@
        } else {
            "“"@
        }
    } else if value == "…"@ {
        "……"@
    } else {
        value
    }
}

/// The quotation state after the separator `value`: a double quote opens or closes a
/// quotation, anything else leaves it as it is.
pub open spec fn quote_after(value: Seq<char>, quote: QuoteState) -> QuoteState {
    if value == "\""@ {
        QuoteState { next_is_open: !quote.next_is_open }
    } else {
        quote
    }
}

/// Maps a separator to Chinese punctuation. Double quotes become opening and closing quotes in
/// turn; a separator without a Chinese form stays as it is.
pub fn map_separator(value: &str, quote_state: &mut QuoteState) -> (r: String)
    ensures
        r@ == chinese_separator(value@, *old(quote_state)),
        *final(quote_state) == quote_after(value@, *old(quote_state)),
{
    proof {
        lemma_quote_is_no_other();
    }
    if same(value, ",") {
        "，".to_owned()
    } else if same(value, ".") {
        "。".to_owned()
    } else if same(value, "?") {
        "？".to_owned()
    } else if same(value, "!") {
        "！".to_owned()
    } else if same(value, ":") {
        "：".to_owned()
    } else if same(value, ";") {
        "；".to_owned()
    } else if same(value, "-") {
        "－".to_owned()
    } else if same(value, "+") {
        "＋".to_owned()
    } else if same(value, "...") {
        "……".to_owned()
    } else if same(value, "……") {
        "……".to_owned()
    } else if same(value, "~") {
        "～".to_owned()
    } else if same(value, "\"") {
        quote_state.next_is_open = !quote_state.next_is_open;
        if quote_state.next_is_open {
            "“".to_owned()
        } else {
            "”".to_owned()
        }
    } else if same(value, "…") {
        "……".to_owned()
    } else {
        value.to_owned()
    }
}

/// A double quote is none of the other separators that have a Chinese form.
proof fn lemma_quote_is_no_other()
    ensures
        "\""@ != ","@,
        "\""@ != "."@,
        "\""@ != "?"@,
        "\""@ != "!"@,
        "\""@ != ":"@,
        "\""@ != ";"@,
        "\""@ != "-"@,
        "\""@ != "+"@,
        "\""@ != "..."@,
        "\""@ != "……"@,
        "\""@ != "~"@,
{
    reveal_strlit("\"");
    reveal_strlit(",");
    reveal_strlit(".");
    reveal_strlit("?");
    reveal_strlit("!");
    reveal_strlit(":");
    reveal_strlit(";");
    reveal_strlit("-");
    reveal_strlit("+");
    reveal_strlit("...");
    reveal_strlit("……");
    reveal_strlit("~");
    assert("\""@[0] == '"');
    assert(","@[0] == ',');
    assert("."@[0] == '.');
    assert("?"@[0] == '?');
    assert("!"@[0] == '!');
    assert(":"@[0] == ':');
    assert(";"@[0] == ';');
    assert("-"@[0] == '-');
    assert("+"@[0] == '+');
    assert("~"@[0] == '~');
    assert("..."@.len() == 3);
    assert("……"@.len() == 2);
}

/// The quotation state after `n` double quotes.
pub open spec fn quote_after_quotes(quote: QuoteState, n: nat) -> QuoteState
    decreases n,
{
    if n == 0 {
        quote
    } else {
        quote_after("\""@, quote_after_quotes(quote, (n - 1) as nat))
    }
}

/// Double quotes open and close in turn: of the quotes typed from a fresh state on, the
/// first, third and so on become opening quotes and the others closing quotes.
pub proof fn law_quotes_alternate(n: nat)
    ensures
        chinese_separator("\""@, quote_after_quotes(no_quote(), n)) == if n % 2 == 0 {
            "“"@
        } else {
            "”"@
        },
        quote_after_quotes(no_quote(), n).next_is_open == (n % 2 == 1),
    decreases n,
{
    lemma_quote_is_no_other();
    if n > 0 {
        law_quotes_alternate((n - 1) as nat);
    }
}

/// A second double quote takes back what the first one did to the state.
pub proof fn law_two_quotes_cancel(quote: QuoteState)
    ensures
        quote_after("\""@, quote_after("\""@, quote)) == quote,
{
}

} // verus!
