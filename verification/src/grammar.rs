//! The grammar of the token stream, as spec functions over `Seq<char>`.
//!
//! A text is a sequence of characters and a position is an index into it.
//! From a position, the scanner passes over a run of whitespace and then
//! reads one lexeme, whose first character decides its kind and its extent.

use vstd::prelude::*;
use crate::chars::{ascii_digit, unicode_alphabetic, unicode_whitespace, CharClass};
use crate::token::{TokenType, TokenView};

verus! {

/// The index just past the longest run of characters of `class` that begins
/// at `from`; `from` itself where no such character stands there.
pub open spec fn run_end(s: Seq<char>, from: int, class: CharClass) -> int
    decreases s.len() - from,
{
    if 0 <= from < s.len() && class.contains(s[from]) {
        run_end(s, from + 1, class)
    } else {
        from
    }
}

/// Whether a colon at `start` is followed at once by an equals sign.
pub open spec fn is_assign(s: Seq<char>, start: int) -> bool {
    s[start] == ':' && start + 1 < s.len() && s[start + 1] == '='
}

/// The index just past the lexeme that begins at `start`.
pub open spec fn token_end(s: Seq<char>, start: int) -> int {
    if unicode_alphabetic(s[start]) {
        run_end(s, start + 1, CharClass::Alphanumeric)
    } else if ascii_digit(s[start]) {
        run_end(s, start + 1, CharClass::Digit)
    } else if is_assign(s, start) {
        start + 2
    } else {
        start + 1
    }
}

/// The token of the lexeme that begins at `start`. The rules are tried in
/// this order: a letter begins a word, a digit a number, a colon is `Assign`
/// or `Colon`, and any other character stands alone.
pub open spec fn token_at(s: Seq<char>, start: int) -> TokenView {
    if unicode_alphabetic(s[start]) {
        TokenView::word(s.subrange(start, token_end(s, start)))
    } else if ascii_digit(s[start]) {
        TokenView::unsigned_number(s.subrange(start, token_end(s, start)))
    } else if is_assign(s, start) {
        TokenView::delimiter("Assign"@)
    } else if s[start] == ':' {
        TokenView::delimiter("Colon"@)
    } else {
        TokenView::symbol(s[start])
    }
}

/// A token together with the part of the text that it was read from: the
/// characters from `start` up to, not including, `end`.
pub struct Lexeme {
    pub token: TokenView,
    pub start: int,
    pub end: int,
}

/// The first lexeme at or after `pos`, or `None` where only whitespace is
/// left.
pub open spec fn first_lexeme(s: Seq<char>, pos: int) -> Option<Lexeme> {
    let start = run_end(s, pos, CharClass::Whitespace);
    if 0 <= start < s.len() {
        Some(Lexeme { token: token_at(s, start), start, end: token_end(s, start) })
    } else {
        None
    }
}

/// `run_end` lies between `from` and the end of the text, every character
/// before it belongs to the class and the character at it, if any, does not.
pub proof fn lemma_run_end(s: Seq<char>, from: int, class: CharClass)
    requires
        0 <= from <= s.len(),
    ensures
        from <= run_end(s, from, class) <= s.len(),
        forall|i: int| from <= i < run_end(s, from, class) ==> class.contains(#[trigger] s[i]),
        run_end(s, from, class) < s.len() ==> !class.contains(s[run_end(s, from, class)]),
    decreases s.len() - from,
{
    if from < s.len() && class.contains(s[from]) {
        lemma_run_end(s, from + 1, class);
    }
}

/// A lexeme is never empty and never reaches past the end of the text.
pub proof fn lemma_token_end(s: Seq<char>, start: int)
    requires
        0 <= start < s.len(),
    ensures
        start < token_end(s, start) <= s.len(),
{
    lemma_run_end(s, start + 1, CharClass::Alphanumeric);
    lemma_run_end(s, start + 1, CharClass::Digit);
}

/// All the lexemes from `pos` to the end of the text, in order.
pub open spec fn lexemes_from(s: Seq<char>, pos: int) -> Seq<Lexeme>
    decreases s.len() - pos,
    via lexemes_from_decreases
{
    match first_lexeme(s, pos) {
        Some(l) => seq![l] + lexemes_from(s, l.end),
        None => Seq::empty(),
    }
}

#[via_fn]
proof fn lexemes_from_decreases(s: Seq<char>, pos: int) {
    if let Some(l) = first_lexeme(s, pos) {
        lemma_run_end(s, pos, CharClass::Whitespace);
        lemma_token_end(s, l.start);
    }
}

/// The tokens of a sequence of lexemes.
pub open spec fn tokens_of(lexemes: Seq<Lexeme>) -> Seq<TokenView> {
    lexemes.map_values(|l: Lexeme| l.token)
}

/// The token stream of a whole text.
pub open spec fn tokens(s: Seq<char>) -> Seq<TokenView> {
    tokens_of(lexemes_from(s, 0))
}

/// The characters of `s` that are not whitespace, in order.
pub open spec fn non_whitespace(s: Seq<char>) -> Seq<char> {
    s.filter(|c: char| !unicode_whitespace(c))
}

/// The parts of `s` that the lexemes were read from, one after another.
pub open spec fn spelling(s: Seq<char>, lexemes: Seq<Lexeme>) -> Seq<char> {
    lexemes.map_values(|l: Lexeme| s.subrange(l.start, l.end)).flatten()
}

/// The lexemes of `all` up to and including the first whose token is
/// unknown; all of them where none is.
pub open spec fn through_first_unknown(all: Seq<Lexeme>) -> Seq<Lexeme>
    decreases all.len(),
{
    if all.len() == 0 {
        all
    } else if all[0].token.token_type == TokenType::Unknown {
        seq![all[0]]
    } else {
        seq![all[0]] + through_first_unknown(all.drop_first())
    }
}

/// The lexemes that a scan from `pos` reads: all that follow, or, where the
/// scan stops at an unknown token, those up to and including the first such.
pub open spec fn scanned(s: Seq<char>, pos: int, stop_at_unknown: bool) -> Seq<Lexeme> {
    if stop_at_unknown {
        through_first_unknown(lexemes_from(s, pos))
    } else {
        lexemes_from(s, pos)
    }
}

/// Where a scan that read `lexemes` leaves off: just past an unknown token
/// that stopped it, else at the end of the text.
pub open spec fn scanned_end(s: Seq<char>, lexemes: Seq<Lexeme>, stop_at_unknown: bool) -> int {
    if stop_at_unknown && lexemes.len() > 0 && lexemes.last().token.token_type
        == TokenType::Unknown {
        lexemes.last().end
    } else {
        s.len() as int
    }
}

/// The first `n` lexemes are those through the first unknown one when none
/// before the last of them is unknown and either the last of them is, or
/// there are no more.
pub proof fn lemma_through_first_unknown(all: Seq<Lexeme>, n: int)
    requires
        0 <= n <= all.len(),
        forall|k: int|
            0 <= k < n - 1 ==> (#[trigger] all[k]).token.token_type != TokenType::Unknown,
        n == all.len() || (n > 0 && all[n - 1].token.token_type == TokenType::Unknown),
    ensures
        through_first_unknown(all) == all.take(n),
    decreases all.len(),
{
    if all.len() == 0 {
        assert(all.take(n) =~= all);
    } else if all[0].token.token_type == TokenType::Unknown {
        assert(n == 1);
        assert(all.take(1) =~= seq![all[0]]);
    } else {
        let rest = all.drop_first();
        assert forall|k: int| 0 <= k < n - 2 implies (#[trigger] rest[k]).token.token_type
            != TokenType::Unknown by {
            assert(rest[k] == all[k + 1]);
        }
        lemma_through_first_unknown(rest, n - 1);
        assert(all.take(n) =~= seq![all[0]] + rest.take(n - 1));
    }
}

} // verus!
