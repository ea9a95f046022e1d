//! What holds of every token stream.

use vstd::prelude::*;
use vstd::seq_lib::lemma_flatten_concat;
use crate::chars::{unicode_whitespace, CharClass};
use crate::grammar::{
    first_lexeme, lemma_run_end, lemma_token_end, lexemes_from, non_whitespace, run_end, spelling,
    tokens, Lexeme,
};
use crate::lexer::Content;
use crate::token::TokenType;

verus! {

/// A text has no tokens exactly when it holds nothing but whitespace; the
/// empty text is one such.
pub proof fn lemma_blank_text_has_no_tokens(s: Seq<char>)
    ensures
        tokens(s).len() == 0 <==> forall|i: int|
            0 <= i < s.len() ==> unicode_whitespace(#[trigger] s[i]),
{
    lemma_run_end(s, 0, CharClass::Whitespace);
    let start = run_end(s, 0, CharClass::Whitespace);
    if start < s.len() {
        assert(!unicode_whitespace(s[start]));
    } else {
        assert forall|i: int| 0 <= i < s.len() implies unicode_whitespace(#[trigger] s[i]) by {
            assert(CharClass::Whitespace.contains(s[i]));
        }
    }
}

/// Whether each lexeme is a non-empty part of the text from `pos` on that
/// begins with a character that is not whitespace.
pub open spec fn lie_within(s: Seq<char>, pos: int, lexemes: Seq<Lexeme>) -> bool {
    forall|k: int|
        0 <= k < lexemes.len() ==> {
            &&& pos <= (#[trigger] lexemes[k]).start < lexemes[k].end <= s.len()
            &&& !unicode_whitespace(s[lexemes[k].start])
        }
}

/// Whether each lexeme ends before any later one begins.
pub open spec fn in_order(lexemes: Seq<Lexeme>) -> bool {
    forall|j: int, k: int|
        0 <= j < k < lexemes.len() ==> (#[trigger] lexemes[j]).end <= (#[trigger] lexemes[k]).start
}

/// Whether every character from `pos` on that is not whitespace lies in one
/// of the lexemes.
pub open spec fn cover(s: Seq<char>, pos: int, lexemes: Seq<Lexeme>) -> bool {
    forall|i: int|
        pos <= i < s.len() && !unicode_whitespace(#[trigger] s[i]) ==> exists|k: int|
            0 <= k < lexemes.len() && (#[trigger] lexemes[k]).start <= i < lexemes[k].end
}

proof fn lemma_lexemes_lie_within(s: Seq<char>, pos: int)
    requires
        0 <= pos <= s.len(),
    ensures
        lie_within(s, pos, lexemes_from(s, pos)),
    decreases s.len() - pos,
{
    lemma_run_end(s, pos, CharClass::Whitespace);
    if let Some(l) = first_lexeme(s, pos) {
        lemma_token_end(s, l.start);
        lemma_lexemes_lie_within(s, l.end);
        let rest = lexemes_from(s, l.end);
        let all = lexemes_from(s, pos);
        assert forall|k: int| 0 <= k < all.len() implies {
            &&& pos <= (#[trigger] all[k]).start < all[k].end <= s.len()
            &&& !unicode_whitespace(s[all[k].start])
        } by {
            if k > 0 {
                assert(all[k] == rest[k - 1]);
            }
        }
    }
}

proof fn lemma_lexemes_in_order(s: Seq<char>, pos: int)
    requires
        0 <= pos <= s.len(),
    ensures
        in_order(lexemes_from(s, pos)),
    decreases s.len() - pos,
{
    lemma_run_end(s, pos, CharClass::Whitespace);
    if let Some(l) = first_lexeme(s, pos) {
        lemma_token_end(s, l.start);
        lemma_lexemes_in_order(s, l.end);
        lemma_lexemes_lie_within(s, l.end);
        let rest = lexemes_from(s, l.end);
        let all = lexemes_from(s, pos);
        assert forall|j: int, k: int| 0 <= j < k < all.len() implies (#[trigger] all[j]).end <= (
        #[trigger] all[k]).start by {
            assert(all[k] == rest[k - 1]);
            if j > 0 {
                assert(all[j] == rest[j - 1]);
            }
        }
    }
}

proof fn lemma_lexemes_cover(s: Seq<char>, pos: int)
    requires
        0 <= pos <= s.len(),
    ensures
        cover(s, pos, lexemes_from(s, pos)),
    decreases s.len() - pos,
{
    lemma_run_end(s, pos, CharClass::Whitespace);
    let all = lexemes_from(s, pos);
    match first_lexeme(s, pos) {
        Some(l) => {
            lemma_token_end(s, l.start);
            lemma_lexemes_cover(s, l.end);
            let rest = lexemes_from(s, l.end);
            assert forall|i: int|
                pos <= i < s.len() && !unicode_whitespace(#[trigger] s[i]) implies exists|k: int|
                0 <= k < all.len() && (#[trigger] all[k]).start <= i < all[k].end by {
                if i < l.start {
                    assert(CharClass::Whitespace.contains(s[i]));
                } else if i < l.end {
                    assert(all[0].start <= i < all[0].end);
                } else {
                    let k = choose|k: int|
                        0 <= k < rest.len() && (#[trigger] rest[k]).start <= i < rest[k].end;
                    assert(all[k + 1] == rest[k]);
                }
            }
        },
        None => {
            assert forall|i: int|
                pos <= i < s.len() && !unicode_whitespace(#[trigger] s[i]) implies exists|k: int|
                0 <= k < all.len() && (#[trigger] all[k]).start <= i < all[k].end by {
                assert(CharClass::Whitespace.contains(s[i]));
            }
        },
    }
}

/// The lexemes of a text take each of its characters that is not whitespace
/// exactly once, and in order: each lexeme is a non-empty part of the text
/// that begins with such a character, no lexeme overlaps the one before it,
/// and a character that lies in no lexeme is whitespace.
pub proof fn lemma_lexemes_tile_text(s: Seq<char>)
    ensures
        lie_within(s, 0, lexemes_from(s, 0)),
        in_order(lexemes_from(s, 0)),
        cover(s, 0, lexemes_from(s, 0)),
{
    lemma_lexemes_lie_within(s, 0);
    lemma_lexemes_in_order(s, 0);
    lemma_lexemes_cover(s, 0);
}

proof fn lemma_spelling_from(s: Seq<char>, pos: int)
    requires
        0 <= pos <= s.len(),
    ensures
        non_whitespace(spelling(s, lexemes_from(s, pos))) == non_whitespace(s.skip(pos)),
    decreases s.len() - pos,
{
    let black = |c: char| !unicode_whitespace(c);
    lemma_run_end(s, pos, CharClass::Whitespace);
    let start = run_end(s, pos, CharClass::Whitespace);
    let gap = s.subrange(pos, start);
    assert(gap.filter(black).len() == 0) by {
        assert(gap.all(|c: char| !black(c)));
        gap.lemma_all_neg_filter_empty(black);
    }
    match first_lexeme(s, pos) {
        Some(l) => {
            lemma_token_end(s, l.start);
            lemma_spelling_from(s, l.end);
            let rest = lexemes_from(s, l.end);
            let part = |l: Lexeme| s.subrange(l.start, l.end);
            let text = s.subrange(l.start, l.end);
            assert((seq![l] + rest).map_values(part) =~= seq![text] + rest.map_values(part));
            lemma_flatten_concat(seq![text], rest.map_values(part));
            seq![text].lemma_flatten_one_element();
            assert(spelling(s, lexemes_from(s, pos)) == text + spelling(s, rest));
            assert(s.skip(pos) =~= gap + (text + s.skip(l.end)));
            Seq::filter_distributes_over_add(text, spelling(s, rest), black);
            Seq::filter_distributes_over_add(text, s.skip(l.end), black);
            Seq::filter_distributes_over_add(gap, text + s.skip(l.end), black);
            assert(gap.filter(black) + (text + s.skip(l.end)).filter(black) =~= (text + s.skip(
                l.end,
            )).filter(black));
        },
        None => {
            assert(s.skip(pos) =~= gap);
            assert(spelling(s, lexemes_from(s, pos)) =~= Seq::<char>::empty());
            assert(Seq::<char>::empty().filter(black) =~= Seq::<char>::empty()) by {
                Seq::<char>::empty().lemma_filter_len(black);
            }
        },
    }
}

proof fn lemma_nothing_to_filter(s: Seq<char>)
    requires
        forall|i: int| 0 <= i < s.len() ==> !unicode_whitespace(#[trigger] s[i]),
    ensures
        non_whitespace(s) == s,
    decreases s.len(),
{
    let black = |c: char| !unicode_whitespace(c);
    if s.len() == 0 {
        s.lemma_filter_len(black);
        assert(s.filter(black) =~= s);
    } else {
        lemma_nothing_to_filter(s.drop_last());
        s.drop_last().lemma_filter_push(s.last(), black);
        assert(s.drop_last().push(s.last()) =~= s);
    }
}

/// The parts of a text that its lexemes were read from, put together, hold
/// the same characters other than whitespace as the text itself, in the
/// same order: the scan passes over whitespace and nothing else. Where no
/// lexeme holds whitespace, the parts put together are the text without its
/// whitespace.
pub proof fn lemma_lexemes_spell_text(s: Seq<char>)
    ensures
        non_whitespace(spelling(s, lexemes_from(s, 0))) == non_whitespace(s),
        (forall|i: int|
            0 <= i < spelling(s, lexemes_from(s, 0)).len() ==> !unicode_whitespace(
                #[trigger] spelling(s, lexemes_from(s, 0))[i],
            )) ==> spelling(s, lexemes_from(s, 0)) == non_whitespace(s),
{
    lemma_spelling_from(s, 0);
    assert(s.skip(0) =~= s);
    let spelled = spelling(s, lexemes_from(s, 0));
    if forall|i: int| 0 <= i < spelled.len() ==> !unicode_whitespace(#[trigger] spelled[i]) {
        lemma_nothing_to_filter(spelled);
    }
}

proof fn lemma_count_from(s: Seq<char>, pos: int)
    requires
        0 <= pos <= s.len(),
    ensures
        lexemes_from(s, pos).len() <= s.len() - pos,
    decreases s.len() - pos,
{
    lemma_run_end(s, pos, CharClass::Whitespace);
    if let Some(l) = first_lexeme(s, pos) {
        lemma_token_end(s, l.start);
        lemma_count_from(s, l.end);
    }
}

/// A text has at most as many tokens as it has characters.
pub proof fn lemma_token_count_bounded(s: Seq<char>)
    ensures
        tokens(s).len() <= s.len(),
{
    lemma_count_from(s, 0);
}

/// An identifier and a number carry the very characters they were read from.
pub proof fn lemma_literal_tokens_keep_their_text(s: Seq<char>, k: int)
    requires
        0 <= k < lexemes_from(s, 0).len(),
    ensures
        ({
            let l = lexemes_from(s, 0)[k];
            l.token.token_type == TokenType::Identify || l.token.token_type
                == TokenType::UnsignedNumber ==> l.token.content == s.subrange(l.start, l.end)
        }),
{
    lemma_literal_tokens_from(s, 0, k);
}

proof fn lemma_literal_tokens_from(s: Seq<char>, pos: int, k: int)
    requires
        0 <= pos <= s.len(),
        0 <= k < lexemes_from(s, pos).len(),
    ensures
        ({
            let l = lexemes_from(s, pos)[k];
            l.token.token_type == TokenType::Identify || l.token.token_type
                == TokenType::UnsignedNumber ==> l.token.content == s.subrange(l.start, l.end)
        }),
    decreases s.len() - pos,
{
    lemma_run_end(s, pos, CharClass::Whitespace);
    match first_lexeme(s, pos) {
        Some(l) => {
            lemma_token_end(s, l.start);
            if k > 0 {
                lemma_literal_tokens_from(s, l.end, k - 1);
            }
        },
        None => {},
    }
}

/// Two scans of the same text yield the same tokens.
pub proof fn lemma_equal_texts_equal_tokens(a: Content, b: Content)
    requires
        a.content@ == b.content@,
    ensures
        a.tokens() == b.tokens(),
{
}

} // verus!
