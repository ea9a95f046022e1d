//! The scanner: a cursor over the characters of a text, and the step that
//! reads one token from it.

use vstd::prelude::*;
use crate::chars::CharClass;
use crate::grammar::{
    first_lexeme, lemma_run_end, lemma_through_first_unknown, lemma_token_end, lexemes_from,
    run_end, scanned, scanned_end, tokens, tokens_of,
};
use crate::token::{Token, TokenType, TokenView};

verus! {

/// The values of a sequence of tokens.
pub open spec fn token_views(tokens: Seq<Token>) -> Seq<TokenView> {
    tokens.map_values(|t: Token| t@)
}

/// A text to be scanned.
pub struct Content<'a> {
    pub content: &'a str,
}

/// The scanner over one text: its characters and the index of the next one
/// to be read. The index never passes the end of the text.
pub struct TokenIterator {
    chars: Vec<char>,
    cur_index: usize,
}

impl<'a> Content<'a> {
    /// The token stream of the text.
    pub open spec fn tokens(&self) -> Seq<TokenView> {
        tokens(self.content@)
    }

    /// Starts a scan at the first character of the text.
    pub fn into_iter(self) -> (it: TokenIterator)
        ensures
            it.source() == self.content@,
            it.position() == 0,
    {
        let mut chars: Vec<char> = Vec::new();
        for c in iter: self.content.chars()
            invariant
                chars@ == iter.seq().take(iter.index()),
        {
            chars.push(c);
        }
        TokenIterator { chars, cur_index: 0 }
    }
}

impl TokenIterator {
    #[verifier::type_invariant]
    spec fn in_bounds(&self) -> bool {
        self.cur_index <= self.chars.len()
    }

    /// The text being scanned.
    pub closed spec fn source(&self) -> Seq<char> {
        self.chars@
    }

    /// The index of the next character to be read.
    pub closed spec fn position(&self) -> int {
        self.cur_index as int
    }

    /// Whether every character has been read.
    pub fn at_end(&self) -> (b: bool)
        ensures
            b == (self.position() == self.source().len()),
            0 <= self.position() <= self.source().len(),
    {
        proof {
            use_type_invariant(self);
        }
        self.cur_index == self.chars.len()
    }

    /// The character at the position, if the text has not ended there.
    pub open spec fn upcoming(&self) -> Option<char> {
        if 0 <= self.position() < self.source().len() {
            Some(self.source()[self.position()])
        } else {
            None
        }
    }

    /// The next character, which stays unread; `None` at the end of the text.
    pub fn peek(&self) -> (c: Option<char>)
        ensures
            c == self.upcoming(),
    {
        proof {
            use_type_invariant(self);
        }
        if self.cur_index < self.chars.len() {
            Some(self.chars[self.cur_index])
        } else {
            None
        }
    }

    /// Reads the next character and moves past it; at the end of the text
    /// returns `None` and stays.
    pub fn advance(&mut self) -> (c: Option<char>)
        ensures
            final(self).source() == old(self).source(),
            c == old(self).upcoming(),
            final(self).position() == if c is Some {
                old(self).position() + 1
            } else {
                old(self).position()
            },
    {
        proof {
            use_type_invariant(&*self);
        }
        if self.cur_index < self.chars.len() {
            let c = self.chars[self.cur_index];
            self.cur_index = self.cur_index + 1;
            Some(c)
        } else {
            None
        }
    }

    /// Moves past the run of characters of `class` that begins at the
    /// position.
    fn skip_run(&mut self, class: CharClass)
        ensures
            final(self).source() == old(self).source(),
            final(self).position() == run_end(old(self).source(), old(self).position(), class),
    {
        proof {
            use_type_invariant(&*self);
        }
        while self.cur_index < self.chars.len() && class.test(self.chars[self.cur_index])
            invariant
                self.chars@ == old(self).chars@,
                self.cur_index <= self.chars.len(),
                run_end(self.chars@, self.cur_index as int, class) == run_end(
                    old(self).chars@,
                    old(self).cur_index as int,
                    class,
                ),
            decreases self.chars.len() - self.cur_index,
        {
            self.cur_index = self.cur_index + 1;
        }
    }

    /// The characters from `start` up to `end`, as a string.
    fn text(&self, start: usize, end: usize) -> (s: String)
        requires
            start <= end <= self.source().len(),
        ensures
            s@ == self.source().subrange(start as int, end as int),
    {
        let mut s = String::new();
        let mut i: usize = start;
        while i < end
            invariant
                start <= i <= end <= self.chars.len(),
                s@ == self.chars@.subrange(start as int, i as int),
            decreases end - i,
        {
            s.push(self.chars[i]);
            i = i + 1;
        }
        s
    }

    /// Reads the next token.
    ///
    /// Whitespace before it is passed over. Where nothing else is left the
    /// result is `None` and the scanner stands at the end of the text;
    /// otherwise the result is the token of the first lexeme and the scanner
    /// stands just past that lexeme. The scanner never moves back, and it
    /// moves on by at least one character whenever it returns a token, an
    /// unknown one too.
    pub fn next(&mut self) -> (r: Option<Token>)
        ensures
            final(self).source() == old(self).source(),
            match first_lexeme(old(self).source(), old(self).position()) {
                Some(l) => r matches Some(t) && t@ == l.token && final(self).position() == l.end,
                None => r is None && final(self).position() == old(self).source().len(),
            },
            old(self).position() <= final(self).position() <= final(self).source().len(),
            r is Some ==> old(self).position() < final(self).position(),
    {
        proof {
            use_type_invariant(&*self);
            lemma_run_end(self.chars@, self.cur_index as int, CharClass::Whitespace);
        }
        self.skip_run(CharClass::Whitespace);
        let start = self.cur_index;
        let first = match self.advance() {
            Some(c) => c,
            None => {
                return None;
            },
        };
        proof {
            lemma_token_end(self.chars@, start as int);
        }
        if first.is_alphabetic() {
            self.skip_run(CharClass::Alphanumeric);
            let word = self.text(start, self.cur_index);
            Some(Token::keyword_or_identify(word.as_str()))
        } else if first.is_ascii_digit() {
            self.skip_run(CharClass::Digit);
            let digits = self.text(start, self.cur_index);
            Some(Token::unsigned_number(digits.as_str()))
        } else if first == ':' {
            match self.peek() {
                Some('=') => {
                    self.advance();
                    Some(Token::delimiter("Assign"))
                },
                _ => Some(Token::delimiter("Colon")),
            }
        } else {
            Some(Token::symbol(first))
        }
    }

    /// Reads the tokens that are left, in order.
    ///
    /// With `stop_at_unknown` the scan ends with the first unknown token,
    /// which is the last one returned, and the scanner stands just past it;
    /// without, every token to the end of the text is returned.
    pub fn collect(&mut self, stop_at_unknown: bool) -> (tokens: Vec<Token>)
        ensures
            final(self).source() == old(self).source(),
            ({
                let read = scanned(old(self).source(), old(self).position(), stop_at_unknown);
                &&& token_views(tokens@) == tokens_of(read)
                &&& final(self).position() == scanned_end(old(self).source(), read, stop_at_unknown)
            }),
    {
        let ghost all = lexemes_from(self.chars@, self.cur_index as int);
        let ghost read = scanned(self.chars@, self.cur_index as int, stop_at_unknown);
        let mut tokens: Vec<Token> = Vec::new();
        proof {
            use_type_invariant(&*self);
            assert(all.skip(0) =~= all);
        }
        loop
            invariant_except_break
                tokens.len() <= all.len(),
                all.skip(tokens.len() as int) == lexemes_from(self.chars@, self.cur_index as int),
                token_views(tokens@) == tokens_of(all.take(tokens.len() as int)),
                stop_at_unknown ==> forall|k: int|
                    0 <= k < tokens.len() ==> (#[trigger] all[k]).token.token_type
                        != TokenType::Unknown,
            invariant
                self.chars@ == old(self).chars@,
                self.cur_index <= self.chars.len(),
                all == lexemes_from(old(self).chars@, old(self).cur_index as int),
                read == scanned(old(self).chars@, old(self).cur_index as int, stop_at_unknown),
            ensures
                token_views(tokens@) == tokens_of(read),
                self.cur_index == scanned_end(self.chars@, read, stop_at_unknown),
            decreases self.chars.len() - self.cur_index,
        {
            let ghost n = tokens.len() as int;
            proof {
                if let Some(l) = first_lexeme(self.chars@, self.cur_index as int) {
                    lemma_run_end(self.chars@, self.cur_index as int, CharClass::Whitespace);
                    lemma_token_end(self.chars@, l.start);
                    assert(all.skip(n)[0] == l);
                    assert(all.skip(n + 1) =~= all.skip(n).drop_first());
                    assert(all.take(n + 1) =~= all.take(n).push(l));
                    assert(tokens_of(all.take(n + 1)) =~= tokens_of(all.take(n)).push(l.token));
                } else {
                    assert(all.take(n) =~= all);
                }
            }
            match self.next() {
                None => {
                    proof {
                        if stop_at_unknown {
                            lemma_through_first_unknown(all, n);
                        }
                    }
                    break;
                },
                Some(token) => {
                    let unknown = token.is_unknown();
                    proof {
                        assert(token_views(tokens@.push(token)) =~= token_views(tokens@).push(
                            token@,
                        ));
                        use_type_invariant(&*self);
                    }
                    tokens.push(token);
                    if stop_at_unknown && unknown {
                        proof {
                            lemma_through_first_unknown(all, n + 1);
                        }
                        break;
                    }
                },
            }
        }
        tokens
    }
}

} // verus!
