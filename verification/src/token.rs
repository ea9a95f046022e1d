//! Tokens, the table of reserved words and the table of delimiters.

use vstd::prelude::*;
use vstd::string::*;

verus! {

/// What a token was classified as.
#[derive(Clone, Copy, Debug, PartialEq, Eq, Structural)]
pub enum TokenType {
    Identify,
    Keyword,
    UnsignedNumber,
    Delimiter,
    Unknown,
}

/// A classified piece of text.
///
/// `content` is the lexeme itself for an identifier or a number, the
/// canonical name for a reserved word or a delimiter, and empty for an
/// unknown character.
#[derive(Debug, PartialEq, Eq)]
pub struct Token {
    pub token_type: TokenType,
    pub content: String,
}

/// The mathematical value of a [`Token`].
pub struct TokenView {
    pub token_type: TokenType,
    pub content: Seq<char>,
}

impl View for Token {
    type V = TokenView;

    open spec fn view(&self) -> TokenView {
        TokenView { token_type: self.token_type, content: self.content@ }
    }
}

/// The canonical name of the reserved word spelled `word`, if it is one.
/// The spelling is matched exactly: upper case only, nothing before or after.
pub open spec fn keyword_name(word: Seq<char>) -> Option<Seq<char>> {
    if word == "BEGIN"@ {
        Some("Begin"@)
    } else if word == "END"@ {
        Some("End"@)
    } else if word == "FOR"@ {
        Some("For"@)
    } else if word == "IF"@ {
        Some("If"@)
    } else if word == "THEN"@ {
        Some("Then"@)
    } else if word == "ELSE"@ {
        Some("Else"@)
    } else {
        None
    }
}

/// The canonical name of the one-character delimiter `c`, if it is one.
pub open spec fn symbol_name(c: char) -> Option<Seq<char>> {
    if c == '+' {
        Some("Plus"@)
    } else if c == '*' {
        Some("Star"@)
    } else if c == ',' {
        Some("Comma"@)
    } else if c == '(' {
        Some("LParenthesis"@)
    } else if c == ')' {
        Some("RParenthesis"@)
    } else {
        None
    }
}

impl TokenView {
    pub open spec fn keyword(name: Seq<char>) -> TokenView {
        TokenView { token_type: TokenType::Keyword, content: name }
    }

    pub open spec fn identify(text: Seq<char>) -> TokenView {
        TokenView { token_type: TokenType::Identify, content: text }
    }

    pub open spec fn unsigned_number(digits: Seq<char>) -> TokenView {
        TokenView { token_type: TokenType::UnsignedNumber, content: digits }
    }

    pub open spec fn delimiter(name: Seq<char>) -> TokenView {
        TokenView { token_type: TokenType::Delimiter, content: name }
    }

    pub open spec fn unknown() -> TokenView {
        TokenView { token_type: TokenType::Unknown, content: Seq::empty() }
    }

    /// The token of a run of letters and digits: the reserved word that it
    /// spells, else an identifier with the run as its text.
    pub open spec fn word(text: Seq<char>) -> TokenView {
        match keyword_name(text) {
            Some(name) => TokenView::keyword(name),
            None => TokenView::identify(text),
        }
    }

    /// The token of a character that is neither a letter, a digit nor a
    /// colon: its delimiter, else the unknown token.
    pub open spec fn symbol(c: char) -> TokenView {
        match symbol_name(c) {
            Some(name) => TokenView::delimiter(name),
            None => TokenView::unknown(),
        }
    }

    /// The text that shows the token to a reader.
    pub open spec fn rendered(self) -> Seq<char> {
        match self.token_type {
            TokenType::Identify => "Ident("@ + self.content + ")"@,
            TokenType::UnsignedNumber => "Int("@ + self.content + ")"@,
            TokenType::Keyword => self.content,
            TokenType::Delimiter => self.content,
            TokenType::Unknown => "Unknown"@,
        }
    }
}

impl Token {
    /// A reserved word with the canonical name `value`.
    pub fn keyword(value: &str) -> (t: Token)
        ensures
            t@ == TokenView::keyword(value@),
    {
        Token { token_type: TokenType::Keyword, content: value.to_owned() }
    }

    /// An identifier spelled `value`.
    pub fn identify(value: &str) -> (t: Token)
        ensures
            t@ == TokenView::identify(value@),
    {
        Token { token_type: TokenType::Identify, content: value.to_owned() }
    }

    /// The reserved word that `value` spells, else the identifier `value`.
    pub fn keyword_or_identify(value: &str) -> (t: Token)
        ensures
            t@ == TokenView::word(value@),
    {
        if value.eq("BEGIN") {
            Token::keyword("Begin")
        } else if value.eq("END") {
            Token::keyword("End")
        } else if value.eq("FOR") {
            Token::keyword("For")
        } else if value.eq("IF") {
            Token::keyword("If")
        } else if value.eq("THEN") {
            Token::keyword("Then")
        } else if value.eq("ELSE") {
            Token::keyword("Else")
        } else {
            Token::identify(value)
        }
    }

    /// An unsigned integer with the digits `value`.
    pub fn unsigned_number(value: &str) -> (t: Token)
        ensures
            t@ == TokenView::unsigned_number(value@),
    {
        Token { token_type: TokenType::UnsignedNumber, content: value.to_owned() }
    }

    /// A delimiter with the canonical name `value`.
    pub fn delimiter(value: &str) -> (t: Token)
        ensures
            t@ == TokenView::delimiter(value@),
    {
        Token { token_type: TokenType::Delimiter, content: value.to_owned() }
    }

    /// The token that stands for a character no rule accepts.
    pub fn unknown() -> (t: Token)
        ensures
            t@ == TokenView::unknown(),
    {
        Token { token_type: TokenType::Unknown, content: String::new() }
    }

    /// The token of a single character that is neither a letter, a digit nor
    /// a colon.
    pub fn symbol(c: char) -> (t: Token)
        ensures
            t@ == TokenView::symbol(c),
    {
        if c == '+' {
            Token::delimiter("Plus")
        } else if c == '*' {
            Token::delimiter("Star")
        } else if c == ',' {
            Token::delimiter("Comma")
        } else if c == '(' {
            Token::delimiter("LParenthesis")
        } else if c == ')' {
            Token::delimiter("RParenthesis")
        } else {
            Token::unknown()
        }
    }

    /// Whether the token stands for a character no rule accepts. A caller
    /// that wants to stop at the first such token tests this after each one.
    pub fn is_unknown(&self) -> (b: bool)
        ensures
            b == (self@.token_type == TokenType::Unknown),
    {
        match self.token_type {
            TokenType::Unknown => true,
            _ => false,
        }
    }

    /// Renders the token for a reader: `Ident(..)` around an identifier,
    /// `Int(..)` around a number, the canonical name of a reserved word or a
    /// delimiter as it is, and `Unknown` for an unknown character.
    pub fn to_string(&self) -> (s: String)
        ensures
            s@ == self@.rendered(),
    {
        match self.token_type {
            TokenType::Identify => {
                String::from_str("Ident(").concat(self.content.as_str()).concat(")")
            },
            TokenType::UnsignedNumber => {
                String::from_str("Int(").concat(self.content.as_str()).concat(")")
            },
            TokenType::Keyword => self.content.clone(),
            TokenType::Delimiter => self.content.clone(),
            TokenType::Unknown => String::from_str("Unknown"),
        }
    }
}

} // verus!
