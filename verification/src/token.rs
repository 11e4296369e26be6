//! The token data model: an immutable token value, its tagged content, and
//! the scan errors, together with their mathematical images.

use vstd::prelude::*;

verus! {

/// Lexical category of one token, with the decoded payload where one exists.
///
/// Keywords are not set apart: every identifier-shaped lexeme, reserved or
/// not, is an `Identifier`. Delimiters and all other unclassified single
/// characters fall into the `Other` bucket.
#[derive(Clone, PartialEq, Eq, Debug)]
pub enum TokenContent {
    /// A maximal run of identifier characters.
    Identifier(String),
    /// An apostrophe followed by an identifier that does not close as a
    /// character literal.
    Lifetime(String),
    /// A quote-delimited run of characters, escapes already decoded.
    StringLiteral(String),
    /// The two-character operator `=>`.
    Arrow,
    /// The two-character operator `==`.
    Equals,
    /// The two-character operator `::`.
    Scope,
    /// The two-character operator `!=`.
    UnEqual,
    /// A single decoded character delimited by apostrophes.
    Char(char),
    /// Any single character not otherwise classified.
    Other(char),
}

/// Mathematical image of [`TokenContent`]: text payloads as `Seq<char>`.
#[verifier::ext_equal]
pub enum ContentM {
    Identifier(Seq<char>),
    Lifetime(Seq<char>),
    StringLiteral(Seq<char>),
    Arrow,
    Equals,
    Scope,
    UnEqual,
    Char(char),
    Other(char),
}

impl View for TokenContent {
    type V = ContentM;

    open spec fn view(&self) -> ContentM {
        match self {
            TokenContent::Identifier(s) => ContentM::Identifier(s@),
            TokenContent::Lifetime(s) => ContentM::Lifetime(s@),
            TokenContent::StringLiteral(s) => ContentM::StringLiteral(s@),
            TokenContent::Arrow => ContentM::Arrow,
            TokenContent::Equals => ContentM::Equals,
            TokenContent::Scope => ContentM::Scope,
            TokenContent::UnEqual => ContentM::UnEqual,
            TokenContent::Char(c) => ContentM::Char(*c),
            TokenContent::Other(c) => ContentM::Other(*c),
        }
    }
}

/// One token of source code: its content and where it stood.
///
/// `line` is the line the token starts on; `start` and `end` are column
/// positions, `end` exclusive (one past the last column of the token).
/// Every token spans at least one character, so `end > start`.
#[derive(Clone, PartialEq, Eq, Debug)]
pub struct Token {
    pub content: TokenContent,
    pub line: usize,
    /// starting column of the token
    pub start: usize,
    /// end column of the token, exclusive
    pub end: usize,
}

/// Mathematical image of [`Token`].
#[verifier::ext_equal]
pub struct TokenM {
    pub content: ContentM,
    pub line: int,
    pub start: int,
    pub end: int,
}

impl View for Token {
    type V = TokenM;

    open spec fn view(&self) -> TokenM {
        TokenM {
            content: self.content@,
            line: self.line as int,
            start: self.start as int,
            end: self.end as int,
        }
    }
}

/// Why a scan failed. Every error is fatal to the scan session: after an
/// error the lexer yields no further tokens.
#[derive(Clone, Copy, PartialEq, Eq, Debug)]
pub enum LexError {
    /// End of input was reached inside a character or string literal.
    UnterminatedLiteral,
    /// A character literal's content was read but no closing apostrophe
    /// followed it.
    UnclosedCharLiteral,
    /// A backslash introduced an unrecognized escape sequence.
    InvalidEscape,
}

} // verus!
