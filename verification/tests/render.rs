//! Tests of the human-readable rendering of tokens and token contents.

use rust_lexer::Token;
use rust_lexer::TokenContent;

#[test]
fn content_rendering() {
    assert_eq!(TokenContent::Identifier("fn".to_string()).render(), "fn");
    assert_eq!(TokenContent::Lifetime("abc".to_string()).render(), "'abc");
    assert_eq!(TokenContent::StringLiteral("a b".to_string()).render(), "\"a b\"");
    assert_eq!(TokenContent::Arrow.render(), "'=>'");
    assert_eq!(TokenContent::Equals.render(), "'=='");
    assert_eq!(TokenContent::Scope.render(), "'::'");
    assert_eq!(TokenContent::UnEqual.render(), "'!='");
    assert_eq!(TokenContent::Char('x').render(), "'x'");
    assert_eq!(TokenContent::Other('(').render(), "other: '('");
}

#[test]
fn token_rendering() {
    let t = Token {
        content: TokenContent::Identifier("main".to_string()),
        line: 1,
        start: 4,
        end: 8,
    };
    assert_eq!(t.render(), "1:4-8: main");

    let t = Token { content: TokenContent::Char('x'), line: 12, start: 105, end: 108 };
    assert_eq!(t.render(), "12:105-108: 'x'");

    let t = Token { content: TokenContent::Other('}'), line: 2, start: 1, end: 2 };
    assert_eq!(t.render(), "2:1-2: other: '}'");
}

#[test]
fn zero_renders_as_one_digit() {
    let t = Token { content: TokenContent::Other('{'), line: 2, start: 0, end: 1 };
    assert_eq!(t.render(), "2:0-1: other: '{'");
}
