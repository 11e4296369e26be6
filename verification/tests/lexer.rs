//! Runtime tests of the scanner: token classification, positions, trivia,
//! the apostrophe ambiguity, escapes, and the error cases.

use rust_lexer::LexError;
use rust_lexer::Lexer;
use rust_lexer::Token;
use rust_lexer::TokenContent;

fn lexer_of(src: &str) -> Lexer {
    Lexer::new(src.chars().collect())
}

/// Scans the whole input, panicking on any scan error.
fn tokens_of(src: &str) -> Vec<Token> {
    let mut lexer = lexer_of(src);
    let mut out = Vec::new();
    while let Some(r) = lexer.next() {
        match r {
            Ok(t) => out.push(t),
            Err(e) => panic!("unexpected scan error {:?}", e),
        }
    }
    out
}

fn ident(text: &str, line: usize, start: usize, end: usize) -> Token {
    Token { content: TokenContent::Identifier(text.to_string()), line, start, end }
}

fn other(c: char, line: usize, start: usize, end: usize) -> Token {
    Token { content: TokenContent::Other(c), line, start, end }
}

#[test]
fn lex_empty() {
    let line_start = 1;
    let mut lex = lexer_of("fn main() {\n}");
    let expected = vec![
        ident("fn", line_start, 1, 3),
        ident("main", line_start, 4, 8),
        other('(', line_start, 8, 9),
        other(')', line_start, 9, 10),
        other('{', line_start, 11, 12),
        other('}', line_start + 1, 1, 2),
    ];
    for b in expected.iter() {
        let act = match lex.next() {
            Some(Ok(x)) => x,
            r => panic!("expected a token, got {:?}", r),
        };
        println!("{} {}", act.render(), b.render());
        assert_eq!(act, *b);
    }
    assert!(lex.next().is_none());
}

#[test]
fn whitespace_only_yields_nothing() {
    for src in ["", " ", "   ", "\t\t", "\n\n", "\r\n \r\n", "\r \r", " \t\n\r\n\r "] {
        let mut lex = lexer_of(src);
        assert!(lex.next().is_none(), "input {:?} must scan to nothing", src);
        assert!(lex.next().is_none());
    }
}

#[test]
fn incomplete_operator_prefix_is_single_other() {
    for (src, c) in [("=x", '='), (":x", ':'), ("!x", '!'), ("=", '='), (":", ':'), ("!", '!')] {
        let toks = tokens_of(src);
        assert_eq!(toks[0].content, TokenContent::Other(c));
        assert_eq!(toks[0].end - toks[0].start, 1, "one column wide for {:?}", src);
    }
}

#[test]
fn two_character_operators() {
    assert_eq!(tokens_of("=>"), vec![Token { content: TokenContent::Arrow, line: 1, start: 1, end: 3 }]);
    assert_eq!(tokens_of("=="), vec![Token { content: TokenContent::Equals, line: 1, start: 1, end: 3 }]);
    assert_eq!(tokens_of("::"), vec![Token { content: TokenContent::Scope, line: 1, start: 1, end: 3 }]);
    assert_eq!(tokens_of("!="), vec![Token { content: TokenContent::UnEqual, line: 1, start: 1, end: 3 }]);
}

#[test]
fn identifier_round_trip() {
    for src in ["a", "abc", "_foo1", "x2_y3", "\u{3b1}\u{3b2}"] {
        let toks = tokens_of(src);
        assert_eq!(toks.len(), 1, "one token for {:?}", src);
        assert_eq!(toks[0].content, TokenContent::Identifier(src.to_string()));
    }
}

#[test]
fn digit_starts_no_identifier() {
    let toks = tokens_of("1a");
    assert_eq!(toks.len(), 2);
    assert_eq!(toks[0].content, TokenContent::Other('1'));
    assert_eq!(toks[1].content, TokenContent::Identifier("a".to_string()));
}

#[test]
fn hyphen_ends_identifier() {
    let toks = tokens_of("a-b");
    assert_eq!(toks.len(), 3);
    assert_eq!(toks[0].content, TokenContent::Identifier("a".to_string()));
    assert_eq!(toks[1].content, TokenContent::Other('-'));
    assert_eq!(toks[2].content, TokenContent::Identifier("b".to_string()));
}

#[test]
fn char_literal_spans_three_columns() {
    let toks = tokens_of("'x'");
    assert_eq!(toks, vec![Token { content: TokenContent::Char('x'), line: 1, start: 1, end: 4 }]);
    assert_eq!(toks[0].end - toks[0].start, 3);
}

#[test]
fn lifetime_at_end_of_input() {
    let toks = tokens_of("'abc");
    assert_eq!(toks, vec![Token {
        content: TokenContent::Lifetime("abc".to_string()),
        line: 1,
        start: 1,
        end: 5,
    }]);
}

#[test]
fn lifetime_does_not_consume_what_follows() {
    let toks = tokens_of("'abc ");
    assert_eq!(toks.len(), 1);
    assert_eq!(toks[0].content, TokenContent::Lifetime("abc".to_string()));

    let toks = tokens_of("'abc)");
    assert_eq!(toks.len(), 2);
    assert_eq!(toks[0].content, TokenContent::Lifetime("abc".to_string()));
    assert_eq!(toks[1], other(')', 1, 5, 6));
}

#[test]
fn single_letter_lifetime() {
    let toks = tokens_of("'a ");
    assert_eq!(toks.len(), 1);
    assert_eq!(toks[0].content, TokenContent::Lifetime("a".to_string()));
}

#[test]
fn underscore_char_literal() {
    let toks = tokens_of("'_'");
    assert_eq!(toks, vec![Token { content: TokenContent::Char('_'), line: 1, start: 1, end: 4 }]);
}

#[test]
fn digit_char_literal() {
    let toks = tokens_of("'0'");
    assert_eq!(toks, vec![Token { content: TokenContent::Char('0'), line: 1, start: 1, end: 4 }]);
}

#[test]
fn escaped_char_literals() {
    let toks = tokens_of("'\\n' '\\t' '\\\\' '\\'' '\\\"'");
    let values: Vec<char> = toks
        .iter()
        .map(|t| match &t.content {
            TokenContent::Char(c) => *c,
            c => panic!("expected a character literal, got {:?}", c),
        })
        .collect();
    assert_eq!(values, vec!['\n', '\t', '\\', '\'', '"']);
    assert_eq!(toks[0].end - toks[0].start, 4);
}

#[test]
fn line_column_tracking() {
    let toks = tokens_of("fn main() {\n}");
    let positions: Vec<(usize, usize, usize)> =
        toks.iter().map(|t| (t.line, t.start, t.end)).collect();
    assert_eq!(
        positions,
        vec![(1, 1, 3), (1, 4, 8), (1, 8, 9), (1, 9, 10), (1, 11, 12), (2, 1, 2)]
    );
}

#[test]
fn zero_based_column_reset() {
    let mut lex = Lexer::new_with_config("a\nb".chars().collect(), true);
    let a = lex.next().unwrap().unwrap();
    assert_eq!(a, ident("a", 1, 1, 2));
    let b = lex.next().unwrap().unwrap();
    assert_eq!(b, ident("b", 2, 0, 1));
    assert!(lex.next().is_none());
}

#[test]
fn carriage_return_line_feed_is_one_break() {
    let toks = tokens_of("a\r\nb");
    assert_eq!(toks, vec![ident("a", 1, 1, 2), ident("b", 2, 1, 2)]);
}

#[test]
fn lone_carriage_return_is_one_break() {
    let toks = tokens_of("a\rb");
    assert_eq!(toks, vec![ident("a", 1, 1, 2), ident("b", 2, 1, 2)]);
}

#[test]
fn comment_elision() {
    let toks = tokens_of("a // comment\nb");
    assert_eq!(toks.len(), 2);
    assert_eq!(toks[0], ident("a", 1, 1, 2));
    assert_eq!(toks[1].content, TokenContent::Identifier("b".to_string()));
    assert_eq!(toks[1].line, 2);
}

#[test]
fn comment_at_end_of_input() {
    assert_eq!(tokens_of("a //x"), vec![ident("a", 1, 1, 2)]);
    assert!(tokens_of("//x").is_empty());
}

#[test]
fn consecutive_comments() {
    let toks = tokens_of("//a\n//b\nc");
    assert_eq!(toks.len(), 1);
    assert_eq!(toks[0], ident("c", 3, 1, 2));
}

#[test]
fn slash_alone_is_other() {
    let toks = tokens_of("a / b");
    assert_eq!(toks[1], other('/', 1, 3, 4));
}

#[test]
fn string_literal_decodes_escapes() {
    let toks = tokens_of("\"a\\nb\"");
    assert_eq!(toks, vec![Token {
        content: TokenContent::StringLiteral("a\nb".to_string()),
        line: 1,
        start: 1,
        end: 7,
    }]);
}

#[test]
fn string_literal_escaped_quote() {
    let toks = tokens_of("\"a\\\"b\"");
    assert_eq!(toks[0].content, TokenContent::StringLiteral("a\"b".to_string()));
}

#[test]
fn empty_string_literal() {
    let toks = tokens_of("\"\"");
    assert_eq!(toks, vec![Token {
        content: TokenContent::StringLiteral(String::new()),
        line: 1,
        start: 1,
        end: 3,
    }]);
}

#[test]
fn unterminated_string_is_fatal() {
    let mut lex = lexer_of("\"abc");
    assert_eq!(lex.next(), Some(Err(LexError::UnterminatedLiteral)));
    assert!(lex.next().is_none(), "no further tokens after a fatal error");
}

#[test]
fn unterminated_char_literals() {
    let mut lex = lexer_of("'");
    assert_eq!(lex.next(), Some(Err(LexError::UnterminatedLiteral)));

    let mut lex = lexer_of("'\\");
    assert_eq!(lex.next(), Some(Err(LexError::UnterminatedLiteral)));

    let mut lex = lexer_of("'0");
    assert_eq!(lex.next(), Some(Err(LexError::UnterminatedLiteral)));
}

#[test]
fn unclosed_char_literal() {
    let mut lex = lexer_of("'0x");
    assert_eq!(lex.next(), Some(Err(LexError::UnclosedCharLiteral)));
    assert!(lex.next().is_none());
}

#[test]
fn invalid_escape_in_string() {
    let mut lex = lexer_of("\"a\\qb\"");
    assert_eq!(lex.next(), Some(Err(LexError::InvalidEscape)));
    assert!(lex.next().is_none());
}

#[test]
fn unicode_escape_is_rejected() {
    let mut lex = lexer_of("'\\u0041'");
    assert_eq!(lex.next(), Some(Err(LexError::InvalidEscape)));
}

#[test]
fn string_keeps_starting_line() {
    let toks = tokens_of("\"a\nb\"c");
    assert_eq!(toks.len(), 2);
    assert_eq!(toks[0], Token {
        content: TokenContent::StringLiteral("a\nb".to_string()),
        line: 1,
        start: 1,
        end: 6,
    });
    assert_eq!(toks[1], ident("c", 1, 6, 7));
}

#[test]
fn tokenize_whole_input() {
    let mut lex = lexer_of("a == b");
    let toks = lex.tokenize().unwrap();
    assert_eq!(toks.len(), 3);
    assert_eq!(toks[1].content, TokenContent::Equals);
    assert!(lex.next().is_none(), "the input is exhausted after tokenize");
}

#[test]
fn tokenize_propagates_error() {
    let mut lex = lexer_of("a \"x");
    assert_eq!(lex.tokenize(), Err(LexError::UnterminatedLiteral));
    assert!(lex.next().is_none());
}

#[test]
fn rescan_is_identical() {
    let src = "fn id(x: u8) -> u8 { x } // done\n'a 'b' \"s\"";
    let first = tokens_of(src);
    let second = tokens_of(src);
    assert_eq!(first, second);
    assert!(!first.is_empty());
}

#[test]
fn mixed_program() {
    let toks = tokens_of("let x = y != z; // compare\nx::f(\"\\t\")");
    let contents: Vec<TokenContent> = toks.into_iter().map(|t| t.content).collect();
    assert_eq!(
        contents,
        vec![
            TokenContent::Identifier("let".to_string()),
            TokenContent::Identifier("x".to_string()),
            TokenContent::Other('='),
            TokenContent::Identifier("y".to_string()),
            TokenContent::UnEqual,
            TokenContent::Identifier("z".to_string()),
            TokenContent::Other(';'),
            TokenContent::Identifier("x".to_string()),
            TokenContent::Scope,
            TokenContent::Identifier("f".to_string()),
            TokenContent::Other('('),
            TokenContent::StringLiteral("\t".to_string()),
            TokenContent::Other(')'),
        ]
    );
}
