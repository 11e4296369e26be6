//! The mathematical scanner: pure functions over the input character
//! sequence that say, for any scan state, what the next call to the lexer
//! must produce and where it must leave the cursor.
//!
//! The executable [`crate::lexer::Lexer`] is proved against [`scan_next`].

use vstd::prelude::*;

use crate::chars::escape_value;
use crate::chars::is_ws;
use crate::chars::xid_continue;
use crate::chars::xid_start;
use crate::token::ContentM;
use crate::token::LexError;
use crate::token::TokenM;

verus! {

/// A scan position: the cursor index into the input, and the line and
/// column the character at that index stands on.
#[verifier::ext_equal]
pub struct ScanState {
    pub pos: int,
    pub line: int,
    pub col: int,
}

/// What one call to the lexer produces: a token and the state after it, the
/// end of the input, or a fatal error.
#[verifier::ext_equal]
pub enum ScanResult {
    /// The input (after any trailing trivia) is exhausted.
    Done { st: ScanState },
    /// One token, and the state just past it.
    Tok { t: TokenM, st: ScanState },
    /// A malformed construct; the scan session ends here.
    Fail { e: LexError },
}

/// Skips trivia: white space, line endings, and `//` line comments. A
/// carriage return followed by a line feed counts as a single line break;
/// a lone carriage return also counts as one line break. On a line break
/// the column restarts from `reset` (0 or 1 by configuration); any other
/// skipped character advances the column by one. `in_comment` says whether
/// the position stands inside a line comment, which runs to the next line
/// feed or to the end of the input.
pub open spec fn skip_trivia(
    input: Seq<char>,
    pos: int,
    line: int,
    col: int,
    reset: int,
    in_comment: bool,
) -> ScanState
    decreases input.len() - pos,
{
    if pos < 0 || pos >= input.len() {
        ScanState { pos, line, col }
    } else if in_comment {
        if input[pos] == '\n' {
            skip_trivia(input, pos + 1, line + 1, reset, reset, false)
        } else {
            skip_trivia(input, pos + 1, line, col + 1, reset, true)
        }
    } else if input[pos] == '\r' {
        if pos + 1 < input.len() && input[pos + 1] == '\n' {
            skip_trivia(input, pos + 2, line + 1, reset, reset, false)
        } else {
            skip_trivia(input, pos + 1, line + 1, reset, reset, false)
        }
    } else if input[pos] == '\n' {
        skip_trivia(input, pos + 1, line + 1, reset, reset, false)
    } else if is_ws(input[pos]) {
        skip_trivia(input, pos + 1, line, col + 1, reset, false)
    } else if input[pos] == '/' && pos + 1 < input.len() && input[pos + 1] == '/' {
        skip_trivia(input, pos + 2, line, col + 2, reset, true)
    } else {
        ScanState { pos, line, col }
    }
}

/// Decodes one literal-interior character at `pos`: a backslash-prefixed
/// escape, or the character itself. Returns the decoded character and how
/// many input characters it covered, or the error that ends the literal.
pub open spec fn decode_one(input: Seq<char>, pos: int) -> Result<(char, int), LexError> {
    if input[pos] == '\\' {
        if pos + 1 >= input.len() {
            Err(LexError::UnterminatedLiteral)
        } else {
            match escape_value(input[pos + 1]) {
                Some(c) => Ok((c, 2)),
                None => Err(LexError::InvalidEscape),
            }
        }
    } else {
        Ok((input[pos], 1))
    }
}

/// Scans the interior of a string literal from `pos` to the closing quote,
/// decoding escapes; `acc` holds the characters decoded so far. Returns the
/// decoded text and the index one past the closing quote, or the error.
pub open spec fn scan_string_body(input: Seq<char>, pos: int, acc: Seq<char>) -> Result<
    (Seq<char>, int),
    LexError,
>
    decreases input.len() - pos,
{
    if pos < 0 || pos >= input.len() {
        Err(LexError::UnterminatedLiteral)
    } else if input[pos] == '"' {
        Ok((acc, pos + 1))
    } else {
        match decode_one(input, pos) {
            Ok((c, n)) => scan_string_body(input, pos + n, acc.push(c)),
            Err(e) => Err(e),
        }
    }
}

/// The index one past the maximal run of identifier-continue characters
/// that starts at `pos`.
pub open spec fn ident_end(input: Seq<char>, pos: int) -> int
    decreases input.len() - pos,
{
    if 0 <= pos < input.len() && xid_continue(input[pos]) {
        ident_end(input, pos + 1)
    } else {
        pos
    }
}

/// Resolves a leading apostrophe at `pos`: a lifetime annotation, a
/// character literal, or a malformed literal. The ambiguity needs
/// speculative scanning: `'a'` (character) and `'a` (lifetime) share a
/// prefix of arbitrary identifier length, so the identifier after the
/// apostrophe is scanned in full before the kind is decided.
pub open spec fn scan_quote(input: Seq<char>, pos: int, line: int, col: int) -> ScanResult {
    let len = input.len() as int;
    if pos + 1 >= len {
        ScanResult::Fail { e: LexError::UnterminatedLiteral }
    } else if xid_start(input[pos + 1]) || input[pos + 1] == '_' {
        let e = ident_end(input, pos + 2);
        let id = input.subrange(pos + 1, e);
        if e - (pos + 1) > 1 || e >= len || input[e] != '\'' {
            // the identifier is longer than one character, or no second
            // apostrophe follows it: a lifetime annotation
            ScanResult::Tok {
                t: TokenM { content: ContentM::Lifetime(id), line, start: col, end: col + (e - pos) },
                st: ScanState { pos: e, line, col: col + (e - pos) },
            }
        } else {
            // a one-character identifier closed by an apostrophe
            ScanResult::Tok {
                t: TokenM {
                    content: ContentM::Char(id[0]),
                    line,
                    start: col,
                    end: col + (e + 1 - pos),
                },
                st: ScanState { pos: e + 1, line, col: col + (e + 1 - pos) },
            }
        }
    } else {
        match decode_one(input, pos + 1) {
            Err(e) => ScanResult::Fail { e },
            Ok((ch, n)) => {
                let q = pos + 1 + n;
                if q >= len {
                    ScanResult::Fail { e: LexError::UnterminatedLiteral }
                } else if input[q] == '\'' {
                    ScanResult::Tok {
                        t: TokenM {
                            content: ContentM::Char(ch),
                            line,
                            start: col,
                            end: col + (q + 1 - pos),
                        },
                        st: ScanState { pos: q + 1, line, col: col + (q + 1 - pos) },
                    }
                } else {
                    ScanResult::Fail { e: LexError::UnclosedCharLiteral }
                }
            },
        }
    }
}

/// Classifies and scans one token whose first character stands at `pos`,
/// which is known not to be trivia (no white space, no comment opener).
/// Two-character operators are resolved with one character of lookahead;
/// the second character, if it does not complete the operator, is left for
/// the next call.
pub open spec fn scan_token(input: Seq<char>, pos: int, line: int, col: int) -> ScanResult {
    let len = input.len() as int;
    let c = input[pos];
    if c == '=' || c == ':' || c == '!' {
        let two = if pos + 1 < len {
            if c == '=' && input[pos + 1] == '>' {
                Some(ContentM::Arrow)
            } else if c == '=' && input[pos + 1] == '=' {
                Some(ContentM::Equals)
            } else if c == ':' && input[pos + 1] == ':' {
                Some(ContentM::Scope)
            } else if c == '!' && input[pos + 1] == '=' {
                Some(ContentM::UnEqual)
            } else {
                None
            }
        } else {
            None
        };
        match two {
            Some(k) => ScanResult::Tok {
                t: TokenM { content: k, line, start: col, end: col + 2 },
                st: ScanState { pos: pos + 2, line, col: col + 2 },
            },
            None => ScanResult::Tok {
                t: TokenM { content: ContentM::Other(c), line, start: col, end: col + 1 },
                st: ScanState { pos: pos + 1, line, col: col + 1 },
            },
        }
    } else if c == '/' {
        // after trivia skipping a slash here opens no comment
        ScanResult::Tok {
            t: TokenM { content: ContentM::Other(c), line, start: col, end: col + 1 },
            st: ScanState { pos: pos + 1, line, col: col + 1 },
        }
    } else if c == '\'' {
        scan_quote(input, pos, line, col)
    } else if c == '"' {
        match scan_string_body(input, pos + 1, Seq::empty()) {
            Ok((s, e)) => ScanResult::Tok {
                t: TokenM {
                    content: ContentM::StringLiteral(s),
                    line,
                    start: col,
                    end: col + (e - pos),
                },
                st: ScanState { pos: e, line, col: col + (e - pos) },
            },
            Err(er) => ScanResult::Fail { e: er },
        }
    } else if xid_start(c) || c == '_' {
        let e = ident_end(input, pos + 1);
        ScanResult::Tok {
            t: TokenM {
                content: ContentM::Identifier(input.subrange(pos, e)),
                line,
                start: col,
                end: col + (e - pos),
            },
            st: ScanState { pos: e, line, col: col + (e - pos) },
        }
    } else {
        ScanResult::Tok {
            t: TokenM { content: ContentM::Other(c), line, start: col, end: col + 1 },
            st: ScanState { pos: pos + 1, line, col: col + 1 },
        }
    }
}

/// One step of the scanner: skip trivia, then either signal the end of the
/// input or scan exactly one token. This is the whole behaviour of one call
/// to `Lexer::next`.
pub open spec fn scan_next(input: Seq<char>, pos: int, line: int, col: int, reset: int) -> ScanResult {
    let st = skip_trivia(input, pos, line, col, reset, false);
    if st.pos >= input.len() {
        ScanResult::Done { st }
    } else {
        scan_token(input, st.pos, st.line, st.col)
    }
}

/// Skipping trivia never moves the cursor backwards nor past the end of
/// the input.
pub proof fn lemma_skip_trivia_bounds(
    input: Seq<char>,
    pos: int,
    line: int,
    col: int,
    reset: int,
    in_comment: bool,
)
    requires
        0 <= pos <= input.len(),
    ensures
        pos <= skip_trivia(input, pos, line, col, reset, in_comment).pos <= input.len(),
    decreases input.len() - pos,
{
    if pos < input.len() {
        if in_comment {
            if input[pos] == '\n' {
                lemma_skip_trivia_bounds(input, pos + 1, line + 1, reset, reset, false);
            } else {
                lemma_skip_trivia_bounds(input, pos + 1, line, col + 1, reset, true);
            }
        } else if input[pos] == '\r' {
            if pos + 1 < input.len() && input[pos + 1] == '\n' {
                lemma_skip_trivia_bounds(input, pos + 2, line + 1, reset, reset, false);
            } else {
                lemma_skip_trivia_bounds(input, pos + 1, line + 1, reset, reset, false);
            }
        } else if input[pos] == '\n' {
            lemma_skip_trivia_bounds(input, pos + 1, line + 1, reset, reset, false);
        } else if is_ws(input[pos]) {
            lemma_skip_trivia_bounds(input, pos + 1, line, col + 1, reset, false);
        } else if input[pos] == '/' && pos + 1 < input.len() && input[pos + 1] == '/' {
            lemma_skip_trivia_bounds(input, pos + 2, line, col + 2, reset, true);
        }
    }
}

/// The identifier run stays inside the input and never moves backwards.
pub proof fn lemma_ident_end_bounds(input: Seq<char>, pos: int)
    requires
        0 <= pos <= input.len(),
    ensures
        pos <= ident_end(input, pos) <= input.len(),
    decreases input.len() - pos,
{
    if pos < input.len() && xid_continue(input[pos]) {
        lemma_ident_end_bounds(input, pos + 1);
    }
}

/// A scanned string literal ends strictly after it starts and inside the
/// input.
pub proof fn lemma_string_body_bounds(input: Seq<char>, pos: int, acc: Seq<char>)
    requires
        0 <= pos <= input.len(),
    ensures
        (scan_string_body(input, pos, acc) matches Ok((s, e)) ==> pos < e <= input.len()),
    decreases input.len() - pos,
{
    if pos < input.len() && input[pos] != '"' {
        match decode_one(input, pos) {
            Ok((c, n)) => {
                lemma_string_body_bounds(input, pos + n, acc.push(c));
            },
            Err(_) => {
            },
        }
    }
}

/// A token always covers at least one character: scanning one from a
/// position inside the input moves the cursor forwards, and not past the
/// end of the input.
pub proof fn lemma_scan_token_progress(input: Seq<char>, pos: int, line: int, col: int)
    requires
        0 <= pos < input.len(),
    ensures
        (scan_token(input, pos, line, col) matches ScanResult::Tok { t, st } ==> pos < st.pos
            <= input.len()),
{
    lemma_ident_end_bounds(input, pos + 1);
    if pos + 2 <= input.len() {
        lemma_ident_end_bounds(input, pos + 2);
    }
    lemma_string_body_bounds(input, pos + 1, Seq::empty());
}

/// One scanner step from a position inside the input: the end of the
/// input is only signalled with the cursor there, and a token moves the
/// cursor strictly forwards.
pub proof fn lemma_scan_next_progress(input: Seq<char>, pos: int, line: int, col: int, reset: int)
    requires
        0 <= pos <= input.len(),
    ensures
        (scan_next(input, pos, line, col, reset) matches ScanResult::Done { st } ==> st.pos
            == input.len()),
        (scan_next(input, pos, line, col, reset) matches ScanResult::Tok { t, st } ==> pos
            < st.pos <= input.len()),
{
    lemma_skip_trivia_bounds(input, pos, line, col, reset, false);
    let st0 = skip_trivia(input, pos, line, col, reset, false);
    if st0.pos < input.len() {
        lemma_scan_token_progress(input, st0.pos, st0.line, st0.col);
    }
}

/// The whole token sequence from the given state: one token per scanner
/// step, up to the end of the input or the first error.
pub open spec fn scan_all(input: Seq<char>, pos: int, line: int, col: int, reset: int) -> Seq<
    TokenM,
>
    decreases input.len() - pos
        when 0 <= pos <= input.len()
        via scan_all_dec
{
    match scan_next(input, pos, line, col, reset) {
        ScanResult::Done { st } => Seq::empty(),
        ScanResult::Fail { e } => Seq::empty(),
        ScanResult::Tok { t, st } => seq![t] + scan_all(input, st.pos, st.line, st.col, reset),
    }
}

#[via_fn]
proof fn scan_all_dec(input: Seq<char>, pos: int, line: int, col: int, reset: int) {
    lemma_scan_next_progress(input, pos, line, col, reset);
}

/// How the whole scan from the given state ends: `None` when it reaches
/// the end of the input, or the fatal error that stops it.
pub open spec fn scan_outcome(input: Seq<char>, pos: int, line: int, col: int, reset: int) -> Option<
    LexError,
>
    decreases input.len() - pos
        when 0 <= pos <= input.len()
        via scan_outcome_dec
{
    match scan_next(input, pos, line, col, reset) {
        ScanResult::Done { st } => None,
        ScanResult::Fail { e } => Some(e),
        ScanResult::Tok { t, st } => scan_outcome(input, st.pos, st.line, st.col, reset),
    }
}

#[via_fn]
proof fn scan_outcome_dec(input: Seq<char>, pos: int, line: int, col: int, reset: int) {
    lemma_scan_next_progress(input, pos, line, col, reset);
}

} // verus!
