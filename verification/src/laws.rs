//! Laws of the scanner, proved once and for all against the mathematical
//! scanner in [`crate::scan`]: what whole classes of inputs scan to.

use vstd::prelude::*;

use crate::chars::is_ws;
use crate::chars::xid_continue;
use crate::chars::xid_start;
use crate::scan::ScanResult;
use crate::scan::ident_end;
use crate::scan::lemma_ident_end_bounds;
use crate::scan::lemma_skip_trivia_bounds;
use crate::scan::lemma_string_body_bounds;
use crate::scan::scan_all;
use crate::scan::scan_next;
use crate::scan::scan_string_body;
use crate::scan::skip_trivia;
use crate::token::ContentM;
use crate::token::LexError;
use crate::token::TokenM;

verus! {

/// Skipping trivia over input that is white space from `pos` on reaches
/// the end of the input.
proof fn lemma_skip_ws_to_end(input: Seq<char>, pos: int, line: int, col: int, reset: int)
    requires
        0 <= pos <= input.len(),
        forall|i: int| pos <= i < input.len() ==> is_ws(input[i]),
    ensures
        skip_trivia(input, pos, line, col, reset, false).pos == input.len(),
    decreases input.len() - pos,
{
    if pos < input.len() {
        if input[pos] == '\r' {
            if pos + 1 < input.len() && input[pos + 1] == '\n' {
                lemma_skip_ws_to_end(input, pos + 2, line + 1, reset, reset);
            } else {
                lemma_skip_ws_to_end(input, pos + 1, line + 1, reset, reset);
            }
        } else if input[pos] == '\n' {
            lemma_skip_ws_to_end(input, pos + 1, line + 1, reset, reset);
        } else {
            lemma_skip_ws_to_end(input, pos + 1, line, col + 1, reset);
        }
    }
}

/// For any input consisting only of white space — any mix of spaces, tabs,
/// line feeds, carriage-return-line-feed pairs and lone carriage returns —
/// the token sequence is empty: the very first scan from a fresh cursor
/// signals the end of the input.
pub proof fn lemma_whitespace_only_scans_empty(input: Seq<char>, reset: int)
    requires
        forall|i: int| 0 <= i < input.len() ==> is_ws(input[i]),
    ensures
        (scan_next(input, 0, 1, 1, reset) is Done),
        scan_all(input, 0, 1, 1, reset) == Seq::<TokenM>::empty(),
{
    lemma_skip_ws_to_end(input, 0, 1, 1, reset);
}

/// Whether `d` completes the two-character operator that `c` opens:
/// `=>`, `==`, `::` or `!=`.
pub open spec fn completes_operator(c: char, d: char) -> bool {
    (c == '=' && (d == '>' || d == '=')) || (c == ':' && d == ':') || (c == '!' && d == '=')
}

/// For each two-character operator prefix (`=`, `:`, `!`): when the next
/// character does not complete the operator — or the input ends — the scan
/// yields that prefix as a single-character `Other` token, one column wide.
pub proof fn lemma_incomplete_operator_is_other(
    input: Seq<char>,
    pos: int,
    line: int,
    col: int,
    reset: int,
)
    requires
        0 <= pos < input.len(),
        input[pos] == '=' || input[pos] == ':' || input[pos] == '!',
        pos + 1 < input.len() ==> !completes_operator(input[pos], input[pos + 1]),
    ensures
        (scan_next(input, pos, line, col, reset) matches ScanResult::Tok { t, st } && t.content
            == ContentM::Other(input[pos]) && t.end - t.start == 1 && t.line == line && t.start
            == col),
{
}

/// The identifier run from `pos` on runs to the end of the input when
/// every character from `pos` on continues an identifier.
proof fn lemma_ident_end_all_continue(input: Seq<char>, pos: int)
    requires
        0 <= pos <= input.len(),
        forall|i: int| pos <= i < input.len() ==> xid_continue(input[i]),
    ensures
        ident_end(input, pos) == input.len(),
    decreases input.len() - pos,
{
    if pos < input.len() {
        lemma_ident_end_all_continue(input, pos + 1);
    }
}

/// Round trip for identifiers: a lone identifier run — an identifier-start
/// character or an underscore, followed only by identifier-continue
/// characters, with no white space and no operator, comment, quote or
/// string opener — scans to exactly one `Identifier` token whose payload
/// is the whole input, and the scan after it signals the end of the input.
pub proof fn lemma_identifier_round_trip(input: Seq<char>, line: int, col: int, reset: int)
    requires
        input.len() > 0,
        xid_start(input[0]) || input[0] == '_',
        forall|i: int| 1 <= i < input.len() ==> xid_continue(input[i]),
        forall|i: int| 0 <= i < input.len() ==> !is_ws(input[i]),
        input[0] != '=' && input[0] != ':' && input[0] != '!' && input[0] != '/' && input[0]
            != '\'' && input[0] != '"',
    ensures
        (scan_next(input, 0, line, col, reset) matches ScanResult::Tok { t, st } && t.content
            == ContentM::Identifier(input) && t.line == line && t.start == col && st.pos
            == input.len() && (scan_next(input, st.pos, st.line, st.col, reset) is Done)
            && scan_all(input, 0, line, col, reset) =~= seq![t]),
{
    lemma_ident_end_all_continue(input, 1);
    assert(input.subrange(0, input.len() as int) =~= input);
    match scan_next(input, 0, line, col, reset) {
        ScanResult::Tok { t, st } => {
            assert(scan_all(input, st.pos, st.line, st.col, reset) =~= Seq::<TokenM>::empty());
            assert(scan_all(input, 0, line, col, reset) =~= seq![t]);
        },
        _ => {
        },
    }
}

/// Skipping a line comment that no line feed ends runs to the end of the
/// input.
proof fn lemma_skip_comment_to_end(input: Seq<char>, pos: int, line: int, col: int, reset: int)
    requires
        0 <= pos <= input.len(),
        forall|i: int| pos <= i < input.len() ==> input[i] != '\n',
    ensures
        skip_trivia(input, pos, line, col, reset, true).pos == input.len(),
    decreases input.len() - pos,
{
    if pos < input.len() {
        lemma_skip_comment_to_end(input, pos + 1, line, col + 1, reset);
    }
}

/// A comment produces no token: an input that begins with `//` and has no
/// line feed after it scans straight to the end of the input.
pub proof fn lemma_comment_only_scans_empty(input: Seq<char>, reset: int)
    requires
        input.len() >= 2,
        input[0] == '/',
        input[1] == '/',
        forall|i: int| 2 <= i < input.len() ==> input[i] != '\n',
    ensures
        (scan_next(input, 0, 1, 1, reset) is Done),
        scan_all(input, 0, 1, 1, reset) == Seq::<TokenM>::empty(),
{
    lemma_skip_comment_to_end(input, 2, 1, 3, reset);
}

/// The interior of a string literal that no quote closes and no backslash
/// interrupts scans to the unterminated-literal error.
proof fn lemma_string_body_unterminated(input: Seq<char>, pos: int, acc: Seq<char>)
    requires
        0 <= pos <= input.len(),
        forall|i: int| pos <= i < input.len() ==> input[i] != '"' && input[i] != '\\',
    ensures
        scan_string_body(input, pos, acc) == Err::<(Seq<char>, int), LexError>(
            LexError::UnterminatedLiteral,
        ),
    decreases input.len() - pos,
{
    if pos < input.len() {
        lemma_string_body_unterminated(input, pos + 1, acc.push(input[pos]));
    }
}

/// An unterminated string literal is a fatal error and yields no token: an
/// input that begins with a quote that nothing closes (and that holds no
/// escape) scans to the unterminated-literal error.
pub proof fn lemma_unterminated_string_fails(input: Seq<char>, reset: int)
    requires
        input.len() >= 1,
        input[0] == '"',
        forall|i: int| 1 <= i < input.len() ==> input[i] != '"' && input[i] != '\\',
    ensures
        (scan_next(input, 0, 1, 1, reset) matches ScanResult::Fail { e } && e
            == LexError::UnterminatedLiteral),
{
    lemma_string_body_unterminated(input, 1, Seq::empty());
}

/// Every token spans at least one character: its end column stands
/// strictly after its start column, and the span is exactly the number of
/// characters the token consumed.
pub proof fn lemma_token_spans_at_least_one(
    input: Seq<char>,
    pos: int,
    line: int,
    col: int,
    reset: int,
)
    requires
        0 <= pos <= input.len(),
    ensures
        (scan_next(input, pos, line, col, reset) matches ScanResult::Tok { t, st } ==> t.start
            < t.end),
{
    lemma_skip_trivia_bounds(input, pos, line, col, reset, false);
    let st0 = skip_trivia(input, pos, line, col, reset, false);
    if st0.pos < input.len() {
        lemma_ident_end_bounds(input, st0.pos + 1);
        if st0.pos + 2 <= input.len() {
            lemma_ident_end_bounds(input, st0.pos + 2);
        }
        lemma_string_body_bounds(input, st0.pos + 1, Seq::empty());
    }
}

/// Once the cursor stands at the end of the input — in particular after a
/// fatal error, which leaves it there — every scan signals the end: the
/// caller sees no further tokens.
pub proof fn lemma_exhausted_scans_done(input: Seq<char>, line: int, col: int, reset: int)
    ensures
        (scan_next(input, input.len() as int, line, col, reset) is Done),
{
}

/// Re-scanning the same immutable input from a fresh cursor yields the
/// identical token sequence: the whole scan is a pure function of the
/// input characters and the configured reset value, so two sessions over
/// equal inputs with equal configurations agree token for token.
pub proof fn lemma_rescan_identical(first: Seq<char>, second: Seq<char>, reset: int)
    requires
        first == second,
    ensures
        scan_all(first, 0, 1, 1, reset) == scan_all(second, 0, 1, 1, reset),
{
}

} // verus!
