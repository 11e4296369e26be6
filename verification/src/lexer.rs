//! The executable scanner: a cursor over the input characters with line and
//! column bookkeeping, and the dispatch state machine that produces one
//! token per call. Every step is proved against the mathematical scanner in
//! [`crate::scan`].

use vstd::prelude::*;

use crate::chars::is_ws_char;
use crate::chars::is_xid_continue_char;
use crate::chars::is_xid_start_char;
use crate::chars::escape_value_char;
use crate::scan::ScanResult;
use crate::scan::ScanState;
use crate::scan::decode_one;
use crate::scan::ident_end;
use crate::scan::lemma_scan_next_progress;
use crate::scan::scan_all;
use crate::scan::scan_next;
use crate::scan::scan_outcome;
use crate::scan::scan_string_body;
use crate::scan::scan_token;
use crate::scan::skip_trivia;
use crate::token::LexError;
use crate::token::Token;
use crate::token::TokenContent;

verus! {

/// The scan session: the input, the cursor (the index of the lookahead
/// character, equal to the input length once the input is exhausted), the
/// line and column of the lookahead, and the configured column reset value.
///
/// One `Lexer` is created per input and driven forward only; re-scanning
/// means constructing a fresh one.
pub struct Lexer {
    input: Vec<char>,
    pos: usize,
    line: usize,
    col: usize,
    zero_reset: bool,
}

/// Mathematical image of [`Lexer`]: the input as a character sequence and
/// the scan position, with the column reset value as 0 or 1.
#[verifier::ext_equal]
pub struct LexerM {
    pub src: Seq<char>,
    pub pos: int,
    pub line: int,
    pub col: int,
    pub reset: int,
}

impl View for Lexer {
    type V = LexerM;

    closed spec fn view(&self) -> LexerM {
        LexerM {
            src: self.input@,
            pos: self.pos as int,
            line: self.line as int,
            col: self.col as int,
            reset: if self.zero_reset {
                0
            } else {
                1
            },
        }
    }
}

/// The contract of [`Lexer::next`]: given the image `pre` of the lexer
/// before a call, the image `post` after it and the returned value `r`,
/// the call produced exactly what the mathematical scanner says. One token
/// and the cursor just past it; or `None` with the cursor at the end of
/// the input; or the fatal error, after which the cursor stands at the end
/// of the input, so that every later call returns `None`.
pub open spec fn next_post(pre: LexerM, post: LexerM, r: Option<Result<Token, LexError>>) -> bool {
    match scan_next(pre.src, pre.pos, pre.line, pre.col, pre.reset) {
        ScanResult::Done { st } => r is None && post.pos == st.pos && post.line == st.line
            && post.col == st.col,
        ScanResult::Tok { t, st } => (r matches Some(Ok(tok)) && tok@ == t) && post.pos == st.pos
            && post.line == st.line && post.col == st.col,
        ScanResult::Fail { e } => r == Some(Err::<Token, LexError>(e)) && post.pos
            == post.src.len(),
    }
}

/// [`skip_trivia`] applied to a lexer image, outside any comment.
pub open spec fn trivia_from(m: LexerM) -> ScanState {
    skip_trivia(m.src, m.pos, m.line, m.col, m.reset, false)
}

/// [`skip_trivia`] applied to a lexer image whose cursor may stand inside a
/// line comment.
pub open spec fn trivia_within(m: LexerM, in_comment: bool) -> ScanState {
    skip_trivia(m.src, m.pos, m.line, m.col, m.reset, in_comment)
}

impl Lexer {
    /// Whether the cursor stands at the given scan position.
    pub open spec fn at_state(self, st: ScanState) -> bool {
        self@.pos == st.pos && self@.line == st.line && self@.col == st.col
    }

    /// Well-formedness: the cursor is inside the input or one past its end,
    /// and the line and column counters stay small enough that the
    /// bookkeeping cannot overflow (each consumed character advances each
    /// of them by at most one).
    pub open spec fn wf(self) -> bool {
        &&& 0 <= self@.pos <= self@.src.len()
        &&& self@.src.len() < usize::MAX
        &&& 1 <= self@.line <= self@.pos + 1
        &&& 0 <= self@.col <= self@.pos + 1
        &&& 0 <= self@.reset <= 1
    }

    /// Creates a scanner over `input`, counting lines and columns from 1
    /// throughout.
    ///
    /// The input must be at least one character short of the machine's
    /// maximum length, so that the one-past-the-end column fits.
    pub fn new(input: Vec<char>) -> (l: Lexer)
        requires
            input@.len() < usize::MAX,
        ensures
            l.wf(),
            l@.src == input@,
            l@.pos == 0,
            l@.line == 1,
            l@.col == 1,
            l@.reset == 1,
    {
        Lexer { input, pos: 0, line: 1, col: 1, zero_reset: false }
    }

    /// As [`Lexer::new`]; when `lines_start_at_zero` is set, the column
    /// counter restarts from 0 instead of 1 on each line break. Only the
    /// reset value changes: counting still begins at line 1, column 1.
    pub fn new_with_config(input: Vec<char>, lines_start_at_zero: bool) -> (l: Lexer)
        requires
            input@.len() < usize::MAX,
        ensures
            l.wf(),
            l@.src == input@,
            l@.pos == 0,
            l@.line == 1,
            l@.col == 1,
            l@.reset == if lines_start_at_zero {
                0int
            } else {
                1int
            },
    {
        Lexer { input, pos: 0, line: 1, col: 1, zero_reset: lines_start_at_zero }
    }

    /// The configured column value for the start of a new line.
    fn reset_col(&self) -> (r: usize)
        ensures
            r as int == self@.reset,
    {
        if self.zero_reset {
            0
        } else {
            1
        }
    }

    /// Advances past white space, line endings and line comments, so that
    /// the lookahead is either the end of the input or the first character
    /// of a token.
    fn skip_trivia_exec(&mut self)
        requires
            old(self).wf(),
        ensures
            final(self).wf(),
            final(self)@.src == old(self)@.src,
            final(self)@.reset == old(self)@.reset,
            final(self).at_state(trivia_from(old(self)@)),
    {
        let ghost s0 = *self;
        let mut in_comment = false;
        loop
            invariant
                self.wf(),
                self@.src == s0@.src,
                self@.reset == s0@.reset,
                trivia_from(s0@) == trivia_within(self@, in_comment),
            ensures
                self.at_state(trivia_from(s0@)),
            decreases self@.src.len() - self@.pos,
        {
            if self.pos >= self.input.len() {
                break;
            }
            let c = self.input[self.pos];
            if in_comment {
                if c == '\n' {
                    self.pos = self.pos + 1;
                    self.line = self.line + 1;
                    self.col = self.reset_col();
                    in_comment = false;
                } else {
                    self.pos = self.pos + 1;
                    self.col = self.col + 1;
                }
            } else if c == '\r' {
                if self.pos + 1 < self.input.len() && self.input[self.pos + 1] == '\n' {
                    self.pos = self.pos + 2;
                } else {
                    self.pos = self.pos + 1;
                }
                self.line = self.line + 1;
                self.col = self.reset_col();
            } else if c == '\n' {
                self.pos = self.pos + 1;
                self.line = self.line + 1;
                self.col = self.reset_col();
            } else if is_ws_char(c) {
                self.pos = self.pos + 1;
                self.col = self.col + 1;
            } else if c == '/' && self.pos + 1 < self.input.len() && self.input[self.pos + 1]
                == '/' {
                self.pos = self.pos + 2;
                self.col = self.col + 2;
                in_comment = true;
            } else {
                break;
            }
        }
    }

    /// Decodes one literal-interior character at the lookahead and advances
    /// past it; on a malformed escape the state is left unchanged.
    fn decode_one_exec(&mut self) -> (r: Result<char, LexError>)
        requires
            old(self).wf(),
            old(self)@.pos < old(self)@.src.len(),
        ensures
            final(self).wf(),
            final(self)@.src == old(self)@.src,
            final(self)@.reset == old(self)@.reset,
            final(self)@.line == old(self)@.line,
            match decode_one(old(self)@.src, old(self)@.pos) {
                Ok((c, n)) => r == Ok::<char, LexError>(c) && final(self)@.pos == old(self)@.pos
                    + n && final(self)@.col == old(self)@.col + n,
                Err(e) => r == Err::<char, LexError>(e) && *final(self) == *old(self),
            },
    {
        let ch = self.input[self.pos];
        if ch == '\\' {
            if self.pos + 1 >= self.input.len() {
                Err(LexError::UnterminatedLiteral)
            } else {
                match escape_value_char(self.input[self.pos + 1]) {
                    Some(c) => {
                        self.pos = self.pos + 2;
                        self.col = self.col + 2;
                        Ok(c)
                    },
                    None => Err(LexError::InvalidEscape),
                }
            }
        } else {
            self.pos = self.pos + 1;
            self.col = self.col + 1;
            Ok(ch)
        }
    }

    /// Consumes the identifier run that starts at the lookahead: the
    /// lookahead character itself, then the maximal run of
    /// identifier-continue characters after it.
    fn scan_ident_run(&mut self) -> (text: String)
        requires
            old(self).wf(),
            old(self)@.pos < old(self)@.src.len(),
        ensures
            final(self).wf(),
            final(self)@.src == old(self)@.src,
            final(self)@.reset == old(self)@.reset,
            final(self)@.line == old(self)@.line,
            final(self)@.pos == ident_end(old(self)@.src, old(self)@.pos + 1),
            old(self)@.pos < final(self)@.pos <= final(self)@.src.len(),
            text@ == old(self)@.src.subrange(old(self)@.pos, final(self)@.pos),
            final(self)@.col == old(self)@.col + (final(self)@.pos - old(self)@.pos),
    {
        let ghost s0 = *self;
        let mut text = String::new();
        text.push(self.input[self.pos]);
        self.pos = self.pos + 1;
        self.col = self.col + 1;
        proof {
            assert(text@ =~= s0@.src.subrange(s0@.pos, self@.pos));
        }
        loop
            invariant
                self.wf(),
                self@.src == s0@.src,
                self@.reset == s0@.reset,
                self@.line == s0@.line,
                s0@.pos < self@.pos <= self@.src.len(),
                ident_end(s0@.src, s0@.pos + 1) == ident_end(self@.src, self@.pos),
                text@ == s0@.src.subrange(s0@.pos, self@.pos),
                self@.col == s0@.col + (self@.pos - s0@.pos),
            ensures
                self@.pos == ident_end(s0@.src, s0@.pos + 1),
                text@ == s0@.src.subrange(s0@.pos, self@.pos),
            decreases self@.src.len() - self@.pos,
        {
            if self.pos >= self.input.len() {
                break;
            }
            let ch = self.input[self.pos];
            if is_xid_continue_char(ch) {
                text.push(ch);
                self.pos = self.pos + 1;
                self.col = self.col + 1;
                proof {
                    assert(text@ =~= s0@.src.subrange(s0@.pos, self@.pos));
                }
            } else {
                break;
            }
        }
        text
    }

    /// Produces the next token; `None` once the input (after any trailing
    /// trivia) is exhausted; or the fatal error that ends the session.
    ///
    /// The whole behaviour — which token, its decoded payload, its line and
    /// column extent, and where the cursor stands afterwards — is the
    /// mathematical scanner's [`scan_next`], stated by [`next_post`]. After
    /// an error the cursor stands at the end of the input, so every later
    /// call returns `None`.
    pub fn next(&mut self) -> (r: Option<Result<Token, LexError>>)
        requires
            old(self).wf(),
        ensures
            final(self).wf(),
            final(self)@.src == old(self)@.src,
            final(self)@.reset == old(self)@.reset,
            next_post(old(self)@, final(self)@, r),
    {
        self.skip_trivia_exec();
        if self.pos >= self.input.len() {
            return None;
        }
        let ghost pre = self@;
        let c = self.input[self.pos];
        let line = self.line;
        let col = self.col;
        if c == '=' || c == ':' || c == '!' {
            self.pos = self.pos + 1;
            self.col = self.col + 1;
            let two: bool = if self.pos < self.input.len() {
                let d = self.input[self.pos];
                (c == '=' && (d == '>' || d == '=')) || (c == ':' && d == ':') || (c == '!' && d
                    == '=')
            } else {
                false
            };
            if two {
                let d = self.input[self.pos];
                self.pos = self.pos + 1;
                self.col = self.col + 1;
                let content = if c == '=' && d == '>' {
                    TokenContent::Arrow
                } else if c == '=' {
                    TokenContent::Equals
                } else if c == ':' {
                    TokenContent::Scope
                } else {
                    TokenContent::UnEqual
                };
                Some(Ok(Token { content, line, start: col, end: self.col }))
            } else {
                Some(Ok(Token { content: TokenContent::Other(c), line, start: col, end: self.col }))
            }
        } else if c == '\'' {
            self.pos = self.pos + 1;
            self.col = self.col + 1;
            if self.pos >= self.input.len() {
                return Some(Err(LexError::UnterminatedLiteral));
            }
            let c1 = self.input[self.pos];
            if is_xid_start_char(c1) || c1 == '_' {
                let id_start = self.pos;
                let text = self.scan_ident_run();
                if self.pos - id_start > 1 || self.pos >= self.input.len() || self.input[self.pos]
                    != '\'' {
                    Some(Ok(Token { content: TokenContent::Lifetime(text), line, start: col, end: self.col }))
                } else {
                    self.pos = self.pos + 1;
                    self.col = self.col + 1;
                    Some(Ok(Token { content: TokenContent::Char(c1), line, start: col, end: self.col }))
                }
            } else {
                match self.decode_one_exec() {
                    Err(e) => {
                        self.pos = self.input.len();
                        Some(Err(e))
                    },
                    Ok(dc) => {
                        if self.pos >= self.input.len() {
                            Some(Err(LexError::UnterminatedLiteral))
                        } else {
                            let q = self.input[self.pos];
                            if q == '\'' {
                                self.pos = self.pos + 1;
                                self.col = self.col + 1;
                                Some(Ok(Token { content: TokenContent::Char(dc), line, start: col, end: self.col }))
                            } else {
                                self.pos = self.input.len();
                                Some(Err(LexError::UnclosedCharLiteral))
                            }
                        }
                    },
                }
            }
        } else if c == '"' {
            self.pos = self.pos + 1;
            self.col = self.col + 1;
            let mut text = String::new();
            loop
                invariant_except_break
                    (scan_string_body(pre.src, pre.pos + 1, Seq::empty()) == scan_string_body(
                        self@.src,
                        self@.pos,
                        text@,
                    )),
                invariant
                    self.wf(),
                    self@.src == pre.src,
                    self@.reset == pre.reset,
                    self@.line == pre.line,
                    pre.pos < self@.pos <= self@.src.len(),
                    self@.col == pre.col + (self@.pos - pre.pos),
                    old(self)@.src == pre.src,
                    old(self)@.reset == pre.reset,
                    old(self).wf(),
                    pre.pos < pre.src.len(),
                    pre.src[pre.pos] == '"',
                    (scan_next(
                        old(self)@.src,
                        old(self)@.pos,
                        old(self)@.line,
                        old(self)@.col,
                        old(self)@.reset,
                    ) == scan_token(pre.src, pre.pos, pre.line, pre.col)),
                ensures
                    (scan_string_body(pre.src, pre.pos + 1, Seq::empty()) == Ok::<
                        (Seq<char>, int),
                        LexError,
                    >((text@, self@.pos))),
                decreases self@.src.len() - self@.pos,
            {
                if self.pos >= self.input.len() {
                    return Some(Err(LexError::UnterminatedLiteral));
                }
                let ch = self.input[self.pos];
                if ch == '"' {
                    self.pos = self.pos + 1;
                    self.col = self.col + 1;
                    break;
                }
                match self.decode_one_exec() {
                    Ok(dc) => {
                        text.push(dc);
                    },
                    Err(e) => {
                        self.pos = self.input.len();
                        return Some(Err(e));
                    },
                }
            }
            Some(Ok(Token { content: TokenContent::StringLiteral(text), line, start: col, end: self.col }))
        } else if c == '/' {
            self.pos = self.pos + 1;
            self.col = self.col + 1;
            Some(Ok(Token { content: TokenContent::Other(c), line, start: col, end: self.col }))
        } else if is_xid_start_char(c) || c == '_' {
            let text = self.scan_ident_run();
            Some(Ok(Token { content: TokenContent::Identifier(text), line, start: col, end: self.col }))
        } else {
            self.pos = self.pos + 1;
            self.col = self.col + 1;
            Some(Ok(Token { content: TokenContent::Other(c), line, start: col, end: self.col }))
        }
    }

    /// Drives the scanner to exhaustion: every token of the input in
    /// order, or the first fatal error, in which case no token is handed
    /// out. The token images are exactly [`scan_all`] of the starting
    /// state, and the call succeeds exactly when [`scan_outcome`] of that
    /// state is `None`.
    pub fn tokenize(&mut self) -> (r: Result<Vec<Token>, LexError>)
        requires
            old(self).wf(),
        ensures
            final(self).wf(),
            final(self)@.src == old(self)@.src,
            final(self)@.reset == old(self)@.reset,
            final(self)@.pos == final(self)@.src.len(),
            (match r {
                Ok(ts) => ts@.map_values(|t: Token| t@) == scan_all(
                    old(self)@.src,
                    old(self)@.pos,
                    old(self)@.line,
                    old(self)@.col,
                    old(self)@.reset,
                ) && scan_outcome(
                    old(self)@.src,
                    old(self)@.pos,
                    old(self)@.line,
                    old(self)@.col,
                    old(self)@.reset,
                ) is None,
                Err(e) => scan_outcome(
                    old(self)@.src,
                    old(self)@.pos,
                    old(self)@.line,
                    old(self)@.col,
                    old(self)@.reset,
                ) == Some(e),
            }),
    {
        let ghost o = self@;
        let mut out: Vec<Token> = Vec::new();
        loop
            invariant
                o == old(self)@,
                self.wf(),
                self@.src == o.src,
                self@.reset == o.reset,
                old(self).wf(),
                (scan_all(o.src, o.pos, o.line, o.col, o.reset) == out@.map_values(|t: Token| t@)
                    + scan_all(self@.src, self@.pos, self@.line, self@.col, self@.reset)),
                (scan_outcome(o.src, o.pos, o.line, o.col, o.reset) == scan_outcome(
                    self@.src,
                    self@.pos,
                    self@.line,
                    self@.col,
                    self@.reset,
                )),
            ensures
                (scan_outcome(o.src, o.pos, o.line, o.col, o.reset) is None),
                (scan_all(o.src, o.pos, o.line, o.col, o.reset) == out@.map_values(
                    |t: Token| t@,
                )),
                self@.pos == self@.src.len(),
            decreases self@.src.len() - self@.pos,
        {
            let ghost cur = self@;
            let ghost prior = out@;
            match self.next() {
                None => {
                    break ;
                },
                Some(Ok(token)) => {
                    out.push(token);
                    proof {
                        lemma_scan_next_progress(cur.src, cur.pos, cur.line, cur.col, cur.reset);
                        assert(out@.map_values(|t: Token| t@) =~= prior.map_values(|t: Token| t@)
                            + seq![token@]);
                    }
                },
                Some(Err(e)) => {
                    return Err(e);
                },
            }
        }
        Ok(out)
    }
}

} // verus!
