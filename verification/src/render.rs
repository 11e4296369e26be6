//! Human-readable rendering: the canonical display form of each token
//! content — quoted symbol for operators, raw text for identifiers, an
//! apostrophe before a lifetime, quoted text for literals — and of a whole
//! token as `line:start-end: content`.

use vstd::prelude::*;

use crate::token::ContentM;
use crate::token::Token;
use crate::token::TokenContent;
use crate::token::TokenM;

verus! {

/// The character for one decimal digit.
pub open spec fn digit_char(d: int) -> char {
    if d == 0 {
        '0'
    } else if d == 1 {
        '1'
    } else if d == 2 {
        '2'
    } else if d == 3 {
        '3'
    } else if d == 4 {
        '4'
    } else if d == 5 {
        '5'
    } else if d == 6 {
        '6'
    } else if d == 7 {
        '7'
    } else if d == 8 {
        '8'
    } else {
        '9'
    }
}

/// The decimal representation of `n`, most significant digit first, with
/// no leading zero except for `0` itself.
pub open spec fn dec_rep(n: int) -> Seq<char>
    decreases n,
    when n >= 0
    via dec_rep_dec
{
    if n < 10 {
        seq![digit_char(n)]
    } else {
        dec_rep(n / 10).push(digit_char(n % 10))
    }
}

#[via_fn]
proof fn dec_rep_dec(n: int) {
    if n >= 10 {
        assert(n / 10 < n) by (nonlinear_arith)
            requires
                n >= 10,
        ;
    }
}

/// The canonical display form of one token content.
pub open spec fn content_rep(c: ContentM) -> Seq<char> {
    match c {
        ContentM::Identifier(s) => s,
        ContentM::Lifetime(s) => seq!['\''] + s,
        ContentM::StringLiteral(s) => seq!['"'] + s + seq!['"'],
        ContentM::Arrow => seq!['\'', '=', '>', '\''],
        ContentM::Equals => seq!['\'', '=', '=', '\''],
        ContentM::Scope => seq!['\'', ':', ':', '\''],
        ContentM::UnEqual => seq!['\'', '!', '=', '\''],
        ContentM::Char(ch) => seq!['\'', ch, '\''],
        ContentM::Other(ch) => seq!['o', 't', 'h', 'e', 'r', ':', ' ', '\'', ch, '\''],
    }
}

/// The display form of a whole token: `line:start-end: content`.
pub open spec fn token_rep(t: TokenM) -> Seq<char> {
    dec_rep(t.line) + seq![':'] + dec_rep(t.start) + seq!['-'] + dec_rep(t.end) + seq![':', ' ']
        + content_rep(t.content)
}

/// The character for the decimal digit `d`.
fn digit_char_exec(d: usize) -> (r: char)
    requires
        d < 10,
    ensures
        r == digit_char(d as int),
{
    if d == 0 {
        '0'
    } else if d == 1 {
        '1'
    } else if d == 2 {
        '2'
    } else if d == 3 {
        '3'
    } else if d == 4 {
        '4'
    } else if d == 5 {
        '5'
    } else if d == 6 {
        '6'
    } else if d == 7 {
        '7'
    } else if d == 8 {
        '8'
    } else {
        '9'
    }
}

/// Appends the decimal representation of `n` to `out`.
fn push_dec(n: usize, out: &mut String)
    ensures
        final(out)@ == old(out)@ + dec_rep(n as int),
    decreases n,
{
    if n >= 10 {
        proof {
            assert(n / 10 < n) by (nonlinear_arith)
                requires
                    n >= 10,
            ;
        }
        push_dec(n / 10, out);
    }
    out.push(digit_char_exec(n % 10));
    proof {
        if n < 10 {
            assert(n % 10 == n);
        }
        assert(out@ =~= old(out)@ + dec_rep(n as int));
    }
}

impl TokenContent {
    /// The canonical display form of this content, as [`content_rep`] says.
    pub fn render(&self) -> (r: String)
        ensures
            r@ == content_rep(self@),
    {
        match self {
            TokenContent::Identifier(s) => s.clone(),
            TokenContent::Lifetime(s) => {
                let mut out = String::new();
                out.push('\'');
                out.push_str(s.as_str());
                proof {
                    assert(out@ =~= content_rep(self@));
                }
                out
            },
            TokenContent::StringLiteral(s) => {
                let mut out = String::new();
                out.push('"');
                out.push_str(s.as_str());
                out.push('"');
                proof {
                    assert(out@ =~= content_rep(self@));
                }
                out
            },
            TokenContent::Arrow => {
                let mut out = String::new();
                out.push('\'');
                out.push('=');
                out.push('>');
                out.push('\'');
                proof {
                    assert(out@ =~= content_rep(self@));
                }
                out
            },
            TokenContent::Equals => {
                let mut out = String::new();
                out.push('\'');
                out.push('=');
                out.push('=');
                out.push('\'');
                proof {
                    assert(out@ =~= content_rep(self@));
                }
                out
            },
            TokenContent::Scope => {
                let mut out = String::new();
                out.push('\'');
                out.push(':');
                out.push(':');
                out.push('\'');
                proof {
                    assert(out@ =~= content_rep(self@));
                }
                out
            },
            TokenContent::UnEqual => {
                let mut out = String::new();
                out.push('\'');
                out.push('!');
                out.push('=');
                out.push('\'');
                proof {
                    assert(out@ =~= content_rep(self@));
                }
                out
            },
            TokenContent::Char(ch) => {
                let mut out = String::new();
                out.push('\'');
                out.push(*ch);
                out.push('\'');
                proof {
                    assert(out@ =~= content_rep(self@));
                }
                out
            },
            TokenContent::Other(ch) => {
                let mut out = String::new();
                out.push('o');
                out.push('t');
                out.push('h');
                out.push('e');
                out.push('r');
                out.push(':');
                out.push(' ');
                out.push('\'');
                out.push(*ch);
                out.push('\'');
                proof {
                    assert(out@ =~= content_rep(self@));
                }
                out
            },
        }
    }
}

impl Token {
    /// The display form `line:start-end: content`, as [`token_rep`] says.
    pub fn render(&self) -> (r: String)
        ensures
            r@ == token_rep(self@),
    {
        let mut out = String::new();
        push_dec(self.line, &mut out);
        out.push(':');
        push_dec(self.start, &mut out);
        out.push('-');
        push_dec(self.end, &mut out);
        out.push(':');
        out.push(' ');
        let c = self.content.render();
        out.push_str(c.as_str());
        proof {
            assert(out@ =~= token_rep(self@));
        }
        out
    }
}

} // verus!
