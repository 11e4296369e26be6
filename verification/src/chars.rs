//! Character classes the scanner dispatches on — white space, the
//! identifier classes, the escape-sequence table — and the trusted
//! contracts for building payload strings character by character.

use vstd::prelude::*;

verus! {

/// The Unicode `White_Space` code points. Characters in this class separate
/// tokens and are skipped as trivia.
pub open spec fn is_ws(c: char) -> bool {
    let u = c as u32;
    (0x09 <= u && u <= 0x0d) || u == 0x20 || u == 0x85 || u == 0xa0 || u == 0x1680 || (0x2000
        <= u && u <= 0x200a) || u == 0x2028 || u == 0x2029 || u == 0x202f || u == 0x205f || u
        == 0x3000
}

/// Decides [`is_ws`].
pub fn is_ws_char(c: char) -> (r: bool)
    ensures
        r == is_ws(c),
{
    let u = c as u32;
    (0x09 <= u && u <= 0x0d) || u == 0x20 || u == 0x85 || u == 0xa0 || u == 0x1680 || (0x2000
        <= u && u <= 0x200a) || u == 0x2028 || u == 0x2029 || u == 0x202f || u == 0x205f || u
        == 0x3000
}

/// Whether `c` may start an identifier: the Unicode `XID_Start` class.
pub uninterp spec fn xid_start(c: char) -> bool;

/// Whether `c` may continue an identifier: the Unicode `XID_Continue` class.
pub uninterp spec fn xid_continue(c: char) -> bool;

/// Relies on `unicode_xid::UnicodeXID::is_xid_start`: whether `c` has the
/// Unicode `XID_Start` property, a function of `c` alone.
#[verifier::external_body]
pub(crate) fn is_xid_start_char(c: char) -> (r: bool)
    ensures
        r == xid_start(c),
{
    unicode_xid::UnicodeXID::is_xid_start(c)
}

/// Relies on `unicode_xid::UnicodeXID::is_xid_continue`: whether `c` has the
/// Unicode `XID_Continue` property, a function of `c` alone.
#[verifier::external_body]
pub(crate) fn is_xid_continue_char(c: char) -> (r: bool)
    ensures
        r == xid_continue(c),
{
    unicode_xid::UnicodeXID::is_xid_continue(c)
}

/// Relies on `String::push`: appends the given character to the end of the
/// string.
pub assume_specification[ String::push ](s: &mut String, ch: char)
    ensures
        final(s)@ == old(s)@.push(ch),
;

/// Relies on `String::push_str`: appends the given string slice to the end
/// of the string.
pub assume_specification[ String::push_str ](s: &mut String, other: &str)
    ensures
        final(s)@ == old(s)@ + other@,
;

/// The escape table: what the character after a backslash decodes to, or
/// `None` where it introduces no recognized escape. The `u`-introduced
/// Unicode escape is not part of the recognized set: it is rejected as an
/// invalid escape.
pub open spec fn escape_value(c: char) -> Option<char> {
    if c == '\\' {
        Some('\\')
    } else if c == '\'' {
        Some('\'')
    } else if c == '"' {
        Some('"')
    } else if c == 'n' {
        Some('\n')
    } else if c == 't' {
        Some('\t')
    } else {
        None
    }
}

/// Decides [`escape_value`].
pub fn escape_value_char(c: char) -> (r: Option<char>)
    ensures
        r == escape_value(c),
{
    if c == '\\' {
        Some('\\')
    } else if c == '\'' {
        Some('\'')
    } else if c == '"' {
        Some('"')
    } else if c == 'n' {
        Some('\n')
    } else if c == 't' {
        Some('\t')
    } else {
        None
    }
}

} // verus!
