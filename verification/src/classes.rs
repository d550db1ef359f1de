//! Character classes the rule table is built from.

use vstd::prelude::*;

verus! {

/// A line-break character: carriage return or line feed.
pub open spec fn is_line_break_char(c: char) -> bool {
    c == '\r' || c == '\n'
}

/// A whitespace character, per the Unicode `White_Space` property.
pub open spec fn is_space_char(c: char) -> bool {
    ||| c == ' '
    ||| c == '\t'
    ||| c == '\n'
    ||| c == '\r'
    ||| c == '\u{b}'
    ||| c == '\u{c}'
    ||| c == '\u{85}'
    ||| c == '\u{a0}'
    ||| c == '\u{1680}'
    ||| ('\u{2000}' <= c && c <= '\u{200a}')
    ||| c == '\u{2028}'
    ||| c == '\u{2029}'
    ||| c == '\u{202f}'
    ||| c == '\u{205f}'
    ||| c == '\u{3000}'
}

/// A whitespace character that is not a line break.
pub open spec fn is_inline_space_char(c: char) -> bool {
    is_space_char(c) && !is_line_break_char(c)
}

/// A character that continues a `Word` token: anything but whitespace and the
/// characters that open a token of their own.
pub open spec fn is_word_char(c: char) -> bool {
    &&& !is_space_char(c)
    &&& c != '\\'
    &&& c != '%'
    &&& c != '{'
    &&& c != '}'
    &&& c != ','
    &&& c != '$'
    &&& c != '['
    &&& c != ']'
    &&& c != '('
    &&& c != ')'
    &&& c != '~'
    &&& c != '/'
    &&& c != '='
    &&& c != '_'
    &&& c != '\''
    &&& c != '^'
}

/// Whether a character counts as alphanumeric for command names.
pub uninterp spec fn alphanumeric(c: char) -> bool;

/// Relies on `char::is_alphanumeric`: whether the character is a Unicode
/// letter, numeric digit, or other alphanumeric character; a function of the
/// character alone.
#[verifier::external_body]
pub(crate) fn char_is_alphanumeric(c: char) -> (r: bool)
    ensures
        r == alphanumeric(c),
{
    c.is_alphanumeric()
}

/// A character that may start a command name after the backslash.
pub open spec fn is_name_start_char(c: char) -> bool {
    alphanumeric(c) || c == '@'
}

/// A character that may continue a command name.
pub open spec fn is_name_cont_char(c: char) -> bool {
    alphanumeric(c) || c == '@' || c == ':'
}

/// Decide [`is_line_break_char`].
pub fn char_is_line_break(c: char) -> (r: bool)
    ensures
        r == is_line_break_char(c),
{
    c == '\r' || c == '\n'
}

/// Decide [`is_space_char`].
pub fn char_is_space(c: char) -> (r: bool)
    ensures
        r == is_space_char(c),
{
    c == ' ' || c == '\t' || c == '\n' || c == '\r' || c == '\u{b}' || c == '\u{c}' || c
        == '\u{85}' || c == '\u{a0}' || c == '\u{1680}' || ('\u{2000}' <= c && c <= '\u{200a}') || c
        == '\u{2028}' || c == '\u{2029}' || c == '\u{202f}' || c == '\u{205f}' || c == '\u{3000}'
}

/// Decide [`is_inline_space_char`].
pub fn char_is_inline_space(c: char) -> (r: bool)
    ensures
        r == is_inline_space_char(c),
{
    char_is_space(c) && !char_is_line_break(c)
}

/// Decide [`is_word_char`].
pub fn char_is_word(c: char) -> (r: bool)
    ensures
        r == is_word_char(c),
{
    !char_is_space(c) && c != '\\' && c != '%' && c != '{' && c != '}' && c != ',' && c != '$' && c
        != '[' && c != ']' && c != '(' && c != ')' && c != '~' && c != '/' && c != '=' && c != '_'
        && c != '\'' && c != '^'
}

/// Decide [`is_name_start_char`].
pub fn char_is_name_start(c: char) -> (r: bool)
    ensures
        r == is_name_start_char(c),
{
    char_is_alphanumeric(c) || c == '@'
}

/// Decide [`is_name_cont_char`].
pub fn char_is_name_cont(c: char) -> (r: bool)
    ensures
        r == is_name_cont_char(c),
{
    char_is_alphanumeric(c) || c == '@' || c == ':'
}

} // verus!
