//! The executable token classifier: given a cursor position in the input it
//! produces the next raw token and the position where that token ends, exactly
//! as the model in [`crate::model`] prescribes.

use vstd::prelude::*;

use crate::classes::char_is_inline_space;
use crate::classes::char_is_line_break;
use crate::classes::char_is_name_cont;
use crate::classes::char_is_name_start;
use crate::classes::char_is_space;
use crate::classes::char_is_word;
use crate::classes::is_inline_space_char;
use crate::classes::is_line_break_char;
use crate::classes::is_word_char;
use crate::model::command_end;
use crate::model::comment_body_pred;
use crate::model::inline_space_pred;
use crate::model::lemma_run_end_is;
use crate::model::lemma_token_end_bounds;
use crate::model::line_break_pred;
use crate::model::name_end;
use crate::model::raw_token_at;
use crate::model::run_end;
use crate::model::token_end_at;
use crate::model::word_pred;
use crate::token::BraceKind;
use crate::token::CommandName;
use crate::token::Token;

verus! {

/// The end of the run of `\r`/`\n` characters starting at `i`.
fn scan_line_break_run(s: &str, n: usize, i: usize) -> (j: usize)
    requires
        n == s@.len(),
        i < n,
        is_line_break_char(s@[i as int]),
    ensures
        j as int == run_end(s@, i as int, line_break_pred()),
        i < j <= n,
{
    let mut j: usize = i + 1;
    while j < n && char_is_line_break(s.get_char(j))
        invariant
            n == s@.len(),
            i < j <= n,
            forall|k: int| i <= k < j ==> is_line_break_char(#[trigger] s@[k]),
        decreases n - j,
    {
        j += 1;
    }
    proof {
        lemma_run_end_is(s@, i as int, j as int, line_break_pred());
    }
    j
}

/// The end of the run of non-line-break whitespace starting at `i`.
fn scan_inline_space_run(s: &str, n: usize, i: usize) -> (j: usize)
    requires
        n == s@.len(),
        i < n,
        is_inline_space_char(s@[i as int]),
    ensures
        j as int == run_end(s@, i as int, inline_space_pred()),
        i < j <= n,
{
    let mut j: usize = i + 1;
    while j < n && char_is_inline_space(s.get_char(j))
        invariant
            n == s@.len(),
            i < j <= n,
            forall|k: int| i <= k < j ==> is_inline_space_char(#[trigger] s@[k]),
        decreases n - j,
    {
        j += 1;
    }
    proof {
        lemma_run_end_is(s@, i as int, j as int, inline_space_pred());
    }
    j
}

/// The end of a line comment whose `%` stands at `i`: everything up to, and
/// excluding, the next line break.
fn scan_comment_body(s: &str, n: usize, i: usize) -> (j: usize)
    requires
        n == s@.len(),
        i < n,
    ensures
        j as int == run_end(s@, i as int + 1, comment_body_pred()),
        i < j <= n,
{
    let mut j: usize = i + 1;
    while j < n && !char_is_line_break(s.get_char(j))
        invariant
            n == s@.len(),
            i < j <= n,
            forall|k: int| i + 1 <= k < j ==> !is_line_break_char(#[trigger] s@[k]),
        decreases n - j,
    {
        j += 1;
    }
    proof {
        lemma_run_end_is(s@, i as int + 1, j as int, comment_body_pred());
    }
    j
}

/// The end of the run of word characters starting at `i`.
fn scan_word_run(s: &str, n: usize, i: usize) -> (j: usize)
    requires
        n == s@.len(),
        i < n,
        is_word_char(s@[i as int]),
    ensures
        j as int == run_end(s@, i as int, word_pred()),
        i < j <= n,
{
    let mut j: usize = i + 1;
    while j < n && char_is_word(s.get_char(j))
        invariant
            n == s@.len(),
            i < j <= n,
            forall|k: int| i <= k < j ==> is_word_char(#[trigger] s@[k]),
        decreases n - j,
    {
        j += 1;
    }
    proof {
        lemma_run_end_is(s@, i as int, j as int, word_pred());
    }
    j
}

/// The end of the command token whose backslash stands at `i`, per the TeX
/// escaping rules: an empty name before whitespace or at the end of input, a
/// one-character symbolic escape, or a run of name characters that one `*`
/// may close.
fn lex_command_name(s: &str, n: usize, i: usize) -> (j: usize)
    requires
        n == s@.len(),
        i < n,
    ensures
        j as int == command_end(s@, i as int),
        i < j <= n,
{
    // The input is exhausted right after the backslash: the name is empty.
    if i + 1 >= n {
        return i + 1;
    }
    let c = s.get_char(i + 1);
    // Whitespace is never part of a name: the name is empty.
    if char_is_space(c) {
        return i + 1;
    }
    // Any single character after the backslash is a legal escape; a character
    // that cannot start a name is the whole (symbolic) name, e.g. `\;`.
    if !char_is_name_start(c) {
        return i + 2;
    }
    // Scan the rest of the name; one `*` may close it.
    let mut j: usize = i + 2;
    loop
        invariant_except_break
            n == s@.len(),
            i + 2 <= j <= n,
            name_end(s@, i as int + 2) == name_end(s@, j as int),
        ensures
            i + 2 <= j <= n,
            name_end(s@, i as int + 2) == j as int,
        decreases n - j,
    {
        if j >= n {
            break ;
        }
        let c2 = s.get_char(j);
        if c2 == '*' {
            j += 1;
            break ;
        }
        if !char_is_name_cont(c2) {
            break ;
        }
        j += 1;
    }
    j
}

/// Classify and measure the token that starts at position `i`: the rule the
/// first character selects, with `\\` outranking the command-name rule, and
/// runs extended as far as their character class carries.
pub fn scan_token(s: &str, n: usize, i: usize) -> (r: (Token, usize))
    requires
        n == s@.len(),
        i < n,
    ensures
        r.0 == raw_token_at(s@, i as int),
        r.1 as int == token_end_at(s@, i as int),
        i < r.1 <= n,
{
    proof {
        lemma_token_end_bounds(s@, i as int);
    }
    let c = s.get_char(i);
    if char_is_line_break(c) {
        (Token::LineBreak, scan_line_break_run(s, n, i))
    } else if char_is_space(c) {
        (Token::Whitespace, scan_inline_space_run(s, n, i))
    } else if c == '%' {
        (Token::LineComment, scan_comment_body(s, n, i))
    } else if c == '{' {
        (Token::Left(BraceKind::Curly), i + 1)
    } else if c == '[' {
        (Token::Left(BraceKind::Bracket), i + 1)
    } else if c == '(' {
        (Token::Left(BraceKind::Paren), i + 1)
    } else if c == '}' {
        (Token::Right(BraceKind::Curly), i + 1)
    } else if c == ']' {
        (Token::Right(BraceKind::Bracket), i + 1)
    } else if c == ')' {
        (Token::Right(BraceKind::Paren), i + 1)
    } else if c == ',' {
        (Token::Comma, i + 1)
    } else if c == '~' {
        (Token::Tilde, i + 1)
    } else if c == '/' {
        (Token::Divide, i + 1)
    } else if c == '=' {
        (Token::Equal, i + 1)
    } else if c == '&' {
        (Token::And, i + 1)
    } else if c == '^' {
        (Token::Caret, i + 1)
    } else if c == '\'' {
        (Token::Apostrophe, i + 1)
    } else if c == '_' {
        (Token::Underline, i + 1)
    } else if c == '$' {
        if i + 1 < n && s.get_char(i + 1) == '$' {
            (Token::Dollar, i + 2)
        } else {
            (Token::Dollar, i + 1)
        }
    } else if c == '\\' {
        if i + 1 < n && s.get_char(i + 1) == '\\' {
            (Token::NewLine, i + 2)
        } else {
            (Token::CommandName(CommandName::Generic), lex_command_name(s, n, i))
        }
    } else {
        (Token::Word, scan_word_run(s, n, i))
    }
}

} // verus!
