//! The mathematical model of the tokenizer: where each token starts and ends,
//! which kind it carries, and the token stream an input decomposes into.
//!
//! The rule table is priority-ordered: at each position the highest-priority
//! pattern that matches wins, and among equal-priority matches the longer one
//! wins. Because the character classes of the table are disjoint, the winning
//! rule is determined by the first character, except after a backslash, where
//! a literal `\\` outranks the command-name rule.

use vstd::prelude::*;

use crate::classes::is_inline_space_char;
use crate::classes::is_line_break_char;
use crate::classes::is_name_cont_char;
use crate::classes::is_name_start_char;
use crate::classes::is_space_char;
use crate::classes::is_word_char;
use crate::token::BraceKind;
use crate::token::CommandName;
use crate::token::Token;
use crate::token::classify_name;

verus! {

/// The end of the run of characters satisfying `p` that starts at `i`.
pub open spec fn run_end(s: Seq<char>, i: int, p: spec_fn(char) -> bool) -> int
    decreases s.len() - i,
{
    if 0 <= i < s.len() && p(s[i]) {
        run_end(s, i + 1, p)
    } else {
        i
    }
}

/// A run never moves backwards, stays inside the input, and ends exactly where
/// its character class first fails.
pub proof fn lemma_run_end_bounds(s: Seq<char>, i: int, p: spec_fn(char) -> bool)
    requires
        0 <= i <= s.len(),
    ensures
        i <= run_end(s, i, p) <= s.len(),
        forall|k: int| i <= k < run_end(s, i, p) ==> p(#[trigger] s[k]),
        run_end(s, i, p) < s.len() ==> !p(s[run_end(s, i, p)]),
    decreases s.len() - i,
{
    if i < s.len() && p(s[i]) {
        lemma_run_end_bounds(s, i + 1, p);
    }
}

/// A position bounding a block of `p`-characters from above is the run's end.
pub proof fn lemma_run_end_is(s: Seq<char>, i: int, j: int, p: spec_fn(char) -> bool)
    requires
        0 <= i <= j <= s.len(),
        forall|k: int| i <= k < j ==> p(#[trigger] s[k]),
        j == s.len() || !p(s[j]),
    ensures
        run_end(s, i, p) == j,
    decreases j - i,
{
    if i < j {
        lemma_run_end_is(s, i + 1, j, p);
    }
}

/// The class of characters a `LineBreak` token is a run of.
pub open spec fn line_break_pred() -> spec_fn(char) -> bool {
    |c: char| is_line_break_char(c)
}

/// The class of characters a `Whitespace` token is a run of.
pub open spec fn inline_space_pred() -> spec_fn(char) -> bool {
    |c: char| is_inline_space_char(c)
}

/// The class of characters a `LineComment` token runs over after its `%`.
pub open spec fn comment_body_pred() -> spec_fn(char) -> bool {
    |c: char| !is_line_break_char(c)
}

/// The class of characters a `Word` token is a run of.
pub open spec fn word_pred() -> spec_fn(char) -> bool {
    |c: char| is_word_char(c)
}

/// The end of a command name whose start character has been accepted:
/// `i` is the first position after that start character.
pub open spec fn name_end(s: Seq<char>, i: int) -> int
    decreases s.len() - i,
{
    if 0 <= i < s.len() {
        if s[i] == '*' {
            i + 1
        } else if is_name_cont_char(s[i]) {
            name_end(s, i + 1)
        } else {
            i
        }
    } else {
        i
    }
}

/// Bounds for [`name_end`].
pub proof fn lemma_name_end_bounds(s: Seq<char>, i: int)
    requires
        0 <= i <= s.len(),
    ensures
        i <= name_end(s, i) <= s.len(),
    decreases s.len() - i,
{
    if i < s.len() && s[i] != '*' && is_name_cont_char(s[i]) {
        lemma_name_end_bounds(s, i + 1);
    }
}

/// The end of a command token whose backslash stands at `i`: a lone backslash
/// before whitespace or at the end of input, a single-character symbolic
/// escape, or a name of alphanumeric, `@` and `:` characters, optionally
/// closed by one `*`.
pub open spec fn command_end(s: Seq<char>, i: int) -> int {
    if i + 1 >= s.len() || is_space_char(s[i + 1]) {
        i + 1
    } else if !is_name_start_char(s[i + 1]) {
        i + 2
    } else {
        name_end(s, i + 2)
    }
}

/// The kind the scanner itself assigns to the token starting at `i`; every
/// command token is raw `Generic` until command classification replaces it.
pub open spec fn raw_token_at(s: Seq<char>, i: int) -> Token {
    let c = s[i];
    if is_line_break_char(c) {
        Token::LineBreak
    } else if is_space_char(c) {
        Token::Whitespace
    } else if c == '%' {
        Token::LineComment
    } else if c == '{' {
        Token::Left(BraceKind::Curly)
    } else if c == '[' {
        Token::Left(BraceKind::Bracket)
    } else if c == '(' {
        Token::Left(BraceKind::Paren)
    } else if c == '}' {
        Token::Right(BraceKind::Curly)
    } else if c == ']' {
        Token::Right(BraceKind::Bracket)
    } else if c == ')' {
        Token::Right(BraceKind::Paren)
    } else if c == ',' {
        Token::Comma
    } else if c == '~' {
        Token::Tilde
    } else if c == '/' {
        Token::Divide
    } else if c == '=' {
        Token::Equal
    } else if c == '&' {
        Token::And
    } else if c == '^' {
        Token::Caret
    } else if c == '\'' {
        Token::Apostrophe
    } else if c == '_' {
        Token::Underline
    } else if c == '$' {
        Token::Dollar
    } else if c == '\\' {
        if i + 1 < s.len() && s[i + 1] == '\\' {
            Token::NewLine
        } else {
            Token::CommandName(CommandName::Generic)
        }
    } else {
        Token::Word
    }
}

/// Where the token starting at `i` ends. A `&` opens an `And` token of its
/// own, yet continues a `Word` run that began earlier: the rule that wins at
/// `i` is decided first, and only then is its extent measured.
pub open spec fn token_end_at(s: Seq<char>, i: int) -> int {
    match raw_token_at(s, i) {
        Token::LineBreak => run_end(s, i, line_break_pred()),
        Token::Whitespace => run_end(s, i, inline_space_pred()),
        Token::LineComment => run_end(s, i + 1, comment_body_pred()),
        Token::Word => run_end(s, i, word_pred()),
        Token::Dollar => if i + 1 < s.len() && s[i + 1] == '$' {
            i + 2
        } else {
            i + 1
        },
        Token::NewLine => i + 2,
        Token::CommandName(_) => command_end(s, i),
        _ => i + 1,
    }
}

/// The kind exposed for the token starting at `i`: the raw kind, with a
/// generic command reclassified by its name.
pub open spec fn token_at(s: Seq<char>, i: int) -> Token {
    if raw_token_at(s, i) == Token::CommandName(CommandName::Generic) {
        Token::CommandName(classify_name(s.subrange(i + 1, token_end_at(s, i))))
    } else {
        raw_token_at(s, i)
    }
}

/// Every token covers at least one character and stays inside the input.
pub proof fn lemma_token_end_bounds(s: Seq<char>, i: int)
    requires
        0 <= i < s.len(),
    ensures
        i < token_end_at(s, i) <= s.len(),
{
    match raw_token_at(s, i) {
        Token::LineBreak => lemma_run_end_bounds(s, i, line_break_pred()),
        Token::Whitespace => lemma_run_end_bounds(s, i, inline_space_pred()),
        Token::LineComment => lemma_run_end_bounds(s, i + 1, comment_body_pred()),
        Token::Word => lemma_run_end_bounds(s, i, word_pred()),
        Token::CommandName(_) => {
            if i + 1 < s.len() && !is_space_char(s[i + 1]) && is_name_start_char(s[i + 1]) {
                lemma_name_end_bounds(s, i + 2);
            }
        },
        _ => {},
    }
}

/// The token stream of the input from position `i` on: each element pairs a
/// token kind with the text it covers.
pub open spec fn token_seq(s: Seq<char>, i: int) -> Seq<(Token, Seq<char>)>
    decreases s.len() - i when 0 <= i <= s.len() via token_seq_decreases
{
    if i < s.len() {
        seq![(token_at(s, i), s.subrange(i, token_end_at(s, i)))] + token_seq(
            s,
            token_end_at(s, i),
        )
    } else {
        seq![]
    }
}

#[via_fn]
proof fn token_seq_decreases(s: Seq<char>, i: int) {
    if 0 <= i < s.len() {
        lemma_token_end_bounds(s, i);
    }
}

/// The concatenation of the texts of a token stream.
pub open spec fn concat_texts(toks: Seq<(Token, Seq<char>)>) -> Seq<char>
    decreases toks.len(),
{
    if toks.len() == 0 {
        Seq::empty()
    } else {
        toks[0].1 + concat_texts(toks.drop_first())
    }
}

/// Concatenating the texts of the token stream from `i` restores the input
/// from `i` on.
pub proof fn lemma_token_seq_covers(s: Seq<char>, i: int)
    requires
        0 <= i <= s.len(),
    ensures
        concat_texts(token_seq(s, i)) == s.subrange(i, s.len() as int),
    decreases s.len() - i,
{
    if i < s.len() {
        let e = token_end_at(s, i);
        lemma_token_end_bounds(s, i);
        lemma_token_seq_covers(s, e);
        assert(token_seq(s, i).drop_first() =~= token_seq(s, e));
        assert(s.subrange(i, e) + s.subrange(e, s.len() as int) =~= s.subrange(
            i,
            s.len() as int,
        ));
    } else {
        assert(concat_texts(token_seq(s, i)) =~= s.subrange(i, s.len() as int));
    }
}

/// Losslessness: for every input, concatenating, in order, the text of every
/// token of its token stream reproduces the input exactly — every character
/// belongs to exactly one token.
pub proof fn lemma_token_seq_lossless(s: Seq<char>)
    ensures
        concat_texts(token_seq(s, 0)) == s,
{
    lemma_token_seq_covers(s, 0);
    assert(s.subrange(0, s.len() as int) =~= s);
}

} // verus!
