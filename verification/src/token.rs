//! Token categories produced by the lexer, and the classification of command
//! names into the few commands the downstream parser must special-case.

use vstd::prelude::*;

verus! {

/// Which of `{}`, `[]`, `()` an opening or closing token represents.
#[derive(Debug, PartialEq, Eq, PartialOrd, Ord, Clone, Copy, Hash, Structural)]
pub enum BraceKind {
    /// `{` or `}`
    Curly,
    /// `[` or `]`
    Bracket,
    /// `(` or `)`
    Paren,
}

/// The semantic class of a command name: the six commands the parser must
/// special-case, with every other name collapsed to `Generic`.
#[derive(Debug, PartialEq, Eq, PartialOrd, Ord, Clone, Copy, Hash, Structural)]
pub enum CommandName {
    /// Any command name other than the six below.
    Generic,
    /// `\begin`
    BeginEnvironment,
    /// `\end`
    EndEnvironment,
    /// `\iffalse`
    BeginBlockComment,
    /// `\fi`
    EndBlockComment,
    /// `\left`
    Left,
    /// `\right`
    Right,
}

/// The lexical category of a token.
#[derive(Debug, PartialEq, Eq, PartialOrd, Ord, Clone, Copy, Hash, Structural)]
pub enum Token {
    /// A run of `\r`/`\n` characters.
    LineBreak,
    /// A run of whitespace other than `\r`/`\n`.
    Whitespace,
    /// `%` up to (excluding) the end of the line.
    LineComment,
    /// An opening delimiter.
    Left(BraceKind),
    /// A closing delimiter.
    Right(BraceKind),
    /// `,`
    Comma,
    /// `~`
    Tilde,
    /// `/`
    Divide,
    /// `=`
    Equal,
    /// `&`
    And,
    /// `^`
    Caret,
    /// `'`
    Apostrophe,
    /// `_`
    Underline,
    /// A run of ordinary text characters.
    Word,
    /// `$` or `$$`.
    Dollar,
    /// A literal `\\`.
    NewLine,
    /// A backslash followed by a command name.
    CommandName(CommandName),
}

/// The parser-facing representation of a token, derived one-to-one from
/// [`Token`] when a token is handed out by [`crate::Lexer::eat`].
#[derive(Debug, PartialEq, Eq, PartialOrd, Ord, Clone, Copy, Hash, Structural)]
pub enum SyntaxKind {
    /// From [`Token::LineBreak`].
    TokenLineBreak,
    /// From [`Token::Whitespace`].
    TokenWhitespace,
    /// From [`Token::LineComment`].
    TokenLineComment,
    /// From [`Token::Left`].
    TokenLeft(BraceKind),
    /// From [`Token::Right`].
    TokenRight(BraceKind),
    /// From [`Token::Comma`].
    TokenComma,
    /// From [`Token::Tilde`].
    TokenTilde,
    /// From [`Token::Divide`].
    TokenDivide,
    /// From [`Token::Equal`].
    TokenEqual,
    /// From [`Token::And`].
    TokenAnd,
    /// From [`Token::Caret`].
    TokenCaret,
    /// From [`Token::Apostrophe`].
    TokenApostrophe,
    /// From [`Token::Underline`].
    TokenUnderline,
    /// From [`Token::Word`].
    TokenWord,
    /// From [`Token::Dollar`].
    TokenDollar,
    /// From [`Token::NewLine`].
    TokenNewLine,
    /// From [`Token::CommandName`].
    TokenCommandSym(CommandName),
}

/// The parser-facing kind that corresponds to a token, one-to-one.
pub open spec fn syntax_of(t: Token) -> SyntaxKind {
    match t {
        Token::LineBreak => SyntaxKind::TokenLineBreak,
        Token::Whitespace => SyntaxKind::TokenWhitespace,
        Token::LineComment => SyntaxKind::TokenLineComment,
        Token::Left(b) => SyntaxKind::TokenLeft(b),
        Token::Right(b) => SyntaxKind::TokenRight(b),
        Token::Comma => SyntaxKind::TokenComma,
        Token::Tilde => SyntaxKind::TokenTilde,
        Token::Divide => SyntaxKind::TokenDivide,
        Token::Equal => SyntaxKind::TokenEqual,
        Token::And => SyntaxKind::TokenAnd,
        Token::Caret => SyntaxKind::TokenCaret,
        Token::Apostrophe => SyntaxKind::TokenApostrophe,
        Token::Underline => SyntaxKind::TokenUnderline,
        Token::Word => SyntaxKind::TokenWord,
        Token::Dollar => SyntaxKind::TokenDollar,
        Token::NewLine => SyntaxKind::TokenNewLine,
        Token::CommandName(n) => SyntaxKind::TokenCommandSym(n),
    }
}

impl Token {
    /// Map this token to its parser-facing representation.
    pub fn syntax_kind(self) -> (r: SyntaxKind)
        ensures
            r == syntax_of(self),
    {
        match self {
            Token::LineBreak => SyntaxKind::TokenLineBreak,
            Token::Whitespace => SyntaxKind::TokenWhitespace,
            Token::LineComment => SyntaxKind::TokenLineComment,
            Token::Left(b) => SyntaxKind::TokenLeft(b),
            Token::Right(b) => SyntaxKind::TokenRight(b),
            Token::Comma => SyntaxKind::TokenComma,
            Token::Tilde => SyntaxKind::TokenTilde,
            Token::Divide => SyntaxKind::TokenDivide,
            Token::Equal => SyntaxKind::TokenEqual,
            Token::And => SyntaxKind::TokenAnd,
            Token::Caret => SyntaxKind::TokenCaret,
            Token::Apostrophe => SyntaxKind::TokenApostrophe,
            Token::Underline => SyntaxKind::TokenUnderline,
            Token::Word => SyntaxKind::TokenWord,
            Token::Dollar => SyntaxKind::TokenDollar,
            Token::NewLine => SyntaxKind::TokenNewLine,
            Token::CommandName(n) => SyntaxKind::TokenCommandSym(n),
        }
    }
}

/// An opaque, externally owned table of known command names. It is threaded
/// through the lexer's construction and held for the lexer's lifetime, but no
/// logic in this crate consults its contents: it is a reserved extension point
/// for context-sensitive classification.
#[derive(Debug, Clone, Copy, PartialEq, Eq, Structural)]
pub struct CommandSpec {
}

impl CommandSpec {
    /// Build an (empty) command specification handle.
    pub fn new() -> CommandSpec {
        CommandSpec {  }
    }
}

/// The command class a command name (without its leading backslash) denotes.
pub open spec fn classify_name(name: Seq<char>) -> CommandName {
    if name == "begin"@ {
        CommandName::BeginEnvironment
    } else if name == "end"@ {
        CommandName::EndEnvironment
    } else if name == "iffalse"@ {
        CommandName::BeginBlockComment
    } else if name == "fi"@ {
        CommandName::EndBlockComment
    } else if name == "left"@ {
        CommandName::Left
    } else if name == "right"@ {
        CommandName::Right
    } else {
        CommandName::Generic
    }
}

/// Character-by-character string equality.
fn str_text_eq(a: &str, b: &str) -> (r: bool)
    ensures
        r == (a@ == b@),
{
    let n = a.unicode_len();
    if n != b.unicode_len() {
        proof {
            assert(a@ != b@) by {
                if a@ == b@ {
                    assert(a@.len() == b@.len());
                }
            }
        }
        return false;
    }
    let mut i: usize = 0;
    while i < n
        invariant
            n == a@.len(),
            n == b@.len(),
            i <= n,
            forall|k: int| 0 <= k < i ==> a@[k] == b@[k],
        decreases n - i,
    {
        if a.get_char(i) != b.get_char(i) {
            return false;
        }
        i += 1;
    }
    proof {
        assert(a@ =~= b@);
    }
    true
}

/// Classify a command name (the command's text with the leading backslash
/// stripped) into the command class the parser must special-case.
pub fn classify(name: &str) -> (r: CommandName)
    ensures
        r == classify_name(name@),
{
    if str_text_eq(name, "begin") {
        CommandName::BeginEnvironment
    } else if str_text_eq(name, "end") {
        CommandName::EndEnvironment
    } else if str_text_eq(name, "iffalse") {
        CommandName::BeginBlockComment
    } else if str_text_eq(name, "fi") {
        CommandName::EndBlockComment
    } else if str_text_eq(name, "left") {
        CommandName::Left
    } else if str_text_eq(name, "right") {
        CommandName::Right
    } else {
        CommandName::Generic
    }
}

} // verus!
