//! Scenario tests: concrete inputs and the exact token streams they produce.

use mitex_lexer::BraceKind;
use mitex_lexer::CommandName;
use mitex_lexer::CommandSpec;
use mitex_lexer::Lexer;
use mitex_lexer::Token;

/// Drain the lexer via peek/peek_text/eat, collecting (kind, text) pairs.
fn tokens(input: &str) -> Vec<(Token, String)> {
    let mut lexer = Lexer::new(input, CommandSpec::new());
    let mut out = Vec::new();
    while let Some(kind) = lexer.peek() {
        let text = lexer.peek_text().unwrap();
        out.push((kind, text.to_string()));
        lexer.eat();
    }
    out
}

fn pairs(items: &[(Token, &str)]) -> Vec<(Token, String)> {
    items.iter().map(|(k, t)| (*k, t.to_string())).collect()
}

#[test]
fn priority_word_underline_caret() {
    assert_eq!(
        tokens("a_b^c"),
        pairs(&[
            (Token::Word, "a"),
            (Token::Underline, "_"),
            (Token::Word, "b"),
            (Token::Caret, "^"),
            (Token::Word, "c"),
        ])
    );
}

#[test]
fn command_classification_begin() {
    assert_eq!(
        tokens("\\begin{equation}"),
        pairs(&[
            (Token::CommandName(CommandName::BeginEnvironment), "\\begin"),
            (Token::Left(BraceKind::Curly), "{"),
            (Token::Word, "equation"),
            (Token::Right(BraceKind::Curly), "}"),
        ])
    );
}

#[test]
fn command_classification_others() {
    assert_eq!(
        tokens("\\end{x}"),
        pairs(&[
            (Token::CommandName(CommandName::EndEnvironment), "\\end"),
            (Token::Left(BraceKind::Curly), "{"),
            (Token::Word, "x"),
            (Token::Right(BraceKind::Curly), "}"),
        ])
    );
    assert_eq!(
        tokens("\\iffalse\\fi"),
        pairs(&[
            (Token::CommandName(CommandName::BeginBlockComment), "\\iffalse"),
            (Token::CommandName(CommandName::EndBlockComment), "\\fi"),
        ])
    );
    assert_eq!(
        tokens("\\left(\\right)"),
        pairs(&[
            (Token::CommandName(CommandName::Left), "\\left"),
            (Token::Left(BraceKind::Paren), "("),
            (Token::CommandName(CommandName::Right), "\\right"),
            (Token::Right(BraceKind::Paren), ")"),
        ])
    );
}

#[test]
fn symbolic_escape() {
    assert_eq!(
        tokens("\\;"),
        pairs(&[(Token::CommandName(CommandName::Generic), "\\;")])
    );
}

#[test]
fn empty_command_at_eof() {
    let mut lexer = Lexer::new("\\", CommandSpec::new());
    assert_eq!(lexer.peek(), Some(Token::CommandName(CommandName::Generic)));
    assert_eq!(lexer.peek_text(), Some("\\"));
    assert!(lexer.eat().is_some());
    assert_eq!(lexer.peek(), None);
    assert_eq!(lexer.eat(), None);
}

#[test]
fn command_before_whitespace_has_empty_name() {
    assert_eq!(
        tokens("\\ x"),
        pairs(&[
            (Token::CommandName(CommandName::Generic), "\\"),
            (Token::Whitespace, " "),
            (Token::Word, "x"),
        ])
    );
}

#[test]
fn star_suffix() {
    assert_eq!(
        tokens("\\foo*bar"),
        pairs(&[
            (Token::CommandName(CommandName::Generic), "\\foo*"),
            (Token::Word, "bar"),
        ])
    );
}

#[test]
fn star_suffix_defeats_classification() {
    assert_eq!(
        tokens("\\begin*"),
        pairs(&[(Token::CommandName(CommandName::Generic), "\\begin*")])
    );
}

#[test]
fn command_name_with_at_and_colon() {
    assert_eq!(
        tokens("\\f@o:o="),
        pairs(&[
            (Token::CommandName(CommandName::Generic), "\\f@o:o"),
            (Token::Equal, "="),
        ])
    );
}

#[test]
fn comment_line() {
    assert_eq!(
        tokens("%c\nx"),
        pairs(&[
            (Token::LineComment, "%c"),
            (Token::LineBreak, "\n"),
            (Token::Word, "x"),
        ])
    );
}

#[test]
fn comment_at_end_of_input() {
    assert_eq!(tokens("% c"), pairs(&[(Token::LineComment, "% c")]));
}

#[test]
fn double_backslash_is_one_newline_token() {
    assert_eq!(tokens("\\\\"), pairs(&[(Token::NewLine, "\\\\")]));
}

#[test]
fn double_backslash_before_name() {
    assert_eq!(
        tokens("\\\\foo"),
        pairs(&[(Token::NewLine, "\\\\"), (Token::Word, "foo")])
    );
}

#[test]
fn line_break_run_and_inline_space() {
    assert_eq!(
        tokens("a \r\n\nb"),
        pairs(&[
            (Token::Word, "a"),
            (Token::Whitespace, " "),
            (Token::LineBreak, "\r\n\n"),
            (Token::Word, "b"),
        ])
    );
}

#[test]
fn dollar_single_and_double() {
    assert_eq!(
        tokens("$x$"),
        pairs(&[
            (Token::Dollar, "$"),
            (Token::Word, "x"),
            (Token::Dollar, "$"),
        ])
    );
    assert_eq!(
        tokens("$$x$$"),
        pairs(&[
            (Token::Dollar, "$$"),
            (Token::Word, "x"),
            (Token::Dollar, "$$"),
        ])
    );
    assert_eq!(
        tokens("$$$"),
        pairs(&[(Token::Dollar, "$$"), (Token::Dollar, "$")])
    );
}

#[test]
fn punctuation_tokens() {
    assert_eq!(
        tokens(",~/=&'"),
        pairs(&[
            (Token::Comma, ","),
            (Token::Tilde, "~"),
            (Token::Divide, "/"),
            (Token::Equal, "="),
            (Token::And, "&"),
            (Token::Apostrophe, "'"),
        ])
    );
}

#[test]
fn brackets_and_parens() {
    assert_eq!(
        tokens("[](){}"),
        pairs(&[
            (Token::Left(BraceKind::Bracket), "["),
            (Token::Right(BraceKind::Bracket), "]"),
            (Token::Left(BraceKind::Paren), "("),
            (Token::Right(BraceKind::Paren), ")"),
            (Token::Left(BraceKind::Curly), "{"),
            (Token::Right(BraceKind::Curly), "}"),
        ])
    );
}

#[test]
fn ampersand_continues_a_word_run() {
    assert_eq!(tokens("a&b"), pairs(&[(Token::Word, "a&b")]));
    assert_eq!(
        tokens("&b"),
        pairs(&[(Token::And, "&"), (Token::Word, "b")])
    );
}

#[test]
fn unicode_word_and_unicode_space() {
    assert_eq!(
        tokens("h\u{e9}llo\u{a0}w"),
        pairs(&[
            (Token::Word, "h\u{e9}llo"),
            (Token::Whitespace, "\u{a0}"),
            (Token::Word, "w"),
        ])
    );
}

#[test]
fn unicode_command_name() {
    assert_eq!(
        tokens("\\h\u{e9}llo x"),
        pairs(&[
            (Token::CommandName(CommandName::Generic), "\\h\u{e9}llo"),
            (Token::Whitespace, " "),
            (Token::Word, "x"),
        ])
    );
}

#[test]
fn empty_input_has_no_tokens() {
    let mut lexer = Lexer::new("", CommandSpec::new());
    assert_eq!(lexer.peek(), None);
    assert_eq!(lexer.peek_text(), None);
    assert_eq!(lexer.peek_char(), None);
    assert_eq!(lexer.eat(), None);
}
