//! Tests of the lookahead engine: partial consumption, the parser-facing
//! kinds `eat` hands out, losslessness and termination of draining, batching
//! over long inputs, and command-name classification.

use mitex_lexer::BraceKind;
use mitex_lexer::CommandName;
use mitex_lexer::CommandSpec;
use mitex_lexer::Lexer;
use mitex_lexer::SyntaxKind;
use mitex_lexer::Token;
use mitex_lexer::classify;

/// Drain a fresh lexer via `eat`, collecting the parser-facing pairs.
fn drain(input: &str) -> Vec<(SyntaxKind, String)> {
    let mut lexer = Lexer::new(input, CommandSpec::new());
    let mut out = Vec::new();
    while let Some((kind, text)) = lexer.eat() {
        out.push((kind, text.to_string()));
    }
    out
}

#[test]
fn partial_consumption() {
    let mut lexer = Lexer::new("abc", CommandSpec::new());
    assert_eq!(lexer.peek(), Some(Token::Word));
    assert_eq!(lexer.peek_text(), Some("abc"));
    lexer.consume_word(1);
    assert_eq!(lexer.peek(), Some(Token::Word));
    assert_eq!(lexer.peek_text(), Some("bc"));
    lexer.consume_word(5);
    assert_eq!(lexer.peek(), None);
}

#[test]
fn partial_consumption_advances_to_next_token() {
    let mut lexer = Lexer::new("abc,", CommandSpec::new());
    lexer.consume_word(3);
    assert_eq!(lexer.peek(), Some(Token::Comma));
    assert_eq!(lexer.peek_text(), Some(","));
}

#[test]
fn partial_consumption_keeps_the_kind() {
    // "12x" stays a Word while digits are taken off one at a time.
    let mut lexer = Lexer::new("12x ", CommandSpec::new());
    assert_eq!(lexer.peek_char(), Some('1'));
    lexer.consume_word(1);
    assert_eq!(lexer.peek_char(), Some('2'));
    lexer.consume_word(1);
    assert_eq!(lexer.peek(), Some(Token::Word));
    assert_eq!(lexer.peek_text(), Some("x"));
}

#[test]
fn partial_consumption_counts_characters() {
    let mut lexer = Lexer::new("\u{e9}\u{e8}a", CommandSpec::new());
    lexer.consume_word(1);
    assert_eq!(lexer.peek_text(), Some("\u{e8}a"));
    lexer.consume_word(1);
    assert_eq!(lexer.peek_text(), Some("a"));
}

#[test]
fn partial_consumption_at_end_of_input_is_a_no_op() {
    let mut lexer = Lexer::new("", CommandSpec::new());
    lexer.consume_word(1);
    assert_eq!(lexer.peek(), None);
    assert_eq!(lexer.eat(), None);
}

#[test]
fn peek_char_reads_the_first_character() {
    let mut lexer = Lexer::new("word rest", CommandSpec::new());
    assert_eq!(lexer.peek_char(), Some('w'));
    lexer.eat();
    assert_eq!(lexer.peek_char(), Some(' '));
}

#[test]
fn peek_is_repeatable() {
    let lexer = Lexer::new("x", CommandSpec::new());
    assert_eq!(lexer.peek(), Some(Token::Word));
    assert_eq!(lexer.peek(), Some(Token::Word));
    assert_eq!(lexer.peek_text(), Some("x"));
    assert_eq!(lexer.peek_text(), Some("x"));
}

#[test]
fn eat_maps_kinds_one_to_one() {
    assert_eq!(
        drain("\\begin{x}_ $\\\\,"),
        vec![
            (
                SyntaxKind::TokenCommandSym(CommandName::BeginEnvironment),
                "\\begin".to_string()
            ),
            (SyntaxKind::TokenLeft(BraceKind::Curly), "{".to_string()),
            (SyntaxKind::TokenWord, "x".to_string()),
            (SyntaxKind::TokenRight(BraceKind::Curly), "}".to_string()),
            (SyntaxKind::TokenUnderline, "_".to_string()),
            (SyntaxKind::TokenWhitespace, " ".to_string()),
            (SyntaxKind::TokenDollar, "$".to_string()),
            (SyntaxKind::TokenNewLine, "\\\\".to_string()),
            (SyntaxKind::TokenComma, ",".to_string()),
        ]
    );
}

#[test]
fn draining_is_lossless_and_terminates() {
    let inputs = [
        "",
        "\\",
        "\\\\",
        "a_b^c",
        "\\begin{equation} e = m c^2 \\end{equation}",
        "%c\nx",
        "\\foo*bar \\; \\@x: $$y$$ [a](b){c} ~/=&' \r\n\t
        \u{a0}\u{3000}w\u{e9}rd, plus a % trailing comment",
        "\\ x\\\r\n10%",
    ];
    for input in inputs {
        let mut lexer = Lexer::new(input, CommandSpec::new());
        let mut rebuilt = String::new();
        // Bounded by the character count: draining must terminate.
        let mut steps = 0usize;
        while let Some((_, text)) = lexer.eat() {
            rebuilt.push_str(text);
            steps += 1;
            assert!(steps <= input.chars().count());
        }
        assert_eq!(rebuilt, input);
        assert_eq!(lexer.eat(), None);
        assert_eq!(lexer.peek(), None);
    }
}

#[test]
fn batching_covers_long_inputs() {
    // Far more tokens than one prefetch batch holds.
    let mut input = String::new();
    for k in 0..500 {
        input.push_str("w");
        input.push_str(if k % 3 == 0 { "," } else { " " });
    }
    let mut count = 0usize;
    let mut rebuilt = String::new();
    let mut lexer = Lexer::new(&input, CommandSpec::new());
    while let Some((_, text)) = lexer.eat() {
        rebuilt.push_str(text);
        count += 1;
    }
    assert_eq!(count, 1000);
    assert_eq!(rebuilt, input);
}

#[test]
fn classify_names() {
    assert_eq!(classify("begin"), CommandName::BeginEnvironment);
    assert_eq!(classify("end"), CommandName::EndEnvironment);
    assert_eq!(classify("iffalse"), CommandName::BeginBlockComment);
    assert_eq!(classify("fi"), CommandName::EndBlockComment);
    assert_eq!(classify("left"), CommandName::Left);
    assert_eq!(classify("right"), CommandName::Right);
    assert_eq!(classify("begin*"), CommandName::Generic);
    assert_eq!(classify("begins"), CommandName::Generic);
    assert_eq!(classify(""), CommandName::Generic);
    assert_eq!(classify("Begin"), CommandName::Generic);
}
