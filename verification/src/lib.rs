//! A small lexer for TeX/LaTeX-like markup.
//!
//! The lexer turns an input string into a stream of classified tokens for a
//! downstream parser. Tokens are produced lazily through a single-token
//! lookahead interface ([`Lexer::peek`], [`Lexer::eat`]); scanning cost is
//! amortized by prefetching a bounded batch of tokens at a time.
//!
//! Concatenating, in order, the text of every token the lexer produces
//! reconstructs the input exactly: every character of the input belongs to
//! exactly one token (see `lemma_token_seq_lossless`).

pub mod classes;
pub mod lexer;
pub mod model;
pub mod scan;
pub mod token;

pub use lexer::Lexer;
pub use token::BraceKind;
pub use token::CommandName;
pub use token::CommandSpec;
pub use token::SyntaxKind;
pub use token::Token;
pub use token::classify;
