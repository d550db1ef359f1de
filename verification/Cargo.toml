[package]
name = "mitex_lexer"
version = "0.1.0"
edition = "2021"
publish = false
