//! Lexical analysis for the Monkey scripting language.
//!
//! A [`lexer::Lexer`] walks a source text from left to right and hands out one
//! [`token::Token`] per call. What each call returns is stated against the
//! mathematical description of the lexical grammar in [`grammar`].

pub mod grammar;
pub mod lexer;
pub mod token;
