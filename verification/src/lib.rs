//! A lexer for the Penguin language, with its behaviour stated and proved.
//!
//! `grammar` states what a source lexes to, on sequences of characters;
//! `scanner` reads single lexemes and `lexer` whole sources, both proved
//! against the grammar; `laws` holds what follows for every source.

pub mod chars;
pub mod error;
pub mod grammar;
pub mod laws;
pub mod lexer;
pub mod location;
pub mod scanner;
pub mod text;
pub mod token;
pub mod words;
