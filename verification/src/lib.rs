//! A structure parser for stylesheets: given the lexical tokens of a CSS
//! source, it rebuilds the grammatical structure - selector lists,
//! declaration blocks, and nested at-rule blocks - as an in-memory rule tree.

pub mod ast;
pub mod tokens;
pub mod grammar;
pub mod parser;
pub mod laws;
pub mod css;
