//! A parser for toki pona sentences: tokens are classified against a closed
//! vocabulary, arranged into a phrase tree, and rendered back in a fully
//! parenthesised form that shows how every attachment was resolved.

pub mod grammar;
pub mod laws;
pub mod parsing;
pub mod render;
pub mod tokenizer;
pub mod types;
pub mod word;
