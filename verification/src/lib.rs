//! A verified interpreter for a minimal S-expression language of boolean
//! logic: literal booleans, the three primitive operators `&`, `|` and `^`
//! as first-class values, an `if` conditional, variable binding with `def`,
//! and single-parameter-list lambdas.
//!
//! The pipeline is `tokenize` (text to tokens), `parse` (tokens to an
//! abstract syntax tree) and `eval` (tree walking against an `Environment`).
//! Each stage carries a contract that ties it to a specification-level
//! model of the same stage, so the behaviour of the whole pipeline is
//! pinned down mathematically.

pub mod environment;
pub mod evaluator;
pub mod laws;
pub mod parser;
pub mod text;
pub mod tokenizer;
