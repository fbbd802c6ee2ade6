//! Core of a small scripting language: lexer, parser, scope-aware tree
//! rewriting, name resolution with dense symbol ids, and a tree-walking
//! evaluator addressing variables by resolved symbol id.

pub mod context;
pub mod eval;
pub mod name_analysis;
pub mod numtext;
pub mod parser;
pub mod position;
pub mod printer;
pub mod symbol;
pub mod text;
pub mod token;
pub mod tokenizer;
pub mod tree;
pub mod utils;
pub mod value;
