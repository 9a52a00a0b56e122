//! A small imperative scripting language: a backtracking recursive-descent
//! parser that turns source text into a syntax tree, and a tree-walking
//! evaluator with nested lexical scopes, built-in and user-defined functions,
//! and explicit return propagation.
//!
//! Every public operation is specified against a mathematical model: the
//! parser against a definitional grammar over byte sequences, the evaluator
//! against a step-indexed big-step semantics over model values.
#![verifier::loop_isolation(false)]

pub mod error;
pub mod parse;
pub mod run;
pub mod utils;
