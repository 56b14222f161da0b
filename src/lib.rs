//! Editor tooling for a kernel-tracing scripting language: an error-tolerant parser that
//! turns source text into a typed tree with error nodes in place of text it cannot read,
//! a traversal over that tree, and a scope-aware pass that flags references to undefined
//! names and calls of undefined functions.
//!
//! - `lexer`, `expr_parser`, `parser`: the grammar, as spec functions over the source
//!   bytes and executable functions proved to compute them.
//! - `syntax`: the tree; `walk`: children, pre-order walks and error collection.
//! - `semantics`, `analyzer`: the scope-aware pass and the analyzer that runs it.
//! - `leaves`: the leaves of every parsed tree are tokens of the source, in order.
//! - `diagnostics`, `completion`, `storage`, `config`: what editor requests are built from.
pub mod analyzer;
pub mod builtins;
pub mod completion;
pub mod config;
pub mod diagnostics;
pub mod expr_parser;
pub mod leaves;
pub mod lexer;
pub mod parser;
pub mod semantics;
pub mod storage;
pub mod syntax;
pub mod walk;
