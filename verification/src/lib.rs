//! A small S-expression language: a lexer, a parser, and a tree-walking
//! evaluator with a fixed catalogue of builtin procedures, a definitions
//! table populated by `define`, and substitution-based user procedures.
//!
//! Every evaluation step is specified by a spec-level interpreter
//! (`semantics`) and the executable evaluator is proved to match it.

pub mod ast;
pub mod ast_serialize;
pub mod eval_iter;
pub mod eval_result;
pub mod expr_interpreter;
pub mod get_atom_vals;
pub mod numtext;
pub mod procs;
pub mod procs_impl;
pub mod semantics;
pub mod user_proc;
pub mod laws;
pub mod lexer;
pub mod parser;
pub mod util;
