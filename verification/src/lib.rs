//! A small Lisp: a tree-walking evaluator with symbols, pairs, lambdas that
//! close over lexical scopes, special forms and built-in procedures.
//!
//! Every function states what it returns and what it changes over a
//! mathematical model of its arguments: [`value::Datum`] for values,
//! [`eval_env::World`] for the evaluator's state, `int` for numbers and
//! `Seq<char>` for texts. The meaning of a program is the function
//! [`eval_env::evaluated`]; [`eval_env::EvalEnv::evaluate`] computes it.
//!
//! - [`value`], [`number`], [`procedure`], [`error`]: what is evaluated.
//! - [`eval_env`]: scopes and the evaluator.
//! - [`special_forms`], [`builtins`]: what an application can call.
//! - [`laws`], [`depth`], [`frame`]: what holds of every evaluation.
//! - [`tokenizer`], [`parse`]: from text to values.
//! - [`reader`], [`reader_file`], [`reader_interact`], [`command_line`]:
//!   what the front ends decide; reading and writing is left to the caller.

pub mod builtins;
pub mod command_line;
pub mod depth;
pub mod error;
pub mod eval_env;
pub mod frame;
pub mod laws;
pub mod number;
pub mod parse;
pub mod procedure;
pub mod reader;
pub mod reader_file;
pub mod reader_interact;
pub mod special_forms;
pub mod text;
pub mod tokenizer;
pub mod value;
