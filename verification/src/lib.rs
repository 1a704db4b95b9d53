//! A tree-walking interpreter for a small scripting language with dynamic
//! types, functions that are values, and closures.
//!
//! A source text goes through three stages:
//!
//! - `lexer` turns it into tokens (`token`). What it finds is what `lex`
//!   says; `roundtrip` proves that the texts of the tokens scan to the same
//!   tokens again.
//! - `parser` turns the tokens into a syntax tree (`grammar`), by recursive
//!   descent. It computes the functions of `rules`, one for each rule of the
//!   grammar, and skips to the next declaration after a failure.
//! - `interpreter` walks the tree. It computes the functions of `semantics`;
//!   `scoping` proves what these can and cannot do to the environments.
//!
//! Values and their operators are in `runtime`, environments in `env`, and
//! diagnostics in `error`.
//!
//! Numbers are doubles. A number is held by its bits (`number`), and what can
//! be read off the bits is done here: sign, order, equality. Arithmetic that
//! rounds and the conversion between numbers and decimal text are left to a
//! host, `number::Numerics`; the interpreter is proved for every host.

pub mod env;
pub mod error;
pub mod grammar;
pub mod interpreter;
pub mod lexer;
pub mod number;
pub mod parser;
pub mod roundtrip;
pub mod rules;
pub mod runtime;
pub mod scoping;
pub mod semantics;
pub mod text;
pub mod token;

use crate::error::{ErrorKind, shows};
use vstd::prelude::*;

verus! {

/// Shows a diagnostic of the syntax family.
pub fn syntax_error(line: &usize, msg: &str) -> (r: String)
    ensures
        shows(r@, ErrorKind::Syntax, *line as nat, msg@),
{
    crate::error::syntax_error(line, msg)
}

/// Shows a diagnostic of the runtime family.
pub fn runtime_error(line: &usize, msg: &str) -> (r: String)
    ensures
        shows(r@, ErrorKind::Runtime, *line as nat, msg@),
{
    crate::error::runtime_error(line, msg)
}

} // verus!
