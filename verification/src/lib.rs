//! A scanner, parser, resolver and runtime core for the Lox language.
use vstd::prelude::*;

pub mod ast;
pub mod callable;
pub mod environment;
pub mod error;
pub mod grammar;
pub mod interpreter;
pub mod parser;
pub mod printer;
pub mod resolver;
pub mod scanner;
pub mod text;
pub mod token;
pub mod value;
