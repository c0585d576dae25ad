//! Firmum: a formal verification meta-language whose declarations carry an
//! `intent`, an `assumption` and a `proof` block. This crate holds the
//! compiler's front end: the parser, the intermediate representation, the type
//! checker and the integer part of the assumption coverage score.
pub mod errors;
pub mod text;
pub mod fir;
pub mod typeck;
pub mod grammar;
pub mod parser;
pub mod smt;
pub mod codegen;
pub mod cli;
