//! The syntactic front end of a small expression-oriented scripting
//! language: a stream of tokens goes in, a stream of syntax trees comes out.
//!
//! - [`token`], [`ast`], [`error`]: the data, each with its mathematical
//!   view.
//! - [`text`]: numerals, numeric lexemes, joining, source lines.
//! - [`printer`]: the canonical text of a tree.
//! - [`grammar`]: the grammar as mathematics, rule by rule.
//! - [`macros`], [`nodes`], [`parser`], [`rules`]: the parser, whose every
//!   rule does what the grammar says.
//! - [`laws`], [`soundness`], [`layout`], [`proper`], [`apart`], [`local`]:
//!   what holds of the printer and of the grammar as wholes.
//!
//! A parser takes its stream whole ([`parser::Parser::new`]) or token by
//! token while the stream comes in ([`parser::Parser::open`],
//! [`parser::Parser::feed`], [`parser::Parser::next_settled`]).

pub mod token;
pub mod text;
pub mod error;
pub mod ast;
pub mod printer;
pub mod grammar;
pub mod macros;
pub mod nodes;
pub mod parser;
pub mod rules;
pub mod laws;
pub mod soundness;
pub mod layout;
pub mod proper;
pub mod local;
pub mod apart;
