//! A minimal parser-combinator core: leaf matchers over a text cursor,
//! a sequencing combinator (`bind`), an ordered-choice combinator (`alt`),
//! and a value-injection combinator (`gen_trivial`).
//!
//! A parser is a pure function from a cursor to an optional pair of a match
//! value and a new cursor; failure carries no payload.  Parsers are built
//! ahead of time as values of the [`parser::Parser`] type, and run with
//! [`parser::apply`]; the spec function [`parser::run`] gives the meaning of
//! every parser, so each run is deterministic by construction.

pub mod cursor;
pub mod laws;
pub mod parser;
pub mod token;
pub mod value;
