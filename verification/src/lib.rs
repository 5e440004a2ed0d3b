//! A parser for a small SQL dialect: `SELECT`, `INSERT`, `UPDATE` and `DELETE`
//! statements, with conditions written in a ladder of operator levels.
//!
//! [`parser::parse_sql`] reads a statement and [`expression::parse_expression`]
//! an expression. Parsing runs in three steps:
//!
//! 1. [`token`] cuts the text into tokens, dropping white space and comments
//!    ([`text`] and [`number`] hold its characters and numerals);
//! 2. [`grammar`] says which tokens make a statement or an expression and what
//!    their parse tree ([`tree`], [`rule`]) is, and [`recognizer`] reads the
//!    tokens as it says;
//! 3. [`expression`] and [`parser`] turn the parse tree into the values of
//!    [`ast`].
//!
//! A text that is no statement is rejected with an [`error::ParseError`].
//!
//! The other modules state what follows from these definitions: the texts of
//! tokens ([`shape`]), the parts of statements ([`guarantees`]), keywords in
//! any case ([`case`]), white space and comments ([`spacing`]), operands and
//! parentheses ([`balance`]), the nesting of operators ([`chains`]), and the
//! places of failures ([`places`]).

pub mod ast;
pub mod balance;
pub mod case;
pub mod chains;
pub mod error;
pub mod expression;
pub mod grammar;
pub mod guarantees;
pub mod number;
pub mod parser;
pub mod places;
pub mod recognizer;
pub mod rule;
pub mod shape;
pub mod spacing;
pub mod text;
pub mod token;
pub mod tree;
