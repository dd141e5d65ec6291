//! Compiles a declarative description of a bit-flag set into the source text
//! of a self-contained bitmask type.
//!
//! A declaration has the form `[pub [(scope)]] enum Name { Flag = value, .. }`
//! and comes with a configuration of the form `key = value, ..`, both as
//! sequences of [`tokens::Token`]. [`parser::generate`] turns the two into the
//! text of a type that stores the flags in one unsigned integer, with a
//! constant for each flag, the operations of a set, a validating constructor
//! and a renderer; or into the first [`error::Error`].
//!
//! - [`utils`]: the hasher of names, the validator of names and the parser
//!   of integer literals.
//! - [`literal`]: the writer of integer literals, the inverse of that parser.
//! - [`tokens`], [`machine`]: the tokens, and what it means to run a
//!   token-driven state machine over them.
//! - [`arguments`]: the configuration and its parser.
//! - [`declaration`], [`display`], [`bit_flags`]: what a declaration says of
//!   its type, and what the operations of the emitted type compute.
//! - [`template`]: the emitted text, in pieces with placeholders.
//! - [`grammar`]: what the tokens of a declaration mean, as a state machine.
//! - [`parser`]: the parser of declarations, which drives the emission.
//! - [`theorems`]: what holds of every accepted declaration and of its text.

pub mod arguments;
pub mod bit_flags;
pub mod declaration;
pub mod display;
pub mod error;
pub mod flags_type;
pub mod grammar;
pub mod literal;
pub mod machine;
pub mod parser;
pub mod template;
pub mod theorems;
pub mod tokens;
pub mod utils;
