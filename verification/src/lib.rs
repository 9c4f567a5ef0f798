//! Reader for the `name :: value` configuration language of the terminal
//! rain effect, with diagnostics anchored to the source position, and the
//! integer parts of the effect itself.
//!
//! - [`grammar`] states the language as functions on a sequence of characters.
//! - [`config_parser`] holds the reader, whose every routine is proved to
//!   yield what the grammar says.
//! - [`diag`] holds the diagnostics and their text.
//! - [`value`] holds the values and statements.
//! - [`text`] holds character classes, offsets, lines and decimal numbers.
//! - [`laws`] proves what holds of every text; [`lemmas`] what the proofs share.
//! - [`color`] and [`rain`] hold the colours and the streams of the effect.

pub mod text;
pub mod value;
pub mod grammar;
pub mod diag;
pub mod lemmas;
pub mod config_parser;
pub mod laws;
pub mod color;
pub mod rain;
