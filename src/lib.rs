//! Parsing and semantic validation of the `sanitize(...)` / `validate(...)`
//! annotation of a single-field wrapper type.
//!
//! Tokens come in as plain values (see [`token`]); the result is a guard
//! (sanitizers in declaration order plus a consistent set of validators) or a
//! located error.

pub mod token;
pub mod error;
pub mod number;
pub mod custom;
pub mod attrs;
pub mod consistency;
pub mod guard;
pub mod string;
pub mod integer;
pub mod laws;
