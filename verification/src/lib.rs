//! Byte-exact record layouts from programmer-declared field offsets.
//!
//! A record is declared as an ordered list of fields, each pinned to an
//! absolute byte offset, optionally with a total size. The resolver turns such
//! a declaration into a layout plan: one padding gap before every field, and a
//! trailing gap where a total size was asked for, so that a packed
//! representation of the plan puts every field at its declared offset.
//!
//! Every executable function here is verified against the contract it states.
//! One call is trusted: integer literals are read by the `syn` crate.

pub mod model;
pub mod declaration;
pub mod evaluate;
pub mod laws;
pub mod literal;
pub mod resolve;
pub mod sample;

pub use crate::declaration::memory_layout;
