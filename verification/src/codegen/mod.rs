//! Code generation back ends.
pub mod c;
pub mod preamble;
