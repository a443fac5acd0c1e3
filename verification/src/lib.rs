//! A small virtual machine for an extended bracket language whose program
//! text and data tape share one fixed arena of bytes.

pub mod bf_parse;

pub use bf_parse::BfInterpret;
