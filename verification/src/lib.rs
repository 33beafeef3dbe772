//! Detection of entry points into code that a virtualizing or mutating
//! software protector has injected into a binary.
//!
//! The library works on a plain-data picture of a disassembled binary: its
//! sections, its functions and, where lifting succeeded, each function's
//! low-level intermediate representation. Every executable function carries a
//! contract over spec functions on that data, and the contracts are proved.

pub mod range;
pub mod ir;
pub mod view;
pub mod vmenter;
pub mod classify;
pub mod command;
