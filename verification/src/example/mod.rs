//! A small program written with the crate: one record, one context, one
//! instruction.

pub mod context;
pub mod error;
pub mod instructions;
pub mod processor;
