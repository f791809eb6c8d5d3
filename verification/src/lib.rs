//! A directory-stack library: an ordered list of text entries, persisted one
//! entry per line, with operations to peek, rotate and mutate the list and a
//! small command grammar that drives them.
//!
//! The stack itself is a `Vec` of byte-string entries, front first. The codec
//! turns a stack into the flat byte layout of the storage file and back; the
//! dispatcher parses command tokens into operations and applies each one as a
//! pure step from the current stack to a new stack plus output.

pub mod args;
pub mod codec;
pub mod dispatch;
pub mod entry;
pub mod errors;
pub mod stack;
