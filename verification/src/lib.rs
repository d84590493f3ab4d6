//! Reading and writing of message catalogs in the Portable Object text
//! format: a line-oriented, quoted-string grammar with comments, string
//! continuation across lines, translation contexts and plural groups.
//!
//! The library parses one record buffer into a [`parser::PoMessage`],
//! splits a whole catalog text into such buffers, and renders a message
//! back into its canonical text form.

use vstd::prelude::*;

pub mod chars;
pub mod escape;
pub mod grammar;
pub mod laws;
pub mod message;
pub mod parser;
pub mod render;
pub mod report;
pub mod stream;
pub mod symbols;

verus! {

} // verus!
