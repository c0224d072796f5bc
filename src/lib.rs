//! A lexical scanner for a small dynamically typed scripting language.
//!
//! The scanner turns source text into an ordered sequence of classified
//! tokens, collecting every lexical error it meets on the way.
use vstd::prelude::*;

pub mod grammar;
pub mod laws;
pub mod lox_error;
pub mod scanner;
pub mod text;
pub mod token;

verus! {

} // verus!
