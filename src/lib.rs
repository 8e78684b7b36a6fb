use vstd::prelude::*;

pub mod ast;
pub mod grammar;
pub mod lexer;
pub mod parser;
pub mod properties;
pub mod scanning;

verus! {

} // verus!
