//! Ruby style checks ("cops") over a Ruby syntax tree, with verified contracts.
use vstd::prelude::*;

pub mod bytes;
pub mod source;
pub mod ast;
pub mod diagnostic;
pub mod pattern;
pub mod cop;

verus! {

} // verus!
