use vstd::prelude::*;

pub mod bytes;
pub mod cli;
pub mod constants;
pub mod control;
pub mod instruction;
pub mod loader;
pub mod machine;
pub mod report;
pub mod text;

verus! {
} // verus!
