use vstd::prelude::*;

pub mod bootargs;
pub mod color;
pub mod error;
pub mod executor;
pub mod inspector;
pub mod kern_trap;
pub mod runtime;
pub mod task;
pub mod trap;

verus! {

} // verus!
