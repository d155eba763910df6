use vstd::prelude::*;

use crate::trap::{PagePerm, VirtAddr};

verus! {

/// Why control entered the kernel's trap handler, interrupts carried with
/// their cause number.
#[derive(Debug, Clone, Copy, PartialEq, Eq, Structural)]
pub enum TrapReason {
    Interrupt(usize),
    SystemCall,
    Breakpoint { addr: VirtAddr },
    PageFault { addr: VirtAddr, perm: PagePerm },
    Unknown { code: usize },
}

} // verus!
