use vstd::prelude::*;

verus! {

/// A virtual address.
#[derive(Debug, Clone, Copy, PartialEq, Eq, Structural)]
pub struct VirtAddr(pub usize);

/// Access permissions of a page, as a set of flag bits.
#[derive(Debug, Clone, Copy, PartialEq, Eq, Structural)]
pub struct PagePerm(pub usize);

/// Why control entered the trap handler, as the trap layer delivers it.
#[derive(Debug, Clone, Copy, PartialEq, Eq, Structural)]
pub enum TrapReason {
    ExternalInterrupt,
    SoftwareInterrupt,
    TimerInterrupt,
    SystemCall,
    Breakpoint { addr: VirtAddr },
    PageFault { addr: VirtAddr, perm: PagePerm },
    Unknown { code: usize },
}

/// The saved register context of a trapped computation, implemented by each
/// architecture.
pub trait GenericContext: Clone + Copy {
    fn trap_reason(&self) -> TrapReason;

    fn syscall_num(&self) -> usize;

    fn syscall_args(&self) -> [usize; 7];

    fn syscall_ret(&mut self, ret: usize);

    fn user_setup(&mut self, entry_point: usize, stack_top: usize);

    fn enable_int(&mut self);

    fn disable_int(&mut self);

    fn pc_advance(&mut self);

    fn run(&mut self);
}

} // verus!
