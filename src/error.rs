use vstd::prelude::*;

verus! {

/// Failure kinds shared by the kernel's fallible operations.
#[derive(Debug, Clone, Copy, PartialEq, Eq, Structural)]
pub enum InternalError {
    RepeatInitialization,
    DevProbeError,
    ElfParseError,
    NotEnoughMem,
    InvalidCpuId,
    InvalidVirtAddr,
    DuplicateTaskId,
    InvalidExecutorId,
    DuplicateExecutorId,
    InvalidInspectorId,
    DuplicateInspectorId,
    InvalidInspectorStatus,
    InvalidRuntimeStatus,
    InvalidRuntimeSchedTable,
    DuplicateRuntimeSchedTable,
    InvalidTimedEventStatus,
    InvalidApexName,
    InvalidApexPriority,
    InvalidApexNumCores,
    InvalidSyscallNumber,
    BusyLock,
}

/// Result of a fallible kernel operation.
pub type Result<T> = core::result::Result<T, InternalError>;

} // verus!
