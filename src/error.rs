use vstd::prelude::*;

verus! {

/// Why an injection job, or a step before it, stopped.
#[derive(Debug, Clone, Copy, PartialEq, Eq, Structural)]
pub enum InjectError {
    EnumerationError,
    ProcessNotFound,
    AccessDenied,
    NoSelection,
    OpenProcessError,
    AllocationFailed,
    WriteFailed,
    ModuleNotFound,
    SymbolNotFound,
    ImageParseError,
    RemoteLoadFailed,
    ProcessExited,
    Timeout,
}

} // verus!
