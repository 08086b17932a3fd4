use vstd::prelude::*;

use crate::error::InjectError;
use crate::resolve::{export_address, export_spec, find_module, first_match, ExportLookup, ModuleInfo};

verus! {

/// Protection of a region allocated in a target process.
#[derive(Debug, Clone, Copy, PartialEq, Eq, Structural)]
pub enum Protection {
    ReadOnly,
    ReadWrite,
    ReadExecute,
    ReadWriteExecute,
}

/// A region allocated inside the target process.
#[derive(Debug, Clone, Copy, PartialEq, Eq, Structural)]
pub struct RemoteAllocation {
    pub address: u64,
    pub size: usize,
    pub protection: Protection,
}

/// Where an injection job stands.
#[derive(Debug, Clone, Copy, PartialEq, Eq, Structural)]
pub enum JobState {
    Idle,
    TargetAcquired,
    MemoryAllocated,
    PayloadWritten,
    SymbolResolved,
    Succeeded,
    Failed(InjectError),
}

/// The next outside step that a job asks its driver to perform.
#[derive(Debug, Clone, Copy, PartialEq, Eq, Structural)]
pub enum Action {
    /// Open the process with query, read, write and execute rights.
    Open { pid: u32 },
    /// Allocate a region in the target.
    Allocate { size: usize, protection: Protection },
    /// Write the job's payload at `address`.
    Write { address: u64 },
    /// Enumerate the target's loaded modules.
    ListModules,
    /// Look up the job's loader export in the image of the job's loader module.
    LookupExport,
    /// Run `entry(argument)` in the target and wait for its return value.
    CallRemote { entry: u64, argument: u64 },
    /// Release a region of the target.
    Free { address: u64, size: usize },
    /// Close the process handle.
    Close,
    /// Nothing is left to do.
    Done,
}

/// What the driver observed when it performed the last action.
pub enum Event {
    Opened,
    Allocated(u64),
    Written,
    Modules(Vec<ModuleInfo>),
    Export(ExportLookup),
    Returned(u64),
    TimedOut,
    StepFailed,
    ProcessExited,
    Freed,
    Closed,
}

/// One attempt to make process `pid` load the library at a path.
pub struct InjectionJob {
    pub pid: u32,
    /// The library path as a C string: its bytes and a terminating zero.
    pub payload: Vec<u8>,
    /// Substring that names the module holding the loader entry point.
    pub loader_module: String,
    /// Name of the loader entry point exported by that module.
    pub loader_export: String,
    pub state: JobState,
    pub allocation: Option<RemoteAllocation>,
    /// The loader module, once found in the target.
    pub loader: Option<ModuleInfo>,
    /// The loader entry point's address in the target, once resolved.
    pub entry: u64,
    pub handle_open: bool,
}

pub open spec fn is_terminal(s: JobState) -> bool {
    s is Succeeded || s is Failed
}

/// Every byte of the path but none of it zero, then a zero.
pub open spec fn c_string_of(path: Seq<u8>, payload: Seq<u8>) -> bool {
    payload == path.push(0u8) && forall|i: int| 0 <= i < path.len() ==> path[i] != 0u8
}

impl InjectionJob {
    /// The resources held in each state.
    pub open spec fn wf(&self) -> bool {
        &&& self.payload@.len() > 0
        &&& match self.state {
            JobState::Idle => self.allocation is None && !self.handle_open && self.loader is None,
            JobState::TargetAcquired => self.allocation is None && self.handle_open
                && self.loader is None,
            JobState::MemoryAllocated => self.allocation is Some && self.handle_open
                && self.loader is None,
            JobState::PayloadWritten => self.allocation is Some && self.handle_open,
            JobState::SymbolResolved => self.allocation is Some && self.handle_open
                && self.loader is Some,
            _ => self.allocation is Some ==> self.handle_open,
        }
        &&& match self.allocation {
            Some(a) => a.size == self.payload@.len(),
            None => true,
        }
    }

    /// The action that a job asks for next.
    pub open spec fn action_spec(&self) -> Action {
        match self.state {
            JobState::Idle => Action::Open { pid: self.pid },
            JobState::TargetAcquired => Action::Allocate {
                size: self.payload@.len() as usize,
                protection: Protection::ReadWriteExecute,
            },
            JobState::MemoryAllocated => Action::Write { address: self.allocation->Some_0.address },
            JobState::PayloadWritten => if self.loader is None {
                Action::ListModules
            } else {
                Action::LookupExport
            },
            JobState::SymbolResolved => Action::CallRemote {
                entry: self.entry,
                argument: self.allocation->Some_0.address,
            },
            _ => match self.allocation {
                Some(a) => Action::Free { address: a.address, size: a.size },
                None => if self.handle_open {
                    Action::Close
                } else {
                    Action::Done
                },
            },
        }
    }

    /// The state that follows an event.
    pub open spec fn next_state(&self, ev: Event) -> JobState {
        match self.state {
            JobState::Idle => match ev {
                Event::Opened => JobState::TargetAcquired,
                Event::StepFailed => JobState::Failed(InjectError::OpenProcessError),
                Event::ProcessExited => JobState::Failed(InjectError::ProcessExited),
                _ => self.state,
            },
            JobState::TargetAcquired => match ev {
                Event::Allocated(_) => JobState::MemoryAllocated,
                Event::StepFailed => JobState::Failed(InjectError::AllocationFailed),
                Event::ProcessExited => JobState::Failed(InjectError::ProcessExited),
                _ => self.state,
            },
            JobState::MemoryAllocated => match ev {
                Event::Written => JobState::PayloadWritten,
                Event::StepFailed => JobState::Failed(InjectError::WriteFailed),
                Event::ProcessExited => JobState::Failed(InjectError::ProcessExited),
                _ => self.state,
            },
            JobState::PayloadWritten => match ev {
                Event::Modules(ms) => if self.loader is None && first_match(
                    ms@,
                    self.loader_module@,
                ) is None {
                    JobState::Failed(InjectError::ModuleNotFound)
                } else {
                    self.state
                },
                Event::Export(e) => match self.loader {
                    Some(m) => match export_spec(m.base_address, e) {
                        Ok(_) => JobState::SymbolResolved,
                        Err(err) => JobState::Failed(err),
                    },
                    None => self.state,
                },
                Event::StepFailed => if self.loader is None {
                    JobState::Failed(InjectError::AccessDenied)
                } else {
                    JobState::Failed(InjectError::ImageParseError)
                },
                Event::ProcessExited => JobState::Failed(InjectError::ProcessExited),
                _ => self.state,
            },
            JobState::SymbolResolved => match ev {
                Event::Returned(v) => if v != 0 {
                    JobState::Succeeded
                } else {
                    JobState::Failed(InjectError::RemoteLoadFailed)
                },
                Event::TimedOut => JobState::Failed(InjectError::Timeout),
                Event::StepFailed => JobState::Failed(InjectError::RemoteLoadFailed),
                Event::ProcessExited => JobState::Failed(InjectError::ProcessExited),
                _ => self.state,
            },
            _ => self.state,
        }
    }

    /// The job after an event.
    pub open spec fn step_spec(&self, ev: Event) -> InjectionJob {
        let s = self.state;
        let next = self.next_state(ev);
        InjectionJob {
            state: next,
            allocation: match ev {
                Event::Allocated(a) => if s is TargetAcquired {
                    Some(
                        RemoteAllocation {
                            address: a,
                            size: self.payload@.len() as usize,
                            protection: Protection::ReadWriteExecute,
                        },
                    )
                } else {
                    self.allocation
                },
                // The remote call may still read the region: it is left in place.
                Event::TimedOut => if s is SymbolResolved {
                    None
                } else {
                    self.allocation
                },
                Event::Freed => if is_terminal(s) {
                    None
                } else {
                    self.allocation
                },
                _ => self.allocation,
            },
            loader: match ev {
                Event::Modules(ms) => if s is PayloadWritten && self.loader is None
                    && first_match(ms@, self.loader_module@) is Some {
                    Some(ms@[first_match(ms@, self.loader_module@)->Some_0])
                } else {
                    self.loader
                },
                _ => self.loader,
            },
            entry: if next is SymbolResolved && !(s is SymbolResolved) {
                export_spec(self.loader->Some_0.base_address, ev->Export_0)->Ok_0
            } else {
                self.entry
            },
            handle_open: match ev {
                Event::Opened => if s is Idle {
                    true
                } else {
                    self.handle_open
                },
                Event::Closed => if is_terminal(s) && self.allocation is None {
                    false
                } else {
                    self.handle_open
                },
                _ => self.handle_open,
            },
            ..*self
        }
    }

    /// Starts a job that makes process `pid` load the library at `path`
    /// (its bytes) through the export `loader_export` of the first module
    /// whose name contains `loader_module`. `None` when the path holds a zero
    /// byte and so cannot be passed as a C string.
    pub fn new(pid: u32, path: Vec<u8>, loader_module: String, loader_export: String) -> (r: Option<
        InjectionJob,
    >)
        requires
            path@.len() < usize::MAX,
        ensures
            (r is Some) == (forall|i: int| 0 <= i < path@.len() ==> path@[i] != 0u8),
            r matches Some(j) ==> {
                &&& j.wf()
                &&& j.pid == pid
                &&& c_string_of(path@, j.payload@)
                &&& j.loader_module == loader_module
                &&& j.loader_export == loader_export
                &&& j.state == JobState::Idle
            },
    {
        let mut i: usize = 0;
        while i < path.len()
            invariant
                i <= path@.len(),
                forall|k: int| 0 <= k < i ==> path@[k] != 0u8,
            decreases path@.len() - i,
        {
            if path[i] == 0u8 {
                return None;
            }
            i = i + 1;
        }
        let mut payload = path;
        payload.push(0u8);
        Some(
            InjectionJob {
                pid,
                payload,
                loader_module,
                loader_export,
                state: JobState::Idle,
                allocation: None,
                loader: None,
                entry: 0,
                handle_open: false,
            },
        )
    }

    /// The next outside step to perform.
    pub fn next_action(&self) -> (r: Action)
        requires
            self.wf(),
        ensures
            r == self.action_spec(),
    {
        match self.state {
            JobState::Idle => Action::Open { pid: self.pid },
            JobState::TargetAcquired => Action::Allocate {
                size: self.payload.len(),
                protection: Protection::ReadWriteExecute,
            },
            JobState::MemoryAllocated => {
                let a = self.allocation.unwrap();
                Action::Write { address: a.address }
            },
            JobState::PayloadWritten => if self.loader.is_none() {
                Action::ListModules
            } else {
                Action::LookupExport
            },
            JobState::SymbolResolved => {
                let a = self.allocation.unwrap();
                Action::CallRemote { entry: self.entry, argument: a.address }
            },
            _ => match self.allocation {
                Some(a) => Action::Free { address: a.address, size: a.size },
                None => if self.handle_open {
                    Action::Close
                } else {
                    Action::Done
                },
            },
        }
    }

    /// Whether the job has ended and released everything it held.
    pub fn is_done(&self) -> (r: bool)
        requires
            self.wf(),
        ensures
            r == (self.action_spec() == Action::Done),
    {
        let a = self.next_action();
        match a {
            Action::Done => true,
            _ => false,
        }
    }

    fn fail(&mut self, e: InjectError)
        ensures
            *final(self) == (InjectionJob { state: JobState::Failed(e), ..*old(self) }),
    {
        self.state = JobState::Failed(e);
    }

    /// Advances the job by what the driver observed.
    pub fn on_event(&mut self, ev: Event)
        requires
            old(self).wf(),
        ensures
            final(self).wf(),
            *final(self) == old(self).step_spec(ev),
    {
        let ghost ev0 = ev;
        match self.state {
            JobState::Idle => match ev {
                Event::Opened => {
                    self.state = JobState::TargetAcquired;
                    self.handle_open = true;
                },
                Event::StepFailed => self.fail(InjectError::OpenProcessError),
                Event::ProcessExited => self.fail(InjectError::ProcessExited),
                _ => {},
            },
            JobState::TargetAcquired => match ev {
                Event::Allocated(a) => {
                    self.state = JobState::MemoryAllocated;
                    self.allocation = Some(
                        RemoteAllocation {
                            address: a,
                            size: self.payload.len(),
                            protection: Protection::ReadWriteExecute,
                        },
                    );
                },
                Event::StepFailed => self.fail(InjectError::AllocationFailed),
                Event::ProcessExited => self.fail(InjectError::ProcessExited),
                _ => {},
            },
            JobState::MemoryAllocated => match ev {
                Event::Written => self.state = JobState::PayloadWritten,
                Event::StepFailed => self.fail(InjectError::WriteFailed),
                Event::ProcessExited => self.fail(InjectError::ProcessExited),
                _ => {},
            },
            JobState::PayloadWritten => match ev {
                Event::Modules(ms) => if self.loader.is_none() {
                    match find_module(&ms, self.loader_module.as_str()) {
                        None => self.fail(InjectError::ModuleNotFound),
                        Some(i) => {
                            let m = &ms[i];
                            self.loader = Some(
                                ModuleInfo {
                                    name: m.name.clone(),
                                    base_address: m.base_address,
                                    size: m.size,
                                    path: m.path.clone(),
                                },
                            );
                        },
                    }
                },
                Event::Export(e) => if let Some(m) = &self.loader {
                    match export_address(m.base_address, e) {
                        Ok(addr) => {
                            self.state = JobState::SymbolResolved;
                            self.entry = addr;
                        },
                        Err(err) => self.fail(err),
                    }
                },
                Event::StepFailed => if self.loader.is_none() {
                    self.fail(InjectError::AccessDenied)
                } else {
                    self.fail(InjectError::ImageParseError)
                },
                Event::ProcessExited => self.fail(InjectError::ProcessExited),
                _ => {},
            },
            JobState::SymbolResolved => match ev {
                Event::Returned(v) => if v != 0 {
                    self.state = JobState::Succeeded;
                } else {
                    self.fail(InjectError::RemoteLoadFailed)
                },
                Event::TimedOut => {
                    self.fail(InjectError::Timeout);
                    self.allocation = None;
                },
                Event::StepFailed => self.fail(InjectError::RemoteLoadFailed),
                Event::ProcessExited => self.fail(InjectError::ProcessExited),
                _ => {},
            },
            _ => match ev {
                Event::Freed => self.allocation = None,
                Event::Closed => if self.allocation.is_none() {
                    self.handle_open = false;
                },
                _ => {},
            },
        }
    }
}

/// A job that fails after it allocated in the target (other than by a
/// timed-out remote call) asks next to free that allocation, before anything
/// else.
pub proof fn lemma_failure_frees_allocation(j: InjectionJob, ev: Event)
    requires
        j.wf(),
        j.allocation is Some,
        !is_terminal(j.state),
        j.next_state(ev) is Failed,
        j.next_state(ev) != JobState::Failed(InjectError::Timeout),
    ensures
        j.step_spec(ev).allocation == j.allocation,
        j.step_spec(ev).action_spec() == (Action::Free {
            address: j.allocation->Some_0.address,
            size: j.allocation->Some_0.size,
        }),
{
}

/// Once the driver reports the allocation freed, the job asks for no second
/// free.
pub proof fn lemma_freed_once(j: InjectionJob)
    requires
        j.wf(),
        j.action_spec() is Free,
    ensures
        j.step_spec(Event::Freed).wf(),
        j.step_spec(Event::Freed).allocation is None,
        !(j.step_spec(Event::Freed).action_spec() is Free),
{
}

/// A job reports that nothing is left to do only when it has ended and holds
/// neither an allocation nor the process handle.
pub proof fn lemma_done_holds_nothing(j: InjectionJob)
    requires
        j.wf(),
        j.action_spec() == Action::Done,
    ensures
        is_terminal(j.state),
        j.allocation is None,
        !j.handle_open,
{
}

} // verus!
