//! Decision logic of a shared-library injector: which processes qualify as
//! targets, which one the user picked, where the loader entry point lies in
//! the target, and the job that sequences the remote steps.
pub mod error;
pub mod job;
pub mod process;
pub mod resolve;
pub mod select;
