//! The tasks the daemon runs side by side.
use crate::error::Error;
use vstd::prelude::*;

verus! {

/// How a task of the daemon ended.
#[derive(Debug)]
pub enum TaskResult {
    Completed,
    Shutdown,
    Failed(Error),
}

} // verus!
