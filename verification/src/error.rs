//! Error values shared by the modules of the agent.

use vstd::prelude::*;

verus! {

/// What the agent needs to know of a failed operating-system call.
#[derive(Clone, Copy, Debug, PartialEq, Eq, Structural)]
pub enum IoError {
    /// A non-blocking call had nothing to deliver.
    WouldBlock,
    /// What was read is not valid UTF-8.
    InvalidData,
    /// Any other failure.
    Other,
}

/// What the agent needs to know of a failed HTTP exchange: the status that
/// the server answered with, or none where no answer came.
#[derive(Clone, Copy, Debug, PartialEq, Eq, Structural)]
pub struct HttpFailure {
    pub status: Option<u16>,
}

} // verus!
