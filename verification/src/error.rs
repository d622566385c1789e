//! Error taxonomy of the runtime: reactor error codes, the runtime's own
//! error kinds, and the program-level error that bootstrap and the run loop
//! report.

use vstd::prelude::*;
use crate::handle::HandleType;

verus! {

/// Error conditions reported by the reactor layer.
#[derive(Debug, Clone, Copy, PartialEq, Eq, Structural)]
pub enum Errno {
    EOF,
    ENOMEM,
    EINVAL,
    EBADF,
    ENOTTY,
    EAGAIN,
    ECANCELED,
    EIO,
    UNKNOWN,
}

/// Runtime error kinds: a file descriptor of the wrong handle type, or an
/// error surfaced by the reactor.
#[derive(Debug, Clone, Copy, PartialEq, Eq, Structural)]
pub enum TUIError {
    InvalidHandleType(HandleType, HandleType),
    InternalUVError(Errno),
}

impl From<Errno> for TUIError {
    fn from(value: Errno) -> (r: Self) {
        TUIError::InternalUVError(value)
    }
}

impl vstd::std_specs::convert::FromSpecImpl<Errno> for TUIError {
    open spec fn obeys_from_spec() -> bool {
        true
    }

    open spec fn from_spec(value: Errno) -> Self {
        TUIError::InternalUVError(value)
    }
}

/// Program-level failure: a bootstrap step that could not complete, or an
/// internal runtime error.
#[derive(Debug)]
pub enum ProgramError {
    InitError(String),
    InternalError(TUIError),
}

impl From<TUIError> for ProgramError {
    fn from(value: TUIError) -> (r: Self) {
        ProgramError::InternalError(value)
    }
}

impl vstd::std_specs::convert::FromSpecImpl<TUIError> for ProgramError {
    open spec fn obeys_from_spec() -> bool {
        true
    }

    open spec fn from_spec(value: TUIError) -> Self {
        ProgramError::InternalError(value)
    }
}

} // verus!
