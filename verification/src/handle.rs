//! Handles of the reactor, modelled as explicit state: what kind a handle
//! has, whether it is active, and — for the check handle that drives the
//! render tick — whether it has been started.

use vstd::prelude::*;
use crate::error::Errno;
use crate::error::TUIError;
use crate::event_loop::Loop;

verus! {

/// The kinds of handle the reactor distinguishes.
#[allow(non_camel_case_types)]
#[derive(Debug, Clone, Copy, PartialEq, Eq, Structural)]
pub enum HandleType {
    UNKNOWN_HANDLE,
    ASYNC,
    CHECK,
    FS_EVENT,
    FS_POLL,
    HANDLE,
    IDLE,
    NAMED_PIPE,
    POLL,
    PREPARE,
    PROCESS,
    STREAM,
    TCP,
    TIMER,
    TTY,
    UDP,
    SIGNAL,
    FILE,
    HANDLE_TYPE_MAX,
}

/// A handle's observable state.
#[derive(Debug, Clone, Copy, PartialEq, Eq, Structural)]
pub struct Handle {
    pub htype: HandleType,
    pub active: bool,
    pub closing: bool,
}

impl Handle {
    /// Whether the handle is currently active.
    pub fn active(&self) -> (r: bool)
        ensures
            r == self.active,
    {
        self.active
    }

    /// Whether the handle is being closed.
    pub fn closing(&self) -> (r: bool)
        ensures
            r == self.closing,
    {
        self.closing
    }

    /// The handle's kind.
    pub fn get_type(&self) -> (r: HandleType)
        ensures
            r == self.htype,
    {
        self.htype
    }
}

/// Anything that can present itself as a plain handle.
pub trait IHandle {
    /// The handle state this value presents.
    spec fn spec_handle(&self) -> Handle;

    fn into_handle(self) -> (r: Handle)
        ensures
            r == self.spec_handle(),
    ;
}

/// The check-phase handle: fired once per reactor iteration, it drives the
/// render tick. Stopping an already-stopped handle is a no-op.
pub struct CheckHandle {
    started: bool,
}

impl CheckHandle {
    /// Whether the tick driver is running.
    pub closed spec fn spec_started(&self) -> bool {
        self.started
    }

    /// Starts the tick driver.
    pub fn start(&mut self) -> (r: Result<(), Errno>)
        ensures
            r is Ok,
            final(self).spec_started(),
    {
        self.started = true;
        Ok(())
    }

    /// Stops the tick driver; stopping twice is the same as stopping once.
    pub fn stop(&mut self)
        ensures
            *final(self) == spec_check_stop(*old(self)),
            !final(self).spec_started(),
    {
        self.started = false;
    }

    /// Whether the tick driver is running.
    pub fn is_started(&self) -> (r: bool)
        ensures
            r == self.spec_started(),
    {
        self.started
    }
}

/// The bootstrap's first gate: a descriptor must present the expected
/// handle kind — a real terminal, for the runtime's streams — and any other
/// kind is the invalid-handle error naming both.
pub fn verify_handle_type(expected: HandleType, actual: HandleType) -> (r: Result<(), TUIError>)
    ensures
        r is Ok <==> expected == actual,
        r matches Err(e) ==> e == TUIError::InvalidHandleType(expected, actual),
{
    if expected == actual {
        Ok(())
    } else {
        Err(TUIError::InvalidHandleType(expected, actual))
    }
}

/// The state a check handle is left in by `stop`: not started, whatever it
/// was before.
pub closed spec fn spec_check_stop(h: CheckHandle) -> CheckHandle {
    CheckHandle { started: false }
}

/// Stopping the tick driver is idempotent: a second stop on an
/// already-stopped handle leaves the state exactly where the first left it.
pub proof fn lemma_check_stop_idempotent(h: CheckHandle)
    ensures
        spec_check_stop(spec_check_stop(h)) == spec_check_stop(h),
{
}

impl IHandle for CheckHandle {
    open spec fn spec_handle(&self) -> Handle {
        Handle { htype: HandleType::CHECK, active: self.spec_started(), closing: false }
    }

    fn into_handle(self) -> (r: Handle) {
        Handle { htype: HandleType::CHECK, active: self.started, closing: false }
    }
}

impl Loop {
    /// A fresh, not yet started check handle on this reactor.
    pub fn new_check(&self) -> (r: Result<CheckHandle, Errno>)
        ensures
            r matches Ok(h) && !h.spec_started(),
    {
        Ok(CheckHandle { started: false })
    }
}

} // verus!
