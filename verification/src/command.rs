//! Commands: deferred units of effect work returned by handlers. Executing a
//! command mutates the shared context and runtime surface and yields exactly
//! one follow-up message.

use vstd::prelude::*;
use crate::message::Message;
use crate::program::ProgramContext;
use crate::program::ProgramInner;

verus! {

/// The closed set of commands a handler can return. `Terminate` stops input
/// reading, marks the context as terminating, and yields the terminate
/// message.
#[derive(Debug, Clone, Copy, PartialEq, Eq, Structural)]
pub enum Command {
    Terminate,
}

/// The terminate command as a unit value, convertible into `Command`.
pub struct Terminate;

impl From<Terminate> for Command {
    fn from(value: Terminate) -> (r: Command) {
        let _ = value;
        Command::Terminate
    }
}

impl vstd::std_specs::convert::FromSpecImpl<Terminate> for Command {
    open spec fn obeys_from_spec() -> bool {
        true
    }

    open spec fn from_spec(value: Terminate) -> Command {
        Command::Terminate
    }
}

/// Executes one command against the shared context and the runtime control
/// surface, yielding the command's follow-up message. `Terminate` stops the
/// input reader, sets the monotonic terminating flag, and yields
/// `Message::Terminate`; re-executing it is harmless.
pub fn execute(cmd: &Command, context: &mut ProgramContext, inner: &mut ProgramInner) -> (msg:
    Message)
    ensures
        match cmd {
            Command::Terminate => {
                &&& msg is Terminate
                &&& *final(context) == (ProgramContext { terminating: true, ..*old(context) })
                &&& !final(inner).input.spec_reading()
                &&& final(inner).input.spec_mode() == old(inner).input.spec_mode()
                &&& final(inner).input.spec_fd() == old(inner).input.spec_fd()
                &&& final(inner).input.spec_written() == old(inner).input.spec_written()
                &&& final(inner).output == old(inner).output
                &&& final(inner).messages == old(inner).messages
            },
        },
{
    match cmd {
        Command::Terminate => {
            inner.input.read_stop();
            context.terminating = true;
            Message::Terminate
        },
    }
}

} // verus!
