//! Terminal streams, modelled as explicit state: the terminal mode, whether
//! the stream is being read, and the record of everything written through it.

use vstd::prelude::*;
use crate::buf::Buf;
use crate::buf::spec_join;
use crate::error::Errno;
use crate::event_loop::Loop;
use crate::handle::Handle;
use crate::handle::HandleType;
use crate::handle::IHandle;

verus! {

/// Terminal input modes.
#[allow(non_camel_case_types)]
#[derive(Debug, Clone, Copy, PartialEq, Eq, Structural)]
pub enum Mode {
    NORMAL,
    RAW,
    IO,
}

/// Whether the console understands virtual-terminal sequences.
#[allow(non_camel_case_types)]
#[derive(Debug, Clone, Copy, PartialEq, Eq, Structural)]
pub enum VTerminal {
    SUPPORTED,
    UNSUPPORTED,
}

/// A pending write token handed to `TTYStream::write`.
pub struct WriteRequest;

impl WriteRequest {
    pub fn new() -> (r: Self) {
        WriteRequest
    }
}

/// A terminal stream: the file descriptor it was opened on, its mode,
/// whether reading is active, and the writes performed through it, newest
/// last.
pub struct TTYStream {
    fd: i32,
    mode: Mode,
    reading: bool,
    written: Vec<Vec<u8>>,
}

impl TTYStream {
    /// The descriptor this stream was opened on.
    pub closed spec fn spec_fd(&self) -> i32 {
        self.fd
    }

    /// The terminal mode the stream is in.
    pub closed spec fn spec_mode(&self) -> Mode {
        self.mode
    }

    /// Whether input reading is active.
    pub closed spec fn spec_reading(&self) -> bool {
        self.reading
    }

    /// Every write performed through the stream, in order, as the byte
    /// sequences that went out.
    pub closed spec fn spec_written(&self) -> Seq<Seq<u8>> {
        self.written@.map_values(|w: Vec<u8>| w@)
    }

    /// Puts the terminal into the given mode.
    pub fn set_mode(&mut self, mode: Mode) -> (r: Result<(), Errno>)
        ensures
            r is Ok,
            final(self).spec_mode() == mode,
            final(self).spec_fd() == old(self).spec_fd(),
            final(self).spec_reading() == old(self).spec_reading(),
            final(self).spec_written() == old(self).spec_written(),
    {
        self.mode = mode;
        Ok(())
    }

    /// Restores the terminal to its normal mode.
    pub fn reset_mode(&mut self) -> (r: Result<(), Errno>)
        ensures
            r is Ok,
            final(self).spec_mode() == Mode::NORMAL,
            final(self).spec_fd() == old(self).spec_fd(),
            final(self).spec_reading() == old(self).spec_reading(),
            final(self).spec_written() == old(self).spec_written(),
    {
        self.mode = Mode::NORMAL;
        Ok(())
    }

    /// Starts reading input from the stream.
    pub fn read_start(&mut self) -> (r: Result<(), Errno>)
        ensures
            r is Ok,
            final(self).spec_reading(),
            final(self).spec_mode() == old(self).spec_mode(),
            final(self).spec_fd() == old(self).spec_fd(),
            final(self).spec_written() == old(self).spec_written(),
    {
        self.reading = true;
        Ok(())
    }

    /// Stops reading input; stopping twice is the same as stopping once.
    pub fn read_stop(&mut self)
        ensures
            *final(self) == spec_read_stop(*old(self)),
            !final(self).spec_reading(),
            final(self).spec_mode() == old(self).spec_mode(),
            final(self).spec_fd() == old(self).spec_fd(),
            final(self).spec_written() == old(self).spec_written(),
    {
        self.reading = false;
    }

    /// Whether input reading is active.
    pub fn is_reading(&self) -> (r: bool)
        ensures
            r == self.spec_reading(),
    {
        self.reading
    }

    /// Writes the contents of `bufs`, joined in order, as one write.
    pub fn write(&mut self, req: WriteRequest, bufs: &Vec<Buf>) -> (r: Result<(), Errno>)
        ensures
            r is Ok,
            final(self).spec_written() == old(self).spec_written().push(spec_join(bufs@)),
            final(self).spec_mode() == old(self).spec_mode(),
            final(self).spec_fd() == old(self).spec_fd(),
            final(self).spec_reading() == old(self).spec_reading(),
    {
        let _ = req;
        let mut out: Vec<u8> = Vec::new();
        let mut k: usize = 0;
        while k < bufs.len()
            invariant
                k <= bufs@.len(),
                out@ == spec_join(bufs@.take(k as int)),
            decreases bufs@.len() - k,
        {
            let mut part = bufs[k].content();
            out.append(&mut part);
            k = k + 1;
            proof {
                assert(bufs@.take(k as int).drop_last() =~= bufs@.take(k as int - 1));
                assert(out@ =~= spec_join(bufs@.take(k as int)));
            }
        }
        proof {
            assert(bufs@.take(bufs@.len() as int) =~= bufs@);
        }
        self.written.push(out);
        proof {
            assert(self.spec_written() =~= old(self).spec_written().push(spec_join(bufs@)));
        }
        Ok(())
    }

    /// Writes the given bytes exactly as they stand, as one write.
    pub fn write_bytes(&mut self, req: WriteRequest, bytes: Vec<u8>) -> (r: Result<(), Errno>)
        ensures
            r is Ok,
            final(self).spec_written() == old(self).spec_written().push(bytes@),
            final(self).spec_mode() == old(self).spec_mode(),
            final(self).spec_fd() == old(self).spec_fd(),
            final(self).spec_reading() == old(self).spec_reading(),
    {
        let _ = req;
        self.written.push(bytes);
        proof {
            assert(self.spec_written() =~= old(self).spec_written().push(
                self.written@[self.written@.len() - 1]@,
            ));
        }
        Ok(())
    }

    /// Hands out everything written so far and clears the record.
    pub fn take_output(&mut self) -> (r: Vec<Vec<u8>>)
        ensures
            r@.map_values(|w: Vec<u8>| w@) == old(self).spec_written(),
            final(self).spec_written() == Seq::<Seq<u8>>::empty(),
            final(self).spec_mode() == old(self).spec_mode(),
            final(self).spec_fd() == old(self).spec_fd(),
            final(self).spec_reading() == old(self).spec_reading(),
    {
        let mut out: Vec<Vec<u8>> = Vec::new();
        std::mem::swap(&mut out, &mut self.written);
        proof {
            assert(self.spec_written() =~= Seq::<Seq<u8>>::empty());
        }
        out
    }
}

/// The state a stream is left in by `read_stop`: not reading, everything
/// else untouched.
pub closed spec fn spec_read_stop(t: TTYStream) -> TTYStream {
    TTYStream { reading: false, ..t }
}

/// Stopping the input reader is idempotent: a second stop on an
/// already-stopped stream leaves the state exactly where the first left it.
pub proof fn lemma_read_stop_idempotent(t: TTYStream)
    ensures
        spec_read_stop(spec_read_stop(t)) == spec_read_stop(t),
{
}

impl IHandle for TTYStream {
    open spec fn spec_handle(&self) -> Handle {
        Handle { htype: HandleType::TTY, active: self.spec_reading(), closing: false }
    }

    fn into_handle(self) -> (r: Handle) {
        let reading = self.reading;
        Handle { htype: HandleType::TTY, active: reading, closing: false }
    }
}

impl Loop {
    /// A fresh terminal stream on the given descriptor: normal mode, not
    /// reading, nothing written.
    pub fn new_tty(&self, fd: i32) -> (r: Result<TTYStream, Errno>)
        ensures
            r matches Ok(t) && t.spec_fd() == fd && t.spec_mode() == Mode::NORMAL
                && !t.spec_reading() && t.spec_written() == Seq::<Seq<u8>>::empty(),
    {
        let t = TTYStream { fd, mode: Mode::NORMAL, reading: false, written: Vec::new() };
        proof {
            assert(t.spec_written() =~= Seq::<Seq<u8>>::empty());
        }
        Ok(t)
    }
}

} // verus!
