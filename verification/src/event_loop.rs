//! The reactor, modelled as explicit state: whether it is alive, whether a
//! stop was requested, and its cached millisecond clock.

use vstd::prelude::*;
use crate::error::Errno;
use crate::time::datetime_from_millis;

verus! {

/// Options a reactor can be configured with.
#[allow(non_camel_case_types)]
#[derive(Debug, Clone, Copy, PartialEq, Eq, Structural)]
pub enum ConfigurationOption {
    BLOCK_SIGNAL,
    METRICS_IDLE_TIME,
}

/// How long one call into the reactor keeps running.
#[allow(non_camel_case_types)]
#[derive(Debug, Clone, Copy, PartialEq, Eq, Structural)]
pub enum RunMode {
    DEFAULT,
    ONCE,
    NOWAIT,
}

/// A reactor: alive until closed, stoppable, with a cached clock that is
/// advanced explicitly.
pub struct Loop {
    alive: bool,
    stopped: bool,
    now_ms: u64,
}

impl Loop {
    /// Whether the reactor still has work or handles.
    pub closed spec fn spec_alive(&self) -> bool {
        self.alive
    }

    /// Whether a stop has been requested.
    pub closed spec fn spec_stopped(&self) -> bool {
        self.stopped
    }

    /// The cached clock, in milliseconds.
    pub closed spec fn spec_now_ms(&self) -> u64 {
        self.now_ms
    }

    /// A fresh reactor: alive, not stopped, clock at zero.
    pub fn new() -> (r: Result<Self, Errno>)
        ensures
            r matches Ok(l) && l.spec_alive() && !l.spec_stopped() && l.spec_now_ms() == 0,
    {
        Ok(Loop { alive: true, stopped: false, now_ms: 0 })
    }

    /// Applies a configuration option; the modelled state is unaffected.
    pub fn configure(&mut self, option: ConfigurationOption) -> (r: Result<(), Errno>)
        ensures
            r is Ok,
            *final(self) == *old(self),
    {
        let _ = option;
        Ok(())
    }

    /// Whether the reactor still has work or handles.
    pub fn alive(&self) -> (r: bool)
        ensures
            r == self.spec_alive(),
    {
        self.alive
    }

    /// Requests that the reactor stop at the next opportunity.
    pub fn stop(&mut self)
        ensures
            final(self).spec_stopped(),
            final(self).spec_alive() == old(self).spec_alive(),
            final(self).spec_now_ms() == old(self).spec_now_ms(),
    {
        self.stopped = true;
    }

    /// Advances the cached clock to the given millisecond count.
    pub fn update_time(&mut self, millis: u64)
        ensures
            final(self).spec_now_ms() == millis,
            final(self).spec_alive() == old(self).spec_alive(),
            final(self).spec_stopped() == old(self).spec_stopped(),
    {
        self.now_ms = millis;
    }

    /// The cached clock as a calendar timestamp; defined for every clock
    /// value a reactor can reach in practice.
    pub fn now(&self) -> (r: Option<chrono::NaiveDateTime>)
        ensures
            self.spec_now_ms() <= 8_000_000_000_000_000 ==> r is Some,
            self.spec_now_ms() > 8_000_000_000_000_000 ==> r is None,
    {
        if self.now_ms <= 8_000_000_000_000_000u64 {
            datetime_from_millis(self.now_ms as i64)
        } else {
            None
        }
    }
}

impl Default for Loop {
    /// A fresh reactor, as `new` yields it.
    fn default() -> (r: Self)
        ensures
            r.spec_alive() && !r.spec_stopped() && r.spec_now_ms() == 0,
    {
        Loop { alive: true, stopped: false, now_ms: 0 }
    }
}

} // verus!
