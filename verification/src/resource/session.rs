//! A conversation with config space, replayed from the responses so far.
//!
//! Enumeration alternates between config space accesses and decisions. Here it
//! is a function of the responses that config space has given: it runs until
//! it needs a response that is not there yet, and its log then ends with the
//! read that asks for it.
use vstd::prelude::*;

verus! {

/// A config space access.
#[derive(Debug, Clone, Copy, PartialEq, Eq, Structural)]
pub enum ConfigAccess {
    /// Read of a register.
    Read {
        /// Bus number.
        bus: u8,
        /// Device and function number.
        devfn: u8,
        /// Register offset.
        offset: u16,
    },
    /// Write of a register.
    Write {
        /// Bus number.
        bus: u8,
        /// Device and function number.
        devfn: u8,
        /// Register offset.
        offset: u16,
        /// Value.
        value: u32,
    },
}

/// The responses of config space, how many of them have been used, and the
/// accesses made.
pub struct Trace {
    /// The responses.
    pub responses: Seq<u32>,
    /// How many have been used.
    pub pos: int,
    /// The accesses.
    pub log: Seq<ConfigAccess>,
}

/// The result of a part of the conversation: the trace behind it, and what it
/// found unless a response is missing.
pub struct Run<T> {
    /// The trace behind it.
    pub trace: Trace,
    /// What it found.
    pub found: Option<T>,
}

/// A run that has found something.
pub open spec fn found<T>(trace: Trace, value: T) -> Run<T> {
    Run { trace, found: Some(value) }
}

/// A run that waits for a response.
pub open spec fn pending<T>(trace: Trace) -> Run<T> {
    Run { trace, found: None }
}

impl Trace {
    /// The trace behind a write.
    pub open spec fn write(self, bus: u8, devfn: u8, offset: u16, value: u32) -> Trace {
        Trace { log: self.log.push(ConfigAccess::Write { bus, devfn, offset, value }), ..self }
    }

    /// A read: the next response, if it is there.
    pub open spec fn read(self, bus: u8, devfn: u8, offset: u16) -> Run<u32> {
        let log = self.log.push(ConfigAccess::Read { bus, devfn, offset });
        if self.pos < self.responses.len() {
            Run {
                trace: Trace { pos: self.pos + 1, log, ..self },
                found: Some(self.responses[self.pos]),
            }
        } else {
            Run { trace: Trace { log, ..self }, found: None }
        }
    }
}

/// A conversation with config space.
pub struct ConfigSession {
    /// The responses so far.
    pub responses: Vec<u32>,
    /// How many of them have been used.
    pub next: usize,
    /// The accesses made.
    pub log: Vec<ConfigAccess>,
}

impl ConfigSession {
    /// The trace of the session.
    pub open spec fn view(&self) -> Trace {
        Trace { responses: self.responses@, pos: self.next as int, log: self.log@ }
    }

    /// Whether no more responses have been used than there are.
    pub open spec fn wf(&self) -> bool {
        self.next <= self.responses@.len()
    }

    /// Starts a conversation with the responses so far.
    pub fn new(responses: Vec<u32>) -> (s: ConfigSession)
        ensures
            s.wf(),
            s@ == (Trace { responses: responses@, pos: 0, log: Seq::empty() }),
    {
        ConfigSession { responses, next: 0, log: Vec::new() }
    }

    /// Reads a register: the next response, or `None` if it is not there yet.
    pub fn read_u32(&mut self, bus: u8, devfn: u8, offset: u16) -> (r: Option<u32>)
        requires
            old(self).wf(),
        ensures
            final(self).wf(),
            (Run { trace: final(self)@, found: r }) == old(self)@.read(bus, devfn, offset),
    {
        self.log.push(ConfigAccess::Read { bus, devfn, offset });
        if self.next < self.responses.len() {
            let value: u32 = self.responses[self.next];
            self.next = self.next + 1;
            Some(value)
        } else {
            None
        }
    }

    /// Writes a register.
    pub fn write_u32(&mut self, bus: u8, devfn: u8, offset: u16, value: u32)
        requires
            old(self).wf(),
        ensures
            final(self).wf(),
            final(self)@ == old(self)@.write(bus, devfn, offset, value),
    {
        self.log.push(ConfigAccess::Write { bus, devfn, offset, value });
    }
}

}
