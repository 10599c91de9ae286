//! What the monitor asks the operating system to poll, and what it reports back.

use vstd::prelude::*;

verus! {

/// Readable.
pub const POLLIN: i16 = 0x1;

/// Writable.
pub const POLLOUT: i16 = 0x4;

/// An error condition.
pub const POLLERR: i16 = 0x8;

/// The other end hung up.
pub const POLLHUP: i16 = 0x10;

/// Not an open descriptor.
pub const POLLNVAL: i16 = 0x20;

/// One descriptor to poll.
#[derive(Clone, Copy, Debug, PartialEq, Eq, Structural)]
pub struct PollFd {
    /// The descriptor.
    pub fd: i32,
    /// Wait until it is readable.
    pub read: bool,
    /// Wait until it is writable.
    pub write: bool,
}

/// What `poll` reported for one descriptor.
#[derive(Clone, Copy, Debug, PartialEq, Eq, Structural)]
pub struct Ready {
    /// Readable, or at end of file.
    pub read: bool,
    /// Writable.
    pub write: bool,
    /// Error or invalid descriptor.
    pub error: bool,
}

impl Default for Ready {
    fn default() -> (r: Self)
        ensures
            r == (Ready { read: false, write: false, error: false }),
    {
        Ready { read: false, write: false, error: false }
    }
}

impl PollFd {
    /// The event mask to poll this descriptor with.
    pub fn events(&self) -> (m: i16)
        ensures
            m == (if self.read { POLLIN } else { 0 }) + (if self.write { POLLOUT } else { 0 }),
    {
        if self.read && self.write {
            5
        } else if self.read {
            POLLIN
        } else if self.write {
            POLLOUT
        } else {
            0
        }
    }
}

impl Ready {
    /// What a reported event mask says. A hang-up counts as readable: the reader sees the end
    /// of file.
    pub fn from_events(revents: i16) -> (r: Self)
        ensures
            r.read == (revents & (POLLIN | POLLHUP) != 0),
            r.write == (revents & POLLOUT != 0),
            r.error == (revents & (POLLERR | POLLNVAL) != 0),
    {
        Ready {
            read: revents & (POLLIN | POLLHUP) != 0,
            write: revents & POLLOUT != 0,
            error: revents & (POLLERR | POLLNVAL) != 0,
        }
    }
}

/// A wait in milliseconds as `poll` takes it, capped at its largest.
pub fn poll_timeout(ms: u128) -> (r: i32)
    ensures
        r == if ms <= 0x7fff_ffff { ms as int } else { 0x7fff_ffff },
{
    if ms <= 0x7fff_ffff {
        ms as i32
    } else {
        0x7fff_ffff
    }
}

} // verus!
