//! The part of a socket shared by all four of its operation components: the
//! file descriptor, the sticky error, and the readiness bitmask.

use vstd::prelude::*;
use crate::events::Events;
use crate::events::difference_of;
use crate::events::union_of;

verus! {

/// Per-socket shared state. One `Common` is made per socket and handed by
/// reference to the acceptor, connector, sender and receiver that multiplex
/// over the same descriptor; closing the descriptor is the owner's business
/// once the last of them is gone.
pub struct Common {
    fd: i32,
    pollee: Events,
    error: Option<i32>,
}

impl Common {
    /// The platform file descriptor.
    pub closed spec fn spec_fd(self) -> i32 {
        self.fd
    }

    /// The latched error code, if any.
    pub closed spec fn spec_error(self) -> Option<i32> {
        self.error
    }

    /// The readiness bitmask.
    pub closed spec fn spec_pollee(self) -> Events {
        self.pollee
    }

    /// Wrap an already-created socket descriptor with a clear readiness mask
    /// and no latched error.
    pub fn new(fd: i32) -> (c: Common)
        requires
            fd >= 0,
        ensures
            c.spec_fd() == fd,
            c.spec_error() is None,
            c.spec_pollee() == (Events { is_in: false, is_out: false, is_err: false, is_hup: false }),
    {
        Common { fd, pollee: Events::empty(), error: None }
    }

    /// The latched error code, if any.
    pub fn error(&self) -> (r: Option<i32>)
        ensures
            r == self.spec_error(),
    {
        self.error
    }

    /// Latch an error code. The code must be negative (errno-style). The last
    /// write wins: a later failure overwrites an earlier one, deliberately.
    pub fn set_error(&mut self, error: i32)
        requires
            error < 0,
        ensures
            final(self).spec_error() == Some(error),
            final(self).spec_fd() == old(self).spec_fd(),
            final(self).spec_pollee() == old(self).spec_pollee(),
    {
        self.error = Some(error);
    }

    /// The platform file descriptor.
    pub fn fd(&self) -> (r: i32)
        ensures
            r == self.spec_fd(),
    {
        self.fd
    }

    /// The current readiness bitmask.
    pub fn pollee(&self) -> (r: Events)
        ensures
            r == self.spec_pollee(),
    {
        self.pollee
    }

    /// Raise readiness events, waking any task polling for them.
    pub fn add_events(&mut self, ev: Events)
        ensures
            final(self).spec_pollee() == union_of(old(self).spec_pollee(), ev),
            final(self).spec_fd() == old(self).spec_fd(),
            final(self).spec_error() == old(self).spec_error(),
    {
        self.pollee.add(ev);
    }

    /// Withdraw readiness events.
    pub fn remove_events(&mut self, ev: Events)
        ensures
            final(self).spec_pollee() == difference_of(old(self).spec_pollee(), ev),
            final(self).spec_fd() == old(self).spec_fd(),
            final(self).spec_error() == old(self).spec_error(),
    {
        self.pollee.remove(ev);
    }
}

} // verus!
