//! The connect side of a socket: a single asynchronous connect attempt and a
//! private readiness channel to wait on it.
//!
//! The channel is private, not the socket-wide pollee, because connect's
//! IN/ERR semantics do not correspond to ordinary data readiness. A task
//! calls `start_connect`, submits the returned operation, waits on the
//! private channel and reads the latched result once the completion has been
//! handed to `handle_connect_completion`.

use vstd::prelude::*;
use crate::errno::EPIPE;
use crate::events::Events;
use crate::events::union_of;
use crate::socket_addr::SockAddrIn;

verus! {

/// What the surrounding event loop must do after a connector call.
#[derive(Clone, Copy, PartialEq, Eq, Structural, Debug)]
pub enum ConnectAction {
    /// Nothing to submit.
    Nothing,
    /// Submit the asynchronous connect towards the stored target address;
    /// its completion must be handed back to `handle_connect_completion`.
    SubmitConnect,
}

/// The connect side of a socket. A connector supports exactly one connect
/// attempt per socket.
pub struct Connector {
    private_pollee: Events,
    pending_io: bool,
    is_shutdown: bool,
    addr: Option<SockAddrIn>,
    result: Option<i32>,
}

impl Connector {
    /// The private readiness channel.
    pub closed spec fn spec_private_pollee(self) -> Events {
        self.private_pollee
    }

    /// Whether a connect operation is currently in flight.
    pub closed spec fn spec_pending_io(self) -> bool {
        self.pending_io
    }

    /// Whether the connector was shut down.
    pub closed spec fn spec_is_shutdown(self) -> bool {
        self.is_shutdown
    }

    /// The target address copied into pinned storage by `start_connect`.
    pub closed spec fn spec_addr(self) -> Option<SockAddrIn> {
        self.addr
    }

    /// The raw completion result, once the connect has completed.
    pub closed spec fn spec_result(self) -> Option<i32> {
        self.result
    }

    /// A fresh connector: no attempt made, channel clear.
    pub fn new() -> (c: Connector)
        ensures
            c.spec_private_pollee() == (Events {
                is_in: false,
                is_out: false,
                is_err: false,
                is_hup: false,
            }),
            !c.spec_pending_io(),
            !c.spec_is_shutdown(),
            c.spec_addr() is None,
            c.spec_result() is None,
    {
        Connector {
            private_pollee: Events::empty(),
            pending_io: false,
            is_shutdown: false,
            addr: None,
            result: None,
        }
    }

    /// Begin the single connect attempt towards `addr`.
    ///
    /// After a shutdown the call returns `-EPIPE` at once and submits
    /// nothing. Otherwise the target address is copied into the connector's
    /// pinned storage and the connect submission is owed to the event loop.
    pub fn start_connect(&mut self, addr: &SockAddrIn) -> (r: (i32, ConnectAction))
        requires
            !old(self).spec_pending_io(),
            old(self).spec_result() is None,
        ensures
            final(self).spec_is_shutdown() == old(self).spec_is_shutdown(),
            final(self).spec_result() is None,
            old(self).spec_is_shutdown() ==> {
                &&& r == ((-EPIPE) as i32, ConnectAction::Nothing)
                &&& *final(self) == *old(self)
            },
            !old(self).spec_is_shutdown() ==> {
                &&& r == (0i32, ConnectAction::SubmitConnect)
                &&& final(self).spec_addr() == Some(*addr)
                &&& final(self).spec_pending_io()
                &&& final(self).spec_private_pollee() == old(self).spec_private_pollee()
            },
    {
        if self.is_shutdown {
            return (-EPIPE, ConnectAction::Nothing);
        }
        self.addr = Some(*addr);
        self.pending_io = true;
        (0, ConnectAction::SubmitConnect)
    }

    /// Digest the completion of the in-flight connect: `0` for success, a
    /// negated errno for failure (a connect completion never reports a
    /// positive count). The result is latched, and the private channel is
    /// raised — IN on success, ERR on failure — to wake the waiting task.
    pub fn handle_connect_completion(&mut self, retval: i32)
        requires
            old(self).spec_pending_io(),
            retval <= 0,
        ensures
            !final(self).spec_pending_io(),
            final(self).spec_result() == Some(retval),
            final(self).spec_is_shutdown() == old(self).spec_is_shutdown(),
            final(self).spec_addr() == old(self).spec_addr(),
            final(self).spec_private_pollee() == union_of(
                old(self).spec_private_pollee(),
                if retval == 0 {
                    Events { is_in: true, is_out: false, is_err: false, is_hup: false }
                } else {
                    Events { is_in: false, is_out: false, is_err: true, is_hup: false }
                },
            ),
    {
        self.pending_io = false;
        self.result = Some(retval);
        if retval == 0 {
            self.private_pollee.add(Events::just_in());
        } else {
            self.private_pollee.add(Events::just_err());
        }
    }

    /// The latched raw completion result: what the waiting `connect` call
    /// returns once woken.
    pub fn connect_result(&self) -> (r: Option<i32>)
        ensures
            r == self.spec_result(),
    {
        self.result
    }

    /// The stored target address, for building the kernel's submission.
    pub fn target_addr(&self) -> (r: Option<SockAddrIn>)
        ensures
            r == self.spec_addr(),
    {
        self.addr
    }

    /// The private readiness channel's current state.
    pub fn private_pollee(&self) -> (r: Events)
        ensures
            r == self.spec_private_pollee(),
    {
        self.private_pollee
    }

    /// Whether the connector was shut down.
    pub fn is_shutdown(&self) -> (r: bool)
        ensures
            r == self.spec_is_shutdown(),
    {
        self.is_shutdown
    }

    /// Shut the connector down: any future `start_connect` fails with
    /// `-EPIPE`, and a HUP event is raised unconditionally on the private
    /// channel to unblock a task currently waiting inside a connect.
    pub fn shutdown(&mut self)
        ensures
            final(self).spec_is_shutdown(),
            final(self).spec_pending_io() == old(self).spec_pending_io(),
            final(self).spec_addr() == old(self).spec_addr(),
            final(self).spec_result() == old(self).spec_result(),
            final(self).spec_private_pollee() == union_of(
                old(self).spec_private_pollee(),
                Events { is_in: false, is_out: false, is_err: false, is_hup: true },
            ),
    {
        self.is_shutdown = true;
        self.private_pollee.add(Events::just_hup());
    }
}

} // verus!
