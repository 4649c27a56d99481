//! The send half of a socket: a ring buffer of outgoing bytes drained by a
//! chain of asynchronous flush operations.
//!
//! `try_write` copies caller bytes into the ring and decides whether a flush
//! must be submitted; the flush itself is an outside kernel operation, so the
//! decision is handed back as a [`SendAction`] for the surrounding event loop
//! to perform. When the flush completes, [`Sender::handle_flush_completion`]
//! consumes the flushed bytes and decides whether to chain another flush or,
//! once a requested shutdown finds the buffer drained, to close the write
//! half of the socket at the OS level.

use vstd::prelude::*;
use crate::circular_buf::CircularBuf;
use crate::circular_buf::zeroed_storage;
use crate::common::Common;
use crate::errno::EAGAIN;
use crate::errno::EPIPE;
use crate::events::Events;
use crate::events::difference_of;
use crate::events::union_of;

verus! {

/// What the surrounding event loop must do after a sender call.
#[derive(Clone, Copy, PartialEq, Eq, Structural, Debug)]
pub enum SendAction {
    /// Nothing to submit.
    Nothing,
    /// Submit an asynchronous write over the buffered bytes; its completion
    /// must be handed back to `handle_flush_completion`.
    SubmitFlush,
    /// Close the write half of the socket at the OS level.
    CloseWriteHalf,
}

/// The send half of a socket.
pub struct Sender {
    buf: CircularBuf,
    pending_io: bool,
    is_shutdown: bool,
}

impl View for Sender {
    type V = Seq<u8>;

    /// The buffered outgoing bytes, oldest first.
    closed spec fn view(&self) -> Seq<u8> {
        self.buf@
    }
}

impl Sender {
    /// Whether a flush operation is currently in flight.
    pub closed spec fn spec_pending_io(self) -> bool {
        self.pending_io
    }

    /// Whether the sender was shut down.
    pub closed spec fn spec_is_shutdown(self) -> bool {
        self.is_shutdown
    }

    /// The ring buffer's usable capacity.
    pub closed spec fn spec_capacity(self) -> int {
        self.buf.spec_capacity()
    }

    /// Free room in the ring buffer.
    pub open spec fn spec_producible(self) -> int {
        self.spec_capacity() - self@.len()
    }

    /// Well-formedness: a valid ring whose capacity fits an `i32` byte count.
    pub closed spec fn wf(self) -> bool {
        &&& self.buf.wf()
        &&& self.buf.spec_capacity() <= 0x7fff_ffff
    }

    /// Construct a sender with a fresh ring buffer of `buf_size` bytes of
    /// backing storage (usable capacity one less). No flush is in flight and
    /// the sender is not shut down.
    pub fn new(buf_size: usize) -> (s: Sender)
        requires
            0 < buf_size <= 0x7fff_ffff,
        ensures
            s.wf(),
            s@ == Seq::<u8>::empty(),
            s.spec_capacity() == buf_size - 1,
            !s.spec_pending_io(),
            !s.spec_is_shutdown(),
    {
        Sender {
            buf: CircularBuf::from_raw_parts(zeroed_storage(buf_size)),
            pending_io: false,
            is_shutdown: false,
        }
    }

    /// Attempt to buffer `data` for sending.
    ///
    /// Returns the errno-style code and the action owed to the event loop:
    /// `-EPIPE` after a shutdown and the latched error code if one is set,
    /// both without touching the buffer; `0` for an empty `data`; otherwise
    /// as many bytes as fit are buffered and that count is returned, with
    /// `-EAGAIN` instead when the buffer is already full. Writable readiness
    /// is withdrawn whenever the buffer ends up full, and a flush is
    /// requested when bytes were buffered and none is in flight.
    pub fn try_write(&mut self, common: &mut Common, data: &[u8]) -> (r: (i32, SendAction))
        requires
            old(self).wf(),
        ensures
            final(self).wf(),
            final(self).spec_capacity() == old(self).spec_capacity(),
            final(self).spec_is_shutdown() == old(self).spec_is_shutdown(),
            final(common).spec_fd() == old(common).spec_fd(),
            final(common).spec_error() == old(common).spec_error(),
            old(self).spec_is_shutdown() ==> {
                &&& r == ((-EPIPE) as i32, SendAction::Nothing)
                &&& *final(self) == *old(self)
                &&& *final(common) == *old(common)
            },
            (!old(self).spec_is_shutdown() && old(common).spec_error() is Some) ==> {
                &&& r == (old(common).spec_error().unwrap(), SendAction::Nothing)
                &&& *final(self) == *old(self)
                &&& *final(common) == *old(common)
            },
            (!old(self).spec_is_shutdown() && old(common).spec_error() is None && data@.len() == 0)
                ==> {
                &&& r == (0i32, SendAction::Nothing)
                &&& *final(self) == *old(self)
                &&& *final(common) == *old(common)
            },
            (!old(self).spec_is_shutdown() && old(common).spec_error() is None && data@.len() > 0)
                ==> {
                let n = if data@.len() <= old(self).spec_producible() {
                    data@.len() as int
                } else {
                    old(self).spec_producible()
                };
                &&& final(self)@ == old(self)@ + data@.take(n)
                &&& final(common).spec_pollee() == (if final(self)@.len()
                    == old(self).spec_capacity() {
                    difference_of(
                        old(common).spec_pollee(),
                        Events { is_in: false, is_out: true, is_err: false, is_hup: false },
                    )
                } else {
                    old(common).spec_pollee()
                })
                &&& n == 0 ==> r == ((-EAGAIN) as i32, SendAction::Nothing) && final(self).spec_pending_io()
                    == old(self).spec_pending_io()
                &&& n > 0 ==> {
                    &&& r.0 == n
                    &&& r.1 == (if old(self).spec_pending_io() {
                        SendAction::Nothing
                    } else {
                        SendAction::SubmitFlush
                    })
                    &&& final(self).spec_pending_io()
                }
            },
    {
        if self.is_shutdown {
            return (-EPIPE, SendAction::Nothing);
        }
        match common.error() {
            Some(error) => {
                return (error, SendAction::Nothing);
            },
            None => {},
        }
        if data.len() == 0 {
            return (0, SendAction::Nothing);
        }

        let nbytes = self.buf.produce(data);

        if self.buf.is_full() {
            // The socket can take no more bytes for now.
            common.remove_events(Events::just_out());
        }

        if nbytes == 0 {
            return (-EAGAIN, SendAction::Nothing);
        }

        let action = if !self.pending_io {
            self.pending_io = true;
            SendAction::SubmitFlush
        } else {
            SendAction::Nothing
        };
        (nbytes as i32, action)
    }

    /// Digest the completion of the in-flight flush, whose signed result is a
    /// flushed byte count or a negated errno.
    ///
    /// Success releases the flushed bytes and re-raises writable readiness
    /// (unless a shutdown is pending); failure discards everything still
    /// buffered, latches the error and raises ERR. Afterwards, a non-empty
    /// buffer chains the next flush at once, while an empty one closes the
    /// write half of the socket if a shutdown was requested: the deferred
    /// half-close.
    pub fn handle_flush_completion(&mut self, common: &mut Common, retval: i32) -> (action:
        SendAction)
        requires
            old(self).wf(),
            old(self).spec_pending_io(),
        ensures
            final(self).wf(),
            final(self).spec_capacity() == old(self).spec_capacity(),
            final(self).spec_is_shutdown() == old(self).spec_is_shutdown(),
            final(common).spec_fd() == old(common).spec_fd(),
            retval >= 0 ==> {
                let n = if retval <= old(self)@.len() {
                    retval as int
                } else {
                    old(self)@.len() as int
                };
                &&& final(self)@ == old(self)@.skip(n)
                &&& final(common).spec_error() == old(common).spec_error()
                &&& final(common).spec_pollee() == (if !old(self).spec_is_shutdown() {
                    union_of(
                        old(common).spec_pollee(),
                        Events { is_in: false, is_out: true, is_err: false, is_hup: false },
                    )
                } else {
                    old(common).spec_pollee()
                })
            },
            retval < 0 ==> {
                &&& final(self)@.len() == 0
                &&& final(common).spec_error() == Some(retval)
                &&& final(common).spec_pollee() == union_of(
                    old(common).spec_pollee(),
                    Events { is_in: false, is_out: false, is_err: true, is_hup: false },
                )
            },
            action == (if final(self)@.len() > 0 {
                SendAction::SubmitFlush
            } else if old(self).spec_is_shutdown() {
                SendAction::CloseWriteHalf
            } else {
                SendAction::Nothing
            }),
            final(self).spec_pending_io() == (action == SendAction::SubmitFlush),
            // The deferred half-close happens exactly when the shutdown
            // request finds the buffer fully drained.
            (action == SendAction::CloseWriteHalf) <==> (old(self).spec_is_shutdown()
                && final(self)@.len() == 0),
    {
        // The handle to the in-flight flush is released.
        self.pending_io = false;

        if retval >= 0 {
            let nbytes = retval as usize;
            self.buf.consume_without_copy(nbytes);
            if !self.is_shutdown {
                common.add_events(Events::just_out());
            }
        } else {
            // Discard all data still buffered for sending.
            let consumable_bytes = self.buf.consumable();
            self.buf.consume_without_copy(consumable_bytes);
            common.set_error(retval);
            common.add_events(Events::just_err());
        }

        if !self.buf.is_empty() {
            self.pending_io = true;
            SendAction::SubmitFlush
        } else if self.is_shutdown {
            SendAction::CloseWriteHalf
        } else {
            SendAction::Nothing
        }
    }

    /// Request a shutdown of the send direction. Further writes fail with
    /// `-EPIPE`; bytes already buffered are still flushed, and only once the
    /// buffer has drained is the write half closed at the OS level — at once
    /// when nothing is buffered and no flush is in flight, otherwise by the
    /// completion that empties the buffer.
    pub fn shutdown(&mut self) -> (action: SendAction)
        requires
            old(self).wf(),
        ensures
            final(self).wf(),
            final(self)@ == old(self)@,
            final(self).spec_capacity() == old(self).spec_capacity(),
            final(self).spec_pending_io() == old(self).spec_pending_io(),
            final(self).spec_is_shutdown(),
            action == (if !old(self).spec_pending_io() && old(self)@.len() == 0 {
                SendAction::CloseWriteHalf
            } else {
                SendAction::Nothing
            }),
    {
        self.is_shutdown = true;
        if !self.pending_io && self.buf.is_empty() {
            SendAction::CloseWriteHalf
        } else {
            SendAction::Nothing
        }
    }

    /// Copy of the bytes currently buffered for sending, oldest first: what
    /// the next flush would submit.
    pub fn flush_data(&self) -> (data: Vec<u8>)
        requires
            self.wf(),
        ensures
            data@ == self@,
    {
        self.buf.to_vec()
    }
}

} // verus!
