//! The receive half of a socket: a ring buffer of incoming bytes kept topped
//! up by a chain of asynchronous fill operations.
//!
//! A receiver is constructed with its initial background fill already armed:
//! the surrounding event loop owes the submission and must hand its result to
//! [`Receiver::handle_fill_completion`], which stores the delivered bytes,
//! chains the next fill while room remains, latches errors, and turns a
//! zero-byte completion into the sticky end-of-file state. `try_read` serves
//! callers from the buffered bytes alone and never blocks.

use vstd::prelude::*;
use crate::circular_buf::CircularBuf;
use crate::circular_buf::zeroed_storage;
use crate::common::Common;
use crate::errno::EAGAIN;
use crate::events::Events;
use crate::events::difference_of;
use crate::events::union_of;

verus! {

/// What the surrounding event loop must do after a receiver call.
#[derive(Clone, Copy, PartialEq, Eq, Structural, Debug)]
pub enum RecvAction {
    /// Nothing to submit.
    Nothing,
    /// Submit an asynchronous read into the buffer's free room; its
    /// completion must be handed back to `handle_fill_completion`.
    SubmitFill,
    /// Close the read half of the socket at the OS level.
    CloseReadHalf,
}

/// The receive half of a socket.
pub struct Receiver {
    buf: CircularBuf,
    pending_io: bool,
    end_of_file: bool,
}

impl View for Receiver {
    type V = Seq<u8>;

    /// The buffered incoming bytes, oldest first.
    closed spec fn view(&self) -> Seq<u8> {
        self.buf@
    }
}

impl Receiver {
    /// Whether a fill operation is currently in flight.
    pub closed spec fn spec_pending_io(self) -> bool {
        self.pending_io
    }

    /// Whether a fill completion has reported end-of-file; sticky once set.
    pub closed spec fn spec_end_of_file(self) -> bool {
        self.end_of_file
    }

    /// The ring buffer's usable capacity.
    pub closed spec fn spec_capacity(self) -> int {
        self.buf.spec_capacity()
    }

    /// Free room in the ring buffer.
    pub open spec fn spec_producible(self) -> int {
        self.spec_capacity() - self@.len()
    }

    /// Well-formedness: a valid ring whose capacity fits an `i32` byte count.
    pub closed spec fn wf(self) -> bool {
        &&& self.buf.wf()
        &&& self.buf.spec_capacity() <= 0x7fff_ffff
    }

    /// Construct a receiver with a fresh ring buffer of `buf_size` bytes of
    /// backing storage (usable capacity one less). The initial background
    /// fill is armed eagerly: a fill is reported as already in flight, and
    /// the caller owes its submission.
    pub fn new(buf_size: usize) -> (r: Receiver)
        requires
            1 < buf_size <= 0x7fff_ffff,
        ensures
            r.wf(),
            r@ == Seq::<u8>::empty(),
            r.spec_capacity() == buf_size - 1,
            r.spec_pending_io(),
            !r.spec_end_of_file(),
    {
        Receiver {
            buf: CircularBuf::from_raw_parts(zeroed_storage(buf_size)),
            pending_io: true,
            end_of_file: false,
        }
    }

    /// The free room an in-flight fill may deliver into: how large a read the
    /// event loop should submit.
    pub fn fill_room(&self) -> (n: usize)
        requires
            self.wf(),
        ensures
            n == self.spec_producible(),
    {
        self.buf.producible()
    }

    /// Attempt to read buffered bytes into the front of `out`.
    ///
    /// An empty `out` reads 0 at once. Otherwise as many buffered bytes as
    /// fit are moved into `out` and readable readiness is withdrawn when the
    /// buffer empties. The moved count is returned (a partial read is
    /// normal); when nothing could be moved the result is `0` after
    /// end-of-file, the latched error if one is set, else `-EAGAIN`. A fill
    /// is chained when bytes were consumed, none is in flight and end-of-file
    /// was not reached.
    pub fn try_read(&mut self, common: &mut Common, out: &mut Vec<u8>) -> (r: (i32, RecvAction))
        requires
            old(self).wf(),
        ensures
            final(self).wf(),
            final(self).spec_capacity() == old(self).spec_capacity(),
            final(self).spec_end_of_file() == old(self).spec_end_of_file(),
            final(common).spec_fd() == old(common).spec_fd(),
            final(common).spec_error() == old(common).spec_error(),
            old(out)@.len() == 0 ==> {
                &&& r == (0i32, RecvAction::Nothing)
                &&& *final(self) == *old(self)
                &&& *final(common) == *old(common)
                &&& final(out)@ == old(out)@
            },
            old(out)@.len() > 0 ==> {
                let n = if old(out)@.len() <= old(self)@.len() {
                    old(out)@.len() as int
                } else {
                    old(self)@.len() as int
                };
                &&& final(out)@ == old(self)@.take(n) + old(out)@.skip(n)
                &&& final(self)@ == old(self)@.skip(n)
                &&& final(common).spec_pollee() == (if final(self)@.len() == 0 {
                    difference_of(
                        old(common).spec_pollee(),
                        Events { is_in: true, is_out: false, is_err: false, is_hup: false },
                    )
                } else {
                    old(common).spec_pollee()
                })
                &&& old(self).spec_end_of_file() ==> r == (n as i32, RecvAction::Nothing)
                    && final(self).spec_pending_io() == old(self).spec_pending_io()
                &&& (!old(self).spec_end_of_file() && n == 0 && old(common).spec_error() is Some)
                    ==> r == (old(common).spec_error().unwrap(), RecvAction::Nothing)
                    && final(self).spec_pending_io() == old(self).spec_pending_io()
                &&& (!old(self).spec_end_of_file() && n == 0 && old(common).spec_error() is None)
                    ==> r == ((-EAGAIN) as i32, RecvAction::Nothing)
                    && final(self).spec_pending_io() == old(self).spec_pending_io()
                &&& (!old(self).spec_end_of_file() && n > 0) ==> {
                    &&& r.0 == n
                    &&& r.1 == (if old(self).spec_pending_io() {
                        RecvAction::Nothing
                    } else {
                        RecvAction::SubmitFill
                    })
                    &&& final(self).spec_pending_io()
                }
            },
            // End-of-file is sticky: once the buffer has drained after it,
            // every read returns 0.
            (old(self).spec_end_of_file() && old(self)@.len() == 0) ==> r.0 == 0,
    {
        if out.len() == 0 {
            return (0, RecvAction::Nothing);
        }

        proof {
            // The buffered count never exceeds the capacity, so the moved
            // count below fits an i32.
            crate::circular_buf::lemma_capacity_invariant(self.buf);
        }
        let nbytes = self.buf.consume(out);

        if self.buf.is_empty() {
            // Nothing left to read for now.
            common.remove_events(Events::just_in());
        }

        if self.end_of_file {
            return (nbytes as i32, RecvAction::Nothing);
        }

        if nbytes == 0 {
            match common.error() {
                Some(error) => {
                    return (error, RecvAction::Nothing);
                },
                None => {},
            }
            return (-EAGAIN, RecvAction::Nothing);
        }

        let action = if !self.pending_io {
            self.pending_io = true;
            RecvAction::SubmitFill
        } else {
            RecvAction::Nothing
        };
        (nbytes as i32, action)
    }

    /// Digest the completion of the in-flight fill, whose signed result is a
    /// delivered byte count or a negated errno; `data` holds the bytes the
    /// kernel delivered, which can never exceed the free room the fill was
    /// submitted with.
    ///
    /// A negative result latches the error and raises ERR. A zero result
    /// latches end-of-file and raises readable readiness so blocked readers
    /// wake and observe it. A positive result stores the bytes, chains the
    /// next fill while room remains, and raises readable readiness.
    pub fn handle_fill_completion(&mut self, common: &mut Common, retval: i32, data: &[u8]) -> (action:
        RecvAction)
        requires
            old(self).wf(),
            old(self).spec_pending_io(),
            !old(self).spec_end_of_file(),
            retval >= 0 ==> data@.len() == retval && retval <= old(self).spec_producible(),
        ensures
            final(self).wf(),
            final(self).spec_capacity() == old(self).spec_capacity(),
            final(common).spec_fd() == old(common).spec_fd(),
            retval < 0 ==> {
                &&& final(self)@ == old(self)@
                &&& !final(self).spec_end_of_file()
                &&& !final(self).spec_pending_io()
                &&& final(common).spec_error() == Some(retval)
                &&& final(common).spec_pollee() == union_of(
                    old(common).spec_pollee(),
                    Events { is_in: false, is_out: false, is_err: true, is_hup: false },
                )
                &&& action == RecvAction::Nothing
            },
            retval == 0 ==> {
                &&& final(self)@ == old(self)@
                &&& final(self).spec_end_of_file()
                &&& !final(self).spec_pending_io()
                &&& final(common).spec_error() == old(common).spec_error()
                &&& final(common).spec_pollee() == union_of(
                    old(common).spec_pollee(),
                    Events { is_in: true, is_out: false, is_err: false, is_hup: false },
                )
                &&& action == RecvAction::Nothing
            },
            retval > 0 ==> {
                &&& final(self)@ == old(self)@ + data@
                &&& !final(self).spec_end_of_file()
                &&& final(common).spec_error() == old(common).spec_error()
                &&& final(common).spec_pollee() == union_of(
                    old(common).spec_pollee(),
                    Events { is_in: true, is_out: false, is_err: false, is_hup: false },
                )
                &&& action == (if final(self)@.len() < old(self).spec_capacity() {
                    RecvAction::SubmitFill
                } else {
                    RecvAction::Nothing
                })
                &&& final(self).spec_pending_io() == (action == RecvAction::SubmitFill)
            },
    {
        // The handle to the in-flight fill is released.
        self.pending_io = false;

        if retval < 0 {
            common.set_error(retval);
            common.add_events(Events::just_err());
            return RecvAction::Nothing;
        }
        if retval == 0 {
            self.end_of_file = true;
            common.add_events(Events::just_in());
            return RecvAction::Nothing;
        }

        let nbytes = self.buf.produce(data);
        proof {
            assert(nbytes == data@.len());
        }

        // Top the buffer up again while there is room.
        let action = if !self.buf.is_full() {
            self.pending_io = true;
            RecvAction::SubmitFill
        } else {
            RecvAction::Nothing
        };

        // Non-zero bytes were delivered, so the buffer is ready to read.
        common.add_events(Events::just_in());
        action
    }

    /// Request a shutdown of the receive direction: the read half is closed
    /// at the OS level at once. Only further kernel-side delivery is
    /// affected; bytes already buffered remain readable.
    pub fn shutdown(&self) -> (action: RecvAction)
        ensures
            action == RecvAction::CloseReadHalf,
    {
        RecvAction::CloseReadHalf
    }
}

} // verus!
