//! The accept side of a listening socket: a pool of concurrently in-flight
//! accept operations sized to the listen backlog, and a FIFO queue of
//! completed-but-unconsumed connections.
//!
//! Each slot of the pool is either pending (an accept operation is in
//! flight, with a pinned address slot the kernel fills) or completed (the
//! accepted descriptor and filled address wait to be consumed). A slot moves
//! from pending to completed exactly once, then is removed when consumed,
//! and the pool is refilled at once so that, outside the window opened by a
//! failed accept, armed and completed slots together account for the whole
//! backlog.

use vstd::prelude::*;
use std::collections::VecDeque;
use vstd::set_lib::lemma_len_subset;
use crate::accept_table::SlotTable;
use crate::accept_table::TableEntry;
use crate::accept_table::table_entries;
use crate::accept_table::table_get;
use crate::accept_table::table_insert;
use crate::accept_table::table_len;
use crate::accept_table::table_remove;
use crate::accept_table::table_set;
use crate::accept_table::table_with_capacity;
use crate::common::Common;
use crate::errno::EAGAIN;
use crate::events::Events;
use crate::events::difference_of;
use crate::events::union_of;
use crate::raw_slab::RawSlab;
use crate::socket_addr::SockAddrIn;

verus! {

broadcast use vstd::set::group_set_axioms;

/// Entry tag of a pending accept slot.
pub const TAG_PENDING: usize = 0;

/// Entry tag of a completed accept slot.
pub const TAG_COMPLETED: usize = 1;

/// The backlog bound below which a requested backlog is clamped up.
pub const MIN_BACKLOG: usize = 1;

/// The backlog bound above which a requested backlog is clamped down.
pub const MAX_BACKLOG: usize = 16;

/// The requested backlog clamped into its accepted bounds.
pub open spec fn spec_clamp_backlog(b: int) -> int {
    if b < MIN_BACKLOG {
        MIN_BACKLOG as int
    } else if b > MAX_BACKLOG {
        MAX_BACKLOG as int
    } else {
        b
    }
}

/// One accept slot: pending, with the pinned address slot the kernel will
/// fill, or completed, with the accepted descriptor.
#[derive(Clone, Copy, PartialEq, Eq, Structural, Debug)]
pub enum Accept {
    /// The accept operation is in flight.
    Pending {
        /// Index of the pinned address slot handed to the kernel.
        addr_idx: usize,
    },
    /// The accept operation has completed.
    Completed {
        /// Index of the pinned address slot the kernel filled.
        addr_idx: usize,
        /// The accepted connection's descriptor.
        fd: i32,
    },
}

impl Accept {
    /// The slot's pinned address index, in either state.
    pub open spec fn spec_addr_idx(self) -> usize {
        match self {
            Accept::Pending { addr_idx } => addr_idx,
            Accept::Completed { addr_idx, .. } => addr_idx,
        }
    }

    /// The accepted descriptor, once completed.
    pub open spec fn spec_fd(self) -> Option<i32> {
        match self {
            Accept::Pending { .. } => None,
            Accept::Completed { fd, .. } => Some(fd),
        }
    }

    /// The slot's pinned address index, in either state.
    pub fn addr(&self) -> (r: usize)
        ensures
            r == self.spec_addr_idx(),
    {
        match *self {
            Accept::Pending { addr_idx } => addr_idx,
            Accept::Completed { addr_idx, .. } => addr_idx,
        }
    }

    /// Transition the slot from pending to completed with the accepted
    /// descriptor. A slot completes exactly once: completing a completed
    /// slot is the caller's error.
    pub fn complete(&mut self, fd: i32)
        requires
            *old(self) is Pending,
        ensures
            *final(self) == (Accept::Completed { addr_idx: old(self).spec_addr_idx(), fd }),
    {
        *self = match *self {
            Accept::Completed { .. } => Accept::Completed { addr_idx: 0, fd },
            Accept::Pending { addr_idx } => Accept::Completed { addr_idx, fd },
        }
    }

    /// The accepted descriptor, or nothing while still pending.
    pub fn fd(&self) -> (r: Option<i32>)
        ensures
            r == self.spec_fd(),
    {
        match *self {
            Accept::Completed { fd, .. } => Some(fd),
            Accept::Pending { .. } => None,
        }
    }

    /// The slot as stored in the slot table.
    pub open spec fn spec_encode(self) -> TableEntry {
        match self {
            Accept::Pending { addr_idx } => (TAG_PENDING, addr_idx, 0i32),
            Accept::Completed { addr_idx, fd } => (TAG_COMPLETED, addr_idx, fd),
        }
    }

    /// The slot a well-formed table entry stands for.
    pub open spec fn spec_decode(e: TableEntry) -> Accept {
        if e.0 == TAG_PENDING {
            Accept::Pending { addr_idx: e.1 }
        } else {
            Accept::Completed { addr_idx: e.1, fd: e.2 }
        }
    }

    /// Encode the slot for storage in the slot table.
    pub fn encode(&self) -> (e: TableEntry)
        ensures
            e == self.spec_encode(),
    {
        match *self {
            Accept::Pending { addr_idx } => (TAG_PENDING, addr_idx, 0i32),
            Accept::Completed { addr_idx, fd } => (TAG_COMPLETED, addr_idx, fd),
        }
    }

    /// Decode a stored table entry.
    pub fn decode(e: TableEntry) -> (a: Accept)
        requires
            e.0 == TAG_PENDING || e.0 == TAG_COMPLETED,
        ensures
            a == Accept::spec_decode(e),
    {
        if e.0 == TAG_PENDING {
            Accept::Pending { addr_idx: e.1 }
        } else {
            Accept::Completed { addr_idx: e.1, fd: e.2 }
        }
    }
}

/// The accept side of a listening socket.
pub struct Acceptor {
    backlog: usize,
    accept_slab: SlotTable,
    addr_slab: RawSlab<SockAddrIn>,
    completed_indexes: VecDeque<usize>,
}

impl Acceptor {
    /// The clamped listen backlog: how many accepts are kept in flight.
    pub closed spec fn spec_backlog(self) -> int {
        self.backlog as int
    }

    /// The slot table's entries, by key.
    pub closed spec fn entries(self) -> Map<int, TableEntry> {
        table_entries(self.accept_slab)
    }

    /// The keys of completed slots, in completion order.
    pub closed spec fn queue(self) -> Seq<usize> {
        self.completed_indexes@
    }

    /// Number of completed-but-unconsumed connections.
    pub open spec fn completed_count(self) -> int {
        self.queue().len() as int
    }

    /// Number of occupied slots, pending and completed together.
    pub open spec fn slot_count(self) -> int {
        self.entries().dom().len() as int
    }

    /// Number of accepts still in flight.
    pub open spec fn pending_count(self) -> int {
        self.slot_count() - self.completed_count()
    }

    /// The accepted descriptors ready to be consumed, oldest completion
    /// first: what `try_accept` returns, in order.
    pub closed spec fn completed_fds(self) -> Seq<i32> {
        Seq::new(self.queue().len(), |i: int| self.entries()[self.queue()[i] as int].2)
    }

    /// The peer address stored for the slot under `key`.
    pub closed spec fn peer_addr(self, key: usize) -> SockAddrIn {
        self.addr_slab.slot(self.entries()[key as int].1 as int).unwrap()
    }

    /// What a well-formed slot entry looks like: a known tag, an allocated
    /// in-range address slot, and, once completed, a non-negative descriptor
    /// with the peer address stored.
    pub closed spec fn valid_entry(self, e: TableEntry) -> bool {
        &&& (e.0 == TAG_PENDING || e.0 == TAG_COMPLETED)
        &&& e.1 < self.backlog
        &&& !self.addr_slab.is_free(e.1)
        &&& e.0 == TAG_PENDING ==> e.2 == 0i32
        &&& e.0 == TAG_COMPLETED ==> e.2 >= 0 && self.addr_slab.slot(e.1 as int) is Some
    }

    /// Well-formedness of the whole acceptor.
    pub closed spec fn wf(self) -> bool {
        let m = self.entries();
        let q = self.queue();
        &&& MIN_BACKLOG <= self.backlog <= MAX_BACKLOG
        &&& self.addr_slab.wf()
        &&& self.addr_slab.spec_capacity() == self.backlog
        &&& m.dom().finite()
        &&& m.dom().len() <= self.spec_backlog()
        &&& self.addr_slab.spec_allocated() == m.dom().len()
        &&& forall|k: int| #[trigger] m.dom().contains(k) ==> self.valid_entry(m[k])
        &&& forall|i: int|
            0 <= i < q.len() ==> m.dom().contains((#[trigger] q[i]) as int) && m[q[i] as int].0
                == TAG_COMPLETED
        &&& forall|i1: int, i2: int| 0 <= i1 < i2 < q.len() ==> q[i1] != q[i2]
        &&& forall|k1: int, k2: int|
            #![trigger m.dom().contains(k1), m.dom().contains(k2)]
            m.dom().contains(k1) && m.dom().contains(k2) && k1 != k2 ==> m[k1].1 != m[k2].1
    }

    /// Construct an acceptor for the given listen backlog, clamped into
    /// `[MIN_BACKLOG, MAX_BACKLOG]`, and eagerly arm the whole backlog of
    /// accepts: the returned keys identify the accept submissions the event
    /// loop owes, one per key.
    pub fn new(backlog: usize) -> (r: (Acceptor, Vec<usize>))
        ensures
            r.0.wf(),
            r.0.spec_backlog() == spec_clamp_backlog(backlog as int),
            r.0.completed_count() == 0,
            r.0.completed_fds() == Seq::<i32>::empty(),
            r.0.slot_count() == r.0.spec_backlog(),
            r.0.pending_count() == r.0.spec_backlog(),
            r.1@.len() == r.0.spec_backlog(),
    {
        let backlog = if backlog < MIN_BACKLOG {
            MIN_BACKLOG
        } else if backlog > MAX_BACKLOG {
            MAX_BACKLOG
        } else {
            backlog
        };
        let accept_slab = table_with_capacity(backlog);
        let addr_slab = RawSlab::<SockAddrIn>::new(backlog);
        let completed_indexes = VecDeque::<usize>::with_capacity(backlog);
        let mut acceptor = Acceptor { backlog, accept_slab, addr_slab, completed_indexes };
        proof {
            assert(acceptor.entries().dom() =~= Set::<int>::empty());
            assert(acceptor.completed_fds() =~= Seq::<i32>::empty());
        }
        let armed = acceptor.initiate_async_accepts();
        proof {
            assert(acceptor.completed_fds() =~= Seq::<i32>::empty());
        }
        (acceptor, armed)
    }

    /// Arm fresh accept operations until the whole backlog is covered by a
    /// pending or completed slot, restoring the backlog invariant. Each
    /// returned key identifies an accept submission the event loop owes; its
    /// completion must come back to `handle_completion` under the same key.
    pub fn initiate_async_accepts(&mut self) -> (armed: Vec<usize>)
        requires
            old(self).wf(),
        ensures
            final(self).wf(),
            final(self).spec_backlog() == old(self).spec_backlog(),
            final(self).slot_count() == final(self).spec_backlog(),
            final(self).queue() == old(self).queue(),
            final(self).completed_fds() == old(self).completed_fds(),
            forall|k: int|
                #[trigger] old(self).entries().dom().contains(k) ==> final(self).entries().dom().contains(k) && final(self).entries()[k] == old(self).entries()[k],
            forall|k: usize|
                old(self).entries().dom().contains(k as int) && old(self).entries()[k as int].0
                    == TAG_COMPLETED ==> #[trigger] final(self).peer_addr(k) == old(self).peer_addr(k),
            armed@.len() == old(self).spec_backlog() - old(self).slot_count(),
            forall|j: int|
                0 <= j < armed@.len() ==> !old(self).entries().dom().contains(
                    #[trigger] armed@[j] as int,
                ) && final(self).entries().dom().contains(armed@[j] as int) && final(self).entries()[armed@[j] as int].0 == TAG_PENDING,
            forall|j1: int, j2: int| 0 <= j1 < j2 < armed@.len() ==> armed@[j1] != armed@[j2],
    {
        let ghost orig = *self;
        let mut armed: Vec<usize> = Vec::new();
        loop
            invariant
                self.wf(),
                orig.wf(),
                self.backlog == orig.backlog,
                self.completed_indexes@ == orig.completed_indexes@,
                orig.slot_count() <= self.slot_count() <= self.spec_backlog(),
                armed@.len() == self.slot_count() - orig.slot_count(),
                forall|k: int|
                    #[trigger] orig.entries().dom().contains(k) ==> self.entries().dom().contains(k)
                        && self.entries()[k] == orig.entries()[k],
                forall|k: int|
                    #[trigger] orig.entries().dom().contains(k) ==> self.addr_slab.slot(
                        orig.entries()[k].1 as int,
                    ) == orig.addr_slab.slot(orig.entries()[k].1 as int),
                forall|j: int|
                    0 <= j < armed@.len() ==> !orig.entries().dom().contains(
                        #[trigger] armed@[j] as int,
                    ) && self.entries().dom().contains(armed@[j] as int) && self.entries()[armed@[j] as int].0 == TAG_PENDING,
                forall|j1: int, j2: int| 0 <= j1 < j2 < armed@.len() ==> armed@[j1] != armed@[j2],
            ensures
                self.slot_count() == self.spec_backlog(),
            decreases self.spec_backlog() - self.slot_count(),
        {
            let filled = table_len(&self.accept_slab);
            if filled >= self.backlog {
                break ;
            }
            let ghost before = *self;
            // The address slab always has room: one slot is allocated per
            // table entry and there are fewer entries than slots.
            let addr_idx = match self.addr_slab.allocate() {
                Some(addr_idx) => addr_idx,
                None => {
                    proof {
                        assert(false);
                    }
                    0
                },
            };
            let pending = Accept::Pending { addr_idx };
            let key = table_insert(&mut self.accept_slab, pending.encode());
            armed.push(key);
            proof {
                let m = before.entries();
                assert(self.entries().dom() =~= m.dom().insert(key as int));
                assert forall|i: usize| !before.addr_slab.is_free(i) implies !self.addr_slab.is_free(
                    i,
                ) by {
                    if self.addr_slab.free_list().contains(i) {
                        let p = choose|p: int|
                            0 <= p < self.addr_slab.free_list().len() && self.addr_slab.free_list()[p]
                                == i;
                        assert(before.addr_slab.free_list()[p] == i);
                    }
                }
                assert forall|k: int| #[trigger] self.entries().dom().contains(k) implies self
                    .valid_entry(self.entries()[k]) by {
                    if k != key as int {
                        assert(m.dom().contains(k));
                        assert(before.valid_entry(m[k]));
                    }
                }
                assert forall|k1: int, k2: int|
                    #![trigger self.entries().dom().contains(k1), self.entries().dom().contains(k2)]
                    self.entries().dom().contains(k1) && self.entries().dom().contains(k2) && k1
                    != k2 implies self.entries()[k1].1 != self.entries()[k2].1 by {
                    if k1 == key as int {
                        assert(m.dom().contains(k2));
                        assert(before.valid_entry(m[k2]));
                    } else if k2 == key as int {
                        assert(m.dom().contains(k1));
                        assert(before.valid_entry(m[k1]));
                    } else {
                        assert(m.dom().contains(k1));
                        assert(m.dom().contains(k2));
                    }
                }
                assert forall|i: int| 0 <= i < self.queue().len() implies self
                    .entries().dom().contains((#[trigger] self.queue()[i]) as int) && self.entries()[
                    self.queue()[i] as int].0 == TAG_COMPLETED by {
                    assert(self.queue()[i] == orig.queue()[i]);
                    assert(orig.entries().dom().contains((orig.queue()[i]) as int));
                }
                assert forall|i1: int, i2: int| 0 <= i1 < i2 < self.queue().len() implies self
                    .queue()[i1] != self.queue()[i2] by {
                    assert(orig.queue()[i1] != orig.queue()[i2]);
                }
            }
        }
        proof {
            assert forall|i: int|
                0 <= i < self.queue().len() implies self.entries()[self.queue()[i] as int]
                    == orig.entries()[orig.queue()[i] as int] by {
                assert(orig.entries().dom().contains(orig.queue()[i] as int));
            }
            assert(self.completed_fds() =~= orig.completed_fds());
            assert forall|k: usize|
                orig.entries().dom().contains(k as int) && orig.entries()[k as int].0
                    == TAG_COMPLETED implies #[trigger] self.peer_addr(k) == orig.peer_addr(k) by {
                assert(orig.entries().dom().contains(k as int));
            }
        }
        armed
    }

    /// Consume the oldest completed connection, if one is ready.
    ///
    /// Returns `(code, peer, armed)`: on success, `code` is the accepted
    /// descriptor (never negative) and `peer` the kernel-filled peer
    /// address; the consumed slot is freed and the pool refilled at once,
    /// the keys in `armed` identifying the accept submissions the event
    /// loop owes. With nothing completed, the latched socket error is
    /// returned if one is set, else `-EAGAIN`, and nothing changes.
    /// Readable readiness is withdrawn exactly when the consumed connection
    /// was the last one ready.
    pub fn try_accept(&mut self, common: &mut Common) -> (r: (i32, Option<SockAddrIn>, Vec<usize>))
        requires
            old(self).wf(),
        ensures
            final(self).wf(),
            final(self).spec_backlog() == old(self).spec_backlog(),
            final(common).spec_fd() == old(common).spec_fd(),
            final(common).spec_error() == old(common).spec_error(),
            old(self).completed_count() == 0 ==> {
                &&& final(self).entries() == old(self).entries()
                &&& final(self).queue() == old(self).queue()
                &&& final(self).completed_fds() == old(self).completed_fds()
                &&& *final(common) == *old(common)
                &&& r.0 == (if old(common).spec_error() is Some {
                    old(common).spec_error().unwrap()
                } else {
                    (-EAGAIN) as i32
                })
                &&& r.1 is None
                &&& r.2@.len() == 0
            },
            old(self).completed_count() > 0 ==> {
                let key = old(self).queue()[0];
                &&& r.0 == old(self).completed_fds()[0]
                &&& r.0 >= 0
                &&& r.1 == Some(old(self).peer_addr(key))
                &&& final(self).queue() == old(self).queue().skip(1)
                &&& final(self).completed_fds() == old(self).completed_fds().skip(1)
                &&& final(self).completed_count() == old(self).completed_count() - 1
                &&& final(self).slot_count() == final(self).spec_backlog()
                &&& final(common).spec_pollee() == (if old(self).completed_count() == 1 {
                    difference_of(
                        old(common).spec_pollee(),
                        Events { is_in: true, is_out: false, is_err: false, is_hup: false },
                    )
                } else {
                    old(common).spec_pollee()
                })
                &&& r.2@.len() == old(self).spec_backlog() - (old(self).slot_count() - 1)
            },
    {
        let popped = self.completed_indexes.pop_front();
        let completed_index = match popped {
            None => {
                let code = match common.error() {
                    Some(error) => error,
                    None => -EAGAIN,
                };
                return (code, None, Vec::new());
            },
            Some(completed_index) => completed_index,
        };

        if self.completed_indexes.len() == 0 {
            // The consumed connection was the last one ready.
            common.remove_events(Events::just_in());
        }

        proof {
            assert(old(self).queue()[0] == completed_index);
            assert(old(self).entries().dom().contains(completed_index as int));
        }
        let entry = match table_get(&self.accept_slab, completed_index) {
            Some(entry) => entry,
            None => {
                proof {
                    assert(false);
                }
                (0, 0, 0)
            },
        };
        let accept = Accept::decode(entry);
        let addr_idx = accept.addr();
        let fd = match accept.fd() {
            Some(fd) => fd,
            None => {
                proof {
                    assert(false);
                }
                0
            },
        };
        let peer = *self.addr_slab.get(addr_idx);
        self.addr_slab.dealloc(addr_idx);
        table_remove(&mut self.accept_slab, completed_index);
        proof {
            let o = *old(self);
            let m = o.entries();
            let m2 = self.entries();
            let k = completed_index as int;
            assert(m2 == m.remove(k));
            assert(m2.dom() =~= m.dom().remove(k));
            assert forall|i: usize|
                i != addr_idx && !o.addr_slab.is_free(i) implies !self.addr_slab.is_free(i) by {
                if self.addr_slab.free_list().contains(i) {
                    let p = choose|p: int|
                        0 <= p < self.addr_slab.free_list().len() && self.addr_slab.free_list()[p]
                            == i;
                    if p < o.addr_slab.free_list().len() {
                        assert(o.addr_slab.free_list()[p] == i);
                    }
                }
            }
            assert forall|k2: int| #[trigger] m2.dom().contains(k2) implies self.valid_entry(
                m2[k2],
            ) by {
                assert(m.dom().contains(k2));
                assert(o.valid_entry(m[k2]));
                assert(m[k2].1 != addr_idx);
            }
            assert forall|i: int|
                0 <= i < self.queue().len() implies m2.dom().contains(
                    (#[trigger] self.queue()[i]) as int,
                ) && m2[self.queue()[i] as int].0 == TAG_COMPLETED by {
                assert(self.queue()[i] == o.queue()[i + 1]);
                assert(o.entries().dom().contains((o.queue()[i + 1]) as int));
                assert(o.queue()[0] != o.queue()[i + 1]);
            }
            assert forall|i1: int, i2: int|
                0 <= i1 < i2 < self.queue().len() implies self.queue()[i1] != self.queue()[i2] by {
                assert(o.queue()[i1 + 1] != o.queue()[i2 + 1]);
            }
            assert(self.wf());
            assert(self.completed_fds() =~= o.completed_fds().skip(1)) by {
                assert forall|i: int| 0 <= i < self.queue().len() implies self.completed_fds()[i]
                    == o.completed_fds()[i + 1] by {
                    assert(self.queue()[i] == o.queue()[i + 1]);
                    assert(o.entries().dom().contains((o.queue()[i + 1]) as int));
                    assert(o.queue()[0] != o.queue()[i + 1]);
                }
            }
        }
        let ghost mid = *self;
        let armed = self.initiate_async_accepts();
        proof {
            assert forall|i: int|
                0 <= i < self.queue().len() implies self.entries()[self.queue()[i] as int]
                    == mid.entries()[mid.queue()[i] as int] by {
                assert(mid.entries().dom().contains((mid.queue()[i]) as int));
            }
            assert(self.completed_fds() =~= mid.completed_fds());
        }
        (fd, Some(peer), armed)
    }

    /// Digest the completion of the accept armed under `key`, whose signed
    /// result is an accepted descriptor or a negated errno; `peer` is the
    /// peer address the kernel wrote into the slot's pinned storage before
    /// completing.
    ///
    /// Success moves the slot from pending to completed, enqueues it behind
    /// the earlier completions and raises readable readiness. Failure
    /// latches the error, raises ERR and abandons the slot, freeing its
    /// resources with no retry: the backlog invariant is restored by the
    /// refill on the next consumption.
    pub fn handle_completion(&mut self, common: &mut Common, key: usize, retval: i32, peer: &SockAddrIn)
        requires
            old(self).wf(),
            old(self).entries().dom().contains(key as int),
            old(self).entries()[key as int].0 == TAG_PENDING,
        ensures
            final(self).wf(),
            final(self).spec_backlog() == old(self).spec_backlog(),
            final(common).spec_fd() == old(common).spec_fd(),
            retval < 0 ==> {
                &&& final(common).spec_error() == Some(retval)
                &&& final(common).spec_pollee() == union_of(
                    old(common).spec_pollee(),
                    Events { is_in: false, is_out: false, is_err: true, is_hup: false },
                )
                &&& final(self).entries() == old(self).entries().remove(key as int)
                &&& final(self).queue() == old(self).queue()
                &&& final(self).completed_fds() == old(self).completed_fds()
                &&& final(self).slot_count() == old(self).slot_count() - 1
            },
            retval >= 0 ==> {
                &&& final(common).spec_error() == old(common).spec_error()
                &&& final(common).spec_pollee() == union_of(
                    old(common).spec_pollee(),
                    Events { is_in: true, is_out: false, is_err: false, is_hup: false },
                )
                &&& final(self).queue() == old(self).queue().push(key)
                &&& final(self).completed_fds() == old(self).completed_fds().push(retval)
                &&& final(self).peer_addr(key) == *peer
                &&& final(self).slot_count() == old(self).slot_count()
                &&& final(self).completed_count() == old(self).completed_count() + 1
                &&& final(self).pending_count() == old(self).pending_count() - 1
            },
    {
        let entry = match table_get(&self.accept_slab, key) {
            Some(entry) => entry,
            None => {
                proof {
                    assert(false);
                }
                (0, 0, 0)
            },
        };
        let mut accept = Accept::decode(entry);
        let addr_idx = accept.addr();

        if retval < 0 {
            common.set_error(retval);
            common.add_events(Events::just_err());

            // Free the slot's resources: a failed accept is abandoned.
            self.addr_slab.dealloc(addr_idx);
            table_remove(&mut self.accept_slab, key);
            proof {
                let o = *old(self);
                let m = o.entries();
                let m2 = self.entries();
                assert(m2.dom() =~= m.dom().remove(key as int));
                assert forall|i: usize|
                    i != addr_idx && !o.addr_slab.is_free(i) implies !self.addr_slab.is_free(
                    i,
                ) by {
                    if self.addr_slab.free_list().contains(i) {
                        let p = choose|p: int|
                            0 <= p < self.addr_slab.free_list().len()
                                && self.addr_slab.free_list()[p] == i;
                        if p < o.addr_slab.free_list().len() {
                            assert(o.addr_slab.free_list()[p] == i);
                        }
                    }
                }
                assert forall|k2: int| #[trigger] m2.dom().contains(k2) implies self.valid_entry(
                    m2[k2],
                ) by {
                    assert(m.dom().contains(k2));
                    assert(o.valid_entry(m[k2]));
                    assert(m[k2].1 != addr_idx);
                }
                assert forall|i: int|
                    0 <= i < self.queue().len() implies m2.dom().contains(
                        (#[trigger] self.queue()[i]) as int,
                    ) && m2[self.queue()[i] as int].0 == TAG_COMPLETED by {
                    assert(o.entries().dom().contains((o.queue()[i]) as int));
                    assert(o.queue()[i] != key);
                }
                assert(self.wf());
                assert(self.completed_fds() =~= o.completed_fds()) by {
                    assert forall|i: int|
                        0 <= i < self.queue().len() implies self.completed_fds()[i]
                            == o.completed_fds()[i] by {
                        assert(o.entries().dom().contains((o.queue()[i]) as int));
                        assert(o.queue()[i] != key);
                    }
                }
            }
            return ;
        }

        let fd = retval;
        accept.complete(fd);
        // The kernel filled the slot's pinned address storage before the
        // completion fired.
        self.addr_slab.put(addr_idx, *peer);
        table_set(&mut self.accept_slab, key, accept.encode());
        self.completed_indexes.push_back(key);
        common.add_events(Events::just_in());
        proof {
            let o = *old(self);
            let m = o.entries();
            let m2 = self.entries();
            assert(m2.dom() =~= m.dom());
            assert forall|k2: int| #[trigger] m2.dom().contains(k2) implies self.valid_entry(
                m2[k2],
            ) by {
                assert(m.dom().contains(k2));
                assert(o.valid_entry(m[k2]));
                if k2 != key as int {
                    assert(m[k2].1 != m[key as int].1);
                }
            }
            assert forall|i: int|
                0 <= i < self.queue().len() implies m2.dom().contains(
                    (#[trigger] self.queue()[i]) as int,
                ) && m2[self.queue()[i] as int].0 == TAG_COMPLETED by {
                if i < o.queue().len() {
                    assert(self.queue()[i] == o.queue()[i]);
                    assert(o.entries().dom().contains((o.queue()[i]) as int));
                } else {
                    assert(self.queue()[i] == key);
                }
            }
            assert forall|i1: int, i2: int|
                0 <= i1 < i2 < self.queue().len() implies self.queue()[i1] != self.queue()[i2] by {
                if i2 < o.queue().len() {
                    assert(o.queue()[i1] != o.queue()[i2]);
                } else {
                    assert(self.queue()[i2] == key);
                    assert(o.entries().dom().contains((o.queue()[i1]) as int));
                    assert(o.entries()[o.queue()[i1] as int].0 == TAG_COMPLETED);
                }
            }
            assert(self.wf());
            assert(self.completed_fds() =~= o.completed_fds().push(retval)) by {
                assert forall|i: int|
                    0 <= i < o.queue().len() implies self.completed_fds()[i]
                        == o.completed_fds()[i] by {
                    assert(self.queue()[i] == o.queue()[i]);
                    assert(o.entries().dom().contains((o.queue()[i]) as int));
                    assert(o.queue()[i] != key);
                }
            }
        }
    }

    /// The clamped listen backlog.
    pub fn backlog(&self) -> (n: usize)
        ensures
            n == self.spec_backlog(),
    {
        self.backlog
    }

    /// Number of completed-but-unconsumed connections.
    pub fn completed(&self) -> (n: usize)
        ensures
            n == self.completed_count(),
    {
        self.completed_indexes.len()
    }

    /// Number of accepts still in flight.
    pub fn pending(&self) -> (n: usize)
        requires
            self.wf(),
        ensures
            n == self.pending_count(),
    {
        proof {
            lemma_counts(*self);
        }
        table_len(&self.accept_slab) - self.completed_indexes.len()
    }
}

/// The completed queue holds distinct keys of the slot table, so there are
/// never more completed connections than occupied slots: the pending count
/// is never negative, and both counts are bounded by the backlog.
pub proof fn lemma_counts(a: Acceptor)
    requires
        a.wf(),
    ensures
        0 <= a.completed_count() <= a.slot_count(),
        0 <= a.pending_count() <= a.spec_backlog(),
        a.slot_count() <= a.spec_backlog(),
{
    let q = a.queue();
    let dom = a.entries().dom();
    let t = Seq::<int>::new(q.len(), |i: int| q[i] as int);
    assert(t.no_duplicates()) by {
        assert forall|i1: int, i2: int|
            0 <= i1 < t.len() && 0 <= i2 < t.len() && i1 != i2 implies t[i1] != t[i2] by {
            if i1 < i2 {
                assert(q[i1] != q[i2]);
            } else {
                assert(q[i2] != q[i1]);
            }
        }
    }
    t.unique_seq_to_set();
    assert(t.to_set().subset_of(dom)) by {
        assert forall|x: int| t.to_set().contains(x) implies dom.contains(x) by {
            let i = choose|i: int| 0 <= i < t.len() && t[i] == x;
            assert(dom.contains((q[i]) as int));
        }
    }
    lemma_len_subset(t.to_set(), dom);
}

/// The acceptor's backlog invariant: whenever the whole backlog is covered —
/// as construction establishes and every consumption restores at once — the
/// accepts still in flight and the completed-but-unconsumed connections
/// together account for exactly the backlog.
pub proof fn lemma_backlog_invariant(a: Acceptor)
    requires
        a.wf(),
        a.slot_count() == a.spec_backlog(),
    ensures
        a.pending_count() + a.completed_count() == a.spec_backlog(),
        0 <= a.completed_count() <= a.spec_backlog(),
        0 <= a.pending_count() <= a.spec_backlog(),
{
    lemma_counts(a);
}

} // verus!
