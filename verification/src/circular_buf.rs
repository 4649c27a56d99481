//! A wraparound byte ring buffer with two-cursor full/empty disambiguation.
//!
//! The buffer stores bytes in a fixed backing storage of `len` bytes; the
//! usable capacity is `len - 1`, one slot being sacrificed so that an empty
//! buffer (`head == tail`) can be told apart from a full one using only the
//! two cursors. The consumer cursor `head` and the producer cursor `tail`
//! always lie in `0 .. len`.

use vstd::prelude::*;

verus! {

/// Position `i` reduced into `0 .. len`, for `0 <= i < 2 * len`.
pub open spec fn wrap_index(i: int, len: int) -> int {
    if i < len {
        i
    } else {
        i - len
    }
}

/// A circular byte buffer over fixed backing storage.
pub struct CircularBuf {
    storage: Vec<u8>,
    // The consumer cursor; invariant: head < storage.len().
    head: usize,
    // The producer cursor; invariant: tail < storage.len().
    tail: usize,
}

impl CircularBuf {
    /// The backing storage length.
    pub closed spec fn spec_len(self) -> int {
        self.storage@.len() as int
    }

    /// Well-formedness: non-empty storage and cursors in range.
    pub closed spec fn wf(self) -> bool {
        &&& self.storage@.len() > 0
        &&& self.head < self.storage@.len()
        &&& self.tail < self.storage@.len()
    }

    /// Number of buffered (consumable) bytes.
    pub closed spec fn spec_consumable(self) -> int {
        if self.head <= self.tail {
            self.tail - self.head
        } else {
            self.spec_len() - self.head + self.tail
        }
    }

    /// Usable capacity: one less than the storage length.
    pub closed spec fn spec_capacity(self) -> int {
        self.spec_len() - 1
    }

    /// Free room: capacity minus the buffered bytes.
    pub closed spec fn spec_producible(self) -> int {
        self.spec_capacity() - self.spec_consumable()
    }

    /// The next `n` bytes of backing storage past the producer cursor: what a
    /// zero-copy producer commits without writing through this interface.
    pub closed spec fn staged_bytes(self, n: int) -> Seq<u8> {
        Seq::new(n as nat, |i: int| self.storage@[wrap_index(self.tail + i, self.spec_len())])
    }
}

impl View for CircularBuf {
    type V = Seq<u8>;

    /// The buffered bytes, consumer end first.
    closed spec fn view(&self) -> Seq<u8> {
        Seq::new(
            self.spec_consumable() as nat,
            |i: int| self.storage@[wrap_index(self.head + i, self.spec_len())],
        )
    }
}

impl CircularBuf {
    /// Construct a circular buffer that takes over the given backing storage.
    /// The storage length fixes the geometry: usable capacity is one byte less.
    pub fn from_raw_parts(storage: Vec<u8>) -> (buf: CircularBuf)
        requires
            storage@.len() > 0,
        ensures
            buf.wf(),
            buf@ == Seq::<u8>::empty(),
            buf.spec_capacity() == storage@.len() - 1,
    {
        let buf = CircularBuf { storage, head: 0, tail: 0 };
        proof {
            assert(buf@ =~= Seq::<u8>::empty());
        }
        buf
    }

    /// Number of bytes that can still be produced before the buffer is full.
    pub fn producible(&self) -> (n: usize)
        requires
            self.wf(),
        ensures
            n == self.spec_capacity() - self@.len(),
    {
        self.capacity() - self.consumable()
    }

    /// Number of buffered bytes available to a consumer.
    pub fn consumable(&self) -> (n: usize)
        requires
            self.wf(),
        ensures
            n == self@.len(),
    {
        if self.head <= self.tail {
            self.tail - self.head
        } else {
            (self.storage.len() - self.head) + self.tail
        }
    }

    /// The usable capacity of the buffer.
    pub fn capacity(&self) -> (n: usize)
        requires
            self.wf(),
        ensures
            n == self.spec_capacity(),
    {
        self.storage.len() - 1
    }

    /// Whether no more bytes can be produced.
    pub fn is_full(&self) -> (r: bool)
        requires
            self.wf(),
        ensures
            r == (self@.len() == self.spec_capacity()),
    {
        self.producible() == 0
    }

    /// Whether no bytes are buffered.
    pub fn is_empty(&self) -> (r: bool)
        requires
            self.wf(),
        ensures
            r == (self@.len() == 0),
    {
        self.consumable() == 0
    }
}

impl CircularBuf {
    /// Copy as many bytes as fit from `buf` into the ring, advancing the
    /// producer cursor. Partial transfers are normal: the transferred count is
    /// returned and is the whole of `buf` whenever there is room.
    pub fn produce(&mut self, buf: &[u8]) -> (n: usize)
        requires
            old(self).wf(),
        ensures
            final(self).wf(),
            n == if buf@.len() <= old(self).spec_capacity() - old(self)@.len() {
                buf@.len() as int
            } else {
                old(self).spec_capacity() - old(self)@.len()
            },
            final(self)@ == old(self)@ + buf@.take(n as int),
            final(self).spec_capacity() == old(self).spec_capacity(),
    {
        let len = self.storage.len();
        let producible = self.producible();
        let n = if buf.len() <= producible {
            buf.len()
        } else {
            producible
        };
        let ghost orig = *self;
        let mut i: usize = 0;
        while i < n
            invariant
                orig.wf(),
                i <= n,
                n <= orig.spec_producible(),
                n <= buf@.len(),
                len == orig.spec_len(),
                self.head == orig.head,
                self.tail == orig.tail,
                self.storage@.len() == orig.storage@.len(),
                forall|j: int|
                    0 <= j < i ==> self.storage@[wrap_index(orig.tail + j, orig.spec_len())]
                        == buf@[j],
                forall|p: int|
                    0 <= p < orig.spec_len() && !(exists|j: int|
                        0 <= j < i && p == #[trigger] wrap_index(orig.tail + j, orig.spec_len()))
                        ==> self.storage@[p] == orig.storage@[p],
            decreases n - i,
        {
            let idx = if i < len - self.tail {
                self.tail + i
            } else {
                i - (len - self.tail)
            };
            assert(idx == wrap_index(orig.tail + i, orig.spec_len()));
            self.storage.set(idx, buf[i]);
            i += 1;
        }
        let new_tail = if n < len - self.tail {
            self.tail + n
        } else {
            n - (len - self.tail)
        };
        assert(new_tail == wrap_index(orig.tail + n, orig.spec_len()));
        self.tail = new_tail;
        proof {
            lemma_produce_view(orig, *self, buf@, n as int);
        }
        n
    }
}

impl CircularBuf {
    /// Move as many buffered bytes as fit into the front of `buf`, advancing
    /// the consumer cursor. Bytes of `buf` past the transferred count keep
    /// their old values.
    pub fn consume(&mut self, buf: &mut Vec<u8>) -> (n: usize)
        requires
            old(self).wf(),
        ensures
            final(self).wf(),
            n == if old(buf)@.len() <= old(self)@.len() {
                old(buf)@.len() as int
            } else {
                old(self)@.len() as int
            },
            final(buf)@ == old(self)@.take(n as int) + old(buf)@.skip(n as int),
            final(self)@ == old(self)@.skip(n as int),
            final(self).spec_capacity() == old(self).spec_capacity(),
    {
        let len = self.storage.len();
        let consumable = self.consumable();
        let n = if buf.len() <= consumable {
            buf.len()
        } else {
            consumable
        };
        let ghost orig = *self;
        let ghost buf_orig = *buf;
        let mut i: usize = 0;
        while i < n
            invariant
                orig.wf(),
                i <= n,
                n <= orig.spec_consumable(),
                n <= buf@.len(),
                len == orig.spec_len(),
                *self == orig,
                buf@.len() == buf_orig@.len(),
                forall|j: int| 0 <= j < i ==> buf@[j] == orig@[j],
                forall|j: int| i <= j < buf@.len() ==> buf@[j] == buf_orig@[j],
            decreases n - i,
        {
            let idx = if i < len - self.head {
                self.head + i
            } else {
                i - (len - self.head)
            };
            assert(idx == wrap_index(orig.head + i, orig.spec_len()));
            let b = self.storage[idx];
            assert(b == orig@[i as int]);
            buf.set(i, b);
            i += 1;
        }
        let new_head = if n < len - self.head {
            self.head + n
        } else {
            n - (len - self.head)
        };
        assert(new_head == wrap_index(orig.head + n, orig.spec_len()));
        self.head = new_head;
        proof {
            lemma_consume_view(orig, *self, n as int);
            assert(buf@ =~= orig@.take(n as int) + buf_orig@.skip(n as int));
        }
        n
    }

    /// Commit `len` bytes (clamped to the free room) that were written into
    /// the backing storage past the producer cursor by some outside writer,
    /// advancing the cursor without copying anything.
    pub fn produce_without_copy(&mut self, len: usize) -> (n: usize)
        requires
            old(self).wf(),
        ensures
            final(self).wf(),
            n == if len <= old(self).spec_capacity() - old(self)@.len() {
                len as int
            } else {
                old(self).spec_capacity() - old(self)@.len()
            },
            final(self)@ == old(self)@ + old(self).staged_bytes(n as int),
            final(self).spec_capacity() == old(self).spec_capacity(),
    {
        let storage_len = self.storage.len();
        let producible = self.producible();
        let n = if len <= producible {
            len
        } else {
            producible
        };
        let ghost orig = *self;
        let new_tail = if n < storage_len - self.tail {
            self.tail + n
        } else {
            n - (storage_len - self.tail)
        };
        assert(new_tail == wrap_index(orig.tail + n, orig.spec_len()));
        self.tail = new_tail;
        proof {
            lemma_produce_view(orig, *self, orig.staged_bytes(n as int), n as int);
        }
        n
    }

    /// Release `len` buffered bytes (clamped to the buffered count) that were
    /// read out of the backing storage by some outside reader, advancing the
    /// consumer cursor without copying anything.
    pub fn consume_without_copy(&mut self, len: usize) -> (n: usize)
        requires
            old(self).wf(),
        ensures
            final(self).wf(),
            n == if len <= old(self)@.len() {
                len as int
            } else {
                old(self)@.len() as int
            },
            final(self)@ == old(self)@.skip(n as int),
            final(self).spec_capacity() == old(self).spec_capacity(),
    {
        let storage_len = self.storage.len();
        let consumable = self.consumable();
        let n = if len <= consumable {
            len
        } else {
            consumable
        };
        let ghost orig = *self;
        let new_head = if n < storage_len - self.head {
            self.head + n
        } else {
            n - (storage_len - self.head)
        };
        assert(new_head == wrap_index(orig.head + n, orig.spec_len()));
        self.head = new_head;
        proof {
            lemma_consume_view(orig, *self, n as int);
        }
        n
    }
}

/// After advancing the consumer cursor over `n` bytes, the buffered sequence
/// is the old one with its first `n` bytes dropped.
proof fn lemma_consume_view(orig: CircularBuf, now: CircularBuf, n: int)
    requires
        orig.wf(),
        0 <= n <= orig.spec_consumable(),
        now.tail == orig.tail,
        now.spec_len() == orig.spec_len(),
        now.storage@ == orig.storage@,
        now.head == wrap_index(orig.head + n, orig.spec_len()),
    ensures
        now.wf(),
        now@ == orig@.skip(n),
        now.spec_consumable() == orig.spec_consumable() - n,
{
    let len = orig.spec_len();
    assert(now.spec_consumable() == orig.spec_consumable() - n);
    assert forall|k: int| 0 <= k < now.spec_consumable() implies now@[k] == orig@[n + k] by {
        assert(wrap_index(now.head + k, len) == wrap_index(orig.head + (n + k), len));
    }
    assert(now@ =~= orig@.skip(n));
}

/// After writing `n` bytes of `data` at the producer cursor and advancing it,
/// the buffered sequence is the old one with those bytes appended.
proof fn lemma_produce_view(orig: CircularBuf, now: CircularBuf, data: Seq<u8>, n: int)
    requires
        orig.wf(),
        0 <= n <= orig.spec_producible(),
        n <= data.len(),
        now.head == orig.head,
        now.spec_len() == orig.spec_len(),
        now.tail == wrap_index(orig.tail + n, orig.spec_len()),
        forall|j: int|
            0 <= j < n ==> now.storage@[wrap_index(orig.tail + j, orig.spec_len())] == data[j],
        forall|p: int|
            0 <= p < orig.spec_len() && !(exists|j: int|
                0 <= j < n && p == #[trigger] wrap_index(orig.tail + j, orig.spec_len()))
                ==> now.storage@[p] == orig.storage@[p],
    ensures
        now.wf(),
        now@ == orig@ + data.take(n),
        now.spec_consumable() == orig.spec_consumable() + n,
{
    let len = orig.spec_len();
    let head = orig.head as int;
    let tail = orig.tail as int;
    let c = orig.spec_consumable();
    assert(tail == wrap_index(head + c, len));
    assert(now.spec_consumable() == c + n);
    assert forall|k: int| 0 <= k < c + n implies now@[k] == (orig@ + data.take(n))[k] by {
        if k < c {
            // An untouched consumer position: distinct from every written slot.
            assert forall|j: int| 0 <= j < n implies wrap_index(head + k, len) != #[trigger] wrap_index(
                orig.tail + j,
                len,
            ) by {
                assert(wrap_index(orig.tail + j, len) == wrap_index(head + (c + j), len));
            }
        } else {
            // A freshly written position.
            assert(wrap_index(head + k, len) == wrap_index(orig.tail + (k - c), len));
        }
    }
    assert(now@ =~= orig@ + data.take(n));
}

impl CircularBuf {
    /// Copy the buffered bytes out, consumer end first, without releasing
    /// them.
    pub fn to_vec(&self) -> (v: Vec<u8>)
        requires
            self.wf(),
        ensures
            v@ == self@,
    {
        let len = self.storage.len();
        let consumable = self.consumable();
        let mut v: Vec<u8> = Vec::new();
        let mut i: usize = 0;
        while i < consumable
            invariant
                self.wf(),
                i <= consumable,
                consumable == self.spec_consumable(),
                len == self.spec_len(),
                v@.len() == i,
                forall|j: int| 0 <= j < i ==> v@[j] == self@[j],
            decreases consumable - i,
        {
            let idx = if i < len - self.head {
                self.head + i
            } else {
                i - (len - self.head)
            };
            assert(idx == wrap_index(self.head + i, self.spec_len()));
            v.push(self.storage[idx]);
            i += 1;
        }
        proof {
            assert(v@ =~= self@);
        }
        v
    }

    /// First contiguous run of buffered bytes, starting at the consumer
    /// cursor.
    pub closed spec fn consumer_part0(self) -> Seq<u8> {
        if self.head <= self.tail {
            self.storage@.subrange(self.head as int, self.tail as int)
        } else {
            self.storage@.subrange(self.head as int, self.spec_len())
        }
    }

    /// Second contiguous run of buffered bytes: the wrapped-around prefix of
    /// the storage, empty when the buffered bytes do not cross the end.
    pub closed spec fn consumer_part1(self) -> Seq<u8> {
        if self.head <= self.tail {
            Seq::<u8>::empty()
        } else {
            self.storage@.subrange(0, self.tail as int)
        }
    }

    /// Length of the first contiguous run of free storage past the producer
    /// cursor.
    pub closed spec fn producer_part0_len(self) -> int {
        if self.tail >= self.head {
            if self.head > 0 {
                self.spec_len() - self.tail
            } else if self.tail < self.spec_len() - 1 {
                self.spec_len() - 1 - self.tail
            } else {
                0
            }
        } else if self.tail < self.head - 1 {
            self.head - 1 - self.tail
        } else {
            0
        }
    }

    /// Length of the second contiguous run of free storage (the wrapped-around
    /// prefix), empty when the free room does not cross the end.
    pub closed spec fn producer_part1_len(self) -> int {
        if self.tail >= self.head && self.head > 0 {
            self.head - 1
        } else {
            0
        }
    }

    /// Hand the consumer's two contiguous byte runs to `f`; the count it
    /// returns, clamped to the buffered total, is released from the buffer.
    pub fn with_consumer_view<F: FnOnce(&[u8], &[u8]) -> usize>(&mut self, f: F) -> (n: usize)
        requires
            old(self).wf(),
            forall|s0: &[u8], s1: &[u8]|
                s0@ == old(self).consumer_part0() && s1@ == old(self).consumer_part1()
                    ==> #[trigger] call_requires(f, (s0, s1)),
        ensures
            final(self).wf(),
            final(self).spec_capacity() == old(self).spec_capacity(),
            n <= old(self)@.len(),
            final(self)@ == old(self)@.skip(n as int),
            exists|s0: &[u8], s1: &[u8], r: usize|
                {
                    &&& s0@ == old(self).consumer_part0()
                    &&& s1@ == old(self).consumer_part1()
                    &&& #[trigger] call_ensures(f, (s0, s1), r)
                    &&& n == if r <= old(self)@.len() {
                        r as int
                    } else {
                        old(self)@.len() as int
                    }
                },
    {
        let len = self.storage.len();
        let (start0, end0, end1) = if self.head <= self.tail {
            (self.head, self.tail, 0)
        } else {
            (self.head, len, self.tail)
        };
        let part0 = vstd::slice::slice_subrange(self.storage.as_slice(), start0, end0);
        let part1 = vstd::slice::slice_subrange(self.storage.as_slice(), 0, end1);
        proof {
            assert(part0@ =~= old(self).consumer_part0());
            assert(part1@ =~= old(self).consumer_part1());
        }
        let r = f(part0, part1);
        let ghost orig = *self;
        let consumable = self.consumable();
        let n = if r <= consumable {
            r
        } else {
            consumable
        };
        let new_head = if n < len - self.head {
            self.head + n
        } else {
            n - (len - self.head)
        };
        assert(new_head == wrap_index(orig.head + n, orig.spec_len()));
        self.head = new_head;
        proof {
            lemma_consume_view(orig, *self, n as int);
        }
        n
    }

    /// Hand the producer's two contiguous free-run lengths to `f`; the count
    /// it returns, clamped to the free room, is committed into the buffer out
    /// of the backing storage.
    pub fn with_producer_view<F: FnOnce(usize, usize) -> usize>(&mut self, f: F) -> (n: usize)
        requires
            old(self).wf(),
            forall|a: usize, b: usize|
                a == old(self).producer_part0_len() && b == old(self).producer_part1_len()
                    ==> #[trigger] call_requires(f, (a, b)),
        ensures
            final(self).wf(),
            final(self).spec_capacity() == old(self).spec_capacity(),
            n <= old(self).spec_capacity() - old(self)@.len(),
            final(self)@ == old(self)@ + old(self).staged_bytes(n as int),
            exists|r: usize|
                {
                    &&& #[trigger] call_ensures(
                        f,
                        (
                            old(self).producer_part0_len() as usize,
                            old(self).producer_part1_len() as usize,
                        ),
                        r,
                    )
                    &&& n == if r <= old(self).spec_capacity() - old(self)@.len() {
                        r as int
                    } else {
                        old(self).spec_capacity() - old(self)@.len()
                    }
                },
    {
        let len = self.storage.len();
        let (len0, len1): (usize, usize) = if self.tail >= self.head {
            if self.head > 0 {
                (len - self.tail, self.head - 1)
            } else if self.tail < len - 1 {
                (len - 1 - self.tail, 0)
            } else {
                (0, 0)
            }
        } else if self.tail < self.head - 1 {
            (self.head - 1 - self.tail, 0)
        } else {
            (0, 0)
        };
        proof {
            assert(len0 == old(self).producer_part0_len());
            assert(len1 == old(self).producer_part1_len());
        }
        let r = f(len0, len1);
        let ghost orig = *self;
        let producible = self.producible();
        let n = if r <= producible {
            r
        } else {
            producible
        };
        let new_tail = if n < len - self.tail {
            self.tail + n
        } else {
            n - (len - self.tail)
        };
        assert(new_tail == wrap_index(orig.tail + n, orig.spec_len()));
        self.tail = new_tail;
        proof {
            lemma_produce_view(orig, *self, orig.staged_bytes(n as int), n as int);
        }
        n
    }
}

/// The two consumer runs laid end to end are exactly the buffered bytes, and
/// the two producer run lengths add up to exactly the free room.
pub proof fn lemma_views_cover(buf: CircularBuf)
    requires
        buf.wf(),
    ensures
        buf.consumer_part0() + buf.consumer_part1() == buf@,
        buf.consumer_part0().len() + buf.consumer_part1().len() == buf@.len(),
        buf.producer_part0_len() + buf.producer_part1_len() == buf.spec_producible(),
{
    assert(buf.consumer_part0() + buf.consumer_part1() =~= buf@);
}

/// A zero-filled byte vector of the given length: fresh backing storage for
/// a circular buffer.
pub fn zeroed_storage(len: usize) -> (v: Vec<u8>)
    ensures
        v@.len() == len,
        forall|i: int| 0 <= i < len ==> v@[i] == 0,
{
    let mut v: Vec<u8> = Vec::new();
    let mut i: usize = 0;
    while i < len
        invariant
            i <= len,
            v@.len() == i,
            forall|j: int| 0 <= j < i ==> v@[j] == 0,
        decreases len - i,
    {
        v.push(0);
        i += 1;
    }
    v
}

/// Round trip: bytes handed to `produce` come back from `consume` unchanged
/// and in order. `produce` appends the transferred bytes to the buffered
/// sequence and `consume` takes from its front, so, as long as the bytes fit,
/// whatever follows the already-buffered prefix is exactly what was produced.
pub proof fn lemma_round_trip(buffered: Seq<u8>, incoming: Seq<u8>)
    ensures
        (buffered + incoming).take(buffered.len() as int) == buffered,
        (buffered + incoming).skip(buffered.len() as int) == incoming,
{
    assert((buffered + incoming).take(buffered.len() as int) =~= buffered);
    assert((buffered + incoming).skip(buffered.len() as int) =~= incoming);
}

/// The two derived quantities always partition the capacity, and fullness and
/// emptiness are exactly the vanishing of the respective side.
pub proof fn lemma_capacity_invariant(buf: CircularBuf)
    requires
        buf.wf(),
    ensures
        buf.spec_producible() + buf.spec_consumable() == buf.spec_capacity(),
        (buf.spec_producible() == 0) <==> (buf@.len() == buf.spec_capacity()),
        (buf.spec_consumable() == 0) <==> (buf@.len() == 0),
        buf@.len() == buf.spec_consumable(),
        0 <= buf@.len() <= buf.spec_capacity(),
        0 <= buf.spec_producible() <= buf.spec_capacity(),
{
}

} // verus!
