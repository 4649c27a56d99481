//! The decision core of a completion-driven TCP echo server.
//!
//! The surrounding event loop performs the kernel work: it submits accepts,
//! polls, reads and writes, and feeds each completion back here as a
//! [`Token`] with its signed result. [`EchoServer::handle_event`] decides,
//! from the token and the buffer-pool state, the single next operation to
//! submit, recycling buffers through a pool of indexes so that every
//! connection in flight owns exactly one buffer.

use vstd::prelude::*;

verus! {

/// The size, in bytes, of each echo buffer.
pub const ECHO_BUF_SIZE: usize = 2048;

/// The correlation token carried by a submitted operation and handed back
/// with its completion.
#[derive(Clone, Copy, PartialEq, Eq, Structural, Debug)]
pub enum Token {
    /// An accept on the listening socket; the result is the new descriptor.
    Accept,
    /// A readability poll on a connection.
    Poll {
        /// The connection's descriptor.
        fd: i32,
    },
    /// A read on a connection into the buffer at `buf_index`.
    Read {
        /// The connection's descriptor.
        fd: i32,
        /// The buffer the read delivers into.
        buf_index: usize,
    },
    /// A write on a connection out of the buffer at `buf_index`; `offset`
    /// and `len` locate the bytes being echoed back.
    Write {
        /// The connection's descriptor.
        fd: i32,
        /// The buffer the write sends from.
        buf_index: usize,
        /// Offset of the first unsent byte.
        offset: usize,
        /// Length of the submitted range.
        len: usize,
    },
}

/// The next operation the event loop must submit.
#[derive(Clone, Copy, PartialEq, Eq, Structural, Debug)]
pub enum EchoAction {
    /// Poll the connection for readability, with token `Poll { fd }`.
    SubmitPoll {
        /// The connection's descriptor.
        fd: i32,
    },
    /// Read into the buffer, with token `Read { fd, buf_index }`.
    SubmitRead {
        /// The connection's descriptor.
        fd: i32,
        /// The buffer to read into.
        buf_index: usize,
    },
    /// Write the located bytes back, with the corresponding `Write` token.
    SubmitWrite {
        /// The connection's descriptor.
        fd: i32,
        /// The buffer to send from.
        buf_index: usize,
        /// Offset of the first byte to send.
        offset: usize,
        /// Number of bytes to send.
        len: usize,
    },
    /// The peer is done: close the connection's descriptor.
    CloseFd {
        /// The descriptor to close.
        fd: i32,
    },
}

/// How many accept operations still need to be pushed onto the completion
/// backend for the listening socket.
pub struct AcceptCount {
    fd: i32,
    count: usize,
}

impl AcceptCount {
    /// The listening socket's descriptor.
    pub closed spec fn spec_fd(self) -> i32 {
        self.fd
    }

    /// The number of accepts owed to the backend.
    pub closed spec fn spec_count(self) -> int {
        self.count as int
    }

    /// Track the listening socket `fd`, owing `count` initial accepts.
    pub fn new(fd: i32, count: usize) -> (a: AcceptCount)
        ensures
            a.spec_fd() == fd,
            a.spec_count() == count,
    {
        AcceptCount { fd, count }
    }

    /// One more accept is owed: a connection was just taken off the backlog.
    pub fn note_accepted(&mut self)
        requires
            old(self).spec_count() < usize::MAX,
        ensures
            final(self).spec_fd() == old(self).spec_fd(),
            final(self).spec_count() == old(self).spec_count() + 1,
    {
        self.count = self.count + 1;
    }

    /// Drain the owed accepts: the caller must submit one accept operation,
    /// with token `Accept`, for each counted unit, and the count returns to
    /// zero.
    pub fn try_push_accept(&mut self) -> (n: usize)
        ensures
            n == old(self).spec_count(),
            final(self).spec_count() == 0,
            final(self).spec_fd() == old(self).spec_fd(),
    {
        let n = self.count;
        self.count = 0;
        n
    }
}

/// The echo server's buffer-pool state: indexes of the free buffers, and how
/// many buffers have ever been handed out.
pub struct EchoServer {
    bufpool: Vec<usize>,
    buf_count: usize,
}

impl EchoServer {
    /// The free buffer indexes, most recently freed last.
    pub closed spec fn spec_pool(self) -> Seq<usize> {
        self.bufpool@
    }

    /// How many distinct buffers exist; every valid index is below it.
    pub closed spec fn spec_buf_count(self) -> int {
        self.buf_count as int
    }

    /// Whether buffer `i` exists and is currently owned by a connection.
    pub open spec fn in_use(self, i: usize) -> bool {
        i < self.spec_buf_count() && !self.spec_pool().contains(i)
    }

    /// Well-formedness: the pool holds distinct, existing buffer indexes.
    pub closed spec fn wf(self) -> bool {
        &&& forall|k: int|
            0 <= k < self.bufpool@.len() ==> (#[trigger] self.bufpool@[k]) < self.buf_count
        &&& forall|k1: int, k2: int|
            0 <= k1 < k2 < self.bufpool@.len() ==> self.bufpool@[k1] != self.bufpool@[k2]
    }

    /// A fresh server: no buffers exist yet.
    pub fn new() -> (s: EchoServer)
        ensures
            s.wf(),
            s.spec_pool() == Seq::<usize>::empty(),
            s.spec_buf_count() == 0,
    {
        EchoServer { bufpool: Vec::new(), buf_count: 0 }
    }

    /// Decide the next operation from a completed one.
    ///
    /// An accepted connection is polled for readability, and one more accept
    /// is owed. A readable connection gets a buffer — recycled from the pool
    /// when one is free, fresh otherwise — and a read. A read of zero bytes
    /// means the peer is done: the buffer returns to the pool and the
    /// descriptor is closed; otherwise the delivered bytes are written back.
    /// A write that finishes its range returns the buffer and polls again;
    /// a short write resubmits the remainder.
    pub fn handle_event(&mut self, accept: &mut AcceptCount, token: Token, ret: i32) -> (action:
        EchoAction)
        requires
            old(self).wf(),
            old(accept).spec_count() < usize::MAX,
            token is Accept ==> ret >= 0,
            token matches Token::Read { buf_index, .. } ==> 0 <= ret <= ECHO_BUF_SIZE && old(self).in_use(buf_index),
            token matches Token::Write { buf_index, offset, len, .. } ==> {
                &&& 0 <= ret <= len
                &&& offset + len <= ECHO_BUF_SIZE
                &&& old(self).in_use(buf_index)
            },
            token is Poll ==> old(self).spec_buf_count() < usize::MAX,
        ensures
            final(self).wf(),
            final(accept).spec_fd() == old(accept).spec_fd(),
            token is Accept ==> {
                &&& action == (EchoAction::SubmitPoll { fd: ret })
                &&& *final(self) == *old(self)
                &&& final(accept).spec_count() == old(accept).spec_count() + 1
            },
            !(token is Accept) ==> *final(accept) == *old(accept),
            token matches Token::Poll { fd } ==> {
                &&& action matches EchoAction::SubmitRead { fd: rfd, buf_index } && rfd == fd
                    && final(self).in_use(buf_index)
                &&& (old(self).spec_pool().len() > 0 ==> final(self).spec_pool() == old(self).spec_pool().drop_last() && action == (EchoAction::SubmitRead {
                    fd,
                    buf_index: old(self).spec_pool().last(),
                }) && final(self).spec_buf_count() == old(self).spec_buf_count())
                &&& (old(self).spec_pool().len() == 0 ==> final(self).spec_pool() == old(self).spec_pool() && action == (EchoAction::SubmitRead {
                    fd,
                    buf_index: old(self).spec_buf_count() as usize,
                }) && final(self).spec_buf_count() == old(self).spec_buf_count() + 1)
            },
            token matches Token::Read { fd, buf_index } ==> {
                &&& ret == 0 ==> action == (EchoAction::CloseFd { fd }) && final(self).spec_pool()
                    == old(self).spec_pool().push(buf_index) && final(self).spec_buf_count() == old(self).spec_buf_count()
                &&& ret > 0 ==> action == (EchoAction::SubmitWrite {
                    fd,
                    buf_index,
                    offset: 0,
                    len: ret as usize,
                }) && *final(self) == *old(self)
            },
            token matches Token::Write { fd, buf_index, offset, len } ==> {
                &&& offset + ret >= len ==> action == (EchoAction::SubmitPoll { fd }) && final(self).spec_pool() == old(self).spec_pool().push(buf_index) && final(self).spec_buf_count() == old(self).spec_buf_count()
                &&& offset + ret < len ==> action == (EchoAction::SubmitWrite {
                    fd,
                    buf_index,
                    offset: (offset + ret) as usize,
                    len: (len - offset - ret) as usize,
                }) && *final(self) == *old(self)
            },
    {
        match token {
            Token::Accept => {
                accept.note_accepted();
                EchoAction::SubmitPoll { fd: ret }
            },
            Token::Poll { fd } => {
                let buf_index = match self.bufpool.pop() {
                    Some(buf_index) => buf_index,
                    None => {
                        let fresh = self.buf_count;
                        self.buf_count = self.buf_count + 1;
                        fresh
                    },
                };
                proof {
                    if old(self).spec_pool().len() > 0 {
                        let p = old(self).spec_pool();
                        assert(!self.spec_pool().contains(buf_index)) by {
                            if self.spec_pool().contains(buf_index) {
                                let k = choose|k: int|
                                    0 <= k < p.len() - 1 && p.drop_last()[k] == buf_index;
                                assert(p[k] == p[p.len() - 1]);
                            }
                        }
                    } else {
                        assert(!self.spec_pool().contains(buf_index));
                    }
                }
                EchoAction::SubmitRead { fd, buf_index }
            },
            Token::Read { fd, buf_index } => {
                if ret == 0 {
                    // The peer is done with this connection.
                    self.bufpool.push(buf_index);
                    EchoAction::CloseFd { fd }
                } else {
                    EchoAction::SubmitWrite { fd, buf_index, offset: 0, len: ret as usize }
                }
            },
            Token::Write { fd, buf_index, offset, len } => {
                let write_len = ret as usize;
                if offset + write_len >= len {
                    // The whole range went out: recycle the buffer and wait
                    // for the peer's next message.
                    self.bufpool.push(buf_index);
                    EchoAction::SubmitPoll { fd }
                } else {
                    let offset = offset + write_len;
                    let len = len - offset;
                    EchoAction::SubmitWrite { fd, buf_index, offset, len }
                }
            },
        }
    }
}

} // verus!
