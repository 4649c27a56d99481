//! An asynchronous, buffered, non-blocking TCP socket abstraction layered
//! over a completion-queue style I/O backend.
//!
//! The core pieces are the per-socket shared state ([`common::Common`]), the
//! four operation components ([`acceptor::Acceptor`], [`connector::Connector`],
//! [`sender::Sender`], [`receiver::Receiver`]) and their two supporting data
//! structures: a wraparound byte ring buffer ([`circular_buf::CircularBuf`])
//! and a fixed-capacity slot allocator ([`raw_slab::RawSlab`]).
//!
//! Submission of kernel operations and the readiness-poller wait point are the
//! caller's business: each component is a state machine that decides, from its
//! own state and a completion event, what the next state is and which action
//! (submit a flush, close a half of the socket, ...) the surrounding event
//! loop must perform.

pub mod accept_table;
pub mod acceptor;
pub mod circular_buf;
pub mod common;
pub mod connector;
pub mod echo;
pub mod errno;
pub mod events;
pub mod raw_slab;
pub mod receiver;
pub mod sender;
pub mod socket_addr;

pub use acceptor::Acceptor;
pub use circular_buf::CircularBuf;
pub use common::Common;
pub use connector::Connector;
pub use echo::AcceptCount;
pub use echo::EchoServer;
pub use events::Events;
pub use raw_slab::RawSlab;
pub use receiver::Receiver;
pub use sender::Sender;
pub use socket_addr::SockAddrIn;
