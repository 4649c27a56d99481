//! The errno values the socket components return, as positive constants;
//! callers see them negated, POSIX style.

use vstd::prelude::*;

verus! {

/// Operation would block; never surfaced to callers, it only drives the
/// internal poll-and-retry loop.
pub const EAGAIN: i32 = 11;

/// Broken pipe: the component was shut down before the call.
pub const EPIPE: i32 = 32;

} // verus!
