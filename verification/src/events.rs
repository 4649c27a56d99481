//! Readiness events: the per-socket bitmask of event kinds a task can wait
//! on, with one flag each for readable (IN), writable (OUT), error (ERR) and
//! hang-up (HUP).

use vstd::prelude::*;

verus! {

/// A set of readiness event kinds.
#[derive(Clone, Copy, PartialEq, Eq, Structural, Debug)]
pub struct Events {
    /// IN: data, or a completed connection, is ready to be taken.
    pub is_in: bool,
    /// OUT: room is available for writing.
    pub is_out: bool,
    /// ERR: a sticky error has been latched.
    pub is_err: bool,
    /// HUP: the channel was shut down.
    pub is_hup: bool,
}

/// The union of two event sets.
pub open spec fn union_of(a: Events, b: Events) -> Events {
    Events {
        is_in: a.is_in || b.is_in,
        is_out: a.is_out || b.is_out,
        is_err: a.is_err || b.is_err,
        is_hup: a.is_hup || b.is_hup,
    }
}

/// The events of `a` with those of `b` withdrawn.
pub open spec fn difference_of(a: Events, b: Events) -> Events {
    Events {
        is_in: a.is_in && !b.is_in,
        is_out: a.is_out && !b.is_out,
        is_err: a.is_err && !b.is_err,
        is_hup: a.is_hup && !b.is_hup,
    }
}

/// Whether `a` and `b` share at least one event kind.
pub open spec fn overlaps(a: Events, b: Events) -> bool {
    ||| a.is_in && b.is_in
    ||| a.is_out && b.is_out
    ||| a.is_err && b.is_err
    ||| a.is_hup && b.is_hup
}

impl Events {
    /// No events.
    pub fn empty() -> (e: Events)
        ensures
            e == (Events { is_in: false, is_out: false, is_err: false, is_hup: false }),
    {
        Events { is_in: false, is_out: false, is_err: false, is_hup: false }
    }

    /// Only the IN event.
    pub fn just_in() -> (e: Events)
        ensures
            e == (Events { is_in: true, is_out: false, is_err: false, is_hup: false }),
    {
        Events { is_in: true, is_out: false, is_err: false, is_hup: false }
    }

    /// Only the OUT event.
    pub fn just_out() -> (e: Events)
        ensures
            e == (Events { is_in: false, is_out: true, is_err: false, is_hup: false }),
    {
        Events { is_in: false, is_out: true, is_err: false, is_hup: false }
    }

    /// Only the ERR event.
    pub fn just_err() -> (e: Events)
        ensures
            e == (Events { is_in: false, is_out: false, is_err: true, is_hup: false }),
    {
        Events { is_in: false, is_out: false, is_err: true, is_hup: false }
    }

    /// Only the HUP event.
    pub fn just_hup() -> (e: Events)
        ensures
            e == (Events { is_in: false, is_out: false, is_err: false, is_hup: true }),
    {
        Events { is_in: false, is_out: false, is_err: false, is_hup: true }
    }

    /// Raise every event of `other` in `self`.
    pub fn add(&mut self, other: Events)
        ensures
            *final(self) == union_of(*old(self), other),
    {
        self.is_in = self.is_in || other.is_in;
        self.is_out = self.is_out || other.is_out;
        self.is_err = self.is_err || other.is_err;
        self.is_hup = self.is_hup || other.is_hup;
    }

    /// Withdraw every event of `other` from `self`.
    pub fn remove(&mut self, other: Events)
        ensures
            *final(self) == difference_of(*old(self), other),
    {
        self.is_in = self.is_in && !other.is_in;
        self.is_out = self.is_out && !other.is_out;
        self.is_err = self.is_err && !other.is_err;
        self.is_hup = self.is_hup && !other.is_hup;
    }

    /// Whether any event of `mask` is raised in `self`: what a poll against
    /// `mask` would report.
    pub fn intersects(&self, mask: Events) -> (r: bool)
        ensures
            r == overlaps(*self, mask),
    {
        (self.is_in && mask.is_in) || (self.is_out && mask.is_out) || (self.is_err && mask.is_err)
            || (self.is_hup && mask.is_hup)
    }

    /// Whether no event at all is raised.
    pub fn is_empty(&self) -> (r: bool)
        ensures
            r == (*self == (Events { is_in: false, is_out: false, is_err: false, is_hup: false })),
    {
        !self.is_in && !self.is_out && !self.is_err && !self.is_hup
    }
}

} // verus!
