//! Timing of a piece of work (typically a future) from its first poll.
//!
//! Times are plain nanosecond readings of one monotonic clock that the caller
//! owns; the wrapper keeps the reading of the first poll and reports the time
//! elapsed since then.

use vstd::prelude::*;

verus! {

/// Work paired with the clock reading at which it was first polled.
pub struct TimedWrapper<Fut> {
    /// The clock reading of the first poll, if there was one.
    pub start: Option<u64>,
    pub fut: Fut,
}

/// The time from `start` to `now`, or zero where the clock reads earlier.
pub open spec fn since(start: u64, now: u64) -> u64 {
    if now >= start {
        (now - start) as u64
    } else {
        0
    }
}

impl<Fut> TimedWrapper<Fut> {
    /// Wraps `fut`, not yet polled.
    pub fn new(fut: Fut) -> (r: Self)
        ensures
            r.start is None,
            r.fut == fut,
    {
        Self { fut, start: None }
    }

    /// Records a poll at clock reading `now`: the first poll fixes the start,
    /// later ones leave it. Returns the start.
    pub fn mark_poll(&mut self, now: u64) -> (start: u64)
        ensures
            start == match old(self).start {
                Some(s) => s,
                None => now,
            },
            final(self).start == Some(start),
            final(self).fut == old(self).fut,
    {
        match self.start {
            Some(s) => s,
            None => {
                self.start = Some(now);
                now
            },
        }
    }

    /// The time elapsed from the first poll to `now` (see `since`).
    pub fn elapsed(&self, now: u64) -> (d: u64)
        requires
            self.start is Some,
        ensures
            d == since(self.start->0, now),
    {
        let start = match self.start {
            Some(s) => s,
            None => now,
        };
        if now >= start {
            now - start
        } else {
            0
        }
    }
}

} // verus!
