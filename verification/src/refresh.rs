//! Throttling of redraws while data keeps arriving.
//!
//! A redraw caused by new data is made at once if the last redraw lies at
//! least one interval back. Otherwise it is put off until the interval has
//! passed: data that arrives in between is shown by that one redraw.
//! Times are milliseconds on a clock chosen by the caller.

use vstd::prelude::*;

verus! {

/// What to do about data that has just arrived.
#[derive(Clone, Copy, Debug, PartialEq, Eq, Structural)]
pub enum RefreshDecision {
    /// Redraw now.
    Redraw,
    /// Do not redraw now; a redraw is due at the given time.
    Deferred(u64),
}

/// `a + b`, or the largest value where the sum does not fit.
pub open spec fn saturating_sum(a: u64, b: u64) -> u64 {
    if a + b <= u64::MAX {
        (a + b) as u64
    } else {
        u64::MAX
    }
}

/// The throttle.
#[derive(Clone, Copy, Debug, PartialEq, Eq, Structural)]
pub struct Refresh {
    /// Least time between two redraws caused by data.
    pub interval: u64,
    /// Time of the last redraw, if there was one.
    pub last_redraw: Option<u64>,
    /// Whether data has arrived that no redraw has shown yet.
    pub pending: bool,
}

impl Refresh {
    /// The time from which on a redraw caused by data is allowed.
    pub open spec fn due_at(&self) -> u64 {
        match self.last_redraw {
            Some(last) => saturating_sum(last, self.interval),
            None => 0,
        }
    }

    /// Whether a redraw caused by data is allowed at time `now`: there was
    /// no redraw yet, the interval has passed, or the clock has gone back.
    pub open spec fn is_due(&self, now: u64) -> bool {
        match self.last_redraw {
            Some(last) => now < last || now >= self.due_at(),
            None => true,
        }
    }

    /// The throttle with which the main loop starts.
    pub open spec fn initial() -> Refresh {
        Refresh { interval: 50, last_redraw: None, pending: false }
    }

    /// How long to wait at time `now` before a redraw of pending data is
    /// due: nothing is waited for where no data is pending.
    pub open spec fn wait_at(&self, now: u64) -> Option<u64> {
        if !self.pending {
            None
        } else if self.is_due(now) {
            Some(0)
        } else {
            Some((self.due_at() - now) as u64)
        }
    }

    /// A throttle that has not redrawn yet.
    pub fn new(interval: u64) -> (refresh: Refresh)
        ensures
            refresh == (Refresh { interval, last_redraw: None, pending: false }),
    {
        Refresh { interval, last_redraw: None, pending: false }
    }

    /// The time from which on a redraw caused by data is allowed.
    pub fn deadline(&self) -> (at: u64)
        ensures
            at == self.due_at(),
    {
        match self.last_redraw {
            Some(last) => if self.interval > u64::MAX - last {
                u64::MAX
            } else {
                last + self.interval
            },
            None => 0,
        }
    }

    /// Whether a redraw caused by data is allowed at time `now`.
    pub fn due(&self, now: u64) -> (due: bool)
        ensures
            due == self.is_due(now),
    {
        match self.last_redraw {
            Some(last) => now < last || now >= self.deadline(),
            None => true,
        }
    }

    /// How long to wait at time `now` for the redraw of pending data.
    pub fn wait(&self, now: u64) -> (wait: Option<u64>)
        ensures
            wait == self.wait_at(now),
    {
        if !self.pending {
            None
        } else if self.due(now) {
            Some(0)
        } else {
            Some(self.deadline() - now)
        }
    }

    /// Data has arrived at time `now` for the file on screen.
    ///
    /// If a redraw is due it is made now and nothing stays pending.
    /// Otherwise the data is noted as pending and the redraw is put off to
    /// the end of the interval.
    pub fn data_arrived(&mut self, now: u64) -> (decision: RefreshDecision)
        ensures
            final(self).interval == old(self).interval,
            decision == if old(self).is_due(now) {
                RefreshDecision::Redraw
            } else {
                RefreshDecision::Deferred(old(self).due_at())
            },
            *final(self) == if old(self).is_due(now) {
                Refresh { interval: old(self).interval, last_redraw: Some(now), pending: false }
            } else {
                Refresh { pending: true, ..*old(self) }
            },
    {
        if self.due(now) {
            self.last_redraw = Some(now);
            self.pending = false;
            RefreshDecision::Redraw
        } else {
            self.pending = true;
            RefreshDecision::Deferred(self.deadline())
        }
    }

    /// Time has passed without an event. Returns whether to redraw now:
    /// exactly if data is pending and a redraw is due.
    pub fn tick(&mut self, now: u64) -> (redraw: bool)
        ensures
            redraw == (old(self).pending && old(self).is_due(now)),
            *final(self) == if redraw {
                Refresh { interval: old(self).interval, last_redraw: Some(now), pending: false }
            } else {
                *old(self)
            },
    {
        if self.pending && self.due(now) {
            self.last_redraw = Some(now);
            self.pending = false;
            true
        } else {
            false
        }
    }

    /// The screen was redrawn at time `now` for another reason than data.
    /// Nothing stays pending.
    pub fn redrawn(&mut self, now: u64)
        ensures
            *final(self) == (Refresh {
                interval: old(self).interval,
                last_redraw: Some(now),
                pending: false,
            }),
    {
        self.last_redraw = Some(now);
        self.pending = false;
    }
}

/// On a clock that does not go back, two redraws caused by data lie at
/// least one interval apart, unless the later time is the largest the
/// clock can show.
pub proof fn lemma_redraws_are_spaced(before: Refresh, t1: u64, t2: u64)
    requires
        before.is_due(t1),
        t1 <= t2,
        (Refresh { interval: before.interval, last_redraw: Some(t1), pending: false }).is_due(t2),
    ensures
        t2 - t1 >= before.interval || t2 == u64::MAX,
{
}

/// Data that arrives too early for a redraw stays pending, and the first
/// tick at or after the deadline shows it.
pub proof fn lemma_pending_data_is_shown(before: Refresh, now: u64, later: u64)
    requires
        !before.is_due(now),
        later >= before.due_at(),
    ensures
        (Refresh { pending: true, ..before }).pending,
        (Refresh { pending: true, ..before }).is_due(later),
{
}

} // verus!
