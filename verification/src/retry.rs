//! Pauses between attempts, and how long to wait.
use vstd::prelude::*;

verus! {

/// A pause that doubles from attempt to attempt, between two bounds, in milliseconds.
#[derive(Debug, Clone, Copy)]
pub struct Backoff {
    pub pause: u64,
    pub min: u64,
    pub max: u64,
}

impl Backoff {
    /// Whether the pause lies between its bounds.
    pub open spec fn wf(self) -> bool {
        0 < self.min <= self.pause <= self.max <= u64::MAX / 2
    }

    /// The pause that follows.
    pub open spec fn longer(self) -> u64 {
        if 2 * self.pause <= self.max {
            (2 * self.pause) as u64
        } else {
            self.max
        }
    }

    /// A pause at its lower bound.
    pub fn new(min: u64, max: u64) -> (r: Backoff)
        requires
            0 < min <= max <= u64::MAX / 2,
        ensures
            r.wf(),
            r == (Backoff { pause: min, min, max }),
    {
        Backoff { pause: min, min, max }
    }

    /// Goes back to the lower bound.
    pub fn reset(&mut self)
        requires
            old(self).wf(),
        ensures
            final(self).wf(),
            *final(self) == (Backoff { pause: old(self).min, ..*old(self) }),
    {
        self.pause = self.min;
    }

    /// Doubles the pause, up to the upper bound.
    pub fn grow(&mut self)
        requires
            old(self).wf(),
        ensures
            final(self).wf(),
            *final(self) == (Backoff { pause: old(self).longer(), ..*old(self) }),
    {
        let doubled: u64 = 2 * self.pause;
        self.pause = if doubled <= self.max {
            doubled
        } else {
            self.max
        };
    }

    /// Takes the outcome of an attempt into account and gives the pause to make now. After a
    /// connection that ended cleanly the pauses start anew.
    pub fn next(&mut self, clean: bool) -> (r: u64)
        requires
            old(self).wf(),
        ensures
            final(self).wf(),
            r == if clean {
                old(self).min
            } else {
                old(self).pause
            },
            *final(self) == (Backoff {
                pause: (Backoff { pause: r, ..*old(self) }).longer(),
                ..*old(self)
            }),
    {
        if clean {
            self.reset();
        }
        let now: u64 = self.pause;
        self.grow();
        now
    }
}

/// The pause after so many failures in a row.
pub open spec fn after_failures(b: Backoff, n: nat) -> Backoff
    decreases n,
{
    if n == 0 {
        b
    } else {
        let before = after_failures(b, (n - 1) as nat);
        Backoff { pause: before.longer(), ..before }
    }
}

/// However many attempts fail in a row, the pause stays within its bounds and never shrinks.
pub proof fn law_pause_is_bounded(b: Backoff, n: nat)
    requires
        b.wf(),
    ensures
        after_failures(b, n).wf(),
        b.pause <= after_failures(b, n).pause <= b.max,
        after_failures(b, n).max == b.max,
        after_failures(b, n).min == b.min,
        after_failures(b, n + 1).pause >= after_failures(b, n).pause,
    decreases n,
{
    if n > 0 {
        law_pause_is_bounded(b, (n - 1) as nat);
    }
}

// ---------------------------------------------------------------------------------------------
// Waiting for something to come up
// ---------------------------------------------------------------------------------------------
/// How long the setup waits for OBS to answer, in milliseconds.
pub const OBS_WAIT_MS: u64 = 25_000;

/// How long the setup waits for the panel to answer, in milliseconds.
pub const WEB_WAIT_MS: u64 = 20_000;

/// How long the setup waits for OBS to be closed, in milliseconds.
pub const CLOSE_WAIT_MS: u64 = 60_000;

/// What comes of waiting.
#[derive(Debug, Clone, Copy, PartialEq, Eq, Structural)]
pub enum Waiting {
    /// It is there.
    Up,
    /// Look again.
    Again,
    /// It took too long.
    GaveUp,
}

/// Whether to go on waiting, given how long that took and whether what is waited for was there when
/// last looked at.
pub fn keep_waiting(elapsed_ms: u64, limit_ms: u64, up: bool) -> (r: Waiting)
    ensures
        r == (if up {
            Waiting::Up
        } else if elapsed_ms < limit_ms {
            Waiting::Again
        } else {
            Waiting::GaveUp
        }),
{
    if up {
        Waiting::Up
    } else if elapsed_ms < limit_ms {
        Waiting::Again
    } else {
        Waiting::GaveUp
    }
}


/// The pause doubles with each failure until it reaches its upper bound, and there it stays; after a
/// clean end it begins anew with the lower bound.
pub proof fn law_pauses_double(b: Backoff, n: nat)
    requires
        b.wf(),
    ensures
        2 * after_failures(b, n).pause <= b.max ==> after_failures(b, n + 1).pause == 2
            * after_failures(b, n).pause,
        2 * after_failures(b, n).pause > b.max ==> after_failures(b, n + 1).pause == b.max,
        after_failures(b, 0).pause == b.pause,
{
    law_pause_is_bounded(b, n);
}

/// How long is waited for OBS, for the panel and for OBS to be closed, in seconds.
pub proof fn law_waiting_has_its_limits()
    ensures
        OBS_WAIT_MS == 25 * 1000,
        WEB_WAIT_MS == 20 * 1000,
        CLOSE_WAIT_MS == 60 * 1000,
{
}

} // verus!
