//! Pacing of outbound transmissions: at least a configured interval must
//! pass between consecutive sends.
//!
//! Time enters as millisecond readings of a monotone clock; whoever drives
//! the throttle reads the clock, asks how long to wait, sleeps that long,
//! and records the completed send as the new reference point.

use vstd::prelude::*;

verus! {

/// The delay still owed before the next send, measured at `now`: nothing
/// before a first recorded send, otherwise whatever is left of the minimum
/// interval since the last one.
pub open spec fn throttle_delay(time_to_wait: u64, last_time: Option<u64>, now: u64) -> u64 {
    match last_time {
        None => 0,
        Some(t) => if now - t < time_to_wait {
            (time_to_wait - (now - t)) as u64
        } else {
            0
        },
    }
}

/// Enforces the minimum spacing between consecutive transmissions.
pub struct Throttle {
    time_to_wait: u64,
    last_time: Option<u64>,
}

impl Throttle {
    /// The configured minimum interval between sends, in milliseconds.
    pub closed spec fn spec_time_to_wait(&self) -> u64 {
        self.time_to_wait
    }

    /// The last recorded send instant, if any.
    pub closed spec fn spec_last_time(&self) -> Option<u64> {
        self.last_time
    }

    /// A throttle spacing sends at least `duration` milliseconds apart,
    /// with no send recorded yet — so the first send never waits.
    pub fn new(duration: u64) -> (r: Self)
        ensures
            r.spec_time_to_wait() == duration,
            r.spec_last_time() is None,
    {
        Throttle { time_to_wait: duration, last_time: None }
    }

    /// Record `now` as the new pacing reference point.  The controller
    /// calls this only after a request completed with a matched response,
    /// never after a timeout, so a silent device does not reset the pacing
    /// clock.
    pub fn reset_start(&mut self, now: u64)
        ensures
            final(self).spec_time_to_wait() == old(self).spec_time_to_wait(),
            final(self).spec_last_time() == Some(now),
    {
        self.last_time = Some(now);
    }

    /// How long the caller must still wait, measured at `now`, before the
    /// next send may go out; a first call waits nothing and makes `now` the
    /// reference point.  Waiting the returned delay puts the send at least
    /// the minimum interval after the last recorded one.
    pub fn throttle(&mut self, now: u64) -> (delay: u64)
        requires
            old(self).spec_last_time() matches Some(t) ==> t <= now,
        ensures
            delay == throttle_delay(
                old(self).spec_time_to_wait(),
                old(self).spec_last_time(),
                now,
            ),
            final(self).spec_time_to_wait() == old(self).spec_time_to_wait(),
            final(self).spec_last_time() == if old(self).spec_last_time() is None {
                Some(now)
            } else {
                old(self).spec_last_time()
            },
            old(self).spec_last_time() matches Some(t) ==> now + delay >= t + old(
                self,
            ).spec_time_to_wait(),
    {
        match self.last_time {
            Some(last) => {
                let elapsed = now - last;
                if elapsed < self.time_to_wait {
                    self.time_to_wait - elapsed
                } else {
                    0
                }
            },
            None => {
                self.reset_start(now);
                0
            },
        }
    }
}

/// Whether `sends` is a run of send instants the throttle produces: before
/// each send after the first, the clock is read at or after the previous
/// send, the owed delay is waited out, and the send goes out the moment the
/// wait ends.
pub open spec fn paced(time_to_wait: u64, sends: Seq<u64>, reads: Seq<u64>) -> bool {
    &&& sends.len() == reads.len() + 1
    &&& forall|i: int|
        0 <= i < reads.len() ==> sends[i] <= #[trigger] reads[i] && sends[i + 1] == reads[i]
            + throttle_delay(time_to_wait, Some(sends[i]), reads[i])
}

/// Law: in any run of sends paced by the throttle, with each completed send
/// recorded as the new reference, consecutive sends lie at least the
/// configured minimum apart; only the very first send owes no gap.
pub proof fn lemma_throttle_spacing(time_to_wait: u64, sends: Seq<u64>, reads: Seq<u64>)
    requires
        paced(time_to_wait, sends, reads),
    ensures
        forall|i: int| 0 <= i < sends.len() - 1 ==> #[trigger] sends[i + 1] >= sends[i]
            + time_to_wait,
{
    assert forall|i: int| 0 <= i < sends.len() - 1 implies #[trigger] sends[i + 1] >= sends[i]
        + time_to_wait by {
        assert(sends[i] <= reads[i]);
    }
}

} // verus!
