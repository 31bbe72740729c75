//! The timeout-derivation policy: how long a member may rest in `Suspect`
//! before `Confirmed`, and in `Confirmed` before `Departed`. Both are pure
//! functions of configured protocol parameters; here the configured values
//! are fixed scalars in milliseconds.

use vstd::prelude::*;

verus! {

pub struct Timing {
    pub suspicion_timeout_ms: i64,
    pub departure_timeout_ms: i64,
}

impl Timing {
    /// Timeouts are durations, never negative.
    pub open spec fn wf(self) -> bool {
        0 <= self.suspicion_timeout_ms && 0 <= self.departure_timeout_ms
    }

    pub fn new(suspicion_timeout_ms: i64, departure_timeout_ms: i64) -> (r: Timing)
        requires
            0 <= suspicion_timeout_ms,
            0 <= departure_timeout_ms,
        ensures
            r.wf(),
            r.suspicion_timeout_ms == suspicion_timeout_ms,
            r.departure_timeout_ms == departure_timeout_ms,
    {
        Timing { suspicion_timeout_ms, departure_timeout_ms }
    }

    /// How long a `Suspect` member is tolerated before `Confirmed`, in
    /// milliseconds.
    pub fn suspicion_timeout_duration(&self) -> (d: i64)
        ensures
            d == self.suspicion_timeout_ms,
    {
        self.suspicion_timeout_ms
    }

    /// How long a `Confirmed` member is tolerated before `Departed`, in
    /// milliseconds.
    pub fn departure_timeout_duration(&self) -> (d: i64)
        ensures
            d == self.departure_timeout_ms,
    {
        self.departure_timeout_ms
    }
}

} // verus!
