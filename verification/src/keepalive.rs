//! Keepalive: one heartbeat frame every 29 seconds per connection.
//!
//! The task is a counter of heartbeats already sent; polled with the
//! connection's uptime, it says whether the next heartbeat is due. A
//! shell that polls it at least once a second sends exactly
//! `uptime / 29` heartbeats, which the lemmas below pin down.

use vstd::prelude::*;

verus! {

/// Seconds between heartbeat frames.
pub const HEARTBEAT_INTERVAL_SECS: u64 = 29;

/// Heartbeats owed after an uptime of `t` seconds.
pub open spec fn heartbeats_owed(t: nat) -> nat {
    t / 29
}

/// Heartbeat sender state for one connection.
pub struct KeepAliveTask {
    pub sent: u64,
}

impl KeepAliveTask {
    pub fn new() -> (r: KeepAliveTask)
        ensures
            r.sent == 0,
    {
        KeepAliveTask { sent: 0 }
    }

    /// Whether a heartbeat is due at uptime `now_secs`; if so, count it
    /// as sent.
    pub fn poll(&mut self, now_secs: u64) -> (send: bool)
        ensures
            send == (old(self).sent < now_secs / 29),
            send ==> final(self).sent == old(self).sent + 1,
            !send ==> *final(self) == *old(self),
    {
        if self.sent < now_secs / 29 {
            self.sent = self.sent + 1;
            true
        } else {
            false
        }
    }
}

/// Heartbeats sent when the task is polled once at each whole second
/// of uptime, one through `t`.
pub open spec fn polled_sends(t: nat) -> nat
    decreases t,
{
    if t == 0 {
        0
    } else {
        let s = polled_sends((t - 1) as nat);
        if s < t / 29 {
            s + 1
        } else {
            s
        }
    }
}

/// Over an uptime of `t` seconds with no failures, polling every second
/// sends exactly `t / 29` heartbeat frames.
pub proof fn lemma_heartbeat_count(t: nat)
    ensures
        polled_sends(t) == heartbeats_owed(t),
    decreases t,
{
    if t > 0 {
        lemma_heartbeat_count((t - 1) as nat);
        assert(t / 29 == (t - 1) / 29 + 1 || t / 29 == (t - 1) / 29) by (nonlinear_arith);
        assert((t - 1) / 29 <= t / 29) by (nonlinear_arith);
    }
}

} // verus!
