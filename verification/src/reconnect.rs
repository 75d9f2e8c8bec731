//! When the controller reconnects, repairs a stale link or waits.
use crate::types::ConnectionState;
use vstd::prelude::*;

verus! {

/// Seconds to wait after the first, second, ... failed attempt; the last
/// delay repeats.
pub const RECONNECT_DELAYS: [u64; 5] = [1, 2, 5, 10, 30];

/// A stale BlueZ link is repaired at most once in this many milliseconds.
pub const REPAIR_COOLDOWN_MS: u64 = 30_000;

/// After a successful repair the controller waits this long before it
/// connects again.
pub const REPAIR_SETTLE_MS: u64 = 1_000;

/// The delay, in seconds, after `attempt` failed attempts in a row.
pub open spec fn delay_after(attempt: nat) -> u64 {
    RECONNECT_DELAYS[if attempt < 4 { attempt as int } else { 4 }]
}

/// The same delay in milliseconds.
pub open spec fn delay_ms_after(attempt: nat) -> u64 {
    (delay_after(attempt) * 1000) as u64
}

/// How a control session ended.
#[derive(Debug, Clone, Copy, PartialEq, Eq, Structural)]
pub enum SessionOutcome {
    /// The session ran and closed without error.
    Closed,
    /// Connecting or the session failed; `stale_link` when the socket reported
    /// that it is not connected.
    Failed { stale_link: bool },
}

/// What the controller does next.
#[derive(Debug, Clone, Copy, PartialEq, Eq, Structural)]
pub enum ReconnectStep {
    /// Disconnect and reconnect the BlueZ device, then report the result.
    Repair,
    /// Sleep this many milliseconds, then connect again.
    Sleep(u64),
}

/// The reconnection policy's state: failed attempts in a row, and when the
/// last repair began.
#[derive(Debug, Clone, Copy, PartialEq, Eq, Structural)]
pub struct Reconnect {
    pub attempt: usize,
    pub last_repair: Option<u64>,
}

/// A repair may start at `now`: none ran yet, or the last began at least the
/// cooldown ago (a clock that went back counts as no time passed).
pub open spec fn repair_allowed(last_repair: Option<u64>, now: u64) -> bool {
    match last_repair {
        None => true,
        Some(when) => (if now >= when { now - when } else { 0 }) >= REPAIR_COOLDOWN_MS,
    }
}

impl Reconnect {
    pub fn new() -> (r: Reconnect)
        ensures
            r.attempt == 0,
            r.last_repair is None,
    {
        Reconnect { attempt: 0, last_repair: None }
    }

    /// The state to report when an attempt starts: connecting the first
    /// time, recovering after a failure.
    pub fn attempt_state(&self) -> (s: ConnectionState)
        ensures
            s == if self.attempt == 0 {
                ConnectionState::Connecting
            } else {
                ConnectionState::Recovering
            },
    {
        if self.attempt == 0 {
            ConnectionState::Connecting
        } else {
            ConnectionState::Recovering
        }
    }

    /// Waits the delay for the current attempt and counts one more failure.
    fn back_off(&mut self) -> (step: ReconnectStep)
        ensures
            step == ReconnectStep::Sleep(delay_ms_after(old(self).attempt as nat)),
            final(self).attempt == if old(self).attempt == usize::MAX {
                usize::MAX
            } else {
                (old(self).attempt + 1) as usize
            },
            final(self).last_repair == old(self).last_repair,
    {
        let index = if self.attempt < 4 {
            self.attempt
        } else {
            4
        };
        let delay = RECONNECT_DELAYS[index];
        self.attempt = self.attempt.saturating_add(1);
        ReconnectStep::Sleep(delay * 1000)
    }

    /// Decides what follows a session. A clean close resets the failure
    /// count. A stale link of a device the controller manages is repaired
    /// when the cooldown allows; otherwise the controller backs off.
    pub fn after_session(&mut self, outcome: SessionOutcome, managed: bool, now: u64) -> (step:
        ReconnectStep)
        ensures
            ({
                let attempt = if outcome == SessionOutcome::Closed {
                    0
                } else {
                    old(self).attempt
                };
                if outcome == (SessionOutcome::Failed { stale_link: true }) && managed
                    && repair_allowed(old(self).last_repair, now) {
                    &&& step == ReconnectStep::Repair
                    &&& final(self).last_repair == Some(now)
                    &&& final(self).attempt == attempt
                } else {
                    &&& step == ReconnectStep::Sleep(delay_ms_after(attempt as nat))
                    &&& final(self).attempt == if attempt == usize::MAX {
                        usize::MAX
                    } else {
                        (attempt + 1) as usize
                    }
                    &&& final(self).last_repair == old(self).last_repair
                }
            }),
    {
        let stale = match outcome {
            SessionOutcome::Closed => {
                self.attempt = 0;
                false
            },
            SessionOutcome::Failed { stale_link } => stale_link,
        };
        let allowed = match self.last_repair {
            None => true,
            Some(when) => now.saturating_sub(when) >= REPAIR_COOLDOWN_MS,
        };
        if stale && managed && allowed {
            self.last_repair = Some(now);
            ReconnectStep::Repair
        } else {
            self.back_off()
        }
    }

    /// Decides what follows a repair: after a successful one the controller
    /// starts over at once, after a failed one it backs off.
    pub fn after_repair(&mut self, repaired: bool) -> (step: ReconnectStep)
        ensures
            repaired ==> step == ReconnectStep::Sleep(REPAIR_SETTLE_MS) && final(self).attempt == 0
                && final(self).last_repair == old(self).last_repair,
            !repaired ==> step == ReconnectStep::Sleep(delay_ms_after(old(self).attempt as nat))
                && final(self).attempt == (if old(self).attempt == usize::MAX {
                usize::MAX
            } else {
                (old(self).attempt + 1) as usize
            }) && final(self).last_repair == old(self).last_repair,
    {
        if repaired {
            self.attempt = 0;
            ReconnectStep::Sleep(REPAIR_SETTLE_MS)
        } else {
            self.back_off()
        }
    }
}

/// The back-off never waits longer than thirty seconds, and never less
/// after more failures.
pub proof fn law_backoff_is_monotone_and_capped(a: nat, b: nat)
    requires
        a <= b,
    ensures
        1 <= delay_after(a) <= delay_after(b) <= 30,
{
}

} // verus!
