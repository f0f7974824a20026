//! Throttled full-snapshot recovery requests after drift or baseline loss.

use vstd::prelude::*;

verus! {

/// `tick + interval`, saturating at `u64::MAX`.
pub open spec fn saturating_tick(tick: u64, interval: u64) -> u64 {
    if tick + interval > u64::MAX {
        u64::MAX
    } else {
        (tick + interval) as u64
    }
}

/// State for throttled full-snapshot recovery requests after drift or baseline
/// loss.
#[derive(Debug, Clone, PartialEq, Eq, Structural)]
pub struct RecoveryRequestState {
    pub awaiting_full_snapshot: bool,
    pub request_attempts: u32,
    pub last_request_server_tick: Option<u64>,
    pub last_request_digest: Option<u64>,
}

impl RecoveryRequestState {
    /// The idle state: nothing requested yet.
    pub open spec fn spec_default() -> Self {
        RecoveryRequestState {
            awaiting_full_snapshot: false,
            request_attempts: 0,
            last_request_server_tick: None,
            last_request_digest: None,
        }
    }

    /// Whether a new request is allowed at `current_server_tick`.
    pub open spec fn spec_can_request(self, current_server_tick: u64, retry_interval_ticks: u64) -> bool {
        !self.awaiting_full_snapshot || match self.last_request_server_tick {
            None => true,
            Some(last) => current_server_tick >= saturating_tick(last, retry_interval_ticks),
        }
    }

    /// The first tick at which a retry is allowed, if a request was made.
    pub open spec fn spec_next_retry_tick(self, retry_interval_ticks: u64) -> Option<u64> {
        match self.last_request_server_tick {
            None => None,
            Some(last) => Some(saturating_tick(last, retry_interval_ticks)),
        }
    }

    /// The state after recording a request at `current_server_tick`.
    pub open spec fn spec_record_request(self, current_server_tick: u64, digest: Option<u64>) -> Self {
        RecoveryRequestState {
            awaiting_full_snapshot: true,
            request_attempts: if self.request_attempts == u32::MAX {
                u32::MAX
            } else {
                (self.request_attempts + 1) as u32
            },
            last_request_server_tick: Some(current_server_tick),
            last_request_digest: digest,
        }
    }

    /// Resets to the idle state.
    pub fn clear(&mut self)
        ensures
            *final(self) == Self::spec_default(),
    {
        *self = RecoveryRequestState {
            awaiting_full_snapshot: false,
            request_attempts: 0,
            last_request_server_tick: None,
            last_request_digest: None,
        };
    }

    /// Whether a recovery request may be sent now: always when not awaiting a
    /// snapshot, otherwise only once the retry interval since the last request
    /// has elapsed.
    pub fn can_request(&self, current_server_tick: u64, retry_interval_ticks: u64) -> (res: bool)
        ensures
            res == self.spec_can_request(current_server_tick, retry_interval_ticks),
    {
        if !self.awaiting_full_snapshot {
            return true;
        }
        match self.last_request_server_tick {
            None => true,
            Some(last_tick) => current_server_tick >= last_tick.saturating_add(retry_interval_ticks),
        }
    }

    /// Records that a request was sent at `current_server_tick`.
    pub fn record_request(&mut self, current_server_tick: u64, digest: Option<u64>)
        ensures
            *final(self) == old(self).spec_record_request(current_server_tick, digest),
    {
        self.awaiting_full_snapshot = true;
        self.request_attempts = self.request_attempts.saturating_add(1);
        self.last_request_server_tick = Some(current_server_tick);
        self.last_request_digest = digest;
    }

    /// The tick at which the next retry becomes possible.
    pub fn next_retry_tick(&self, retry_interval_ticks: u64) -> (res: Option<u64>)
        ensures
            res == self.spec_next_retry_tick(retry_interval_ticks),
    {
        match self.last_request_server_tick {
            None => None,
            Some(tick) => Some(tick.saturating_add(retry_interval_ticks)),
        }
    }
}

impl Default for RecoveryRequestState {
    fn default() -> (res: Self)
        ensures
            res == Self::spec_default(),
    {
        RecoveryRequestState {
            awaiting_full_snapshot: false,
            request_attempts: 0,
            last_request_server_tick: None,
            last_request_digest: None,
        }
    }
}

/// A freshly recorded request blocks further requests until exactly the retry
/// tick it reports: before it `can_request` is false, from it on true.
pub proof fn lemma_record_request_throttles(
    state: RecoveryRequestState,
    request_tick: u64,
    digest: Option<u64>,
    retry_interval_ticks: u64,
    later_tick: u64,
)
    ensures
        ({
            let after = state.spec_record_request(request_tick, digest);
            &&& after.spec_next_retry_tick(retry_interval_ticks) == Some(
                saturating_tick(request_tick, retry_interval_ticks),
            )
            &&& after.spec_can_request(later_tick, retry_interval_ticks) <==> later_tick
                >= saturating_tick(request_tick, retry_interval_ticks)
        }),
{
}

/// Clearing always re-enables requests, whatever was recorded before.
pub proof fn lemma_clear_allows_request(current_server_tick: u64, retry_interval_ticks: u64)
    ensures
        RecoveryRequestState::spec_default().spec_can_request(current_server_tick, retry_interval_ticks),
        RecoveryRequestState::spec_default().spec_next_retry_tick(retry_interval_ticks) is None,
{
}

} // verus!
