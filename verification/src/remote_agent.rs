//! Gating of remote-agent action submissions against the agent's transport
//! contract: per-tick action budget, heartbeat timeout and observation
//! staleness.

use vstd::prelude::*;
use crate::decimal::{decimal_digits, decimal_string};
use crate::session::sat_sub;
use crate::stdb_adapter::StdbClientError;

verus! {

/// Why a remote agent's actions were refused and the agent fell back.
#[derive(Debug, Clone, Copy, PartialEq, Eq, Structural)]
pub enum RemoteAgentFallbackReason {
    ActionBudgetExceeded,
    ObservationMissing,
    HeartbeatTimedOut,
    ObservationStale,
}

/// Which rejection counter a refusal increments.
#[derive(Debug, Clone, Copy, PartialEq, Eq, Structural)]
pub enum RejectionCounter {
    BudgetOverflow,
    Timeout,
    StaleAction,
}

/// The contract limits that gate a submission.
#[derive(Debug, Clone, Copy, PartialEq, Eq, Structural)]
pub struct RemoteAgentLimits {
    pub max_actions_per_tick: u32,
    pub heartbeat_timeout_ticks: u64,
    pub stale_after_ticks: u64,
}

/// The decision on a remote agent's queued actions.
#[derive(Debug, Clone, PartialEq, Eq)]
pub enum RemoteActionGate {
    /// Submit; the newest observation is `stale_ticks` old.
    Allowed { stale_ticks: u64 },
    /// Refuse every queued action and fall back for `reason`.
    Rejected { reason: RemoteAgentFallbackReason, message: String, stale_ticks: Option<u64> },
}

/// The refusal reason for `action_count` queued actions at `current_tick`
/// with the newest observation at `last_observation_tick`, if any. Checks
/// run in order: budget, a missing observation, heartbeat timeout, then
/// staleness.
pub open spec fn spec_gate_reason(
    action_count: u32,
    current_tick: u64,
    last_observation_tick: Option<u64>,
    limits: RemoteAgentLimits,
) -> Option<RemoteAgentFallbackReason> {
    if action_count > limits.max_actions_per_tick {
        Some(RemoteAgentFallbackReason::ActionBudgetExceeded)
    } else {
        match last_observation_tick {
            None => Some(RemoteAgentFallbackReason::ObservationMissing),
            Some(observed) => {
                let stale = sat_sub(current_tick, observed);
                if stale > limits.heartbeat_timeout_ticks {
                    Some(RemoteAgentFallbackReason::HeartbeatTimedOut)
                } else if stale > limits.stale_after_ticks {
                    Some(RemoteAgentFallbackReason::ObservationStale)
                } else {
                    None
                }
            },
        }
    }
}

/// The message sent back with a refusal.
pub open spec fn spec_gate_message(
    reason: RemoteAgentFallbackReason,
    action_count: u32,
    stale_ticks: u64,
    limits: RemoteAgentLimits,
) -> Seq<char> {
    match reason {
        RemoteAgentFallbackReason::ActionBudgetExceeded => "Remote agent queued "@ + decimal_digits(
            action_count as nat,
        ) + " actions but contract allows "@ + decimal_digits(limits.max_actions_per_tick as nat)
            + " per tick"@,
        RemoteAgentFallbackReason::ObservationMissing => "Remote agent has no authoritative observation yet"@,
        RemoteAgentFallbackReason::HeartbeatTimedOut => "Remote agent observation timed out after "@
            + decimal_digits(stale_ticks as nat) + " ticks (limit "@ + decimal_digits(
            limits.heartbeat_timeout_ticks as nat,
        ) + ")"@,
        RemoteAgentFallbackReason::ObservationStale => "Remote agent observation is "@ + decimal_digits(
            stale_ticks as nat,
        ) + " ticks old (stale after "@ + decimal_digits(limits.stale_after_ticks as nat) + ")"@,
    }
}

/// Gates a remote agent's `action_count` queued actions (see
/// [`spec_gate_reason`] and [`spec_gate_message`]). The staleness is
/// reported whenever an observation exists.
pub fn gate_remote_actions(
    action_count: u32,
    current_tick: u64,
    last_observation_tick: Option<u64>,
    limits: RemoteAgentLimits,
) -> (res: RemoteActionGate)
    ensures
        ({
            let stale = match last_observation_tick {
                Some(observed) => sat_sub(current_tick, observed),
                None => 0,
            };
            match spec_gate_reason(action_count, current_tick, last_observation_tick, limits) {
                None => res == RemoteActionGate::Allowed { stale_ticks: stale },
                Some(reason) => res matches RemoteActionGate::Rejected { reason: r, message, stale_ticks }
                    && r == reason && message@ == spec_gate_message(reason, action_count, stale, limits)
                    && stale_ticks == if reason is ActionBudgetExceeded || reason is ObservationMissing {
                    None
                } else {
                    Some(stale)
                },
            }
        }),
{
    if action_count > limits.max_actions_per_tick {
        let text = String::from_str("Remote agent queued ");
        let text = text.concat(decimal_string(action_count as u64).as_str());
        let text = text.concat(" actions but contract allows ");
        let text = text.concat(decimal_string(limits.max_actions_per_tick as u64).as_str());
        return RemoteActionGate::Rejected {
            reason: RemoteAgentFallbackReason::ActionBudgetExceeded,
            message: text.concat(" per tick"),
            stale_ticks: None,
        };
    }
    let observed = match last_observation_tick {
        Some(observed) => observed,
        None => {
            return RemoteActionGate::Rejected {
                reason: RemoteAgentFallbackReason::ObservationMissing,
                message: String::from_str("Remote agent has no authoritative observation yet"),
                stale_ticks: None,
            };
        },
    };
    let stale = current_tick.saturating_sub(observed);
    if stale > limits.heartbeat_timeout_ticks {
        let text = String::from_str("Remote agent observation timed out after ");
        let text = text.concat(decimal_string(stale).as_str());
        let text = text.concat(" ticks (limit ");
        let text = text.concat(decimal_string(limits.heartbeat_timeout_ticks).as_str());
        return RemoteActionGate::Rejected {
            reason: RemoteAgentFallbackReason::HeartbeatTimedOut,
            message: text.concat(")"),
            stale_ticks: Some(stale),
        };
    }
    if stale > limits.stale_after_ticks {
        let text = String::from_str("Remote agent observation is ");
        let text = text.concat(decimal_string(stale).as_str());
        let text = text.concat(" ticks old (stale after ");
        let text = text.concat(decimal_string(limits.stale_after_ticks).as_str());
        return RemoteActionGate::Rejected {
            reason: RemoteAgentFallbackReason::ObservationStale,
            message: text.concat(")"),
            stale_ticks: Some(stale),
        };
    }
    RemoteActionGate::Allowed { stale_ticks: stale }
}

/// The rejection counter a refusal for `reason` increments.
pub fn rejection_counter(reason: RemoteAgentFallbackReason) -> (res: RejectionCounter)
    ensures
        res == match reason {
            RemoteAgentFallbackReason::ActionBudgetExceeded => RejectionCounter::BudgetOverflow,
            RemoteAgentFallbackReason::HeartbeatTimedOut => RejectionCounter::Timeout,
            _ => RejectionCounter::StaleAction,
        },
{
    match reason {
        RemoteAgentFallbackReason::ActionBudgetExceeded => RejectionCounter::BudgetOverflow,
        RemoteAgentFallbackReason::HeartbeatTimedOut => RejectionCounter::Timeout,
        RemoteAgentFallbackReason::ObservationMissing | RemoteAgentFallbackReason::ObservationStale => {
            RejectionCounter::StaleAction
        },
    }
}

/// Whether a client may submit actions at all: it must be connected, not
/// in the read-only spectator profile, and control an entity.
pub fn check_action_submission(connected: bool, spectator: bool, has_controlled_entity: bool) -> (res: Result<
    (),
    StdbClientError,
>)
    ensures
        !connected ==> res matches Err(StdbClientError::NotConnected),
        connected && spectator ==> (res matches Err(StdbClientError::InvalidState(m)) && m@
            == "Spectator mode is read-only"@),
        connected && !spectator && !has_controlled_entity ==> (res matches Err(
            StdbClientError::InvalidState(m),
        ) && m@ == "No controlled entity is connected"@),
        connected && !spectator && has_controlled_entity ==> res is Ok,
{
    if !connected {
        return Err(StdbClientError::NotConnected);
    }
    if spectator {
        return Err(StdbClientError::InvalidState(String::from_str("Spectator mode is read-only")));
    }
    if !has_controlled_entity {
        return Err(StdbClientError::InvalidState(String::from_str("No controlled entity is connected")));
    }
    Ok(())
}

/// The staleness bookkeeping after an authoritative tick: the newest
/// authoritative tick never goes back, and the observation age is measured
/// from `tick` when an observation exists.
pub fn advance_remote_agent_tick(
    last_authoritative_tick: Option<u64>,
    last_observation_tick: Option<u64>,
    stale_observation_ticks: u64,
    tick: u64,
) -> (res: (Option<u64>, u64))
    ensures
        res.0 == Some(
            match last_authoritative_tick {
                Some(t) => if t > tick {
                    t
                } else {
                    tick
                },
                None => tick,
            },
        ),
        res.1 == match last_observation_tick {
            Some(observed) => sat_sub(tick, observed),
            None => stale_observation_ticks,
        },
{
    let newest = match last_authoritative_tick {
        Some(t) => if t > tick {
            t
        } else {
            tick
        },
        None => tick,
    };
    let stale = match last_observation_tick {
        Some(observed) => tick.saturating_sub(observed),
        None => stale_observation_ticks,
    };
    (Some(newest), stale)
}

/// What the client knows of its remote agent's transport state.
#[derive(Debug, Clone, Copy, PartialEq, Eq, Structural)]
pub struct RemoteAgentRuntimeStatus {
    pub fallback_active: bool,
    pub fallback_reason: Option<RemoteAgentFallbackReason>,
    pub pending_action_count: u32,
    pub last_authoritative_tick: Option<u64>,
    pub last_observation_tick: Option<u64>,
    pub stale_observation_ticks: u64,
    pub budget_overflow_rejections: u64,
    pub timeout_rejections: u64,
    pub stale_action_rejections: u64,
}

/// The status with the agent in fallback for `reason`.
pub open spec fn spec_fallback_for(status: RemoteAgentRuntimeStatus, reason: RemoteAgentFallbackReason) -> RemoteAgentRuntimeStatus {
    RemoteAgentRuntimeStatus { fallback_active: true, fallback_reason: Some(reason), ..status }
}

/// The status with the fallback cleared.
pub open spec fn spec_fallback_cleared(status: RemoteAgentRuntimeStatus) -> RemoteAgentRuntimeStatus {
    RemoteAgentRuntimeStatus { fallback_active: false, fallback_reason: None, ..status }
}

/// The rejection counter of `status` that a refusal for `reason` bumps.
pub open spec fn spec_counter_for(status: RemoteAgentRuntimeStatus, reason: RemoteAgentFallbackReason) -> u64 {
    match reason {
        RemoteAgentFallbackReason::ActionBudgetExceeded => status.budget_overflow_rejections,
        RemoteAgentFallbackReason::HeartbeatTimedOut => status.timeout_rejections,
        _ => status.stale_action_rejections,
    }
}

/// The status after a refusal for `reason`: its counter grows by one, the
/// agent falls back, and nothing is pending any more.
pub open spec fn spec_after_refusal(status: RemoteAgentRuntimeStatus, reason: RemoteAgentFallbackReason) -> RemoteAgentRuntimeStatus {
    let counted = match reason {
        RemoteAgentFallbackReason::ActionBudgetExceeded => RemoteAgentRuntimeStatus {
            budget_overflow_rejections: (status.budget_overflow_rejections + 1) as u64,
            ..status
        },
        RemoteAgentFallbackReason::HeartbeatTimedOut => RemoteAgentRuntimeStatus {
            timeout_rejections: (status.timeout_rejections + 1) as u64,
            ..status
        },
        _ => RemoteAgentRuntimeStatus { stale_action_rejections: (status.stale_action_rejections + 1) as u64, ..status },
    };
    RemoteAgentRuntimeStatus { pending_action_count: 0, ..spec_fallback_for(counted, reason) }
}

/// The status after a fresh observation taken at `tick`: the observation
/// is the newest, the authoritative tick never goes back, the observation
/// age is measured from the authoritative tick, and the fallback is cleared.
pub open spec fn spec_after_observation(status: RemoteAgentRuntimeStatus, tick: u64) -> RemoteAgentRuntimeStatus {
    let newest = match status.last_authoritative_tick {
        Some(t) => if t > tick { t } else { tick },
        None => tick,
    };
    spec_fallback_cleared(
        RemoteAgentRuntimeStatus {
            last_observation_tick: Some(tick),
            last_authoritative_tick: Some(newest),
            stale_observation_ticks: (newest - tick) as u64,
            ..status
        },
    )
}

/// The status as a submission of `count` actions at `current_tick` sees it
/// before the contract is checked: the pending count and authoritative
/// tick are refreshed, and, when the budget check passed and an
/// observation exists, its tick and age too.
pub open spec fn spec_submission_view(
    status: RemoteAgentRuntimeStatus,
    count: u32,
    current_tick: u64,
    last_observation_tick: Option<u64>,
    limits: Option<RemoteAgentLimits>,
) -> RemoteAgentRuntimeStatus {
    let refreshed = RemoteAgentRuntimeStatus {
        pending_action_count: count,
        last_authoritative_tick: Some(current_tick),
        ..status
    };
    match (limits, last_observation_tick) {
        (Some(l), Some(observed)) => if count <= l.max_actions_per_tick {
            RemoteAgentRuntimeStatus {
                last_observation_tick: Some(observed),
                stale_observation_ticks: sat_sub(current_tick, observed),
                ..refreshed
            }
        } else {
            refreshed
        },
        _ => refreshed,
    }
}

impl RemoteAgentRuntimeStatus {
    /// The status right after a remote agent connected at `current_tick`
    /// (if the world has a tick yet), with its newest observation at
    /// `last_observation_tick`: no fallback, nothing pending, no refusals,
    /// and the observation age measured from the current tick (0 before
    /// the world has one).
    pub fn connected(current_tick: Option<u64>, last_observation_tick: Option<u64>) -> (res: Self)
        ensures
            res == (RemoteAgentRuntimeStatus {
                fallback_active: false,
                fallback_reason: None,
                pending_action_count: 0,
                last_authoritative_tick: current_tick,
                last_observation_tick,
                stale_observation_ticks: match last_observation_tick {
                    Some(observed) => sat_sub(
                        match current_tick {
                            Some(t) => t,
                            None => 0,
                        },
                        observed,
                    ),
                    None => 0,
                },
                budget_overflow_rejections: 0,
                timeout_rejections: 0,
                stale_action_rejections: 0,
            }),
    {
        let now = match current_tick {
            Some(t) => t,
            None => 0,
        };
        let stale = match last_observation_tick {
            Some(observed) => now.saturating_sub(observed),
            None => 0,
        };
        RemoteAgentRuntimeStatus {
            fallback_active: false,
            fallback_reason: None,
            pending_action_count: 0,
            last_authoritative_tick: current_tick,
            last_observation_tick,
            stale_observation_ticks: stale,
            budget_overflow_rejections: 0,
            timeout_rejections: 0,
            stale_action_rejections: 0,
        }
    }

    /// Puts the agent in fallback for `reason`.
    pub fn activate_fallback(&mut self, reason: RemoteAgentFallbackReason)
        ensures
            *final(self) == spec_fallback_for(*old(self), reason),
    {
        self.fallback_active = true;
        self.fallback_reason = Some(reason);
    }

    /// Takes the agent out of fallback.
    pub fn clear_fallback(&mut self)
        ensures
            *final(self) == spec_fallback_cleared(*old(self)),
    {
        self.fallback_active = false;
        self.fallback_reason = None;
    }

    /// Records an authoritative world tick (see `advance_remote_agent_tick`).
    pub fn record_authoritative_tick(&mut self, tick: u64)
        ensures
            ({
                let (newest, stale) = advance_spec(
                    old(self).last_authoritative_tick,
                    old(self).last_observation_tick,
                    old(self).stale_observation_ticks,
                    tick,
                );
                *final(self) == (RemoteAgentRuntimeStatus {
                    last_authoritative_tick: newest,
                    stale_observation_ticks: stale,
                    ..*old(self)
                })
            }),
    {
        let (newest, stale) = advance_remote_agent_tick(
            self.last_authoritative_tick,
            self.last_observation_tick,
            self.stale_observation_ticks,
            tick,
        );
        self.last_authoritative_tick = newest;
        self.stale_observation_ticks = stale;
    }

    /// Records an observation taken at `tick` for `observer_entity_id`.
    /// Only an observation of the controlled entity counts (see
    /// `spec_after_observation`); any other leaves the status as it was.
    pub fn record_observation(&mut self, tick: u64, observer_entity_id: u64, controlled_entity: Option<u64>)
        ensures
            controlled_entity == Some(observer_entity_id) ==> *final(self) == spec_after_observation(*old(self), tick),
            controlled_entity != Some(observer_entity_id) ==> *final(self) == *old(self),
    {
        if controlled_entity == Some(observer_entity_id) {
            let newest = match self.last_authoritative_tick {
                Some(t) => if t > tick { t } else { tick },
                None => tick,
            };
            self.last_observation_tick = Some(tick);
            self.last_authoritative_tick = Some(newest);
            self.stale_observation_ticks = newest - tick;
            self.clear_fallback();
        }
    }

    /// Records that every taken action was submitted: nothing is pending
    /// and the fallback is cleared.
    pub fn record_actions_submitted(&mut self)
        ensures
            *final(self) == (RemoteAgentRuntimeStatus { pending_action_count: 0, ..spec_fallback_cleared(*old(self)) }),
    {
        self.pending_action_count = 0;
        self.clear_fallback();
    }
}

/// The pair `advance_remote_agent_tick` returns.
pub open spec fn advance_spec(
    last_authoritative_tick: Option<u64>,
    last_observation_tick: Option<u64>,
    stale_observation_ticks: u64,
    tick: u64,
) -> (Option<u64>, u64) {
    (
        Some(
            match last_authoritative_tick {
                Some(t) => if t > tick { t } else { tick },
                None => tick,
            },
        ),
        match last_observation_tick {
            Some(observed) => sat_sub(tick, observed),
            None => stale_observation_ticks,
        },
    )
}

/// Takes a remote agent's queued actions for submission at `current_tick`.
/// The client must be connected, not a spectator and control an entity
/// (see `check_action_submission`); otherwise nothing changes. Then the
/// status sees the submission (`spec_submission_view`). Without limits,
/// every queued action is handed out. With limits, `gate_remote_actions`
/// rules: when it refuses, the queue is emptied, the status counts it
/// (`spec_after_refusal`) and its message is returned as an invalid-state
/// error; when it allows, every queued action is handed out.
/// After submitting what was taken, the caller records it with
/// `RemoteAgentRuntimeStatus::record_actions_submitted`.
pub fn take_remote_actions<A>(
    status: &mut RemoteAgentRuntimeStatus,
    pending: &mut Vec<A>,
    connected: bool,
    spectator: bool,
    has_controlled_entity: bool,
    current_tick: u64,
    last_observation_tick: Option<u64>,
    limits: Option<RemoteAgentLimits>,
) -> (res: Result<Vec<A>, StdbClientError>)
    requires
        ({
            let count = old(pending)@.len() as u32;
            let reason = match limits {
                Some(l) => spec_gate_reason(count, current_tick, last_observation_tick, l),
                None => None,
            };
            connected && !spectator && has_controlled_entity && reason is Some ==> spec_counter_for(
                *old(status),
                reason->0,
            ) < u64::MAX
        }),
    ensures
        ({
            let count = old(pending)@.len() as u32;
            let seen = spec_submission_view(*old(status), count, current_tick, last_observation_tick, limits);
            let stale = match last_observation_tick {
                Some(observed) => sat_sub(current_tick, observed),
                None => 0,
            };
            let reason = match limits {
                Some(l) => spec_gate_reason(count, current_tick, last_observation_tick, l),
                None => None,
            };
            if !connected {
                &&& res matches Err(StdbClientError::NotConnected)
                &&& *final(status) == *old(status) && final(pending)@ == old(pending)@
            } else if spectator {
                &&& res matches Err(StdbClientError::InvalidState(m)) && m@ == "Spectator mode is read-only"@
                &&& *final(status) == *old(status) && final(pending)@ == old(pending)@
            } else if !has_controlled_entity {
                &&& res matches Err(StdbClientError::InvalidState(m)) && m@ == "No controlled entity is connected"@
                &&& *final(status) == *old(status) && final(pending)@ == old(pending)@
            } else {
                &&& final(pending)@.len() == 0
                &&& match reason {
                    None => res matches Ok(taken) && taken@ == old(pending)@ && *final(status) == seen,
                    Some(r) => {
                        &&& res matches Err(StdbClientError::InvalidState(m)) && m@ == spec_gate_message(
                            r,
                            count,
                            stale,
                            limits->0,
                        )
                        &&& *final(status) == spec_after_refusal(seen, r)
                    },
                }
            }
        }),
{
    match check_action_submission(connected, spectator, has_controlled_entity) {
        Err(e) => return Err(e),
        Ok(()) => {},
    }
    #[verifier::truncate]
    let count = pending.len() as u32;
    status.pending_action_count = count;
    status.last_authoritative_tick = Some(current_tick);
    if let Some(l) = limits {
        match gate_remote_actions(count, current_tick, last_observation_tick, l) {
            RemoteActionGate::Allowed { stale_ticks } => {
                status.last_observation_tick = last_observation_tick;
                status.stale_observation_ticks = stale_ticks;
            },
            RemoteActionGate::Rejected { reason, message, stale_ticks } => {
                if let Some(stale) = stale_ticks {
                    status.last_observation_tick = last_observation_tick;
                    status.stale_observation_ticks = stale;
                }
                match rejection_counter(reason) {
                    RejectionCounter::BudgetOverflow => {
                        status.budget_overflow_rejections = status.budget_overflow_rejections + 1;
                    },
                    RejectionCounter::Timeout => {
                        status.timeout_rejections = status.timeout_rejections + 1;
                    },
                    RejectionCounter::StaleAction => {
                        status.stale_action_rejections = status.stale_action_rejections + 1;
                    },
                }
                status.activate_fallback(reason);
                pending.clear();
                status.pending_action_count = 0;
                return Err(StdbClientError::InvalidState(message));
            },
        }
    }
    let mut taken: Vec<A> = Vec::new();
    std::mem::swap(&mut taken, pending);
    Ok(taken)
}

/// Within the action budget, an observation taken at the current tick is
/// accepted and a missing observation is refused.
pub proof fn lemma_gate_fresh_observation(action_count: u32, tick: u64, limits: RemoteAgentLimits)
    requires
        action_count <= limits.max_actions_per_tick,
    ensures
        spec_gate_reason(action_count, tick, Some(tick), limits) is None,
        spec_gate_reason(action_count, tick, None, limits) == Some(RemoteAgentFallbackReason::ObservationMissing),
{
}

/// A refused agent recovers on its next observation: whatever refusal put
/// it in fallback, a fresh observation at `tick` clears the fallback and
/// becomes the newest observation, while the refusal counters stay.
pub proof fn lemma_observation_clears_refusal(
    status: RemoteAgentRuntimeStatus,
    reason: RemoteAgentFallbackReason,
    tick: u64,
)
    ensures
        spec_after_refusal(status, reason).fallback_active,
        spec_after_refusal(status, reason).fallback_reason == Some(reason),
        !spec_after_observation(spec_after_refusal(status, reason), tick).fallback_active,
        spec_after_observation(spec_after_refusal(status, reason), tick).fallback_reason is None,
        spec_after_observation(spec_after_refusal(status, reason), tick).last_observation_tick == Some(tick),
        spec_counter_for(spec_after_observation(spec_after_refusal(status, reason), tick), reason)
            == spec_counter_for(spec_after_refusal(status, reason), reason),
{
}

} // verus!
