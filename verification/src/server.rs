//! Per-tick decisions of the authoritative server loop: when to broadcast,
//! when a client gets a full snapshot instead of a delta, when summaries
//! and rollups are due, and the server's error type.

use vstd::prelude::*;
use crate::session::{INCIDENT_SUMMARY_INTERVAL_TICKS, TRANSPORT_SUMMARY_INTERVAL_TICKS};

verus! {

/// Errors of the game server.
#[derive(Debug, Clone, PartialEq, Eq)]
pub enum ServerError {
    NetworkError(String),
    ConfigError(String),
    ClientError(String),
}

impl ServerError {
    /// The display text of the error.
    pub fn message(&self) -> (res: String)
        ensures
            match self {
                ServerError::NetworkError(m) => res@ == "Network error: "@ + m@,
                ServerError::ConfigError(m) => res@ == "Config error: "@ + m@,
                ServerError::ClientError(m) => res@ == "Client error: "@ + m@,
            },
    {
        match self {
            ServerError::NetworkError(m) => String::from_str("Network error: ").concat(m.as_str()),
            ServerError::ConfigError(m) => String::from_str("Config error: ").concat(m.as_str()),
            ServerError::ClientError(m) => String::from_str("Client error: ").concat(m.as_str()),
        }
    }
}

/// What the broadcast step of one tick has to do.
#[derive(Debug, Clone, Copy, PartialEq, Eq, Structural)]
pub struct BroadcastPlan {
    /// Nothing to send or publish: drop the tick's events and documents.
    pub skip: bool,
    /// The periodic full snapshot is due.
    pub should_snapshot: bool,
    /// A shard transport summary joins the tick's debug documents.
    pub emit_transport_summary: bool,
}

/// The broadcast plan at `tick`. A tick is skipped only when there is no
/// authoritative baseline yet, no client, no debug subscriber, no ops
/// stream and no event. The full snapshot is due once `snapshot_interval`
/// ticks have passed since the last one; a transport summary is added on
/// every multiple of the summary interval when someone reads debug output.
pub open spec fn spec_broadcast_plan(
    tick: u64,
    last_snapshot_tick: u64,
    snapshot_interval: u64,
    has_authoritative_baseline: bool,
    client_count: nat,
    has_debug_subscribers: bool,
    has_ops_stream: bool,
    has_event_update: bool,
) -> BroadcastPlan {
    BroadcastPlan {
        skip: !has_authoritative_baseline && client_count == 0 && !has_debug_subscribers && !has_ops_stream
            && !has_event_update,
        should_snapshot: tick - last_snapshot_tick >= snapshot_interval,
        emit_transport_summary: (has_debug_subscribers || has_ops_stream) && tick % TRANSPORT_SUMMARY_INTERVAL_TICKS
            == 0,
    }
}

/// Plans the broadcast step at `tick`.
pub fn plan_broadcast(
    tick: u64,
    last_snapshot_tick: u64,
    snapshot_interval: u64,
    has_authoritative_baseline: bool,
    client_count: usize,
    has_debug_subscribers: bool,
    has_ops_stream: bool,
    has_event_update: bool,
) -> (res: BroadcastPlan)
    requires
        last_snapshot_tick <= tick,
    ensures
        res == spec_broadcast_plan(
            tick,
            last_snapshot_tick,
            snapshot_interval,
            has_authoritative_baseline,
            client_count as nat,
            has_debug_subscribers,
            has_ops_stream,
            has_event_update,
        ),
{
    BroadcastPlan {
        skip: !has_authoritative_baseline && client_count == 0 && !has_debug_subscribers && !has_ops_stream
            && !has_event_update,
        should_snapshot: tick - last_snapshot_tick >= snapshot_interval,
        emit_transport_summary: (has_debug_subscribers || has_ops_stream) && tick % TRANSPORT_SUMMARY_INTERVAL_TICKS
            == 0,
    }
}

/// What one client receives in a broadcast.
#[derive(Debug, Clone, Copy, PartialEq, Eq, Structural)]
pub struct ClientUpdatePlan {
    /// The update carries the whole filtered snapshot, not a diff.
    pub is_full_snapshot: bool,
    /// A state message is sent at all.
    pub has_state_update: bool,
}

/// A client gets a full snapshot when the periodic one is due or it has no
/// baseline; a state message goes out for a full snapshot, a non-empty diff
/// or a population change.
pub open spec fn spec_client_update(
    should_snapshot: bool,
    has_client_baseline: bool,
    change_count: nat,
    population_changed: bool,
) -> ClientUpdatePlan {
    let is_full = should_snapshot || !has_client_baseline;
    ClientUpdatePlan {
        is_full_snapshot: is_full,
        has_state_update: is_full || change_count > 0 || population_changed,
    }
}

/// Plans one client's state update.
pub fn plan_client_update(
    should_snapshot: bool,
    has_client_baseline: bool,
    change_count: usize,
    population_changed: bool,
) -> (res: ClientUpdatePlan)
    ensures
        res == spec_client_update(should_snapshot, has_client_baseline, change_count as nat, population_changed),
{
    let is_full_snapshot = should_snapshot || !has_client_baseline;
    ClientUpdatePlan {
        is_full_snapshot,
        has_state_update: is_full_snapshot || change_count > 0 || population_changed,
    }
}

/// The snapshot tick after a broadcast at `tick`: it moves to `tick` when
/// the periodic snapshot was due or some client lacked a baseline (and so
/// got a full snapshot), and stays otherwise.
pub fn next_snapshot_tick(
    tick: u64,
    last_snapshot_tick: u64,
    should_snapshot: bool,
    had_missing_client_baseline: bool,
) -> (res: u64)
    ensures
        res == if should_snapshot || had_missing_client_baseline {
            tick
        } else {
            last_snapshot_tick
        },
{
    if should_snapshot || had_missing_client_baseline {
        tick
    } else {
        last_snapshot_tick
    }
}

/// Whether tick `tick` closes a window of `interval` ticks (its successor
/// is a multiple of `interval`).
pub open spec fn closes_window(tick: u64, interval: u64) -> bool {
    (tick + 1) % (interval as int) == 0
}

/// Whether per-agent rollups are emitted after tick `tick`.
pub fn emits_rollups(tick: u64) -> (res: bool)
    requires
        tick < u64::MAX,
    ensures
        res == closes_window(tick, 60),
{
    (tick + 1) % 60 == 0
}

/// First tick of the rollup window that ends at `tick_end` (the last 60
/// ticks, fewer at the start).
pub fn rollup_window_start(tick_end: u64) -> (res: u64)
    ensures
        res == if tick_end >= 59 { (tick_end - 59) as u64 } else { 0 },
{
    tick_end.saturating_sub(59)
}

/// Whether the shard incident summary joins the debug documents after tick
/// `tick`: always when the shard is not healthy, otherwise once per
/// incident-summary interval.
pub fn emits_incident_summary(tick: u64, healthy: bool) -> (res: bool)
    requires
        tick < u64::MAX,
    ensures
        res == (!healthy || closes_window(tick, INCIDENT_SUMMARY_INTERVAL_TICKS)),
{
    !healthy || (tick + 1) % INCIDENT_SUMMARY_INTERVAL_TICKS == 0
}

/// Whether the periodic transport summary is logged and published at
/// `tick`, given the tick it was last logged.
pub fn transport_summary_due(tick: u64, last_log_tick: u64) -> (res: bool)
    requires
        last_log_tick <= tick,
    ensures
        res == (tick - last_log_tick >= TRANSPORT_SUMMARY_INTERVAL_TICKS),
{
    tick - last_log_tick >= TRANSPORT_SUMMARY_INTERVAL_TICKS
}

/// A client without a baseline always gets a full snapshot, and a full
/// snapshot is always sent; a client with a baseline and nothing changed,
/// between periodic snapshots, gets nothing.
pub proof fn lemma_client_update_cases(
    should_snapshot: bool,
    has_client_baseline: bool,
    change_count: nat,
    population_changed: bool,
)
    ensures
        !has_client_baseline ==> spec_client_update(should_snapshot, has_client_baseline, change_count, population_changed).is_full_snapshot,
        spec_client_update(should_snapshot, has_client_baseline, change_count, population_changed).is_full_snapshot
            ==> spec_client_update(should_snapshot, has_client_baseline, change_count, population_changed).has_state_update,
        (has_client_baseline && !should_snapshot && change_count == 0 && !population_changed) ==> !spec_client_update(
            should_snapshot,
            has_client_baseline,
            change_count,
            population_changed,
        ).has_state_update,
{
}

/// The periodic snapshot comes back every `snapshot_interval` ticks: right
/// after a snapshot at `tick` it is not due before `tick + interval` and is
/// due from then on.
pub proof fn lemma_snapshot_cadence(tick: u64, later: u64, snapshot_interval: u64)
    requires
        tick <= later,
    ensures
        spec_broadcast_plan(later, tick, snapshot_interval, true, 1, false, false, false).should_snapshot <==> later
            >= tick + snapshot_interval,
{
}

/// Who gets what in a broadcast: when the periodic snapshot is due, every
/// client (with or without a baseline) gets a full snapshot; a client
/// without a baseline always does; between periodic snapshots a client
/// with a baseline gets a delta, sent exactly when something changed.
pub proof fn lemma_full_snapshot_reaches_every_client(
    should_snapshot: bool,
    has_client_baseline: bool,
    change_count: nat,
    population_changed: bool,
)
    ensures
        should_snapshot ==> spec_client_update(should_snapshot, has_client_baseline, change_count, population_changed)
            == (ClientUpdatePlan { is_full_snapshot: true, has_state_update: true }),
        !has_client_baseline ==> spec_client_update(
            should_snapshot,
            has_client_baseline,
            change_count,
            population_changed,
        ) == (ClientUpdatePlan { is_full_snapshot: true, has_state_update: true }),
        has_client_baseline && !should_snapshot ==> spec_client_update(
            should_snapshot,
            has_client_baseline,
            change_count,
            population_changed,
        ) == (ClientUpdatePlan {
            is_full_snapshot: false,
            has_state_update: change_count > 0 || population_changed,
        }),
{
}

/// A tick is skipped only when nobody could receive anything: no baseline
/// yet, no client, no debug subscriber, no ops stream and no event; the
/// periodic snapshot is due exactly once `snapshot_interval` ticks have
/// passed since the last one; the transport summary joins the documents on
/// every summary-interval tick when someone reads debug output.
pub proof fn lemma_broadcast_plan_cases(
    tick: u64,
    last_snapshot_tick: u64,
    snapshot_interval: u64,
    has_authoritative_baseline: bool,
    client_count: nat,
    has_debug_subscribers: bool,
    has_ops_stream: bool,
    has_event_update: bool,
)
    requires
        last_snapshot_tick <= tick,
    ensures
        ({
            let plan = spec_broadcast_plan(
                tick,
                last_snapshot_tick,
                snapshot_interval,
                has_authoritative_baseline,
                client_count,
                has_debug_subscribers,
                has_ops_stream,
                has_event_update,
            );
            &&& plan.skip <==> (!has_authoritative_baseline && client_count == 0 && !has_debug_subscribers
                && !has_ops_stream && !has_event_update)
            &&& plan.should_snapshot <==> tick >= last_snapshot_tick + snapshot_interval
            &&& plan.emit_transport_summary <==> ((has_debug_subscribers || has_ops_stream) && tick % 60 == 0)
        }),
{
}

} // verus!
