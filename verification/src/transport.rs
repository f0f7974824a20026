//! Shard transport summaries: per-client transport reports in client-id
//! order and the shard-wide totals, peaks and queue-pressure counts.

use vstd::prelude::*;
use crate::protocol::ClientId;
use crate::session::{
    ClientSessions, ClientTransportCounters, SessionEntry, is_queue_pressure_depth, sat_sub,
    spec_warn_depth, ids_distinct,
};

verus! {

/// A counter summed over all clients.
#[derive(Debug, Clone, Copy, PartialEq, Eq, Structural)]
pub enum CounterField {
    InboundMessages,
    OutboundMessages,
    InboundBytes,
    OutboundBytes,
    ActionBatchesReceived,
    FullSnapshotsSent,
    FullSnapshotBytes,
    RecoverySnapshotBytes,
    FullSnapshotRequests,
    PingRequests,
    StateDeltasSent,
    DeltaMessagesSent,
    DeltaBytes,
    DeltaEntitiesUpdated,
    DeltaEntitiesDestroyed,
    EventBatchesSent,
    DebugDocumentsSent,
    RejectedMessagesSent,
}

/// A per-client maximum taken over all clients.
#[derive(Debug, Clone, Copy, PartialEq, Eq, Structural)]
pub enum CounterPeak {
    FullSnapshotBytes,
    DeltaBytes,
}

/// The value of a summed counter for one client.
pub open spec fn counter_value(c: ClientTransportCounters, field: CounterField) -> u64 {
    match field {
        CounterField::InboundMessages => c.inbound_messages,
        CounterField::OutboundMessages => c.outbound_messages,
        CounterField::InboundBytes => c.inbound_bytes,
        CounterField::OutboundBytes => c.outbound_bytes,
        CounterField::ActionBatchesReceived => c.action_batches_received,
        CounterField::FullSnapshotsSent => c.full_snapshots_sent,
        CounterField::FullSnapshotBytes => c.full_snapshot_bytes,
        CounterField::RecoverySnapshotBytes => c.recovery_snapshot_bytes_sent,
        CounterField::FullSnapshotRequests => c.full_snapshot_requests,
        CounterField::PingRequests => c.ping_requests,
        CounterField::StateDeltasSent => c.state_deltas_sent,
        CounterField::DeltaMessagesSent => c.delta_messages_sent,
        CounterField::DeltaBytes => c.delta_bytes_sent,
        CounterField::DeltaEntitiesUpdated => c.delta_entities_updated,
        CounterField::DeltaEntitiesDestroyed => c.delta_entities_destroyed,
        CounterField::EventBatchesSent => c.event_batches_sent,
        CounterField::DebugDocumentsSent => c.debug_documents_sent,
        CounterField::RejectedMessagesSent => c.rejected_messages_sent,
    }
}

fn counter_of(c: &ClientTransportCounters, field: CounterField) -> (res: u64)
    ensures
        res == counter_value(*c, field),
{
    match field {
        CounterField::InboundMessages => c.inbound_messages,
        CounterField::OutboundMessages => c.outbound_messages,
        CounterField::InboundBytes => c.inbound_bytes,
        CounterField::OutboundBytes => c.outbound_bytes,
        CounterField::ActionBatchesReceived => c.action_batches_received,
        CounterField::FullSnapshotsSent => c.full_snapshots_sent,
        CounterField::FullSnapshotBytes => c.full_snapshot_bytes,
        CounterField::RecoverySnapshotBytes => c.recovery_snapshot_bytes_sent,
        CounterField::FullSnapshotRequests => c.full_snapshot_requests,
        CounterField::PingRequests => c.ping_requests,
        CounterField::StateDeltasSent => c.state_deltas_sent,
        CounterField::DeltaMessagesSent => c.delta_messages_sent,
        CounterField::DeltaBytes => c.delta_bytes_sent,
        CounterField::DeltaEntitiesUpdated => c.delta_entities_updated,
        CounterField::DeltaEntitiesDestroyed => c.delta_entities_destroyed,
        CounterField::EventBatchesSent => c.event_batches_sent,
        CounterField::DebugDocumentsSent => c.debug_documents_sent,
        CounterField::RejectedMessagesSent => c.rejected_messages_sent,
    }
}

/// The value of a per-client maximum for one client.
pub open spec fn peak_value(c: ClientTransportCounters, peak: CounterPeak) -> u64 {
    match peak {
        CounterPeak::FullSnapshotBytes => c.max_full_snapshot_bytes,
        CounterPeak::DeltaBytes => c.max_delta_bytes,
    }
}

/// The sum of counter `field` over all clients.
pub open spec fn counter_total<A, S>(entries: Seq<SessionEntry<A, S>>, field: CounterField) -> nat
    decreases entries.len(),
{
    if entries.len() == 0 {
        0
    } else {
        counter_total(entries.drop_last(), field) + counter_value(entries.last().1.transport, field) as nat
    }
}

/// The largest value of `peak` over all clients (0 for none).
pub open spec fn counter_peak<A, S>(entries: Seq<SessionEntry<A, S>>, peak: CounterPeak) -> u64
    decreases entries.len(),
{
    if entries.len() == 0 {
        0
    } else {
        let earlier = counter_peak(entries.drop_last(), peak);
        let here = peak_value(entries.last().1.transport, peak);
        if here > earlier {
            here
        } else {
            earlier
        }
    }
}

/// Pending actions over all clients.
pub open spec fn pending_total<A, S>(entries: Seq<SessionEntry<A, S>>) -> nat
    decreases entries.len(),
{
    if entries.len() == 0 {
        0
    } else {
        pending_total(entries.drop_last()) + entries.last().1.pending_actions@.len()
    }
}

/// A client's queue peak, counting what is queued right now.
pub open spec fn client_peak_depth(peak: usize, queued: nat) -> nat {
    if queued > peak {
        queued
    } else {
        peak as nat
    }
}

/// The largest queue peak over all clients (0 for none).
pub open spec fn peak_queue_depth<A, S>(entries: Seq<SessionEntry<A, S>>) -> nat
    decreases entries.len(),
{
    if entries.len() == 0 {
        0
    } else {
        let earlier = peak_queue_depth(entries.drop_last());
        let session = entries.last().1;
        let here = client_peak_depth(session.transport.peak_pending_action_queue_depth, session.pending_actions@.len());
        if here > earlier {
            here
        } else {
            earlier
        }
    }
}

/// How many clients have a queue at or beyond the pressure depth.
pub open spec fn pressure_count<A, S>(entries: Seq<SessionEntry<A, S>>, warn_config: usize) -> nat
    decreases entries.len(),
{
    if entries.len() == 0 {
        0
    } else {
        pressure_count(entries.drop_last(), warn_config) + if entries.last().1.pending_actions@.len()
            >= spec_warn_depth(warn_config) {
            1nat
        } else {
            0nat
        }
    }
}

/// Every shard-wide sum fits its type.
pub open spec fn totals_fit<A, S>(entries: Seq<SessionEntry<A, S>>) -> bool {
    &&& forall|field: CounterField| #[trigger] counter_total(entries, field) <= u64::MAX
    &&& pending_total(entries) <= usize::MAX
}

proof fn lemma_counter_total_prefix<A, S>(entries: Seq<SessionEntry<A, S>>, field: CounterField, i: int)
    requires
        0 <= i <= entries.len(),
    ensures
        counter_total(entries.take(i), field) <= counter_total(entries, field),
    decreases entries.len() - i,
{
    if i < entries.len() {
        lemma_counter_total_prefix(entries, field, i + 1);
        assert(entries.take(i + 1).drop_last() =~= entries.take(i));
    } else {
        assert(entries.take(i) =~= entries);
    }
}

proof fn lemma_pending_total_prefix<A, S>(entries: Seq<SessionEntry<A, S>>, i: int)
    requires
        0 <= i <= entries.len(),
    ensures
        pending_total(entries.take(i)) <= pending_total(entries),
    decreases entries.len() - i,
{
    if i < entries.len() {
        lemma_pending_total_prefix(entries, i + 1);
        assert(entries.take(i + 1).drop_last() =~= entries.take(i));
    } else {
        assert(entries.take(i) =~= entries);
    }
}

proof fn lemma_pressure_count_bound<A, S>(entries: Seq<SessionEntry<A, S>>, warn_config: usize)
    ensures
        pressure_count(entries, warn_config) <= entries.len(),
    decreases entries.len(),
{
    if entries.len() > 0 {
        lemma_pressure_count_bound(entries.drop_last(), warn_config);
    }
}

/// The sum of counter `field` over all clients.
fn sum_counter<A, S>(sessions: &ClientSessions<A, S>, field: CounterField) -> (res: u64)
    requires
        sessions.wf(),
        counter_total(sessions.entries(), field) <= u64::MAX,
    ensures
        res == counter_total(sessions.entries(), field),
{
    let ghost entries = sessions.entries();
    let n = sessions.len();
    let mut total: u64 = 0;
    let mut i: usize = 0;
    while i < n
        invariant
            n == entries.len(),
            i <= n,
            entries == sessions.entries(),
            sessions.wf(),
            counter_total(entries, field) <= u64::MAX,
            total == counter_total(entries.take(i as int), field),
        decreases n - i,
    {
        proof {
            assert(entries.take(i + 1).drop_last() =~= entries.take(i as int));
            lemma_counter_total_prefix(entries, field, i + 1);
        }
        let entry = sessions.entry_at(i);
        total = total + counter_of(&entry.1.transport, field);
        i = i + 1;
    }
    proof {
        assert(entries.take(i as int) =~= entries);
    }
    total
}

/// The largest value of `peak` over all clients.
fn max_counter<A, S>(sessions: &ClientSessions<A, S>, peak: CounterPeak) -> (res: u64)
    requires
        sessions.wf(),
    ensures
        res == counter_peak(sessions.entries(), peak),
{
    let ghost entries = sessions.entries();
    let n = sessions.len();
    let mut best: u64 = 0;
    let mut i: usize = 0;
    while i < n
        invariant
            n == entries.len(),
            i <= n,
            entries == sessions.entries(),
            sessions.wf(),
            best == counter_peak(entries.take(i as int), peak),
        decreases n - i,
    {
        proof {
            assert(entries.take(i + 1).drop_last() =~= entries.take(i as int));
        }
        let entry = sessions.entry_at(i);
        let here = match peak {
            CounterPeak::FullSnapshotBytes => entry.1.transport.max_full_snapshot_bytes,
            CounterPeak::DeltaBytes => entry.1.transport.max_delta_bytes,
        };
        if here > best {
            best = here;
        }
        i = i + 1;
    }
    proof {
        assert(entries.take(i as int) =~= entries);
    }
    best
}

/// Shard-wide transport totals over the connected clients.
#[derive(Debug, Clone, Copy, PartialEq, Eq, Structural)]
pub struct ShardTransportTotals {
    pub client_count: usize,
    pub queue_pressure_warn_depth: usize,
    pub total_pending_action_queue_depth: usize,
    pub peak_pending_action_queue_depth: usize,
    pub queue_pressure_client_count: usize,
    pub total_inbound_messages: u64,
    pub total_outbound_messages: u64,
    pub total_inbound_bytes: u64,
    pub total_outbound_bytes: u64,
    pub action_batches_received: u64,
    pub full_snapshots_sent: u64,
    pub total_full_snapshot_bytes: u64,
    pub max_full_snapshot_bytes: u64,
    pub total_recovery_snapshot_bytes: u64,
    pub full_snapshot_requests: u64,
    pub ping_requests: u64,
    pub state_deltas_sent: u64,
    pub delta_messages_sent: u64,
    pub total_delta_bytes: u64,
    pub max_delta_bytes: u64,
    pub total_delta_entities_updated: u64,
    pub total_delta_entities_destroyed: u64,
    pub event_batches_sent: u64,
    pub debug_documents_sent: u64,
    pub rejected_messages_sent: u64,
}

/// The shard totals of `entries` with configured pressure depth
/// `warn_config`.
pub open spec fn spec_totals<A, S>(entries: Seq<SessionEntry<A, S>>, warn_config: usize) -> ShardTransportTotals {
    ShardTransportTotals {
        client_count: entries.len() as usize,
        queue_pressure_warn_depth: spec_warn_depth(warn_config),
        total_pending_action_queue_depth: pending_total(entries) as usize,
        peak_pending_action_queue_depth: peak_queue_depth(entries) as usize,
        queue_pressure_client_count: pressure_count(entries, warn_config) as usize,
        total_inbound_messages: counter_total(entries, CounterField::InboundMessages) as u64,
        total_outbound_messages: counter_total(entries, CounterField::OutboundMessages) as u64,
        total_inbound_bytes: counter_total(entries, CounterField::InboundBytes) as u64,
        total_outbound_bytes: counter_total(entries, CounterField::OutboundBytes) as u64,
        action_batches_received: counter_total(entries, CounterField::ActionBatchesReceived) as u64,
        full_snapshots_sent: counter_total(entries, CounterField::FullSnapshotsSent) as u64,
        total_full_snapshot_bytes: counter_total(entries, CounterField::FullSnapshotBytes) as u64,
        max_full_snapshot_bytes: counter_peak(entries, CounterPeak::FullSnapshotBytes),
        total_recovery_snapshot_bytes: counter_total(entries, CounterField::RecoverySnapshotBytes) as u64,
        full_snapshot_requests: counter_total(entries, CounterField::FullSnapshotRequests) as u64,
        ping_requests: counter_total(entries, CounterField::PingRequests) as u64,
        state_deltas_sent: counter_total(entries, CounterField::StateDeltasSent) as u64,
        delta_messages_sent: counter_total(entries, CounterField::DeltaMessagesSent) as u64,
        total_delta_bytes: counter_total(entries, CounterField::DeltaBytes) as u64,
        max_delta_bytes: counter_peak(entries, CounterPeak::DeltaBytes),
        total_delta_entities_updated: counter_total(entries, CounterField::DeltaEntitiesUpdated) as u64,
        total_delta_entities_destroyed: counter_total(entries, CounterField::DeltaEntitiesDestroyed) as u64,
        event_batches_sent: counter_total(entries, CounterField::EventBatchesSent) as u64,
        debug_documents_sent: counter_total(entries, CounterField::DebugDocumentsSent) as u64,
        rejected_messages_sent: counter_total(entries, CounterField::RejectedMessagesSent) as u64,
    }
}

/// The shard-wide totals: client count, the effective pressure depth, the
/// queued actions and the largest queue peak (counting what is queued now),
/// how many clients are under queue pressure, every counter summed over the
/// clients, and the largest full-snapshot and delta sizes.
pub fn transport_totals<A, S>(sessions: &ClientSessions<A, S>, warn_config: usize) -> (res: ShardTransportTotals)
    requires
        sessions.wf(),
        totals_fit(sessions.entries()),
    ensures
        res == spec_totals(sessions.entries(), warn_config),
{
    let ghost entries = sessions.entries();
    let n = sessions.len();
    let mut pending: usize = 0;
    let mut peak: usize = 0;
    let mut pressured: usize = 0;
    let mut i: usize = 0;
    while i < n
        invariant
            n == entries.len(),
            i <= n,
            entries == sessions.entries(),
            sessions.wf(),
            pending_total(entries) <= usize::MAX,
            pending == pending_total(entries.take(i as int)),
            peak == peak_queue_depth(entries.take(i as int)),
            pressured == pressure_count(entries.take(i as int), warn_config),
            pressured <= i,
        decreases n - i,
    {
        proof {
            assert(entries.take(i + 1).drop_last() =~= entries.take(i as int));
            lemma_pending_total_prefix(entries, i + 1);
            lemma_pressure_count_bound(entries.take(i + 1), warn_config);
        }
        let entry = sessions.entry_at(i);
        let queued = entry.1.pending_actions.len();
        pending = pending + queued;
        let here = if queued > entry.1.transport.peak_pending_action_queue_depth {
            queued
        } else {
            entry.1.transport.peak_pending_action_queue_depth
        };
        if here > peak {
            peak = here;
        }
        if is_queue_pressure_depth(queued, warn_config) {
            pressured = pressured + 1;
        }
        i = i + 1;
    }
    proof {
        assert(entries.take(i as int) =~= entries);
    }
    ShardTransportTotals {
        client_count: n,
        queue_pressure_warn_depth: crate::session::queue_pressure_warn_depth(warn_config),
        total_pending_action_queue_depth: pending,
        peak_pending_action_queue_depth: peak,
        queue_pressure_client_count: pressured,
        total_inbound_messages: sum_counter(sessions, CounterField::InboundMessages),
        total_outbound_messages: sum_counter(sessions, CounterField::OutboundMessages),
        total_inbound_bytes: sum_counter(sessions, CounterField::InboundBytes),
        total_outbound_bytes: sum_counter(sessions, CounterField::OutboundBytes),
        action_batches_received: sum_counter(sessions, CounterField::ActionBatchesReceived),
        full_snapshots_sent: sum_counter(sessions, CounterField::FullSnapshotsSent),
        total_full_snapshot_bytes: sum_counter(sessions, CounterField::FullSnapshotBytes),
        max_full_snapshot_bytes: max_counter(sessions, CounterPeak::FullSnapshotBytes),
        total_recovery_snapshot_bytes: sum_counter(sessions, CounterField::RecoverySnapshotBytes),
        full_snapshot_requests: sum_counter(sessions, CounterField::FullSnapshotRequests),
        ping_requests: sum_counter(sessions, CounterField::PingRequests),
        state_deltas_sent: sum_counter(sessions, CounterField::StateDeltasSent),
        delta_messages_sent: sum_counter(sessions, CounterField::DeltaMessagesSent),
        total_delta_bytes: sum_counter(sessions, CounterField::DeltaBytes),
        max_delta_bytes: max_counter(sessions, CounterPeak::DeltaBytes),
        total_delta_entities_updated: sum_counter(sessions, CounterField::DeltaEntitiesUpdated),
        total_delta_entities_destroyed: sum_counter(sessions, CounterField::DeltaEntitiesDestroyed),
        event_batches_sent: sum_counter(sessions, CounterField::EventBatchesSent),
        debug_documents_sent: sum_counter(sessions, CounterField::DebugDocumentsSent),
        rejected_messages_sent: sum_counter(sessions, CounterField::RejectedMessagesSent),
    }
}

/// Transport report of one client.
#[derive(Debug, Clone)]
pub struct ClientTransportSummary {
    pub client_id: ClientId,
    pub player_name: Option<String>,
    pub agent_id: Option<u64>,
    pub ticks_since_last_seen: u64,
    pub pending_action_queue_depth: usize,
    pub peak_pending_action_queue_depth: usize,
    pub queue_pressure: bool,
    pub debug_telemetry_enabled: bool,
    pub transport: ClientTransportCounters,
}

/// The report of one table entry at `server_tick` with configured pressure
/// depth `warn_config`: idle ticks since the client was last seen, its
/// queue depth, its queue peak counting what is queued now, and whether
/// the queue is at or beyond the pressure depth.
pub open spec fn summary_of<A, S>(entry: SessionEntry<A, S>, server_tick: u64, warn_config: usize) -> ClientTransportSummary {
    let session = entry.1;
    let queued = session.pending_actions@.len();
    ClientTransportSummary {
        client_id: entry.0,
        player_name: session.player_name,
        agent_id: session.agent_id,
        ticks_since_last_seen: sat_sub(server_tick, session.transport.last_seen_tick),
        pending_action_queue_depth: queued as usize,
        peak_pending_action_queue_depth: client_peak_depth(session.transport.peak_pending_action_queue_depth, queued) as usize,
        queue_pressure: queued >= spec_warn_depth(warn_config),
        debug_telemetry_enabled: session.debug_telemetry_enabled,
        transport: session.transport,
    }
}

/// Client ids strictly increase along `reports`.
pub open spec fn sorted_by_client(reports: Seq<ClientTransportSummary>) -> bool {
    forall|a: int, b: int| 0 <= a < b < reports.len() ==> reports[a].client_id.0 < reports[b].client_id.0
}

/// The report of one client.
fn client_summary<A, S>(entry: &SessionEntry<A, S>, server_tick: u64, warn_config: usize) -> (res: ClientTransportSummary)
    ensures
        res == summary_of(*entry, server_tick, warn_config),
{
    let session = &entry.1;
    let queued = session.pending_actions.len();
    let peak = if queued > session.transport.peak_pending_action_queue_depth {
        queued
    } else {
        session.transport.peak_pending_action_queue_depth
    };
    let player_name = match &session.player_name {
        Some(name) => Some(name.clone()),
        None => None,
    };
    ClientTransportSummary {
        client_id: entry.0,
        player_name,
        agent_id: session.agent_id,
        ticks_since_last_seen: server_tick.saturating_sub(session.transport.last_seen_tick),
        pending_action_queue_depth: queued,
        peak_pending_action_queue_depth: peak,
        queue_pressure: is_queue_pressure_depth(queued, warn_config),
        debug_telemetry_enabled: session.debug_telemetry_enabled,
        transport: session.transport,
    }
}

/// Inserts `report` into `reports`, keeping them ordered by client id.
fn insert_sorted(reports: &mut Vec<ClientTransportSummary>, report: ClientTransportSummary)
    requires
        sorted_by_client(old(reports)@),
        forall|k: int| 0 <= k < old(reports)@.len() ==> old(reports)@[k].client_id.0 != report.client_id.0,
    ensures
        sorted_by_client(final(reports)@),
        final(reports)@.len() == old(reports)@.len() + 1,
        exists|k: int| 0 <= k < final(reports)@.len() && final(reports)@[k] == report,
        forall|k: int|
            #![trigger old(reports)@[k]]
            0 <= k < old(reports)@.len() ==> exists|k2: int|
                0 <= k2 < final(reports)@.len() && #[trigger] final(reports)@[k2] == old(reports)@[k],
        forall|k: int|
            0 <= k < final(reports)@.len() ==> #[trigger] final(reports)@[k] == report || exists|k2: int|
                0 <= k2 < old(reports)@.len() && final(reports)@[k] == old(reports)@[k2],
{
    let key = report.client_id.0;
    let mut pos: usize = 0;
    while pos < reports.len() && reports[pos].client_id.0 < key
        invariant
            pos <= reports@.len(),
            forall|k: int| 0 <= k < pos ==> reports@[k].client_id.0 < key,
        decreases reports@.len() - pos,
    {
        pos = pos + 1;
    }
    let ghost before = reports@;
    proof {
        assert forall|k: int| pos <= k < before.len() implies before[k].client_id.0 > key by {
            assert(before[pos as int].client_id.0 >= key);
            assert(before[pos as int].client_id.0 != key);
        }
    }
    reports.insert(pos, report);
    proof {
        let after = reports@;
        assert forall|a: int, b: int| 0 <= a < b < after.len() implies after[a].client_id.0 < after[b].client_id.0 by {
            if b < pos {
            } else if b == pos {
            } else if a < pos {
                assert(after[b] == before[b - 1]);
            } else if a == pos {
                assert(after[b] == before[b - 1]);
            } else {
                assert(after[a] == before[a - 1]);
                assert(after[b] == before[b - 1]);
            }
        }
        assert(after[pos as int] == report);
        assert forall|k: int| #![trigger before[k]] 0 <= k < before.len() implies exists|k2: int|
            0 <= k2 < after.len() && #[trigger] after[k2] == before[k] by {
            if k < pos {
                assert(after[k] == before[k]);
            } else {
                assert(after[k + 1] == before[k]);
            }
        }
        assert forall|k: int| 0 <= k < after.len() implies #[trigger] after[k] == report || exists|k2: int|
            0 <= k2 < before.len() && after[k] == before[k2] by {
            if k < pos {
                assert(after[k] == before[k]);
            } else if k > pos {
                assert(after[k] == before[k - 1]);
            }
        }
    }
}

/// The report of every connected client, ordered by client id.
pub fn client_summaries<A, S>(sessions: &ClientSessions<A, S>, server_tick: u64, warn_config: usize) -> (res: Vec<
    ClientTransportSummary,
>)
    requires
        sessions.wf(),
    ensures
        res@.len() == sessions.entries().len(),
        sorted_by_client(res@),
        forall|k: int|
            0 <= k < res@.len() ==> exists|i: int|
                0 <= i < sessions.entries().len() && #[trigger] res@[k] == summary_of(
                    sessions.entries()[i],
                    server_tick,
                    warn_config,
                ),
        forall|i: int|
            #![trigger sessions.entries()[i]]
            0 <= i < sessions.entries().len() ==> exists|k: int|
                0 <= k < res@.len() && #[trigger] res@[k] == summary_of(
                    sessions.entries()[i],
                    server_tick,
                    warn_config,
                ),
{
    let ghost entries = sessions.entries();
    let n = sessions.len();
    let mut reports: Vec<ClientTransportSummary> = Vec::new();
    let mut i: usize = 0;
    while i < n
        invariant
            n == entries.len(),
            i <= n,
            entries == sessions.entries(),
            sessions.wf(),
            ids_distinct(entries),
            reports@.len() == i,
            sorted_by_client(reports@),
            forall|k: int|
                0 <= k < reports@.len() ==> exists|j: int|
                    0 <= j < i && #[trigger] reports@[k] == summary_of(entries[j], server_tick, warn_config),
            forall|j: int|
                #![trigger entries[j]]
                0 <= j < i ==> exists|k: int|
                    0 <= k < reports@.len() && #[trigger] reports@[k] == summary_of(
                        entries[j],
                        server_tick,
                        warn_config,
                    ),
        decreases n - i,
    {
        let entry = sessions.entry_at(i);
        let report = client_summary(entry, server_tick, warn_config);
        proof {
            assert forall|k: int| 0 <= k < reports@.len() implies reports@[k].client_id.0 != report.client_id.0 by {
                let j = choose|j: int| 0 <= j < i && reports@[k] == summary_of(entries[j], server_tick, warn_config);
                assert(entries[j].0 != entries[i as int].0);
            }
        }
        let ghost before = reports@;
        insert_sorted(&mut reports, report);
        proof {
            let after = reports@;
            assert forall|k: int| 0 <= k < after.len() implies exists|j: int|
                0 <= j < i + 1 && #[trigger] after[k] == summary_of(entries[j], server_tick, warn_config) by {
                if after[k] != summary_of(entries[i as int], server_tick, warn_config) {
                    let k2 = choose|k2: int| 0 <= k2 < before.len() && after[k] == before[k2];
                    assert(before[k2] == after[k]);
                }
            }
            assert forall|j: int| #![trigger entries[j]] 0 <= j < i + 1 implies exists|k: int|
                0 <= k < after.len() && #[trigger] after[k] == summary_of(entries[j], server_tick, warn_config) by {
                if j < i {
                    let k = choose|k: int| 0 <= k < before.len() && before[k] == summary_of(entries[j], server_tick, warn_config);
                    let k2 = choose|k2: int| 0 <= k2 < after.len() && after[k2] == before[k];
                    assert(after[k2] == summary_of(entries[j], server_tick, warn_config));
                }
            }
        }
        i = i + 1;
    }
    reports
}

} // verus!
