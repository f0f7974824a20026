//! Server-side client sessions: per-client transport counters, action-batch
//! admission into the bounded pending queue, the action window around the
//! server tick, and the table of connected sessions (registration, resume by
//! reconnect token, disconnect, inactivity timeout).

use vstd::prelude::*;
use crate::protocol::{ClientId, ReconnectToken};
use crate::decimal::{decimal_string, decimal_digits};

verus! {

/// Most actions a client may have waiting for the next tick.
pub const ACTION_QUEUE_MAX_DEPTH: usize = 256;

/// How many ticks behind the server tick an action batch may be stamped.
pub const ACTION_WINDOW_BACKWARD_TICKS: u64 = 2;

/// How many ticks ahead of the server tick an action batch may be stamped.
pub const ACTION_WINDOW_FORWARD_TICKS: u64 = 2;

/// Ticks between two unconditional shard incident summaries.
pub const INCIDENT_SUMMARY_INTERVAL_TICKS: u64 = 60;

/// Ticks between two shard transport summaries.
pub const TRANSPORT_SUMMARY_INTERVAL_TICKS: u64 = 60;

/// `a + b`, saturating at `u64::MAX`.
pub open spec fn sat_add(a: u64, b: u64) -> u64 {
    if a + b > u64::MAX {
        u64::MAX
    } else {
        (a + b) as u64
    }
}

/// `a - b`, saturating at 0.
pub open spec fn sat_sub(a: u64, b: u64) -> u64 {
    if a >= b {
        (a - b) as u64
    } else {
        0
    }
}

/// The larger of two values.
pub open spec fn max_u64(a: u64, b: u64) -> u64 {
    if a >= b {
        a
    } else {
        b
    }
}

/// Oldest tick an action batch may carry at `server_tick`.
pub open spec fn window_min(server_tick: u64) -> u64 {
    sat_sub(server_tick, ACTION_WINDOW_BACKWARD_TICKS)
}

/// Newest tick an action batch may carry at `server_tick`.
pub open spec fn window_max(server_tick: u64) -> int {
    server_tick + ACTION_WINDOW_FORWARD_TICKS
}

/// Whether an action stamped `tick` is inside the window around
/// `server_tick`.
pub open spec fn in_action_window(tick: u64, server_tick: u64) -> bool {
    window_min(server_tick) <= tick && tick <= window_max(server_tick)
}

/// The accepted action window `[min, max]` at `server_tick`.
pub fn action_window(server_tick: u64) -> (res: (u64, u64))
    requires
        server_tick + ACTION_WINDOW_FORWARD_TICKS <= u64::MAX,
    ensures
        res.0 == window_min(server_tick),
        res.1 == window_max(server_tick),
{
    (server_tick.saturating_sub(ACTION_WINDOW_BACKWARD_TICKS), server_tick + ACTION_WINDOW_FORWARD_TICKS)
}

/// The configured queue-pressure depth, clamped into
/// `[1, ACTION_QUEUE_MAX_DEPTH]`.
pub open spec fn spec_warn_depth(configured: usize) -> usize {
    if configured < 1 {
        1
    } else if configured > ACTION_QUEUE_MAX_DEPTH {
        ACTION_QUEUE_MAX_DEPTH
    } else {
        configured
    }
}

/// Effective queue-pressure threshold for a configured depth.
pub fn queue_pressure_warn_depth(configured: usize) -> (res: usize)
    ensures
        res == spec_warn_depth(configured),
        1 <= res <= ACTION_QUEUE_MAX_DEPTH,
{
    if configured < 1 {
        1
    } else if configured > ACTION_QUEUE_MAX_DEPTH {
        ACTION_QUEUE_MAX_DEPTH
    } else {
        configured
    }
}

/// Whether a pending-queue depth counts as queue pressure.
pub fn is_queue_pressure_depth(depth: usize, configured: usize) -> (res: bool)
    ensures
        res == (depth >= spec_warn_depth(configured)),
{
    depth >= queue_pressure_warn_depth(configured)
}

/// Kind of an inbound client message, as far as the counters care.
#[derive(Debug, Clone, Copy, PartialEq, Eq, Structural)]
pub enum InboundKind {
    Connect,
    ActionBatch,
    RequestFullSnapshot,
    SetDebugTelemetry,
    SetDebugFocus,
    Ping,
    Disconnect,
}

/// Kind of an outbound server message, as far as the counters care.
#[derive(Debug, Clone, Copy, PartialEq, Eq, Structural)]
pub enum OutboundKind {
    /// A welcome or a full state snapshot.
    FullSnapshot { recovery: bool },
    /// An incremental state delta with its entity churn.
    Delta { updated_entities: u64, destroyed_entities: u64 },
    EventBatch,
    /// Tick telemetry or a debug document.
    DebugDocument,
    Rejected,
    Other,
}

/// Per-client transport accounting. Every counter saturates instead of
/// wrapping.
#[derive(Debug, Clone, Copy, PartialEq, Eq, Structural)]
pub struct ClientTransportCounters {
    pub last_seen_tick: u64,
    pub last_sent_tick: Option<u64>,
    pub session_resumes: u64,
    pub recovery_snapshots_sent: u64,
    pub recovery_delivery_failures: u64,
    pub recovery_snapshot_bytes_sent: u64,
    pub inbound_messages: u64,
    pub outbound_messages: u64,
    pub inbound_bytes: u64,
    pub outbound_bytes: u64,
    pub action_batches_received: u64,
    pub full_snapshots_sent: u64,
    pub full_snapshot_bytes: u64,
    pub max_full_snapshot_bytes: u64,
    pub full_snapshot_requests: u64,
    pub ping_requests: u64,
    pub state_deltas_sent: u64,
    pub delta_messages_sent: u64,
    pub delta_bytes_sent: u64,
    pub max_delta_bytes: u64,
    pub delta_entities_updated: u64,
    pub delta_entities_destroyed: u64,
    pub event_batches_sent: u64,
    pub debug_documents_sent: u64,
    pub rejected_messages_sent: u64,
    pub peak_pending_action_queue_depth: usize,
    pub queue_pressure_events: u64,
}

impl ClientTransportCounters {
    /// All counters at zero, nothing seen or sent.
    pub open spec fn spec_zero() -> Self {
        ClientTransportCounters {
            last_seen_tick: 0,
            last_sent_tick: None,
            session_resumes: 0,
            recovery_snapshots_sent: 0,
            recovery_delivery_failures: 0,
            recovery_snapshot_bytes_sent: 0,
            inbound_messages: 0,
            outbound_messages: 0,
            inbound_bytes: 0,
            outbound_bytes: 0,
            action_batches_received: 0,
            full_snapshots_sent: 0,
            full_snapshot_bytes: 0,
            max_full_snapshot_bytes: 0,
            full_snapshot_requests: 0,
            ping_requests: 0,
            state_deltas_sent: 0,
            delta_messages_sent: 0,
            delta_bytes_sent: 0,
            max_delta_bytes: 0,
            delta_entities_updated: 0,
            delta_entities_destroyed: 0,
            event_batches_sent: 0,
            debug_documents_sent: 0,
            rejected_messages_sent: 0,
            peak_pending_action_queue_depth: 0,
            queue_pressure_events: 0,
        }
    }

    /// The counters after an inbound message of `kind` and `encoded_len`
    /// bytes arrived at `tick`: message and byte totals grow, the client is
    /// seen at `tick`, and batches, snapshot requests and pings are counted.
    pub open spec fn spec_after_inbound(self, kind: InboundKind, encoded_len: u64, tick: u64) -> Self {
        let base = ClientTransportCounters {
            inbound_messages: sat_add(self.inbound_messages, 1),
            inbound_bytes: sat_add(self.inbound_bytes, encoded_len),
            last_seen_tick: tick,
            ..self
        };
        match kind {
            InboundKind::ActionBatch => ClientTransportCounters {
                action_batches_received: sat_add(base.action_batches_received, 1),
                ..base
            },
            InboundKind::RequestFullSnapshot => ClientTransportCounters {
                full_snapshot_requests: sat_add(base.full_snapshot_requests, 1),
                ..base
            },
            InboundKind::Ping => ClientTransportCounters { ping_requests: sat_add(base.ping_requests, 1), ..base },
            _ => base,
        }
    }

    /// The counters after an outbound message of `kind` and `encoded_size`
    /// bytes was handed to the client's channel at `tick`.
    pub open spec fn spec_after_outbound(self, kind: OutboundKind, encoded_size: u64, tick: u64) -> Self {
        let base = ClientTransportCounters {
            outbound_messages: sat_add(self.outbound_messages, 1),
            outbound_bytes: sat_add(self.outbound_bytes, encoded_size),
            last_sent_tick: Some(tick),
            ..self
        };
        match kind {
            OutboundKind::FullSnapshot { recovery } => ClientTransportCounters {
                full_snapshots_sent: sat_add(base.full_snapshots_sent, 1),
                full_snapshot_bytes: sat_add(base.full_snapshot_bytes, encoded_size),
                max_full_snapshot_bytes: max_u64(base.max_full_snapshot_bytes, encoded_size),
                state_deltas_sent: sat_add(base.state_deltas_sent, 1),
                recovery_snapshot_bytes_sent: if recovery {
                    sat_add(base.recovery_snapshot_bytes_sent, encoded_size)
                } else {
                    base.recovery_snapshot_bytes_sent
                },
                ..base
            },
            OutboundKind::Delta { updated_entities, destroyed_entities } => ClientTransportCounters {
                state_deltas_sent: sat_add(base.state_deltas_sent, 1),
                delta_messages_sent: sat_add(base.delta_messages_sent, 1),
                delta_bytes_sent: sat_add(base.delta_bytes_sent, encoded_size),
                max_delta_bytes: max_u64(base.max_delta_bytes, encoded_size),
                delta_entities_updated: sat_add(base.delta_entities_updated, updated_entities),
                delta_entities_destroyed: sat_add(base.delta_entities_destroyed, destroyed_entities),
                ..base
            },
            OutboundKind::EventBatch => ClientTransportCounters {
                event_batches_sent: sat_add(base.event_batches_sent, 1),
                ..base
            },
            OutboundKind::DebugDocument => ClientTransportCounters {
                debug_documents_sent: sat_add(base.debug_documents_sent, 1),
                ..base
            },
            OutboundKind::Rejected => ClientTransportCounters {
                rejected_messages_sent: sat_add(base.rejected_messages_sent, 1),
                ..base
            },
            OutboundKind::Other => base,
        }
    }

    /// The counters after a recovery snapshot of `encoded_size` bytes was
    /// delivered (`sent`) or failed to be delivered.
    pub open spec fn spec_after_recovery(self, sent: bool, encoded_size: u64) -> Self {
        if sent {
            ClientTransportCounters {
                recovery_snapshots_sent: sat_add(self.recovery_snapshots_sent, 1),
                recovery_snapshot_bytes_sent: sat_add(self.recovery_snapshot_bytes_sent, encoded_size),
                ..self
            }
        } else {
            ClientTransportCounters {
                recovery_delivery_failures: sat_add(self.recovery_delivery_failures, 1),
                ..self
            }
        }
    }

    /// Counts an inbound message.
    pub fn record_inbound(&mut self, kind: InboundKind, encoded_len: u64, tick: u64)
        ensures
            *final(self) == old(self).spec_after_inbound(kind, encoded_len, tick),
    {
        self.inbound_messages = self.inbound_messages.saturating_add(1);
        self.inbound_bytes = self.inbound_bytes.saturating_add(encoded_len);
        self.last_seen_tick = tick;
        match kind {
            InboundKind::ActionBatch => {
                self.action_batches_received = self.action_batches_received.saturating_add(1);
            },
            InboundKind::RequestFullSnapshot => {
                self.full_snapshot_requests = self.full_snapshot_requests.saturating_add(1);
            },
            InboundKind::Ping => {
                self.ping_requests = self.ping_requests.saturating_add(1);
            },
            _ => {},
        }
    }

    /// Counts an outbound message.
    pub fn record_outbound(&mut self, kind: OutboundKind, encoded_size: u64, tick: u64)
        ensures
            *final(self) == old(self).spec_after_outbound(kind, encoded_size, tick),
    {
        self.outbound_messages = self.outbound_messages.saturating_add(1);
        self.outbound_bytes = self.outbound_bytes.saturating_add(encoded_size);
        self.last_sent_tick = Some(tick);
        match kind {
            OutboundKind::FullSnapshot { recovery } => {
                self.full_snapshots_sent = self.full_snapshots_sent.saturating_add(1);
                self.full_snapshot_bytes = self.full_snapshot_bytes.saturating_add(encoded_size);
                if encoded_size > self.max_full_snapshot_bytes {
                    self.max_full_snapshot_bytes = encoded_size;
                }
                self.state_deltas_sent = self.state_deltas_sent.saturating_add(1);
                if recovery {
                    self.recovery_snapshot_bytes_sent = self.recovery_snapshot_bytes_sent.saturating_add(
                        encoded_size,
                    );
                }
            },
            OutboundKind::Delta { updated_entities, destroyed_entities } => {
                self.state_deltas_sent = self.state_deltas_sent.saturating_add(1);
                self.delta_messages_sent = self.delta_messages_sent.saturating_add(1);
                self.delta_bytes_sent = self.delta_bytes_sent.saturating_add(encoded_size);
                if encoded_size > self.max_delta_bytes {
                    self.max_delta_bytes = encoded_size;
                }
                self.delta_entities_updated = self.delta_entities_updated.saturating_add(updated_entities);
                self.delta_entities_destroyed = self.delta_entities_destroyed.saturating_add(
                    destroyed_entities,
                );
            },
            OutboundKind::EventBatch => {
                self.event_batches_sent = self.event_batches_sent.saturating_add(1);
            },
            OutboundKind::DebugDocument => {
                self.debug_documents_sent = self.debug_documents_sent.saturating_add(1);
            },
            OutboundKind::Rejected => {
                self.rejected_messages_sent = self.rejected_messages_sent.saturating_add(1);
            },
            OutboundKind::Other => {},
        }
    }

    /// Counts the outcome of a recovery snapshot delivery.
    pub fn record_recovery_delivery(&mut self, sent: bool, encoded_size: u64)
        ensures
            *final(self) == old(self).spec_after_recovery(sent, encoded_size),
    {
        if sent {
            self.recovery_snapshots_sent = self.recovery_snapshots_sent.saturating_add(1);
            self.recovery_snapshot_bytes_sent = self.recovery_snapshot_bytes_sent.saturating_add(encoded_size);
        } else {
            self.recovery_delivery_failures = self.recovery_delivery_failures.saturating_add(1);
        }
    }
}

impl Default for ClientTransportCounters {
    fn default() -> (res: Self)
        ensures
            res == Self::spec_zero(),
    {
        ClientTransportCounters {
            last_seen_tick: 0,
            last_sent_tick: None,
            session_resumes: 0,
            recovery_snapshots_sent: 0,
            recovery_delivery_failures: 0,
            recovery_snapshot_bytes_sent: 0,
            inbound_messages: 0,
            outbound_messages: 0,
            inbound_bytes: 0,
            outbound_bytes: 0,
            action_batches_received: 0,
            full_snapshots_sent: 0,
            full_snapshot_bytes: 0,
            max_full_snapshot_bytes: 0,
            full_snapshot_requests: 0,
            ping_requests: 0,
            state_deltas_sent: 0,
            delta_messages_sent: 0,
            delta_bytes_sent: 0,
            max_delta_bytes: 0,
            delta_entities_updated: 0,
            delta_entities_destroyed: 0,
            event_batches_sent: 0,
            debug_documents_sent: 0,
            rejected_messages_sent: 0,
            peak_pending_action_queue_depth: 0,
            queue_pressure_events: 0,
        }
    }
}

/// A connected client as the server tracks it. `A` is the game's action
/// type and `S` the per-client snapshot type; the agent a client controls is
/// identified by the host's agent handle.
pub struct ClientSession<A, S> {
    pub player_name: Option<String>,
    pub agent_id: Option<u64>,
    /// Actions waiting for the next tick, each with the tick it was stamped.
    pub pending_actions: Vec<(u64, A)>,
    pub reconnect_token: ReconnectToken,
    pub last_action_tick: Option<u64>,
    pub last_processed_action_tick: Option<u64>,
    pub debug_telemetry_enabled: bool,
    pub debug_focus_entity: Option<u64>,
    pub last_sent_snapshot: Option<S>,
    pub transport: ClientTransportCounters,
}

/// What the server made of an action batch.
#[derive(Debug, Clone, Copy, PartialEq, Eq, Structural)]
pub enum ActionBatchOutcome {
    /// The client has no agent yet (it must send Connect first).
    Unregistered,
    /// The batch tick lies outside the accepted window.
    OutOfWindow { min_tick: u64, max_tick: u64 },
    /// The batch tick is older than the client's previous batch.
    Stale { last_tick: u64 },
    /// The batch was queued, as far as the queue had room.
    Accepted { queue_depth: usize, overflow: bool, queue_pressure: bool },
}

/// The text of an optional string, as characters.
pub open spec fn text_view(text: Option<String>) -> Option<Seq<char>> {
    match text {
        Some(t) => Some(t@),
        None => None,
    }
}

/// `actions`, each stamped with `tick`.
pub open spec fn stamped<A>(actions: Seq<A>, tick: u64) -> Seq<(u64, A)> {
    Seq::new(actions.len(), |i: int| (tick, actions[i]))
}

/// Free places in a pending queue of length `len`.
pub open spec fn queue_room(len: nat) -> nat {
    if len >= ACTION_QUEUE_MAX_DEPTH {
        0
    } else {
        (ACTION_QUEUE_MAX_DEPTH - len) as nat
    }
}

/// How many of `count` offered actions fit in a queue of length `len`.
pub open spec fn accepted_count(len: nat, count: nat) -> nat {
    if count <= queue_room(len) {
        count
    } else {
        queue_room(len)
    }
}

/// The outcome of offering `count` actions stamped `tick` to `session` at
/// `server_tick`, with the configured queue-pressure depth `warn_config`.
/// Checks run in this order: registration, window, submission order, room.
pub open spec fn spec_batch_outcome<A, S>(
    session: ClientSession<A, S>,
    tick: u64,
    count: nat,
    server_tick: u64,
    warn_config: usize,
) -> ActionBatchOutcome {
    if session.agent_id is None {
        ActionBatchOutcome::Unregistered
    } else if !in_action_window(tick, server_tick) {
        ActionBatchOutcome::OutOfWindow {
            min_tick: window_min(server_tick),
            max_tick: window_max(server_tick) as u64,
        }
    } else if session.last_action_tick matches Some(last) && tick < last {
        ActionBatchOutcome::Stale { last_tick: session.last_action_tick->0 }
    } else {
        let len = session.pending_actions@.len();
        let depth = len + accepted_count(len, count);
        ActionBatchOutcome::Accepted {
            queue_depth: depth as usize,
            overflow: count > queue_room(len),
            queue_pressure: depth >= spec_warn_depth(warn_config),
        }
    }
}

impl ActionBatchOutcome {
    /// Whether the outcome counts as a queue-pressure incident: the queue
    /// overflowed or reached the pressure depth.
    pub open spec fn spec_raises_queue_pressure(self) -> bool {
        self matches ActionBatchOutcome::Accepted { overflow, queue_pressure, .. } && (overflow
            || queue_pressure)
    }

    /// Whether the outcome counts as a queue-pressure incident.
    pub fn raises_queue_pressure(&self) -> (res: bool)
        ensures
            res == self.spec_raises_queue_pressure(),
    {
        match self {
            ActionBatchOutcome::Accepted { overflow, queue_pressure, .. } => *overflow || *queue_pressure,
            _ => false,
        }
    }

    /// The reason sent back to the client in a rejection for a batch stamped
    /// `tick`, if the outcome calls for one. An accepted batch is rejected
    /// only for the actions that did not fit.
    pub open spec fn spec_rejection_text(self, tick: u64) -> Option<Seq<char>> {
        match self {
            ActionBatchOutcome::Unregistered => Some("client must send Connect before action batches"@),
            ActionBatchOutcome::OutOfWindow { min_tick, max_tick } => Some(
                "action batch tick out of window: tick="@ + decimal_digits(tick as nat) + " accepted=["@
                    + decimal_digits(min_tick as nat) + "..="@ + decimal_digits(max_tick as nat) + "]"@,
            ),
            ActionBatchOutcome::Stale { .. } => Some(
                "stale action batch tick="@ + decimal_digits(tick as nat)
                    + "; requires non-decreasing submission order"@,
            ),
            ActionBatchOutcome::Accepted { overflow, .. } => if overflow {
                Some("action queue full (max depth=256)"@)
            } else {
                None
            },
        }
    }

    /// The reason sent back to the client in a rejection for a batch stamped
    /// `tick`, if the outcome calls for one (see `spec_rejection_text`).
    pub fn rejection_reason(&self, tick: u64) -> (res: Option<String>)
        ensures
            text_view(res) == self.spec_rejection_text(tick),
    {
        match self {
            ActionBatchOutcome::Unregistered => Some(String::from_str("client must send Connect before action batches")),
            ActionBatchOutcome::OutOfWindow { min_tick, max_tick } => {
                let text = String::from_str("action batch tick out of window: tick=");
                let text = text.concat(decimal_string(tick).as_str());
                let text = text.concat(" accepted=[");
                let text = text.concat(decimal_string(*min_tick).as_str());
                let text = text.concat("..=");
                let text = text.concat(decimal_string(*max_tick).as_str());
                Some(text.concat("]"))
            },
            ActionBatchOutcome::Stale { .. } => {
                let text = String::from_str("stale action batch tick=");
                let text = text.concat(decimal_string(tick).as_str());
                Some(text.concat("; requires non-decreasing submission order"))
            },
            ActionBatchOutcome::Accepted { overflow, .. } => {
                if *overflow {
                    Some(String::from_str("action queue full (max depth=256)"))
                } else {
                    None
                }
            },
        }
    }
}

/// The actions of `pending` whose tick lies in the window around
/// `server_tick`, in queue order.
pub open spec fn due_actions<A>(pending: Seq<(u64, A)>, server_tick: u64) -> Seq<A>
    decreases pending.len(),
{
    if pending.len() == 0 {
        Seq::empty()
    } else {
        let earlier = due_actions(pending.drop_last(), server_tick);
        if in_action_window(pending.last().0, server_tick) {
            earlier.push(pending.last().1)
        } else {
            earlier
        }
    }
}

/// The newest tick among the actions of `pending` inside the window around
/// `server_tick`, if any.
pub open spec fn latest_due_tick<A>(pending: Seq<(u64, A)>, server_tick: u64) -> Option<u64>
    decreases pending.len(),
{
    if pending.len() == 0 {
        None
    } else {
        let earlier = latest_due_tick(pending.drop_last(), server_tick);
        let tick = pending.last().0;
        if in_action_window(tick, server_tick) {
            match earlier {
                Some(t) => Some(max_u64(t, tick)),
                None => Some(tick),
            }
        } else {
            earlier
        }
    }
}

/// Whether two sessions agree on everything but the pending queue and the
/// fields that action admission and processing move (the last submitted
/// and processed ticks, the queue peak and the pressure count).
pub open spec fn same_apart_from_queue<A, S>(a: ClientSession<A, S>, b: ClientSession<A, S>) -> bool {
    &&& a.player_name == b.player_name
    &&& a.agent_id == b.agent_id
    &&& a.reconnect_token == b.reconnect_token
    &&& a.debug_telemetry_enabled == b.debug_telemetry_enabled
    &&& a.debug_focus_entity == b.debug_focus_entity
    &&& a.last_sent_snapshot == b.last_sent_snapshot
    &&& a.transport == ClientTransportCounters {
        peak_pending_action_queue_depth: a.transport.peak_pending_action_queue_depth,
        queue_pressure_events: a.transport.queue_pressure_events,
        ..b.transport
    }
}

/// `after` is `before` once a batch of `offered` actions stamped `tick` was
/// offered at `server_tick` with outcome `outcome`: the outcome is the one
/// the checks call for; an accepted batch is queued as far as there is room,
/// becomes the last submitted batch, raises the queue peak and counts a
/// pressure incident when it overflowed or hit the pressure depth; a
/// rejected batch changes nothing.
pub open spec fn batch_admitted<A, S>(
    before: ClientSession<A, S>,
    after: ClientSession<A, S>,
    tick: u64,
    offered: Seq<A>,
    server_tick: u64,
    warn_config: usize,
    outcome: ActionBatchOutcome,
) -> bool {
    &&& outcome == spec_batch_outcome(before, tick, offered.len(), server_tick, warn_config)
    &&& outcome is Accepted ==> {
        let accepted = accepted_count(before.pending_actions@.len(), offered.len());
        &&& after.pending_actions@ == before.pending_actions@ + stamped(offered.take(accepted as int), tick)
        &&& after.last_action_tick == Some(tick)
        &&& after.last_processed_action_tick == before.last_processed_action_tick
        &&& after.transport.peak_pending_action_queue_depth == max_u64(
            before.transport.peak_pending_action_queue_depth as u64,
            after.pending_actions@.len() as u64,
        )
        &&& after.transport.queue_pressure_events == if outcome.spec_raises_queue_pressure() {
            sat_add(before.transport.queue_pressure_events, 1)
        } else {
            before.transport.queue_pressure_events
        }
        &&& same_apart_from_queue(after, before)
    }
    &&& !(outcome is Accepted) ==> after == before
}

/// `after` is `before` once its queue was drained at `server_tick`,
/// handing out `due`: the queue is empty; a client without an agent gets
/// nothing, otherwise it gets its actions inside the window in queue order
/// and the newest of their ticks (if any) becomes the last processed tick.
pub open spec fn due_taken<A, S>(before: ClientSession<A, S>, after: ClientSession<A, S>, server_tick: u64, due: Seq<A>) -> bool {
    &&& after.pending_actions@.len() == 0
    &&& before.agent_id is None ==> due.len() == 0
    &&& before.agent_id is Some ==> due == due_actions(before.pending_actions@, server_tick)
    &&& after.last_processed_action_tick == if before.agent_id is Some && latest_due_tick(
        before.pending_actions@,
        server_tick,
    ) is Some {
        latest_due_tick(before.pending_actions@, server_tick)
    } else {
        before.last_processed_action_tick
    }
    &&& after.last_action_tick == before.last_action_tick
    &&& after.transport == before.transport
    &&& same_apart_from_queue(after, before)
}

impl<A, S> ClientSession<A, S> {
    /// A fresh session for `player_name`, with a new random reconnect token,
    /// nothing queued, nothing sent and zeroed counters.
    pub fn new(player_name: String) -> (res: Self)
        ensures
            res.player_name matches Some(name) && name@ == player_name@,
            res.agent_id is None,
            res.pending_actions@.len() == 0,
            crate::protocol::is_random_uuid(res.reconnect_token.0),
            res.last_action_tick is None,
            res.last_processed_action_tick is None,
            !res.debug_telemetry_enabled,
            res.debug_focus_entity is None,
            res.last_sent_snapshot is None,
            res.transport == ClientTransportCounters::spec_zero(),
    {
        ClientSession {
            player_name: Some(player_name),
            agent_id: None,
            pending_actions: Vec::new(),
            reconnect_token: ReconnectToken::new(),
            last_action_tick: None,
            last_processed_action_tick: None,
            debug_telemetry_enabled: false,
            debug_focus_entity: None,
            last_sent_snapshot: None,
            transport: ClientTransportCounters::default(),
        }
    }

    /// Offers an action batch stamped `tick` at `server_tick`. A registered
    /// client's batch inside the window and not older than its previous
    /// batch is queued as far as the queue has room (the rest is dropped);
    /// the batch tick becomes the last submitted tick, the queue peak is
    /// raised and, on overflow or pressure, a pressure incident is counted.
    /// Any other batch leaves the session as it was.
    pub fn admit_action_batch(&mut self, tick: u64, actions: Vec<A>, server_tick: u64, warn_config: usize) -> (res: ActionBatchOutcome)
        requires
            server_tick + ACTION_WINDOW_FORWARD_TICKS <= u64::MAX,
        ensures
            batch_admitted(*old(self), *final(self), tick, actions@, server_tick, warn_config, res),
    {
        if self.agent_id.is_none() {
            return ActionBatchOutcome::Unregistered;
        }
        let (min_tick, max_tick) = action_window(server_tick);
        if tick < min_tick || tick > max_tick {
            return ActionBatchOutcome::OutOfWindow { min_tick, max_tick };
        }
        if let Some(last) = self.last_action_tick {
            if tick < last {
                return ActionBatchOutcome::Stale { last_tick: last };
            }
        }
        let len = self.pending_actions.len();
        let available = ACTION_QUEUE_MAX_DEPTH.saturating_sub(len);
        let overflow = actions.len() > available;
        let ghost offered = actions@;
        let ghost before = self.pending_actions@;
        let ghost accepted = accepted_count(len as nat, offered.len());
        let mut taken: usize = 0;
        for action in it: actions.into_iter()
            invariant
                it.seq() == offered,
                taken == if it.index() <= available { it.index() as nat } else { available as nat },
                available == queue_room(len as nat),
                accepted == accepted_count(len as nat, offered.len()),
                len == before.len(),
                before == old(self).pending_actions@,
                offered == actions@,
                self.pending_actions@ == before + stamped(offered.take(taken as int), tick),
                self.transport == old(self).transport,
                self.last_action_tick == old(self).last_action_tick,
                self.last_processed_action_tick == old(self).last_processed_action_tick,
                same_apart_from_queue(*self, *old(self)),
                self.agent_id is Some,
        {
            if taken < available {
                self.pending_actions.push((tick, action));
                proof {
                    assert(offered.take(taken + 1) =~= offered.take(taken as int).push(offered[taken as int]));
                    assert(stamped(offered.take(taken + 1), tick) =~= stamped(offered.take(taken as int), tick).push(
                        (tick, offered[taken as int]),
                    ));
                    assert(action == offered[it.index() as int]);
                }
                taken = taken + 1;
            }
        }
        proof {
            assert(taken == accepted);
        }
        let depth = self.pending_actions.len();
        if depth > self.transport.peak_pending_action_queue_depth {
            self.transport.peak_pending_action_queue_depth = depth;
        }
        let queue_pressure = depth >= queue_pressure_warn_depth(warn_config);
        self.last_action_tick = Some(tick);
        if queue_pressure || overflow {
            self.transport.queue_pressure_events = self.transport.queue_pressure_events.saturating_add(1);
        }
        ActionBatchOutcome::Accepted { queue_depth: depth, overflow, queue_pressure }
    }

    /// Drains the pending queue at `server_tick`. A client without an agent
    /// just loses its queue. Otherwise the actions stamped inside the window
    /// are returned in queue order (the others are dropped) and the newest
    /// of their ticks becomes the last processed tick; with none inside the
    /// window that tick stays as it was.
    pub fn take_due_actions(&mut self, server_tick: u64) -> (due: Vec<A>)
        requires
            server_tick + ACTION_WINDOW_FORWARD_TICKS <= u64::MAX,
        ensures
            due_taken(*old(self), *final(self), server_tick, due@),
    {
        let mut pending: Vec<(u64, A)> = Vec::new();
        std::mem::swap(&mut pending, &mut self.pending_actions);
        let mut due: Vec<A> = Vec::new();
        if self.agent_id.is_none() {
            return due;
        }
        let (min_tick, max_tick) = action_window(server_tick);
        let ghost queued = pending@;
        let mut latest: Option<u64> = None;
        assert(queued.take(0) =~= Seq::<(u64, A)>::empty());
        for entry in it: pending.into_iter()
            invariant
                it.seq() == queued,
                min_tick == window_min(server_tick),
                max_tick == window_max(server_tick),
                due@ == due_actions(queued.take(it.index() as int), server_tick),
                latest == latest_due_tick(queued.take(it.index() as int), server_tick),
        {
            let ghost i = it.index() as int;
            proof {
                assert(queued.take(i + 1).drop_last() =~= queued.take(i));
                assert(queued.take(i + 1).last() == queued[i]);
                assert(entry == queued[i]);
            }
            let (tick, action) = entry;
            if tick >= min_tick && tick <= max_tick {
                due.push(action);
                latest = match latest {
                    Some(current) => if tick > current { Some(tick) } else { Some(current) },
                    None => Some(tick),
                };
            }
        }
        proof {
            assert(queued.take(queued.len() as int) =~= queued);
        }
        if latest.is_some() {
            self.last_processed_action_tick = latest;
        }
        due
    }
}

/// One entry of the session table.
pub type SessionEntry<A, S> = (ClientId, ClientSession<A, S>);

/// No client id occurs twice.
pub open spec fn ids_distinct<A, S>(entries: Seq<SessionEntry<A, S>>) -> bool {
    forall|i: int, j: int|
        0 <= i < entries.len() && 0 <= j < entries.len() && i != j ==> entries[i].0 != entries[j].0
}

/// Whether `id` has an entry.
pub open spec fn has_id<A, S>(entries: Seq<SessionEntry<A, S>>, id: ClientId) -> bool {
    exists|i: int| 0 <= i < entries.len() && entries[i].0 == id
}

/// The position of `id`'s entry (meaningful when it has one).
pub open spec fn index_of<A, S>(entries: Seq<SessionEntry<A, S>>, id: ClientId) -> int {
    choose|i: int| 0 <= i < entries.len() && entries[i].0 == id
}

/// The table as a map from client id to session.
pub open spec fn map_of<A, S>(entries: Seq<SessionEntry<A, S>>) -> Map<ClientId, ClientSession<A, S>> {
    Map::new(|id: ClientId| has_id(entries, id), |id: ClientId| entries[index_of(entries, id)].1)
}

/// With distinct ids, the entry at `i` is what the map holds for its id.
pub proof fn lemma_map_of_entry<A, S>(entries: Seq<SessionEntry<A, S>>, i: int)
    requires
        ids_distinct(entries),
        0 <= i < entries.len(),
    ensures
        map_of(entries).dom().contains(entries[i].0),
        map_of(entries)[entries[i].0] == entries[i].1,
        index_of(entries, entries[i].0) == i,
{
    assert(has_id(entries, entries[i].0));
}

/// Replacing the session at `i` (keeping its id) updates the map at that id.
pub proof fn lemma_map_of_replace<A, S>(entries: Seq<SessionEntry<A, S>>, i: int, session: ClientSession<A, S>)
    requires
        ids_distinct(entries),
        0 <= i < entries.len(),
    ensures
        ids_distinct(entries.update(i, (entries[i].0, session))),
        map_of(entries.update(i, (entries[i].0, session))) =~= map_of(entries).insert(entries[i].0, session),
{
    let updated = entries.update(i, (entries[i].0, session));
    assert forall|id: ClientId| #[trigger] has_id(updated, id) == has_id(entries, id) by {
        if has_id(entries, id) {
            let k = index_of(entries, id);
            assert(updated[k].0 == id);
        }
        if has_id(updated, id) {
            let k = index_of(updated, id);
            assert(entries[k].0 == id);
        }
    }
    assert forall|id: ClientId| #[trigger] map_of(updated).dom().contains(id) implies map_of(updated)[id]
        == map_of(entries).insert(entries[i].0, session)[id] by {
        let k = index_of(updated, id);
        if id != entries[i].0 {
            lemma_map_of_entry(entries, k);
        }
    }
}

/// Appending an entry for a new id inserts it into the map.
pub proof fn lemma_map_of_push<A, S>(entries: Seq<SessionEntry<A, S>>, id: ClientId, session: ClientSession<A, S>)
    requires
        ids_distinct(entries),
        !has_id(entries, id),
    ensures
        ids_distinct(entries.push((id, session))),
        map_of(entries.push((id, session))) =~= map_of(entries).insert(id, session),
{
    let pushed = entries.push((id, session));
    assert forall|other: ClientId| #[trigger] has_id(pushed, other) == (has_id(entries, other) || other == id) by {
        if has_id(entries, other) {
            let k = index_of(entries, other);
            assert(pushed[k].0 == other);
        }
        if other == id {
            assert(pushed[entries.len() as int].0 == id);
        }
        if has_id(pushed, other) && other != id {
            let k = index_of(pushed, other);
            assert(entries[k].0 == other);
        }
    }
    assert forall|other: ClientId| #[trigger] map_of(pushed).dom().contains(other) implies map_of(pushed)[other]
        == map_of(entries).insert(id, session)[other] by {
        let k = index_of(pushed, other);
        if other != id {
            assert(k < entries.len());
            lemma_map_of_entry(entries, k);
        }
    }
}

/// Removing the entry at `i` removes its id from the map.
pub proof fn lemma_map_of_remove<A, S>(entries: Seq<SessionEntry<A, S>>, i: int)
    requires
        ids_distinct(entries),
        0 <= i < entries.len(),
    ensures
        ids_distinct(entries.remove(i)),
        map_of(entries.remove(i)) =~= map_of(entries).remove(entries[i].0),
{
    let removed = entries.remove(i);
    let gone = entries[i].0;
    assert forall|other: ClientId| #[trigger] has_id(removed, other) == (has_id(entries, other) && other != gone) by {
        if has_id(entries, other) && other != gone {
            let k = index_of(entries, other);
            if k < i {
                assert(removed[k].0 == other);
            } else {
                assert(removed[k - 1].0 == other);
            }
        }
        if has_id(removed, other) {
            let k = index_of(removed, other);
            if k < i {
                assert(entries[k].0 == other);
            } else {
                assert(entries[k + 1].0 == other);
            }
        }
    }
    assert forall|other: ClientId| #[trigger] map_of(removed).dom().contains(other) implies map_of(removed)[other]
        == map_of(entries).remove(gone)[other] by {
        let k = index_of(removed, other);
        if k < i {
            lemma_map_of_entry(entries, k);
        } else {
            lemma_map_of_entry(entries, k + 1);
        }
    }
}

/// The actions a session hands out when its queue is drained at
/// `server_tick`: its due actions if it controls an agent, else none.
pub open spec fn session_due<A, S>(session: ClientSession<A, S>, server_tick: u64) -> Seq<A> {
    if session.agent_id is Some {
        due_actions(session.pending_actions@, server_tick)
    } else {
        Seq::empty()
    }
}

/// Each of `actions` paired with `agent`.
pub open spec fn paired<A>(agent: u64, actions: Seq<A>) -> Seq<(u64, A)> {
    Seq::new(actions.len(), |i: int| (agent, actions[i]))
}

/// The due actions of all sessions in table order, each paired with the
/// agent that submits it.
pub open spec fn all_due<A, S>(entries: Seq<SessionEntry<A, S>>, server_tick: u64) -> Seq<(u64, A)>
    decreases entries.len(),
{
    if entries.len() == 0 {
        Seq::empty()
    } else {
        let session = entries.last().1;
        all_due(entries.drop_last(), server_tick) + match session.agent_id {
            Some(agent) => paired(agent, session_due(session, server_tick)),
            None => Seq::empty(),
        }
    }
}

/// The stale clients of `entries` at `server_tick` with each one's idle
/// ticks, in table order (none when `timeout_ticks` is 0).
pub open spec fn stale_of<A, S>(entries: Seq<SessionEntry<A, S>>, server_tick: u64, timeout_ticks: u64) -> Seq<
    (ClientId, u64),
>
    decreases entries.len(),
{
    if entries.len() == 0 || timeout_ticks == 0 {
        Seq::empty()
    } else {
        let earlier = stale_of(entries.drop_last(), server_tick, timeout_ticks);
        let idle = sat_sub(server_tick, entries.last().1.transport.last_seen_tick);
        if idle > timeout_ticks {
            earlier.push((entries.last().0, idle))
        } else {
            earlier
        }
    }
}

/// `resumed` is the session of a client that took over `previous` with
/// `token`: everything the earlier connection had, but an empty queue, no
/// baseline snapshot and one more resume counted.
pub open spec fn resumed_from<A, S>(resumed: ClientSession<A, S>, previous: ClientSession<A, S>, token: ReconnectToken) -> bool {
    &&& resumed.reconnect_token == token
    &&& resumed.player_name == previous.player_name
    &&& resumed.agent_id == previous.agent_id
    &&& resumed.last_action_tick == previous.last_action_tick
    &&& resumed.last_processed_action_tick == previous.last_processed_action_tick
    &&& resumed.debug_telemetry_enabled == previous.debug_telemetry_enabled
    &&& resumed.debug_focus_entity == previous.debug_focus_entity
    &&& resumed.pending_actions@.len() == 0
    &&& resumed.last_sent_snapshot is None
    &&& resumed.transport == ClientTransportCounters {
        session_resumes: sat_add(previous.transport.session_resumes, 1),
        ..previous.transport
    }
}

/// The table `after` is `before` after a Connect from `id` with token
/// `token` and name `player_name` that took over `previous`'s session (see
/// `ClientSessions::resume`).
pub open spec fn resume_result<A, S>(
    before: Map<ClientId, ClientSession<A, S>>,
    after: Map<ClientId, ClientSession<A, S>>,
    id: ClientId,
    token: ReconnectToken,
    player_name: String,
    previous: Option<ClientId>,
) -> bool {
    &&& match previous {
        Some(p) => before.dom().contains(p) && p != id && before[p].reconnect_token == token,
        None => forall|q: ClientId| before.dom().contains(q) && q != id ==> #[trigger] before[q].reconnect_token != token,
    }
    &&& {
        let remaining = match previous {
            Some(p) => before.remove(p),
            None => before,
        };
        if before.dom().contains(id) {
            &&& after == remaining.insert(id, after[id])
            &&& match previous {
                Some(p) => resumed_from(after[id], before[p], token),
                None => after[id] == ClientSession {
                    reconnect_token: token,
                    player_name: if before[id].player_name is None {
                        Some(player_name)
                    } else {
                        before[id].player_name
                    },
                    ..before[id]
                },
            }
        } else {
            after == remaining
        }
    }
}

/// The sessions of the connected clients, keyed by client id.
pub struct ClientSessions<A, S> {
    entries: Vec<SessionEntry<A, S>>,
}

impl<A, S> ClientSessions<A, S> {
    /// The entries in table order.
    pub closed spec fn entries(self) -> Seq<SessionEntry<A, S>> {
        self.entries@
    }

    /// The table invariant: no client id occurs twice.
    pub open spec fn wf(self) -> bool {
        ids_distinct(self.entries())
    }

    /// The sessions by client id.
    pub open spec fn sessions(self) -> Map<ClientId, ClientSession<A, S>> {
        map_of(self.entries())
    }

    /// An empty table.
    pub fn new() -> (res: Self)
        ensures
            res.wf(),
            res.entries().len() == 0,
            res.sessions() =~= Map::empty(),
    {
        ClientSessions { entries: Vec::new() }
    }

    /// Number of connected clients.
    pub fn len(&self) -> (res: usize)
        requires
            self.wf(),
        ensures
            res == self.entries().len(),
            res == self.sessions().dom().len(),
    {
        proof {
            self.lemma_dom_len();
        }
        self.entries.len()
    }

    /// The map has one key per entry.
    proof fn lemma_dom_len(&self)
        requires
            self.wf(),
        ensures
            self.sessions().dom().finite(),
            self.sessions().dom().len() == self.entries().len(),
    {
        lemma_ids_dom(self.entries());
    }

    /// The position of `id` in the table, if it is there.
    fn position(&self, id: ClientId) -> (res: Option<usize>)
        requires
            self.wf(),
        ensures
            match res {
                Some(i) => i < self.entries().len() && self.entries()[i as int].0 == id,
                None => !has_id(self.entries(), id),
            },
    {
        let mut i: usize = 0;
        while i < self.entries.len()
            invariant
                i <= self.entries@.len(),
                forall|k: int| 0 <= k < i ==> self.entries@[k].0 != id,
            decreases self.entries@.len() - i,
        {
            if self.entries[i].0 == id {
                return Some(i);
            }
            i = i + 1;
        }
        None
    }

    /// The entry at position `i` of the table.
    pub fn entry_at(&self, i: usize) -> (res: &SessionEntry<A, S>)
        requires
            i < self.entries().len(),
        ensures
            *res == self.entries()[i as int],
    {
        &self.entries[i]
    }

    /// Whether `id` is connected.
    pub fn contains(&self, id: ClientId) -> (res: bool)
        requires
            self.wf(),
        ensures
            res == self.sessions().dom().contains(id),
    {
        self.position(id).is_some()
    }

    /// The session of `id`, if connected.
    pub fn get(&self, id: ClientId) -> (res: Option<&ClientSession<A, S>>)
        requires
            self.wf(),
        ensures
            match res {
                Some(session) => self.sessions().dom().contains(id) && *session == self.sessions()[id],
                None => !self.sessions().dom().contains(id),
            },
    {
        match self.position(id) {
            Some(i) => {
                proof {
                    lemma_map_of_entry(self.entries(), i as int);
                }
                Some(&self.entries[i].1)
            },
            None => None,
        }
    }

    /// Registers `session` under `id`, replacing any session it had.
    pub fn insert(&mut self, id: ClientId, session: ClientSession<A, S>)
        requires
            old(self).wf(),
        ensures
            final(self).wf(),
            final(self).sessions() == old(self).sessions().insert(id, session),
    {
        match self.position(id) {
            Some(i) => {
                proof {
                    lemma_map_of_replace(self.entries(), i as int, session);
                }
                let _ = self.entries.remove(i);
                self.entries.insert(i, (id, session));
                proof {
                    assert(self.entries@ =~= old(self).entries@.update(i as int, (id, session)));
                }
            },
            None => {
                proof {
                    lemma_map_of_push(self.entries(), id, session);
                }
                self.entries.push((id, session));
            },
        }
    }

    /// Disconnects `id`, handing back its session if it had one.
    pub fn remove(&mut self, id: ClientId) -> (res: Option<ClientSession<A, S>>)
        requires
            old(self).wf(),
        ensures
            final(self).wf(),
            final(self).sessions() == old(self).sessions().remove(id),
            match res {
                Some(session) => old(self).sessions().dom().contains(id) && session == old(self).sessions()[id],
                None => !old(self).sessions().dom().contains(id),
            },
    {
        match self.position(id) {
            Some(i) => {
                proof {
                    lemma_map_of_remove(self.entries(), i as int);
                    lemma_map_of_entry(self.entries(), i as int);
                }
                let (_, session) = self.entries.remove(i);
                Some(session)
            },
            None => {
                proof {
                    assert(map_of(self.entries()).remove(id) =~= map_of(self.entries()));
                }
                None
            },
        }
    }

    /// Counts an inbound message of `kind` and `encoded_len` bytes from `id` at
    /// `tick`.
    /// Returns whether `id` is connected; an unknown id changes nothing.
    pub fn record_inbound(&mut self, id: ClientId, kind: InboundKind, encoded_len: u64, tick: u64) -> (found: bool)
        requires
            old(self).wf(),
        ensures
            final(self).wf(),
            found == old(self).sessions().dom().contains(id),
            found ==> final(self).sessions() == old(self).sessions().insert(id, ClientSession { transport: old(self).sessions()[id].transport.spec_after_inbound(kind, encoded_len, tick), ..old(self).sessions()[id] }),
            !found ==> final(self).sessions() == old(self).sessions(),
    {
        match self.position(id) {
            Some(i) => {
                proof {
                    lemma_map_of_entry(self.entries(), i as int);
                }
                let ghost before = self.entries();
                let (cid, mut session) = self.entries.remove(i);
                session.transport.record_inbound(kind, encoded_len, tick);
                proof {
                    lemma_map_of_replace(before, i as int, session);
                }
                self.entries.insert(i, (cid, session));
                proof {
                    assert(self.entries@ =~= before.update(i as int, (id, session)));
                }
                true
            },
            None => false,
        }
    }

    /// Counts an outbound message of `kind` and `encoded_size` bytes handed to
    /// `id`'s channel at `tick`.
    /// Returns whether `id` is connected; an unknown id changes nothing.
    pub fn record_outbound(&mut self, id: ClientId, kind: OutboundKind, encoded_size: u64, tick: u64) -> (found: bool)
        requires
            old(self).wf(),
        ensures
            final(self).wf(),
            found == old(self).sessions().dom().contains(id),
            found ==> final(self).sessions() == old(self).sessions().insert(id, ClientSession { transport: old(self).sessions()[id].transport.spec_after_outbound(kind, encoded_size, tick), ..old(self).sessions()[id] }),
            !found ==> final(self).sessions() == old(self).sessions(),
    {
        match self.position(id) {
            Some(i) => {
                proof {
                    lemma_map_of_entry(self.entries(), i as int);
                }
                let ghost before = self.entries();
                let (cid, mut session) = self.entries.remove(i);
                session.transport.record_outbound(kind, encoded_size, tick);
                proof {
                    lemma_map_of_replace(before, i as int, session);
                }
                self.entries.insert(i, (cid, session));
                proof {
                    assert(self.entries@ =~= before.update(i as int, (id, session)));
                }
                true
            },
            None => false,
        }
    }

    /// Counts whether a recovery snapshot of `encoded_size` bytes reached `id`.
    /// Returns whether `id` is connected; an unknown id changes nothing.
    pub fn record_recovery_delivery(&mut self, id: ClientId, sent: bool, encoded_size: u64) -> (found: bool)
        requires
            old(self).wf(),
        ensures
            final(self).wf(),
            found == old(self).sessions().dom().contains(id),
            found ==> final(self).sessions() == old(self).sessions().insert(id, ClientSession { transport: old(self).sessions()[id].transport.spec_after_recovery(sent, encoded_size), ..old(self).sessions()[id] }),
            !found ==> final(self).sessions() == old(self).sessions(),
    {
        match self.position(id) {
            Some(i) => {
                proof {
                    lemma_map_of_entry(self.entries(), i as int);
                }
                let ghost before = self.entries();
                let (cid, mut session) = self.entries.remove(i);
                session.transport.record_recovery_delivery(sent, encoded_size);
                proof {
                    lemma_map_of_replace(before, i as int, session);
                }
                self.entries.insert(i, (cid, session));
                proof {
                    assert(self.entries@ =~= before.update(i as int, (id, session)));
                }
                true
            },
            None => false,
        }
    }

    /// Turns debug telemetry for `id` on or off.
    /// Returns whether `id` is connected; an unknown id changes nothing.
    pub fn set_debug_telemetry(&mut self, id: ClientId, enabled: bool) -> (found: bool)
        requires
            old(self).wf(),
        ensures
            final(self).wf(),
            found == old(self).sessions().dom().contains(id),
            found ==> final(self).sessions() == old(self).sessions().insert(id, ClientSession { debug_telemetry_enabled: enabled, ..old(self).sessions()[id] }),
            !found ==> final(self).sessions() == old(self).sessions(),
    {
        match self.position(id) {
            Some(i) => {
                proof {
                    lemma_map_of_entry(self.entries(), i as int);
                }
                let ghost before = self.entries();
                let (cid, mut session) = self.entries.remove(i);
                session.debug_telemetry_enabled = enabled;
                proof {
                    lemma_map_of_replace(before, i as int, session);
                }
                self.entries.insert(i, (cid, session));
                proof {
                    assert(self.entries@ =~= before.update(i as int, (id, session)));
                }
                true
            },
            None => false,
        }
    }

    /// Sets (or clears) the entity `id` wants debug detail for.
    /// Returns whether `id` is connected; an unknown id changes nothing.
    pub fn set_debug_focus(&mut self, id: ClientId, entity_id: Option<u64>) -> (found: bool)
        requires
            old(self).wf(),
        ensures
            final(self).wf(),
            found == old(self).sessions().dom().contains(id),
            found ==> final(self).sessions() == old(self).sessions().insert(id, ClientSession { debug_focus_entity: entity_id, ..old(self).sessions()[id] }),
            !found ==> final(self).sessions() == old(self).sessions(),
    {
        match self.position(id) {
            Some(i) => {
                proof {
                    lemma_map_of_entry(self.entries(), i as int);
                }
                let ghost before = self.entries();
                let (cid, mut session) = self.entries.remove(i);
                session.debug_focus_entity = entity_id;
                proof {
                    lemma_map_of_replace(before, i as int, session);
                }
                self.entries.insert(i, (cid, session));
                proof {
                    assert(self.entries@ =~= before.update(i as int, (id, session)));
                }
                true
            },
            None => false,
        }
    }

    /// Records `snapshot` as the baseline last delivered to `id`.
    /// Returns whether `id` is connected; an unknown id changes nothing.
    pub fn set_last_sent_snapshot(&mut self, id: ClientId, snapshot: S) -> (found: bool)
        requires
            old(self).wf(),
        ensures
            final(self).wf(),
            found == old(self).sessions().dom().contains(id),
            found ==> final(self).sessions() == old(self).sessions().insert(id, ClientSession { last_sent_snapshot: Some(snapshot), ..old(self).sessions()[id] }),
            !found ==> final(self).sessions() == old(self).sessions(),
    {
        match self.position(id) {
            Some(i) => {
                proof {
                    lemma_map_of_entry(self.entries(), i as int);
                }
                let ghost before = self.entries();
                let (cid, mut session) = self.entries.remove(i);
                session.last_sent_snapshot = Some(snapshot);
                proof {
                    lemma_map_of_replace(before, i as int, session);
                }
                self.entries.insert(i, (cid, session));
                proof {
                    assert(self.entries@ =~= before.update(i as int, (id, session)));
                }
                true
            },
            None => false,
        }
    }

    /// Records a delivered welcome: `snapshot` becomes the baseline and, if the
    /// client had no debug focus, it focuses `controlled_entity`.
    /// Returns whether `id` is connected; an unknown id changes nothing.
    pub fn record_welcome(&mut self, id: ClientId, snapshot: S, controlled_entity: Option<u64>) -> (found: bool)
        requires
            old(self).wf(),
        ensures
            final(self).wf(),
            found == old(self).sessions().dom().contains(id),
            found ==> final(self).sessions() == old(self).sessions().insert(id, ClientSession { last_sent_snapshot: Some(snapshot), debug_focus_entity: if old(self).sessions()[id].debug_focus_entity is None { controlled_entity } else { old(self).sessions()[id].debug_focus_entity }, ..old(self).sessions()[id] }),
            !found ==> final(self).sessions() == old(self).sessions(),
    {
        match self.position(id) {
            Some(i) => {
                proof {
                    lemma_map_of_entry(self.entries(), i as int);
                }
                let ghost before = self.entries();
                let (cid, mut session) = self.entries.remove(i);
                if session.debug_focus_entity.is_none() {
                    session.debug_focus_entity = controlled_entity;
                }
                session.last_sent_snapshot = Some(snapshot);
                proof {
                    lemma_map_of_replace(before, i as int, session);
                }
                self.entries.insert(i, (cid, session));
                proof {
                    assert(self.entries@ =~= before.update(i as int, (id, session)));
                }
                true
            },
            None => false,
        }
    }

    /// Binds `id` to the agent `agent_id` spawned for `player_name`, which
    /// controls `controlled_entity`: the client may now submit actions, starts a
    /// fresh submission order and focuses its own entity.
    /// Returns whether `id` is connected; an unknown id changes nothing.
    pub fn attach_agent(&mut self, id: ClientId, player_name: String, agent_id: u64, controlled_entity: u64) -> (found: bool)
        requires
            old(self).wf(),
        ensures
            final(self).wf(),
            found == old(self).sessions().dom().contains(id),
            found ==> final(self).sessions() == old(self).sessions().insert(id, ClientSession { player_name: Some(player_name), agent_id: Some(agent_id), last_action_tick: None, debug_focus_entity: Some(controlled_entity), ..old(self).sessions()[id] }),
            !found ==> final(self).sessions() == old(self).sessions(),
    {
        match self.position(id) {
            Some(i) => {
                proof {
                    lemma_map_of_entry(self.entries(), i as int);
                }
                let ghost before = self.entries();
                let (cid, mut session) = self.entries.remove(i);
                session.player_name = Some(player_name);
                session.agent_id = Some(agent_id);
                session.last_action_tick = None;
                session.debug_focus_entity = Some(controlled_entity);
                proof {
                    lemma_map_of_replace(before, i as int, session);
                }
                self.entries.insert(i, (cid, session));
                proof {
                    assert(self.entries@ =~= before.update(i as int, (id, session)));
                }
                true
            },
            None => false,
        }
    }

    /// Offers an action batch from `id` (see
    /// [`ClientSession::admit_action_batch`]). `None` when `id` is not
    /// connected, which changes nothing.
    pub fn admit_action_batch(
        &mut self,
        id: ClientId,
        tick: u64,
        actions: Vec<A>,
        server_tick: u64,
        warn_config: usize,
    ) -> (res: Option<ActionBatchOutcome>)
        requires
            old(self).wf(),
            server_tick + ACTION_WINDOW_FORWARD_TICKS <= u64::MAX,
        ensures
            final(self).wf(),
            res is Some == old(self).sessions().dom().contains(id),
            res is None ==> final(self).sessions() == old(self).sessions(),
            res matches Some(outcome) ==> {
                &&& final(self).sessions() == old(self).sessions().insert(id, final(self).sessions()[id])
                &&& batch_admitted(
                    old(self).sessions()[id],
                    final(self).sessions()[id],
                    tick,
                    actions@,
                    server_tick,
                    warn_config,
                    outcome,
                )
            },
    {
        match self.position(id) {
            Some(i) => {
                proof {
                    lemma_map_of_entry(self.entries(), i as int);
                }
                let ghost before = self.entries();
                let (cid, mut session) = self.entries.remove(i);
                let outcome = session.admit_action_batch(tick, actions, server_tick, warn_config);
                proof {
                    lemma_map_of_replace(before, i as int, session);
                }
                self.entries.insert(i, (cid, session));
                proof {
                    assert(self.entries@ =~= before.update(i as int, (id, session)));
                }
                Some(outcome)
            },
            None => None,
        }
    }

    /// Handles a Connect from `id` carrying reconnect token `token`. If
    /// another connected client holds that token, its session is taken over:
    /// it leaves the table and `id`'s session inherits its player, agent,
    /// submission and processing ticks, debug settings and counters (one more
    /// resume counted), with an empty queue and no baseline snapshot. Without
    /// such a client, `id` only adopts the token (and `player_name` if it had
    /// no name). Returns the client whose session was taken over.
    pub fn resume(&mut self, id: ClientId, token: ReconnectToken, player_name: String) -> (previous: Option<ClientId>)
        requires
            old(self).wf(),
        ensures
            final(self).wf(),
            resume_result(old(self).sessions(), final(self).sessions(), id, token, player_name, previous),
    {
        let ghost original = self.entries();
        let mut holder: Option<usize> = None;
        let mut i: usize = 0;
        while i < self.entries.len()
            invariant_except_break
                holder is None,
            invariant
                i <= self.entries@.len(),
                self.entries@ == original,
                forall|k: int| 0 <= k < i ==> !(self.entries@[k].0 != id && #[trigger] self.entries@[k].1.reconnect_token == token),
            ensures
                match holder {
                    Some(h) => h < original.len() && original[h as int].0 != id && original[h as int].1.reconnect_token == token,
                    None => forall|k: int| 0 <= k < original.len() ==> !(original[k].0 != id && #[trigger] original[k].1.reconnect_token == token),
                },
            decreases self.entries@.len() - i,
        {
            if self.entries[i].0 != id && self.entries[i].1.reconnect_token == token {
                holder = Some(i);
                break;
            }
            i = i + 1;
        }
        proof {
            match holder {
                Some(h) => {
                    lemma_map_of_entry(original, h as int);
                },
                None => {
                    assert forall|q: ClientId|
                        map_of(original).dom().contains(q) && q != id implies #[trigger] map_of(original)[q].reconnect_token
                        != token by {
                        let k = index_of(original, q);
                        lemma_map_of_entry(original, k);
                    }
                },
            }
        }
        let mut previous_session: Option<ClientSession<A, S>> = None;
        let mut previous: Option<ClientId> = None;
        if let Some(h) = holder {
            proof {
                lemma_map_of_remove(original, h as int);
            }
            let (pid, prev) = self.entries.remove(h);
            previous = Some(pid);
            previous_session = Some(prev);
        }
        let ghost remaining = self.entries();
        proof {
            if holder is Some {
                assert(map_of(remaining) == map_of(original).remove(previous->0));
            }
            assert(map_of(original).dom().contains(id) == map_of(remaining).dom().contains(id));
        }
        match self.position(id) {
            Some(k) => {
                proof {
                    lemma_map_of_entry(remaining, k as int);
                }
                let (cid, mut session) = self.entries.remove(k);
                let ghost current = session;
                session.reconnect_token = token;
                match previous_session {
                    Some(prev) => {
                        session.player_name = prev.player_name;
                        session.agent_id = prev.agent_id;
                        session.last_action_tick = prev.last_action_tick;
                        session.last_processed_action_tick = prev.last_processed_action_tick;
                        session.debug_telemetry_enabled = prev.debug_telemetry_enabled;
                        session.debug_focus_entity = prev.debug_focus_entity;
                        session.pending_actions.clear();
                        session.last_sent_snapshot = None;
                        session.transport = prev.transport;
                        session.transport.session_resumes = session.transport.session_resumes.saturating_add(1);
                    },
                    None => {
                        if session.player_name.is_none() {
                            session.player_name = Some(player_name);
                        }
                    },
                }
                proof {
                    lemma_map_of_replace(remaining, k as int, session);
                }
                self.entries.insert(k, (cid, session));
                proof {
                    assert(self.entries@ =~= remaining.update(k as int, (id, session)));
                }
            },
            None => {},
        }
        previous
    }

    /// Opens a pending session for a freshly accepted connection `id`, seen
    /// at `tick`, under the placeholder name "pending" and with a new random
    /// reconnect token (replacing any session `id` had).
    pub fn register_pending(&mut self, id: ClientId, tick: u64)
        requires
            old(self).wf(),
        ensures
            final(self).wf(),
            final(self).sessions() == old(self).sessions().insert(id, final(self).sessions()[id]),
            ({
                let session = final(self).sessions()[id];
                &&& session.player_name matches Some(name) && name@ == "pending"@
                &&& session.agent_id is None
                &&& session.pending_actions@.len() == 0
                &&& crate::protocol::is_random_uuid(session.reconnect_token.0)
                &&& session.last_action_tick is None
                &&& session.last_processed_action_tick is None
                &&& !session.debug_telemetry_enabled
                &&& session.debug_focus_entity is None
                &&& session.last_sent_snapshot is None
                &&& session.transport == ClientTransportCounters { last_seen_tick: tick, ..ClientTransportCounters::spec_zero() }
            }),
    {
        let mut session = ClientSession::new(String::from_str("pending"));
        session.transport.last_seen_tick = tick;
        self.insert(id, session);
        proof {
            assert(final(self).sessions().dom().contains(id));
        }
    }

    /// Drains every client's pending queue at `server_tick` (see
    /// [`ClientSession::take_due_actions`]) and returns the due actions of
    /// all clients, each paired with the agent that submits it, in table
    /// order. Ids and table order stay as they were.
    pub fn take_due_actions(&mut self, server_tick: u64) -> (due: Vec<(u64, A)>)
        requires
            old(self).wf(),
            server_tick + ACTION_WINDOW_FORWARD_TICKS <= u64::MAX,
        ensures
            final(self).wf(),
            final(self).entries().len() == old(self).entries().len(),
            forall|i: int|
                0 <= i < old(self).entries().len() ==> {
                    &&& #[trigger] final(self).entries()[i].0 == old(self).entries()[i].0
                    &&& due_taken(
                        old(self).entries()[i].1,
                        final(self).entries()[i].1,
                        server_tick,
                        session_due(old(self).entries()[i].1, server_tick),
                    )
                },
            due@ == all_due(old(self).entries(), server_tick),
    {
        let ghost original = self.entries();
        let mut due: Vec<(u64, A)> = Vec::new();
        let mut i: usize = 0;
        while i < self.entries.len()
            invariant
                i <= self.entries@.len(),
                self.entries@.len() == original.len(),
                server_tick + ACTION_WINDOW_FORWARD_TICKS <= u64::MAX,
                forall|k: int| 0 <= k < original.len() ==> #[trigger] self.entries@[k].0 == original[k].0,
                forall|k: int|
                    0 <= k < i ==> due_taken(
                        original[k].1,
                        #[trigger] self.entries@[k].1,
                        server_tick,
                        session_due(original[k].1, server_tick),
                    ),
                forall|k: int| i <= k < original.len() ==> #[trigger] self.entries@[k] == original[k],
                due@ == all_due(original.take(i as int), server_tick),
            decreases original.len() - i,
        {
            let ghost before = self.entries@;
            let (cid, mut session) = self.entries.remove(i);
            let ghost prior = session;
            let agent = session.agent_id;
            let actions = session.take_due_actions(server_tick);
            self.entries.insert(i, (cid, session));
            proof {
                assert(self.entries@ =~= before.update(i as int, (cid, session)));
                assert(prior == original[i as int].1);
                assert(original.take(i + 1).drop_last() =~= original.take(i as int));
            }
            match agent {
                Some(agent_id) => {
                    let ghost start = due@;
                    let ghost handed = actions@;
                    for action in it: actions.into_iter()
                        invariant
                            it.seq() == handed,
                            due@ == start + paired(agent_id, handed.take(it.index() as int)),
                    {
                        let ghost k = it.index() as int;
                        due.push((agent_id, action));
                        proof {
                            assert(handed.take(k + 1) =~= handed.take(k).push(action));
                            assert(paired(agent_id, handed.take(k + 1)) =~= paired(agent_id, handed.take(k)).push(
                                (agent_id, action),
                            ));
                        }
                    }
                    proof {
                        assert(handed.take(handed.len() as int) =~= handed);
                    }
                },
                None => {},
            }
            proof {
                assert(due@ == all_due(original.take(i + 1), server_tick));
            }
            i = i + 1;
        }
        proof {
            assert(original.take(original.len() as int) =~= original);
            assert forall|a: int, b: int|
                0 <= a < self.entries@.len() && 0 <= b < self.entries@.len() && a != b implies self.entries@[a].0
                != self.entries@[b].0 by {
                assert(self.entries@[a].0 == original[a].0);
                assert(self.entries@[b].0 == original[b].0);
            }
        }
        due
    }

    /// The clients whose last inbound activity lies more than `timeout_ticks`
    /// before `server_tick`, each with the ticks since it was last seen, in
    /// table order. A timeout of 0 disables the check.
    pub fn stale_clients(&self, server_tick: u64, timeout_ticks: u64) -> (res: Vec<(ClientId, u64)>)
        requires
            self.wf(),
        ensures
            res@ == stale_of(self.entries(), server_tick, timeout_ticks),
    {
        let mut stale: Vec<(ClientId, u64)> = Vec::new();
        if timeout_ticks == 0 {
            return stale;
        }
        let mut i: usize = 0;
        while i < self.entries.len()
            invariant
                i <= self.entries@.len(),
                timeout_ticks != 0,
                stale@ == stale_of(self.entries@.take(i as int), server_tick, timeout_ticks),
            decreases self.entries@.len() - i,
        {
            let idle = server_tick.saturating_sub(self.entries[i].1.transport.last_seen_tick);
            proof {
                assert(self.entries@.take(i + 1).drop_last() =~= self.entries@.take(i as int));
            }
            if idle > timeout_ticks {
                stale.push((self.entries[i].0, idle));
            }
            i = i + 1;
        }
        proof {
            assert(self.entries@.take(i as int) =~= self.entries@);
        }
        stale
    }

    /// The connected client ids, in table order.
    pub fn client_ids(&self) -> (res: Vec<ClientId>)
        requires
            self.wf(),
        ensures
            res@ == self.entries().map_values(|entry: SessionEntry<A, S>| entry.0),
    {
        let mut ids: Vec<ClientId> = Vec::new();
        let mut i: usize = 0;
        while i < self.entries.len()
            invariant
                i <= self.entries@.len(),
                ids@ == self.entries@.take(i as int).map_values(|entry: SessionEntry<A, S>| entry.0),
            decreases self.entries@.len() - i,
        {
            ids.push(self.entries[i].0);
            proof {
                assert(self.entries@.take(i + 1).map_values(|entry: SessionEntry<A, S>| entry.0)
                    =~= self.entries@.take(i as int).map_values(|entry: SessionEntry<A, S>| entry.0).push(
                    self.entries@[i as int].0,
                ));
            }
            i = i + 1;
        }
        proof {
            assert(self.entries@.take(i as int) =~= self.entries@);
        }
        ids
    }
}

/// With distinct ids the map has exactly one key per entry.
proof fn lemma_ids_dom<A, S>(entries: Seq<SessionEntry<A, S>>)
    requires
        ids_distinct(entries),
    ensures
        map_of(entries).dom().finite(),
        map_of(entries).dom().len() == entries.len(),
    decreases entries.len(),
{
    if entries.len() == 0 {
        assert(map_of(entries).dom() =~= Set::empty());
    } else {
        let prefix = entries.drop_last();
        let last = entries.last();
        assert(ids_distinct(prefix));
        lemma_ids_dom(prefix);
        assert(!has_id(prefix, last.0)) by {
            if has_id(prefix, last.0) {
                let k = index_of(prefix, last.0);
                assert(entries[k].0 == entries[entries.len() - 1].0);
            }
        }
        lemma_map_of_push(prefix, last.0, last.1);
        assert(prefix.push(last) =~= entries);
    }
}

/// The due actions of two queued runs are those of the first followed by
/// those of the second.
pub proof fn lemma_due_actions_append<A>(first: Seq<(u64, A)>, second: Seq<(u64, A)>, server_tick: u64)
    ensures
        due_actions(first + second, server_tick) == due_actions(first, server_tick) + due_actions(second, server_tick),
    decreases second.len(),
{
    if second.len() == 0 {
        assert(first + second =~= first);
        assert(due_actions(first, server_tick) + Seq::<A>::empty() =~= due_actions(first, server_tick));
    } else {
        lemma_due_actions_append(first, second.drop_last(), server_tick);
        assert((first + second).drop_last() =~= first + second.drop_last());
        assert((first + second).last() == second.last());
        if in_action_window(second.last().0, server_tick) {
            assert(due_actions(first, server_tick) + due_actions(second.drop_last(), server_tick).push(second.last().1)
                =~= (due_actions(first, server_tick) + due_actions(second.drop_last(), server_tick)).push(
                second.last().1,
            ));
        }
    }
}

/// Actions stamped with one tick are all due, in order, when that tick is
/// inside the window, and none is due otherwise.
pub proof fn lemma_due_stamped<A>(actions: Seq<A>, tick: u64, server_tick: u64)
    ensures
        due_actions(stamped(actions, tick), server_tick) == if in_action_window(tick, server_tick) {
            actions
        } else {
            Seq::empty()
        },
    decreases actions.len(),
{
    if actions.len() > 0 {
        lemma_due_stamped(actions.drop_last(), tick, server_tick);
        assert(stamped(actions, tick).drop_last() =~= stamped(actions.drop_last(), tick));
        if in_action_window(tick, server_tick) {
            assert(actions.drop_last().push(actions.last()) =~= actions);
        }
    } else {
        assert(stamped(actions, tick) =~= Seq::<(u64, A)>::empty());
    }
}

/// What a read gives back of a write: the actions of a batch accepted in
/// full are handed out, after what was queued before and in the order
/// submitted, by the next drain at any server tick whose window holds the
/// batch tick.
pub proof fn lemma_accepted_actions_become_due<A, S>(
    before: ClientSession<A, S>,
    after: ClientSession<A, S>,
    tick: u64,
    offered: Seq<A>,
    admit_tick: u64,
    warn_config: usize,
    queue_depth: usize,
    queue_pressure: bool,
    drain_tick: u64,
)
    requires
        batch_admitted(
            before,
            after,
            tick,
            offered,
            admit_tick,
            warn_config,
            ActionBatchOutcome::Accepted { queue_depth, overflow: false, queue_pressure },
        ),
        in_action_window(tick, drain_tick),
    ensures
        session_due(after, drain_tick) == session_due(before, drain_tick) + offered,
{
    assert(offered.take(offered.len() as int) =~= offered);
    lemma_due_actions_append(before.pending_actions@, stamped(offered, tick), drain_tick);
    lemma_due_stamped(offered, tick, drain_tick);
}

/// The pending queue never holds more than `ACTION_QUEUE_MAX_DEPTH`
/// actions: admission preserves the bound, and the reported depth is the
/// new queue length.
pub proof fn lemma_queue_stays_bounded<A, S>(
    before: ClientSession<A, S>,
    after: ClientSession<A, S>,
    tick: u64,
    offered: Seq<A>,
    server_tick: u64,
    warn_config: usize,
    outcome: ActionBatchOutcome,
)
    requires
        batch_admitted(before, after, tick, offered, server_tick, warn_config, outcome),
        before.pending_actions@.len() <= ACTION_QUEUE_MAX_DEPTH,
    ensures
        after.pending_actions@.len() <= ACTION_QUEUE_MAX_DEPTH,
        outcome matches ActionBatchOutcome::Accepted { queue_depth, .. } ==> queue_depth
            == after.pending_actions@.len(),
{
}

/// Submission order is enforced: once a batch at `tick` was accepted, a
/// later batch stamped before it is refused as stale when it is inside
/// the window (and as out of window otherwise).
pub proof fn lemma_older_batch_refused<A, S>(
    before: ClientSession<A, S>,
    after: ClientSession<A, S>,
    tick: u64,
    offered: Seq<A>,
    server_tick: u64,
    warn_config: usize,
    outcome: ActionBatchOutcome,
    older_tick: u64,
    count: nat,
    later_server_tick: u64,
)
    requires
        batch_admitted(before, after, tick, offered, server_tick, warn_config, outcome),
        outcome is Accepted,
        older_tick < tick,
    ensures
        in_action_window(older_tick, later_server_tick) ==> spec_batch_outcome(
            after,
            older_tick,
            count,
            later_server_tick,
            warn_config,
        ) == (ActionBatchOutcome::Stale { last_tick: tick }),
        !in_action_window(older_tick, later_server_tick) ==> spec_batch_outcome(
            after,
            older_tick,
            count,
            later_server_tick,
            warn_config,
        ) is OutOfWindow,
{
}

/// A client seen at the current tick is never stale, and a timeout of 0
/// never reports anyone.
pub proof fn lemma_stale_clients<A, S>(entries: Seq<SessionEntry<A, S>>, server_tick: u64, timeout_ticks: u64)
    ensures
        timeout_ticks == 0 ==> stale_of(entries, server_tick, timeout_ticks).len() == 0,
        forall|k: int|
            0 <= k < stale_of(entries, server_tick, timeout_ticks).len() ==> #[trigger] stale_of(
                entries,
                server_tick,
                timeout_ticks,
            )[k].1 > timeout_ticks,
    decreases entries.len(),
{
    if entries.len() > 0 && timeout_ticks > 0 {
        lemma_stale_clients(entries.drop_last(), server_tick, timeout_ticks);
        let earlier = stale_of(entries.drop_last(), server_tick, timeout_ticks);
        let all = stale_of(entries, server_tick, timeout_ticks);
        assert forall|k: int| 0 <= k < all.len() implies #[trigger] all[k].1 > timeout_ticks by {
            if k < earlier.len() {
                assert(all[k] == earlier[k]);
            }
        }
    }
}

/// Every client `stale_of` reports is in the table, reported once, with
/// the ticks since the table last saw it.
pub proof fn lemma_stale_of_members<A, S>(entries: Seq<SessionEntry<A, S>>, server_tick: u64, timeout_ticks: u64)
    requires
        ids_distinct(entries),
    ensures
        forall|k: int|
            0 <= k < stale_of(entries, server_tick, timeout_ticks).len() ==> {
                let (id, idle) = #[trigger] stale_of(entries, server_tick, timeout_ticks)[k];
                &&& map_of(entries).dom().contains(id)
                &&& idle == sat_sub(server_tick, map_of(entries)[id].transport.last_seen_tick)
            },
        forall|k: int, l: int|
            0 <= k < l < stale_of(entries, server_tick, timeout_ticks).len() ==> #[trigger] stale_of(
                entries,
                server_tick,
                timeout_ticks,
            )[k].0 != #[trigger] stale_of(entries, server_tick, timeout_ticks)[l].0,
        forall|id: ClientId|
            #[trigger] map_of(entries).dom().contains(id) && timeout_ticks > 0 && sat_sub(
                server_tick,
                map_of(entries)[id].transport.last_seen_tick,
            ) > timeout_ticks ==> exists|k: int|
                0 <= k < stale_of(entries, server_tick, timeout_ticks).len() && #[trigger] stale_of(
                    entries,
                    server_tick,
                    timeout_ticks,
                )[k].0 == id,
    decreases entries.len(),
{
    if entries.len() > 0 && timeout_ticks > 0 {
        let front = entries.drop_last();
        let last = entries.last();
        assert(ids_distinct(front));
        assert(!has_id(front, last.0)) by {
            if has_id(front, last.0) {
                let k = index_of(front, last.0);
                assert(entries[k].0 == entries[entries.len() - 1].0);
            }
        }
        assert(entries =~= front.push(last));
        lemma_map_of_push(front, last.0, last.1);
        lemma_stale_of_members(front, server_tick, timeout_ticks);
        let earlier = stale_of(front, server_tick, timeout_ticks);
        let all = stale_of(entries, server_tick, timeout_ticks);
        assert forall|k: int| 0 <= k < earlier.len() implies map_of(front).dom().contains(#[trigger] earlier[k].0)
            && earlier[k].0 != last.0 by {
            let (id, idle) = earlier[k];
            assert(map_of(front).dom().contains(id));
        }
        assert forall|k: int| 0 <= k < all.len() implies {
            let (id, idle) = #[trigger] all[k];
            &&& map_of(entries).dom().contains(id)
            &&& idle == sat_sub(server_tick, map_of(entries)[id].transport.last_seen_tick)
        } by {
            if k < earlier.len() {
                assert(all[k] == earlier[k]);
                assert(map_of(front).dom().contains(earlier[k].0));
            }
        }
        assert forall|k: int, l: int| 0 <= k < l < all.len() implies #[trigger] all[k].0 != #[trigger] all[l].0 by {
            assert(all[k] == earlier[k]);
            if l < earlier.len() {
                assert(all[l] == earlier[l]);
            } else {
                assert(map_of(front).dom().contains(earlier[k].0));
            }
        }
        assert forall|id: ClientId|
            #[trigger] map_of(entries).dom().contains(id) && sat_sub(
                server_tick,
                map_of(entries)[id].transport.last_seen_tick,
            ) > timeout_ticks implies exists|k: int| 0 <= k < all.len() && #[trigger] all[k].0 == id by {
            if id == last.0 {
                assert(all[all.len() - 1].0 == id);
            } else {
                assert(map_of(front).dom().contains(id));
                let k = choose|k: int| 0 <= k < earlier.len() && #[trigger] earlier[k].0 == id;
                assert(all[k] == earlier[k]);
            }
        }
    }
}

/// A batch goes without a rejection exactly when it was accepted in full:
/// a missing Connect, a tick out of window, a stale tick and a full queue
/// each send a reason back.
pub proof fn lemma_rejection_iff_refused(outcome: ActionBatchOutcome, tick: u64)
    ensures
        outcome.spec_rejection_text(tick) is None <==> (outcome matches ActionBatchOutcome::Accepted { overflow, .. }
            && !overflow),
{
}

} // verus!
