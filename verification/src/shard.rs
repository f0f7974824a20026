//! The shard's state around its session table: the tick, the snapshot
//! baseline, what a tick collected for the broadcast and the shard-wide
//! counters, with the steps of the server loop that change them. The host
//! performs the network sends and world changes a step asks for and reports
//! back what happened.

use vstd::prelude::*;
use crate::inbound::{handle_inbound_message, inbound_handled, InboundEffect, InboundMessage};
use crate::protocol::{ClientId, ReconnectToken};
use crate::session::{
    lemma_stale_clients, lemma_stale_of_members, resume_result, sat_add, sat_sub, stale_of, ClientSession, ClientSessions,
    ACTION_WINDOW_FORWARD_TICKS,
};

verus! {

/// The shard: its clients' sessions (`A` the game's action type, `S` the
/// snapshot type), the authoritative tick, the last broadcast baseline,
/// the tick's pending events `E` and debug documents `D`, and the
/// shard-wide transport counters.
pub struct ShardState<A, S, E, D> {
    pub sessions: ClientSessions<A, S>,
    pub tick: u64,
    /// Tick of the last full snapshot round.
    pub last_snapshot_tick: u64,
    /// Last authoritative snapshot, the baseline for the next broadcast.
    pub last_snapshot: Option<S>,
    pub pending_events: Vec<E>,
    pub pending_debug_documents: Vec<D>,
    /// Clients disconnected for inactivity.
    pub timed_out_clients: u64,
    /// Queue-pressure incidents observed.
    pub queue_pressure_events: u64,
    /// Sessions resumed through reconnect tokens.
    pub resumed_sessions: u64,
    /// Recovery full snapshots delivered.
    pub recovery_snapshots_sent: u64,
    /// Recovery full snapshots that could not be delivered.
    pub recovery_delivery_failures: u64,
}

/// What the host does for a Connect once the session table is updated.
#[derive(Debug, Clone, PartialEq, Eq)]
pub enum ConnectAction {
    /// The client has no session: the connect fails.
    MissingSession,
    /// The client already controls `agent_id`: welcome it again with its
    /// token and the last action tick the shard processed for it.
    Rewelcome { reconnect_token: ReconnectToken, agent_id: u64, acknowledged_action_tick: Option<u64> },
    /// Spawn an agent for `player_name` and welcome the client with its token.
    SpawnAgent { reconnect_token: ReconnectToken, player_name: String },
}

/// The outcome of a Connect: the client whose session was taken over (its
/// channel is closed) and what to do next.
#[derive(Debug, Clone, PartialEq, Eq)]
pub struct ConnectPlan {
    pub previous: Option<ClientId>,
    pub action: ConnectAction,
}

/// What a Connect from `id` with `player_name` asks for, given the table
/// after any session takeover.
pub open spec fn spec_connect_action<A, S>(
    sessions: Map<ClientId, ClientSession<A, S>>,
    id: ClientId,
    player_name: String,
) -> ConnectAction {
    if !sessions.dom().contains(id) {
        ConnectAction::MissingSession
    } else {
        let session = sessions[id];
        match session.agent_id {
            Some(agent) => ConnectAction::Rewelcome {
                reconnect_token: session.reconnect_token,
                agent_id: agent,
                acknowledged_action_tick: session.last_processed_action_tick,
            },
            None => ConnectAction::SpawnAgent { reconnect_token: session.reconnect_token, player_name },
        }
    }
}

/// A client disconnected for inactivity: its id, the ticks since it was
/// last seen and the agent it controlled.
#[derive(Debug, Clone, Copy, PartialEq, Eq, Structural)]
pub struct TimedOutClient {
    pub client_id: ClientId,
    pub idle_ticks: u64,
    pub agent_id: Option<u64>,
}

/// The ids among the first `n` entries of `stale`.
pub open spec fn listed_ids(stale: Seq<(ClientId, u64)>, n: int) -> Set<ClientId> {
    Set::new(|id: ClientId| exists|k: int| 0 <= k < n && k < stale.len() && #[trigger] stale[k].0 == id)
}

/// `count` saturating increments of `value`.
pub open spec fn sat_add_times(value: u64, count: nat) -> u64 {
    if value + count > u64::MAX {
        u64::MAX
    } else {
        (value + count) as u64
    }
}

/// One client as the broadcast of a tick sees it.
#[derive(Debug, Clone, Copy, PartialEq, Eq, Structural)]
pub struct BroadcastTarget {
    pub client_id: ClientId,
    pub agent_id: Option<u64>,
    /// The last action tick the shard processed for the client.
    pub acknowledged_action_tick: Option<u64>,
    pub debug_telemetry_enabled: bool,
    pub debug_focus_entity: Option<u64>,
    /// The client has a baseline snapshot, so it can take a delta.
    pub has_baseline: bool,
}

/// The broadcast view of `session`, the session of `id`.
pub open spec fn target_of<A, S>(id: ClientId, session: ClientSession<A, S>) -> BroadcastTarget {
    BroadcastTarget {
        client_id: id,
        agent_id: session.agent_id,
        acknowledged_action_tick: session.last_processed_action_tick,
        debug_telemetry_enabled: session.debug_telemetry_enabled,
        debug_focus_entity: session.debug_focus_entity,
        has_baseline: session.last_sent_snapshot is Some,
    }
}

/// A state message for one client: entities `U` updated, entity ids
/// destroyed and the population `P`, at `tick`, acknowledging the client's
/// last processed action tick.
#[derive(Debug, Clone)]
pub struct StateUpdate<U, P> {
    pub tick: u64,
    pub acknowledged_action_tick: Option<u64>,
    pub authoritative_digest: u64,
    pub is_full_snapshot: bool,
    pub updated: Vec<U>,
    pub destroyed: Vec<u64>,
    pub population: P,
}

/// The table after each of `delivered`, in order, became its client's
/// baseline (clients no longer connected are skipped).
pub open spec fn with_baselines<A, S>(
    sessions: Map<ClientId, ClientSession<A, S>>,
    delivered: Seq<(ClientId, S)>,
) -> Map<ClientId, ClientSession<A, S>>
    decreases delivered.len(),
{
    if delivered.len() == 0 {
        sessions
    } else {
        let earlier = with_baselines(sessions, delivered.drop_last());
        let (id, snapshot) = delivered.last();
        if earlier.dom().contains(id) {
            earlier.insert(id, ClientSession { last_sent_snapshot: Some(snapshot), ..earlier[id] })
        } else {
            earlier
        }
    }
}

/// The full-snapshot state message for `target` at `tick`: every entity of
/// its filtered snapshot, nothing destroyed.
pub fn full_state_update<U, P>(
    tick: u64,
    target: &BroadcastTarget,
    authoritative_digest: u64,
    entities: Vec<U>,
    population: P,
) -> (res: StateUpdate<U, P>)
    ensures
        res.tick == tick,
        res.acknowledged_action_tick == target.acknowledged_action_tick,
        res.authoritative_digest == authoritative_digest,
        res.is_full_snapshot,
        res.updated@ == entities@,
        res.destroyed@.len() == 0,
        res.population == population,
{
    StateUpdate {
        tick,
        acknowledged_action_tick: target.acknowledged_action_tick,
        authoritative_digest,
        is_full_snapshot: true,
        updated: entities,
        destroyed: Vec::new(),
        population,
    }
}

/// The delta state message for `target` at `tick`: the diff against its
/// baseline.
pub fn delta_state_update<U, P>(
    tick: u64,
    target: &BroadcastTarget,
    authoritative_digest: u64,
    updated: Vec<U>,
    destroyed: Vec<u64>,
    population: P,
) -> (res: StateUpdate<U, P>)
    ensures
        res.tick == tick,
        res.acknowledged_action_tick == target.acknowledged_action_tick,
        res.authoritative_digest == authoritative_digest,
        !res.is_full_snapshot,
        res.updated@ == updated@,
        res.destroyed@ == destroyed@,
        res.population == population,
{
    StateUpdate {
        tick,
        acknowledged_action_tick: target.acknowledged_action_tick,
        authoritative_digest,
        is_full_snapshot: false,
        updated,
        destroyed,
        population,
    }
}

impl<A, S, E, D> ShardState<A, S, E, D> {
    /// The shard invariant: the session table is well formed.
    pub open spec fn wf(&self) -> bool {
        self.sessions.wf()
    }

    /// A fresh shard at tick 0: no client, no baseline, nothing pending and
    /// every counter at 0.
    pub fn new() -> (res: Self)
        ensures
            res.wf(),
            res.sessions.sessions() == Map::<ClientId, ClientSession<A, S>>::empty(),
            res.tick == 0,
            res.last_snapshot_tick == 0,
            res.last_snapshot is None,
            res.pending_events@.len() == 0,
            res.pending_debug_documents@.len() == 0,
            res.timed_out_clients == 0,
            res.queue_pressure_events == 0,
            res.resumed_sessions == 0,
            res.recovery_snapshots_sent == 0,
            res.recovery_delivery_failures == 0,
    {
        ShardState {
            sessions: ClientSessions::new(),
            tick: 0,
            last_snapshot_tick: 0,
            last_snapshot: None,
            pending_events: Vec::new(),
            pending_debug_documents: Vec::new(),
            timed_out_clients: 0,
            queue_pressure_events: 0,
            resumed_sessions: 0,
            recovery_snapshots_sent: 0,
            recovery_delivery_failures: 0,
        }
    }

    /// Handles one inbound message at the shard's tick (see
    /// `handle_inbound_message`); an action batch that raised queue
    /// pressure counts one shard-wide incident.
    pub fn handle_inbound(
        &mut self,
        id: ClientId,
        encoded_len: u64,
        message: InboundMessage<A>,
        warn_config: usize,
    ) -> (effect: InboundEffect)
        requires
            old(self).wf(),
            old(self).tick + ACTION_WINDOW_FORWARD_TICKS <= u64::MAX,
        ensures
            final(self).wf(),
            inbound_handled(
                old(self).sessions.sessions(),
                final(self).sessions.sessions(),
                id,
                encoded_len,
                message,
                old(self).tick,
                warn_config,
                effect,
            ),
            final(self).queue_pressure_events == if effect matches InboundEffect::ActionBatch {
                pressure_incident: true,
                ..
            } {
                sat_add(old(self).queue_pressure_events, 1)
            } else {
                old(self).queue_pressure_events
            },
            *final(self) == (ShardState {
                sessions: final(self).sessions,
                queue_pressure_events: final(self).queue_pressure_events,
                ..*old(self)
            }),
    {
        let effect = handle_inbound_message(&mut self.sessions, id, encoded_len, message, self.tick, warn_config);
        let incident = match &effect {
            InboundEffect::ActionBatch { pressure_incident, .. } => *pressure_incident,
            _ => false,
        };
        if incident {
            self.queue_pressure_events = self.queue_pressure_events.saturating_add(1);
        }
        effect
    }

    /// Handles a Connect from `id` for `player_name`. With a reconnect
    /// token, a session holding that token is taken over (see
    /// `ClientSessions::resume`) and counted as a resumed session. Then the
    /// plan says what the host does (see `spec_connect_action`).
    pub fn connect(&mut self, id: ClientId, player_name: String, reconnect_token: Option<ReconnectToken>) -> (plan:
        ConnectPlan)
        requires
            old(self).wf(),
        ensures
            final(self).wf(),
            match reconnect_token {
                None => {
                    &&& final(self).sessions.sessions() == old(self).sessions.sessions()
                    &&& plan.previous is None
                    &&& final(self).resumed_sessions == old(self).resumed_sessions
                },
                Some(token) => {
                    &&& resume_result(
                        old(self).sessions.sessions(),
                        final(self).sessions.sessions(),
                        id,
                        token,
                        player_name,
                        plan.previous,
                    )
                    &&& final(self).resumed_sessions == if plan.previous is Some {
                        sat_add(old(self).resumed_sessions, 1)
                    } else {
                        old(self).resumed_sessions
                    }
                },
            },
            plan.action == spec_connect_action(final(self).sessions.sessions(), id, player_name),
            *final(self) == (ShardState {
                sessions: final(self).sessions,
                resumed_sessions: final(self).resumed_sessions,
                ..*old(self)
            }),
    {
        let previous = match reconnect_token {
            Some(token) => {
                let taken = self.sessions.resume(id, token, player_name.clone());
                if taken.is_some() {
                    self.resumed_sessions = self.resumed_sessions.saturating_add(1);
                }
                taken
            },
            None => None,
        };
        let action = match self.sessions.get(id) {
            None => ConnectAction::MissingSession,
            Some(session) => match session.agent_id {
                Some(agent) => ConnectAction::Rewelcome {
                    reconnect_token: session.reconnect_token,
                    agent_id: agent,
                    acknowledged_action_tick: session.last_processed_action_tick,
                },
                None => ConnectAction::SpawnAgent { reconnect_token: session.reconnect_token, player_name },
            },
        };
        ConnectPlan { previous, action }
    }

    /// Disconnects every client idle for more than `timeout_ticks` at the
    /// shard's tick (see `ClientSessions::stale_clients`; a timeout of 0
    /// disables the check), counting each as timed out. Returns them in
    /// table order with the agent each controlled, for the host to remove
    /// from the world and to close their channels.
    pub fn prune_stale_clients(&mut self, timeout_ticks: u64) -> (removed: Vec<TimedOutClient>)
        requires
            old(self).wf(),
        ensures
            final(self).wf(),
            ({
                let stale = stale_of(old(self).sessions.entries(), old(self).tick, timeout_ticks);
                &&& removed@.len() == stale.len()
                &&& forall|k: int|
                    0 <= k < stale.len() ==> (#[trigger] removed@[k]).client_id == stale[k].0 && removed@[k].idle_ticks
                        == stale[k].1 && removed@[k].agent_id == old(self).sessions.sessions()[stale[k].0].agent_id
                &&& final(self).sessions.sessions() == old(self).sessions.sessions().remove_keys(
                    listed_ids(stale, stale.len() as int),
                )
                &&& final(self).timed_out_clients == sat_add_times(old(self).timed_out_clients, stale.len())
            }),
            forall|id: ClientId|
                #[trigger] final(self).sessions.sessions().dom().contains(id) ==> timeout_ticks == 0 || sat_sub(
                    old(self).tick,
                    final(self).sessions.sessions()[id].transport.last_seen_tick,
                ) <= timeout_ticks,
            forall|id: ClientId|
                #[trigger] old(self).sessions.sessions().dom().contains(id)
                    && !final(self).sessions.sessions().dom().contains(id) ==> sat_sub(
                    old(self).tick,
                    old(self).sessions.sessions()[id].transport.last_seen_tick,
                ) > timeout_ticks,
            *final(self) == (ShardState {
                sessions: final(self).sessions,
                timed_out_clients: final(self).timed_out_clients,
                ..*old(self)
            }),
    {
        let stale = self.sessions.stale_clients(self.tick, timeout_ticks);
        let ghost before = self.sessions.sessions();
        proof {
            lemma_stale_of_members(old(self).sessions.entries(), old(self).tick, timeout_ticks);
            assert(before.remove_keys(listed_ids(stale@, 0)) =~= before);
        }
        let mut removed: Vec<TimedOutClient> = Vec::new();
        let mut i: usize = 0;
        while i < stale.len()
            invariant
                i <= stale@.len(),
                self.sessions.wf(),
                stale@ == stale_of(old(self).sessions.entries(), old(self).tick, timeout_ticks),
                before == old(self).sessions.sessions(),
                forall|k: int|
                    0 <= k < stale@.len() ==> {
                        let (id, idle) = #[trigger] stale@[k];
                        before.dom().contains(id)
                    },
                forall|k: int, l: int| 0 <= k < l < stale@.len() ==> #[trigger] stale@[k].0 != #[trigger] stale@[l].0,
                self.sessions.sessions() == before.remove_keys(listed_ids(stale@, i as int)),
                self.timed_out_clients == sat_add_times(old(self).timed_out_clients, i as nat),
                removed@.len() == i,
                forall|k: int|
                    0 <= k < i ==> (#[trigger] removed@[k]).client_id == stale@[k].0 && removed@[k].idle_ticks
                        == stale@[k].1 && removed@[k].agent_id == before[stale@[k].0].agent_id,
                *self == (ShardState {
                    sessions: self.sessions,
                    timed_out_clients: self.timed_out_clients,
                    ..*old(self)
                }),
            decreases stale@.len() - i,
        {
            let (client_id, idle_ticks) = stale[i];
            proof {
                assert(before.dom().contains(stale@[i as int].0));
                assert(!listed_ids(stale@, i as int).contains(client_id)) by {
                    if listed_ids(stale@, i as int).contains(client_id) {
                        let k = choose|k: int| 0 <= k < i && k < stale@.len() && #[trigger] stale@[k].0 == client_id;
                        assert(stale@[k].0 != stale@[i as int].0);
                    }
                }
            }
            let gone = self.sessions.remove(client_id);
            let agent_id = match gone {
                Some(session) => session.agent_id,
                None => None,
            };
            self.timed_out_clients = self.timed_out_clients.saturating_add(1);
            removed.push(TimedOutClient { client_id, idle_ticks, agent_id });
            proof {
                assert(listed_ids(stale@, i + 1) =~= listed_ids(stale@, i as int).insert(client_id)) by {
                    assert forall|id: ClientId| #[trigger] listed_ids(stale@, i + 1).contains(id) == listed_ids(
                        stale@,
                        i as int,
                    ).insert(client_id).contains(id) by {
                        if id == client_id {
                            assert(stale@[i as int].0 == id);
                        }
                        if listed_ids(stale@, i + 1).contains(id) && id != client_id {
                            let k = choose|k: int| 0 <= k < i + 1 && k < stale@.len() && #[trigger] stale@[k].0 == id;
                            assert(k < i);
                        }
                    }
                }
                assert(before.remove_keys(listed_ids(stale@, i as int)).remove(client_id) =~= before.remove_keys(
                    listed_ids(stale@, i + 1),
                ));
            }
            i = i + 1;
        }
        proof {
            let all = stale_of(old(self).sessions.entries(), old(self).tick, timeout_ticks);
            lemma_stale_clients(old(self).sessions.entries(), old(self).tick, timeout_ticks);
            assert forall|id: ClientId| #[trigger] self.sessions.sessions().dom().contains(id) implies timeout_ticks
                == 0 || sat_sub(old(self).tick, self.sessions.sessions()[id].transport.last_seen_tick)
                <= timeout_ticks by {
                if timeout_ticks > 0 && sat_sub(old(self).tick, before[id].transport.last_seen_tick) > timeout_ticks {
                    let k = choose|k: int| 0 <= k < all.len() && #[trigger] all[k].0 == id;
                    assert(listed_ids(all, all.len() as int).contains(all[k].0));
                }
            }
            assert forall|id: ClientId|
                #[trigger] before.dom().contains(id) && !self.sessions.sessions().dom().contains(
                    id,
                ) implies sat_sub(old(self).tick, before[id].transport.last_seen_tick) > timeout_ticks by {
                let k = choose|k: int| 0 <= k < all.len() && #[trigger] all[k].0 == id;
                assert(all[k].1 > timeout_ticks);
            }
        }
        removed
    }

    /// The acknowledged action tick and the agent of `id`, which a recovery
    /// full snapshot for it carries and is filtered by (both `None` for an
    /// unknown client).
    pub fn recovery_target(&self, id: ClientId) -> (res: (Option<u64>, Option<u64>))
        requires
            self.wf(),
        ensures
            res == if self.sessions.sessions().dom().contains(id) {
                (
                    self.sessions.sessions()[id].last_processed_action_tick,
                    self.sessions.sessions()[id].agent_id,
                )
            } else {
                (None, None)
            },
    {
        match self.sessions.get(id) {
            Some(session) => (session.last_processed_action_tick, session.agent_id),
            None => (None, None),
        }
    }

    /// Records the delivery of a recovery full snapshot `snapshot` of
    /// `encoded_size` bytes to `id`. A delivered one is counted shard-wide
    /// and becomes the client's baseline; a failed one is counted as a
    /// failure and leaves the baseline as it was. The client's own counters
    /// record either (see `ClientTransportCounters::spec_after_recovery`).
    pub fn record_recovery_snapshot(&mut self, id: ClientId, sent: bool, encoded_size: u64, snapshot: S)
        requires
            old(self).wf(),
        ensures
            final(self).wf(),
            final(self).recovery_snapshots_sent == if sent {
                sat_add(old(self).recovery_snapshots_sent, 1)
            } else {
                old(self).recovery_snapshots_sent
            },
            final(self).recovery_delivery_failures == if sent {
                old(self).recovery_delivery_failures
            } else {
                sat_add(old(self).recovery_delivery_failures, 1)
            },
            final(self).sessions.sessions() == if old(self).sessions.sessions().dom().contains(id) {
                old(self).sessions.sessions().insert(
                    id,
                    ClientSession {
                        last_sent_snapshot: if sent {
                            Some(snapshot)
                        } else {
                            old(self).sessions.sessions()[id].last_sent_snapshot
                        },
                        transport: old(self).sessions.sessions()[id].transport.spec_after_recovery(sent, encoded_size),
                        ..old(self).sessions.sessions()[id]
                    },
                )
            } else {
                old(self).sessions.sessions()
            },
            *final(self) == (ShardState {
                sessions: final(self).sessions,
                recovery_snapshots_sent: final(self).recovery_snapshots_sent,
                recovery_delivery_failures: final(self).recovery_delivery_failures,
                ..*old(self)
            }),
    {
        if sent {
            self.recovery_snapshots_sent = self.recovery_snapshots_sent.saturating_add(1);
            self.sessions.set_last_sent_snapshot(id, snapshot);
        } else {
            self.recovery_delivery_failures = self.recovery_delivery_failures.saturating_add(1);
        }
        self.sessions.record_recovery_delivery(id, sent, encoded_size);
        proof {
            if old(self).sessions.sessions().dom().contains(id) {
                assert(self.sessions.sessions() =~= old(self).sessions.sessions().insert(
                    id,
                    ClientSession {
                        last_sent_snapshot: if sent {
                            Some(snapshot)
                        } else {
                            old(self).sessions.sessions()[id].last_sent_snapshot
                        },
                        transport: old(self).sessions.sessions()[id].transport.spec_after_recovery(sent, encoded_size),
                        ..old(self).sessions.sessions()[id]
                    },
                ));
            }
        }
    }

    /// Every client as this tick's broadcast sees it, in table order.
    pub fn broadcast_targets(&self) -> (res: Vec<BroadcastTarget>)
        requires
            self.wf(),
        ensures
            res@.len() == self.sessions.entries().len(),
            forall|k: int|
                0 <= k < res@.len() ==> #[trigger] res@[k] == target_of(
                    self.sessions.entries()[k].0,
                    self.sessions.entries()[k].1,
                ),
    {
        let mut targets: Vec<BroadcastTarget> = Vec::new();
        let n = self.sessions.len();
        let mut i: usize = 0;
        while i < n
            invariant
                n == self.sessions.entries().len(),
                i <= n,
                targets@.len() == i,
                forall|k: int|
                    0 <= k < i ==> #[trigger] targets@[k] == target_of(
                        self.sessions.entries()[k].0,
                        self.sessions.entries()[k].1,
                    ),
            decreases n - i,
        {
            let entry = self.sessions.entry_at(i);
            targets.push(
                BroadcastTarget {
                    client_id: entry.0,
                    agent_id: entry.1.agent_id,
                    acknowledged_action_tick: entry.1.last_processed_action_tick,
                    debug_telemetry_enabled: entry.1.debug_telemetry_enabled,
                    debug_focus_entity: entry.1.debug_focus_entity,
                    has_baseline: entry.1.last_sent_snapshot.is_some(),
                },
            );
            i = i + 1;
        }
        targets
    }

    /// Ends a tick with nothing to broadcast: the tick's events and debug
    /// documents are dropped.
    pub fn skip_broadcast(&mut self)
        ensures
            final(self).pending_events@.len() == 0,
            final(self).pending_debug_documents@.len() == 0,
            *final(self) == (ShardState {
                pending_events: final(self).pending_events,
                pending_debug_documents: final(self).pending_debug_documents,
                ..*old(self)
            }),
    {
        self.pending_events.clear();
        self.pending_debug_documents.clear();
    }

    /// Ends a broadcast. Each of `delivered` becomes its client's baseline
    /// (see `with_baselines`); the snapshot tick moves to the shard's tick
    /// when the periodic snapshot was due or a client lacked a baseline;
    /// `snapshot` becomes the shard's baseline when any state went out (or
    /// there was none before); the tick's events and debug documents are
    /// cleared, and the documents are handed back for the ops stream.
    pub fn finish_broadcast(
        &mut self,
        should_snapshot: bool,
        had_missing_client_baseline: bool,
        any_state_update: bool,
        snapshot: S,
        delivered: Vec<(ClientId, S)>,
    ) -> (published: Vec<D>)
        requires
            old(self).wf(),
        ensures
            final(self).wf(),
            final(self).sessions.sessions() == with_baselines(old(self).sessions.sessions(), delivered@),
            final(self).last_snapshot_tick == if should_snapshot || had_missing_client_baseline {
                old(self).tick
            } else {
                old(self).last_snapshot_tick
            },
            final(self).last_snapshot == if any_state_update {
                Some(snapshot)
            } else {
                old(self).last_snapshot
            },
            published@ == old(self).pending_debug_documents@,
            final(self).pending_events@.len() == 0,
            final(self).pending_debug_documents@.len() == 0,
            *final(self) == (ShardState {
                sessions: final(self).sessions,
                last_snapshot_tick: final(self).last_snapshot_tick,
                last_snapshot: final(self).last_snapshot,
                pending_events: final(self).pending_events,
                pending_debug_documents: final(self).pending_debug_documents,
                ..*old(self)
            }),
    {
        let ghost all = delivered@;
        let total = delivered.len();
        let mut rest = delivered;
        let mut done: usize = 0;
        while rest.len() > 0
            invariant
                self.sessions.wf(),
                done <= all.len(),
                total == all.len(),
                rest@ == all.subrange(done as int, all.len() as int),
                self.sessions.sessions() == with_baselines(old(self).sessions.sessions(), all.take(done as int)),
                *self == (ShardState { sessions: self.sessions, ..*old(self) }),
            decreases rest@.len(),
        {
            let (id, baseline) = rest.remove(0);
            proof {
                assert(all.take(done + 1).drop_last() =~= all.take(done as int));
                assert(all.take(done + 1).last() == all[done as int]);
            }
            self.sessions.set_last_sent_snapshot(id, baseline);
            done = done + 1;
            proof {
                assert(rest@ =~= all.subrange(done as int, all.len() as int));
            }
        }
        proof {
            assert(all.take(done as int) =~= all);
        }
        if should_snapshot || had_missing_client_baseline {
            self.last_snapshot_tick = self.tick;
        }
        if any_state_update {
            self.last_snapshot = Some(snapshot);
        }
        self.pending_events.clear();
        let mut published: Vec<D> = Vec::new();
        std::mem::swap(&mut published, &mut self.pending_debug_documents);
        published
    }
}

/// Recording delivered baselines connects no one and drops no one, and
/// every connected client that was delivered a snapshot has a baseline
/// afterwards, so its next state message can be a delta.
pub proof fn lemma_delivered_clients_have_baselines<A, S>(
    sessions: Map<ClientId, ClientSession<A, S>>,
    delivered: Seq<(ClientId, S)>,
)
    ensures
        with_baselines(sessions, delivered).dom() == sessions.dom(),
        forall|k: int|
            0 <= k < delivered.len() && sessions.dom().contains(#[trigger] delivered[k].0) ==> with_baselines(
                sessions,
                delivered,
            )[delivered[k].0].last_sent_snapshot is Some,
    decreases delivered.len(),
{
    if delivered.len() > 0 {
        let front = delivered.drop_last();
        lemma_delivered_clients_have_baselines(sessions, front);
        let earlier = with_baselines(sessions, front);
        assert(with_baselines(sessions, delivered).dom() =~= sessions.dom());
        assert forall|k: int|
            0 <= k < delivered.len() && sessions.dom().contains(#[trigger] delivered[k].0) implies with_baselines(
            sessions,
            delivered,
        )[delivered[k].0].last_sent_snapshot is Some by {
            if k < delivered.len() - 1 {
                assert(front[k] == delivered[k]);
            }
        }
    }
}

} // verus!
