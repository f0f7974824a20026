//! The decisions of the SpacetimeDB client's event pump: for each event the
//! SDK reports, how the client's own state moves and what the host does
//! (send a welcome, emit a state update, forward a document, ...). The host
//! drains the SDK's events, hands each one here with the world's current
//! tick, and performs the returned action.

use vstd::prelude::*;
use crate::remote_agent::{advance_spec, spec_after_observation, RemoteAgentRuntimeStatus};

verus! {

/// An SDK event, as far as the client's decisions read it.
#[derive(Debug, Clone, PartialEq, Eq)]
pub enum StdbClientEvent {
    Connected,
    SubscriptionApplied,
    RemoteTopologyUpdated,
    ConnectError { message: String },
    Disconnected { reason: String },
    /// An entity row was inserted or updated; `cached` says whether the
    /// client's cache holds it.
    EntityUpserted { entity_id: u64, cached: bool },
    EntityDeleted { entity_id: u64 },
    /// A combat, speech or world event, turned into game events by the host.
    GameEvent,
    /// Agent tick telemetry, kept as the latest telemetry document too.
    TelemetryDocument { document: String },
    /// A tool-call event, tick rollup, focused-entity summary or topology
    /// document.
    DebugDocument { document: String },
    TickAdvanced { tick: u64 },
    WorldStateUpdated { tick: u64 },
    ObservationReceived { tick: u64, observer_entity_id: u64 },
    ReducerResult,
}

/// What the host does for one event.
#[derive(Debug, Clone, PartialEq, Eq)]
pub enum StdbClientAction {
    Nothing,
    /// Take a fresh client id and apply the wanted subscriptions.
    ApplySubscriptions,
    /// Build the first local snapshot at `tick`; send the welcome when the
    /// client has an id.
    Welcome { tick: u64, send: bool },
    /// Rebuild the local snapshot and send it whole at `tick`.
    FullSnapshot { tick: u64 },
    /// Tell the game the connection was refused.
    Reject { reason: String },
    /// Drop the presentation state.
    ClearPresentation,
    /// Upsert the cached entity into the local snapshot and send it as a
    /// partial update at `tick`.
    EntityUpdate { tick: u64, entity_id: u64 },
    /// Remove the entity from the local snapshot and send its removal at `tick`.
    EntityRemoval { tick: u64, entity_id: u64 },
    /// Turn the event into game events and send them.
    GameEvents,
    /// Keep the document for debug readers and send it.
    Document { document: String },
    /// Move the local snapshot to `tick`.
    AdvanceSnapshot { tick: u64 },
}

/// The client's own state across events.
#[derive(Debug, Clone, PartialEq, Eq)]
pub struct StdbClientState {
    /// The client has an id (it connected).
    pub connected: bool,
    pub welcome_sent: bool,
    /// The newest tick the client has passed on; older entity changes are
    /// dropped.
    pub last_emitted_tick: u64,
    /// The latest agent telemetry document.
    pub last_telemetry_document: Option<String>,
    pub controlled_entity: Option<u64>,
    pub remote_agent: RemoteAgentRuntimeStatus,
}

/// The state after the authoritative `tick`: the remote agent's clocks move
/// (see `advance_spec`) and the emitted tick never goes back.
pub open spec fn spec_after_tick(state: StdbClientState, tick: u64) -> StdbClientState {
    let (newest, stale) = advance_spec(
        state.remote_agent.last_authoritative_tick,
        state.remote_agent.last_observation_tick,
        state.remote_agent.stale_observation_ticks,
        tick,
    );
    StdbClientState {
        last_emitted_tick: if state.last_emitted_tick > tick {
            state.last_emitted_tick
        } else {
            tick
        },
        remote_agent: RemoteAgentRuntimeStatus {
            last_authoritative_tick: newest,
            stale_observation_ticks: stale,
            ..state.remote_agent
        },
        ..state
    }
}

/// The next state and the host's action for `event`, with the world at
/// `current_tick` (0 before it has one). A welcome goes out once per
/// connection; topology updates before it are ignored; entity changes
/// older than the last emitted tick are dropped; a disconnect forgets the
/// id and the welcome; an observation of the controlled entity refreshes
/// the remote agent (see `spec_after_observation`).
pub open spec fn spec_client_step(
    state: StdbClientState,
    event: StdbClientEvent,
    current_tick: u64,
) -> (StdbClientState, StdbClientAction) {
    match event {
        StdbClientEvent::Connected => (
            StdbClientState { connected: true, ..state },
            StdbClientAction::ApplySubscriptions,
        ),
        StdbClientEvent::SubscriptionApplied => if state.welcome_sent {
            (state, StdbClientAction::Nothing)
        } else {
            (
                StdbClientState { welcome_sent: true, ..state },
                StdbClientAction::Welcome { tick: current_tick, send: state.connected },
            )
        },
        StdbClientEvent::RemoteTopologyUpdated => if state.welcome_sent {
            (state, StdbClientAction::FullSnapshot { tick: current_tick })
        } else {
            (state, StdbClientAction::Nothing)
        },
        StdbClientEvent::ConnectError { message } => (state, StdbClientAction::Reject { reason: message }),
        StdbClientEvent::Disconnected { .. } => (
            StdbClientState { connected: false, welcome_sent: false, ..state },
            StdbClientAction::ClearPresentation,
        ),
        StdbClientEvent::EntityUpserted { entity_id, cached } => if !cached || current_tick
            < state.last_emitted_tick {
            (state, StdbClientAction::Nothing)
        } else {
            (state, StdbClientAction::EntityUpdate { tick: current_tick, entity_id })
        },
        StdbClientEvent::EntityDeleted { entity_id } => if current_tick < state.last_emitted_tick {
            (state, StdbClientAction::Nothing)
        } else {
            (state, StdbClientAction::EntityRemoval { tick: current_tick, entity_id })
        },
        StdbClientEvent::GameEvent => (state, StdbClientAction::GameEvents),
        StdbClientEvent::TelemetryDocument { document } => (
            StdbClientState { last_telemetry_document: Some(document), ..state },
            StdbClientAction::Document { document },
        ),
        StdbClientEvent::DebugDocument { document } => (state, StdbClientAction::Document { document }),
        StdbClientEvent::TickAdvanced { tick } => (
            spec_after_tick(state, tick),
            StdbClientAction::AdvanceSnapshot { tick },
        ),
        StdbClientEvent::WorldStateUpdated { tick } => (
            spec_after_tick(state, tick),
            StdbClientAction::AdvanceSnapshot { tick },
        ),
        StdbClientEvent::ObservationReceived { tick, observer_entity_id } => if state.controlled_entity == Some(
            observer_entity_id,
        ) {
            (
                StdbClientState { remote_agent: spec_after_observation(state.remote_agent, tick), ..state },
                StdbClientAction::Nothing,
            )
        } else {
            (state, StdbClientAction::Nothing)
        },
        StdbClientEvent::ReducerResult => (state, StdbClientAction::Nothing),
    }
}

impl StdbClientState {
    /// A client that has not connected yet, with a fresh remote-agent status.
    pub fn new() -> (res: Self)
        ensures
            !res.connected,
            !res.welcome_sent,
            res.last_emitted_tick == 0,
            res.last_telemetry_document is None,
            res.controlled_entity is None,
            res.remote_agent == (RemoteAgentRuntimeStatus {
                fallback_active: false,
                fallback_reason: None,
                pending_action_count: 0,
                last_authoritative_tick: None,
                last_observation_tick: None,
                stale_observation_ticks: 0,
                budget_overflow_rejections: 0,
                timeout_rejections: 0,
                stale_action_rejections: 0,
            }),
    {
        StdbClientState {
            connected: false,
            welcome_sent: false,
            last_emitted_tick: 0,
            last_telemetry_document: None,
            controlled_entity: None,
            remote_agent: RemoteAgentRuntimeStatus::connected(None, None),
        }
    }

    /// Handles one SDK event (see `spec_client_step`) and returns what the
    /// host has to do.
    pub fn on_event(&mut self, event: StdbClientEvent, current_tick: u64) -> (action: StdbClientAction)
        ensures
            (*final(self), action) == spec_client_step(*old(self), event, current_tick),
    {
        match event {
            StdbClientEvent::Connected => {
                self.connected = true;
                StdbClientAction::ApplySubscriptions
            },
            StdbClientEvent::SubscriptionApplied => {
                if self.welcome_sent {
                    StdbClientAction::Nothing
                } else {
                    self.welcome_sent = true;
                    StdbClientAction::Welcome { tick: current_tick, send: self.connected }
                }
            },
            StdbClientEvent::RemoteTopologyUpdated => {
                if self.welcome_sent {
                    StdbClientAction::FullSnapshot { tick: current_tick }
                } else {
                    StdbClientAction::Nothing
                }
            },
            StdbClientEvent::ConnectError { message } => StdbClientAction::Reject { reason: message },
            StdbClientEvent::Disconnected { .. } => {
                self.connected = false;
                self.welcome_sent = false;
                StdbClientAction::ClearPresentation
            },
            StdbClientEvent::EntityUpserted { entity_id, cached } => {
                if !cached || current_tick < self.last_emitted_tick {
                    StdbClientAction::Nothing
                } else {
                    StdbClientAction::EntityUpdate { tick: current_tick, entity_id }
                }
            },
            StdbClientEvent::EntityDeleted { entity_id } => {
                if current_tick < self.last_emitted_tick {
                    StdbClientAction::Nothing
                } else {
                    StdbClientAction::EntityRemoval { tick: current_tick, entity_id }
                }
            },
            StdbClientEvent::GameEvent => StdbClientAction::GameEvents,
            StdbClientEvent::TelemetryDocument { document } => {
                self.last_telemetry_document = Some(document.clone());
                StdbClientAction::Document { document }
            },
            StdbClientEvent::DebugDocument { document } => StdbClientAction::Document { document },
            StdbClientEvent::TickAdvanced { tick } => {
                self.advance_to(tick);
                StdbClientAction::AdvanceSnapshot { tick }
            },
            StdbClientEvent::WorldStateUpdated { tick } => {
                self.advance_to(tick);
                StdbClientAction::AdvanceSnapshot { tick }
            },
            StdbClientEvent::ObservationReceived { tick, observer_entity_id } => {
                self.remote_agent.record_observation(tick, observer_entity_id, self.controlled_entity);
                StdbClientAction::Nothing
            },
            StdbClientEvent::ReducerResult => StdbClientAction::Nothing,
        }
    }

    fn advance_to(&mut self, tick: u64)
        ensures
            *final(self) == spec_after_tick(*old(self), tick),
    {
        self.remote_agent.record_authoritative_tick(tick);
        if tick > self.last_emitted_tick {
            self.last_emitted_tick = tick;
        }
    }
}

/// The emitted tick never goes back, and once a tick has been passed on,
/// an entity change reported at an older world tick is dropped.
pub proof fn lemma_emitted_tick_monotone(state: StdbClientState, event: StdbClientEvent, current_tick: u64)
    ensures
        spec_client_step(state, event, current_tick).0.last_emitted_tick >= state.last_emitted_tick,
        current_tick < state.last_emitted_tick && (event is EntityUpserted || event is EntityDeleted) ==> spec_client_step(
            state,
            event,
            current_tick,
        ).1 == StdbClientAction::Nothing,
{
}

/// A welcome goes out at most once per connection: after one, a second
/// subscription confirmation asks for nothing until a disconnect.
pub proof fn lemma_single_welcome(state: StdbClientState, current_tick: u64, later_tick: u64)
    ensures
        ({
            let (after, _) = spec_client_step(state, StdbClientEvent::SubscriptionApplied, current_tick);
            &&& after.welcome_sent
            &&& spec_client_step(after, StdbClientEvent::SubscriptionApplied, later_tick).1
                == StdbClientAction::Nothing
        }),
{
}

} // verus!
