//! Handling of one inbound client message on the server: the session
//! bookkeeping it causes and the effect the server loop has to carry out.

use vstd::prelude::*;
use crate::protocol::{ClientId, ReconnectToken};
use crate::session::{
    ActionBatchOutcome, ClientSession, ClientSessions, InboundKind,
    ACTION_WINDOW_FORWARD_TICKS, batch_admitted, text_view,
};

verus! {

/// A client message, with the game's actions of type `A`.
pub enum InboundMessage<A> {
    Connect { player_name: String, reconnect_token: Option<ReconnectToken> },
    ActionBatch { tick: u64, actions: Vec<A> },
    RequestFullSnapshot { last_known_tick: Option<u64>, last_known_digest: Option<u64> },
    SetDebugTelemetry { enabled: bool },
    SetDebugFocus { entity_id: Option<u64> },
    Ping { timestamp: u64 },
    Disconnect { reason: Option<String> },
}

/// What the server loop does after a message was handled.
#[derive(Debug, Clone, PartialEq, Eq)]
pub enum InboundEffect {
    /// Attach (or resume) the client's agent.
    Attach { player_name: String, reconnect_token: Option<ReconnectToken> },
    /// An action batch was offered; `rejection` is the reason to send back,
    /// if any, and `pressure_incident` whether the shard counts a
    /// queue-pressure incident.
    ActionBatch { outcome: ActionBatchOutcome, rejection: Option<String>, pressure_incident: bool },
    /// An action batch from a client without a session: nothing happens.
    Ignored,
    /// Send the client a recovery full snapshot.
    SendFullSnapshot,
    /// Answer a ping.
    Pong { client_ts: u64, server_ts: u64 },
    /// Debug settings changed; nothing to send.
    Updated,
    /// Disconnect the client for `reason`.
    Disconnect { reason: String },
}

/// The counter kind of a message.
pub open spec fn message_kind<A>(message: InboundMessage<A>) -> InboundKind {
    match message {
        InboundMessage::Connect { .. } => InboundKind::Connect,
        InboundMessage::ActionBatch { .. } => InboundKind::ActionBatch,
        InboundMessage::RequestFullSnapshot { .. } => InboundKind::RequestFullSnapshot,
        InboundMessage::SetDebugTelemetry { .. } => InboundKind::SetDebugTelemetry,
        InboundMessage::SetDebugFocus { .. } => InboundKind::SetDebugFocus,
        InboundMessage::Ping { .. } => InboundKind::Ping,
        InboundMessage::Disconnect { .. } => InboundKind::Disconnect,
    }
}

/// The session of a client after the message's counters were recorded.
pub open spec fn counted<A, S>(session: ClientSession<A, S>, kind: InboundKind, encoded_len: u64, tick: u64) -> ClientSession<A, S> {
    ClientSession { transport: session.transport.spec_after_inbound(kind, encoded_len, tick), ..session }
}

/// The table `after` and effect `effect` are what handling `message` of
/// `encoded_len` bytes from `id` at `server_tick` makes of `before` (see
/// `handle_inbound_message`).
pub open spec fn inbound_handled<A, S>(
    before: Map<ClientId, ClientSession<A, S>>,
    after: Map<ClientId, ClientSession<A, S>>,
    id: ClientId,
    encoded_len: u64,
    message: InboundMessage<A>,
    server_tick: u64,
    warn_config: usize,
    effect: InboundEffect,
) -> bool {
    &&& after.dom() == before.dom()
    &&& !before.dom().contains(id) ==> after == before
    &&& {
        let known = before.dom().contains(id);
        let kind = message_kind(message);
        let seen = counted(before[id], kind, encoded_len, server_tick);
        match message {
            InboundMessage::Connect { player_name, reconnect_token } => {
                &&& effect == (InboundEffect::Attach { player_name, reconnect_token })
                &&& known ==> after == before.insert(id, seen)
            },
            InboundMessage::ActionBatch { tick, actions } => if known {
                &&& after == before.insert(id, after[id])
                &&& effect matches InboundEffect::ActionBatch { outcome, pressure_incident, .. }
                &&& batch_admitted(
                    seen,
                    after[id],
                    tick,
                    actions@,
                    server_tick,
                    warn_config,
                    effect->outcome,
                )
                &&& effect->pressure_incident == effect->outcome.spec_raises_queue_pressure()
                &&& text_view(effect->rejection) == effect->outcome.spec_rejection_text(tick)
            } else {
                effect == InboundEffect::Ignored
            },
            InboundMessage::RequestFullSnapshot { .. } => {
                &&& effect == InboundEffect::SendFullSnapshot
                &&& known ==> after == before.insert(id, seen)
            },
            InboundMessage::SetDebugTelemetry { enabled } => {
                &&& effect == InboundEffect::Updated
                &&& known ==> after == before.insert(
                    id,
                    ClientSession { debug_telemetry_enabled: enabled, ..seen },
                )
            },
            InboundMessage::SetDebugFocus { entity_id } => {
                &&& effect == InboundEffect::Updated
                &&& known ==> after == before.insert(
                    id,
                    ClientSession { debug_focus_entity: entity_id, ..seen },
                )
            },
            InboundMessage::Ping { timestamp } => {
                &&& effect == (InboundEffect::Pong { client_ts: timestamp, server_ts: server_tick })
                &&& known ==> after == before.insert(id, seen)
            },
            InboundMessage::Disconnect { reason } => {
                &&& effect matches InboundEffect::Disconnect { reason: r } && r@ == match reason {
                    Some(text) => text@,
                    None => "client requested disconnect"@,
                }
                &&& known ==> after == before.insert(id, seen)
            },
        }
    }
}

/// Handles one message of `encoded_len` bytes from `id` at `server_tick`.
/// A connected client's counters record the message first (it was seen at
/// `server_tick`). Then: a connect asks the loop to attach the agent; an
/// action batch is offered to the client's queue (see
/// `ClientSession::admit_action_batch`), with the rejection text to send
/// back; a snapshot request asks for a recovery snapshot; debug settings
/// are stored; a ping is answered with the server tick; a disconnect
/// carries the client's reason or "client requested disconnect".
pub fn handle_inbound_message<A, S>(
    sessions: &mut ClientSessions<A, S>,
    id: ClientId,
    encoded_len: u64,
    message: InboundMessage<A>,
    server_tick: u64,
    warn_config: usize,
) -> (effect: InboundEffect)
    requires
        old(sessions).wf(),
        server_tick + ACTION_WINDOW_FORWARD_TICKS <= u64::MAX,
    ensures
        final(sessions).wf(),
        inbound_handled(
            old(sessions).sessions(),
            final(sessions).sessions(),
            id,
            encoded_len,
            message,
            server_tick,
            warn_config,
            effect,
        ),
{
    let kind = match &message {
        InboundMessage::Connect { .. } => InboundKind::Connect,
        InboundMessage::ActionBatch { .. } => InboundKind::ActionBatch,
        InboundMessage::RequestFullSnapshot { .. } => InboundKind::RequestFullSnapshot,
        InboundMessage::SetDebugTelemetry { .. } => InboundKind::SetDebugTelemetry,
        InboundMessage::SetDebugFocus { .. } => InboundKind::SetDebugFocus,
        InboundMessage::Ping { .. } => InboundKind::Ping,
        InboundMessage::Disconnect { .. } => InboundKind::Disconnect,
    };
    let known = sessions.record_inbound(id, kind, encoded_len, server_tick);
    let ghost counted_sessions = sessions.sessions();
    let effect = match message {
        InboundMessage::Connect { player_name, reconnect_token } => InboundEffect::Attach {
            player_name,
            reconnect_token,
        },
        InboundMessage::ActionBatch { tick, actions } => {
            match sessions.admit_action_batch(id, tick, actions, server_tick, warn_config) {
                Some(outcome) => {
                    proof {
                        assert(counted_sessions[id] == counted(old(sessions).sessions()[id], kind, encoded_len, server_tick));
                        assert(sessions.sessions() =~= old(sessions).sessions().insert(id, sessions.sessions()[id]));
                    }
                    InboundEffect::ActionBatch {
                        outcome,
                        rejection: outcome.rejection_reason(tick),
                        pressure_incident: outcome.raises_queue_pressure(),
                    }
                },
                None => InboundEffect::Ignored,
            }
        },
        InboundMessage::RequestFullSnapshot { .. } => InboundEffect::SendFullSnapshot,
        InboundMessage::SetDebugTelemetry { enabled } => {
            sessions.set_debug_telemetry(id, enabled);
            proof {
                if known {
                    assert(sessions.sessions() =~= old(sessions).sessions().insert(
                        id,
                        ClientSession {
                            debug_telemetry_enabled: enabled,
                            ..counted(old(sessions).sessions()[id], kind, encoded_len, server_tick)
                        },
                    ));
                }
            }
            InboundEffect::Updated
        },
        InboundMessage::SetDebugFocus { entity_id } => {
            sessions.set_debug_focus(id, entity_id);
            proof {
                if known {
                    assert(sessions.sessions() =~= old(sessions).sessions().insert(
                        id,
                        ClientSession {
                            debug_focus_entity: entity_id,
                            ..counted(old(sessions).sessions()[id], kind, encoded_len, server_tick)
                        },
                    ));
                }
            }
            InboundEffect::Updated
        },
        InboundMessage::Ping { timestamp } => InboundEffect::Pong { client_ts: timestamp, server_ts: server_tick },
        InboundMessage::Disconnect { reason } => {
            let text = match reason {
                Some(text) => text,
                None => String::from_str("client requested disconnect"),
            };
            InboundEffect::Disconnect { reason: text }
        },
    };
    proof {
        assert(sessions.sessions().dom() =~= old(sessions).sessions().dom());
    }
    effect
}

/// Any message keeps its sender alive: right after a message is counted at
/// `tick`, the client has been idle for 0 ticks, so no inactivity timeout
/// reports it on that tick, and its message count grew by one (saturating).
pub proof fn lemma_message_keeps_client_alive<A, S>(
    session: ClientSession<A, S>,
    kind: InboundKind,
    encoded_len: u64,
    tick: u64,
    timeout_ticks: u64,
)
    ensures
        crate::session::sat_sub(tick, counted(session, kind, encoded_len, tick).transport.last_seen_tick) == 0,
        !(crate::session::sat_sub(tick, counted(session, kind, encoded_len, tick).transport.last_seen_tick)
            > timeout_ticks),
        counted(session, kind, encoded_len, tick).transport.inbound_messages == crate::session::sat_add(
            session.transport.inbound_messages,
            1,
        ),
{
}

} // verus!
