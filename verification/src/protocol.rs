//! Session identifiers and the server/client connection configuration.

use vstd::prelude::*;

verus! {

/// Whether a 128-bit value (read big-endian) has the layout of a random
/// (version 4, RFC 4122 variant) UUID.
pub open spec fn is_random_uuid(value: u128) -> bool {
    &&& (value >> 76u32) & 0xfu128 == 4u128
    &&& (value >> 62u32) & 0x3u128 == 2u128
}

/// `uuid::Uuid::new_v4`, read as its big-endian 128-bit value through
/// `Uuid::as_u128`. The uuid crate draws 128 random bits and then forces the
/// version nibble to 4 and the variant bits to `10`; that layout is all this
/// contract claims. The value itself is random. The call panics only when the
/// operating system's random source fails, which no argument can rule out.
#[verifier::external_body]
fn random_uuid_v4() -> (res: u128)
    ensures
        is_random_uuid(res),
{
    uuid::Uuid::new_v4().as_u128()
}

/// Unique identifier for a connected client session (a random UUID, held as
/// its big-endian 128-bit value).
#[derive(Debug, Clone, Copy, PartialEq, Eq, Hash, Structural)]
pub struct ClientId(pub u128);

impl ClientId {
    /// A fresh random session identifier.
    pub fn new() -> (res: Self)
        ensures
            is_random_uuid(res.0),
    {
        ClientId(random_uuid_v4())
    }
}

impl Default for ClientId {
    fn default() -> (res: Self)
        ensures
            is_random_uuid(res.0),
    {
        Self::new()
    }
}

/// Stable reconnect token for resuming a prior client session (a random
/// UUID, held as its big-endian 128-bit value).
#[derive(Debug, Clone, Copy, PartialEq, Eq, Hash, Structural)]
pub struct ReconnectToken(pub u128);

impl ReconnectToken {
    /// A fresh random reconnect token.
    pub fn new() -> (res: Self)
        ensures
            is_random_uuid(res.0),
    {
        ReconnectToken(random_uuid_v4())
    }
}

impl Default for ReconnectToken {
    fn default() -> (res: Self)
        ensures
            is_random_uuid(res.0),
    {
        Self::new()
    }
}

/// Configuration for the game server.
#[derive(Debug, Clone)]
pub struct ServerConfig {
    /// Maximum number of simultaneous clients
    pub max_clients: usize,
    /// Server tick rate (ticks per second)
    pub tick_rate: u32,
    /// How often to send full snapshots (in ticks)
    pub snapshot_interval: u64,
    /// QUIC server address to bind to
    pub bind_addr: String,
    /// QUIC server port
    pub bind_port: u16,
    /// Whether to enable WebSocket fallback endpoint
    pub enable_websocket: bool,
    /// WebSocket endpoint port
    pub websocket_port: u16,
    /// Ticks without inbound activity after which a client is dropped
    /// (0 disables the timeout).
    pub client_inactivity_timeout_ticks: u64,
    /// Pending-action queue depth from which a client counts as under
    /// queue pressure.
    pub queue_pressure_warn_depth: usize,
}

impl Default for ServerConfig {
    fn default() -> (res: Self)
        ensures
            res.max_clients == 64,
            res.tick_rate == 60,
            res.snapshot_interval == 10,
            res.bind_addr@ == "0.0.0.0"@,
            res.bind_port == 5000,
            res.enable_websocket,
            res.websocket_port == 5001,
            res.client_inactivity_timeout_ticks == 600,
            res.queue_pressure_warn_depth == 192,
    {
        ServerConfig {
            max_clients: 64,
            tick_rate: 60,
            snapshot_interval: 10,
            bind_addr: String::from_str("0.0.0.0"),
            bind_port: 5000,
            enable_websocket: true,
            websocket_port: 5001,
            client_inactivity_timeout_ticks: 600,
            queue_pressure_warn_depth: 192,
        }
    }
}

/// Configuration for connecting to a game server.
#[derive(Debug, Clone)]
pub struct ClientConfig {
    /// Server address
    pub server_addr: String,
    /// Server port
    pub server_port: u16,
    /// Player name
    pub player_name: String,
    /// Connection timeout in milliseconds
    pub timeout_ms: u64,
}

impl Default for ClientConfig {
    fn default() -> (res: Self)
        ensures
            res.server_addr@ == "localhost"@,
            res.server_port == 5000,
            res.player_name@ == "Player"@,
            res.timeout_ms == 5000,
    {
        ClientConfig {
            server_addr: String::from_str("localhost"),
            server_port: 5000,
            player_name: String::from_str("Player"),
            timeout_ms: 5000,
        }
    }
}

} // verus!
