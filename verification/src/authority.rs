//! Authority-host configuration: transport policy, bind targets and the
//! values a dedicated server reads from its environment.

use vstd::prelude::*;
use crate::decimal::{
    parse_error_kind, parse_error_text, parse_unsigned, spec_parse_error_kind, spec_parse_error_text,
    spec_parse_unsigned,
};
use crate::protocol::ServerConfig;
use crate::text::{
    chars_eq_ignore_ascii_case, chars_of, eq_ignore_ascii_case, find_char, find_first_char,
    find_last_char, first_index, last_index, lemma_first_index_unique, substring,
};

verus! {

/// Dedicated transport policy composed into the direct-connect server.
#[derive(Clone, Debug, PartialEq, Eq, Structural)]
pub struct TransportPolicy {
    pub snapshot_interval: u64,
    pub client_inactivity_timeout_ticks: u64,
    pub queue_pressure_warn_depth: usize,
}

impl Default for TransportPolicy {
    fn default() -> (res: Self)
        ensures
            res.snapshot_interval == 10,
            res.client_inactivity_timeout_ticks == 600,
            res.queue_pressure_warn_depth == 192,
    {
        TransportPolicy {
            snapshot_interval: 10,
            client_inactivity_timeout_ticks: 600,
            queue_pressure_warn_depth: 192,
        }
    }
}

/// Why a bind target could not be split into host and port.
#[derive(Debug, Clone)]
pub enum BindTargetError {
    /// The target holds no `:` separator.
    MissingPort { bind: String },
    /// The text after the first `:` (up to any further `:`) is not a port;
    /// the message is the one parsing it as a `u16` gives.
    InvalidPort { port: String },
}

impl BindTargetError {
    /// Human-readable description of the error.
    pub fn message(&self) -> (res: String)
        ensures
            self matches BindTargetError::MissingPort { bind } ==> res@ == "Invalid bind address '"@
                + bind@ + "', expected host:port"@,
            self matches BindTargetError::InvalidPort { port } ==> res@ == spec_parse_error_text(
                spec_parse_error_kind(port@, 65535),
            ),
    {
        match self {
            BindTargetError::MissingPort { bind } => {
                let mut res = String::from_str("Invalid bind address '");
                res.append(bind.as_str());
                res.append("', expected host:port");
                res
            },
            BindTargetError::InvalidPort { port } => String::from_str(
                parse_error_text(parse_error_kind(port.as_str(), 65535)),
            ),
        }
    }
}

/// The text after the first `:` and up to the next `:` (the second item of
/// `str::split(':')`), if there is a first `:`.
pub open spec fn port_field(bind: Seq<char>) -> Option<Seq<char>> {
    let i = first_index(bind, ':');
    if i == bind.len() {
        None
    } else {
        let rest = bind.skip(i + 1);
        Some(rest.take(first_index(rest, ':')))
    }
}

/// Splits `host:port`: the host is the text before the first `:`, the port
/// is the second `:`-separated field parsed as a `u16`.
pub fn parse_bind_target(bind: &str) -> (res: Result<(String, u16), BindTargetError>)
    ensures
        match port_field(bind@) {
            None => res matches Err(BindTargetError::MissingPort { bind: b }) && b@ == bind@,
            Some(field) => match spec_parse_unsigned(field, 65535) {
                None => res matches Err(BindTargetError::InvalidPort { port: p }) && p@ == field,
                Some(port) => res matches Ok((host, p)) && host@ == bind@.take(
                    first_index(bind@, ':'),
                ) && p == port,
            },
        },
{
    let chars = chars_of(bind);
    let colon = find_first_char(&chars, ':');
    if colon == chars.len() {
        return Err(BindTargetError::MissingPort { bind: String::from_str(bind) });
    }
    let end = find_char(&chars, ':', colon + 1);
    proof {
        let rest = bind@.skip(colon + 1);
        let k = end - colon - 1;
        assert forall|j: int| 0 <= j < k implies rest[j] != ':' by {
            assert(rest[j] == chars@[colon + 1 + j]);
        }
        if k < rest.len() {
            assert(rest[k] == chars@[end as int]);
        }
        lemma_first_index_unique(rest, ':', k);
        assert(rest.take(k) =~= bind@.subrange(colon + 1, end as int));
    }
    let host = substring(bind, 0, colon);
    let port_text = substring(bind, colon + 1, end);
    assert(host@ =~= bind@.take(colon as int));
    match parse_unsigned(port_text.as_str(), 65535) {
        Some(port) => Ok((host, port as u16)),
        None => Err(BindTargetError::InvalidPort { port: port_text }),
    }
}

/// Environment values a dedicated authority host reads; `None` stands for an
/// unset (or non-Unicode) variable.
#[derive(Debug, Clone)]
pub struct AuthorityEnv {
    /// `POD_BIND_ADDRESS`
    pub bind_address: Option<String>,
    /// `POD_TICK_RATE`
    pub tick_rate: Option<String>,
    /// `POD_MAX_CLIENTS`
    pub max_clients: Option<String>,
    /// `POD_RUNTIME_MODE`
    pub runtime_mode: Option<String>,
    /// `POD_ENABLE_WEBSOCKET`
    pub enable_websocket: Option<String>,
    /// `POD_WEBSOCKET_PORT`
    pub websocket_port: Option<String>,
    /// `POD_SNAPSHOT_INTERVAL`
    pub snapshot_interval: Option<String>,
    /// `POD_CLIENT_INACTIVITY_TIMEOUT_TICKS`
    pub client_inactivity_timeout_ticks: Option<String>,
    /// `POD_QUEUE_PRESSURE_WARN_DEPTH`
    pub queue_pressure_warn_depth: Option<String>,
}

/// Shared authority-host configuration for dedicated server runtimes.
#[derive(Clone, Debug)]
pub struct AuthorityRuntimeConfig {
    /// Address to bind to (e.g., "0.0.0.0:7777")
    pub bind_address: String,
    /// Whether to expose the WebSocket fallback for browser direct-connect clients.
    pub enable_websocket: bool,
    /// Port for the WebSocket fallback endpoint.
    pub websocket_port: u16,
    /// Maximum number of concurrent clients
    pub max_clients: usize,
    /// Target tick rate in Hz (e.g., 60)
    pub tick_rate: usize,
    /// Runtime mode: "local" (in-process loop) or "network" (pod-net QUIC server)
    pub runtime_mode: String,
    /// Dedicated transport policy composed into the direct-connect server.
    pub transport_policy: TransportPolicy,
}

/// A numeric environment value: its parse when it parses, else `default`.
pub open spec fn env_number(value: Option<String>, max: nat, default: nat) -> nat {
    match value {
        Some(text) => match spec_parse_unsigned(text@, max) {
            Some(v) => v,
            None => default,
        },
        None => default,
    }
}

/// The WebSocket port used when none is configured: one past the port after
/// the last `:` of the bind address, or 7778 when that is not a port below
/// 65535.
pub open spec fn default_websocket_port(bind: Seq<char>) -> nat {
    let i = last_index(bind, ':');
    if i == bind.len() {
        7778
    } else {
        match spec_parse_unsigned(bind.skip(i + 1), 65535) {
            Some(p) => if p < 65535 {
                p + 1
            } else {
                7778
            },
            None => 7778,
        }
    }
}

/// The switch words accepted for `POD_ENABLE_WEBSOCKET`, ignoring ASCII case.
pub open spec fn env_switch(value: Seq<char>) -> Option<bool> {
    if eq_ignore_ascii_case(value, "1"@) || eq_ignore_ascii_case(value, "true"@)
        || eq_ignore_ascii_case(value, "yes"@) || eq_ignore_ascii_case(value, "on"@) {
        Some(true)
    } else if eq_ignore_ascii_case(value, "0"@) || eq_ignore_ascii_case(value, "false"@)
        || eq_ignore_ascii_case(value, "no"@) || eq_ignore_ascii_case(value, "off"@) {
        Some(false)
    } else {
        None
    }
}

/// The bind address after defaulting.
pub open spec fn env_bind_address(env: AuthorityEnv) -> Seq<char> {
    match env.bind_address {
        Some(b) => b@,
        None => "0.0.0.0:7777"@,
    }
}

/// The runtime mode after defaulting.
pub open spec fn env_runtime_mode(env: AuthorityEnv) -> Seq<char> {
    match env.runtime_mode {
        Some(m) => m@,
        None => "network"@,
    }
}

/// Whether the WebSocket endpoint is enabled: an explicit switch word, else
/// only in network mode.
pub open spec fn env_enable_websocket(env: AuthorityEnv) -> bool {
    let by_mode = eq_ignore_ascii_case(env_runtime_mode(env), "network"@);
    match env.enable_websocket {
        Some(v) => match env_switch(v@) {
            Some(b) => b,
            None => by_mode,
        },
        None => by_mode,
    }
}

fn number_or(value: &Option<String>, max: u64, default: u64) -> (res: u64)
    requires
        default <= max,
    ensures
        res as nat == env_number(*value, max as nat, default as nat),
        res <= max,
{
    match value {
        Some(text) => match parse_unsigned(text.as_str(), max) {
            Some(v) => v,
            None => default,
        },
        None => default,
    }
}

fn switch_word(value: &Vec<char>) -> (res: Option<bool>)
    ensures
        res == env_switch(value@),
{
    if chars_eq_ignore_ascii_case(value, "1") || chars_eq_ignore_ascii_case(value, "true")
        || chars_eq_ignore_ascii_case(value, "yes") || chars_eq_ignore_ascii_case(value, "on") {
        Some(true)
    } else if chars_eq_ignore_ascii_case(value, "0") || chars_eq_ignore_ascii_case(value, "false")
        || chars_eq_ignore_ascii_case(value, "no") || chars_eq_ignore_ascii_case(value, "off") {
        Some(false)
    } else {
        None
    }
}

fn websocket_port_default(bind: &str) -> (res: u16)
    ensures
        res as nat == default_websocket_port(bind@),
{
    let chars = chars_of(bind);
    let colon = find_last_char(&chars, ':');
    if colon == chars.len() {
        return 7778;
    }
    let port_text = substring(bind, colon + 1, chars.len());
    assert(port_text@ =~= bind@.skip(colon + 1));
    match parse_unsigned(port_text.as_str(), 65535) {
        Some(p) => if p < 65535 {
            (p + 1) as u16
        } else {
            7778
        },
        None => 7778,
    }
}

impl AuthorityRuntimeConfig {
    /// Builds the configuration from the values of the `POD_*` environment
    /// variables, applying the documented defaults for unset or unparsable
    /// values.
    pub fn from_env_values(env: AuthorityEnv) -> (res: Self)
        ensures
            res.bind_address@ == env_bind_address(env),
            res.tick_rate as nat == env_number(env.tick_rate, usize::MAX as nat, 60),
            res.max_clients as nat == env_number(env.max_clients, usize::MAX as nat, 32),
            res.runtime_mode@ == env_runtime_mode(env),
            res.enable_websocket == env_enable_websocket(env),
            res.websocket_port as nat == env_number(
                env.websocket_port,
                65535,
                default_websocket_port(env_bind_address(env)),
            ),
            res.transport_policy.snapshot_interval as nat == env_number(
                env.snapshot_interval,
                u64::MAX as nat,
                10,
            ),
            res.transport_policy.client_inactivity_timeout_ticks as nat == env_number(
                env.client_inactivity_timeout_ticks,
                u64::MAX as nat,
                600,
            ),
            res.transport_policy.queue_pressure_warn_depth as nat == env_number(
                env.queue_pressure_warn_depth,
                usize::MAX as nat,
                192,
            ),
    {
        let bind_address = match &env.bind_address {
            Some(b) => b.clone(),
            None => String::from_str("0.0.0.0:7777"),
        };
        let default_port = websocket_port_default(bind_address.as_str());
        let tick_rate = number_or(&env.tick_rate, usize::MAX as u64, 60) as usize;
        let max_clients = number_or(&env.max_clients, usize::MAX as u64, 32) as usize;
        let runtime_mode = match &env.runtime_mode {
            Some(m) => m.clone(),
            None => String::from_str("network"),
        };
        let mode_chars = chars_of(runtime_mode.as_str());
        let by_mode = chars_eq_ignore_ascii_case(&mode_chars, "network");
        let enable_websocket = match &env.enable_websocket {
            Some(v) => {
                let value_chars = chars_of(v.as_str());
                match switch_word(&value_chars) {
                    Some(b) => b,
                    None => by_mode,
                }
            },
            None => by_mode,
        };
        let websocket_port = number_or(&env.websocket_port, 65535, default_port as u64) as u16;
        let transport_policy = TransportPolicy {
            snapshot_interval: number_or(&env.snapshot_interval, u64::MAX, 10),
            client_inactivity_timeout_ticks: number_or(
                &env.client_inactivity_timeout_ticks,
                u64::MAX,
                600,
            ),
            queue_pressure_warn_depth: number_or(
                &env.queue_pressure_warn_depth,
                usize::MAX as u64,
                192,
            ) as usize,
        };
        AuthorityRuntimeConfig {
            bind_address,
            enable_websocket,
            websocket_port,
            max_clients,
            tick_rate,
            runtime_mode,
            transport_policy,
        }
    }

    /// The direct-connect server configuration for this authority host: the
    /// bind target split into host and port, the transport policy, and the
    /// tick rate narrowed to `u32` (truncating, as `as u32` does).
    pub fn network_server_config(&self) -> (res: Result<ServerConfig, BindTargetError>)
        ensures
            match port_field(self.bind_address@) {
                None => res is Err,
                Some(field) => match spec_parse_unsigned(field, 65535) {
                    None => res is Err,
                    Some(port) => res matches Ok(cfg) && cfg.bind_addr@ == self.bind_address@.take(
                        first_index(self.bind_address@, ':'),
                    ) && cfg.bind_port == port && cfg.max_clients == self.max_clients
                        && cfg.tick_rate == self.tick_rate as u32 && cfg.snapshot_interval
                        == self.transport_policy.snapshot_interval && cfg.enable_websocket
                        == self.enable_websocket && cfg.websocket_port == self.websocket_port
                        && cfg.client_inactivity_timeout_ticks
                        == self.transport_policy.client_inactivity_timeout_ticks
                        && cfg.queue_pressure_warn_depth
                        == self.transport_policy.queue_pressure_warn_depth,
                },
            },
    {
        let (bind_addr, bind_port) = match parse_bind_target(self.bind_address.as_str()) {
            Ok(target) => target,
            Err(err) => {
                return Err(err);
            },
        };
        Ok(ServerConfig {
            max_clients: self.max_clients,
            tick_rate: self.tick_rate as u32,
            snapshot_interval: self.transport_policy.snapshot_interval,
            bind_addr,
            bind_port,
            enable_websocket: self.enable_websocket,
            websocket_port: self.websocket_port,
            client_inactivity_timeout_ticks: self.transport_policy.client_inactivity_timeout_ticks,
            queue_pressure_warn_depth: self.transport_policy.queue_pressure_warn_depth,
        })
    }
}

} // verus!
