//! Client-side connection helpers shared by the native and browser clients:
//! the error type, the browser WebSocket address, and the reconnect backoff.

use vstd::prelude::*;
use crate::decimal::{decimal_digits, decimal_string};
use crate::protocol::ClientConfig;

verus! {

/// Errors of a game client.
#[derive(Debug, Clone, PartialEq, Eq)]
pub enum ClientError {
    NotConnected,
    Connection(String),
    Serialization(String),
    Config(String),
    Timeout,
    Rejected(String),
}

impl ClientError {
    /// The display text of the error.
    pub fn message(&self) -> (res: String)
        ensures
            match self {
                ClientError::NotConnected => res@ == "Not connected to server"@,
                ClientError::Connection(m) => res@ == "Connection error: "@ + m@,
                ClientError::Serialization(m) => res@ == "Serialization error: "@ + m@,
                ClientError::Config(m) => res@ == "Config error: "@ + m@,
                ClientError::Timeout => res@ == "Connection timeout"@,
                ClientError::Rejected(m) => res@ == "Connection rejected: "@ + m@,
            },
    {
        match self {
            ClientError::NotConnected => String::from_str("Not connected to server"),
            ClientError::Connection(m) => String::from_str("Connection error: ").concat(m.as_str()),
            ClientError::Serialization(m) => String::from_str("Serialization error: ").concat(m.as_str()),
            ClientError::Config(m) => String::from_str("Config error: ").concat(m.as_str()),
            ClientError::Timeout => String::from_str("Connection timeout"),
            ClientError::Rejected(m) => String::from_str("Connection rejected: ").concat(m.as_str()),
        }
    }
}

/// The WebSocket scheme for a page loaded over `page_protocol`: secure
/// `wss` for an `https:` page, plain `ws` otherwise.
pub open spec fn spec_ws_scheme(page_protocol: Seq<char>) -> Seq<char> {
    if page_protocol == "https:"@ {
        "wss"@
    } else {
        "ws"@
    }
}

/// The WebSocket address of the server in `config`, for a page loaded over
/// `page_protocol` (the browser's `location.protocol`, such as "https:").
pub fn build_ws_url(page_protocol: &str, config: &ClientConfig) -> (res: String)
    ensures
        res@ == spec_ws_scheme(page_protocol@) + "://"@ + config.server_addr@ + ":"@ + decimal_digits(
            config.server_port as nat,
        ),
{
    let secure = String::from_str(page_protocol) == String::from_str("https:");
    let scheme = if secure {
        String::from_str("wss")
    } else {
        String::from_str("ws")
    };
    let url = scheme.concat("://");
    let url = url.concat(config.server_addr.as_str());
    let url = url.concat(":");
    url.concat(decimal_string(config.server_port as u64).as_str())
}

/// `2^n` for small `n`.
pub open spec fn pow2(n: nat) -> nat
    decreases n,
{
    if n == 0 {
        1
    } else {
        2 * pow2((n - 1) as nat)
    }
}

/// Delay before the next reconnect attempt after `attempts` successful
/// reopenings: 250 ms doubled per attempt (at most six doublings), capped
/// at 10 seconds.
pub open spec fn spec_reconnect_delay_ms(attempts: u32) -> nat {
    let doublings: nat = if attempts > 6 {
        6
    } else {
        attempts as nat
    };
    let delay = 250 * pow2(doublings);
    if delay > 10_000 {
        10_000
    } else {
        delay
    }
}

/// The reconnect backoff in milliseconds after `attempts` reopenings.
pub fn reconnect_delay_ms(attempts: u32) -> (res: u64)
    ensures
        res == spec_reconnect_delay_ms(attempts),
{
    let doublings: u32 = if attempts > 6 {
        6
    } else {
        attempts
    };
    let mut delay: u64 = 250;
    let mut i: u32 = 0;
    while i < doublings
        invariant
            i <= doublings <= 6,
            delay == 250 * pow2(i as nat),
            delay <= 16_000,
        decreases doublings - i,
    {
        proof {
            assert(pow2((i + 1) as nat) == 2 * pow2(i as nat));
            assert(i + 1 <= 6);
            lemma_pow2_bound((i + 1) as nat);
        }
        delay = delay * 2;
        i = i + 1;
    }
    if delay > 10_000 {
        10_000
    } else {
        delay
    }
}

proof fn lemma_pow2_bound(n: nat)
    requires
        n <= 6,
    ensures
        pow2(n) <= 64,
{
    reveal_with_fuel(pow2, 7);
}

/// The backoff never shrinks as attempts accumulate and never exceeds ten
/// seconds; from the sixth reopening on it stays at the cap.
pub proof fn lemma_reconnect_backoff(attempts: u32, more: u32)
    requires
        attempts <= more,
    ensures
        spec_reconnect_delay_ms(attempts) <= spec_reconnect_delay_ms(more),
        spec_reconnect_delay_ms(more) <= 10_000,
        attempts >= 6 ==> spec_reconnect_delay_ms(attempts) == 10_000,
{
    reveal_with_fuel(pow2, 7);
}

} // verus!
