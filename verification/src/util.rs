//! The keepalive cadence: how long the client waits before it asks the
//! server for a sign of life, and what it sends then.

use crate::websocket::irc::KEEPALIVE_PING;
use rand::Rng;
use vstd::prelude::*;

verus! {

/// The server's prefix.
pub const TMI: &'static str = ":tmi.twitch.tv";

/// The chat endpoint.
pub const URL_CHAT: &'static str = "wss://irc-ws.chat.twitch.tv/";

/// The endpoint of the topic subscription service.
pub const URL_EVNT: &'static str = "wss://pubsub-edge.twitch.tv/v1";

/// The part of the wait between two liveness requests that never changes,
/// in milliseconds.
pub const KEEPALIVE_BASE_MS: u64 = 240_000;

/// The bound below which the changing part of the wait is drawn, in
/// milliseconds.
pub const KEEPALIVE_JITTER_MS: u64 = 10_000;

/// Draws a number with `rand::Rng::gen_range` on the half-open range from
/// `low` to `high`, out of the generator that `rand::thread_rng` hands out.
/// The number lies in the range; which one it is, chance decides. An empty
/// range is left out: `gen_range` panics on it.
#[verifier::external_body]
fn random_between(low: u64, high: u64) -> (drawn: u64)
    requires
        low < high,
    ensures
        low <= drawn < high,
{
    rand::thread_rng().gen_range(low..high)
}

/// The changing part of the next wait, in milliseconds.
pub fn get_rand_offset() -> (offset: u64)
    ensures
        offset < KEEPALIVE_JITTER_MS,
{
    random_between(0, KEEPALIVE_JITTER_MS)
}

/// The wait that comes with the offset `offset`, in milliseconds.
pub fn keepalive_delay(offset: u64) -> (delay: u64)
    requires
        offset < KEEPALIVE_JITTER_MS,
    ensures
        delay == KEEPALIVE_BASE_MS + offset,
{
    KEEPALIVE_BASE_MS + offset
}

/// One round of the keepalive: how long to sleep, and the line to send on
/// waking.
#[derive(Clone, Debug, PartialEq, Eq)]
pub struct KeepalivePlan {
    /// The time to sleep, in milliseconds.
    pub delay_ms: u64,
    /// The line to send after the sleep.
    pub probe: String,
}

/// The round that comes with the offset `offset`.
pub fn plan_keepalive(offset: u64) -> (plan: KeepalivePlan)
    requires
        offset < KEEPALIVE_JITTER_MS,
    ensures
        plan.delay_ms == KEEPALIVE_BASE_MS + offset,
        plan.probe@ == KEEPALIVE_PING@,
{
    KeepalivePlan { delay_ms: keepalive_delay(offset), probe: String::from_str(KEEPALIVE_PING) }
}

/// The next round of the keepalive, with a freshly drawn offset: the sleep
/// lasts at least the base time and less than the base time and the bound
/// of the offset together.
pub fn jitter() -> (plan: KeepalivePlan)
    ensures
        KEEPALIVE_BASE_MS <= plan.delay_ms < KEEPALIVE_BASE_MS + KEEPALIVE_JITTER_MS,
        plan.probe@ == KEEPALIVE_PING@,
{
    plan_keepalive(get_rand_offset())
}

} // verus!
