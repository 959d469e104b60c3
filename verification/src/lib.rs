//! Verified core of a Pulsar relay node: the publish/subscribe relay rules,
//! the tunnel session bookkeeping, the uptime statistics and the small
//! text formats that the node speaks.

pub mod clock;
pub mod codec;
pub mod config;
pub mod peers;
pub mod pubkey;
pub mod relay;
pub mod socket;
pub mod stats;
pub mod storage;
pub mod subscribers;
pub mod text;
pub mod tunnel;
pub mod uptime;
