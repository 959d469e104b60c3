//! The proof of uptime: its body and the status line after it is sent.

use crate::stats::ProofCounters;
use crate::text::{decimal, u64_to_decimal};
use vstd::prelude::*;
use vstd::string::*;

verus! {

/// Seconds between two proofs of uptime.
pub const PROOF_INTERVAL_SECS: u64 = 300;

/// Seconds before the first proof after a start.
pub const FIRST_PROOF_DELAY_SECS: u64 = 5;

/// Seconds between two attempts to reopen the tunnel.
pub const TUNNEL_RETRY_SECS: u64 = 5;

/// The body of a proof of uptime; the byte count is sent as decimal text.
pub struct ProofBody {
    pub bytes_relayed: String,
    pub active_connections: u32,
    pub unique_peers: u32,
}

/// The body that reports `c`.
pub fn proof_body(c: &ProofCounters) -> (b: ProofBody)
    ensures
        b.bytes_relayed@ == decimal(c.bytes as nat),
        b.active_connections == c.connections,
        b.unique_peers == c.peers,
{
    ProofBody {
        bytes_relayed: u64_to_decimal(c.bytes),
        active_connections: c.connections,
        unique_peers: c.peers,
    }
}

/// Status line after the platform answered a proof with `status` (the
/// status code and its reason), for `bytes` bytes and `peers` peers.
pub fn proof_status_line(status: &str, bytes: u64, peers: u32) -> (s: String)
    ensures
        s@ == status@ + " ("@ + decimal(bytes as nat) + " B, "@ + decimal(peers as nat) + " peers)"@,
{
    let b = u64_to_decimal(bytes);
    let p = u64_to_decimal(peers as u64);
    String::from_str(status).concat(" (").concat(b.as_str()).concat(" B, ").concat(p.as_str()).concat(
        " peers)",
    )
}

/// Status line after a proof could not be sent.
pub fn proof_error_line(err: &str) -> (s: String)
    ensures
        s@ == "err: "@ + err@,
{
    String::from_str("err: ").concat(err)
}

} // verus!
