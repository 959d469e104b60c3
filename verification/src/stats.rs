//! The relay's traffic and uptime statistics, and the snapshot shown to the
//! user.

use crate::clock::elapsed_seconds;
use crate::config::is_success;
use crate::peers::PeerSet;
use crate::text::{decimal, digits_value, lemma_decimal_reads_back, u64_to_decimal};
use vstd::prelude::*;

verus! {

/// `a + b`, capped at the largest `u64`.
pub open spec fn saturating_sum(a: u64, b: int) -> u64 {
    if a + b > u64::MAX {
        u64::MAX
    } else {
        (a + b) as u64
    }
}

/// Counters of one relay node. The session figures (`bytes_relayed`,
/// `unique_peers`) cover the time since the last proof of uptime; the
/// lifetime figures cover the whole run.
pub struct Stats {
    pub bytes_relayed: u64,
    pub unique_peers: PeerSet,
    pub lifetime_bytes: u64,
    pub lifetime_peers: PeerSet,
    pub started_at: Option<std::time::Instant>,
    pub active_connections: u32,
    pub last_proof_at: Option<std::time::Instant>,
    pub last_proof_status: Option<String>,
}

/// What a proof of uptime reports: the session figures and the open
/// connections at the moment it is taken, with the peers it counted, so
/// that a successful proof settles exactly what it reported.
pub struct ProofCounters {
    pub bytes: u64,
    pub peers: u32,
    pub connections: u32,
    pub reported_peers: PeerSet,
}

impl Stats {
    /// The lifetime figures never fall below the session figures.
    pub open spec fn wf(&self) -> bool {
        &&& self.unique_peers@.subset_of(self.lifetime_peers@)
        &&& self.bytes_relayed <= self.lifetime_bytes
    }

    /// The fields other than the relayed bytes and the peers are as in `other`.
    pub open spec fn same_except_traffic(&self, other: &Stats) -> bool {
        &&& self.started_at == other.started_at
        &&& self.active_connections == other.active_connections
        &&& self.last_proof_at == other.last_proof_at
        &&& self.last_proof_status == other.last_proof_status
    }

    /// The fields other than the connection count are as in `other`.
    pub open spec fn same_but_connections(&self, other: &Stats) -> bool {
        &&& self.bytes_relayed == other.bytes_relayed
        &&& self.lifetime_bytes == other.lifetime_bytes
        &&& self.unique_peers@ == other.unique_peers@
        &&& self.lifetime_peers@ == other.lifetime_peers@
        &&& self.started_at == other.started_at
        &&& self.last_proof_at == other.last_proof_at
        &&& self.last_proof_status == other.last_proof_status
    }

    /// Everything zero, empty or unset.
    pub fn new() -> (s: Self)
        ensures
            s.bytes_relayed == 0,
            s.unique_peers@ == Set::<Seq<char>>::empty(),
            s.lifetime_bytes == 0,
            s.lifetime_peers@ == Set::<Seq<char>>::empty(),
            s.started_at is None,
            s.active_connections == 0,
            s.last_proof_at is None,
            s.last_proof_status is None,
            s.wf(),
    {
        Stats {
            bytes_relayed: 0,
            unique_peers: PeerSet::new(),
            lifetime_bytes: 0,
            lifetime_peers: PeerSet::new(),
            started_at: None,
            active_connections: 0,
            last_proof_at: None,
            last_proof_status: None,
        }
    }

    /// Counts `pubkey` as served, in this session and for the lifetime.
    pub fn record_peer(&mut self, pubkey: &String)
        requires
            old(self).wf(),
        ensures
            final(self).wf(),
            final(self).unique_peers@ == old(self).unique_peers@.insert(pubkey@),
            final(self).lifetime_peers@ == old(self).lifetime_peers@.insert(pubkey@),
            final(self).bytes_relayed == old(self).bytes_relayed,
            final(self).lifetime_bytes == old(self).lifetime_bytes,
            final(self).same_except_traffic(old(self)),
    {
        self.unique_peers.insert(pubkey.clone());
        self.lifetime_peers.insert(pubkey.clone());
    }

    /// Adds `out_len` bytes per delivered copy to both byte counters, capped
    /// at the largest `u64`.
    pub fn record_relayed(&mut self, out_len: u64, delivered: u64)
        requires
            old(self).wf(),
            out_len * delivered <= u64::MAX,
        ensures
            final(self).wf(),
            final(self).bytes_relayed == saturating_sum(old(self).bytes_relayed, out_len * delivered),
            final(self).lifetime_bytes == saturating_sum(old(self).lifetime_bytes, out_len * delivered),
            final(self).unique_peers@ == old(self).unique_peers@,
            final(self).lifetime_peers@ == old(self).lifetime_peers@,
            final(self).same_except_traffic(old(self)),
    {
        let added = out_len * delivered;
        self.bytes_relayed = self.bytes_relayed.saturating_add(added);
        self.lifetime_bytes = self.lifetime_bytes.saturating_add(added);
    }

    /// One more open connection.
    pub fn connection_opened(&mut self)
        requires
            old(self).active_connections < u32::MAX,
        ensures
            final(self).active_connections == old(self).active_connections + 1,
            final(self).same_but_connections(old(self)),
    {
        self.active_connections = self.active_connections + 1;
    }

    /// One connection fewer, never below zero.
    pub fn connection_closed(&mut self)
        ensures
            final(self).active_connections == (if old(self).active_connections == 0 {
                0
            } else {
                old(self).active_connections - 1
            }),
            final(self).same_but_connections(old(self)),
    {
        self.active_connections = self.active_connections.saturating_sub(1);
    }

    /// No connection left open (the tunnel dropped every session).
    pub fn all_connections_closed(&mut self)
        ensures
            final(self).active_connections == 0,
            final(self).same_but_connections(old(self)),
    {
        self.active_connections = 0;
    }

    /// The figures a proof of uptime reports: the session bytes and peers
    /// and the open connections.
    pub fn proof_counters(&self) -> (c: ProofCounters)
        ensures
            c.bytes == self.bytes_relayed,
            c.peers == self.unique_peers@.len() as u32,
            c.connections == self.active_connections,
            c.reported_peers@ == self.unique_peers@,
    {
        ProofCounters {
            bytes: self.bytes_relayed,
            peers: self.unique_peers.len() as u32,
            connections: self.active_connections,
            reported_peers: self.unique_peers.copy(),
        }
    }

    /// Settles a proof of uptime that reported `reported`, by the
    /// platform's answer: `status` is the HTTP status, `None` when the
    /// request itself failed. A success (2xx) takes what was reported off the
    /// session figures, so that bytes and peers counted while the proof was
    /// on its way stay for the next one; a failed proof keeps everything, so
    /// that the next proof reports it again.
    pub fn settle_proof(&mut self, reported: &ProofCounters, status: Option<u16>)
        requires
            old(self).wf(),
        ensures
            final(self).wf(),
            (status matches Some(code) && is_success(code)) ==> {
                &&& final(self).bytes_relayed == (if old(self).bytes_relayed >= reported.bytes {
                    old(self).bytes_relayed - reported.bytes
                } else {
                    0
                })
                &&& final(self).unique_peers@ == old(self).unique_peers@.difference(
                    reported.reported_peers@,
                )
            },
            !(status matches Some(code) && is_success(code)) ==> {
                &&& final(self).bytes_relayed == old(self).bytes_relayed
                &&& final(self).unique_peers@ == old(self).unique_peers@
            },
            final(self).lifetime_bytes == old(self).lifetime_bytes,
            final(self).lifetime_peers@ == old(self).lifetime_peers@,
            final(self).same_except_traffic(old(self)),
    {
        let succeeded = match status {
            Some(code) => 200 <= code && code <= 299,
            None => false,
        };
        if succeeded {
            self.bytes_relayed = self.bytes_relayed.saturating_sub(reported.bytes);
            self.unique_peers.remove_all(&reported.reported_peers);
        }
    }

    /// Notes the outcome of a proof of uptime sent at `at`.
    pub fn record_proof(&mut self, at: std::time::Instant, status: String)
        ensures
            final(self).last_proof_at == Some(at),
            final(self).last_proof_status == Some(status),
            final(self).bytes_relayed == old(self).bytes_relayed,
            final(self).lifetime_bytes == old(self).lifetime_bytes,
            final(self).unique_peers@ == old(self).unique_peers@,
            final(self).lifetime_peers@ == old(self).lifetime_peers@,
            final(self).started_at == old(self).started_at,
            final(self).active_connections == old(self).active_connections,
    {
        self.last_proof_at = Some(at);
        self.last_proof_status = Some(status);
    }

    /// Notes a status line without a new proof (tunnel reconnects).
    pub fn record_status(&mut self, status: String)
        ensures
            final(self).last_proof_status == Some(status),
            final(self).last_proof_at == old(self).last_proof_at,
            final(self).bytes_relayed == old(self).bytes_relayed,
            final(self).lifetime_bytes == old(self).lifetime_bytes,
            final(self).unique_peers@ == old(self).unique_peers@,
            final(self).lifetime_peers@ == old(self).lifetime_peers@,
            final(self).started_at == old(self).started_at,
            final(self).active_connections == old(self).active_connections,
    {
        self.last_proof_status = Some(status);
    }

    /// The runner started at `at`.
    pub fn mark_started(&mut self, at: std::time::Instant)
        ensures
            final(self).started_at == Some(at),
            final(self).bytes_relayed == old(self).bytes_relayed,
            final(self).lifetime_bytes == old(self).lifetime_bytes,
            final(self).unique_peers@ == old(self).unique_peers@,
            final(self).lifetime_peers@ == old(self).lifetime_peers@,
            final(self).active_connections == old(self).active_connections,
            final(self).last_proof_at == old(self).last_proof_at,
            final(self).last_proof_status == old(self).last_proof_status,
    {
        self.started_at = Some(at);
    }

    /// The runner stopped: the session figures are cleared so that a later
    /// start shows a clean state, the lifetime figures are kept, and the
    /// status reads "stopped".
    pub fn reset_on_stop(&mut self)
        requires
            old(self).wf(),
        ensures
            final(self).wf(),
            final(self).started_at is None,
            final(self).active_connections == 0,
            final(self).bytes_relayed == 0,
            final(self).unique_peers@ == Set::<Seq<char>>::empty(),
            final(self).last_proof_status matches Some(s) && s@ == "stopped"@,
            final(self).lifetime_bytes == old(self).lifetime_bytes,
            final(self).lifetime_peers@ == old(self).lifetime_peers@,
            final(self).last_proof_at == old(self).last_proof_at,
    {
        self.started_at = None;
        self.active_connections = 0;
        self.bytes_relayed = 0;
        self.unique_peers.clear();
        self.last_proof_status = Some(String::from_str("stopped"));
    }
}

impl Default for Stats {
    fn default() -> (s: Self)
        ensures
            s.bytes_relayed == 0,
            s.unique_peers@ == Set::<Seq<char>>::empty(),
            s.lifetime_bytes == 0,
            s.lifetime_peers@ == Set::<Seq<char>>::empty(),
            s.started_at is None,
            s.active_connections == 0,
            s.last_proof_at is None,
            s.last_proof_status is None,
    {
        Stats::new()
    }
}

/// The figures shown to the user.
pub struct StatsSnapshot {
    pub uptime_seconds: u64,
    pub active_connections: u32,
    pub unique_peers_session: u32,
    pub bytes_pending: String,
    pub lifetime_bytes: String,
    pub lifetime_peers: u32,
    pub last_proof_status: Option<String>,
}

/// `s` shows the figures of `st` (all but the uptime).
pub open spec fn shows(s: StatsSnapshot, st: Stats) -> bool {
    &&& s.active_connections == st.active_connections
    &&& s.unique_peers_session == st.unique_peers@.len() as u32
    &&& s.bytes_pending@ == decimal(st.bytes_relayed as nat)
    &&& s.lifetime_bytes@ == decimal(st.lifetime_bytes as nat)
    &&& s.lifetime_peers == st.lifetime_peers@.len() as u32
    &&& s.last_proof_status == st.last_proof_status
}

/// A snapshot reads back as the figures it shows: the lifetime byte text as
/// the lifetime byte counter and the pending text as the session byte
/// counter, whatever the other one holds; the session and lifetime peer
/// counts as the sizes of their own sets; the connections and the status as
/// they stand.
pub proof fn lemma_snapshot_reads_back(s: StatsSnapshot, st: Stats)
    requires
        shows(s, st),
    ensures
        digits_value(s.lifetime_bytes@) == st.lifetime_bytes,
        digits_value(s.bytes_pending@) == st.bytes_relayed,
        s.unique_peers_session == st.unique_peers@.len() as u32,
        s.lifetime_peers == st.lifetime_peers@.len() as u32,
        s.active_connections == st.active_connections,
        s.last_proof_status == st.last_proof_status,
{
    lemma_decimal_reads_back(st.lifetime_bytes as nat);
    lemma_decimal_reads_back(st.bytes_relayed as nat);
}

/// The snapshot of `st` with the given uptime.
pub fn snapshot_with_uptime(st: &Stats, uptime_seconds: u64) -> (s: StatsSnapshot)
    ensures
        s.uptime_seconds == uptime_seconds,
        shows(s, *st),
{
    let status = match &st.last_proof_status {
        Some(t) => Some(t.clone()),
        None => None,
    };
    StatsSnapshot {
        uptime_seconds,
        active_connections: st.active_connections,
        unique_peers_session: st.unique_peers.len() as u32,
        bytes_pending: u64_to_decimal(st.bytes_relayed),
        lifetime_bytes: u64_to_decimal(st.lifetime_bytes),
        lifetime_peers: st.lifetime_peers.len() as u32,
        last_proof_status: status,
    }
}

/// Read-only snapshot for the user: the uptime is read from the monotonic
/// clock since the start, 0 when the runner has not started.
pub fn snapshot(st: &Stats) -> (s: StatsSnapshot)
    ensures
        st.started_at is None ==> s.uptime_seconds == 0,
        shows(s, *st),
{
    let uptime = match &st.started_at {
        Some(t) => elapsed_seconds(t),
        None => 0,
    };
    snapshot_with_uptime(st, uptime)
}

} // verus!
