//! The outbound tunnel to the platform: browser sessions multiplexed over
//! one connection, each running the relay protocol.

use crate::clock::unix_seconds;
use crate::relay::{
    handle_pubsub_at, key_of, lemma_leave_unlists, lemma_pubsub_keeps_listing, lemma_pubsub_keeps_others, FrameStep, Received, leave_subscription, pubsub_outcome, table_after_leaving, Inbound,
    PubsubAction, SessionState, MAX_PAYLOAD_BYTES,
};
use crate::stats::Stats;
use crate::codec::base64_standard_encoding;
use crate::storage::{encodable, to_fetched, FetchedMsg, StoredMessage};
use crate::subscribers::{listed_under, no_empty_lists, SubscriberTable};
use std::collections::HashMap;
use vstd::prelude::*;
use vstd::std_specs::iter::IteratorSpec;

verus! {

broadcast use vstd::std_specs::hash::group_hash_axioms;

/// One tunnelled browser session: its protocol state, and the subscriber
/// number under which it receives relayed packets.
pub struct TunnelSession {
    pub state: SessionState,
    pub channel: u64,
}

/// The sessions open on the tunnel, by session id.
pub struct Tunnel {
    sessions: HashMap<u64, TunnelSession>,
}

/// A session just opened on channel `channel`: not subscribed, no publish.
pub open spec fn fresh_session(channel: u64) -> TunnelSession {
    TunnelSession {
        state: SessionState { subscribed_to: None, sec_window: 0, pub_this_sec: 0 },
        channel,
    }
}

/// The sessions' channels differ from one another and are numbered at most
/// `n`.
pub open spec fn channels_issued(sessions: Map<u64, TunnelSession>, n: u64) -> bool {
    &&& forall|a: u64| #[trigger] sessions.contains_key(a) ==> sessions[a].channel <= n
    &&& forall|a: u64, b: u64|
        #[trigger] sessions.contains_key(a) && #[trigger] sessions.contains_key(b) && a != b
            ==> sessions[a].channel != sessions[b].channel
}

/// The table after every session of `sessions`, in that order, left the key
/// it was subscribed under.
pub open spec fn leave_all(m: Map<Seq<char>, Seq<u64>>, sessions: Seq<TunnelSession>) -> Map<
    Seq<char>,
    Seq<u64>,
>
    decreases sessions.len(),
{
    if sessions.len() == 0 {
        m
    } else {
        table_after_leaving(
            leave_all(m, sessions.drop_last()),
            sessions.last().state.subscribed_to,
            sessions.last().channel,
        )
    }
}

/// When the tunnel drops and its sessions leave, in any order, every
/// session's channel is left listed nowhere, no list is left empty, and any
/// other subscriber keeps its listing, provided the sessions' channels differ
/// and each was listed under its session's key.
pub proof fn lemma_leave_all_unlists(
    m: Map<Seq<char>, Seq<u64>>,
    sessions: Seq<TunnelSession>,
    other: u64,
    other_key: Option<Seq<char>>,
)
    requires
        no_empty_lists(m),
        forall|i: int|
            0 <= i < sessions.len() ==> listed_under(
                m,
                (#[trigger] sessions[i]).channel,
                key_of(sessions[i].state.subscribed_to),
            ),
        forall|i: int, j: int|
            0 <= i < sessions.len() && 0 <= j < sessions.len() && i != j ==> (#[trigger] sessions[i]).channel
                != (#[trigger] sessions[j]).channel,
    ensures
        no_empty_lists(leave_all(m, sessions)),
        forall|i: int|
            0 <= i < sessions.len() ==> listed_under(
                leave_all(m, sessions),
                (#[trigger] sessions[i]).channel,
                None,
            ),
        (forall|i: int| 0 <= i < sessions.len() ==> (#[trigger] sessions[i]).channel != other)
            && listed_under(m, other, other_key) ==> listed_under(
            leave_all(m, sessions),
            other,
            other_key,
        ),
    decreases sessions.len(),
{
    if sessions.len() > 0 {
        let rest = sessions.drop_last();
        let last = sessions.last();
        let n = sessions.len() - 1;
        assert forall|i: int| 0 <= i < rest.len() implies listed_under(
            m,
            (#[trigger] rest[i]).channel,
            key_of(rest[i].state.subscribed_to),
        ) by {
            assert(rest[i] == sessions[i]);
        }
        assert forall|i: int, j: int|
            0 <= i < rest.len() && 0 <= j < rest.len() && i != j implies (#[trigger] rest[i]).channel
                != (#[trigger] rest[j]).channel by {
            assert(rest[i] == sessions[i]);
            assert(rest[j] == sessions[j]);
        }
        assert forall|i: int| 0 <= i < rest.len() implies (#[trigger] rest[i]).channel != last.channel by {
            assert(rest[i] == sessions[i]);
            assert(sessions[n] == last);
        }
        assert(listed_under(m, last.channel, key_of(last.state.subscribed_to))) by {
            assert(sessions[n] == last);
        }
        lemma_leave_all_unlists(m, rest, last.channel, key_of(last.state.subscribed_to));
        lemma_leave_all_unlists(m, rest, other, other_key);
        let mid = leave_all(m, rest);
        lemma_leave_unlists(mid, last.state.subscribed_to, last.channel, other, other_key);
        assert forall|i: int| 0 <= i < sessions.len() implies listed_under(
            leave_all(m, sessions),
            (#[trigger] sessions[i]).channel,
            None,
        ) by {
            if i == n {
                lemma_leave_unlists(mid, last.state.subscribed_to, last.channel, last.channel, None);
            } else {
                assert(rest[i] == sessions[i]);
                assert(sessions[i].channel != last.channel);
                lemma_leave_unlists(mid, last.state.subscribed_to, last.channel, sessions[i].channel, None);
            }
        }
        if (forall|i: int| 0 <= i < sessions.len() ==> (#[trigger] sessions[i]).channel != other) {
            assert(sessions[n].channel != other);
            assert forall|i: int| 0 <= i < rest.len() implies (#[trigger] rest[i]).channel != other by {
                assert(rest[i] == sessions[i]);
            }
        }
    }
}

/// When the tunnel drops, its sessions leaving in any order that takes each
/// once, and their channels were handed out by the table, every session's
/// channel is left listed nowhere and no list is left empty, provided each
/// session was listed under its key.
pub proof fn lemma_close_all_unlists(
    sessions: Map<u64, TunnelSession>,
    n: u64,
    m: Map<Seq<char>, Seq<u64>>,
    order: Seq<u64>,
)
    requires
        channels_issued(sessions, n),
        order.to_set() == sessions.dom(),
        order.no_duplicates(),
        no_empty_lists(m),
        forall|sid: u64|
            #[trigger] sessions.contains_key(sid) ==> listed_under(
                m,
                sessions[sid].channel,
                key_of(sessions[sid].state.subscribed_to),
            ),
    ensures
        no_empty_lists(leave_all(m, order.map_values(|sid: u64| sessions[sid]))),
        forall|sid: u64|
            #[trigger] sessions.contains_key(sid) ==> listed_under(
                leave_all(m, order.map_values(|x: u64| sessions[x])),
                sessions[sid].channel,
                None,
            ),
{
    let seq = order.map_values(|sid: u64| sessions[sid]);
    assert forall|i: int| 0 <= i < seq.len() implies sessions.contains_key(order[i]) && #[trigger] seq[i]
        == sessions[order[i]] by {
        assert(order.to_set().contains(order[i]));
    }
    assert forall|i: int, j: int|
        0 <= i < seq.len() && 0 <= j < seq.len() && i != j implies (#[trigger] seq[i]).channel
            != (#[trigger] seq[j]).channel by {
        assert(order.to_set().contains(order[i]));
        assert(order.to_set().contains(order[j]));
        assert(order[i] != order[j]);
    }
    lemma_leave_all_unlists(m, seq, 0, None);
    assert forall|sid: u64| #[trigger] sessions.contains_key(sid) implies listed_under(
        leave_all(m, order.map_values(|x: u64| sessions[x])),
        sessions[sid].channel,
        None,
    ) by {
        assert(order.to_set().contains(sid));
        let i = choose|i: int| 0 <= i < order.len() && order[i] == sid;
        assert(seq[i] == sessions[sid]);
        assert(order.map_values(|x: u64| sessions[x]) == seq);
    }
}

/// After the first `i` steps of a run of protocol messages from `channel`,
/// the table keeps its shape, `channel` is listed under its session's key,
/// others keep their listing, and the connection count is unchanged.
proof fn lemma_steps_keep_listing(
    ms: Seq<Map<Seq<char>, Seq<u64>>>,
    sts: Seq<Stats>,
    ss: Seq<SessionState>,
    msgs: Seq<Inbound>,
    nows: Seq<u64>,
    rs: Seq<PubsubAction>,
    channel: u64,
    other: u64,
    other_key: Option<Seq<char>>,
    i: int,
)
    requires
        0 <= i <= msgs.len(),
        ss.len() == msgs.len() + 1,
        ms.len() == ss.len(),
        sts.len() == ss.len(),
        nows.len() == msgs.len(),
        rs.len() == msgs.len(),
        no_empty_lists(ms[0]),
        listed_under(ms[0], channel, key_of(ss[0].subscribed_to)),
        forall|j: int|
            0 <= j < msgs.len() ==> pubsub_outcome(
                ms[j],
                ms[j + 1],
                sts[j],
                sts[j + 1],
                ss[j],
                ss[j + 1],
                channel,
                #[trigger] msgs[j],
                nows[j],
                rs[j],
            ),
    ensures
        no_empty_lists(ms[i]),
        listed_under(ms[i], channel, key_of(ss[i].subscribed_to)),
        other != channel && listed_under(ms[0], other, other_key) ==> listed_under(ms[i], other, other_key),
        sts[i].active_connections == sts[0].active_connections,
    decreases i,
{
    if i > 0 {
        let j = i - 1;
        lemma_steps_keep_listing(ms, sts, ss, msgs, nows, rs, channel, other, other_key, j);
        assert(pubsub_outcome(ms[j], ms[j + 1], sts[j], sts[j + 1], ss[j], ss[j + 1], channel, msgs[j], nows[j], rs[j]));
        lemma_pubsub_keeps_listing(ms[j], ms[j + 1], sts[j], sts[j + 1], ss[j], ss[j + 1], channel, msgs[j], nows[j], rs[j]);
        if other != channel && listed_under(ms[0], other, other_key) {
            lemma_pubsub_keeps_others(
                ms[j],
                ms[j + 1],
                sts[j],
                sts[j + 1],
                ss[j],
                ss[j + 1],
                channel,
                msgs[j],
                nows[j],
                rs[j],
                other,
                other_key,
            );
        }
    }
}

/// A session's whole life on the tunnel: opened on a channel listed nowhere,
/// run through any protocol messages, then closed. Afterwards its channel is
/// listed nowhere, no list is left empty, every other subscriber keeps its
/// listing, the connection count is back where it was, and the tunnel holds
/// the sessions it held before, without `sid`.
pub proof fn lemma_session_lifecycle(
    tunnel: Map<u64, TunnelSession>,
    sid: u64,
    channel: u64,
    connections: u32,
    ms: Seq<Map<Seq<char>, Seq<u64>>>,
    sts: Seq<Stats>,
    ss: Seq<SessionState>,
    msgs: Seq<Inbound>,
    nows: Seq<u64>,
    rs: Seq<PubsubAction>,
    other: u64,
    other_key: Option<Seq<char>>,
)
    requires
        !tunnel.contains_key(sid),
        ss.len() == msgs.len() + 1,
        ms.len() == ss.len(),
        sts.len() == ss.len(),
        nows.len() == msgs.len(),
        rs.len() == msgs.len(),
        ss[0] == fresh_session(channel).state,
        sts[0].active_connections == connections + 1,
        no_empty_lists(ms[0]),
        listed_under(ms[0], channel, None),
        forall|i: int|
            0 <= i < msgs.len() ==> pubsub_outcome(
                ms[i],
                ms[i + 1],
                sts[i],
                sts[i + 1],
                ss[i],
                ss[i + 1],
                channel,
                #[trigger] msgs[i],
                nows[i],
                rs[i],
            ),
    ensures
        ({
            let n = msgs.len() as int;
            let closed = table_after_leaving(ms[n], ss[n].subscribed_to, channel);
            &&& no_empty_lists(closed)
            &&& listed_under(closed, channel, None)
            &&& other != channel && listed_under(ms[0], other, other_key) ==> listed_under(
                closed,
                other,
                other_key,
            )
            &&& sts[n].active_connections - 1 == connections
            &&& tunnel.insert(sid, TunnelSession { state: ss[n], channel }).remove(sid) == tunnel
        }),
{
    let n = msgs.len() as int;
    lemma_steps_keep_listing(ms, sts, ss, msgs, nows, rs, channel, other, other_key, n);
    lemma_leave_unlists(ms[n], ss[n].subscribed_to, channel, other, other_key);
    assert(tunnel.insert(sid, TunnelSession { state: ss[n], channel }).remove(sid) =~= tunnel);
}

/// Whether a tunnel frame is small enough to be read.
pub fn accepts_tunnel_frame(len: usize) -> (b: bool)
    ensures
        b == (len <= 2 * MAX_PAYLOAD_BYTES),
{
    len <= 2 * MAX_PAYLOAD_BYTES
}

/// A frame sent up the tunnel.
pub enum TunnelOut {
    Msg { sid: u64, data: serde_json::Value },
    Close { sid: u64 },
    Pong,
    Stored { id: String, ok: bool },
    Proof { id: String, hash: Option<String> },
    Fetched { recipient: String, messages: Vec<FetchedMsg> },
}

/// The write of a store request happened and succeeded.
pub open spec fn written(outcome: Option<Result<(), String>>) -> bool {
    match outcome {
        Some(Ok(())) => true,
        _ => false,
    }
}

/// The answer to a store request. Without a store the request is dropped
/// and nothing is answered; otherwise it succeeds only when the ciphertext
/// was decoded and written (`outcome` is `None` when nothing was written).
pub fn store_reply(id: String, has_storage: bool, outcome: Option<Result<(), String>>) -> (r:
    Option<TunnelOut>)
    ensures
        !has_storage ==> r is None,
        has_storage ==> (r matches Some(TunnelOut::Stored { id: i, ok }) && i == id && ok == written(
            outcome,
        )),
{
    if !has_storage {
        return None;
    }
    let ok = match outcome {
        Some(Ok(())) => true,
        _ => false,
    };
    Some(TunnelOut::Stored { id, ok })
}

/// The hash a challenge is answered with: the one computed, none when the
/// lookup failed or the message is missing.
pub open spec fn challenge_hash(answer: Result<Option<String>, String>) -> Option<String> {
    match answer {
        Ok(h) => h,
        Err(_) => None,
    }
}

/// The fetched messages stand for `found`: its messages, in order and in
/// base64, or none when the lookup failed.
pub open spec fn fetched_from(messages: Seq<FetchedMsg>, found: Result<Vec<StoredMessage>, String>) -> bool {
    match found {
        Ok(ms) => {
            &&& messages.len() == ms@.len()
            &&& forall|i: int|
                0 <= i < messages.len() ==> {
                    &&& (#[trigger] messages[i]).id == ms@[i].id
                    &&& messages[i].ciphertext@ == base64_standard_encoding(ms@[i].ciphertext@)
                    &&& messages[i].created_at == ms@[i].created_at
                }
        },
        Err(_) => messages.len() == 0,
    }
}

/// The answer to a storage challenge; `answer` is the store's lookup, `None`
/// without a store. Without a store the challenge is dropped and nothing is
/// answered; otherwise the answer carries the hash of the stored message, or
/// none when the lookup failed or the message is missing.
pub fn challenge_reply(id: String, answer: Option<Result<Option<String>, String>>) -> (r: Option<
    TunnelOut,
>)
    ensures
        answer is None ==> r is None,
        answer matches Some(a) ==> (r matches Some(TunnelOut::Proof { id: i, hash }) && i == id
            && hash == challenge_hash(a)),
{
    match answer {
        None => None,
        Some(a) => {
            let hash = match a {
                Ok(h) => h,
                Err(_) => None,
            };
            Some(TunnelOut::Proof { id, hash })
        },
    }
}

/// The answer to a fetch request; `found` is the store's lookup, `None`
/// without a store. Without a store the request is dropped and nothing is
/// answered; otherwise the answer lists the messages found, in order and in
/// base64, or none when the lookup failed.
pub fn fetch_reply(recipient: String, found: Option<Result<Vec<StoredMessage>, String>>) -> (r:
    Option<TunnelOut>)
    requires
        found matches Some(Ok(ms)) ==> forall|i: int|
            0 <= i < ms@.len() ==> encodable(#[trigger] ms@[i].ciphertext@),
    ensures
        found is None ==> r is None,
        found matches Some(f) ==> (r matches Some(TunnelOut::Fetched { recipient: rc, messages })
            && rc == recipient && fetched_from(messages@, f)),
{
    match found {
        None => None,
        Some(f) => {
            let messages = match f {
                Ok(ms) => to_fetched(ms),
                Err(_) => Vec::new(),
            };
            Some(TunnelOut::Fetched { recipient, messages })
        },
    }
}

/// The tunnel's frames: text and binary are read when at most twice
/// [`MAX_PAYLOAD_BYTES`] long; a ping is answered with a pong carrying its
/// payload; close, a transport error or the end of the stream stop the
/// tunnel;
/// anything else is left.
pub fn tunnel_frame_step(r: Received) -> (s: FrameStep)
    ensures
        s == (match r {
            Received::Text(n) | Received::Binary(n) => if n <= 2 * MAX_PAYLOAD_BYTES {
                FrameStep::Read
            } else {
                FrameStep::Skip
            },
            Received::Ping => FrameStep::AnswerPing,
            Received::Close | Received::Failed | Received::Ended => FrameStep::Stop,
            Received::Other => FrameStep::Skip,
        }),
{
    match r {
        Received::Text(n) | Received::Binary(n) => if accepts_tunnel_frame(n) {
            FrameStep::Read
        } else {
            FrameStep::Skip
        },
        Received::Ping => FrameStep::AnswerPing,
        Received::Close | Received::Failed | Received::Ended => FrameStep::Stop,
        Received::Other => FrameStep::Skip,
    }
}

/// The answer to the platform's protocol-level ping frame.
pub fn tunnel_ping_reply() -> (r: TunnelOut)
    ensures
        r == TunnelOut::Pong,
{
    TunnelOut::Pong
}

/// How a tunnel that was open ends once reading stopped on `last`: after a
/// transport error (`Failed`) as that error, whose text is `error`; after a
/// close or the end of the stream as a clean disconnect. Either way it is
/// reopened.
pub fn tunnel_ended(last: Received, error: String) -> (r: Result<(), String>)
    ensures
        last == Received::Failed ==> r == Err::<(), String>(error),
        last != Received::Failed ==> r == Ok::<(), String>(()),
{
    match last {
        Received::Failed => Err(error),
        _ => Ok(()),
    }
}

impl View for Tunnel {
    type V = Map<u64, TunnelSession>;

    closed spec fn view(&self) -> Map<u64, TunnelSession> {
        self.sessions@
    }
}

impl Tunnel {
    /// No session open.
    pub fn new() -> (t: Self)
        ensures
            t@ == Map::<u64, TunnelSession>::empty(),
    {
        Tunnel { sessions: HashMap::new() }
    }

    /// A browser session `sid` opens, on a new channel that `subs` hands
    /// out, which is returned. An open session with the same id is replaced.
    /// `None`, with nothing opened, once `subs` has no number left to give.
    pub fn open_session(&mut self, subs: &mut SubscriberTable, stats: &mut Stats, sid: u64) -> (r:
        Option<u64>)
        requires
            old(stats).active_connections < u32::MAX,
        ensures
            final(subs)@ == old(subs)@,
            r == (if old(subs).highest_channel() < u64::MAX {
                Some((old(subs).highest_channel() + 1) as u64)
            } else {
                None::<u64>
            }),
            final(subs).highest_channel() >= old(subs).highest_channel(),
            r matches Some(channel) ==> {
                &&& final(self)@ == old(self)@.insert(sid, fresh_session(channel))
                &&& listed_under(final(subs)@, channel, None)
                &&& final(stats).active_connections == old(stats).active_connections + 1
                &&& final(stats).same_but_connections(old(stats))
            },
            r is None ==> final(self)@ == old(self)@ && *final(stats) == *old(stats),
            channels_issued(old(self)@, old(subs).highest_channel()) ==> channels_issued(
                final(self)@,
                final(subs).highest_channel(),
            ),
    {
        let channel = match subs.new_channel() {
            Some(c) => c,
            None => return None,
        };
        let session = TunnelSession { state: SessionState::new(), channel };
        self.sessions.insert(sid, session);
        stats.connection_opened();
        Some(channel)
    }

    /// Runs a protocol message of session `sid` at second `now`; nothing
    /// happens for an unknown session. Returns the session's channel and
    /// what to send.
    pub fn session_message_at(
        &mut self,
        subs: &mut SubscriberTable,
        stats: &mut Stats,
        sid: u64,
        msg: Inbound,
        now: u64,
    ) -> (r: Option<(u64, PubsubAction)>)
        requires
            old(stats).wf(),
        ensures
            final(stats).wf(),
            final(subs).highest_channel() >= old(subs).highest_channel(),
            channels_issued(old(self)@, old(subs).highest_channel()) ==> channels_issued(
                final(self)@,
                final(subs).highest_channel(),
            ),
            !old(self)@.contains_key(sid) ==> {
                &&& r is None
                &&& final(self)@ == old(self)@
                &&& final(subs)@ == old(subs)@
                &&& *final(stats) == *old(stats)
            },
            old(self)@.contains_key(sid) ==> (r matches Some((ch, a)) && {
                &&& ch == old(self)@[sid].channel
                &&& final(self)@.contains_key(sid)
                &&& final(self)@ == old(self)@.insert(sid, final(self)@[sid])
                &&& final(self)@[sid].channel == ch
                &&& pubsub_outcome(
                    old(subs)@,
                    final(subs)@,
                    *old(stats),
                    *final(stats),
                    old(self)@[sid].state,
                    final(self)@[sid].state,
                    ch,
                    msg,
                    now,
                    a,
                )
            }),
    {
        match self.sessions.remove(&sid) {
            None => {
                assert(self@ =~= old(self)@);
                None
            },
            Some(mut session) => {
                let ch = session.channel;
                let a = handle_pubsub_at(subs, stats, &mut session.state, ch, msg, now);
                self.sessions.insert(sid, session);
                assert(self@ =~= old(self)@.insert(sid, self@[sid]));
                Some((ch, a))
            },
        }
    }

    /// Runs a protocol message of session `sid`, reading the wall clock for
    /// the rate limit.
    pub fn session_message(
        &mut self,
        subs: &mut SubscriberTable,
        stats: &mut Stats,
        sid: u64,
        msg: Inbound,
    ) -> (r: Option<(u64, PubsubAction)>)
        requires
            old(stats).wf(),
        ensures
            final(stats).wf(),
            final(subs).highest_channel() >= old(subs).highest_channel(),
            channels_issued(old(self)@, old(subs).highest_channel()) ==> channels_issued(
                final(self)@,
                final(subs).highest_channel(),
            ),
            !old(self)@.contains_key(sid) ==> {
                &&& r is None
                &&& final(self)@ == old(self)@
                &&& final(subs)@ == old(subs)@
                &&& *final(stats) == *old(stats)
            },
            old(self)@.contains_key(sid) ==> (r matches Some((ch, a)) && {
                &&& ch == old(self)@[sid].channel
                &&& final(self)@.contains_key(sid)
                &&& final(self)@ == old(self)@.insert(sid, final(self)@[sid])
                &&& final(self)@[sid].channel == ch
                &&& exists|now: u64|
                    pubsub_outcome(
                        old(subs)@,
                        final(subs)@,
                        *old(stats),
                        *final(stats),
                        old(self)@[sid].state,
                        final(self)@[sid].state,
                        ch,
                        msg,
                        now,
                        a,
                    )
            }),
    {
        let now = unix_seconds();
        self.session_message_at(subs, stats, sid, msg, now)
    }

    /// Session `sid` closes: it leaves its subscription and no longer counts
    /// as a connection. Returns its channel when it was open.
    pub fn close_session(&mut self, subs: &mut SubscriberTable, stats: &mut Stats, sid: u64) -> (r:
        Option<u64>)
        ensures
            r == (if old(self)@.contains_key(sid) {
                Some(old(self)@[sid].channel)
            } else {
                None::<u64>
            }),
            final(self)@ == old(self)@.remove(sid),
            final(subs).highest_channel() == old(subs).highest_channel(),
            channels_issued(old(self)@, old(subs).highest_channel()) ==> channels_issued(
                final(self)@,
                final(subs).highest_channel(),
            ),
            r is Some ==> {
                &&& final(subs)@ == table_after_leaving(
                    old(subs)@,
                    old(self)@[sid].state.subscribed_to,
                    old(self)@[sid].channel,
                )
                &&& final(stats).active_connections == (if old(stats).active_connections == 0 {
                    0
                } else {
                    old(stats).active_connections - 1
                })
                &&& final(stats).same_but_connections(old(stats))
            },
            r is None ==> final(subs)@ == old(subs)@ && *final(stats) == *old(stats),
    {
        match self.sessions.remove(&sid) {
            None => {
                assert(self@ =~= old(self)@.remove(sid));
                None
            },
            Some(session) => {
                leave_subscription(&session.state, subs, session.channel);
                stats.connection_closed();
                Some(session.channel)
            },
        }
    }

    /// The open session `sid`, if any.
    pub fn session(&self, sid: u64) -> (r: Option<&TunnelSession>)
        ensures
            match r {
                Some(x) => self@.contains_key(sid) && *x == self@[sid],
                None => !self@.contains_key(sid),
            },
    {
        self.sessions.get(&sid)
    }

    /// The tunnel dropped: every session leaves its subscription, in some
    /// order, and no connection remains.
    pub fn close_all(&mut self, subs: &mut SubscriberTable, stats: &mut Stats) -> (channels: Vec<u64>)
        ensures
            final(self)@ == Map::<u64, TunnelSession>::empty(),
            exists|order: Seq<u64>|
                #![trigger order.to_set()]
                {
                    &&& order.to_set() == old(self)@.dom()
                    &&& order.no_duplicates()
                    &&& final(subs)@ == leave_all(
                        old(subs)@,
                        order.map_values(|sid: u64| old(self)@[sid]),
                    )
                    &&& channels@ == order.map_values(|sid: u64| old(self)@[sid].channel)
                },
            final(stats).active_connections == 0,
            final(stats).same_but_connections(old(stats)),
            final(subs).highest_channel() == old(subs).highest_channel(),
    {
        let ids = self.session_ids();
        let ghost start = self@;
        let ghost subs0 = subs@;
        let mut channels: Vec<u64> = Vec::new();
        let mut i: usize = 0;
        while i < ids.len()
            invariant
                i <= ids@.len(),
                channels@ == ids@.take(i as int).map_values(|sid: u64| start[sid].channel),
                ids@.to_set() == start.dom(),
                ids@.no_duplicates(),
                start == old(self)@,
                subs0 == old(subs)@,
                subs.highest_channel() == old(subs).highest_channel(),
                forall|k: u64|
                    #[trigger] self@.contains_key(k) <==> (start.contains_key(k)
                        && !ids@.take(i as int).contains(k)),
                forall|k: u64| #[trigger] self@.contains_key(k) ==> self@[k] == start[k],
                subs@ == leave_all(
                    subs0,
                    ids@.take(i as int).map_values(|sid: u64| start[sid]),
                ),
            decreases ids@.len() - i,
        {
            let sid = ids[i];
            proof {
                assert(ids@.contains(sid));
                assert(start.dom().contains(sid));
                let t0 = ids@.take(i as int);
                if t0.contains(sid) {
                    let j = choose|j: int| 0 <= j < t0.len() && #[trigger] t0[j] == sid;
                    assert(ids@[j] == ids@[i as int]);
                }
                assert(self@.contains_key(sid));
            }
            let removed = self.sessions.remove(&sid);
            match removed {
                Some(session) => {
                    leave_subscription(&session.state, subs, session.channel);
                    channels.push(session.channel);
                },
                None => {},
            }
            proof {
                assert(channels@ =~= ids@.take(i as int + 1).map_values(|x: u64| start[x].channel));
                let before = ids@.take(i as int).map_values(|x: u64| start[x]);
                let after = ids@.take(i as int + 1).map_values(|x: u64| start[x]);
                assert(after.drop_last() =~= before);
                assert(after.last() == start[sid]);
                let t0 = ids@.take(i as int);
                let t1 = ids@.take(i as int + 1);
                assert forall|k: u64| #[trigger] self@.contains_key(k) <==> (start.contains_key(k)
                    && !t1.contains(k)) by {
                    if t1.contains(k) && k != sid {
                        let j = choose|j: int| 0 <= j < t1.len() && #[trigger] t1[j] == k;
                        assert(t0[j] == k);
                    }
                    if t0.contains(k) {
                        let j = choose|j: int| 0 <= j < t0.len() && #[trigger] t0[j] == k;
                        assert(t1[j] == k);
                    }
                    assert(t1[i as int] == sid);
                }
            }
            i += 1;
        }
        proof {
            assert(ids@.take(ids@.len() as int) =~= ids@);
            assert forall|k: u64| !self@.contains_key(k) by {
                if self@.contains_key(k) {
                    assert(start.dom().contains(k));
                    assert(ids@.to_set().contains(k));
                }
            }
            assert(self@ =~= Map::<u64, TunnelSession>::empty());
            assert(ids@.to_set() == old(self)@.dom());
        }
        stats.all_connections_closed();
        channels
    }

    /// The ids of the open sessions, each once.
    pub fn session_ids(&self) -> (ids: Vec<u64>)
        ensures
            ids@.to_set() == self@.dom(),
            ids@.no_duplicates(),
    {
        let ghost ks = vstd::std_specs::hash::spec_keys_iter(&self.sessions).remaining();
        let mut ids: Vec<u64> = Vec::new();
        for k in it: self.sessions.keys()
            invariant
                it.seq() == ks,
                ids@.len() == it.index(),
                forall|j: int| 0 <= j < it.index() ==> ids@[j] == *ks[j],
        {
            ids.push(*k);
        }
        assert(ids@.len() == ks.len());
        assert(ids@ =~= ks.unref());
        ids
    }
}

} // verus!
