//! The publish/subscribe protocol of the relay: what each inbound message
//! does to the subscription table, the statistics and the sender's session,
//! and what is sent back or relayed.

use crate::clock::unix_seconds;
use crate::pubkey::{is_valid_pubkey, valid_pubkey};
use crate::stats::Stats;
use crate::subscribers::{
    add_subscriber, lemma_add_lists, lemma_remove_unlists, listed_under, no_empty_lists, other_than,
    remove_subscriber, subscribers_of, SubscriberTable,
};
use vstd::prelude::*;

verus! {

/// Publishes one session may make in one second of the wall clock.
pub const RATE_PER_SECOND: u32 = 60;

/// Largest message, in bytes, that a direct client may send.
pub const MAX_PAYLOAD_BYTES: usize = 8192;

/// Declares `serde_json::Value`, the payload of a publish, so that it can be
/// carried through unchanged; nothing inside it is read here.
#[verifier::external_type_specification]
#[verifier::external_body]
pub struct ExJsonValue(serde_json::Value);

/// A message from a client.
pub enum Inbound {
    Subscribe { pubkey: String },
    Publish { to: String, payload: serde_json::Value },
    Ping,
}

/// Why a client message was refused.
#[derive(PartialEq, Eq, Structural, Clone, Copy, Debug)]
pub enum ErrorCode {
    BadJson,
    BadPubkey,
    NotSubscribed,
    BadTo,
    RateLimit,
}

/// The code sent on the wire for each refusal.
pub open spec fn code_text(c: ErrorCode) -> Seq<char> {
    match c {
        ErrorCode::BadJson => "BAD_JSON"@,
        ErrorCode::BadPubkey => "BAD_PUBKEY"@,
        ErrorCode::NotSubscribed => "NOT_SUBSCRIBED"@,
        ErrorCode::BadTo => "BAD_TO"@,
        ErrorCode::RateLimit => "RATE_LIMIT"@,
    }
}

impl ErrorCode {
    /// The code sent on the wire.
    pub fn code(&self) -> (s: &'static str)
        ensures
            s@ == code_text(*self),
    {
        match self {
            ErrorCode::BadJson => "BAD_JSON",
            ErrorCode::BadPubkey => "BAD_PUBKEY",
            ErrorCode::NotSubscribed => "NOT_SUBSCRIBED",
            ErrorCode::BadTo => "BAD_TO",
            ErrorCode::RateLimit => "RATE_LIMIT",
        }
    }
}

/// A message to a client.
pub enum Outbound {
    Subscribed { pubkey: String },
    Packet { from: String, payload: serde_json::Value },
    Pong,
    Error { code: ErrorCode },
}

/// What one client connection (direct or tunnelled) remembers: the key it
/// is subscribed under and its publish count in the current second.
pub struct SessionState {
    pub subscribed_to: Option<String>,
    pub sec_window: u64,
    pub pub_this_sec: u32,
}

impl SessionState {
    /// A session that is not subscribed and has not published.
    pub fn new() -> (s: Self)
        ensures
            s.subscribed_to is None,
            s.sec_window == 0,
            s.pub_this_sec == 0,
    {
        SessionState { subscribed_to: None, sec_window: 0, pub_this_sec: 0 }
    }
}

/// What the relay does in answer to one message.
pub enum PubsubAction {
    /// Send this message back to the sender.
    Reply(Outbound),
    /// Send `packet` to each of `targets`.
    Relay { packet: Outbound, targets: Vec<u64> },
}

/// The publish count of the second `now` once one more publish is counted:
/// a new second starts again from one.
pub open spec fn next_count(s: SessionState, now: u64) -> int {
    count_after(s.sec_window, s.pub_this_sec as int, now)
}

/// The publish count of second `now` after one more publish, when the
/// session's window is second `window` with `count` publishes.
pub open spec fn count_after(window: u64, count: int, now: u64) -> int {
    if now != window {
        1
    } else {
        count + 1
    }
}

/// How many of `n` publishes made one after another in second `now` the
/// limiter lets through, from a window `window` with `count` publishes.
pub open spec fn burst_accepted(window: u64, count: int, now: u64, n: nat) -> nat
    decreases n,
{
    if n == 0 {
        0
    } else {
        let c = count_after(window, count, now);
        (if c <= RATE_PER_SECOND {
            1nat
        } else {
            0nat
        }) + burst_accepted(now, c, now, (n - 1) as nat)
    }
}

proof fn lemma_burst_same_second(count: int, now: u64, n: nat)
    requires
        count >= 0,
    ensures
        burst_accepted(now, count, now, n) == (if count >= RATE_PER_SECOND {
            0
        } else if n <= RATE_PER_SECOND - count {
            n as int
        } else {
            RATE_PER_SECOND - count
        }),
    decreases n,
{
    if n > 0 {
        lemma_burst_same_second(count + 1, now, (n - 1) as nat);
    }
}

/// However a session stands, at most sixty of any run of publishes within
/// one second get through.
pub proof fn lemma_rate_limit(window: u64, count: u32, now: u64, n: nat)
    ensures
        burst_accepted(window, count as int, now, n) <= RATE_PER_SECOND,
{
    if n > 0 {
        let c = count_after(window, count as int, now);
        lemma_burst_same_second(c, now, (n - 1) as nat);
    }
}

/// In a second the session has not published in yet, the first sixty
/// publishes get through and no more.
pub proof fn lemma_rate_limit_fresh_second(window: u64, count: u32, now: u64, n: nat)
    requires
        window != now,
    ensures
        burst_accepted(window, count as int, now, n) == (if n <= RATE_PER_SECOND {
            n as int
        } else {
            RATE_PER_SECOND as int
        }),
{
    if n > 0 {
        lemma_burst_same_second(1, now, (n - 1) as nat);
    }
}

/// A message that counts against the per-second limit: a publish from a
/// subscribed session to a valid key.
pub open spec fn counts_as_publish(msg: Inbound, s: SessionState) -> bool {
    match msg {
        Inbound::Publish { to, .. } => s.subscribed_to is Some && is_valid_pubkey(to@),
        _ => false,
    }
}

/// The table once a session that was subscribed under `prev` leaves it.
pub open spec fn table_after_leaving(
    m: Map<Seq<char>, Seq<u64>>,
    prev: Option<String>,
    id: u64,
) -> Map<Seq<char>, Seq<u64>> {
    match prev {
        Some(p) => remove_subscriber(m, p@, id),
        None => m,
    }
}

/// Nothing changed but possibly the rate window of the session.
pub open spec fn rest_unchanged(
    subs_before: Map<Seq<char>, Seq<u64>>,
    subs_after: Map<Seq<char>, Seq<u64>>,
    stats_before: Stats,
    stats_after: Stats,
) -> bool {
    &&& subs_after == subs_before
    &&& stats_after == stats_before
}

/// How the relay answers message `msg` from subscriber `id`, whose session
/// was `s` and the table `m`, at second `now`: the table, the session and the
/// action afterwards are given by these clauses.
pub open spec fn pubsub_outcome(
    m: Map<Seq<char>, Seq<u64>>,
    m2: Map<Seq<char>, Seq<u64>>,
    st: Stats,
    st2: Stats,
    s: SessionState,
    s2: SessionState,
    id: u64,
    msg: Inbound,
    now: u64,
    r: PubsubAction,
) -> bool {
    match msg {
        Inbound::Ping => {
            &&& r == PubsubAction::Reply(Outbound::Pong)
            &&& rest_unchanged(m, m2, st, st2)
            &&& s2 == s
        },
        Inbound::Subscribe { pubkey } => {
            if !is_valid_pubkey(pubkey@) {
                &&& r == PubsubAction::Reply(Outbound::Error { code: ErrorCode::BadPubkey })
                &&& rest_unchanged(m, m2, st, st2)
                &&& s2 == s
            } else {
                &&& r == PubsubAction::Reply(Outbound::Subscribed { pubkey })
                &&& m2 == add_subscriber(table_after_leaving(m, s.subscribed_to, id), pubkey@, id)
                &&& st2.unique_peers@ == st.unique_peers@.insert(pubkey@)
                &&& st2.lifetime_peers@ == st.lifetime_peers@.insert(pubkey@)
                &&& st2.bytes_relayed == st.bytes_relayed
                &&& st2.lifetime_bytes == st.lifetime_bytes
                &&& st2.same_except_traffic(&st)
                &&& s2.subscribed_to == Some(pubkey)
                &&& s2.sec_window == s.sec_window
                &&& s2.pub_this_sec == s.pub_this_sec
            }
        },
        Inbound::Publish { to, payload } => {
            match s.subscribed_to {
                None => {
                    &&& r == PubsubAction::Reply(Outbound::Error { code: ErrorCode::NotSubscribed })
                    &&& rest_unchanged(m, m2, st, st2)
                    &&& s2 == s
                },
                Some(from) => {
                    if !is_valid_pubkey(to@) {
                        &&& r == PubsubAction::Reply(Outbound::Error { code: ErrorCode::BadTo })
                        &&& rest_unchanged(m, m2, st, st2)
                        &&& s2 == s
                    } else if s.sec_window == now && s.pub_this_sec == u32::MAX {
                        &&& r == PubsubAction::Reply(Outbound::Error { code: ErrorCode::RateLimit })
                        &&& rest_unchanged(m, m2, st, st2)
                        &&& s2 == s
                    } else {
                        &&& rest_unchanged(m, m2, st, st2)
                        &&& s2.subscribed_to == s.subscribed_to
                        &&& s2.sec_window == now
                        &&& s2.pub_this_sec == next_count(s, now)
                        &&& if next_count(s, now) > RATE_PER_SECOND {
                            r == PubsubAction::Reply(Outbound::Error { code: ErrorCode::RateLimit })
                        } else {
                            r matches PubsubAction::Relay { packet, targets } && packet
                                == (Outbound::Packet { from, payload }) && targets@ == subscribers_of(
                                m,
                                to@,
                            )
                        }
                    }
                },
            }
        },
    }
}

/// How many of the actions relay a packet.
pub open spec fn relayed_count(rs: Seq<PubsubAction>) -> nat
    decreases rs.len(),
{
    if rs.len() == 0 {
        0
    } else {
        (if rs[0] is Relay {
            1nat
        } else {
            0nat
        }) + relayed_count(rs.drop_first())
    }
}

/// Over a run of publishes by one session within one second (each a publish
/// to a valid key from a subscribed session), the packets relayed are
/// exactly those the limiter lets through, so never more than sixty.
pub proof fn lemma_publish_run(
    ms: Seq<Map<Seq<char>, Seq<u64>>>,
    sts: Seq<Stats>,
    ss: Seq<SessionState>,
    id: u64,
    msgs: Seq<Inbound>,
    now: u64,
    rs: Seq<PubsubAction>,
)
    requires
        ss.len() == msgs.len() + 1,
        ms.len() == ss.len(),
        sts.len() == ss.len(),
        rs.len() == msgs.len(),
        forall|i: int|
            0 <= i < msgs.len() ==> pubsub_outcome(
                ms[i],
                ms[i + 1],
                sts[i],
                sts[i + 1],
                ss[i],
                ss[i + 1],
                id,
                #[trigger] msgs[i],
                now,
                rs[i],
            ),
        forall|i: int| 0 <= i < msgs.len() ==> counts_as_publish(#[trigger] msgs[i], ss[i]),
    ensures
        relayed_count(rs) == burst_accepted(ss[0].sec_window, ss[0].pub_this_sec as int, now, msgs.len()),
        relayed_count(rs) <= RATE_PER_SECOND,
    decreases msgs.len(),
{
    if msgs.len() > 0 {
        let m0 = msgs[0];
        assert(pubsub_outcome(ms[0], ms[1], sts[0], sts[1], ss[0], ss[1], id, m0, now, rs[0]));
        assert(counts_as_publish(m0, ss[0]));
        assert forall|i: int| 0 <= i < msgs.drop_first().len() implies pubsub_outcome(
            ms.drop_first()[i],
            ms.drop_first()[i + 1],
            sts.drop_first()[i],
            sts.drop_first()[i + 1],
            ss.drop_first()[i],
            ss.drop_first()[i + 1],
            id,
            #[trigger] msgs.drop_first()[i],
            now,
            rs.drop_first()[i],
        ) by {
            assert(msgs.drop_first()[i] == msgs[i + 1]);
        }
        assert forall|i: int| 0 <= i < msgs.drop_first().len() implies counts_as_publish(
            #[trigger] msgs.drop_first()[i],
            ss.drop_first()[i],
        ) by {
            assert(msgs.drop_first()[i] == msgs[i + 1]);
        }
        lemma_publish_run(
            ms.drop_first(),
            sts.drop_first(),
            ss.drop_first(),
            id,
            msgs.drop_first(),
            now,
            rs.drop_first(),
        );
        assert(ss.drop_first()[0] == ss[1]);
        if ss[0].sec_window == now && ss[0].pub_this_sec == u32::MAX {
            lemma_burst_same_second(u32::MAX as int, now, (msgs.len() - 1) as nat);
            lemma_burst_same_second(u32::MAX + 1, now, (msgs.len() - 1) as nat);
        }
    }
    lemma_rate_limit(ss[0].sec_window, ss[0].pub_this_sec, now, msgs.len());
}

/// A publish that is refused before it is relayed, because the session is
/// not subscribed or the target key is invalid, is answered with that error
/// and does not count toward the per-second limit: the session, its rate
/// window and count included, the table and the statistics stay as they were.
pub proof fn lemma_refused_publish_not_counted(
    m: Map<Seq<char>, Seq<u64>>,
    m2: Map<Seq<char>, Seq<u64>>,
    st: Stats,
    st2: Stats,
    s: SessionState,
    s2: SessionState,
    id: u64,
    to: String,
    payload: serde_json::Value,
    now: u64,
    r: PubsubAction,
)
    requires
        pubsub_outcome(m, m2, st, st2, s, s2, id, Inbound::Publish { to, payload }, now, r),
        s.subscribed_to is None || !is_valid_pubkey(to@),
    ensures
        s2.sec_window == s.sec_window,
        s2.pub_this_sec == s.pub_this_sec,
        s2.subscribed_to == s.subscribed_to,
        m2 == m,
        st2 == st,
        s.subscribed_to is None ==> r == PubsubAction::Reply(Outbound::Error { code: ErrorCode::NotSubscribed }),
        s.subscribed_to is Some ==> r == PubsubAction::Reply(Outbound::Error { code: ErrorCode::BadTo }),
{
}

/// A subscribe to an invalid key is answered BAD_PUBKEY and changes
/// nothing: the session keeps the key it was subscribed under, and the
/// table and the statistics stay as they were.
pub proof fn lemma_invalid_subscribe_changes_nothing(
    m: Map<Seq<char>, Seq<u64>>,
    m2: Map<Seq<char>, Seq<u64>>,
    st: Stats,
    st2: Stats,
    s: SessionState,
    s2: SessionState,
    id: u64,
    pubkey: String,
    now: u64,
    r: PubsubAction,
)
    requires
        pubsub_outcome(m, m2, st, st2, s, s2, id, Inbound::Subscribe { pubkey }, now, r),
        !is_valid_pubkey(pubkey@),
    ensures
        r == PubsubAction::Reply(Outbound::Error { code: ErrorCode::BadPubkey }),
        m2 == m,
        st2 == st,
        s2.subscribed_to == s.subscribed_to,
        s2.sec_window == s.sec_window,
        s2.pub_this_sec == s.pub_this_sec,
{
}

/// The publishes a session has counted in second `now`: none when its window
/// is another second.
pub open spec fn counted_in(s: SessionState, now: u64) -> int {
    if s.sec_window == now {
        s.pub_this_sec as int
    } else {
        0
    }
}

/// The publishes a session has counted in second `now` after the first `i`
/// steps of a run of publishes in that second.
proof fn lemma_run_count(
    ms: Seq<Map<Seq<char>, Seq<u64>>>,
    sts: Seq<Stats>,
    ss: Seq<SessionState>,
    id: u64,
    msgs: Seq<Inbound>,
    now: u64,
    rs: Seq<PubsubAction>,
    i: int,
)
    requires
        0 <= i <= msgs.len(),
        ss.len() == msgs.len() + 1,
        ms.len() == ss.len(),
        sts.len() == ss.len(),
        rs.len() == msgs.len(),
        forall|j: int|
            0 <= j < msgs.len() ==> pubsub_outcome(
                ms[j],
                ms[j + 1],
                sts[j],
                sts[j + 1],
                ss[j],
                ss[j + 1],
                id,
                #[trigger] msgs[j],
                now,
                rs[j],
            ),
        forall|j: int| 0 <= j < msgs.len() ==> counts_as_publish(#[trigger] msgs[j], ss[j]),
    ensures
        counted_in(ss[i], now) == (if counted_in(ss[0], now) + i > u32::MAX {
            u32::MAX as int
        } else {
            counted_in(ss[0], now) + i
        }),
    decreases i,
{
    if i > 0 {
        let j = i - 1;
        lemma_run_count(ms, sts, ss, id, msgs, now, rs, j);
        assert(pubsub_outcome(ms[j], ms[j + 1], sts[j], sts[j + 1], ss[j], ss[j + 1], id, msgs[j], now, rs[j]));
        assert(counts_as_publish(msgs[j], ss[j]));
    }
}

/// Of a run of publishes by one session within one second (each a publish
/// to a valid key from a subscribed session), exactly the first ones, up to
/// sixty counted in that second, are relayed; every later one is answered
/// RATE_LIMIT and leaves the table and the statistics as they were.
pub proof fn lemma_first_sixty(
    ms: Seq<Map<Seq<char>, Seq<u64>>>,
    sts: Seq<Stats>,
    ss: Seq<SessionState>,
    id: u64,
    msgs: Seq<Inbound>,
    now: u64,
    rs: Seq<PubsubAction>,
)
    requires
        ss.len() == msgs.len() + 1,
        ms.len() == ss.len(),
        sts.len() == ss.len(),
        rs.len() == msgs.len(),
        forall|i: int|
            0 <= i < msgs.len() ==> pubsub_outcome(
                ms[i],
                ms[i + 1],
                sts[i],
                sts[i + 1],
                ss[i],
                ss[i + 1],
                id,
                #[trigger] msgs[i],
                now,
                rs[i],
            ),
        forall|i: int| 0 <= i < msgs.len() ==> counts_as_publish(#[trigger] msgs[i], ss[i]),
    ensures
        forall|i: int|
            0 <= i < msgs.len() ==> ((#[trigger] rs[i] is Relay) <==> counted_in(ss[0], now) + i
                < RATE_PER_SECOND),
        forall|i: int|
            0 <= i < msgs.len() && counted_in(ss[0], now) + i >= RATE_PER_SECOND ==> {
                &&& #[trigger] rs[i] == PubsubAction::Reply(Outbound::Error { code: ErrorCode::RateLimit })
                &&& ms[i + 1] == ms[i]
                &&& sts[i + 1] == sts[i]
            },
{
    assert forall|i: int| 0 <= i < msgs.len() implies {
        &&& ((#[trigger] rs[i] is Relay) <==> counted_in(ss[0], now) + i < RATE_PER_SECOND)
        &&& counted_in(ss[0], now) + i >= RATE_PER_SECOND ==> {
            &&& rs[i] == PubsubAction::Reply(Outbound::Error { code: ErrorCode::RateLimit })
            &&& ms[i + 1] == ms[i]
            &&& sts[i + 1] == sts[i]
        }
    } by {
        lemma_run_count(ms, sts, ss, id, msgs, now, rs, i);
        assert(pubsub_outcome(ms[i], ms[i + 1], sts[i], sts[i + 1], ss[i], ss[i + 1], id, msgs[i], now, rs[i]));
        assert(counts_as_publish(msgs[i], ss[i]));
    }
}

/// Subscribing moves a subscriber: if it was listed at most under the key
/// its session was subscribed to, then after subscribing under `k` it is
/// listed under `k` and under no other key.
pub proof fn lemma_subscribe_moves_subscriber(
    m: Map<Seq<char>, Seq<u64>>,
    prev: Option<String>,
    k: Seq<char>,
    id: u64,
)
    requires
        forall|k2: Seq<char>|
            #![trigger m[k2]]
            m.contains_key(k2) && m[k2].contains(id) ==> (prev matches Some(p) && p@ == k2),
    ensures
        ({
            let m2 = add_subscriber(table_after_leaving(m, prev, id), k, id);
            &&& m2.contains_key(k)
            &&& m2[k].contains(id)
            &&& forall|k2: Seq<char>|
                #![trigger m2[k2]]
                m2.contains_key(k2) && k2 != k ==> !m2[k2].contains(id)
        }),
{
    let m1 = table_after_leaving(m, prev, id);
    let m2 = add_subscriber(m1, k, id);
    assert forall|k2: Seq<char>| m1.contains_key(k2) implies !(#[trigger] m1[k2]).contains(id) by {
        match prev {
            Some(p) => {
                if k2 == p@ {
                    let kept = m[k2].filter(other_than(id));
                    assert(m1[k2] == kept);
                    if kept.contains(id) {
                        let j = choose|j: int| 0 <= j < kept.len() && kept[j] == id;
                        m[k2].lemma_filter_pred(other_than(id), j);
                    }
                } else {
                    assert(m1[k2] == m[k2]);
                }
            },
            None => {},
        }
    }
    if m1.contains_key(k) {
        assert(m2[k] == m1[k].push(id));
        assert(m2[k][m1[k].len() as int] == id);
    } else {
        assert(m2[k] == seq![id]);
        assert(m2[k][0] == id);
    }
}

/// The key a session is subscribed under, as a character sequence.
pub open spec fn key_of(sub: Option<String>) -> Option<Seq<char>> {
    match sub {
        Some(p) => Some(p@),
        None => None,
    }
}

/// Leaving unlists the subscriber, keeps every list non-empty, and leaves
/// every other subscriber's listing as it was.
pub proof fn lemma_leave_unlists(
    m: Map<Seq<char>, Seq<u64>>,
    prev: Option<String>,
    id: u64,
    other: u64,
    other_key: Option<Seq<char>>,
)
    ensures
        no_empty_lists(m) ==> no_empty_lists(table_after_leaving(m, prev, id)),
        listed_under(m, id, key_of(prev)) ==> listed_under(table_after_leaving(m, prev, id), id, None),
        other != id && listed_under(m, other, other_key) ==> listed_under(
            table_after_leaving(m, prev, id),
            other,
            other_key,
        ),
{
    match prev {
        Some(p) => lemma_remove_unlists(m, p@, id, other, other_key),
        None => {},
    }
}

/// Every protocol message keeps the table's shape: no key has an empty
/// list, and the sender is listed once under the key its session is
/// subscribed under, and nowhere else.
pub proof fn lemma_pubsub_keeps_listing(
    m: Map<Seq<char>, Seq<u64>>,
    m2: Map<Seq<char>, Seq<u64>>,
    st: Stats,
    st2: Stats,
    s: SessionState,
    s2: SessionState,
    id: u64,
    msg: Inbound,
    now: u64,
    r: PubsubAction,
)
    requires
        pubsub_outcome(m, m2, st, st2, s, s2, id, msg, now, r),
        no_empty_lists(m),
        listed_under(m, id, key_of(s.subscribed_to)),
    ensures
        no_empty_lists(m2),
        listed_under(m2, id, key_of(s2.subscribed_to)),
{
    match msg {
        Inbound::Subscribe { pubkey } => {
            if is_valid_pubkey(pubkey@) {
                let m1 = table_after_leaving(m, s.subscribed_to, id);
                lemma_leave_unlists(m, s.subscribed_to, id, id, None);
                lemma_add_lists(m1, pubkey@, id, id, None);
            }
        },
        _ => {},
    }
}

/// A message from one subscriber leaves every other subscriber's listing as
/// it was.
pub proof fn lemma_pubsub_keeps_others(
    m: Map<Seq<char>, Seq<u64>>,
    m2: Map<Seq<char>, Seq<u64>>,
    st: Stats,
    st2: Stats,
    s: SessionState,
    s2: SessionState,
    id: u64,
    msg: Inbound,
    now: u64,
    r: PubsubAction,
    other: u64,
    other_key: Option<Seq<char>>,
)
    requires
        pubsub_outcome(m, m2, st, st2, s, s2, id, msg, now, r),
        other != id,
        listed_under(m, other, other_key),
    ensures
        listed_under(m2, other, other_key),
{
    match msg {
        Inbound::Subscribe { pubkey } => {
            if is_valid_pubkey(pubkey@) {
                let m1 = table_after_leaving(m, s.subscribed_to, id);
                lemma_leave_unlists(m, s.subscribed_to, id, other, other_key);
                lemma_add_lists(m1, pubkey@, id, other, other_key);
            }
        },
        _ => {},
    }
}

/// Subscriber `id` leaves the key its session is subscribed under, if any.
pub fn leave_subscription(session: &SessionState, subs: &mut SubscriberTable, id: u64)
    ensures
        final(subs)@ == table_after_leaving(old(subs)@, session.subscribed_to, id),
        final(subs).highest_channel() == old(subs).highest_channel(),
{
    match &session.subscribed_to {
        Some(prev) => subs.unsubscribe(prev, id),
        None => {},
    }
}

/// Runs one protocol message from subscriber `id` at second `now`.
pub fn handle_pubsub_at(
    subs: &mut SubscriberTable,
    stats: &mut Stats,
    session: &mut SessionState,
    id: u64,
    msg: Inbound,
    now: u64,
) -> (r: PubsubAction)
    requires
        old(stats).wf(),
    ensures
        final(stats).wf(),
        final(subs).highest_channel() >= old(subs).highest_channel(),
        pubsub_outcome(
            old(subs)@,
            final(subs)@,
            *old(stats),
            *final(stats),
            *old(session),
            *final(session),
            id,
            msg,
            now,
            r,
        ),
{
    match msg {
        Inbound::Ping => PubsubAction::Reply(Outbound::Pong),
        Inbound::Subscribe { pubkey } => {
            if !valid_pubkey(pubkey.as_str()) {
                return PubsubAction::Reply(Outbound::Error { code: ErrorCode::BadPubkey });
            }
            leave_subscription(session, subs, id);
            session.subscribed_to = None;
            subs.subscribe(pubkey.clone(), id);
            stats.record_peer(&pubkey);
            let reply = Outbound::Subscribed { pubkey: pubkey.clone() };
            session.subscribed_to = Some(pubkey);
            PubsubAction::Reply(reply)
        },
        Inbound::Publish { to, payload } => {
            let from = match &session.subscribed_to {
                Some(p) => p.clone(),
                None => {
                    return PubsubAction::Reply(Outbound::Error { code: ErrorCode::NotSubscribed });
                },
            };
            if !valid_pubkey(to.as_str()) {
                return PubsubAction::Reply(Outbound::Error { code: ErrorCode::BadTo });
            }
            if now != session.sec_window {
                session.sec_window = now;
                session.pub_this_sec = 0;
            } else if session.pub_this_sec == u32::MAX {
                return PubsubAction::Reply(Outbound::Error { code: ErrorCode::RateLimit });
            }
            session.pub_this_sec = session.pub_this_sec + 1;
            if session.pub_this_sec > RATE_PER_SECOND {
                return PubsubAction::Reply(Outbound::Error { code: ErrorCode::RateLimit });
            }
            let targets = subs.subscribers(&to);
            PubsubAction::Relay { packet: Outbound::Packet { from, payload }, targets }
        },
    }
}

/// Runs one protocol message from subscriber `id`, reading the wall clock
/// for the rate limit.
pub fn handle_pubsub_inbound(
    subs: &mut SubscriberTable,
    stats: &mut Stats,
    session: &mut SessionState,
    id: u64,
    msg: Inbound,
) -> (r: PubsubAction)
    requires
        old(stats).wf(),
    ensures
        final(stats).wf(),
        final(subs).highest_channel() >= old(subs).highest_channel(),
        exists|now: u64|
            pubsub_outcome(
                old(subs)@,
                final(subs)@,
                *old(stats),
                *final(stats),
                *old(session),
                *final(session),
                id,
                msg,
                now,
                r,
            ),
{
    let now = unix_seconds();
    handle_pubsub_at(subs, stats, session, id, msg, now)
}

/// The answer to a message that is not valid protocol JSON.
pub fn unparsable_reply() -> (r: Outbound)
    ensures
        r == (Outbound::Error { code: ErrorCode::BadJson }),
{
    Outbound::Error { code: ErrorCode::BadJson }
}

/// A subscriber is among the targets of every later publish to the key it
/// subscribed under.
pub proof fn lemma_subscriber_receives(m: Map<Seq<char>, Seq<u64>>, prev: Option<String>, k: Seq<char>, id: u64)
    ensures
        subscribers_of(add_subscriber(table_after_leaving(m, prev, id), k, id), k).contains(id),
{
    let m1 = table_after_leaving(m, prev, id);
    let m2 = add_subscriber(m1, k, id);
    if m1.contains_key(k) {
        assert(m2[k][m1[k].len() as int] == id);
    } else {
        assert(m2[k][0] == id);
    }
}

/// Leaving a key removes the subscriber from it and touches no other key.
pub proof fn lemma_leave_removes(m: Map<Seq<char>, Seq<u64>>, k: Seq<char>, id: u64)
    ensures
        ({
            let m2 = remove_subscriber(m, k, id);
            &&& m2.contains_key(k) ==> !m2[k].contains(id)
            &&& forall|k2: Seq<char>|
                k2 != k ==> (#[trigger] m2.contains_key(k2) == m.contains_key(k2) && (m.contains_key(k2)
                    ==> m2[k2] == m[k2]))
        }),
{
    let m2 = remove_subscriber(m, k, id);
    if m2.contains_key(k) {
        let kept = m[k].filter(other_than(id));
        assert(m2[k] == kept);
        if kept.contains(id) {
            let j = choose|j: int| 0 <= j < kept.len() && kept[j] == id;
            m[k].lemma_filter_pred(other_than(id), j);
        }
    }
}

/// What a connection received from its WebSocket.
#[derive(PartialEq, Eq, Structural, Clone, Copy, Debug)]
pub enum Received {
    /// A text frame of the given length in bytes.
    Text(usize),
    /// A binary frame of the given length in bytes.
    Binary(usize),
    /// A ping.
    Ping,
    /// A pong, or a raw frame.
    Other,
    /// A close frame.
    Close,
    /// Reading failed: a transport error.
    Failed,
    /// The stream ended.
    Ended,
}

/// What a connection does with what it received.
#[derive(PartialEq, Eq, Structural, Clone, Copy, Debug)]
pub enum FrameStep {
    /// Read the frame as a protocol message.
    Read,
    /// Answer with a pong carrying the ping's payload.
    AnswerPing,
    /// Leave it.
    Skip,
    /// Stop reading: the connection is over.
    Stop,
}

/// A direct client's frames: text and binary are read when at most
/// [`MAX_PAYLOAD_BYTES`] long; close, a transport error or the end of the
/// stream stop the connection; anything else is left (the WebSocket layer answers
/// pings itself).
pub fn direct_frame_step(r: Received) -> (s: FrameStep)
    ensures
        s == (match r {
            Received::Text(n) | Received::Binary(n) => if n <= MAX_PAYLOAD_BYTES {
                FrameStep::Read
            } else {
                FrameStep::Skip
            },
            Received::Close | Received::Failed | Received::Ended => FrameStep::Stop,
            _ => FrameStep::Skip,
        }),
{
    match r {
        Received::Text(n) | Received::Binary(n) => if accepts_direct_frame(n) {
            FrameStep::Read
        } else {
            FrameStep::Skip
        },
        Received::Close | Received::Failed | Received::Ended => FrameStep::Stop,
        _ => FrameStep::Skip,
    }
}

/// Whether a direct client's message is small enough to be read.
pub fn accepts_direct_frame(len: usize) -> (b: bool)
    ensures
        b == (len <= MAX_PAYLOAD_BYTES),
{
    len <= MAX_PAYLOAD_BYTES
}

} // verus!
