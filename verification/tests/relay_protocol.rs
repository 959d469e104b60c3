use pulsar_node::peers::PeerSet;
use pulsar_node::relay::{
    accepts_direct_frame, direct_frame_step, handle_pubsub_at, leave_subscription,
    FrameStep, Received, unparsable_reply, ErrorCode,
    Inbound, Outbound, PubsubAction, SessionState, MAX_PAYLOAD_BYTES, RATE_PER_SECOND,
};
use pulsar_node::socket::DirectClient;
use pulsar_node::stats::{snapshot, snapshot_with_uptime, Stats};
use pulsar_node::subscribers::SubscriberTable;

fn payload() -> serde_json::Value {
    serde_json::Value::String("hi".to_string())
}

fn code_of(a: &PubsubAction) -> Option<ErrorCode> {
    match a {
        PubsubAction::Reply(Outbound::Error { code }) => Some(*code),
        _ => None,
    }
}

fn subscribe(
    subs: &mut SubscriberTable,
    stats: &mut Stats,
    s: &mut SessionState,
    id: u64,
    key: &str,
) -> PubsubAction {
    handle_pubsub_at(subs, stats, s, id, Inbound::Subscribe { pubkey: key.to_string() }, 100)
}

#[test]
fn ping_gets_pong() {
    let mut subs = SubscriberTable::new();
    let mut stats = Stats::new();
    let mut s = SessionState::new();
    let a = handle_pubsub_at(&mut subs, &mut stats, &mut s, 1, Inbound::Ping, 5);
    assert!(matches!(a, PubsubAction::Reply(Outbound::Pong)));
}

#[test]
fn subscribe_registers_and_counts_peer() {
    let mut subs = SubscriberTable::new();
    let mut stats = Stats::new();
    let mut s = SessionState::new();
    let a = subscribe(&mut subs, &mut stats, &mut s, 1, "alice");
    match a {
        PubsubAction::Reply(Outbound::Subscribed { pubkey }) => assert_eq!(pubkey, "alice"),
        _ => panic!("expected subscribed"),
    }
    assert_eq!(s.subscribed_to.as_deref(), Some("alice"));
    assert_eq!(subs.subscribers(&"alice".to_string()), vec![1]);
    assert_eq!(stats.unique_peers.len(), 1);
    assert_eq!(stats.lifetime_peers.len(), 1);
}

#[test]
fn bad_pubkey_is_refused() {
    let mut subs = SubscriberTable::new();
    let mut stats = Stats::new();
    let mut s = SessionState::new();
    let a = subscribe(&mut subs, &mut stats, &mut s, 1, "no spaces");
    assert_eq!(code_of(&a), Some(ErrorCode::BadPubkey));
    assert!(s.subscribed_to.is_none());
    assert_eq!(stats.unique_peers.len(), 0);
    assert_eq!(ErrorCode::BadPubkey.code(), "BAD_PUBKEY");
}

#[test]
fn resubscribe_moves_subscriber() {
    let mut subs = SubscriberTable::new();
    let mut stats = Stats::new();
    let mut s = SessionState::new();
    subscribe(&mut subs, &mut stats, &mut s, 1, "alice");
    subscribe(&mut subs, &mut stats, &mut s, 1, "bob");
    assert_eq!(subs.subscribers(&"alice".to_string()), Vec::<u64>::new());
    assert_eq!(subs.subscribers(&"bob".to_string()), vec![1]);
    assert_eq!(stats.unique_peers.len(), 2);
    assert!(stats.lifetime_peers.contains(&"alice".to_string()));
}

#[test]
fn publish_without_subscription_is_refused() {
    let mut subs = SubscriberTable::new();
    let mut stats = Stats::new();
    let mut s = SessionState::new();
    let a = handle_pubsub_at(
        &mut subs,
        &mut stats,
        &mut s,
        1,
        Inbound::Publish { to: "bob".to_string(), payload: payload() },
        5,
    );
    assert_eq!(code_of(&a), Some(ErrorCode::NotSubscribed));
    assert_eq!(ErrorCode::NotSubscribed.code(), "NOT_SUBSCRIBED");
    assert_eq!(s.pub_this_sec, 0);
}

#[test]
fn publish_to_bad_target_is_refused() {
    let mut subs = SubscriberTable::new();
    let mut stats = Stats::new();
    let mut s = SessionState::new();
    subscribe(&mut subs, &mut stats, &mut s, 1, "alice");
    let a = handle_pubsub_at(
        &mut subs,
        &mut stats,
        &mut s,
        1,
        Inbound::Publish { to: "b".to_string(), payload: payload() },
        5,
    );
    assert_eq!(code_of(&a), Some(ErrorCode::BadTo));
    assert_eq!(ErrorCode::BadTo.code(), "BAD_TO");
}

#[test]
fn publish_reaches_every_subscriber_of_target() {
    let mut subs = SubscriberTable::new();
    let mut stats = Stats::new();
    let mut a = SessionState::new();
    let mut b1 = SessionState::new();
    let mut b2 = SessionState::new();
    subscribe(&mut subs, &mut stats, &mut a, 1, "alice");
    subscribe(&mut subs, &mut stats, &mut b1, 2, "bob");
    subscribe(&mut subs, &mut stats, &mut b2, 3, "bob");
    let act = handle_pubsub_at(
        &mut subs,
        &mut stats,
        &mut a,
        1,
        Inbound::Publish { to: "bob".to_string(), payload: payload() },
        42,
    );
    match act {
        PubsubAction::Relay { packet: Outbound::Packet { from, payload: p }, targets } => {
            assert_eq!(from, "alice");
            assert_eq!(p, payload());
            assert_eq!(targets, vec![2, 3]);
        },
        _ => panic!("expected relay"),
    }
    assert_eq!(a.sec_window, 42);
    assert_eq!(a.pub_this_sec, 1);
}

#[test]
fn publish_to_nobody_relays_to_no_one() {
    let mut subs = SubscriberTable::new();
    let mut stats = Stats::new();
    let mut a = SessionState::new();
    subscribe(&mut subs, &mut stats, &mut a, 1, "alice");
    let act = handle_pubsub_at(
        &mut subs,
        &mut stats,
        &mut a,
        1,
        Inbound::Publish { to: "carol".to_string(), payload: payload() },
        42,
    );
    match act {
        PubsubAction::Relay { targets, .. } => assert!(targets.is_empty()),
        _ => panic!("expected relay"),
    }
}

#[test]
fn sixty_publishes_per_second() {
    let mut subs = SubscriberTable::new();
    let mut stats = Stats::new();
    let mut a = SessionState::new();
    subscribe(&mut subs, &mut stats, &mut a, 1, "alice");
    let mut accepted = 0;
    let mut refused = 0;
    for _ in 0..100 {
        let act = handle_pubsub_at(
            &mut subs,
            &mut stats,
            &mut a,
            1,
            Inbound::Publish { to: "alice".to_string(), payload: payload() },
            1000,
        );
        match code_of(&act) {
            Some(ErrorCode::RateLimit) => refused += 1,
            None => accepted += 1,
            Some(_) => panic!("unexpected error"),
        }
    }
    assert_eq!(accepted, RATE_PER_SECOND);
    assert_eq!(refused, 40);
    assert_eq!(ErrorCode::RateLimit.code(), "RATE_LIMIT");
    // The next second starts afresh.
    let act = handle_pubsub_at(
        &mut subs,
        &mut stats,
        &mut a,
        1,
        Inbound::Publish { to: "alice".to_string(), payload: payload() },
        1001,
    );
    assert!(code_of(&act).is_none());
    assert_eq!(a.pub_this_sec, 1);
}

#[test]
fn disconnect_leaves_subscription() {
    let mut subs = SubscriberTable::new();
    let mut stats = Stats::new();
    stats.connection_opened();
    let mut a = SessionState::new();
    subscribe(&mut subs, &mut stats, &mut a, 9, "alice");
    leave_subscription(&a, &mut subs, 9);
    stats.connection_closed();
    assert!(subs.subscribers(&"alice".to_string()).is_empty());
    assert_eq!(stats.active_connections, 0);
    stats.connection_closed();
    assert_eq!(stats.active_connections, 0);
}

#[test]
fn frame_limits_and_bad_json() {
    assert!(accepts_direct_frame(MAX_PAYLOAD_BYTES));
    assert!(!accepts_direct_frame(MAX_PAYLOAD_BYTES + 1));
    assert!(matches!(unparsable_reply(), Outbound::Error { code: ErrorCode::BadJson }));
    assert_eq!(ErrorCode::BadJson.code(), "BAD_JSON");
}

#[test]
fn relayed_bytes_saturate_and_reset_on_proof() {
    let mut stats = Stats::new();
    let mut subs = SubscriberTable::new();
    let mut a = SessionState::new();
    subscribe(&mut subs, &mut stats, &mut a, 1, "alice");
    stats.record_relayed(100, 3);
    assert_eq!(stats.bytes_relayed, 300);
    assert_eq!(stats.lifetime_bytes, 300);
    stats.record_relayed(u64::MAX, 1);
    assert_eq!(stats.bytes_relayed, u64::MAX);
    let c = stats.proof_counters();
    assert_eq!(c.bytes, u64::MAX);
    assert_eq!(c.peers, 1);
    // A failed proof keeps the session figures for the next one.
    stats.settle_proof(&c, None);
    assert_eq!(stats.bytes_relayed, u64::MAX);
    assert_eq!(stats.unique_peers.len(), 1);
    stats.settle_proof(&c, Some(500));
    assert_eq!(stats.bytes_relayed, u64::MAX);
    assert_eq!(stats.unique_peers.len(), 1);
    // A successful one starts a new session.
    stats.settle_proof(&c, Some(204));
    assert_eq!(stats.bytes_relayed, 0);
    assert_eq!(stats.unique_peers.len(), 0);
    assert_eq!(stats.lifetime_bytes, u64::MAX);
    assert_eq!(stats.lifetime_peers.len(), 1);
}

#[test]
fn traffic_during_a_proof_stays_for_the_next() {
    let mut stats = Stats::new();
    stats.record_peer(&"alice".to_string());
    stats.record_relayed(100, 1);
    let c = stats.proof_counters();
    // While the proof is on its way, more traffic arrives.
    stats.record_peer(&"bob".to_string());
    stats.record_relayed(40, 1);
    stats.settle_proof(&c, Some(200));
    assert_eq!(stats.bytes_relayed, 40);
    assert_eq!(stats.unique_peers.len(), 1);
    assert!(stats.unique_peers.contains(&"bob".to_string()));
    assert!(!stats.unique_peers.contains(&"alice".to_string()));
    assert_eq!(stats.lifetime_bytes, 140);
    assert_eq!(stats.lifetime_peers.len(), 2);
    let copy = stats.lifetime_peers.copy();
    assert_eq!(copy.len(), 2);
}

#[test]
fn snapshot_shows_figures() {
    let mut stats = Stats::new();
    let s = snapshot(&stats);
    assert_eq!(s.uptime_seconds, 0);
    assert_eq!(s.bytes_pending, "0");
    stats.record_relayed(2048, 2);
    stats.record_peer(&"alice".to_string());
    stats.record_status("200 OK (0 B, 0 peers)".to_string());
    let s = snapshot_with_uptime(&stats, 61);
    assert_eq!(s.uptime_seconds, 61);
    assert_eq!(s.bytes_pending, "4096");
    assert_eq!(s.lifetime_bytes, "4096");
    assert_eq!(s.unique_peers_session, 1);
    assert_eq!(s.lifetime_peers, 1);
    assert_eq!(s.last_proof_status.as_deref(), Some("200 OK (0 B, 0 peers)"));
}

#[test]
fn stop_clears_session_keeps_lifetime() {
    let mut stats = Stats::new();
    stats.mark_started(std::time::Instant::now());
    stats.connection_opened();
    stats.record_peer(&"alice".to_string());
    stats.record_relayed(10, 1);
    stats.reset_on_stop();
    assert!(stats.started_at.is_none());
    assert_eq!(stats.active_connections, 0);
    assert_eq!(stats.bytes_relayed, 0);
    assert_eq!(stats.unique_peers.len(), 0);
    assert_eq!(stats.lifetime_bytes, 10);
    assert_eq!(stats.lifetime_peers.len(), 1);
    assert_eq!(stats.last_proof_status.as_deref(), Some("stopped"));
}

#[test]
fn peer_set_counts_each_key_once() {
    let mut p = PeerSet::new();
    p.insert("a1".to_string());
    p.insert("a1".to_string());
    p.insert("b2".to_string());
    assert_eq!(p.len(), 2);
    assert!(p.contains(&"b2".to_string()));
    p.clear();
    assert_eq!(p.len(), 0);
}

#[test]
fn uptime_counts_from_start() {
    let mut stats = Stats::new();
    stats.mark_started(std::time::Instant::now());
    let s = snapshot(&stats);
    assert!(s.uptime_seconds < 5);
    assert!(stats.started_at.is_some());
}

#[test]
fn direct_frames() {
    assert_eq!(direct_frame_step(Received::Text(8192)), FrameStep::Read);
    assert_eq!(direct_frame_step(Received::Text(8193)), FrameStep::Skip);
    assert_eq!(direct_frame_step(Received::Binary(3)), FrameStep::Read);
    assert_eq!(direct_frame_step(Received::Ping), FrameStep::Skip);
    assert_eq!(direct_frame_step(Received::Close), FrameStep::Stop);
    assert_eq!(direct_frame_step(Received::Failed), FrameStep::Stop);
    assert_eq!(direct_frame_step(Received::Ended), FrameStep::Stop);
}

#[test]
fn saturated_count_stays_limited() {
    let mut subs = SubscriberTable::new();
    let mut stats = Stats::new();
    let mut s = SessionState::new();
    subscribe(&mut subs, &mut stats, &mut s, 1, "alice");
    s.sec_window = 50;
    s.pub_this_sec = u32::MAX;
    let publish = Inbound::Publish { to: "bob".to_string(), payload: payload() };
    let a = handle_pubsub_at(&mut subs, &mut stats, &mut s, 1, publish, 50);
    assert_eq!(code_of(&a), Some(ErrorCode::RateLimit));
    assert_eq!(s.pub_this_sec, u32::MAX);
    assert_eq!(s.sec_window, 50);
    // The next second starts again from one.
    let publish = Inbound::Publish { to: "bob".to_string(), payload: payload() };
    let a = handle_pubsub_at(&mut subs, &mut stats, &mut s, 1, publish, 51);
    assert!(matches!(a, PubsubAction::Relay { .. }));
    assert_eq!(s.pub_this_sec, 1);
}

#[test]
fn direct_client_lifecycle() {
    let mut subs = SubscriberTable::new();
    let mut stats = Stats::new();
    let mut a = DirectClient::connect(&mut subs, &mut stats).unwrap();
    let b = DirectClient::connect(&mut subs, &mut stats).unwrap();
    assert_eq!(a.id, 1);
    assert_eq!(b.id, 2);
    assert_eq!(stats.active_connections, 2);
    let r = a.message(&mut subs, &mut stats, None);
    assert_eq!(code_of(&r), Some(ErrorCode::BadJson));
    assert!(a.session.subscribed_to.is_none());
    let r = a.message(&mut subs, &mut stats, Some(Inbound::Subscribe { pubkey: "alice".to_string() }));
    assert!(matches!(r, PubsubAction::Reply(Outbound::Subscribed { .. })));
    assert_eq!(subs.subscribers(&"alice".to_string()), vec![1]);
    let r = a.message(&mut subs, &mut stats, Some(Inbound::Ping));
    assert!(matches!(r, PubsubAction::Reply(Outbound::Pong)));
    a.disconnect(&mut subs, &mut stats);
    assert!(subs.subscribers(&"alice".to_string()).is_empty());
    assert_eq!(stats.active_connections, 1);
    b.disconnect(&mut subs, &mut stats);
    assert_eq!(stats.active_connections, 0);
    assert_eq!(stats.lifetime_peers.len(), 1);
}
