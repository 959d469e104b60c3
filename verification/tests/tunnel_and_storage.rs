use pulsar_node::codec::{base64_decode, base64_encode, sha256};
use pulsar_node::relay::{ErrorCode, FrameStep, Inbound, Outbound, PubsubAction, Received};
use pulsar_node::stats::Stats;
use pulsar_node::storage::{bytes_to_store, proof_from_lookup, to_fetched, StoredMessage};
use pulsar_node::subscribers::SubscriberTable;
use pulsar_node::tunnel::{
    accepts_tunnel_frame, challenge_reply, fetch_reply, store_reply, tunnel_ended,
    tunnel_frame_step, tunnel_ping_reply, Tunnel, TunnelOut,
};

fn sub(key: &str) -> Inbound {
    Inbound::Subscribe { pubkey: key.to_string() }
}

#[test]
fn tunnel_sessions_count_as_connections() {
    let mut t = Tunnel::new();
    let mut subs = SubscriberTable::new();
    let mut stats = Stats::new();
    assert_eq!(t.open_session(&mut subs, &mut stats, 7), Some(1));
    assert_eq!(t.open_session(&mut subs, &mut stats, 8), Some(2));
    assert_eq!(stats.active_connections, 2);
    let mut ids = t.session_ids();
    ids.sort();
    assert_eq!(ids, vec![7, 8]);
}

#[test]
fn channels_are_fresh() {
    let mut subs = SubscriberTable::new();
    subs.subscribe("alice".to_string(), 40);
    assert_eq!(subs.new_channel(), Some(41));
    assert_eq!(subs.new_channel(), Some(42));
    subs.subscribe("bob".to_string(), 5);
    assert_eq!(subs.new_channel(), Some(43));
    subs.subscribe("carol".to_string(), u64::MAX);
    assert_eq!(subs.new_channel(), None);
}

#[test]
fn tunnel_message_runs_protocol_on_channel() {
    let mut t = Tunnel::new();
    let mut subs = SubscriberTable::new();
    let mut stats = Stats::new();
    let c7 = t.open_session(&mut subs, &mut stats, 7).unwrap();
    let r = t.session_message_at(&mut subs, &mut stats, 7, sub("alice"), 3);
    match r {
        Some((ch, PubsubAction::Reply(Outbound::Subscribed { pubkey }))) => {
            assert_eq!(ch, c7);
            assert_eq!(pubkey, "alice");
        },
        _ => panic!("expected subscribed"),
    }
    assert_eq!(subs.subscribers(&"alice".to_string()), vec![c7]);
    // Unknown sessions are ignored.
    assert!(t.session_message_at(&mut subs, &mut stats, 99, Inbound::Ping, 3).is_none());
}

#[test]
fn tunnel_publish_between_sessions() {
    let mut t = Tunnel::new();
    let mut subs = SubscriberTable::new();
    let mut stats = Stats::new();
    let c1 = t.open_session(&mut subs, &mut stats, 1).unwrap();
    let c2 = t.open_session(&mut subs, &mut stats, 2).unwrap();
    assert_ne!(c1, c2);
    t.session_message_at(&mut subs, &mut stats, 1, sub("alice"), 3);
    t.session_message_at(&mut subs, &mut stats, 2, sub("bob"), 3);
    let r = t.session_message_at(
        &mut subs,
        &mut stats,
        1,
        Inbound::Publish { to: "bob".to_string(), payload: serde_json::Value::Bool(true) },
        3,
    );
    match r {
        Some((ch, PubsubAction::Relay { packet: Outbound::Packet { from, .. }, targets })) => {
            assert_eq!(ch, c1);
            assert_eq!(from, "alice");
            assert_eq!(targets, vec![c2]);
        },
        _ => panic!("expected relay"),
    }
    let r = t.session_message(&mut subs, &mut stats, 2, Inbound::Ping);
    assert!(matches!(r, Some((ch, PubsubAction::Reply(Outbound::Pong))) if ch == c2));
}

#[test]
fn tunnel_close_leaves_subscription() {
    let mut t = Tunnel::new();
    let mut subs = SubscriberTable::new();
    let mut stats = Stats::new();
    let c1 = t.open_session(&mut subs, &mut stats, 1).unwrap();
    t.session_message_at(&mut subs, &mut stats, 1, sub("alice"), 3);
    assert_eq!(t.close_session(&mut subs, &mut stats, 1), Some(c1));
    assert!(subs.subscribers(&"alice".to_string()).is_empty());
    assert_eq!(stats.active_connections, 0);
    assert_eq!(t.close_session(&mut subs, &mut stats, 1), None);
    assert_eq!(stats.active_connections, 0);
    // Later messages of the closed session are ignored.
    assert!(t.session_message_at(&mut subs, &mut stats, 1, sub("alice"), 3).is_none());
    assert!(subs.subscribers(&"alice".to_string()).is_empty());
}

#[test]
fn tunnel_drop_closes_everything() {
    let mut t = Tunnel::new();
    let mut subs = SubscriberTable::new();
    let mut stats = Stats::new();
    let c1 = t.open_session(&mut subs, &mut stats, 1).unwrap();
    let c2 = t.open_session(&mut subs, &mut stats, 2).unwrap();
    let c3 = t.open_session(&mut subs, &mut stats, 3).unwrap();
    t.session_message_at(&mut subs, &mut stats, 1, sub("alice"), 3);
    t.session_message_at(&mut subs, &mut stats, 2, sub("alice"), 3);
    t.session_message_at(&mut subs, &mut stats, 3, sub("bob"), 3);
    let direct = subs.new_channel().unwrap();
    subs.subscribe("alice".to_string(), direct);
    let mut channels = t.close_all(&mut subs, &mut stats);
    channels.sort();
    assert_eq!(channels, vec![c1, c2, c3]);
    assert!(t.session_ids().is_empty());
    assert_eq!(subs.subscribers(&"alice".to_string()), vec![direct]);
    assert!(subs.subscribers(&"bob".to_string()).is_empty());
    assert_eq!(stats.active_connections, 0);
    assert_eq!(stats.lifetime_peers.len(), 2);
}

#[test]
fn tunnel_rate_limit_per_session() {
    let mut t = Tunnel::new();
    let mut subs = SubscriberTable::new();
    let mut stats = Stats::new();
    t.open_session(&mut subs, &mut stats, 1);
    t.session_message_at(&mut subs, &mut stats, 1, sub("alice"), 3);
    assert_eq!(t.session(1).map(|x| x.state.pub_this_sec), Some(0));
    assert_eq!(t.session(2).map(|x| x.state.pub_this_sec), None);
    let mut refused = 0;
    let mut relayed_first = 0;
    for i in 0..61 {
        let r = t.session_message_at(
            &mut subs,
            &mut stats,
            1,
            Inbound::Publish { to: "bob".to_string(), payload: serde_json::Value::Null },
            50,
        );
        if matches!(r, Some((_, PubsubAction::Reply(Outbound::Error { code: ErrorCode::RateLimit })))) {
            refused += 1;
            assert_eq!(i, 60);
        } else if matches!(r, Some((_, PubsubAction::Relay { .. }))) {
            relayed_first += 1;
        }
    }
    assert_eq!(refused, 1);
    assert_eq!(relayed_first, 60);
    assert_eq!(t.session(1).map(|x| x.state.pub_this_sec), Some(61));
}

#[test]
fn tunnel_frame_limit() {
    assert!(accepts_tunnel_frame(16384));
    assert!(!accepts_tunnel_frame(16385));
}

#[test]
fn base64_round_trip() {
    assert_eq!(base64_encode(b"hello"), "aGVsbG8=");
    assert_eq!(base64_encode(b""), "");
    assert_eq!(base64_decode("aGVsbG8="), Some(b"hello".to_vec()));
    assert_eq!(base64_decode("not base64!"), None);
}

#[test]
fn store_needs_storage_and_valid_text() {
    assert_eq!(bytes_to_store(true, "AAEC"), Some(vec![0, 1, 2]));
    assert_eq!(bytes_to_store(false, "AAEC"), None);
    assert_eq!(bytes_to_store(true, "%%%"), None);
    match store_reply("m1".to_string(), true, Some(Ok(()))).unwrap() {
        TunnelOut::Stored { id, ok } => {
            assert_eq!(id, "m1");
            assert!(ok);
        },
        _ => panic!("expected stored"),
    }
    match store_reply("m2".to_string(), true, Some(Err("disk full".to_string()))).unwrap() {
        TunnelOut::Stored { ok, .. } => assert!(!ok),
        _ => panic!("expected stored"),
    }
    match store_reply("m3".to_string(), true, None).unwrap() {
        TunnelOut::Stored { ok, .. } => assert!(!ok),
        _ => panic!("expected stored"),
    }
    // Without a store the request is dropped.
    assert!(store_reply("m4".to_string(), false, None).is_none());
}

#[test]
fn challenge_answer_is_sha256_hex() {
    assert_eq!(sha256(b"abc").len(), 32);
    let r = proof_from_lookup(Ok(Some((b"abc".to_vec(), 17))));
    assert_eq!(
        r,
        Ok(Some("ba7816bf8f01cfea414140de5dae2223b00361a396177a9cb410ff61f20015ad".to_string()))
    );
    assert_eq!(proof_from_lookup(Ok(None)), Ok(None));
    assert_eq!(proof_from_lookup(Err("locked".to_string())), Err("locked".to_string()));
    match challenge_reply("m1".to_string(), Some(Ok(Some("h".to_string())))).unwrap() {
        TunnelOut::Proof { id, hash } => {
            assert_eq!(id, "m1");
            assert_eq!(hash.as_deref(), Some("h"));
        },
        _ => panic!("expected proof"),
    }
    match challenge_reply("m1".to_string(), Some(Err("e".to_string()))).unwrap() {
        TunnelOut::Proof { hash, .. } => assert!(hash.is_none()),
        _ => panic!("expected proof"),
    }
    assert!(challenge_reply("m1".to_string(), None).is_none());
}

#[test]
fn fetched_messages_in_base64() {
    let msgs = vec![
        StoredMessage { id: "a".to_string(), ciphertext: b"hello".to_vec(), created_at: 5 },
        StoredMessage { id: "b".to_string(), ciphertext: vec![], created_at: 6 },
    ];
    let f = to_fetched(msgs.clone());
    assert_eq!(f.len(), 2);
    assert_eq!(f[0].id, "a");
    assert_eq!(f[0].ciphertext, "aGVsbG8=");
    assert_eq!(f[0].created_at, 5);
    assert_eq!(f[1].ciphertext, "");
    match fetch_reply("bob".to_string(), Some(Ok(msgs))).unwrap() {
        TunnelOut::Fetched { recipient, messages } => {
            assert_eq!(recipient, "bob");
            assert_eq!(messages.len(), 2);
        },
        _ => panic!("expected fetched"),
    }
    match fetch_reply("bob".to_string(), Some(Err("e".to_string()))).unwrap() {
        TunnelOut::Fetched { messages, .. } => assert!(messages.is_empty()),
        _ => panic!("expected fetched"),
    }
    assert!(fetch_reply("bob".to_string(), None).is_none());
}

#[test]
fn unix_clock_reads() {
    assert!(pulsar_node::clock::current_unix() > 1_600_000_000);
}

#[test]
fn tunnel_frames() {
    assert_eq!(tunnel_frame_step(Received::Text(16384)), FrameStep::Read);
    assert_eq!(tunnel_frame_step(Received::Binary(16385)), FrameStep::Skip);
    assert_eq!(tunnel_frame_step(Received::Ping), FrameStep::AnswerPing);
    assert_eq!(tunnel_frame_step(Received::Other), FrameStep::Skip);
    assert_eq!(tunnel_frame_step(Received::Close), FrameStep::Stop);
    assert_eq!(tunnel_frame_step(Received::Failed), FrameStep::Stop);
    assert_eq!(tunnel_frame_step(Received::Ended), FrameStep::Stop);
    assert!(matches!(tunnel_ping_reply(), TunnelOut::Pong));
    assert_eq!(tunnel_ended(Received::Ended, String::new()), Ok(()));
    assert_eq!(tunnel_ended(Received::Close, String::new()), Ok(()));
    assert_eq!(
        tunnel_ended(Received::Failed, "reset by peer".to_string()),
        Err("reset by peer".to_string())
    );
}
