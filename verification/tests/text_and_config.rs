use pulsar_node::config::{
    api_url_or_default, autostart_config, listen_addr, lookup_status, lookup_token_url, proof_url,
    start_runner, tunnel_status, tunnel_url, ws_base, AppConfig, StartError, DEFAULT_PORT,
};
use pulsar_node::pubkey::valid_pubkey;
use pulsar_node::text::{strip_prefix_of, to_hex_lower, trim_end_slashes_of, u64_to_decimal};
use pulsar_node::uptime::{proof_body, proof_error_line, proof_status_line};
use pulsar_node::peers::PeerSet;
use pulsar_node::stats::ProofCounters;

#[test]
fn pubkey_length_limits() {
    assert!(!valid_pubkey(""));
    assert!(!valid_pubkey("a"));
    assert!(valid_pubkey("ab"));
    assert!(valid_pubkey(&"x".repeat(64)));
    assert!(!valid_pubkey(&"x".repeat(65)));
}

#[test]
fn pubkey_charset() {
    assert!(valid_pubkey("Abc_09-z"));
    assert!(valid_pubkey("7xKXtg2CW87d97TXJSDpbD5jBkheTqA83TZRuJosgAsU"));
    assert!(!valid_pubkey("ab cd"));
    assert!(!valid_pubkey("ab.cd"));
    assert!(!valid_pubkey("ab/cd"));
    assert!(!valid_pubkey("héllo"));
}

#[test]
fn pubkey_length_counts_bytes() {
    // 32 two-byte characters: 64 bytes, accepted length-wise but not charset-wise.
    assert!(!valid_pubkey(&"é".repeat(32)));
}

#[test]
fn decimal_text() {
    assert_eq!(u64_to_decimal(0), "0");
    assert_eq!(u64_to_decimal(7), "7");
    assert_eq!(u64_to_decimal(10), "10");
    assert_eq!(u64_to_decimal(3030), "3030");
    assert_eq!(u64_to_decimal(u64::MAX), u64::MAX.to_string());
}

#[test]
fn hex_text() {
    assert_eq!(to_hex_lower(&[]), "");
    assert_eq!(to_hex_lower(&[0x00, 0x0f, 0xa0, 0xff]), "000fa0ff");
}

#[test]
fn trims_trailing_slashes() {
    assert_eq!(trim_end_slashes_of("https://x.fun///"), "https://x.fun");
    assert_eq!(trim_end_slashes_of("https://x.fun"), "https://x.fun");
    assert_eq!(trim_end_slashes_of("///"), "");
    assert_eq!(trim_end_slashes_of(""), "");
}

#[test]
fn strips_prefix() {
    assert_eq!(strip_prefix_of("https://a", "https://"), Some("a".to_string()));
    assert_eq!(strip_prefix_of("http://a", "https://"), None);
    assert_eq!(strip_prefix_of("ht", "https://"), None);
}

#[test]
fn tunnel_addresses() {
    assert_eq!(ws_base("https://pulsar-chat.fun/"), "wss://pulsar-chat.fun");
    assert_eq!(ws_base("http://localhost:8080"), "ws://localhost:8080");
    assert_eq!(ws_base("relay.example.org"), "wss://relay.example.org");
    assert_eq!(
        tunnel_url("https://pulsar-chat.fun", "tok123"),
        "wss://pulsar-chat.fun/node-tunnel?token=tok123"
    );
}

#[test]
fn proof_and_lookup_addresses() {
    assert_eq!(
        proof_url("https://pulsar-chat.fun/", "node-1"),
        "https://pulsar-chat.fun/api/v1/nodes/node-1/proof"
    );
    assert_eq!(lookup_token_url(&None), "https://pulsar-chat.fun/api/v1/nodes/by-token");
    assert_eq!(
        lookup_token_url(&Some("http://h//".to_string())),
        "http://h/api/v1/nodes/by-token"
    );
    assert_eq!(api_url_or_default(&None), "https://pulsar-chat.fun");
}

#[test]
fn lookup_status_codes() {
    assert_eq!(lookup_status(200), Ok(()));
    assert_eq!(lookup_status(299), Ok(()));
    assert_eq!(lookup_status(199), Err("HTTP 199".to_string()));
    assert_eq!(lookup_status(404), Err("HTTP 404".to_string()));
    assert_eq!(lookup_status(300), Err("HTTP 300".to_string()));
}

#[test]
fn listen_address() {
    assert_eq!(listen_addr(3030), "0.0.0.0:3030");
    assert_eq!(listen_addr(0), "0.0.0.0:0");
    assert_eq!(DEFAULT_PORT, 3030);
}

fn config(node: Option<&str>, token: Option<&str>) -> AppConfig {
    let mut c = AppConfig::new();
    c.node_id = node.map(|s| s.to_string());
    c.token = token.map(|s| s.to_string());
    c
}

#[test]
fn start_refusals_in_order() {
    let full = config(Some("n"), Some("t"));
    assert_eq!(start_runner::<()>(&full, true, None).err(), Some(StartError::AlreadyRunning));
    let none = config(None, None);
    assert_eq!(start_runner::<()>(&none, false, None).err(), Some(StartError::MissingNodeId));
    let no_token = config(Some("n"), None);
    assert_eq!(start_runner::<()>(&no_token, false, None).err(), Some(StartError::MissingToken));
    assert_eq!(StartError::AlreadyRunning.message(), "already running");
    assert_eq!(StartError::MissingNodeId.message(), "missing node_id");
    assert_eq!(StartError::MissingToken.message(), "missing token");
}

#[test]
fn start_with_defaults() {
    let c = config(Some("node-1"), Some("secret"));
    let rc = start_runner(&c, false, Some(7u8)).ok().unwrap();
    assert_eq!(rc.node_id, "node-1");
    assert_eq!(rc.token, "secret");
    assert_eq!(rc.api_url, "https://pulsar-chat.fun");
    assert_eq!(rc.port, 3030);
    assert_eq!(rc.storage, Some(7u8));
}

#[test]
fn start_with_saved_address_and_port() {
    let mut c = config(Some("node-1"), Some("secret"));
    c.api_url = Some("http://10.0.0.2:8000".to_string());
    c.port = Some(4040);
    let rc = start_runner::<()>(&c, false, None).ok().unwrap();
    assert_eq!(rc.api_url, "http://10.0.0.2:8000");
    assert_eq!(rc.port, 4040);
}

#[test]
fn autostart_needs_both_credentials() {
    assert!(autostart_config::<()>(&config(Some("n"), None), None).is_none());
    assert!(autostart_config::<()>(&config(None, Some("t")), None).is_none());
    let rc = autostart_config::<()>(&config(Some("n"), Some("t")), None).unwrap();
    assert_eq!(rc.node_id, "n");
    assert_eq!(rc.port, 3030);
}

#[test]
fn status_lines() {
    assert_eq!(proof_status_line("200 OK", 1234, 5), "200 OK (1234 B, 5 peers)");
    assert_eq!(proof_error_line("timed out"), "err: timed out");
    assert_eq!(tunnel_status(&Ok(())), "tunnel: disconnected");
    assert_eq!(tunnel_status(&Err("refused".to_string())), "tunnel error: refused");
}

#[test]
fn proof_body_reports_counters() {
    let b = proof_body(&ProofCounters {
        bytes: 987654321,
        peers: 3,
        connections: 2,
        reported_peers: PeerSet::new(),
    });
    assert_eq!(b.bytes_relayed, "987654321");
    assert_eq!(b.unique_peers, 3);
    assert_eq!(b.active_connections, 2);
}
