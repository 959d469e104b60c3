//! The node's settings, and the addresses and status lines built from them.

use crate::text::{decimal, lemma_trim_end_slashes_idempotent, strip_prefix, trim_end_slashes, trim_end_slashes_of, strip_prefix_of, u64_to_decimal};
use vstd::prelude::*;
use vstd::string::*;

verus! {

/// Local relay port used when none is configured.
pub const DEFAULT_PORT: u16 = 3030;

/// Platform address used when none is configured.
pub fn default_api_url() -> (s: String)
    ensures
        s@ == "https://pulsar-chat.fun"@,
{
    String::from_str("https://pulsar-chat.fun")
}

/// The settings the user saved.
pub struct AppConfig {
    pub node_id: Option<String>,
    pub token: Option<String>,
    pub api_url: Option<String>,
    pub port: Option<u16>,
    pub autostart: bool,
}

impl AppConfig {
    /// Nothing configured, autostart off.
    pub fn new() -> (c: Self)
        ensures
            c.node_id is None,
            c.token is None,
            c.api_url is None,
            c.port is None,
            !c.autostart,
    {
        AppConfig { node_id: None, token: None, api_url: None, port: None, autostart: false }
    }
}

/// What a runner is started with; `S` is the offline-message store, when
/// one could be opened.
pub struct RunnerConfig<S> {
    pub api_url: String,
    pub node_id: String,
    pub token: String,
    pub port: u16,
    pub storage: Option<S>,
}

/// Why a runner could not be started.
#[derive(PartialEq, Eq, Structural, Clone, Copy, Debug)]
pub enum StartError {
    AlreadyRunning,
    MissingNodeId,
    MissingToken,
}

/// The message shown for each refusal.
pub open spec fn start_error_text(e: StartError) -> Seq<char> {
    match e {
        StartError::AlreadyRunning => "already running"@,
        StartError::MissingNodeId => "missing node_id"@,
        StartError::MissingToken => "missing token"@,
    }
}

impl StartError {
    /// The message shown to the user.
    pub fn message(&self) -> (s: &'static str)
        ensures
            s@ == start_error_text(*self),
    {
        match self {
            StartError::AlreadyRunning => "already running",
            StartError::MissingNodeId => "missing node_id",
            StartError::MissingToken => "missing token",
        }
    }
}

fn clone_text(s: &String) -> (r: String)
    ensures
        r@ == s@,
{
    s.clone()
}

/// The configured platform address, or the default one.
pub fn api_url_or_default(api_url: &Option<String>) -> (s: String)
    ensures
        s@ == (match api_url {
            Some(u) => u@,
            None => "https://pulsar-chat.fun"@,
        }),
{
    match api_url {
        Some(u) => clone_text(u),
        None => default_api_url(),
    }
}

/// The runner settings from `cfg`: the credentials as saved, the address
/// and the port with their defaults.
pub open spec fn runner_settings_of<S>(cfg: AppConfig, r: RunnerConfig<S>) -> bool {
    &&& cfg.node_id matches Some(n) && r.node_id@ == n@
    &&& cfg.token matches Some(t) && r.token@ == t@
    &&& r.api_url@ == (match cfg.api_url {
        Some(u) => u@,
        None => "https://pulsar-chat.fun"@,
    })
    &&& r.port == (match cfg.port {
        Some(p) => p,
        None => DEFAULT_PORT,
    })
}

fn settings<S>(cfg: &AppConfig, node_id: &String, token: &String, storage: Option<S>) -> (r:
    RunnerConfig<S>)
    requires
        cfg.node_id == Some(*node_id),
        cfg.token == Some(*token),
    ensures
        runner_settings_of(*cfg, r),
        r.storage == storage,
{
    let port = match cfg.port {
        Some(p) => p,
        None => DEFAULT_PORT,
    };
    RunnerConfig {
        api_url: api_url_or_default(&cfg.api_url),
        node_id: clone_text(node_id),
        token: clone_text(token),
        port,
        storage,
    }
}

/// Whether a runner may be started from `cfg` when one is `started`
/// already, and with what: refused when one runs, then when the node id is
/// missing, then when the token is.
pub fn start_runner<S>(cfg: &AppConfig, started: bool, storage: Option<S>) -> (r: Result<
    RunnerConfig<S>,
    StartError,
>)
    ensures
        started ==> r == Err::<RunnerConfig<S>, StartError>(StartError::AlreadyRunning),
        !started && cfg.node_id is None ==> r == Err::<RunnerConfig<S>, StartError>(
            StartError::MissingNodeId,
        ),
        !started && cfg.node_id is Some && cfg.token is None ==> r == Err::<
            RunnerConfig<S>,
            StartError,
        >(StartError::MissingToken),
        !started && cfg.node_id is Some && cfg.token is Some ==> (r matches Ok(rc)
            && runner_settings_of(*cfg, rc) && rc.storage == storage),
{
    if started {
        return Err(StartError::AlreadyRunning);
    }
    match (&cfg.node_id, &cfg.token) {
        (None, _) => Err(StartError::MissingNodeId),
        (Some(_), None) => Err(StartError::MissingToken),
        (Some(n), Some(t)) => Ok(settings(cfg, n, t, storage)),
    }
}

/// The runner to start at launch: one when both credentials are saved.
pub fn autostart_config<S>(cfg: &AppConfig, storage: Option<S>) -> (r: Option<RunnerConfig<S>>)
    ensures
        (cfg.node_id is Some && cfg.token is Some) ==> (r matches Some(rc) && runner_settings_of(
            *cfg,
            rc,
        ) && rc.storage == storage),
        !(cfg.node_id is Some && cfg.token is Some) ==> r is None,
{
    match (&cfg.node_id, &cfg.token) {
        (Some(n), Some(t)) => Some(settings(cfg, n, t, storage)),
        _ => None,
    }
}

/// Address the local relay listens on: every interface, on `port`.
pub fn listen_addr(port: u16) -> (s: String)
    ensures
        s@ == "0.0.0.0:"@ + decimal(port as nat),
{
    let digits = u64_to_decimal(port as u64);
    String::from_str("0.0.0.0:").concat(digits.as_str())
}

/// Where proofs of uptime of `node_id` are posted.
pub fn proof_url(api_url: &str, node_id: &str) -> (s: String)
    ensures
        s@ == trim_end_slashes(api_url@) + "/api/v1/nodes/"@ + node_id@ + "/proof"@,
{
    let base = trim_end_slashes_of(api_url);
    base.concat("/api/v1/nodes/").concat(node_id).concat("/proof")
}

/// Where a token is looked up, on the given or the default platform.
pub fn lookup_token_url(api_url: &Option<String>) -> (s: String)
    ensures
        s@ == trim_end_slashes(
            match api_url {
                Some(u) => u@,
                None => "https://pulsar-chat.fun"@,
            },
        ) + "/api/v1/nodes/by-token"@,
{
    let base = api_url_or_default(api_url);
    trim_end_slashes_of(base.as_str()).concat("/api/v1/nodes/by-token")
}

/// An HTTP status code in the success range.
pub open spec fn is_success(code: u16) -> bool {
    200 <= code <= 299
}

/// The answer to a token lookup by its HTTP status: accepted on success,
/// otherwise the error "HTTP" and the code.
pub fn lookup_status(code: u16) -> (r: Result<(), String>)
    ensures
        is_success(code) <==> r is Ok,
        r matches Err(e) ==> e@ == "HTTP "@ + decimal(code as nat),
{
    if 200 <= code && code <= 299 {
        Ok(())
    } else {
        let digits = u64_to_decimal(code as u64);
        Err(String::from_str("HTTP ").concat(digits.as_str()))
    }
}

/// The WebSocket address of the platform: trailing slashes dropped,
/// `https://` becomes `wss://`, `http://` becomes `ws://`, and any other
/// address is taken as a host name under `wss://`.
pub open spec fn tunnel_ws_base(api_url: Seq<char>) -> Seq<char> {
    let base = trim_end_slashes(api_url);
    match strip_prefix(base, "https://"@) {
        Some(rest) => "wss://"@ + rest,
        None => match strip_prefix(base, "http://"@) {
            Some(rest) => "ws://"@ + rest,
            None => "wss://"@ + base,
        },
    }
}

/// Trailing slashes of the platform address do not change the tunnel's
/// WebSocket address.
pub proof fn lemma_ws_base_ignores_trailing_slashes(api_url: Seq<char>)
    ensures
        tunnel_ws_base(api_url) == tunnel_ws_base(trim_end_slashes(api_url)),
        tunnel_ws_base(api_url + "/"@) == tunnel_ws_base(api_url),
{
    lemma_trim_end_slashes_idempotent(api_url);
    let t = api_url + "/"@;
    reveal_strlit("/");
    assert(t.drop_last() =~= api_url);
}

/// The WebSocket base address of the tunnel for `api_url`.
pub fn ws_base(api_url: &str) -> (s: String)
    ensures
        s@ == tunnel_ws_base(api_url@),
{
    let base = trim_end_slashes_of(api_url);
    match strip_prefix_of(base.as_str(), "https://") {
        Some(rest) => String::from_str("wss://").concat(rest.as_str()),
        None => match strip_prefix_of(base.as_str(), "http://") {
            Some(rest) => String::from_str("ws://").concat(rest.as_str()),
            None => String::from_str("wss://").concat(base.as_str()),
        },
    }
}

/// The address the outbound tunnel connects to, carrying the node's token.
pub fn tunnel_url(api_url: &str, token: &str) -> (s: String)
    ensures
        s@ == tunnel_ws_base(api_url@) + "/node-tunnel?token="@ + token@,
{
    ws_base(api_url).concat("/node-tunnel?token=").concat(token)
}

/// The status line after the tunnel ended: a clean disconnect, or the error.
pub fn tunnel_status(result: &Result<(), String>) -> (s: String)
    ensures
        s@ == (match result {
            Ok(()) => "tunnel: disconnected"@,
            Err(e) => "tunnel error: "@ + e@,
        }),
{
    match result {
        Ok(()) => String::from_str("tunnel: disconnected"),
        Err(e) => String::from_str("tunnel error: ").concat(e.as_str()),
    }
}

} // verus!
