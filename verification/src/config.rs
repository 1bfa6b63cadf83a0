//! The runtime configuration: what the command line chose, and the fixed plan of
//! the measurements that the web page runs.

use crate::net::SocketAddress;
use crate::paths::LocalPath;
use crate::text::{decimal, u16_decimal};
use vstd::prelude::*;

verus! {

/// Whether the program serves alone or sits in the tray of a desktop session.
#[derive(Clone, Copy, Debug, PartialEq, Eq, Structural)]
pub enum AppMode {
    Server,
    Desktop,
}

/// The plan of a speed test, handed to the page and used by the session rules.
#[derive(Clone, Copy, Debug, PartialEq, Eq, Structural)]
pub struct TestPlan {
    pub latency_probes: usize,
    pub latency_interval_ms: u64,
    pub throughput_samples: usize,
    pub throughput_workers: usize,
    pub throughput_window_ms: u64,
    pub session_ttl_seconds: u64,
    pub session_start_cooldown_seconds: u64,
    pub max_active_sessions_per_ip: usize,
    pub download_chunk_size: usize,
    pub download_request_size: usize,
    pub upload_payload_size: usize,
}

/// The plan every node runs: 6 latency probes 120 ms apart, 3 throughput samples of
/// 900 ms with 3 workers, sessions that live 30 s, 5 s between two session starts from
/// one address, at most 2 active sessions per address, downloads of 4 MiB sent in
/// 64 KiB chunks, uploads of 1 MiB.
pub open spec fn standard_plan() -> TestPlan {
    TestPlan {
        latency_probes: 6,
        latency_interval_ms: 120,
        throughput_samples: 3,
        throughput_workers: 3,
        throughput_window_ms: 900,
        session_ttl_seconds: 30,
        session_start_cooldown_seconds: 5,
        max_active_sessions_per_ip: 2,
        download_chunk_size: 65536,
        download_request_size: 4194304,
        upload_payload_size: 1048576,
    }
}

/// The command line, as parsed.
#[derive(Clone, Debug)]
pub struct Cli {
    pub bind: SocketAddress,
    pub browser_host: String,
    pub browser_port: Option<u16>,
    pub open_browser: bool,
    pub autostart: bool,
    pub node_name: String,
    pub locale: String,
    pub mode: String,
}

/// Everything the running node is configured with.
#[derive(Clone, Debug)]
pub struct RuntimeConfig {
    pub bind_addr: SocketAddress,
    pub browser_host: String,
    pub browser_port: u16,
    pub open_browser_on_start: bool,
    pub autostart_enabled: bool,
    pub node_name: String,
    pub locale: String,
    pub public_dir: LocalPath,
    pub mode: AppMode,
    pub plan: TestPlan,
}

/// The mode a `--mode` value selects: `desktop` selects the desktop mode, anything
/// else the server mode.
pub open spec fn mode_of(text: Seq<char>) -> AppMode {
    if text == "desktop"@ {
        AppMode::Desktop
    } else {
        AppMode::Server
    }
}

/// The name of a mode, as the API reports it.
pub open spec fn mode_name_of(mode: AppMode) -> Seq<char> {
    match mode {
        AppMode::Server => "server"@,
        AppMode::Desktop => "desktop"@,
    }
}

/// The address the page is opened at: `http://host:port/`.
pub open spec fn url_of(host: Seq<char>, port: u16) -> Seq<char> {
    "http://"@ + host + ":"@ + decimal(port as nat) + "/"@
}

/// The text of a `&'static str` literal, made known to the prover.
fn text_of(s: &'static str) -> (t: String)
    ensures
        t@ == s@,
{
    String::from_str(s)
}

impl RuntimeConfig {
    /// The configuration that a command line gives: the mode from `--mode`, the
    /// browser port from `--browser-port` or else the bound port, and the standard plan.
    pub fn from_cli(cli: Cli, public_dir: LocalPath) -> (config: RuntimeConfig)
        ensures
            config.bind_addr == cli.bind,
            config.browser_host@ == cli.browser_host@,
            config.browser_port == match cli.browser_port {
                Some(p) => p,
                None => cli.bind.port,
            },
            config.open_browser_on_start == cli.open_browser,
            config.autostart_enabled == cli.autostart,
            config.node_name@ == cli.node_name@,
            config.locale@ == cli.locale@,
            config.public_dir@ == public_dir@,
            config.mode == mode_of(cli.mode@),
            config.plan == standard_plan(),
    {
        let desktop = text_of("desktop");
        let mode = if cli.mode == desktop {
            AppMode::Desktop
        } else {
            AppMode::Server
        };
        let browser_port = match cli.browser_port {
            Some(p) => p,
            None => cli.bind.port(),
        };
        RuntimeConfig {
            bind_addr: cli.bind,
            browser_host: cli.browser_host,
            browser_port,
            open_browser_on_start: cli.open_browser,
            autostart_enabled: cli.autostart,
            node_name: cli.node_name,
            locale: cli.locale,
            public_dir,
            mode,
            plan: TestPlan {
                latency_probes: 6,
                latency_interval_ms: 120,
                throughput_samples: 3,
                throughput_workers: 3,
                throughput_window_ms: 900,
                session_ttl_seconds: 30,
                session_start_cooldown_seconds: 5,
                max_active_sessions_per_ip: 2,
                download_chunk_size: 64 * 1024,
                download_request_size: 4 * 1024 * 1024,
                upload_payload_size: 1024 * 1024,
            },
        }
    }

    /// The address of the page: `http://{browser_host}:{port}/`, with the given port
    /// or else the configured browser port.
    pub fn browser_url(&self, port: Option<u16>) -> (url: String)
        ensures
            url@ == url_of(
                self.browser_host@,
                match port {
                    Some(p) => p,
                    None => self.browser_port,
                },
            ),
    {
        let port = match port {
            Some(p) => p,
            None => self.browser_port,
        };
        let mut url = text_of("http://");
        url.append(self.browser_host.as_str());
        url.append(":");
        let digits = u16_decimal(port);
        url.append(digits.as_str());
        url.append("/");
        url
    }

    /// The name of the mode: `server` or `desktop`.
    pub fn mode_name(&self) -> (name: &'static str)
        ensures
            name@ == mode_name_of(self.mode),
    {
        match self.mode {
            AppMode::Server => "server",
            AppMode::Desktop => "desktop",
        }
    }

    /// How long a session lives: `Duration::from_secs` of the planned lifetime.
    #[verifier::external_body]
    pub fn session_ttl(&self) -> std::time::Duration {
        std::time::Duration::from_secs(self.plan.session_ttl_seconds)
    }

    /// How long one address waits between two session starts: `Duration::from_secs`
    /// of the planned cooldown.
    #[verifier::external_body]
    pub fn session_cooldown(&self) -> std::time::Duration {
        std::time::Duration::from_secs(self.plan.session_start_cooldown_seconds)
    }
}

/// Where the page's static files lie: `public` under the directory the package was
/// built from.
pub fn default_public_dir(manifest_dir: &str) -> (dir: LocalPath)
    ensures
        dir@.base == manifest_dir@,
        dir@.parts == seq!["public"@],
{
    let dir = LocalPath::new(manifest_dir).join("public");
    assert(dir@.parts =~= seq!["public"@]);
    dir
}

} // verus!
