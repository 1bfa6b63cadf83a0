use speedtest::config::{AppMode, RuntimeConfig, TestPlan};
use speedtest::net::{IpAddress, SocketAddress};
use speedtest::paths::LocalPath;
use speedtest::server::{
    config_response, download_chunk, download_chunk_lengths, download_chunk_size, download_size,
    health_response, node_response, plan_response, session_error_response, start_session,
    validate_session, ApiError, STATUS_TOO_MANY_REQUESTS, STATUS_UNAUTHORIZED,
};
use speedtest::session::{SessionError, SessionManager, TokenCounter};

fn plan() -> TestPlan {
    TestPlan {
        latency_probes: 6,
        latency_interval_ms: 120,
        throughput_samples: 3,
        throughput_workers: 3,
        throughput_window_ms: 900,
        session_ttl_seconds: 30,
        session_start_cooldown_seconds: 5,
        max_active_sessions_per_ip: 2,
        download_chunk_size: 65536,
        download_request_size: 4194304,
        upload_payload_size: 1048576,
    }
}

fn config(mode: AppMode) -> RuntimeConfig {
    RuntimeConfig {
        bind_addr: SocketAddress { ip: IpAddress::V4(0), port: 3000, flowinfo: 0, scope_id: 0 },
        browser_host: "localhost".to_string(),
        browser_port: 4000,
        open_browser_on_start: true,
        autostart_enabled: false,
        node_name: "Node A".to_string(),
        locale: "en-US".to_string(),
        public_dir: LocalPath { base: "/srv".to_string(), parts: vec![] },
        mode,
        plan: plan(),
    }
}

#[test]
fn refusals_map_to_statuses() {
    let r = session_error_response(SessionError::RateLimited);
    assert_eq!(r.status, 429);
    assert_eq!(r.message, "同一公网 IP 的测速启动过于频繁，请稍后再试。");
    let t = session_error_response(SessionError::TooManyActive);
    assert_eq!(t.status, STATUS_TOO_MANY_REQUESTS);
    assert_eq!(t.message, "当前公网 IP 的活动测速会话过多，请稍后再试。");
    let i = session_error_response(SessionError::Invalid);
    assert_eq!(i.status, STATUS_UNAUTHORIZED);
    assert_eq!(i.message, "测速会话无效。");
}

#[test]
fn error_body_carries_message() {
    let e = ApiError::new(401, "x".to_string());
    assert_eq!(e.body().error, "x");
}

#[test]
fn start_then_check_session() {
    let cfg = config(AppMode::Server);
    let mut m = SessionManager::new();
    let ip = IpAddress::V4(0x0102_0304);
    let mut tk = TokenCounter::new();
    let started = start_session(&mut m, &mut tk, ip, &cfg).unwrap();
    assert_eq!(started.expires_in_seconds, 30);
    assert!(validate_session(&mut m, ip, Some(started.token.as_str())).is_ok());
    let refused = start_session(&mut m, &mut tk, ip, &cfg).unwrap_err();
    assert_eq!(refused.status, 429);
}

#[test]
fn missing_or_bad_token_is_unauthorized() {
    let mut m = SessionManager::new();
    let ip = IpAddress::V4(1);
    let missing = validate_session(&mut m, ip, None).unwrap_err();
    assert_eq!(missing.status, 401);
    assert_eq!(missing.message, "缺少测速会话令牌。");
    let bad = validate_session(&mut m, ip, Some("nope")).unwrap_err();
    assert_eq!(bad.status, 401);
    assert_eq!(bad.message, "测速会话已过期或无效。");
}

#[test]
fn download_size_is_clamped() {
    let p = plan();
    assert_eq!(download_size(None, &p), 4 * 1024 * 1024);
    assert_eq!(download_size(Some(1), &p), 64 * 1024);
    assert_eq!(download_size(Some(100 * 1024 * 1024), &p), 8 * 1024 * 1024);
    assert_eq!(download_size(Some(1_000_000), &p), 1_000_000);
    assert_eq!(download_size(Some(usize::MAX), &p), 8 * 1024 * 1024);
}

#[test]
fn chunk_size_has_a_floor() {
    let mut p = plan();
    assert_eq!(download_chunk_size(&p), 65536);
    p.download_chunk_size = 0;
    assert_eq!(download_chunk_size(&p), 1024);
}

#[test]
fn chunks_cover_the_download() {
    let lens = download_chunk_lengths(150_000, 65536);
    assert_eq!(lens, vec![65536, 65536, 18928]);
    assert_eq!(lens.iter().sum::<usize>(), 150_000);
    assert_eq!(download_chunk_lengths(131072, 65536), vec![65536, 65536]);
    assert!(download_chunk_lengths(0, 1024).is_empty());
}

#[test]
fn chunk_bytes_are_letters() {
    let c = download_chunk(5);
    assert_eq!(c, b"aaaaa".to_vec());
    assert!(download_chunk(0).is_empty());
}

#[test]
fn replies_describe_the_node() {
    let cfg = config(AppMode::Desktop);
    let h = health_response(&cfg);
    assert!(h.ok);
    assert_eq!(h.mode, "desktop");
    let c = config_response(&cfg);
    assert_eq!(c.node_name, "Node A");
    assert_eq!(c.mode, "desktop");
    assert_eq!(c.browser_url, "http://localhost:4000/");
    assert_eq!(c.test_plan, plan_response(&cfg.plan));
    assert_eq!(c.test_plan.download_request_size, 4194304);
    assert_eq!(c.test_plan.session_start_cooldown_seconds, 5);
    let n = node_response(&cfg, 42);
    assert_eq!(n.locale, "en-US");
    assert_eq!(n.uptime_seconds, 42);
    assert_eq!(n.mode, "desktop");
}
