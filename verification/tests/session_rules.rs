use speedtest::config::{AppMode, RuntimeConfig, TestPlan};
use speedtest::net::{IpAddress, SocketAddress};
use speedtest::paths::LocalPath;
use speedtest::session::{new_token, SessionError, SessionManager, TokenCounter, NANOS_PER_SEC};

fn plan() -> TestPlan {
    TestPlan {
        latency_probes: 6,
        latency_interval_ms: 120,
        throughput_samples: 3,
        throughput_workers: 3,
        throughput_window_ms: 900,
        session_ttl_seconds: 30,
        session_start_cooldown_seconds: 5,
        max_active_sessions_per_ip: 2,
        download_chunk_size: 65536,
        download_request_size: 4194304,
        upload_payload_size: 1048576,
    }
}

fn config_with(plan: TestPlan) -> RuntimeConfig {
    RuntimeConfig {
        bind_addr: SocketAddress { ip: IpAddress::V6(0), port: 3000, flowinfo: 0, scope_id: 0 },
        browser_host: "127.0.0.1".to_string(),
        browser_port: 3000,
        open_browser_on_start: true,
        autostart_enabled: false,
        node_name: "SpeedTest Node".to_string(),
        locale: "zh-CN".to_string(),
        public_dir: LocalPath { base: "/srv".to_string(), parts: vec!["public".to_string()] },
        mode: AppMode::Server,
        plan,
    }
}

const ALICE: IpAddress = IpAddress::V4(0x0a00_0001);
const BOB: IpAddress = IpAddress::V4(0x0a00_0002);

fn secs(n: u128) -> u128 {
    n * NANOS_PER_SEC
}

#[test]
fn issued_token_is_admitted_for_its_address_until_expiry() {
    let config = config_with(plan());
    let mut m = SessionManager::new();
    let mut tk = TokenCounter::new();
    let resp = m.create_session_at(ALICE, secs(1), 0xabc, &mut tk, &config).unwrap();
    assert_eq!(resp.token, "abc-1");
    assert_eq!(resp.expires_in_seconds, 30);
    assert!(m.validate_session_at(ALICE, &resp.token, secs(1)));
    assert!(m.validate_session_at(ALICE, &resp.token, secs(30)));
    assert!(m.validate_session_at(ALICE, &resp.token, secs(31) - 1));
    assert!(!m.validate_session_at(ALICE, &resp.token, secs(31)));
    assert!(!m.validate_session_at(ALICE, &resp.token, secs(2)));
}

#[test]
fn other_address_is_refused() {
    let config = config_with(plan());
    let mut m = SessionManager::new();
    let mut tk = TokenCounter::new();
    let resp = m.create_session_at(ALICE, 0, 1, &mut tk, &config).unwrap();
    assert!(!m.validate_session_at(BOB, &resp.token, 1));
    assert!(!m.validate_session_at(IpAddress::V6(0x0a00_0001), &resp.token, 1));
    assert!(m.validate_session_at(ALICE, &resp.token, 1));
}

#[test]
fn unknown_token_is_refused() {
    let config = config_with(plan());
    let mut m = SessionManager::new();
    let mut tk = TokenCounter::new();
    m.create_session_at(ALICE, 0, 1, &mut tk, &config).unwrap();
    assert!(!m.validate_session_at(ALICE, "1-2", 0));
    assert!(!m.validate_session_at(ALICE, "", 0));
}

#[test]
fn second_start_within_cooldown_is_rate_limited() {
    let config = config_with(plan());
    let mut m = SessionManager::new();
    let mut tk = TokenCounter::new();
    m.create_session_at(ALICE, secs(10), 1, &mut tk, &config).unwrap();
    let again = m.create_session_at(ALICE, secs(15) - 1, 2, &mut tk, &config);
    assert!(matches!(again, Err(SessionError::RateLimited)));
    let other = m.create_session_at(BOB, secs(11), 3, &mut tk, &config);
    assert!(other.is_ok());
    let later = m.create_session_at(ALICE, secs(15), 4, &mut tk, &config).unwrap();
    assert_eq!(later.token, "4-3");
}

#[test]
fn third_active_session_is_refused() {
    let config = config_with(plan());
    let mut m = SessionManager::new();
    let mut tk = TokenCounter::new();
    m.create_session_at(ALICE, secs(0), 1, &mut tk, &config).unwrap();
    m.create_session_at(ALICE, secs(5), 2, &mut tk, &config).unwrap();
    let third = m.create_session_at(ALICE, secs(10), 3, &mut tk, &config);
    assert!(matches!(third, Err(SessionError::TooManyActive)));
    // Once the first session has expired, a new one may start.
    let fourth = m.create_session_at(ALICE, secs(30), 4, &mut tk, &config).unwrap();
    assert_eq!(fourth.token, "4-3");
}

#[test]
fn refused_start_uses_no_token() {
    let config = config_with(plan());
    let mut m = SessionManager::new();
    let mut tk = TokenCounter::new();
    assert_eq!(m.create_session_at(ALICE, 0, 0, &mut tk, &config).unwrap().token, "0-1");
    assert!(m.create_session_at(ALICE, 1, 0, &mut tk, &config).is_err());
    assert_eq!(m.create_session_at(BOB, 2, 0, &mut tk, &config).unwrap().token, "0-2");
}

#[test]
fn start_is_forgotten_after_sixty_seconds() {
    let mut long_cooldown = plan();
    long_cooldown.session_start_cooldown_seconds = 100;
    let config = config_with(long_cooldown);
    let mut m = SessionManager::new();
    let mut tk = TokenCounter::new();
    m.create_session_at(ALICE, 0, 1, &mut tk, &config).unwrap();
    assert!(matches!(m.create_session_at(ALICE, secs(60) - 1, 2, &mut tk, &config), Err(SessionError::RateLimited)));
    assert!(m.create_session_at(ALICE, secs(60), 3, &mut tk, &config).is_ok());
}

#[test]
fn token_is_clock_and_counter_in_hex() {
    assert_eq!(new_token(0, 1), "0-1");
    assert_eq!(new_token(255, 16), "ff-10");
    assert_eq!(new_token(u128::MAX, u64::MAX), format!("{:x}-{:x}", u128::MAX, u64::MAX));
    assert_ne!(new_token(1, 23), new_token(12, 3));
}

#[test]
fn successive_tokens_differ() {
    let config = config_with(plan());
    let mut m = SessionManager::new();
    let mut tk = TokenCounter::new();
    let a = m.create_session_at(ALICE, 0, 7, &mut tk, &config).unwrap();
    let b = m.create_session_at(BOB, 0, 7, &mut tk, &config).unwrap();
    assert_ne!(a.token, b.token);
}

#[test]
fn live_clock_session_roundtrip() {
    let config = config_with(plan());
    let mut m = SessionManager::new();
    let mut tk = TokenCounter::new();
    let resp = m.create_session(ALICE, &mut tk, &config).unwrap();
    assert_eq!(resp.expires_in_seconds, 30);
    assert!(resp.token.ends_with("-1"));
    assert!(resp.token.chars().all(|c| c == '-' || c.is_ascii_hexdigit()));
    assert!(m.validate_session(ALICE, &resp.token));
    assert!(!m.validate_session(BOB, &resp.token));
    assert!(matches!(m.create_session(ALICE, &mut tk, &config), Err(SessionError::RateLimited)));
}

#[test]
fn validation_marks_the_session_seen_without_extending_it() {
    let config = config_with(plan());
    let mut m = SessionManager::new();
    let mut tk = TokenCounter::new();
    let resp = m.create_session_at(ALICE, 0, 1, &mut tk, &config).unwrap();
    assert!(m.validate_session_at(ALICE, &resp.token, secs(29)));
    assert!(!m.validate_session_at(ALICE, &resp.token, secs(30)));
}

#[test]
fn other_addresses_do_not_change_an_answer() {
    let config = config_with(plan());
    let mut quiet = SessionManager::new();
    let mut tk = TokenCounter::new();
    let mut busy = SessionManager::new();
    busy.create_session_at(BOB, secs(0), 1, &mut tk, &config).unwrap();
    busy.create_session_at(BOB, secs(6), 2, &mut tk, &config).unwrap();
    let a = quiet.create_session_at(ALICE, secs(7), 3, &mut tk, &config);
    let b = busy.create_session_at(ALICE, secs(7), 3, &mut tk, &config);
    assert!(a.is_ok() && b.is_ok());
    assert!(matches!(quiet.create_session_at(ALICE, secs(8), 4, &mut tk, &config), Err(SessionError::RateLimited)));
    assert!(matches!(busy.create_session_at(ALICE, secs(8), 4, &mut tk, &config), Err(SessionError::RateLimited)));
}

#[test]
fn refused_start_does_not_extend_cooldown() {
    let config = config_with(plan());
    let mut m = SessionManager::new();
    let mut tk = TokenCounter::new();
    m.create_session_at(ALICE, secs(0), 1, &mut tk, &config).unwrap();
    assert!(matches!(m.create_session_at(ALICE, secs(3), 2, &mut tk, &config), Err(SessionError::RateLimited)));
    assert!(matches!(m.create_session_at(ALICE, secs(4), 2, &mut tk, &config), Err(SessionError::RateLimited)));
    assert!(m.create_session_at(ALICE, secs(5), 3, &mut tk, &config).is_ok());
}

#[test]
fn active_sessions_never_exceed_limit() {
    let config = config_with(plan());
    let mut m = SessionManager::new();
    let mut tk = TokenCounter::new();
    let mut live: Vec<(IpAddress, u128)> = Vec::new();
    for step in 0..200u128 {
        let ip = if step % 3 == 0 { ALICE } else { BOB };
        let now = secs(step * 2);
        if let Ok(_) = m.create_session_at(ip, now, step, &mut tk, &config) {
            live.push((ip, now + secs(30)));
        }
        live.retain(|(_, expires)| *expires > now);
        for who in [ALICE, BOB] {
            assert!(live.iter().filter(|(i, _)| *i == who).count() <= 2);
        }
    }
}

#[test]
fn checks_do_not_change_later_starts() {
    let config = config_with(plan());
    let mut checked = SessionManager::new();
    let mut tk = TokenCounter::new();
    let mut unchecked = SessionManager::new();
    let mut tk2 = TokenCounter::new();
    let t1 = checked.create_session_at(ALICE, secs(0), 1, &mut tk, &config).unwrap();
    unchecked.create_session_at(ALICE, secs(0), 1, &mut tk2, &config).unwrap();
    for s in 1..5u128 {
        assert!(checked.validate_session_at(ALICE, &t1.token, secs(s)));
    }
    for s in 5..40u128 {
        let a = checked.create_session_at(ALICE, secs(s), s, &mut tk, &config).map(|r| r.token);
        let b = unchecked.create_session_at(ALICE, secs(s), s, &mut tk2, &config).map(|r| r.token);
        assert_eq!(a.is_ok(), b.is_ok());
        if let (Ok(x), Ok(y)) = (a, b) {
            assert_eq!(x, y);
        }
    }
}

#[test]
fn checks_never_extend_a_session() {
    let config = config_with(plan());
    let mut m = SessionManager::new();
    let mut tk = TokenCounter::new();
    let t = m.create_session_at(ALICE, secs(10), 1, &mut tk, &config).unwrap();
    for s in 10..40u128 {
        assert!(m.validate_session_at(ALICE, &t.token, secs(s)));
    }
    assert!(m.validate_session_at(ALICE, &t.token, secs(40) - 1));
    assert!(!m.validate_session_at(ALICE, &t.token, secs(40)));
    assert!(!m.validate_session_at(ALICE, &t.token, secs(39)));
}

#[test]
fn all_tokens_handed_out_differ() {
    let config = config_with(plan());
    let mut m = SessionManager::new();
    let mut tk = TokenCounter::new();
    let mut seen = std::collections::HashSet::new();
    for step in 0..500u128 {
        let ip = IpAddress::V4(step as u32);
        let t = m.create_session_at(ip, secs(step), 0, &mut tk, &config).unwrap();
        assert!(seen.insert(t.token));
    }
}

#[test]
fn stores_sharing_the_counter_hand_out_distinct_tokens() {
    let config = config_with(plan());
    let mut tk = TokenCounter::new();
    let mut first = SessionManager::new();
    let mut second = SessionManager::new();
    let a = first.create_session_at(ALICE, 0, 5, &mut tk, &config).unwrap();
    let b = second.create_session_at(ALICE, 0, 5, &mut tk, &config).unwrap();
    assert_eq!(a.token, "5-1");
    assert_eq!(b.token, "5-2");
    assert!(!first.validate_session_at(ALICE, &b.token, 1));
}

#[test]
fn refusal_leaves_the_counter() {
    let config = config_with(plan());
    let mut tk = TokenCounter::new();
    let mut m = SessionManager::new();
    m.create_session_at(ALICE, 0, 5, &mut tk, &config).unwrap();
    assert!(m.create_session_at(ALICE, 1, 5, &mut tk, &config).is_err());
    let mut other = SessionManager::new();
    assert_eq!(other.create_session_at(ALICE, 1, 5, &mut tk, &config).unwrap().token, "5-2");
}
