use speedtest::config::{default_public_dir, AppMode, Cli, RuntimeConfig};
use speedtest::net::{IpAddress, SocketAddress};
use speedtest::paths::LocalPath;
use speedtest::settings::{
    app_config_dir, settings_file_path, startup_entry_path, DesktopSettings, TargetOs, UserDirs,
};

fn cli(mode: &str, browser_port: Option<u16>) -> Cli {
    Cli {
        bind: SocketAddress { ip: IpAddress::V6(0), port: 3000, flowinfo: 0, scope_id: 0 },
        browser_host: "127.0.0.1".to_string(),
        browser_port,
        open_browser: true,
        autostart: false,
        node_name: "SpeedTest Node".to_string(),
        locale: "zh-CN".to_string(),
        mode: mode.to_string(),
    }
}

fn public() -> LocalPath {
    LocalPath { base: "/srv/node".to_string(), parts: vec!["public".to_string()] }
}

#[test]
fn mode_comes_from_the_mode_flag() {
    assert_eq!(RuntimeConfig::from_cli(cli("desktop", None), public()).mode, AppMode::Desktop);
    assert_eq!(RuntimeConfig::from_cli(cli("server", None), public()).mode, AppMode::Server);
    assert_eq!(RuntimeConfig::from_cli(cli("Desktop", None), public()).mode, AppMode::Server);
    assert_eq!(RuntimeConfig::from_cli(cli("", None), public()).mode, AppMode::Server);
}

#[test]
fn browser_port_defaults_to_bound_port() {
    assert_eq!(RuntimeConfig::from_cli(cli("server", None), public()).browser_port, 3000);
    assert_eq!(RuntimeConfig::from_cli(cli("server", Some(8080)), public()).browser_port, 8080);
}

#[test]
fn standard_plan_is_used() {
    let config = RuntimeConfig::from_cli(cli("server", None), public());
    let plan = config.plan;
    assert_eq!(plan.latency_probes, 6);
    assert_eq!(plan.latency_interval_ms, 120);
    assert_eq!(plan.throughput_samples, 3);
    assert_eq!(plan.throughput_workers, 3);
    assert_eq!(plan.throughput_window_ms, 900);
    assert_eq!(plan.session_ttl_seconds, 30);
    assert_eq!(plan.session_start_cooldown_seconds, 5);
    assert_eq!(plan.max_active_sessions_per_ip, 2);
    assert_eq!(plan.download_chunk_size, 64 * 1024);
    assert_eq!(plan.download_request_size, 4 * 1024 * 1024);
    assert_eq!(plan.upload_payload_size, 1024 * 1024);
    assert_eq!(config.node_name, "SpeedTest Node");
    assert_eq!(config.locale, "zh-CN");
    assert!(config.open_browser_on_start);
    assert!(!config.autostart_enabled);
    assert_eq!(config.public_dir.base, "/srv/node");
}

#[test]
fn browser_url_uses_given_or_configured_port() {
    let config = RuntimeConfig::from_cli(cli("server", None), public());
    assert_eq!(config.browser_url(None), "http://127.0.0.1:3000/");
    assert_eq!(config.browser_url(Some(0)), "http://127.0.0.1:0/");
    assert_eq!(config.browser_url(Some(65535)), "http://127.0.0.1:65535/");
}

#[test]
fn mode_names() {
    assert_eq!(RuntimeConfig::from_cli(cli("desktop", None), public()).mode_name(), "desktop");
    assert_eq!(RuntimeConfig::from_cli(cli("x", None), public()).mode_name(), "server");
}

#[test]
fn session_durations_come_from_the_plan() {
    let config = RuntimeConfig::from_cli(cli("server", None), public());
    assert_eq!(config.session_ttl(), std::time::Duration::from_secs(30));
    assert_eq!(config.session_cooldown(), std::time::Duration::from_secs(5));
}

#[test]
fn public_dir_is_under_manifest_dir() {
    let dir = default_public_dir("/build/speedtest");
    assert_eq!(dir.base, "/build/speedtest");
    assert_eq!(dir.parts, vec!["public".to_string()]);
}

#[test]
fn socket_address_port_change() {
    let a = SocketAddress { ip: IpAddress::V4(0x7f00_0001), port: 3000, flowinfo: 0, scope_id: 0 };
    let b = a.with_port(0);
    assert_eq!(b.port(), 0);
    assert_eq!(b.ip, a.ip);
}

fn dirs(appdata: Option<&str>, home: Option<&str>, xdg: Option<&str>) -> UserDirs {
    UserDirs {
        appdata: appdata.map(|s| s.to_string()),
        home: home.map(|s| s.to_string()),
        xdg_config_home: xdg.map(|s| s.to_string()),
    }
}

fn parts(p: &LocalPath) -> Vec<&str> {
    p.parts.iter().map(|s| s.as_str()).collect()
}

#[test]
fn config_dir_by_platform() {
    let all = dirs(Some("C:\\Users\\a\\AppData\\Roaming"), Some("/home/a"), Some("/home/a/.cfg"));
    let win = app_config_dir(TargetOs::Windows, &all);
    assert_eq!(win.base, "C:\\Users\\a\\AppData\\Roaming");
    assert_eq!(parts(&win), vec!["speed-test"]);
    let mac = app_config_dir(TargetOs::MacOs, &all);
    assert_eq!(mac.base, "/home/a");
    assert_eq!(parts(&mac), vec!["Library", "Application Support", "speed-test"]);
    let linux = app_config_dir(TargetOs::Other, &all);
    assert_eq!(linux.base, "/home/a/.cfg");
    assert_eq!(parts(&linux), vec!["speed-test"]);
}

#[test]
fn config_dir_fallbacks() {
    let home_only = dirs(None, Some("/home/b"), None);
    let win = app_config_dir(TargetOs::Windows, &home_only);
    assert_eq!(win.base, "/home/b");
    assert_eq!(parts(&win), vec![".config", "speed-test"]);
    let none = app_config_dir(TargetOs::Other, &dirs(None, None, None));
    assert_eq!(none.base, "speed-test");
    assert!(none.parts.is_empty());
    let mac_no_home = app_config_dir(TargetOs::MacOs, &dirs(None, None, Some("/x")));
    assert_eq!(mac_no_home.base, "/x");
}

#[test]
fn settings_file_is_in_config_dir() {
    let f = settings_file_path(TargetOs::Other, &dirs(None, Some("/home/c"), None));
    assert_eq!(f.base, "/home/c");
    assert_eq!(parts(&f), vec![".config", "speed-test", "settings.json"]);
}

#[test]
fn startup_entry_by_platform() {
    let all = dirs(Some("R"), Some("/h"), Some("/x"));
    let win = startup_entry_path(TargetOs::Windows, &all);
    assert_eq!(win.base, "R");
    assert_eq!(
        parts(&win),
        vec!["Microsoft", "Windows", "Start Menu", "Programs", "Startup", "speed-test-autostart.bat"]
    );
    let mac = startup_entry_path(TargetOs::MacOs, &all);
    assert_eq!(parts(&mac), vec!["Library", "LaunchAgents", "com.speed-test.autostart.plist"]);
    let linux = startup_entry_path(TargetOs::Other, &all);
    assert_eq!(linux.base, "/x");
    assert_eq!(parts(&linux), vec!["autostart", "speed-test.desktop"]);
    let home = startup_entry_path(TargetOs::Other, &dirs(None, Some("/h"), None));
    assert_eq!(parts(&home), vec![".config", "autostart", "speed-test.desktop"]);
    let none = startup_entry_path(TargetOs::Windows, &dirs(None, None, None));
    assert_eq!(none.base, "speed-test-autostart");
    assert!(none.parts.is_empty());
}

#[test]
fn default_settings() {
    let s = DesktopSettings::default();
    assert!(!s.autostart);
    assert!(s.open_browser_on_start);
}

#[test]
fn path_join_appends() {
    let p = LocalPath::new("/a").join("b").join("c");
    assert_eq!(p.base, "/a");
    assert_eq!(parts(&p), vec!["b", "c"]);
}
