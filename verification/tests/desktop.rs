use speedtest::config::{AppMode, RuntimeConfig, TestPlan};
use speedtest::net::{IpAddress, SocketAddress};
use speedtest::paths::LocalPath;
use speedtest::settings::{DesktopSettings, TargetOs};
use speedtest::startup::{
    after_first_bind_failure, port_switched_notice, retry_failed_notice, startup_page,
    BindFailure, BindRecovery, NoticeLevel,
};
use speedtest::text::{u128_lower_hex, u16_decimal};
use speedtest::tray::{autostart_change, AutostartChange};
use speedtest::tray::{
    autostart_entry_content, desktop_icon_rgba, menu_command, on_menu_command, tray_tooltip,
    MenuCommand, MenuEffect, MenuIds,
};

#[test]
fn icon_is_a_teal_disc() {
    let px = desktop_icon_rgba();
    assert_eq!(px.len(), 64 * 64 * 4);
    let at = |x: usize, y: usize| -> &[u8] { &px[(y * 64 + x) * 4..(y * 64 + x) * 4 + 4] };
    assert_eq!(at(32, 32), &[35, 196, 183, 255]);
    assert_eq!(at(0, 0), &[0, 0, 0, 0]);
    assert_eq!(at(2, 32), &[35, 196, 183, 255]);
    assert_eq!(at(1, 32), &[0, 0, 0, 0]);
    assert_eq!(at(32, 62), &[35, 196, 183, 255]);
    assert_eq!(at(63, 63), &[0, 0, 0, 0]);
}

#[test]
fn tooltip_follows_locale() {
    assert_eq!(tray_tooltip("zh-CN"), "测速网页");
    assert_eq!(tray_tooltip("zh"), "测速网页");
    assert_eq!(tray_tooltip("en-US"), "Speed test");
    assert_eq!(tray_tooltip("z"), "Speed test");
    assert_eq!(tray_tooltip(""), "Speed test");
}

fn ids() -> MenuIds {
    MenuIds {
        open: Some("1".to_string()),
        quit: Some("2".to_string()),
        startup: Some("3".to_string()),
        browser: Some("4".to_string()),
    }
}

#[test]
fn menu_ids_name_commands() {
    assert_eq!(menu_command(&"1".to_string(), &ids()), MenuCommand::OpenPage);
    assert_eq!(menu_command(&"2".to_string(), &ids()), MenuCommand::Quit);
    assert_eq!(menu_command(&"3".to_string(), &ids()), MenuCommand::ToggleStartup);
    assert_eq!(menu_command(&"4".to_string(), &ids()), MenuCommand::ToggleBrowser);
    assert_eq!(menu_command(&"5".to_string(), &ids()), MenuCommand::Unknown);
    let none = MenuIds { open: None, quit: None, startup: None, browser: None };
    assert_eq!(menu_command(&"1".to_string(), &none), MenuCommand::Unknown);
}

#[test]
fn toggles_flip_settings() {
    let mut s = DesktopSettings::default();
    assert_eq!(on_menu_command(&mut s, MenuCommand::ToggleStartup), MenuEffect::StartupChanged { autostart: true });
    assert!(s.autostart);
    assert_eq!(
        on_menu_command(&mut s, MenuCommand::ToggleBrowser),
        MenuEffect::BrowserChanged { open_browser_on_start: false }
    );
    assert!(!s.open_browser_on_start);
    assert_eq!(on_menu_command(&mut s, MenuCommand::ToggleStartup), MenuEffect::StartupChanged { autostart: false });
    assert_eq!(on_menu_command(&mut s, MenuCommand::ToggleBrowser), MenuEffect::BrowserChanged { open_browser_on_start: true });
    assert_eq!(s, DesktopSettings::default());
}

#[test]
fn other_entries_leave_settings() {
    let mut s = DesktopSettings { autostart: true, open_browser_on_start: false };
    assert_eq!(on_menu_command(&mut s, MenuCommand::OpenPage), MenuEffect::OpenPage);
    assert_eq!(on_menu_command(&mut s, MenuCommand::Quit), MenuEffect::Exit);
    assert_eq!(on_menu_command(&mut s, MenuCommand::Unknown), MenuEffect::Nothing);
    assert_eq!(s, DesktopSettings { autostart: true, open_browser_on_start: false });
}

#[test]
fn autostart_entries() {
    assert_eq!(
        autostart_entry_content(TargetOs::Windows, "C:\\st.exe"),
        "@echo off\r\nstart \"\" \"C:\\st.exe\" --mode desktop\r\n"
    );
    assert_eq!(
        autostart_entry_content(TargetOs::Other, "/usr/bin/st"),
        "[Desktop Entry]\nType=Application\nName=Speed Test\nExec=\"/usr/bin/st\" --mode desktop\nX-GNOME-Autostart-enabled=true\nNoDisplay=false\n"
    );
    let mac = autostart_entry_content(TargetOs::MacOs, "/Applications/st");
    assert!(mac.starts_with("<?xml version=\\\"1.0\\\" encoding=\\\"UTF-8\\\"?>\n"));
    assert!(mac.contains("    <string>/Applications/st</string>\n    <string>--mode</string>\n"));
    assert!(mac.ends_with("</dict>\n</plist>\n"));
}

fn config(autostart: bool, open_browser: bool) -> RuntimeConfig {
    RuntimeConfig {
        bind_addr: SocketAddress { ip: IpAddress::V4(0), port: 3000, flowinfo: 0, scope_id: 0 },
        browser_host: "127.0.0.1".to_string(),
        browser_port: 3000,
        open_browser_on_start: open_browser,
        autostart_enabled: autostart,
        node_name: "n".to_string(),
        locale: "zh-CN".to_string(),
        public_dir: LocalPath { base: "p".to_string(), parts: vec![] },
        mode: AppMode::Desktop,
        plan: TestPlan {
            latency_probes: 6,
            latency_interval_ms: 120,
            throughput_samples: 3,
            throughput_workers: 3,
            throughput_window_ms: 900,
            session_ttl_seconds: 30,
            session_start_cooldown_seconds: 5,
            max_active_sessions_per_ip: 2,
            download_chunk_size: 65536,
            download_request_size: 4194304,
            upload_payload_size: 1048576,
        },
    }
}

#[test]
fn settings_follow_command_line() {
    let s = DesktopSettings { autostart: true, open_browser_on_start: true };
    let synced = s.synced_with(&config(false, false));
    assert_eq!(synced, DesktopSettings { autostart: false, open_browser_on_start: false });
    let same = s.synced_with(&config(true, true));
    assert_eq!(same, s);
}

#[test]
fn taken_port_is_retried() {
    assert!(matches!(after_first_bind_failure(BindFailure::AddrInUse, "[::]:3000", "x"), BindRecovery::RetryOnAnyPort));
    match after_first_bind_failure(BindFailure::Other, "[::]:3000", "permission denied") {
        BindRecovery::GiveUp(n) => {
            assert_eq!(n.title, "测速程序启动失败");
            assert_eq!(n.message, "无法绑定端口 [::]:3000: permission denied");
            assert_eq!(n.level, NoticeLevel::Error);
        }
        BindRecovery::RetryOnAnyPort => panic!("should give up"),
    }
}

#[test]
fn notices_name_ports() {
    let n = port_switched_notice(3000, 54321);
    assert_eq!(n.title, "端口已占用");
    assert_eq!(n.message, "端口 3000 已被占用，已自动切换到随机端口 54321。");
    assert_eq!(n.level, NoticeLevel::Info);
    let f = retry_failed_notice(3000, "boom");
    assert_eq!(f.message, "无法绑定端口 3000: boom");
    assert_eq!(f.level, NoticeLevel::Error);
}

#[test]
fn browser_event_flips_only_its_setting() {
    let start = DesktopSettings { autostart: true, open_browser_on_start: true };
    let mut s = start;
    let id = "4".to_string();
    on_menu_command(&mut s, menu_command(&id, &ids()));
    assert_eq!(s, DesktopSettings { autostart: true, open_browser_on_start: false });
    on_menu_command(&mut s, menu_command(&id, &ids()));
    assert_eq!(s, start);
}

#[test]
fn autostart_entry_follows_setting() {
    assert_eq!(autostart_change(&DesktopSettings { autostart: true, open_browser_on_start: false }), AutostartChange::Install);
    assert_eq!(autostart_change(&DesktopSettings::default()), AutostartChange::Remove);
}

#[test]
fn numbers_as_text() {
    assert_eq!(u16_decimal(0), "0");
    assert_eq!(u16_decimal(9), "9");
    assert_eq!(u16_decimal(10), "10");
    assert_eq!(u16_decimal(65535), "65535");
    assert_eq!(u128_lower_hex(0), "0");
    assert_eq!(u128_lower_hex(0xdead_beef), "deadbeef");
    assert_eq!(u128_lower_hex(u128::MAX), format!("{:x}", u128::MAX));
    for n in [1u16, 7, 42, 100, 999, 1000, 4321, 60000] {
        assert_eq!(u16_decimal(n), n.to_string());
    }
}

#[test]
fn startup_page_is_on_the_bound_port() {
    let cfg = config(false, true);
    let page = startup_page(&DesktopSettings { autostart: false, open_browser_on_start: true }, &cfg, 54321);
    assert_eq!(page.url, "http://127.0.0.1:54321/");
    assert!(page.open_now);
    let quiet = startup_page(&DesktopSettings { autostart: false, open_browser_on_start: false }, &cfg, 3000);
    assert!(!quiet.open_now);
}
