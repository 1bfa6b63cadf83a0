//! The decisions of the desktop mode's start: the settings it keeps, what it does
//! when the port is taken, and what it tells the user.

use crate::config::{url_of, RuntimeConfig};
use crate::settings::DesktopSettings;
use crate::text::{decimal, u16_decimal};
use vstd::prelude::*;

verus! {

impl DesktopSettings {
    /// The settings brought in line with the command line: autostart and opening the
    /// browser on start as the configuration says.
    pub fn synced_with(&self, config: &RuntimeConfig) -> (settings: DesktopSettings)
        ensures
            settings.autostart == config.autostart_enabled,
            settings.open_browser_on_start == config.open_browser_on_start,
    {
        let mut settings = *self;
        if settings.autostart != config.autostart_enabled {
            settings.autostart = config.autostart_enabled;
        }
        if settings.open_browser_on_start != config.open_browser_on_start {
            settings.open_browser_on_start = config.open_browser_on_start;
        }
        settings
    }
}

/// How serious a message box is.
#[derive(Clone, Copy, Debug, PartialEq, Eq, Structural)]
pub enum NoticeLevel {
    Info,
    Error,
}

/// A message box: its title, its text and its level.
#[derive(Clone, Debug)]
pub struct Notice {
    pub title: String,
    pub message: String,
    pub level: NoticeLevel,
}

/// Why binding the listening socket failed.
#[derive(Clone, Copy, Debug, PartialEq, Eq, Structural)]
pub enum BindFailure {
    /// The address is in use.
    AddrInUse,
    /// Anything else.
    Other,
}

/// What follows a failed first bind.
#[derive(Clone, Debug)]
pub enum BindRecovery {
    /// Bind again, on a port the system picks.
    RetryOnAnyPort,
    /// Show the notice and give up.
    GiveUp(Notice),
}

/// Title of the notice that the port was switched.
pub open spec fn port_taken_title() -> Seq<char> {
    "端口已占用"@
}

/// Title of the notice that the program could not start.
pub open spec fn start_failed_title() -> Seq<char> {
    "测速程序启动失败"@
}

/// "Could not bind port {target}: {error}".
pub open spec fn bind_failed_text(target: Seq<char>, error: Seq<char>) -> Seq<char> {
    "无法绑定端口 "@ + target + ": "@ + error
}

/// "Port {original} is taken; switched to the random port {chosen}."
pub open spec fn port_switched_text(original: u16, chosen: u16) -> Seq<char> {
    "端口 "@ + decimal(original as nat) + " 已被占用，已自动切换到随机端口 "@ + decimal(chosen as nat) + "。"@
}

/// "Could not bind port {target}: {error}".
fn bind_failed_message(target: &str, error: &str) -> (text: String)
    ensures
        text@ == bind_failed_text(target@, error@),
{
    let mut text = String::from_str("无法绑定端口 ");
    text.append(target);
    text.append(": ");
    text.append(error);
    text
}

/// After the first bind failed: a taken address is retried on a port the system
/// picks; any other failure gives up with an error naming the address.
pub fn after_first_bind_failure(failure: BindFailure, address: &str, error: &str) -> (next:
    BindRecovery)
    ensures
        failure == BindFailure::AddrInUse ==> next is RetryOnAnyPort,
        failure == BindFailure::Other ==> (next matches BindRecovery::GiveUp(n) && n.title@
            == start_failed_title() && n.message@ == bind_failed_text(address@, error@) && n.level
            == NoticeLevel::Error),
{
    match failure {
        BindFailure::AddrInUse => BindRecovery::RetryOnAnyPort,
        BindFailure::Other => BindRecovery::GiveUp(
            Notice {
                title: String::from_str("测速程序启动失败"),
                message: bind_failed_message(address, error),
                level: NoticeLevel::Error,
            },
        ),
    }
}

/// The notice that the taken port was replaced by the one the system picked.
pub fn port_switched_notice(original: u16, chosen: u16) -> (notice: Notice)
    ensures
        notice.title@ == port_taken_title(),
        notice.message@ == port_switched_text(original, chosen),
        notice.level == NoticeLevel::Info,
{
    let mut message = String::from_str("端口 ");
    let original_text = u16_decimal(original);
    message.append(original_text.as_str());
    message.append(" 已被占用，已自动切换到随机端口 ");
    let chosen_text = u16_decimal(chosen);
    message.append(chosen_text.as_str());
    message.append("。");
    Notice { title: String::from_str("端口已占用"), message, level: NoticeLevel::Info }
}

/// The notice that the second bind failed too: it names the original port.
pub fn retry_failed_notice(original: u16, error: &str) -> (notice: Notice)
    ensures
        notice.title@ == start_failed_title(),
        notice.message@ == bind_failed_text(decimal(original as nat), error@),
        notice.level == NoticeLevel::Error,
{
    let port_text = u16_decimal(original);
    Notice {
        title: String::from_str("测速程序启动失败"),
        message: bind_failed_message(port_text.as_str(), error),
        level: NoticeLevel::Error,
    }
}

/// The page the desktop mode serves once bound, and whether to open it now.
#[derive(Clone, Debug)]
pub struct StartupPage {
    pub url: String,
    pub open_now: bool,
}

/// Once bound to `bound_port`: the page is on that port, and it is opened in the
/// browser when the settings say so.
pub fn startup_page(settings: &DesktopSettings, config: &RuntimeConfig, bound_port: u16) -> (page:
    StartupPage)
    ensures
        page.url@ == url_of(config.browser_host@, bound_port),
        page.open_now == settings.open_browser_on_start,
{
    StartupPage {
        url: config.browser_url(Some(bound_port)),
        open_now: settings.open_browser_on_start,
    }
}

} // verus!
