//! The desktop tray: its icon, its tooltip, what each menu entry does to the
//! settings, and the autostart entry it writes.

use crate::settings::{DesktopSettings, TargetOs};
use vstd::prelude::*;

verus! {

/// Side of the square icon, in pixels.
pub const ICON_SIZE: usize = 64;

/// The pixel at column `x`, row `y` lies in the disc of radius 30 centred at (32, 32).
pub open spec fn in_icon_disc(x: int, y: int) -> bool {
    (x - 32) * (x - 32) + (y - 32) * (y - 32) <= 900
}

/// Byte `k` of the icon, row by row, four bytes (red, green, blue, alpha) a pixel:
/// opaque teal (35, 196, 183, 255) in the disc, transparent black elsewhere.
pub open spec fn icon_byte(k: int) -> u8 {
    let p = k / 4;
    let c = k % 4;
    if in_icon_disc(p % 64, p / 64) {
        seq![35u8, 196u8, 183u8, 255u8][c]
    } else {
        0u8
    }
}

/// The tray icon: 64 x 64 pixels, RGBA, a teal disc on a transparent ground.
pub fn desktop_icon_rgba() -> (pixels: Vec<u8>)
    ensures
        pixels@ == Seq::new(16384, |k: int| icon_byte(k)),
{
    let mut pixels: Vec<u8> = Vec::new();
    for p in 0..4096usize
        invariant
            pixels@ == Seq::new((4 * p) as nat, |k: int| icon_byte(k)),
    {
        let x = p % ICON_SIZE;
        let y = p / ICON_SIZE;
        let dx = x as i32 - 32;
        let dy = y as i32 - 32;
        assert(dx * dx <= 1024) by (nonlinear_arith)
            requires
                -32 <= dx <= 32,
        ;
        assert(dy * dy <= 1024) by (nonlinear_arith)
            requires
                -32 <= dy <= 32,
        ;
        assert(0 <= dx * dx && 0 <= dy * dy) by (nonlinear_arith);
        let in_disc = dx * dx + dy * dy <= 900;
        let ghost before = pixels@;
        if in_disc {
            pixels.push(35);
            pixels.push(196);
            pixels.push(183);
            pixels.push(255);
        } else {
            pixels.push(0);
            pixels.push(0);
            pixels.push(0);
            pixels.push(0);
        }
        assert forall|k: int| 4 * p <= k < 4 * p + 4 implies #[trigger] icon_byte(k) == pixels@[k] by {
            assert(k / 4 == p && k % 4 == k - 4 * p) by (nonlinear_arith)
                requires
                    4 * p <= k < 4 * p + 4,
            ;
            assert(in_icon_disc(p as int % 64, p as int / 64) == in_disc);
        }
        assert(pixels@ =~= Seq::new((4 * (p + 1)) as nat, |k: int| icon_byte(k)));
    }
    pixels
}

/// The tooltip: Chinese for a locale that starts with `zh`, English otherwise.
pub open spec fn tooltip_of(locale: Seq<char>) -> Seq<char> {
    if locale.len() >= 2 && locale[0] == 'z' && locale[1] == 'h' {
        "测速网页"@
    } else {
        "Speed test"@
    }
}

/// The tooltip of the tray icon for a locale.
pub fn tray_tooltip(locale: &str) -> (tip: &'static str)
    ensures
        tip@ == tooltip_of(locale@),
{
    if locale.unicode_len() >= 2 && locale.get_char(0) == 'z' && locale.get_char(1) == 'h' {
        "测速网页"
    } else {
        "Speed test"
    }
}

/// The ids the entries of the tray menu were given (none before the menu exists).
#[derive(Clone, Debug)]
pub struct MenuIds {
    pub open: Option<String>,
    pub quit: Option<String>,
    pub startup: Option<String>,
    pub browser: Option<String>,
}

/// An entry of the tray menu.
#[derive(Clone, Copy, Debug, PartialEq, Eq, Structural)]
pub enum MenuCommand {
    /// Open the page.
    OpenPage,
    /// Stop the server and leave.
    Quit,
    /// Start with the session, or stop doing so.
    ToggleStartup,
    /// Open the browser on start, or stop doing so.
    ToggleBrowser,
    /// Not an entry of this menu.
    Unknown,
}

/// `id` is the id of an entry.
pub open spec fn names(entry: Option<String>, id: Seq<char>) -> bool {
    entry matches Some(e) && e@ == id
}

/// The entry an event id names, the entries tried in menu order.
pub open spec fn command_of(id: Seq<char>, ids: MenuIds) -> MenuCommand {
    if names(ids.open, id) {
        MenuCommand::OpenPage
    } else if names(ids.quit, id) {
        MenuCommand::Quit
    } else if names(ids.startup, id) {
        MenuCommand::ToggleStartup
    } else if names(ids.browser, id) {
        MenuCommand::ToggleBrowser
    } else {
        MenuCommand::Unknown
    }
}

/// Whether an entry has the id `id`.
fn entry_is(entry: &Option<String>, id: &String) -> (is: bool)
    ensures
        is == names(*entry, id@),
{
    match entry {
        Some(e) => *e == *id,
        None => false,
    }
}

/// The entry that a menu event names.
pub fn menu_command(id: &String, ids: &MenuIds) -> (command: MenuCommand)
    ensures
        command == command_of(id@, *ids),
{
    if entry_is(&ids.open, id) {
        MenuCommand::OpenPage
    } else if entry_is(&ids.quit, id) {
        MenuCommand::Quit
    } else if entry_is(&ids.startup, id) {
        MenuCommand::ToggleStartup
    } else if entry_is(&ids.browser, id) {
        MenuCommand::ToggleBrowser
    } else {
        MenuCommand::Unknown
    }
}

/// What the tray does after a menu entry was chosen.
#[derive(Clone, Copy, Debug, PartialEq, Eq, Structural)]
pub enum MenuEffect {
    /// Open the page in the browser.
    OpenPage,
    /// Stop the server and leave the event loop.
    Exit,
    /// Save the settings, check the startup entry as given, and write or remove the
    /// autostart entry accordingly.
    StartupChanged { autostart: bool },
    /// Save the settings and check the browser entry as given.
    BrowserChanged { open_browser_on_start: bool },
    /// Nothing.
    Nothing,
}

/// What choosing an entry does: the settings afterwards and what the tray then does.
/// The two toggles flip their own setting and no other; the other entries leave the
/// settings alone.
pub open spec fn menu_step(settings: DesktopSettings, command: MenuCommand) -> (
    DesktopSettings,
    MenuEffect,
) {
    match command {
        MenuCommand::OpenPage => (settings, MenuEffect::OpenPage),
        MenuCommand::Quit => (settings, MenuEffect::Exit),
        MenuCommand::ToggleStartup => (
            DesktopSettings { autostart: !settings.autostart, ..settings },
            MenuEffect::StartupChanged { autostart: !settings.autostart },
        ),
        MenuCommand::ToggleBrowser => (
            DesktopSettings { open_browser_on_start: !settings.open_browser_on_start, ..settings },
            MenuEffect::BrowserChanged { open_browser_on_start: !settings.open_browser_on_start },
        ),
        MenuCommand::Unknown => (settings, MenuEffect::Nothing),
    }
}

/// A menu entry chosen: the settings and the effect are those of `menu_step`.
pub fn on_menu_command(settings: &mut DesktopSettings, command: MenuCommand) -> (effect: MenuEffect)
    ensures
        (*final(settings), effect) == menu_step(*old(settings), command),
{
    match command {
        MenuCommand::OpenPage => MenuEffect::OpenPage,
        MenuCommand::Quit => MenuEffect::Exit,
        MenuCommand::ToggleStartup => {
            settings.autostart = !settings.autostart;
            MenuEffect::StartupChanged { autostart: settings.autostart }
        },
        MenuCommand::ToggleBrowser => {
            settings.open_browser_on_start = !settings.open_browser_on_start;
            MenuEffect::BrowserChanged { open_browser_on_start: settings.open_browser_on_start }
        },
        MenuCommand::Unknown => MenuEffect::Nothing,
    }
}

/// The four entries have ids, all different.
pub open spec fn ids_distinct(ids: MenuIds) -> bool {
    &&& ids.open is Some
    &&& ids.quit is Some
    &&& ids.startup is Some
    &&& ids.browser is Some
    &&& ids.open->0@ != ids.quit->0@
    &&& ids.open->0@ != ids.startup->0@
    &&& ids.open->0@ != ids.browser->0@
    &&& ids.quit->0@ != ids.startup->0@
    &&& ids.quit->0@ != ids.browser->0@
    &&& ids.startup->0@ != ids.browser->0@
}

/// With distinct ids, each entry's id names that entry.
pub proof fn law_ids_name_their_entries(ids: MenuIds)
    requires
        ids_distinct(ids),
    ensures
        command_of(ids.open->0@, ids) == MenuCommand::OpenPage,
        command_of(ids.quit->0@, ids) == MenuCommand::Quit,
        command_of(ids.startup->0@, ids) == MenuCommand::ToggleStartup,
        command_of(ids.browser->0@, ids) == MenuCommand::ToggleBrowser,
{
}

/// An event on the browser entry flips only the browser setting, and a second one
/// gives back the settings the first started from (the entries' ids being distinct).
pub proof fn law_browser_event_toggles(settings: DesktopSettings, ids: MenuIds)
    requires
        ids_distinct(ids),
    ensures
        menu_step(settings, command_of(ids.browser->0@, ids)).0 == (DesktopSettings {
            open_browser_on_start: !settings.open_browser_on_start,
            ..settings
        }),
        menu_step(settings, command_of(ids.browser->0@, ids)).1 == (MenuEffect::BrowserChanged {
            open_browser_on_start: !settings.open_browser_on_start,
        }),
        menu_step(
            menu_step(settings, command_of(ids.browser->0@, ids)).0,
            command_of(ids.browser->0@, ids),
        ).0 == settings,
{
    law_ids_name_their_entries(ids);
}

/// An event on the startup entry flips only the autostart setting, and a second one
/// gives back the settings the first started from (the entries' ids being distinct).
pub proof fn law_startup_event_toggles(settings: DesktopSettings, ids: MenuIds)
    requires
        ids_distinct(ids),
    ensures
        menu_step(settings, command_of(ids.startup->0@, ids)).0 == (DesktopSettings {
            autostart: !settings.autostart,
            ..settings
        }),
        menu_step(settings, command_of(ids.startup->0@, ids)).1 == (MenuEffect::StartupChanged {
            autostart: !settings.autostart,
        }),
        menu_step(
            menu_step(settings, command_of(ids.startup->0@, ids)).0,
            command_of(ids.startup->0@, ids),
        ).0 == settings,
{
    law_ids_name_their_entries(ids);
}

/// Opening the page, quitting, or an event of no entry leaves the settings alone.
pub proof fn law_other_entries_keep_settings(settings: DesktopSettings, command: MenuCommand)
    requires
        command != MenuCommand::ToggleStartup,
        command != MenuCommand::ToggleBrowser,
    ensures
        menu_step(settings, command).0 == settings,
{
}

/// What becomes of the autostart entry.
#[derive(Clone, Copy, Debug, PartialEq, Eq, Structural)]
pub enum AutostartChange {
    /// Write the entry.
    Install,
    /// Remove the entry, if there is one.
    Remove,
}

/// The entry is written when autostart is on and removed when it is off.
pub fn autostart_change(settings: &DesktopSettings) -> (change: AutostartChange)
    ensures
        change == (if settings.autostart {
            AutostartChange::Install
        } else {
            AutostartChange::Remove
        }),
{
    if settings.autostart {
        AutostartChange::Install
    } else {
        AutostartChange::Remove
    }
}

/// The text of the autostart entry before the program's path.
pub open spec fn autostart_head(os: TargetOs) -> Seq<char> {
    match os {
        TargetOs::Windows => "@echo off\r\nstart \"\" \""@,
        TargetOs::MacOs => r#"<?xml version=\"1.0\" encoding=\"UTF-8\"?>
<!DOCTYPE plist PUBLIC \"-//Apple//DTD PLIST 1.0//EN\" \"http://www.apple.com/DTDs/PropertyList-1.0.dtd\">
<plist version=\"1.0\">
<dict>
  <key>Label</key>
  <string>com.speed-test.autostart</string>
  <key>ProgramArguments</key>
  <array>
    <string>"#@,
        TargetOs::Other => "[Desktop Entry]\nType=Application\nName=Speed Test\nExec=\""@,
    }
}

/// The text of the autostart entry after the program's path.
pub open spec fn autostart_tail(os: TargetOs) -> Seq<char> {
    match os {
        TargetOs::Windows => "\" --mode desktop\r\n"@,
        TargetOs::MacOs => r#"</string>
    <string>--mode</string>
    <string>desktop</string>
  </array>
  <key>RunAtLoad</key>
  <true/>
  <key>KeepAlive</key>
  <false/>
</dict>
</plist>
"#@,
        TargetOs::Other => "\" --mode desktop\nX-GNOME-Autostart-enabled=true\nNoDisplay=false\n"@,
    }
}

/// `needle` occurs somewhere in `text`.
pub open spec fn occurs_in(needle: Seq<char>, text: Seq<char>) -> bool {
    exists|i: int|
        0 <= i && i + needle.len() <= text.len() && #[trigger] text.subrange(i, i + needle.len())
            == needle
}

/// What occurs at offset `k` of `back` occurs in any text that ends with `back`.
proof fn lemma_occurs_in_back(front: Seq<char>, back: Seq<char>, needle: Seq<char>, k: int)
    requires
        0 <= k,
        k + needle.len() <= back.len(),
        back.subrange(k, k + needle.len()) == needle,
    ensures
        occurs_in(needle, front + back),
{
    let i = front.len() + k;
    assert((front + back).subrange(i, i + needle.len()) =~= needle);
}

/// Whatever the program's path, the entry starts the program in desktop mode at
/// login: the launch agent asks launchd to run it at load and passes `--mode desktop`,
/// the batch file and the desktop entry pass `--mode desktop`, and the desktop entry
/// is marked enabled for autostart.
pub proof fn law_autostart_entry_starts_desktop_at_login(os: TargetOs, exe: Seq<char>)
    ensures
        ({
            let content = autostart_head(os) + exe + autostart_tail(os);
            &&& os is MacOs ==> occurs_in("<key>RunAtLoad</key>\n  <true/>"@, content)
            &&& os is MacOs ==> occurs_in("<string>--mode</string>\n    <string>desktop</string>"@, content)
            &&& !(os is MacOs) ==> occurs_in("\" --mode desktop"@, content)
            &&& os is Other ==> occurs_in("X-GNOME-Autostart-enabled=true"@, content)
        }),
{
    let front = autostart_head(os) + exe;
    match os {
        TargetOs::MacOs => {
            reveal_strlit(r#"</string>
    <string>--mode</string>
    <string>desktop</string>
  </array>
  <key>RunAtLoad</key>
  <true/>
  <key>KeepAlive</key>
  <false/>
</dict>
</plist>
"#);
            reveal_strlit("<key>RunAtLoad</key>\n  <true/>");
            reveal_strlit("<string>--mode</string>\n    <string>desktop</string>");
            let tail = autostart_tail(os);
            let run = "<key>RunAtLoad</key>\n  <true/>"@;
            let mode = "<string>--mode</string>\n    <string>desktop</string>"@;
            assert(tail.subrange(80, 80 + run.len() as int) =~= run);
            assert(tail.subrange(14, 14 + mode.len() as int) =~= mode);
            lemma_occurs_in_back(front, tail, run, 80);
            lemma_occurs_in_back(front, tail, mode, 14);
        },
        TargetOs::Windows => {
            reveal_strlit("\" --mode desktop\r\n");
            reveal_strlit("\" --mode desktop");
            let tail = autostart_tail(os);
            let mode = "\" --mode desktop"@;
            assert(tail.subrange(0, mode.len() as int) =~= mode);
            lemma_occurs_in_back(front, tail, mode, 0);
        },
        TargetOs::Other => {
            reveal_strlit("\" --mode desktop\nX-GNOME-Autostart-enabled=true\nNoDisplay=false\n");
            reveal_strlit("\" --mode desktop");
            reveal_strlit("X-GNOME-Autostart-enabled=true");
            let tail = autostart_tail(os);
            let mode = "\" --mode desktop"@;
            let enabled = "X-GNOME-Autostart-enabled=true"@;
            assert(tail.subrange(0, mode.len() as int) =~= mode);
            assert(tail.subrange(17, 17 + enabled.len() as int) =~= enabled);
            lemma_occurs_in_back(front, tail, mode, 0);
            lemma_occurs_in_back(front, tail, enabled, 17);
        },
    }
}

/// The autostart entry that starts `exe` in desktop mode: a batch file on Windows, a
/// launch agent property list on macOS, an XDG desktop entry elsewhere.
pub fn autostart_entry_content(os: TargetOs, exe: &str) -> (content: String)
    ensures
        content@ == autostart_head(os) + exe@ + autostart_tail(os),
        os is MacOs ==> occurs_in("<key>RunAtLoad</key>\n  <true/>"@, content@),
        os is MacOs ==> occurs_in("<string>--mode</string>\n    <string>desktop</string>"@, content@),
        !(os is MacOs) ==> occurs_in("\" --mode desktop"@, content@),
        os is Other ==> occurs_in("X-GNOME-Autostart-enabled=true"@, content@),
{
    proof {
        law_autostart_entry_starts_desktop_at_login(os, exe@);
    }
    let (head, tail) = match os {
        TargetOs::Windows => ("@echo off\r\nstart \"\" \"", "\" --mode desktop\r\n"),
        TargetOs::MacOs => (
            r#"<?xml version=\"1.0\" encoding=\"UTF-8\"?>
<!DOCTYPE plist PUBLIC \"-//Apple//DTD PLIST 1.0//EN\" \"http://www.apple.com/DTDs/PropertyList-1.0.dtd\">
<plist version=\"1.0\">
<dict>
  <key>Label</key>
  <string>com.speed-test.autostart</string>
  <key>ProgramArguments</key>
  <array>
    <string>"#,
            r#"</string>
    <string>--mode</string>
    <string>desktop</string>
  </array>
  <key>RunAtLoad</key>
  <true/>
  <key>KeepAlive</key>
  <false/>
</dict>
</plist>
"#,
        ),
        TargetOs::Other => (
            "[Desktop Entry]\nType=Application\nName=Speed Test\nExec=\"",
            "\" --mode desktop\nX-GNOME-Autostart-enabled=true\nNoDisplay=false\n",
        ),
    };
    let mut content = String::from_str(head);
    content.append(exe);
    content.append(tail);
    content
}

} // verus!
