//! Desktop settings and where the desktop mode keeps its files.

use crate::paths::{LocalPath, PathView};
use vstd::prelude::*;

verus! {

/// The operating system the program was built for.
#[derive(Clone, Copy, Debug, PartialEq, Eq, Structural)]
pub enum TargetOs {
    Windows,
    MacOs,
    Other,
}

/// The environment variables that locate per-user directories, each as it was read
/// (`None` where it is unset or not valid Unicode).
#[derive(Clone, Debug)]
pub struct UserDirs {
    pub appdata: Option<String>,
    pub home: Option<String>,
    pub xdg_config_home: Option<String>,
}

/// The view of an optional text.
pub open spec fn opt_view(s: Option<String>) -> Option<Seq<char>> {
    match s {
        Some(t) => Some(t@),
        None => None,
    }
}

/// The location `base/parts...`.
pub open spec fn path_of(base: Seq<char>, parts: Seq<Seq<char>>) -> PathView {
    PathView { base, parts }
}

/// The directory that holds the program's configuration.
pub open spec fn config_dir_spec(os: TargetOs, dirs: UserDirs) -> PathView {
    if os == TargetOs::Windows && opt_view(dirs.appdata) is Some {
        path_of(opt_view(dirs.appdata)->0, seq!["speed-test"@])
    } else if os == TargetOs::MacOs && opt_view(dirs.home) is Some {
        path_of(
            opt_view(dirs.home)->0,
            seq!["Library"@, "Application Support"@, "speed-test"@],
        )
    } else if opt_view(dirs.xdg_config_home) is Some {
        path_of(opt_view(dirs.xdg_config_home)->0, seq!["speed-test"@])
    } else if opt_view(dirs.home) is Some {
        path_of(opt_view(dirs.home)->0, seq![".config"@, "speed-test"@])
    } else {
        path_of("speed-test"@, Seq::empty())
    }
}

/// The file that starts the program when the user logs in.
pub open spec fn startup_entry_spec(os: TargetOs, dirs: UserDirs) -> PathView {
    if os == TargetOs::Windows && opt_view(dirs.appdata) is Some {
        path_of(
            opt_view(dirs.appdata)->0,
            seq![
                "Microsoft"@,
                "Windows"@,
                "Start Menu"@,
                "Programs"@,
                "Startup"@,
                "speed-test-autostart.bat"@,
            ],
        )
    } else if os == TargetOs::MacOs && opt_view(dirs.home) is Some {
        path_of(
            opt_view(dirs.home)->0,
            seq!["Library"@, "LaunchAgents"@, "com.speed-test.autostart.plist"@],
        )
    } else if opt_view(dirs.xdg_config_home) is Some {
        path_of(
            opt_view(dirs.xdg_config_home)->0,
            seq!["autostart"@, "speed-test.desktop"@],
        )
    } else if opt_view(dirs.home) is Some {
        path_of(
            opt_view(dirs.home)->0,
            seq![".config"@, "autostart"@, "speed-test.desktop"@],
        )
    } else {
        path_of("speed-test-autostart"@, Seq::empty())
    }
}

/// The directory that holds the program's configuration: under `%APPDATA%` on
/// Windows, under `~/Library/Application Support` on macOS, else under
/// `$XDG_CONFIG_HOME` or `~/.config`, and the relative `speed-test` when none of
/// these is known.
pub fn app_config_dir(os: TargetOs, dirs: &UserDirs) -> (dir: LocalPath)
    ensures
        dir@ == config_dir_spec(os, *dirs),
{
    if os == TargetOs::Windows {
        if let Some(appdata) = &dirs.appdata {
            let dir = LocalPath::new(appdata.as_str()).join("speed-test");
            assert(dir@.parts =~= seq!["speed-test"@]);
            return dir;
        }
    }
    if os == TargetOs::MacOs {
        if let Some(home) = &dirs.home {
            let dir = LocalPath::new(home.as_str()).join("Library").join(
                "Application Support",
            ).join("speed-test");
            assert(dir@.parts =~= seq!["Library"@, "Application Support"@, "speed-test"@]);
            return dir;
        }
    }
    if let Some(config_home) = &dirs.xdg_config_home {
        let dir = LocalPath::new(config_home.as_str()).join("speed-test");
        assert(dir@.parts =~= seq!["speed-test"@]);
        return dir;
    }
    if let Some(home) = &dirs.home {
        let dir = LocalPath::new(home.as_str()).join(".config").join("speed-test");
        assert(dir@.parts =~= seq![".config"@, "speed-test"@]);
        return dir;
    }
    LocalPath::new("speed-test")
}

/// The settings file, `settings.json` in the configuration directory.
pub fn settings_file_path(os: TargetOs, dirs: &UserDirs) -> (file: LocalPath)
    ensures
        file@ == (PathView {
            base: config_dir_spec(os, *dirs).base,
            parts: config_dir_spec(os, *dirs).parts.push("settings.json"@),
        }),
{
    app_config_dir(os, dirs).join("settings.json")
}

/// The file that starts the program at login: a batch file in the Startup folder on
/// Windows, a launch agent on macOS, else an XDG autostart entry; the relative
/// `speed-test-autostart` when no directory is known.
pub fn startup_entry_path(os: TargetOs, dirs: &UserDirs) -> (file: LocalPath)
    ensures
        file@ == startup_entry_spec(os, *dirs),
{
    if os == TargetOs::Windows {
        if let Some(appdata) = &dirs.appdata {
            let file = LocalPath::new(appdata.as_str()).join("Microsoft").join("Windows").join(
                "Start Menu",
            ).join("Programs").join("Startup").join("speed-test-autostart.bat");
            assert(file@.parts =~= seq![
                "Microsoft"@,
                "Windows"@,
                "Start Menu"@,
                "Programs"@,
                "Startup"@,
                "speed-test-autostart.bat"@,
            ]);
            return file;
        }
    }
    if os == TargetOs::MacOs {
        if let Some(home) = &dirs.home {
            let file = LocalPath::new(home.as_str()).join("Library").join("LaunchAgents").join(
                "com.speed-test.autostart.plist",
            );
            assert(file@.parts =~= seq![
                "Library"@,
                "LaunchAgents"@,
                "com.speed-test.autostart.plist"@,
            ]);
            return file;
        }
    }
    if let Some(config_home) = &dirs.xdg_config_home {
        let file = LocalPath::new(config_home.as_str()).join("autostart").join(
            "speed-test.desktop",
        );
        assert(file@.parts =~= seq!["autostart"@, "speed-test.desktop"@]);
        return file;
    }
    if let Some(home) = &dirs.home {
        let file = LocalPath::new(home.as_str()).join(".config").join("autostart").join(
            "speed-test.desktop",
        );
        assert(file@.parts =~= seq![".config"@, "autostart"@, "speed-test.desktop"@]);
        return file;
    }
    LocalPath::new("speed-test-autostart")
}

/// The choices the desktop mode remembers between runs.
#[derive(Clone, Copy, Debug, PartialEq, Eq, Structural)]
pub struct DesktopSettings {
    pub autostart: bool,
    pub open_browser_on_start: bool,
}

impl Default for DesktopSettings {
    /// No autostart; open the browser on start.
    fn default() -> (settings: Self)
        ensures
            settings == (DesktopSettings { autostart: false, open_browser_on_start: true }),
    {
        DesktopSettings { autostart: false, open_browser_on_start: true }
    }
}

} // verus!
