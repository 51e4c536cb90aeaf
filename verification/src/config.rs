//! Start-on-login entries, and the single-instance helpers.

use vstd::prelude::*;
use crate::paths::{join, join_spec, config_dir};
use crate::text::{to_owned_string, append_str, trim, trim_spec};
use crate::digits::{parse_unsigned, parse_unsigned_spec};

verus! {

/// What keeping the login entry in step with the option asks of the file
/// system.
pub enum StartupEntry {
    /// Create the file's directory and write the entry.
    Write { path: String, contents: String },
    /// Remove the entry if it exists.
    Remove { path: String },
}

pub enum StartupEntryView {
    Write { path: Seq<char>, contents: Seq<char> },
    Remove { path: Seq<char> },
}

impl View for StartupEntry {
    type V = StartupEntryView;

    open spec fn view(&self) -> StartupEntryView {
        match self {
            StartupEntry::Write { path, contents } => StartupEntryView::Write {
                path: path@,
                contents: contents@,
            },
            StartupEntry::Remove { path } => StartupEntryView::Remove { path: path@ },
        }
    }
}

/// The freedesktop autostart entry that starts the program at login.
pub open spec fn desktop_entry_spec(exe: Seq<char>) -> Seq<char> {
    "[Desktop Entry]\nType=Application\nName=SLP Chat\nExec=\""@ + exe
        + "\" --startup\nX-GNOME-Autostart-enabled=true\nTerminal=false\n"@
}

pub fn autostart_desktop_entry(exe: &str) -> (r: String)
    ensures
        r@ == desktop_entry_spec(exe@),
{
    let mut s = to_owned_string("[Desktop Entry]\nType=Application\nName=SLP Chat\nExec=\"");
    append_str(&mut s, exe);
    append_str(&mut s, "\" --startup\nX-GNOME-Autostart-enabled=true\nTerminal=false\n");
    s
}

/// The launchd agent that starts the program at login (macOS).
pub open spec fn launch_agent_spec(exe: Seq<char>) -> Seq<char> {
    "<?xml version=\"1.0\" encoding=\"UTF-8\"?>\n<!DOCTYPE plist PUBLIC \"-//Apple//DTD PLIST 1.0//EN\" \"http://www.apple.com/DTDs/PropertyList-1.0.dtd\">\n<plist version=\"1.0\">\n<dict>\n  <key>Label</key><string>com.slpauth.app</string>\n  <key>ProgramArguments</key>\n  <array><string>"@
        + exe
        + "</string><string>--startup</string></array>\n  <key>RunAtLoad</key><true/>\n</dict>\n</plist>\n"@
}

pub fn launch_agent_plist(exe: &str) -> (r: String)
    ensures
        r@ == launch_agent_spec(exe@),
{
    let mut s = to_owned_string(
        "<?xml version=\"1.0\" encoding=\"UTF-8\"?>\n<!DOCTYPE plist PUBLIC \"-//Apple//DTD PLIST 1.0//EN\" \"http://www.apple.com/DTDs/PropertyList-1.0.dtd\">\n<plist version=\"1.0\">\n<dict>\n  <key>Label</key><string>com.slpauth.app</string>\n  <key>ProgramArguments</key>\n  <array><string>",
    );
    append_str(&mut s, exe);
    append_str(
        &mut s,
        "</string><string>--startup</string></array>\n  <key>RunAtLoad</key><true/>\n</dict>\n</plist>\n",
    );
    s
}

/// The arguments of `schtasks` that create (or delete) the logon task
/// (Windows).
pub open spec fn schtasks_spec(enabled: bool, exe: Seq<char>) -> Seq<Seq<char>> {
    if enabled {
        seq![
            "/Create"@,
            "/TN"@,
            "SLP Chat"@,
            "/TR"@,
            "\""@ + exe + "\" --startup"@,
            "/SC"@,
            "ONLOGON"@,
            "/RL"@,
            "LIMITED"@,
            "/F"@,
        ]
    } else {
        seq!["/Delete"@, "/TN"@, "SLP Chat"@, "/F"@]
    }
}

pub fn schtasks_args(enabled: bool, exe: &str) -> (r: Vec<String>)
    ensures
        r@.map_values(|s: String| s@) == schtasks_spec(enabled, exe@),
{
    let mut v: Vec<String> = Vec::new();
    if enabled {
        let mut action = to_owned_string("\"");
        append_str(&mut action, exe);
        append_str(&mut action, "\" --startup");
        v.push(to_owned_string("/Create"));
        v.push(to_owned_string("/TN"));
        v.push(to_owned_string("SLP Chat"));
        v.push(to_owned_string("/TR"));
        v.push(action);
        v.push(to_owned_string("/SC"));
        v.push(to_owned_string("ONLOGON"));
        v.push(to_owned_string("/RL"));
        v.push(to_owned_string("LIMITED"));
        v.push(to_owned_string("/F"));
    } else {
        v.push(to_owned_string("/Delete"));
        v.push(to_owned_string("/TN"));
        v.push(to_owned_string("SLP Chat"));
        v.push(to_owned_string("/F"));
    }
    assert(v@.map_values(|s: String| s@) =~= schtasks_spec(enabled, exe@));
    v
}

/// `<config dir>/autostart/slpauth_app.desktop` (`.` standing for a missing
/// configuration directory).
pub open spec fn autostart_path_spec(config_dir: Option<Seq<char>>) -> Seq<char> {
    join_spec(
        join_spec(
            match config_dir {
                Some(d) => d,
                None => "."@,
            },
            "autostart"@,
        ),
        "slpauth_app.desktop"@,
    )
}

pub open spec fn startup_entry_spec(enabled: bool, exe: Seq<char>, config_dir: Option<Seq<char>>) -> StartupEntryView {
    if enabled {
        StartupEntryView::Write {
            path: autostart_path_spec(config_dir),
            contents: desktop_entry_spec(exe),
        }
    } else {
        StartupEntryView::Remove { path: autostart_path_spec(config_dir) }
    }
}

/// The login entry for the option under a given configuration directory.
pub fn startup_entry_in(enabled: bool, exe: &str, config_dir: Option<&str>) -> (r: StartupEntry)
    ensures
        r@ == startup_entry_spec(enabled, exe@, match config_dir {
            Some(d) => Some(d@),
            None => None,
        }),
{
    let base = match config_dir {
        Some(d) => to_owned_string(d),
        None => to_owned_string("."),
    };
    let dir = join(base.as_str(), "autostart");
    let path = join(dir.as_str(), "slpauth_app.desktop");
    if enabled {
        StartupEntry::Write { path, contents: autostart_desktop_entry(exe) }
    } else {
        StartupEntry::Remove { path }
    }
}

/// Keeps the login entry in step with the start-on-startup option: the
/// entry to write (or remove) under the user's configuration directory.
pub fn sync_startup_registry(enabled: bool, exe: &str) -> (r: StartupEntry)
    ensures
        exists|d: Option<Seq<char>>| r@ == #[trigger] startup_entry_spec(enabled, exe@, d),
{
    let d = config_dir();
    match &d {
        Some(s) => startup_entry_in(enabled, exe, Some(s.as_str())),
        None => startup_entry_in(enabled, exe, None),
    }
}

/// The process id recorded in the instance file.
pub fn parse_pid(contents: &str) -> (r: Option<u32>)
    ensures
        r matches Some(p) ==> parse_unsigned_spec(trim_spec(contents@), u32::MAX as nat) == Some(p as nat),
        r is None ==> parse_unsigned_spec(trim_spec(contents@), u32::MAX as nat) is None,
{
    let t = trim(contents);
    parse_unsigned(t.as_str(), u32::MAX)
}

/// The main window, at most 480×640 and centred on a screen of the given
/// size: (x, y, width, height).
pub fn centered_window_rect(screen_w: i32, screen_h: i32) -> (r: (i32, i32, i32, i32))
    ensures
        r.2 == (if screen_w < 480 {
            screen_w
        } else {
            480
        }),
        r.3 == (if screen_h < 640 {
            screen_h
        } else {
            640
        }),
        r.0 == (screen_w - r.2) / 2,
        r.1 == (screen_h - r.3) / 2,
{
    let ww = if screen_w < 480 { screen_w } else { 480 };
    let wh = if screen_h < 640 { screen_h } else { 640 };
    ((screen_w - ww) / 2, (screen_h - wh) / 2, ww, wh)
}

} // verus!
