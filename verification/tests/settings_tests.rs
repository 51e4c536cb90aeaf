use slp_chat::chat::{ChatEntry, ChatHistory};
use slp_chat::clock::{
    clock_label, format_clock, format_time, instant_of_clock, is_later, is_older_than, lookup_secs, utc_hour_minute,
    UtcTime,
};
use slp_chat::config::{
    autostart_desktop_entry, centered_window_rect, launch_agent_plist, parse_pid, schtasks_args, startup_entry_in,
    sync_startup_registry, StartupEntry,
};
use slp_chat::connect::{handshake_profile, handshake_profile_for, ptt_key, ptt_key_for, ptt_key_label, PttKey};
use slp_chat::overlay::{
    overlay_corner, overlay_first_entry, overlay_media_left, overlay_offset, overlay_position_label, overlay_text_box,
    overlay_text_size, short_name, Corner,
};
use slp_chat::paths::{
    avatar_path, bio_path, config_path, conversation_file_in, conversation_path, file_stem_ok, history_dir, instance_pid_path, join,
    name_color_path, profile_dir, profile_dir_in, show_signal_path, theme_path, username_path, uuid_path,
};

#[test]
fn clock_labels() {
    assert_eq!(format_clock(7, 5), "07:05");
    assert_eq!(format_clock(23, 59), "23:59");
    assert_eq!(format_clock(123, 7), "123:07");
    assert_eq!(format!("{:02}:{:02}", 123, 7), "123:07");
    assert_eq!(lookup_secs(UtcTime { secs: -5, nanos: 7 }), 0);
    assert_eq!(lookup_secs(UtcTime { secs: 3661, nanos: 7 }), 3661);
    assert_eq!(clock_label(Some((1, 1)), (9, 30)), "01:01");
    assert_eq!(clock_label(None, (9, 30)), "09:30");
    let s = format_time(UtcTime { secs: 1_700_000_000, nanos: 0 });
    let b = s.as_bytes();
    assert_eq!(b.len(), 5);
    assert_eq!(b[2], b':');
    assert!(b[0].is_ascii_digit() && b[1].is_ascii_digit() && b[3].is_ascii_digit() && b[4].is_ascii_digit());
    let h: u32 = s[0..2].parse().unwrap();
    let m: u32 = s[3..5].parse().unwrap();
    assert!(h < 24 && m < 60);
    assert_eq!(format_time(UtcTime { secs: -100, nanos: 0 }), format_time(UtcTime { secs: 0, nanos: 0 }));
}

#[test]
fn instants_compare() {
    let a = UtcTime { secs: 5, nanos: 1 };
    let b = UtcTime { secs: 5, nanos: 0 };
    assert!(is_later(a, b));
    assert!(!is_later(b, a));
    assert!(!is_later(a, a));
    assert!(is_older_than(UtcTime { secs: 10, nanos: 1 }, UtcTime { secs: 7, nanos: 0 }, 3000));
    assert!(!is_older_than(UtcTime { secs: 10, nanos: 0 }, UtcTime { secs: 7, nanos: 0 }, 3000));
    assert!(!is_older_than(UtcTime { secs: 0, nanos: 0 }, UtcTime { secs: 100, nanos: 0 }, 0));
    let mut h = ChatHistory::new();
    h.add_system("now");
    match &h.entries[0] {
        ChatEntry::System { timestamp, .. } => assert!(timestamp.secs > 1_600_000_000 && timestamp.nanos < 2_000_000_000),
        _ => panic!("expected a system entry"),
    }
}

#[test]
fn startup_entries() {
    match startup_entry_in(true, "/usr/bin/slp", Some("/home/u/.config")) {
        StartupEntry::Write { path, contents } => {
            assert_eq!(path, "/home/u/.config/autostart/slpauth_app.desktop");
            assert_eq!(
                contents,
                "[Desktop Entry]\nType=Application\nName=SLP Chat\nExec=\"/usr/bin/slp\" --startup\nX-GNOME-Autostart-enabled=true\nTerminal=false\n"
            );
        }
        _ => panic!("expected a write"),
    }
    match startup_entry_in(false, "/x", None) {
        StartupEntry::Remove { path } => assert_eq!(path, "./autostart/slpauth_app.desktop"),
        _ => panic!("expected a removal"),
    }
    match sync_startup_registry(false, "/x") {
        StartupEntry::Remove { path } => assert!(path.ends_with("autostart/slpauth_app.desktop")),
        _ => panic!("expected a removal"),
    }
    assert!(autostart_desktop_entry("a b").contains("Exec=\"a b\" --startup\n"));
}

#[test]
fn other_platform_entries() {
    let plist = launch_agent_plist("/Applications/SLP.app/slp");
    assert!(plist.starts_with("<?xml version=\"1.0\" encoding=\"UTF-8\"?>\n"));
    assert!(plist.contains("<array><string>/Applications/SLP.app/slp</string><string>--startup</string></array>"));
    assert!(plist.ends_with("</plist>\n"));
    assert_eq!(
        schtasks_args(true, "C:\\slp.exe"),
        vec!["/Create", "/TN", "SLP Chat", "/TR", "\"C:\\slp.exe\" --startup", "/SC", "ONLOGON", "/RL", "LIMITED", "/F"]
    );
    assert_eq!(schtasks_args(false, "x"), vec!["/Delete", "/TN", "SLP Chat", "/F"]);
}

#[test]
fn instance_helpers() {
    assert_eq!(parse_pid(" 1234\n"), Some(1234));
    assert_eq!(parse_pid("abc"), None);
    assert_eq!(parse_pid("-1"), None);
    assert_eq!(parse_pid(""), None);
    assert_eq!(parse_pid("+7"), Some(7));
    assert_eq!(parse_pid("4294967296"), None);
    assert_eq!(centered_window_rect(1920, 1080), (720, 220, 480, 640));
    assert_eq!(centered_window_rect(400, 500), (0, 0, 400, 500));
}

#[test]
fn handshake_profiles() {
    assert_eq!(handshake_profile(Some("TIGHT")), ((30, 60, 90), (15, 30, 60)));
    assert_eq!(handshake_profile(Some("Wide")), ((60, 240, 480), (30, 120, 240)));
    assert_eq!(handshake_profile(Some("mismatch")), ((500, 600, 700), (250, 300, 350)));
    assert_eq!(handshake_profile(Some("other")), ((60, 120, 240), (30, 60, 120)));
    assert_eq!(handshake_profile(None), ((60, 120, 240), (30, 60, 120)));
    assert_eq!(handshake_profile_for(Some("TIGHT")), ((60, 120, 240), (30, 60, 120)));
}

#[test]
fn push_to_talk_keys() {
    assert_eq!(ptt_key("space"), PttKey::Space);
    assert_eq!(ptt_key("b"), PttKey::Letter('B'));
    assert_eq!(ptt_key("F1"), PttKey::Letter('V'));
    assert_eq!(ptt_key(""), PttKey::Letter('V'));
    assert_eq!(ptt_key_for("q"), PttKey::Letter('V'));
    assert_eq!(ptt_key_label("v"), "V");
    assert_eq!(ptt_key_label("space"), "SPACE");
}

#[test]
fn overlay_layout() {
    assert_eq!(short_name("abcdefghijklmnop"), "abcdefghijkl\u{2026}");
    assert_eq!(short_name("abcdefghijkl"), "abcdefghijkl");
    assert_eq!(short_name("ééééééééééééé"), "éééééééééééé\u{2026}");
    assert_eq!(overlay_text_box(10, 5000), (180, 900));
    assert_eq!(overlay_text_box(500, 280), (500, 280));
    assert_eq!(overlay_text_size(100), 48);
    assert_eq!(overlay_text_size(2), 8);
    assert_eq!(overlay_offset(-3), 0);
    assert_eq!(overlay_offset(12), 12);
    assert_eq!(overlay_corner(0), Corner::TopLeft);
    assert_eq!(overlay_corner(1), Corner::TopRight);
    assert_eq!(overlay_corner(2), Corner::BottomLeft);
    assert_eq!(overlay_corner(3), Corner::BottomRight);
    assert_eq!(overlay_corner(9), Corner::TopLeft);
    assert!(overlay_media_left(0) && overlay_media_left(2));
    assert!(!overlay_media_left(1) && !overlay_media_left(3));
    assert_eq!(overlay_position_label(3), "Bottom right");
    assert_eq!(overlay_position_label(7), "Top left");
    assert_eq!(overlay_first_entry(100), 40);
    assert_eq!(overlay_first_entry(60), 0);
}

#[test]
fn profile_paths() {
    assert_eq!(join("a", "b"), "a/b");
    assert_eq!(join("a/", "b"), "a/b");
    assert_eq!(join("", "b"), "b");
    assert_eq!(profile_dir_in(Some("/cfg")), "/cfg/slp_chat");
    assert_eq!(profile_dir_in(None), "./slp_chat");
    for backslash in [false, true] {
        assert_eq!(conversation_file_in("/h", "u1", backslash), Some("/h/u1.json".to_string()));
        assert_eq!(conversation_file_in("/h", "../config", backslash), None);
        assert_eq!(conversation_file_in("/h", "a..b", backslash), Some("/h/a..b.json".to_string()));
        assert_eq!(conversation_file_in("/h", "..", backslash), Some("/h/...json".to_string()));
        assert_eq!(conversation_file_in("/h", "a.b", backslash), Some("/h/a.b.json".to_string()));
        assert!(file_stem_ok("67e55044-10b1-426f-9247-bb680e5fe0c8", backslash));
        assert!(!file_stem_ok("x/y", backslash));
    }
    assert_eq!(conversation_file_in("/h", "a\\b", true), None);
    assert_eq!(conversation_file_in("/h", "a\\b", false), Some("/h/a\\b.json".to_string()));
    assert!(!file_stem_ok("..\\x", true));
    assert!(file_stem_ok("..\\x", false));
    let dir = profile_dir();
    assert!(dir.ends_with("slp_chat"));
    for (p, name) in [
        (username_path(), "username.txt"),
        (avatar_path(), "avatar.png"),
        (uuid_path(), "uuid.txt"),
        (theme_path(), "theme.json"),
        (config_path(), "config.json"),
        (name_color_path(), "name_color.txt"),
        (bio_path(), "bio.txt"),
        (instance_pid_path(), "instance.pid"),
        (show_signal_path(), "show_signal"),
        (history_dir(), "history"),
    ] {
        assert_eq!(p, format!("{dir}/{name}"));
    }
    assert_eq!(conversation_path("abc"), Some(format!("{dir}/history/abc.json")));
    assert_eq!(conversation_path("../../x"), None);
    let on_windows = std::path::is_separator('\\');
    assert_eq!(conversation_path("a\\b").is_none(), on_windows);
}

#[test]
fn clock_readings_to_instants() {
    assert_eq!(instant_of_clock(Ok((5, 7))), UtcTime { secs: 5, nanos: 7 });
    assert_eq!(instant_of_clock(Ok((u64::MAX, 3))), UtcTime { secs: i64::MAX, nanos: 3 });
    assert_eq!(instant_of_clock(Err((2, 0))), UtcTime { secs: -2, nanos: 0 });
    assert_eq!(instant_of_clock(Err((1, 500_000_000))), UtcTime { secs: -2, nanos: 500_000_000 });
    assert_eq!(instant_of_clock(Err((u64::MAX, 1))), UtcTime { secs: i64::MIN, nanos: 0 });
}

#[test]
fn utc_hours_and_minutes() {
    assert_eq!(utc_hour_minute(0), (0, 0));
    assert_eq!(utc_hour_minute(3661), (1, 1));
    assert_eq!(utc_hour_minute(86_399), (23, 59));
    assert_eq!(utc_hour_minute(86_400 + 45 * 60), (0, 45));
}
