use slp_chat::clock::UtcTime;
use slp_chat::profile::{
    append_message, default_name_color, default_overlay_distance, default_overlay_outline_thickness,
    default_overlay_text_size, default_overlay_window_h, default_overlay_window_w, default_ptt_key,
    default_separator_color, default_side_panel_color, default_talking_border_color, default_text_color,
    default_text_panel_color, default_true, default_webcam_quality, load_all_peer_profiles, load_bio,
    load_name_color, load_or_create_uuid, uuid_from_random, load_username, save_bio, save_name_color, save_username,
    sort_profiles_by_recency, update_peer_profile, ConversationHistory, StoredMessage, StoredPeerProfile,
};
use slp_chat::theme::{hex_color_cuts, parse_hex_color, rgb_to_hex, ThemeColors, ThemeHexFields, DEFAULT_NAME_COLOR};

fn at(secs: i64) -> UtcTime {
    UtcTime { secs, nanos: 0 }
}

fn profile(uuid: &str, secs: i64) -> StoredPeerProfile {
    StoredPeerProfile {
        uuid: uuid.to_string(),
        name: format!("name-{uuid}"),
        avatar_png: None,
        name_color: DEFAULT_NAME_COLOR,
        bio: String::new(),
        last_seen: at(secs),
    }
}

fn message(text: &str) -> StoredMessage {
    StoredMessage { is_self: false, content: text.to_string(), timestamp: at(5), is_image: false, image_data: vec![] }
}

#[test]
fn hex_of_a_color() {
    assert_eq!(rgb_to_hex(&[255, 0, 16]), "FF0010");
    assert_eq!(rgb_to_hex(&[0, 0, 0]), "000000");
    assert_eq!(rgb_to_hex(&[87, 203, 222]), "57CBDE");
}

#[test]
fn parse_hex_accepts_hash_case_and_spaces() {
    assert_eq!(parse_hex_color("#ff0010"), Some([255, 0, 16]));
    assert_eq!(parse_hex_color("  0a0B0c \n"), Some([10, 11, 12]));
    assert_eq!(parse_hex_color("##123456"), Some([0x12, 0x34, 0x56]));
    assert_eq!(parse_hex_color("+f+f+f"), Some([15, 15, 15]));
}

#[test]
fn parse_hex_rejects_bad_input() {
    assert_eq!(parse_hex_color("12345"), None);
    assert_eq!(parse_hex_color("1234567"), None);
    assert_eq!(parse_hex_color("zz0000"), None);
    assert_eq!(parse_hex_color("00zz00"), None);
    assert_eq!(parse_hex_color("0000-1"), None);
    assert_eq!(parse_hex_color(""), None);
    assert_eq!(parse_hex_color("ééé"), None);
}

#[test]
fn hex_roundtrip_on_samples() {
    for rgb in [[0u8, 0, 0], [255, 255, 255], [1, 128, 254], [87, 203, 222]] {
        assert_eq!(parse_hex_color(&rgb_to_hex(&rgb)), Some(rgb));
    }
}

#[test]
fn hex_char_cuts_are_detected() {
    assert!(hex_color_cuts("aéaaa"));
    assert!(hex_color_cuts("11€1"));
    assert!(!hex_color_cuts("ééé"));
    assert!(!hex_color_cuts("#123456"));
    assert!(!hex_color_cuts("aé"));
}

#[test]
fn theme_hex_fields() {
    let t = ThemeColors {
        text_panel_color: [30, 31, 35],
        side_panel_color: [25, 25, 28],
        separator_color: [48, 50, 55],
        button_color: [1, 2, 3],
        text_color: [220, 222, 226],
        overlay_outline_color: [0, 0, 0],
    };
    let f = ThemeHexFields::from_theme(&t);
    assert_eq!(f.text_panel_color, "1E1F23");
    assert_eq!(f.side_panel_color, "19191C");
    assert_eq!(f.separator_color, "303237");
    assert_eq!(f.button_color, "010203");
    assert_eq!(f.text_color, "DCDEE2");
    assert_eq!(f.overlay_outline_color, "000000");
}

#[test]
fn username_and_bio_files() {
    assert_eq!(load_username("  bob \n"), Some("bob".to_string()));
    assert_eq!(load_username(" \t\n"), None);
    assert_eq!(load_bio("likes cats\n"), Some("likes cats".to_string()));
    assert_eq!(load_bio(""), None);
    assert_eq!(save_username("  Ann  "), "Ann");
    assert_eq!(save_bio("\n bio text \n"), "bio text");
    assert_eq!(load_username(&save_username(" x y ")), Some("x y".to_string()));
}

#[test]
fn name_color_file() {
    assert_eq!(load_name_color("87,203,222\n"), Some([87, 203, 222]));
    assert_eq!(load_name_color("+1,2,3"), Some([1, 2, 3]));
    assert_eq!(load_name_color("1,2"), None);
    assert_eq!(load_name_color("1,2,3,4"), None);
    assert_eq!(load_name_color("256,0,0"), None);
    assert_eq!(load_name_color("1, 2,3"), None);
    assert_eq!(load_name_color(""), None);
    assert_eq!(save_name_color(&[1, 20, 255]), "1,20,255");
    for rgb in [[0u8, 0, 0], [9, 10, 99], [100, 200, 255]] {
        assert_eq!(load_name_color(&save_name_color(&rgb)), Some(rgb));
    }
}

#[test]
fn uuid_is_kept_or_made() {
    assert_eq!(load_or_create_uuid(Some(" abc-123 \n")), Some(("abc-123".to_string(), false)));
    let (fresh, is_new) = load_or_create_uuid(None).unwrap();
    assert!(is_new);
    assert_eq!(fresh.len(), 36);
    let (other, is_new2) = load_or_create_uuid(Some("   ")).unwrap();
    assert!(is_new2);
    assert_eq!(other.len(), 36);
    assert_ne!(fresh, other);
    for (i, c) in fresh.chars().enumerate() {
        assert_eq!(c == '-', [8, 13, 18, 23].contains(&i));
        assert!(c == '-' || c.is_ascii_digit() || ('a'..='f').contains(&c));
    }
    assert_eq!(fresh.chars().nth(14), Some('4'));
    assert!(['8', '9', 'a', 'b'].contains(&fresh.chars().nth(19).unwrap()));
    assert_eq!(load_or_create_uuid(Some(&fresh)), Some((fresh.clone(), false)));
}

#[test]
fn uuid_from_given_random_bytes() {
    assert_eq!(uuid_from_random(None), None);
    assert_eq!(
        uuid_from_random(Some([0u8; 16])),
        Some("00000000-0000-4000-8000-000000000000".to_string())
    );
    assert_eq!(
        uuid_from_random(Some([0xffu8; 16])),
        Some("ffffffff-ffff-4fff-bfff-ffffffffffff".to_string())
    );
    let bytes = [
        0x12, 0x34, 0x56, 0x78, 0x9a, 0xbc, 0xde, 0xf0, 0x0f, 0xed, 0xcb, 0xa9, 0x87, 0x65, 0x43,
        0x21,
    ];
    assert_eq!(
        uuid_from_random(Some(bytes)),
        Some("12345678-9abc-4ef0-8fed-cba987654321".to_string())
    );
}

#[test]
fn update_profile_keeps_messages() {
    let conv = ConversationHistory { peer: profile("p1", 1), messages: vec![message("a"), message("b")] };
    let mut newer = profile("p1", 9);
    newer.name = "Renamed".to_string();
    let out = update_peer_profile(Some(conv), &newer);
    assert_eq!(out.peer.name, "Renamed");
    assert_eq!(out.peer.last_seen, at(9));
    assert_eq!(out.messages.len(), 2);
    assert_eq!(out.messages[1].content, "b");
    let fresh = update_peer_profile(None, &newer);
    assert!(fresh.messages.is_empty());
    assert_eq!(fresh.peer.uuid, "p1");
}

#[test]
fn append_needs_a_conversation() {
    assert!(append_message(None, message("x")).is_none());
    let conv = ConversationHistory { peer: profile("p", 1), messages: vec![message("a")] };
    let out = append_message(Some(conv), message("x")).unwrap();
    assert_eq!(out.messages.len(), 2);
    assert_eq!(out.messages[1].content, "x");
    assert_eq!(out.peer.uuid, "p");
}

#[test]
fn recency_sort_is_stable_and_descending() {
    let input = vec![profile("a", 1), profile("b", 3), profile("c", 3), profile("d", 2)];
    let out = sort_profiles_by_recency(input);
    let order: Vec<&str> = out.iter().map(|p| p.uuid.as_str()).collect();
    assert_eq!(order, vec!["b", "c", "d", "a"]);
}

#[test]
fn recency_sort_compares_nanoseconds() {
    let mut x = profile("x", 5);
    x.last_seen.nanos = 10;
    let y = profile("y", 5);
    let out = sort_profiles_by_recency(vec![y, x]);
    assert_eq!(out[0].uuid, "x");
    assert!(sort_profiles_by_recency(vec![]).is_empty());
}

#[test]
fn all_peer_profiles_from_conversations() {
    let convs = vec![
        ConversationHistory { peer: profile("old", 10), messages: vec![] },
        ConversationHistory { peer: profile("new", 20), messages: vec![message("m")] },
        ConversationHistory { peer: profile("mid", 15), messages: vec![] },
    ];
    let out = load_all_peer_profiles(convs);
    let order: Vec<&str> = out.iter().map(|p| p.uuid.as_str()).collect();
    assert_eq!(order, vec!["new", "mid", "old"]);
}

#[test]
fn stored_defaults() {
    assert_eq!(default_text_panel_color(), [30, 31, 35]);
    assert_eq!(default_side_panel_color(), [25, 25, 28]);
    assert_eq!(default_separator_color(), [48, 50, 55]);
    assert_eq!(default_text_color(), [220, 222, 226]);
    assert_eq!(default_overlay_distance(), 8);
    assert_eq!(default_overlay_text_size(), 16);
    assert_eq!(default_overlay_window_w(), 500);
    assert_eq!(default_overlay_window_h(), 280);
    assert_eq!(default_overlay_outline_thickness(), 1);
    assert_eq!(default_talking_border_color(), [59, 165, 93]);
    assert!(default_true());
    assert_eq!(default_webcam_quality(), 60);
    assert_eq!(default_ptt_key(), "V");
    assert_eq!(default_name_color(), [87, 203, 222]);
    assert_eq!(DEFAULT_NAME_COLOR, [87, 203, 222]);
}

#[test]
fn hex_text_reprints_in_upper_case() {
    for h in ["0a0B0c", "ffffff", "000000", "a1B2c3", "DEADbe"] {
        let c = parse_hex_color(h).unwrap();
        assert_eq!(rgb_to_hex(&c), h.to_ascii_uppercase());
    }
}
