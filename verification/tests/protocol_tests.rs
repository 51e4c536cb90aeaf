use slp_chat::protocol::{ChatMessage, UserInfo, WireMessage, TAG_IMAGE, TAG_TEXT, TAG_USER_INFO, TAG_VIDEO_FRAME, TAG_VOICE};

fn roundtrip(m: &WireMessage) -> WireMessage {
    let bytes = m.to_bytes();
    ChatMessage::from_bytes(&bytes).expect("a serialized message decodes")
}

#[test]
fn text_is_tagged_utf8() {
    let m: WireMessage = ChatMessage::Text("héllo".to_string());
    let bytes = m.to_bytes();
    assert_eq!(bytes[0], TAG_TEXT);
    assert_eq!(&bytes[1..], "héllo".as_bytes());
}

#[test]
fn each_tag_byte() {
    let cases: Vec<(WireMessage, u8)> = vec![
        (ChatMessage::UserInfo(b"{}".to_vec()), TAG_USER_INFO),
        (ChatMessage::Text(String::new()), TAG_TEXT),
        (ChatMessage::Image(vec![1, 2]), TAG_IMAGE),
        (ChatMessage::VideoFrame(vec![]), TAG_VIDEO_FRAME),
        (ChatMessage::Voice(vec![9]), TAG_VOICE),
    ];
    for (m, tag) in cases {
        assert_eq!(m.to_bytes()[0], tag);
    }
    assert_eq!(TAG_USER_INFO, 0x01);
    assert_eq!(TAG_TEXT, 0x02);
    assert_eq!(TAG_IMAGE, 0x03);
    assert_eq!(TAG_VIDEO_FRAME, 0x04);
    assert_eq!(TAG_VOICE, 0x05);
}

#[test]
fn roundtrip_every_variant() {
    match roundtrip(&ChatMessage::Text("hi there".to_string())) {
        ChatMessage::Text(s) => assert_eq!(s, "hi there"),
        _ => panic!("wrong variant"),
    }
    match roundtrip(&ChatMessage::UserInfo(br#"{"name":"a"}"#.to_vec())) {
        ChatMessage::UserInfo(j) => assert_eq!(j, br#"{"name":"a"}"#.to_vec()),
        _ => panic!("wrong variant"),
    }
    match roundtrip(&ChatMessage::Image(vec![0x89, 0x50, 0x4e, 0x47])) {
        ChatMessage::Image(b) => assert_eq!(b, vec![0x89, 0x50, 0x4e, 0x47]),
        _ => panic!("wrong variant"),
    }
    match roundtrip(&ChatMessage::VideoFrame(vec![])) {
        ChatMessage::VideoFrame(b) => assert!(b.is_empty()),
        _ => panic!("wrong variant"),
    }
    match roundtrip(&ChatMessage::Voice(vec![7, 8, 9])) {
        ChatMessage::Voice(b) => assert_eq!(b, vec![7, 8, 9]),
        _ => panic!("wrong variant"),
    }
}

#[test]
fn empty_frame_does_not_decode() {
    assert!(WireMessage::from_bytes(&[]).is_none());
}

#[test]
fn unknown_tag_does_not_decode() {
    assert!(WireMessage::from_bytes(&[0x00, 1, 2]).is_none());
    assert!(WireMessage::from_bytes(&[0x06]).is_none());
    assert!(WireMessage::from_bytes(&[0xff, b'a']).is_none());
}

#[test]
fn invalid_utf8_text_does_not_decode() {
    assert!(WireMessage::from_bytes(&[TAG_TEXT, 0xff, 0xfe]).is_none());
    assert!(WireMessage::from_bytes(&[TAG_TEXT, 0xc3]).is_none());
}

#[test]
fn tag_alone_decodes_to_empty_payload() {
    match WireMessage::from_bytes(&[TAG_VOICE]) {
        Some(ChatMessage::Voice(b)) => assert!(b.is_empty()),
        _ => panic!("expected an empty voice packet"),
    }
    match WireMessage::from_bytes(&[TAG_TEXT]) {
        Some(ChatMessage::Text(s)) => assert!(s.is_empty()),
        _ => panic!("expected empty text"),
    }
}

#[test]
fn decoded_frame_reencodes_to_itself() {
    let frames: Vec<Vec<u8>> = vec![vec![TAG_IMAGE, 1, 2, 3], vec![TAG_TEXT, b'o', b'k'], vec![TAG_USER_INFO, b'{', b'}']];
    for f in frames {
        let m = WireMessage::from_bytes(&f).unwrap();
        assert_eq!(m.to_bytes(), f);
    }
}

#[test]
fn user_info_fields() {
    let u = UserInfo {
        name: "Ann".to_string(),
        uuid: "u-1".to_string(),
        avatar: None,
        name_color: [1, 2, 3],
        bio: String::new(),
        is_reply: false,
    };
    assert_eq!(u.name, "Ann");
    assert!(!u.is_reply);
}
