use slp_chat::chat::ChatEntry;
use slp_chat::clock::UtcTime;
use slp_chat::profile::{ConversationHistory, StoredMessage, StoredPeerProfile};
use slp_chat::protocol::{ChatMessage, UserInfo};
use slp_chat::session::{
    ptt_held, webcam_quality, AppScreen, ChatSession, IncomingEvent, LinkState, MessageSettings, ProfileEffect,
    SessionEffect, LOCAL_WEBCAM_PEER_ID, WEBCAM_FRAME_MAX_AGE_MS,
};

fn at(secs: i64) -> UtcTime {
    UtcTime { secs, nanos: 0 }
}

fn all_on() -> MessageSettings {
    MessageSettings { voice_enabled: true, images_enabled: true, webcam_enabled: true, store_messages: true }
}

fn session() -> ChatSession {
    ChatSession::new("Me".to_string(), None, [1, 2, 3], "my bio".to_string(), "my-uuid".to_string())
}

fn info(name: &str, uuid: &str, is_reply: bool) -> UserInfo {
    UserInfo {
        name: name.to_string(),
        uuid: uuid.to_string(),
        avatar: Some(vec![7, 7]),
        name_color: [10, 20, 30],
        bio: "peer bio".to_string(),
        is_reply,
    }
}

fn handle(s: &mut ChatSession, st: MessageSettings, peer: &str, m: ChatMessage<UserInfo>, now: UtcTime) -> (Vec<SessionEffect>, Vec<String>, Vec<String>) {
    let mut replies = Vec::new();
    let mut loads = Vec::new();
    let eff = s.handle_incoming_chat_message_at(st, peer, m, &mut replies, &mut loads, now);
    (eff, replies, loads)
}

#[test]
fn new_session_screens() {
    let s = ChatSession::new(String::new(), None, [0, 0, 0], String::new(), "u".to_string());
    assert!(s.screen == AppScreen::FirstRun);
    let t = session();
    assert!(t.screen == AppScreen::InSession);
    assert_eq!(t.edit_username, "Me");
    assert!(!t.joined && !t.info_announced);
}

#[test]
fn user_info_of_session() {
    let u = session().user_info(true);
    assert_eq!(u.name, "Me");
    assert_eq!(u.uuid, "my-uuid");
    assert_eq!(u.bio, "my bio");
    assert_eq!(u.name_color, [1, 2, 3]);
    assert!(u.is_reply);
}

#[test]
fn announcement_is_answered_once() {
    let mut s = session();
    let (eff, replies, loads) = handle(&mut s, all_on(), "peerA", ChatMessage::UserInfo(info("Alice", "ua", false)), at(100));
    assert_eq!(replies, vec!["peerA".to_string()]);
    assert_eq!(loads, vec!["ua".to_string()]);
    assert_eq!(eff.len(), 1);
    match &eff[0] {
        SessionEffect::UpdatePeerProfile(p) => {
            assert_eq!(p.uuid, "ua");
            assert_eq!(p.name, "Alice");
            assert_eq!(p.avatar_png, Some(vec![7, 7]));
            assert_eq!(p.last_seen, at(100));
        }
        _ => panic!("expected a profile update"),
    }
    assert!(!s.joined);
    assert!(!s.reveal_on_peer_connect);
    assert_eq!(s.chat.peer_names.get("peerA"), Some(&"Alice".to_string()));
    assert_eq!(s.chat.peer_uuids.get("peerA"), Some(&"ua".to_string()));
    assert_eq!(s.chat.peer_bios.get("peerA"), Some(&"peer bio".to_string()));
    assert_eq!(s.chat.peer_colors.get("peerA"), Some(&[10u8, 20, 30]));
    let (_, replies2, _) = handle(&mut s, all_on(), "peerA", ChatMessage::UserInfo(info("Alice", "ua", false)), at(101));
    assert!(replies2.is_empty());
    let joined: usize = s.chat.entries.iter().filter(|e| matches!(e, ChatEntry::System { .. })).count();
    assert_eq!(joined, 1);
}

#[test]
fn reply_announcement_is_not_answered() {
    let mut s = session();
    let (eff, replies, loads) = handle(&mut s, all_on(), "p", ChatMessage::UserInfo(info("B", "", true)), at(1));
    assert!(replies.is_empty());
    assert!(loads.is_empty());
    assert!(eff.is_empty());
    assert!(s.chat.peer_uuids.get("p").is_none());
}

#[test]
fn profile_not_stored_when_storing_is_off() {
    let mut s = session();
    let st = MessageSettings { store_messages: false, ..all_on() };
    let (eff, _, loads) = handle(&mut s, st, "p", ChatMessage::UserInfo(info("B", "ub", false)), at(1));
    assert!(eff.is_empty());
    assert_eq!(loads, vec!["ub".to_string()]);
}

#[test]
fn text_from_known_peer_is_logged_and_stored() {
    let mut s = session();
    handle(&mut s, all_on(), "p", ChatMessage::UserInfo(info("Bea", "ub", false)), at(1));
    let before = s.chat.entries.len();
    let (eff, _, _) = handle(&mut s, all_on(), "p", ChatMessage::Text("hey".to_string()), at(2));
    assert_eq!(s.chat.entries.len(), before + 1);
    match s.chat.entries.last().unwrap() {
        ChatEntry::Text { sender, content, is_self, timestamp } => {
            assert_eq!(sender, "Bea");
            assert_eq!(content, "hey");
            assert!(!*is_self);
            assert_eq!(*timestamp, at(2));
        }
        _ => panic!("expected text"),
    }
    match &eff[..] {
        [SessionEffect::AppendMessage { peer_uuid, message }] => {
            assert_eq!(peer_uuid, "ub");
            assert_eq!(message.content, "hey");
            assert!(!message.is_self && !message.is_image);
        }
        _ => panic!("expected one append"),
    }
}

#[test]
fn text_from_unknown_peer_uses_short_id() {
    let mut s = session();
    let (eff, _, _) = handle(&mut s, all_on(), "0123456789abcdef", ChatMessage::Text("yo".to_string()), at(2));
    assert!(eff.is_empty());
    match s.chat.entries.last().unwrap() {
        ChatEntry::Text { sender, .. } => assert_eq!(sender, "01234567..."),
        _ => panic!("expected text"),
    }
}

#[test]
fn images_follow_the_setting() {
    let mut s = session();
    let off = MessageSettings { images_enabled: false, ..all_on() };
    let (eff, _, _) = handle(&mut s, off, "p", ChatMessage::Image(vec![1]), at(1));
    assert!(eff.is_empty());
    assert!(s.chat.entries.is_empty());
    handle(&mut s, all_on(), "p", ChatMessage::Image(vec![1, 2]), at(2));
    match s.chat.entries.last().unwrap() {
        ChatEntry::Image { png_data, .. } => assert_eq!(png_data, &vec![1, 2]),
        _ => panic!("expected image"),
    }
}

#[test]
fn video_frames_and_stop() {
    let mut s = session();
    handle(&mut s, all_on(), "p", ChatMessage::VideoFrame(vec![5]), at(1));
    assert_eq!(s.chat.peer_video_frames.get("p"), Some(&vec![5u8]));
    handle(&mut s, all_on(), "p", ChatMessage::VideoFrame(vec![]), at(2));
    assert!(!s.chat.peer_video_frames.contains_key("p"));
    let off = MessageSettings { webcam_enabled: false, ..all_on() };
    handle(&mut s, off, "p", ChatMessage::VideoFrame(vec![6]), at(3));
    assert!(!s.chat.peer_video_frames.contains_key("p"));
}

#[test]
fn voice_is_played_when_enabled() {
    let mut s = session();
    let (eff, _, _) = handle(&mut s, all_on(), "p", ChatMessage::Voice(vec![1, 2]), at(1));
    match &eff[..] {
        [SessionEffect::PlayVoice { peer_id, data }] => {
            assert_eq!(peer_id, "p");
            assert_eq!(data, &vec![1, 2]);
        }
        _ => panic!("expected playback"),
    }
    assert_eq!(s.voice_packets_received, 1);
    let off = MessageSettings { voice_enabled: false, ..all_on() };
    let (eff2, _, _) = handle(&mut s, off, "p", ChatMessage::Voice(vec![3]), at(2));
    assert!(eff2.is_empty());
    assert_eq!(s.voice_packets_received, 1);
}

#[test]
fn poll_answers_new_peers_with_one_reply() {
    let mut s = session();
    let events = vec![
        IncomingEvent::Incoming { peer_id: "a".to_string(), message: Some(ChatMessage::UserInfo(info("A", "ua", false))) },
        IncomingEvent::Incoming { peer_id: "b".to_string(), message: Some(ChatMessage::UserInfo(info("B", "", false))) },
        IncomingEvent::Incoming { peer_id: "a".to_string(), message: None },
        IncomingEvent::VoiceSent(3),
        IncomingEvent::VoiceReceived(2),
    ];
    let (eff, loads) = s.poll_incoming_at(all_on(), events, at(50));
    assert_eq!(loads, vec!["ua".to_string()]);
    assert_eq!(s.voice_packets_sent, 3);
    assert_eq!(s.voice_packets_received, 2);
    match eff.last().unwrap() {
        SessionEffect::SendUserInfo(u) => {
            assert!(u.is_reply);
            assert_eq!(u.uuid, "my-uuid");
        }
        _ => panic!("expected our profile at the end"),
    }
    let replies = eff.iter().filter(|e| matches!(e, SessionEffect::SendUserInfo(_))).count();
    assert_eq!(replies, 1);
    let (eff2, _) = s.poll_incoming_at(all_on(), vec![IncomingEvent::Incoming { peer_id: "a".to_string(), message: Some(ChatMessage::UserInfo(info("A", "ua", false))) }], at(51));
    assert!(!eff2.iter().any(|e| matches!(e, SessionEffect::SendUserInfo(_))));
}

#[test]
fn poll_with_clock() {
    let mut s = session();
    let (eff, loads) = s.poll_incoming(all_on(), vec![IncomingEvent::VoiceSent(1)]);
    assert!(eff.is_empty() && loads.is_empty());
    assert_eq!(s.voice_packets_sent, 1);
}

#[test]
fn sending_text_trims_frames_and_stores() {
    let mut s = session();
    handle(&mut s, all_on(), "p", ChatMessage::UserInfo(info("B", "ub", false)), at(1));
    s.input_text = "  hi  ".to_string();
    let eff = s.send_text_at(all_on(), at(5));
    assert!(s.input_text.is_empty());
    match &eff[0] {
        SessionEffect::Send(bytes) => assert_eq!(bytes, &vec![0x02, b'h', b'i']),
        _ => panic!("expected a send"),
    }
    match &eff[1] {
        SessionEffect::AppendMessage { peer_uuid, message } => {
            assert_eq!(peer_uuid, "ub");
            assert!(message.is_self);
            assert_eq!(message.content, "hi");
            assert_eq!(message.timestamp, at(5));
        }
        _ => panic!("expected an append"),
    }
    assert_eq!(eff.len(), 2);
    match s.chat.entries.last().unwrap() {
        ChatEntry::Text { sender, content, is_self, .. } => {
            assert_eq!(sender, "Me");
            assert_eq!(content, "hi");
            assert!(*is_self);
        }
        _ => panic!("expected our text"),
    }
}

#[test]
fn blank_input_sends_nothing() {
    let mut s = session();
    s.input_text = " \t ".to_string();
    let eff = s.send_text_at(all_on(), at(5));
    assert!(eff.is_empty());
    assert_eq!(s.input_text, " \t ");
    assert!(s.chat.entries.is_empty());
    s.input_text = "x".to_string();
    let eff2 = s.send_text(MessageSettings { store_messages: false, ..all_on() });
    assert_eq!(eff2.len(), 1);
}

#[test]
fn sending_an_image() {
    let mut s = session();
    handle(&mut s, all_on(), "p", ChatMessage::UserInfo(info("B", "ub", false)), at(1));
    let eff = s.send_image_at(all_on(), vec![9, 8], at(3));
    match &eff[..] {
        [SessionEffect::Send(b), SessionEffect::AppendMessage { message, .. }] => {
            assert_eq!(b, &vec![0x03, 9, 8]);
            assert!(message.is_image);
            assert_eq!(message.image_data, vec![9, 8]);
            assert!(message.content.is_empty());
        }
        _ => panic!("expected send and append"),
    }
    let eff2 = s.send_image(MessageSettings { store_messages: false, ..all_on() }, vec![1]);
    assert_eq!(eff2.len(), 1);
}

#[test]
fn committing_the_profile_editor() {
    let mut s = session();
    s.start_profile_edit();
    assert!(s.screen == AppScreen::Editing);
    s.edit_username = "  Bob ".to_string();
    s.edit_bio = " new bio ".to_string();
    s.edit_avatar_png = Some(vec![4]);
    s.edit_name_color = [9, 9, 9];
    let eff = s.commit_profile_edit(false);
    assert_eq!(s.username, "Bob");
    assert_eq!(s.bio, "new bio");
    assert_eq!(s.name_color, [9, 9, 9]);
    assert!(s.screen == AppScreen::InSession);
    assert!(!s.info_announced);
    match &eff[..] {
        [ProfileEffect::SaveUsername(n), ProfileEffect::SaveAvatar(a), ProfileEffect::SaveNameColor(c), ProfileEffect::SaveBio(b), ProfileEffect::StartConnecting, ProfileEffect::SaveConfig, ProfileEffect::SyncStartupRegistry] => {
            assert_eq!(n, "Bob");
            assert_eq!(a, &vec![4]);
            assert_eq!(*c, [9, 9, 9]);
            assert_eq!(b, "new bio");
        }
        _ => panic!("unexpected effects"),
    }
    s.start_profile_edit();
    s.edit_avatar_png = None;
    let eff2 = s.commit_profile_edit(true);
    assert_eq!(eff2.len(), 6);
    assert!(matches!(eff2[1], ProfileEffect::ClearAvatar));
    assert!(!eff2.iter().any(|e| matches!(e, ProfileEffect::StartConnecting)));
}

#[test]
fn empty_name_commits_nothing() {
    let mut s = session();
    s.start_profile_edit();
    s.edit_username = "   ".to_string();
    let eff = s.commit_profile_edit(false);
    assert!(eff.is_empty());
    assert_eq!(s.username, "Me");
    assert!(s.screen == AppScreen::Editing);
}

#[test]
fn own_voice_packets() {
    let mut s = session();
    let eff = s.drain_voice_packets(all_on(), vec![vec![1], vec![2, 3]]);
    assert_eq!(s.voice_packets_sent, 2);
    match &eff[..] {
        [SessionEffect::Send(a), SessionEffect::Send(b)] => {
            assert_eq!(a, &vec![0x05, 1]);
            assert_eq!(b, &vec![0x05, 2, 3]);
        }
        _ => panic!("expected two sends"),
    }
    let off = MessageSettings { voice_enabled: false, ..all_on() };
    assert!(s.drain_voice_packets(off, vec![vec![1]]).is_empty());
    assert_eq!(s.voice_packets_sent, 2);
}

#[test]
fn own_webcam_ticks() {
    let mut s = session();
    let (stop, eff) = s.poll_webcam_stream_at(all_on(), true, Some(vec![0xff, 0xd8]), at(10));
    assert!(!stop);
    assert_eq!(s.chat.peer_video_frames.get(LOCAL_WEBCAM_PEER_ID), Some(&vec![0xffu8, 0xd8]));
    match &eff[..] {
        [SessionEffect::Send(b)] => assert_eq!(b, &vec![0x04, 0xff, 0xd8]),
        _ => panic!("expected a frame send"),
    }
    let later = at(10 + (WEBCAM_FRAME_MAX_AGE_MS as i64) / 1000 + 1);
    let (stop2, eff2) = s.poll_webcam_stream_at(all_on(), true, None, later);
    assert!(!stop2 && eff2.is_empty());
    assert!(!s.chat.peer_video_frames.contains_key(LOCAL_WEBCAM_PEER_ID));
    s.poll_webcam_stream_at(all_on(), true, Some(vec![1]), later);
    let off = MessageSettings { webcam_enabled: false, ..all_on() };
    let (stop3, eff3) = s.poll_webcam_stream_at(off, true, Some(vec![2]), later);
    assert!(stop3);
    assert!(!s.chat.peer_video_frames.contains_key(LOCAL_WEBCAM_PEER_ID));
    match &eff3[..] {
        [SessionEffect::Send(b)] => assert_eq!(b, &vec![0x04]),
        _ => panic!("expected the stop frame"),
    }
    let (stop4, _) = s.poll_webcam_stream(all_on(), false, None);
    assert!(!stop4);
}

#[test]
fn stopping_the_webcam() {
    let mut s = session();
    s.poll_webcam_stream_at(all_on(), true, Some(vec![1]), at(1));
    let eff = s.stop_webcam_stream();
    assert!(!s.chat.peer_video_frames.contains_key(LOCAL_WEBCAM_PEER_ID));
    assert!(matches!(&eff[..], [SessionEffect::Send(b)] if b == &vec![0x04u8]));
}

#[test]
fn layout_keys() {
    let mut s = session();
    handle(&mut s, all_on(), "node9", ChatMessage::UserInfo(info("N", "un", true)), at(1));
    assert_eq!(s.webcam_layout_key(LOCAL_WEBCAM_PEER_ID), "self:my-uuid");
    assert_eq!(s.webcam_layout_key("node9"), "peer:un");
    assert_eq!(s.webcam_layout_key("other"), "node:other");
}

#[test]
fn status_line() {
    let mut s = session();
    assert_eq!(s.connection_status_text(false, false, None, 0), None);
    assert_eq!(s.connection_status_text(false, true, None, 0).as_deref(), Some("waiting for game."));
    assert_eq!(s.connection_status_text(false, true, None, 4).as_deref(), Some("waiting for game.."));
    assert_eq!(s.connection_status_text(false, true, None, 5).as_deref(), Some("waiting for game..."));
    assert_eq!(s.connection_status_text(true, false, Some(LinkState::Discovered), 0).as_deref(), Some("connecting..."));
    assert_eq!(s.connection_status_text(true, false, Some(LinkState::Discovering), 0).as_deref(), Some("searching for peer..."));
    assert_eq!(s.connection_status_text(true, false, None, 0).as_deref(), Some("searching for peer..."));
    s.joined = true;
    assert_eq!(s.connection_status_text(true, true, Some(LinkState::Other), 0), None);
}

#[test]
fn announce_once_after_discovery() {
    let mut s = session();
    assert!(s.announce_if_needed(false).is_none());
    let first = s.announce_if_needed(true).expect("announces");
    assert!(!first.is_reply);
    assert_eq!(first.name, "Me");
    assert!(s.info_announced && s.reveal_on_peer_connect);
    assert!(s.announce_if_needed(true).is_none());
}

#[test]
fn session_established_resets_chat() {
    let mut s = session();
    handle(&mut s, all_on(), "p", ChatMessage::UserInfo(info("P", "up", false)), at(1));
    s.announce_if_needed(true);
    s.session_established();
    assert!(!s.joined && !s.info_announced && !s.reveal_on_peer_connect);
    assert!(s.chat.entries.is_empty());
    assert_eq!(s.replied_peers.len(), 0);
    assert_eq!(s.username, "Me");
}

#[test]
fn past_messages_are_loaded() {
    let mut s = session();
    let peer = StoredPeerProfile { uuid: "up".to_string(), name: "Pat".to_string(), avatar_png: None, name_color: [0, 0, 0], bio: String::new(), last_seen: at(0) };
    let msgs = vec![
        StoredMessage { is_self: true, content: "mine".to_string(), timestamp: UtcTime { secs: 7, nanos: 999 }, is_image: false, image_data: vec![] },
        StoredMessage { is_self: false, content: String::new(), timestamp: at(-5), is_image: true, image_data: vec![3] },
    ];
    s.load_past_messages_for_peer(all_on(), Some(ConversationHistory { peer, messages: msgs }));
    assert_eq!(s.chat.entries.len(), 2);
    match &s.chat.entries[0] {
        ChatEntry::Text { sender, content, is_self, timestamp } => {
            assert_eq!(sender, "Me");
            assert_eq!(content, "mine");
            assert!(*is_self);
            assert_eq!(*timestamp, at(7));
        }
        _ => panic!("expected text"),
    }
    match &s.chat.entries[1] {
        ChatEntry::Image { sender, png_data, timestamp, .. } => {
            assert_eq!(sender, "Pat");
            assert_eq!(png_data, &vec![3]);
            assert_eq!(*timestamp, at(0));
        }
        _ => panic!("expected image"),
    }
    let off = MessageSettings { store_messages: false, ..all_on() };
    s.load_past_messages_for_peer(off, None);
    assert_eq!(s.chat.entries.len(), 2);
}

#[test]
fn small_session_rules() {
    assert_eq!(webcam_quality(0), 1);
    assert_eq!(webcam_quality(150), 100);
    assert_eq!(webcam_quality(60), 60);
    assert!(ptt_held(false, false));
    assert!(ptt_held(true, true));
    assert!(!ptt_held(true, false));
    assert_eq!(WEBCAM_FRAME_MAX_AGE_MS, 3000);
}

fn as_received(bytes: &[u8]) -> ChatMessage<UserInfo> {
    match slp_chat::protocol::WireMessage::from_bytes(bytes).expect("decodes") {
        ChatMessage::Text(t) => ChatMessage::Text(t),
        ChatMessage::Image(b) => ChatMessage::Image(b),
        ChatMessage::VideoFrame(b) => ChatMessage::VideoFrame(b),
        ChatMessage::Voice(b) => ChatMessage::Voice(b),
        ChatMessage::UserInfo(_) => panic!("profile frames carry JSON"),
    }
}

#[test]
fn text_sent_is_received() {
    let mut alice = session();
    let mut bob = session();
    handle(&mut bob, all_on(), "alice-node", ChatMessage::UserInfo(info("Alice", "ua", false)), at(1));
    alice.input_text = "  see you in game ".to_string();
    let eff = alice.send_text_at(all_on(), at(2));
    let bytes = match &eff[0] {
        SessionEffect::Send(b) => b.clone(),
        _ => panic!("expected a send"),
    };
    handle(&mut bob, all_on(), "alice-node", as_received(&bytes), at(3));
    match bob.chat.entries.last().unwrap() {
        ChatEntry::Text { sender, content, is_self, .. } => {
            assert_eq!(sender, "Alice");
            assert_eq!(content, "see you in game");
            assert!(!*is_self);
        }
        _ => panic!("expected the text"),
    }
}

#[test]
fn voice_sent_is_played() {
    let mut alice = session();
    let mut bob = session();
    let eff = alice.drain_voice_packets(all_on(), vec![vec![0xfc, 0xff, 0xfe]]);
    let bytes = match &eff[0] {
        SessionEffect::Send(b) => b.clone(),
        _ => panic!("expected a send"),
    };
    let (played, _, _) = handle(&mut bob, all_on(), "a", as_received(&bytes), at(1));
    match &played[..] {
        [SessionEffect::PlayVoice { peer_id, data }] => {
            assert_eq!(peer_id, "a");
            assert_eq!(data, &vec![0xfc, 0xff, 0xfe]);
        }
        _ => panic!("expected playback"),
    }
}

#[test]
fn batches_from_nameable_senders_can_be_handled() {
    let s = session();
    let ok = vec![
        IncomingEvent::Incoming { peer_id: "0123456789abcdef".to_string(), message: Some(ChatMessage::Text("a".to_string())) },
        IncomingEvent::Incoming { peer_id: "short".to_string(), message: Some(ChatMessage::Image(vec![1])) },
        IncomingEvent::VoiceSent(1),
    ];
    assert!(s.can_handle_events(all_on(), &ok));
    let cut = "1234567é9".to_string();
    let bad = vec![IncomingEvent::Incoming { peer_id: cut.clone(), message: Some(ChatMessage::Text("x".to_string())) }];
    assert!(!s.can_handle_events(all_on(), &bad));
    let named_first = vec![
        IncomingEvent::Incoming { peer_id: cut.clone(), message: Some(ChatMessage::UserInfo(info("Cut", "uc", false))) },
        IncomingEvent::Incoming { peer_id: cut.clone(), message: Some(ChatMessage::Text("x".to_string())) },
    ];
    assert!(s.can_handle_events(all_on(), &named_first));
    let hidden_image = vec![IncomingEvent::Incoming { peer_id: cut.clone(), message: Some(ChatMessage::Image(vec![1])) }];
    assert!(!s.can_handle_events(all_on(), &hidden_image));
    assert!(s.can_handle_events(MessageSettings { images_enabled: false, ..all_on() }, &hidden_image));
    assert!(!s.chat.can_display_peer(&cut));
    assert!(s.chat.can_display_peer("12345678é"));
}

#[test]
fn joined_once_a_reply_arrives() {
    let mut s = session();
    handle(&mut s, all_on(), "p", ChatMessage::UserInfo(info("P", "up", false)), at(1));
    assert!(!s.joined && !s.reveal_on_peer_connect);
    handle(&mut s, all_on(), "p", ChatMessage::UserInfo(info("P", "up", true)), at(2));
    assert!(s.joined && s.reveal_on_peer_connect);
    s.reveal_on_peer_connect = false;
    handle(&mut s, all_on(), "q", ChatMessage::UserInfo(info("Q", "uq", true)), at(3));
    assert!(s.joined && !s.reveal_on_peer_connect);
}
