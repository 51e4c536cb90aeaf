//! The chat session's decisions: what each incoming message does to the chat
//! state, and what the client must send, store or play in turn.
//!
//! The client performs the effects that these functions return (network
//! sends, file writes, audio playback) and feeds back what it receives.

use vstd::prelude::*;
use crate::chat::{
    ChatHistory, ChatHistoryView, EntryView, with_entry, with_peer_name, with_video_frame,
    display_name, can_display, empty_history,
};
use crate::clock::{UtcTime, utc_now};
use crate::peer_map::PeerMap;
use crate::profile::{
    StoredMessage, StoredMessageView, StoredPeerProfile, StoredPeerProfileView, copy_bytes,
    copy_opt_bytes, ConversationHistory, ConversationView,
};
use crate::protocol::{ChatMessage, MessageView, UserInfo, UserInfoView, opt_bytes_view, encode_spec, decode_spec};
use crate::text::{to_owned_string, trim, trim_spec};

verus! {

/// Which screen the client shows.
#[derive(Clone, Copy, PartialEq, Eq, Structural)]
pub enum AppScreen {
    FirstRun,
    Editing,
    InSession,
}

/// The options that decide what incoming and outgoing media do.
#[derive(Clone, Copy)]
pub struct MessageSettings {
    pub voice_enabled: bool,
    pub images_enabled: bool,
    pub webcam_enabled: bool,
    pub store_messages: bool,
}

/// What the client must do after a step of the session.
pub enum SessionEffect {
    /// Send these framed bytes to the session (best effort).
    Send(Vec<u8>),
    /// Announce this profile: encode it as JSON and send it tagged as user info.
    SendUserInfo(UserInfo),
    /// Store this profile in its conversation file, then reload the history list.
    UpdatePeerProfile(StoredPeerProfile),
    /// Append a message to the stored conversation with the peer of this UUID.
    AppendMessage { peer_uuid: String, message: StoredMessage },
    /// Decode this Opus packet and queue it for playback; the peer is talking.
    PlayVoice { peer_id: String, data: Vec<u8> },
}

pub enum EffectView {
    Send(Seq<u8>),
    SendUserInfo(UserInfoView),
    UpdatePeerProfile(StoredPeerProfileView),
    AppendMessage { peer_uuid: Seq<char>, message: StoredMessageView },
    PlayVoice { peer_id: Seq<char>, data: Seq<u8> },
}

impl View for SessionEffect {
    type V = EffectView;

    open spec fn view(&self) -> EffectView {
        match self {
            SessionEffect::Send(b) => EffectView::Send(b@),
            SessionEffect::SendUserInfo(u) => EffectView::SendUserInfo(u@),
            SessionEffect::UpdatePeerProfile(p) => EffectView::UpdatePeerProfile(p@),
            SessionEffect::AppendMessage { peer_uuid, message } => EffectView::AppendMessage {
                peer_uuid: peer_uuid@,
                message: message@,
            },
            SessionEffect::PlayVoice { peer_id, data } => EffectView::PlayVoice {
                peer_id: peer_id@,
                data: data@,
            },
        }
    }
}

pub open spec fn effects_view(v: Seq<SessionEffect>) -> Seq<EffectView> {
    v.map_values(|e: SessionEffect| e@)
}

/// The logic state of the chat client.
pub struct ChatSession {
    pub screen: AppScreen,
    pub username: String,
    pub avatar_png: Option<Vec<u8>>,
    pub name_color: [u8; 3],
    pub bio: String,
    /// Persistent player UUID.
    pub player_uuid: String,
    /// Scratch fields used while editing the profile.
    pub edit_username: String,
    pub edit_avatar_png: Option<Vec<u8>>,
    pub edit_name_color: [u8; 3],
    pub edit_bio: String,
    pub chat: ChatHistory,
    pub info_announced: bool,
    /// True once we've received at least one UserInfo reply from a peer.
    pub joined: bool,
    pub reveal_on_peer_connect: bool,
    /// Peer ids we've already answered with our own profile.
    pub replied_peers: PeerMap<()>,
    pub voice_packets_sent: u64,
    pub voice_packets_received: u64,
    pub input_text: String,
}

pub struct SessionView {
    pub screen: AppScreen,
    pub username: Seq<char>,
    pub avatar_png: Option<Seq<u8>>,
    pub name_color: [u8; 3],
    pub bio: Seq<char>,
    pub player_uuid: Seq<char>,
    pub edit_username: Seq<char>,
    pub edit_avatar_png: Option<Seq<u8>>,
    pub edit_name_color: [u8; 3],
    pub edit_bio: Seq<char>,
    pub chat: ChatHistoryView,
    pub info_announced: bool,
    pub joined: bool,
    pub reveal_on_peer_connect: bool,
    pub replied_peers: Set<Seq<char>>,
    pub voice_packets_sent: u64,
    pub voice_packets_received: u64,
    pub input_text: Seq<char>,
}

impl View for ChatSession {
    type V = SessionView;

    open spec fn view(&self) -> SessionView {
        SessionView {
            screen: self.screen,
            username: self.username@,
            avatar_png: opt_bytes_view(self.avatar_png),
            name_color: self.name_color,
            bio: self.bio@,
            player_uuid: self.player_uuid@,
            edit_username: self.edit_username@,
            edit_avatar_png: opt_bytes_view(self.edit_avatar_png),
            edit_name_color: self.edit_name_color,
            edit_bio: self.edit_bio@,
            chat: self.chat@,
            info_announced: self.info_announced,
            joined: self.joined,
            reveal_on_peer_connect: self.reveal_on_peer_connect,
            replied_peers: self.replied_peers@.dom(),
            voice_packets_sent: self.voice_packets_sent,
            voice_packets_received: self.voice_packets_received,
            input_text: self.input_text@,
        }
    }
}

/// The result of one incoming message: the new state, the effects, the peers
/// that now need our profile, and the peer UUIDs whose stored conversation
/// should be loaded.
pub struct StepView {
    pub state: SessionView,
    pub effects: Seq<EffectView>,
    pub replies: Seq<Seq<char>>,
    pub loads: Seq<Seq<char>>,
}

pub open spec fn sat_add_u64(a: u64, b: int) -> u64 {
    if a + b > u64::MAX {
        u64::MAX
    } else {
        (a + b) as u64
    }
}

/// The profile that a peer's announcement stores.
pub open spec fn stored_profile_of(info: UserInfoView, now: UtcTime) -> StoredPeerProfileView {
    StoredPeerProfileView {
        uuid: info.uuid,
        name: info.name,
        avatar_png: info.avatar,
        name_color: info.name_color,
        bio: info.bio,
        last_seen: now,
    }
}

/// The chat state after a peer's profile announcement.
pub open spec fn chat_after_user_info(
    c: ChatHistoryView,
    peer: Seq<char>,
    info: UserInfoView,
    now: UtcTime,
) -> ChatHistoryView {
    let c1 = with_peer_name(c, peer, info.name, now);
    let c2 = match info.avatar {
        Some(a) => ChatHistoryView { peer_avatars: c1.peer_avatars.insert(peer, a), ..c1 },
        None => c1,
    };
    let c3 = ChatHistoryView { peer_colors: c2.peer_colors.insert(peer, info.name_color@), ..c2 };
    let c4 = if info.bio.len() > 0 {
        ChatHistoryView { peer_bios: c3.peer_bios.insert(peer, info.bio), ..c3 }
    } else {
        c3
    };
    if info.uuid.len() > 0 {
        ChatHistoryView { peer_uuids: c4.peer_uuids.insert(peer, info.uuid), ..c4 }
    } else {
        c4
    }
}

/// A message we received, as stored in the conversation file.
pub open spec fn received_text(text: Seq<char>, now: UtcTime) -> StoredMessageView {
    StoredMessageView {
        is_self: false,
        content: text,
        timestamp: now,
        is_image: false,
        image_data: Seq::empty(),
    }
}

pub open spec fn received_image(data: Seq<u8>, now: UtcTime) -> StoredMessageView {
    StoredMessageView {
        is_self: false,
        content: Seq::empty(),
        timestamp: now,
        is_image: true,
        image_data: data,
    }
}

/// Appending to the peer's stored conversation, when messages are stored
/// and the peer's UUID is known.
pub open spec fn store_for_peer(
    c: ChatHistoryView,
    st: MessageSettings,
    peer: Seq<char>,
    msg: StoredMessageView,
) -> Seq<EffectView> {
    if st.store_messages && c.peer_uuids.contains_key(peer) {
        seq![EffectView::AppendMessage { peer_uuid: c.peer_uuids[peer], message: msg }]
    } else {
        Seq::empty()
    }
}

/// What one incoming message does.
pub open spec fn handle_spec(
    s: SessionView,
    st: MessageSettings,
    peer: Seq<char>,
    m: MessageView<UserInfoView>,
    now: UtcTime,
) -> StepView {
    match m {
        MessageView::UserInfo(info) => {
            let fresh = !info.is_reply && !s.replied_peers.contains(peer);
            StepView {
                state: SessionView {
                    chat: chat_after_user_info(s.chat, peer, info, now),
                    replied_peers: if info.is_reply {
                        s.replied_peers
                    } else {
                        s.replied_peers.insert(peer)
                    },
                    joined: s.joined || info.is_reply,
                    reveal_on_peer_connect: s.reveal_on_peer_connect || (info.is_reply && !s.joined),
                    ..s
                },
                effects: if info.uuid.len() > 0 && st.store_messages {
                    seq![EffectView::UpdatePeerProfile(stored_profile_of(info, now))]
                } else {
                    Seq::empty()
                },
                replies: if fresh {
                    seq![peer]
                } else {
                    Seq::empty()
                },
                loads: if info.uuid.len() > 0 {
                    seq![info.uuid]
                } else {
                    Seq::empty()
                },
            }
        },
        MessageView::Text(text) => StepView {
            state: SessionView {
                chat: with_entry(
                    s.chat,
                    EntryView::Text {
                        sender: display_name(s.chat, peer),
                        content: text,
                        is_self: false,
                        timestamp: now,
                    },
                ),
                ..s
            },
            effects: store_for_peer(s.chat, st, peer, received_text(text, now)),
            replies: Seq::empty(),
            loads: Seq::empty(),
        },
        MessageView::Image(data) => if st.images_enabled {
            StepView {
                state: SessionView {
                    chat: with_entry(
                        s.chat,
                        EntryView::Image {
                            sender: display_name(s.chat, peer),
                            png_data: data,
                            is_self: false,
                            timestamp: now,
                        },
                    ),
                    ..s
                },
                effects: store_for_peer(s.chat, st, peer, received_image(data, now)),
                replies: Seq::empty(),
                loads: Seq::empty(),
            }
        } else {
            StepView { state: s, effects: Seq::empty(), replies: Seq::empty(), loads: Seq::empty() }
        },
        MessageView::VideoFrame(data) => StepView {
            state: if !st.webcam_enabled {
                s
            } else if data.len() == 0 {
                SessionView {
                    chat: ChatHistoryView {
                        peer_video_frames: s.chat.peer_video_frames.remove(peer),
                        peer_video_last_seen: s.chat.peer_video_last_seen.remove(peer),
                        ..s.chat
                    },
                    ..s
                }
            } else {
                SessionView { chat: with_video_frame(s.chat, peer, data, now), ..s }
            },
            effects: Seq::empty(),
            replies: Seq::empty(),
            loads: Seq::empty(),
        },
        MessageView::Voice(data) => if st.voice_enabled {
            StepView {
                state: SessionView {
                    voice_packets_received: sat_add_u64(s.voice_packets_received, 1),
                    ..s
                },
                effects: seq![EffectView::PlayVoice { peer_id: peer, data }],
                replies: Seq::empty(),
                loads: Seq::empty(),
            }
        } else {
            StepView { state: s, effects: Seq::empty(), replies: Seq::empty(), loads: Seq::empty() }
        },
    }
}

/// Messages whose handling needs the sender's display name, which cannot be
/// built for an unnamed peer id that a character straddles at byte 8.
pub open spec fn handle_ok(s: SessionView, st: MessageSettings, peer: Seq<char>, m: MessageView<UserInfoView>) -> bool {
    match m {
        MessageView::Text(_) => can_display(s.chat, peer),
        MessageView::Image(_) => st.images_enabled ==> can_display(s.chat, peer),
        _ => true,
    }
}

impl ChatSession {
    /// The session of a profile read at start-up: the first-run screen until
    /// a username is set.
    pub fn new(
        username: String,
        avatar_png: Option<Vec<u8>>,
        name_color: [u8; 3],
        bio: String,
        player_uuid: String,
    ) -> (r: Self)
        ensures
            r@.screen == (if username@.len() == 0 {
                AppScreen::FirstRun
            } else {
                AppScreen::InSession
            }),
            r@.username == username@,
            r@.avatar_png == opt_bytes_view(avatar_png),
            r@.name_color == name_color,
            r@.bio == bio@,
            r@.player_uuid == player_uuid@,
            r@.edit_username == username@,
            r@.edit_avatar_png == opt_bytes_view(avatar_png),
            r@.edit_name_color == name_color,
            r@.edit_bio == bio@,
            r@.chat == empty_history(),
            !r@.info_announced,
            !r@.joined,
            !r@.reveal_on_peer_connect,
            r@.replied_peers.is_empty(),
            r@.voice_packets_sent == 0,
            r@.voice_packets_received == 0,
            r@.input_text.len() == 0,
    {
        let screen = if username.as_str().is_empty() {
            AppScreen::FirstRun
        } else {
            AppScreen::InSession
        };
        let r = ChatSession {
            screen,
            edit_username: username.clone(),
            username,
            edit_avatar_png: copy_opt_bytes(&avatar_png),
            avatar_png,
            name_color,
            edit_bio: bio.clone(),
            bio,
            player_uuid,
            edit_name_color: name_color,
            chat: ChatHistory::new(),
            info_announced: false,
            joined: false,
            reveal_on_peer_connect: false,
            replied_peers: PeerMap::new(),
            voice_packets_sent: 0,
            voice_packets_received: 0,
            input_text: String::new(),
        };
        assert(r@.replied_peers =~= Set::<Seq<char>>::empty());
        r
    }

    /// Our profile as announced to peers.
    pub fn user_info(&self, is_reply: bool) -> (r: UserInfo)
        ensures
            r@ == (UserInfoView {
                name: self@.username,
                uuid: self@.player_uuid,
                avatar: self@.avatar_png,
                name_color: self@.name_color,
                bio: self@.bio,
                is_reply,
            }),
    {
        UserInfo {
            name: self.username.clone(),
            uuid: self.player_uuid.clone(),
            avatar: copy_opt_bytes(&self.avatar_png),
            name_color: self.name_color,
            bio: self.bio.clone(),
            is_reply,
        }
    }

    /// Handle one decoded message from a peer, stamped with the current time.
    pub fn handle_incoming_chat_message(
        &mut self,
        settings: MessageSettings,
        peer_id: &str,
        chat_msg: ChatMessage<UserInfo>,
        needs_reply_to: &mut Vec<String>,
        load_history_uuids: &mut Vec<String>,
    ) -> (r: Vec<SessionEffect>)
        requires
            handle_ok(old(self)@, settings, peer_id@, chat_msg@),
        ensures
            exists|now: UtcTime|
                #[trigger] handle_spec(old(self)@, settings, peer_id@, chat_msg@, now) == (StepView {
                    state: final(self)@,
                    effects: effects_view(r@),
                    replies: final(needs_reply_to)@.map_values(|s: String| s@).skip(
                        old(needs_reply_to)@.len() as int,
                    ),
                    loads: final(load_history_uuids)@.map_values(|s: String| s@).skip(
                        old(load_history_uuids)@.len() as int,
                    ),
                }),
            old(needs_reply_to)@.len() <= final(needs_reply_to)@.len(),
            final(needs_reply_to)@.take(old(needs_reply_to)@.len() as int) == old(needs_reply_to)@,
            old(load_history_uuids)@.len() <= final(load_history_uuids)@.len(),
            final(load_history_uuids)@.take(old(load_history_uuids)@.len() as int) == old(
                load_history_uuids,
            )@,
    {
        let now = utc_now();
        self.handle_incoming_chat_message_at(
            settings,
            peer_id,
            chat_msg,
            needs_reply_to,
            load_history_uuids,
            now,
        )
    }

    /// Handle one decoded message from a peer received at `now`.
    pub fn handle_incoming_chat_message_at(
        &mut self,
        settings: MessageSettings,
        peer_id: &str,
        chat_msg: ChatMessage<UserInfo>,
        needs_reply_to: &mut Vec<String>,
        load_history_uuids: &mut Vec<String>,
        now: UtcTime,
    ) -> (r: Vec<SessionEffect>)
        requires
            handle_ok(old(self)@, settings, peer_id@, chat_msg@),
        ensures
            handle_spec(old(self)@, settings, peer_id@, chat_msg@, now) == (StepView {
                state: final(self)@,
                effects: effects_view(r@),
                replies: final(needs_reply_to)@.map_values(|s: String| s@).skip(
                    old(needs_reply_to)@.len() as int,
                ),
                loads: final(load_history_uuids)@.map_values(|s: String| s@).skip(
                    old(load_history_uuids)@.len() as int,
                ),
            }),
            old(needs_reply_to)@.len() <= final(needs_reply_to)@.len(),
            final(needs_reply_to)@.take(old(needs_reply_to)@.len() as int) == old(needs_reply_to)@,
            old(load_history_uuids)@.len() <= final(load_history_uuids)@.len(),
            final(load_history_uuids)@.take(old(load_history_uuids)@.len() as int) == old(
                load_history_uuids,
            )@,
            chat_msg@ matches MessageView::Image(data) ==> (settings.images_enabled && settings.store_messages
                && old(self)@.chat.peer_uuids.contains_key(peer_id@) ==> effects_view(r@) == seq![
                EffectView::AppendMessage {
                    peer_uuid: old(self)@.chat.peer_uuids[peer_id@],
                    message: StoredMessageView {
                        is_self: false,
                        content: Seq::empty(),
                        timestamp: now,
                        is_image: true,
                        image_data: data,
                    },
                },
            ]),
    {
        let ghost s0 = self@;
        let ghost replies0 = needs_reply_to@;
        let ghost loads0 = load_history_uuids@;
        let mut effects: Vec<SessionEffect> = Vec::new();
        match chat_msg {
            ChatMessage::UserInfo(info) => {
                let ghost iv = info@;
                self.chat.set_peer_name_at(peer_id, info.name.as_str(), now);
                match &info.avatar {
                    Some(avatar) => self.chat.set_peer_avatar(peer_id, copy_bytes(avatar)),
                    None => {},
                }
                self.chat.set_peer_color(peer_id, info.name_color);
                if !info.bio.as_str().is_empty() {
                    self.chat.set_peer_bio(peer_id, info.bio.as_str());
                }
                if !info.uuid.as_str().is_empty() {
                    self.chat.set_peer_uuid(peer_id, info.uuid.as_str());
                    if settings.store_messages {
                        let profile = StoredPeerProfile {
                            uuid: info.uuid.clone(),
                            name: info.name.clone(),
                            avatar_png: copy_opt_bytes(&info.avatar),
                            name_color: info.name_color,
                            bio: info.bio.clone(),
                            last_seen: now,
                        };
                        effects.push(SessionEffect::UpdatePeerProfile(profile));
                    }
                    load_history_uuids.push(info.uuid.clone());
                }
                assert(self@.chat == chat_after_user_info(s0.chat, peer_id@, iv, now));
                if !info.is_reply {
                    let fresh = !self.replied_peers.contains_key(peer_id);
                    self.replied_peers.insert(to_owned_string(peer_id), ());
                    if fresh {
                        needs_reply_to.push(to_owned_string(peer_id));
                    }
                }
                if info.is_reply {
                    let first_join = !self.joined;
                    self.joined = true;
                    if first_join {
                        self.reveal_on_peer_connect = true;
                    }
                }
                proof {
                    assert(needs_reply_to@.map_values(|s: String| s@).skip(replies0.len() as int)
                        =~= handle_spec(s0, settings, peer_id@, chat_msg@, now).replies);
                    assert(load_history_uuids@.map_values(|s: String| s@).skip(loads0.len() as int)
                        =~= handle_spec(s0, settings, peer_id@, chat_msg@, now).loads);
                    assert(effects_view(effects@) =~= handle_spec(s0, settings, peer_id@, chat_msg@, now).effects);
                    assert(self@.replied_peers =~= handle_spec(s0, settings, peer_id@, chat_msg@, now).state.replied_peers);
                }
            },
            ChatMessage::Text(text) => {
                let name = self.chat.peer_display_name(peer_id);
                let ghost c0 = self@.chat;
                self.chat.add_text_with_time(name.as_str(), text.as_str(), false, now);
                if settings.store_messages {
                    match self.chat.peer_uuids.get(peer_id) {
                        Some(uuid) => {
                            effects.push(
                                SessionEffect::AppendMessage {
                                    peer_uuid: uuid.clone(),
                                    message: StoredMessage {
                                        is_self: false,
                                        content: text,
                                        timestamp: now,
                                        is_image: false,
                                        image_data: Vec::new(),
                                    },
                                },
                            );
                        },
                        None => {},
                    }
                }
                proof {
                    assert(effects_view(effects@) =~= handle_spec(s0, settings, peer_id@, chat_msg@, now).effects);
                }
            },
            ChatMessage::Image(data) => {
                if settings.images_enabled {
                    let name = self.chat.peer_display_name(peer_id);
                    let copy = copy_bytes(&data);
                    self.chat.add_image_with_time(name.as_str(), copy, false, now);
                    if settings.store_messages {
                        match self.chat.peer_uuids.get(peer_id) {
                            Some(uuid) => {
                                effects.push(
                                    SessionEffect::AppendMessage {
                                        peer_uuid: uuid.clone(),
                                        message: StoredMessage {
                                            is_self: false,
                                            content: String::new(),
                                            timestamp: now,
                                            is_image: true,
                                            image_data: data,
                                        },
                                    },
                                );
                            },
                            None => {},
                        }
                    }
                }
                proof {
                    assert(effects_view(effects@) =~= handle_spec(s0, settings, peer_id@, chat_msg@, now).effects);
                }
            },
            ChatMessage::VideoFrame(data) => {
                if settings.webcam_enabled {
                    if data.len() == 0 {
                        self.chat.remove_peer_video_frame(peer_id);
                    } else {
                        self.chat.set_peer_video_frame_at(peer_id, data, now);
                    }
                }
                assert(effects_view(effects@) =~= Seq::<EffectView>::empty());
            },
            ChatMessage::Voice(data) => {
                if settings.voice_enabled {
                    self.voice_packets_received = self.voice_packets_received.saturating_add(1);
                    effects.push(SessionEffect::PlayVoice { peer_id: to_owned_string(peer_id), data });
                }
                proof {
                    assert(effects_view(effects@) =~= handle_spec(s0, settings, peer_id@, chat_msg@, now).effects);
                }
            },
        }
        proof {
            assert(needs_reply_to@.map_values(|s: String| s@).skip(replies0.len() as int)
                =~= handle_spec(s0, settings, peer_id@, chat_msg@, now).replies);
            assert(load_history_uuids@.map_values(|s: String| s@).skip(loads0.len() as int)
                =~= handle_spec(s0, settings, peer_id@, chat_msg@, now).loads);
            assert(needs_reply_to@.take(replies0.len() as int) =~= replies0);
            assert(load_history_uuids@.take(loads0.len() as int) =~= loads0);
        }
        effects
    }
}


/// Something that reached the client from the session.
pub enum IncomingEvent {
    /// A frame from a peer; `None` when it did not decode.
    Incoming { peer_id: String, message: Option<ChatMessage<UserInfo>> },
    /// The background worker sent this many voice packets.
    VoiceSent(usize),
    /// The background worker played this many voice packets.
    VoiceReceived(usize),
}

pub enum EventView {
    Incoming { peer_id: Seq<char>, message: Option<MessageView<UserInfoView>> },
    VoiceSent(usize),
    VoiceReceived(usize),
}

impl View for IncomingEvent {
    type V = EventView;

    open spec fn view(&self) -> EventView {
        match self {
            IncomingEvent::Incoming { peer_id, message } => EventView::Incoming {
                peer_id: peer_id@,
                message: match message {
                    Some(m) => Some(m@),
                    None => None,
                },
            },
            IncomingEvent::VoiceSent(n) => EventView::VoiceSent(*n),
            IncomingEvent::VoiceReceived(n) => EventView::VoiceReceived(*n),
        }
    }
}

pub open spec fn events_view(v: Seq<IncomingEvent>) -> Seq<EventView> {
    v.map_values(|e: IncomingEvent| e@)
}

pub open spec fn no_step(s: SessionView) -> StepView {
    StepView { state: s, effects: Seq::empty(), replies: Seq::empty(), loads: Seq::empty() }
}

/// What one event does.
pub open spec fn event_spec(s: SessionView, st: MessageSettings, e: EventView, now: UtcTime) -> StepView {
    match e {
        EventView::Incoming { peer_id, message } => match message {
            Some(m) => handle_spec(s, st, peer_id, m, now),
            None => no_step(s),
        },
        EventView::VoiceSent(n) => no_step(
            SessionView { voice_packets_sent: sat_add_u64(s.voice_packets_sent, n as int), ..s },
        ),
        EventView::VoiceReceived(n) => no_step(
            SessionView {
                voice_packets_received: sat_add_u64(s.voice_packets_received, n as int),
                ..s
            },
        ),
    }
}

pub open spec fn event_ok(s: SessionView, st: MessageSettings, e: EventView) -> bool {
    match e {
        EventView::Incoming { peer_id, message } => match message {
            Some(m) => handle_ok(s, st, peer_id, m),
            None => true,
        },
        _ => true,
    }
}

/// The events handled in order, with their effects, replies and loads
/// concatenated.
pub open spec fn events_spec(s: SessionView, st: MessageSettings, es: Seq<EventView>, now: UtcTime) -> StepView
    decreases es.len(),
{
    if es.len() == 0 {
        no_step(s)
    } else {
        let prev = events_spec(s, st, es.drop_last(), now);
        let step = event_spec(prev.state, st, es.last(), now);
        StepView {
            state: step.state,
            effects: prev.effects + step.effects,
            replies: prev.replies + step.replies,
            loads: prev.loads + step.loads,
        }
    }
}

/// Every event can be handled in the state that the earlier ones leave.
pub open spec fn events_ok(s: SessionView, st: MessageSettings, es: Seq<EventView>, now: UtcTime) -> bool
    decreases es.len(),
{
    if es.len() == 0 {
        true
    } else {
        events_ok(s, st, es.drop_last(), now) && event_ok(
            events_spec(s, st, es.drop_last(), now).state,
            st,
            es.last(),
        )
    }
}

/// After a batch of events: everyone who announced themselves gets one reply
/// with our profile.
pub open spec fn poll_spec(s: SessionView, st: MessageSettings, es: Seq<EventView>, now: UtcTime) -> StepView {
    let all = events_spec(s, st, es, now);
    StepView {
        effects: if all.replies.len() > 0 {
            all.effects.push(EffectView::SendUserInfo(profile_view(all.state, true)))
        } else {
            all.effects
        },
        ..all
    }
}

pub open spec fn profile_view(s: SessionView, is_reply: bool) -> UserInfoView {
    UserInfoView {
        name: s.username,
        uuid: s.player_uuid,
        avatar: s.avatar_png,
        name_color: s.name_color,
        bio: s.bio,
        is_reply,
    }
}

pub open spec fn strings_view(v: Seq<String>) -> Seq<Seq<char>> {
    v.map_values(|s: String| s@)
}

proof fn lemma_strings_split(a: Seq<String>, b: Seq<String>)
    requires
        b.len() <= a.len(),
        a.take(b.len() as int) == b,
    ensures
        strings_view(a) == strings_view(b) + strings_view(a).skip(b.len() as int),
{
    assert forall|i: int| 0 <= i < b.len() implies #[trigger] a[i] == b[i] by {
        assert(a.take(b.len() as int)[i] == a[i]);
    }
    assert(strings_view(a) =~= strings_view(b) + strings_view(a).skip(b.len() as int));
}

proof fn lemma_events_step(s: SessionView, st: MessageSettings, es: Seq<EventView>, i: int, now: UtcTime)
    requires
        0 <= i < es.len(),
    ensures
        es.take(i + 1).drop_last() == es.take(i),
        es.take(i + 1).last() == es[i],
{
    assert(es.take(i + 1).drop_last() =~= es.take(i));
}

proof fn lemma_events_ok_prefix(s: SessionView, st: MessageSettings, es: Seq<EventView>, i: int, now: UtcTime)
    requires
        0 <= i <= es.len(),
        events_ok(s, st, es, now),
    ensures
        events_ok(s, st, es.take(i), now),
    decreases es.len() - i,
{
    if i < es.len() {
        assert(es.drop_last() =~= es.take(es.len() - 1));
        lemma_events_ok_prefix(s, st, es.drop_last(), i, now);
        assert(es.drop_last().take(i) =~= es.take(i));
    } else {
        assert(es.take(i) =~= es);
    }
}

/// One incoming message never forgets a peer that was answered, and asks
/// for at most one reply: to its sender, which had not been answered before
/// and is answered from now on.
pub proof fn lemma_handle_replies(
    s: SessionView,
    st: MessageSettings,
    peer: Seq<char>,
    m: MessageView<UserInfoView>,
    now: UtcTime,
)
    ensures
        s.replied_peers.subset_of(handle_spec(s, st, peer, m, now).state.replied_peers),
        handle_spec(s, st, peer, m, now).replies.len() == 0 || (handle_spec(
            s,
            st,
            peer,
            m,
            now,
        ).replies == seq![peer] && !s.replied_peers.contains(peer) && handle_spec(
            s,
            st,
            peer,
            m,
            now,
        ).state.replied_peers.contains(peer)),
{
}

/// A peer that announces itself again is not answered again.
pub proof fn lemma_reply_once(
    s: SessionView,
    st: MessageSettings,
    peer: Seq<char>,
    first: UserInfoView,
    m: MessageView<UserInfoView>,
    now1: UtcTime,
    now2: UtcTime,
)
    requires
        !first.is_reply,
    ensures
        handle_spec(
            handle_spec(s, st, peer, MessageView::UserInfo(first), now1).state,
            st,
            peer,
            m,
            now2,
        ).replies.len() == 0,
{
}

/// Over a batch of events each peer is answered at most once, and only a
/// peer that had not been answered before; the answered peers are kept.
pub proof fn lemma_events_reply_once(s: SessionView, st: MessageSettings, es: Seq<EventView>, now: UtcTime)
    ensures
        events_spec(s, st, es, now).replies.no_duplicates(),
        s.replied_peers.subset_of(events_spec(s, st, es, now).state.replied_peers),
        forall|i: int|
            0 <= i < events_spec(s, st, es, now).replies.len() ==> !s.replied_peers.contains(
                #[trigger] events_spec(s, st, es, now).replies[i],
            ) && events_spec(s, st, es, now).state.replied_peers.contains(
                events_spec(s, st, es, now).replies[i],
            ),
    decreases es.len(),
{
    if es.len() > 0 {
        let prev = events_spec(s, st, es.drop_last(), now);
        lemma_events_reply_once(s, st, es.drop_last(), now);
        let step = event_spec(prev.state, st, es.last(), now);
        match es.last() {
            EventView::Incoming { peer_id, message } => match message {
                Some(m) => lemma_handle_replies(prev.state, st, peer_id, m, now),
                None => {},
            },
            _ => {},
        }
        let all = events_spec(s, st, es, now);
        assert(all.replies == prev.replies + step.replies);
        assert forall|i: int| 0 <= i < all.replies.len() implies !s.replied_peers.contains(
            #[trigger] all.replies[i],
        ) && all.state.replied_peers.contains(all.replies[i]) by {
            if i >= prev.replies.len() {
                assert(all.replies[i] == step.replies[i - prev.replies.len()]);
            } else {
                assert(all.replies[i] == prev.replies[i]);
            }
        }
        assert forall|i: int, j: int| 0 <= i < j < all.replies.len() implies all.replies[i] != all.replies[j] by {
            if j >= prev.replies.len() {
                assert(all.replies[j] == step.replies[j - prev.replies.len()]);
                if i < prev.replies.len() {
                    assert(all.replies[i] == prev.replies[i]);
                }
            } else {
                assert(all.replies[i] == prev.replies[i]);
                assert(all.replies[j] == prev.replies[j]);
            }
        }
    }
}

impl ChatSession {
    /// Handle a batch of events received at the current time.
    pub fn poll_incoming(&mut self, settings: MessageSettings, events: Vec<IncomingEvent>) -> (r: (
        Vec<SessionEffect>,
        Vec<String>,
    ))
        requires
            forall|t: UtcTime| events_ok(old(self)@, settings, events_view(events@), t),
        ensures
            exists|now: UtcTime| #[trigger] poll_spec(old(self)@, settings, events_view(events@), now) == (StepView {
                state: final(self)@,
                effects: effects_view(r.0@),
                replies: poll_spec(old(self)@, settings, events_view(events@), now).replies,
                loads: strings_view(r.1@),
            }),
    {
        let now = utc_now();
        self.poll_incoming_at(settings, events, now)
    }

    /// Handle a batch of events received at `now`; returns the effects and the
    /// peer UUIDs whose stored conversations should be loaded.
    pub fn poll_incoming_at(
        &mut self,
        settings: MessageSettings,
        events: Vec<IncomingEvent>,
        now: UtcTime,
    ) -> (r: (Vec<SessionEffect>, Vec<String>))
        requires
            events_ok(old(self)@, settings, events_view(events@), now),
        ensures
            poll_spec(old(self)@, settings, events_view(events@), now) == (StepView {
                state: final(self)@,
                effects: effects_view(r.0@),
                replies: poll_spec(old(self)@, settings, events_view(events@), now).replies,
                loads: strings_view(r.1@),
            }),
            poll_spec(old(self)@, settings, events_view(events@), now).replies.len() > 0 ==> effects_view(
                r.0@,
            ).last() == EffectView::SendUserInfo(
                UserInfoView {
                    name: old(self)@.username,
                    uuid: old(self)@.player_uuid,
                    avatar: old(self)@.avatar_png,
                    name_color: old(self)@.name_color,
                    bio: old(self)@.bio,
                    is_reply: true,
                },
            ),
    {
        let ghost s0 = self@;
        let ghost es = events_view(events@);
        let mut needs_reply_to: Vec<String> = Vec::new();
        let mut loads: Vec<String> = Vec::new();
        let mut effects: Vec<SessionEffect> = Vec::new();
        let mut rest = events;
        let ghost all = rest@;
        proof {
            assert(es.take(0) =~= Seq::<EventView>::empty());
            assert(effects_view(effects@) =~= Seq::<EffectView>::empty());
            assert(strings_view(needs_reply_to@) =~= Seq::<Seq<char>>::empty());
            assert(strings_view(loads@) =~= Seq::<Seq<char>>::empty());
        }
        while rest.len() > 0
            invariant
                rest@.len() <= all.len(),
                es == events_view(all),
                events_ok(s0, settings, es, now),
                rest@ == all.subrange(all.len() - rest@.len(), all.len() as int),
                events_spec(s0, settings, es.take(all.len() - rest@.len()), now) == (StepView {
                    state: self@,
                    effects: effects_view(effects@),
                    replies: strings_view(needs_reply_to@),
                    loads: strings_view(loads@),
                }),
            decreases rest@.len(),
        {
            let ghost i = all.len() - rest@.len();
            let ghost before = self@;
            let ghost eff0 = effects@;
            let ghost rep0 = needs_reply_to@;
            let ghost loads0 = loads@;
            let e = rest.remove(0);
            proof {
                assert(e@ == es[i]);
                lemma_events_step(s0, settings, es, i, now);
                lemma_events_ok_prefix(s0, settings, es, i + 1, now);
                assert(rest@ =~= all.subrange(all.len() - rest@.len(), all.len() as int));
            }
            match e {
                IncomingEvent::Incoming { peer_id, message } => {
                    match message {
                        Some(m) => {
                            let mut step = self.handle_incoming_chat_message_at(
                                settings,
                                peer_id.as_str(),
                                m,
                                &mut needs_reply_to,
                                &mut loads,
                                now,
                            );
                            let ghost step_v = step@;
                            effects.append(&mut step);
                            proof {
                                assert(effects_view(effects@) =~= effects_view(eff0) + effects_view(step_v));
                                lemma_strings_split(needs_reply_to@, rep0);
                                lemma_strings_split(loads@, loads0);
                            }
                        },
                        None => {
                            proof {
                                assert(effects_view(effects@) =~= effects_view(eff0) + Seq::<EffectView>::empty());
                                assert(strings_view(needs_reply_to@) =~= strings_view(rep0) + Seq::<Seq<char>>::empty());
                                assert(strings_view(loads@) =~= strings_view(loads0) + Seq::<Seq<char>>::empty());
                            }
                        },
                    }
                },
                IncomingEvent::VoiceSent(n) => {
                    self.voice_packets_sent = self.voice_packets_sent.saturating_add(n as u64);
                    proof {
                        assert(effects_view(effects@) =~= effects_view(eff0) + Seq::<EffectView>::empty());
                        assert(strings_view(needs_reply_to@) =~= strings_view(rep0) + Seq::<Seq<char>>::empty());
                        assert(strings_view(loads@) =~= strings_view(loads0) + Seq::<Seq<char>>::empty());
                    }
                },
                IncomingEvent::VoiceReceived(n) => {
                    self.voice_packets_received = self.voice_packets_received.saturating_add(n as u64);
                    proof {
                        assert(effects_view(effects@) =~= effects_view(eff0) + Seq::<EffectView>::empty());
                        assert(strings_view(needs_reply_to@) =~= strings_view(rep0) + Seq::<Seq<char>>::empty());
                        assert(strings_view(loads@) =~= strings_view(loads0) + Seq::<Seq<char>>::empty());
                    }
                },
            }
        }
        proof {
            assert(es.take(all.len() as int) =~= es);
        }
        proof {
            lemma_poll_replies_with_our_profile(s0, settings, es, now);
        }
        if needs_reply_to.len() > 0 {
            let info = self.user_info(true);
            effects.push(SessionEffect::SendUserInfo(info));
            proof {
                assert(effects_view(effects@) =~= poll_spec(s0, settings, es, now).effects);
            }
        }
        (effects, loads)
    }
}

proof fn lemma_event_names(
    s1: SessionView,
    s2: SessionView,
    st: MessageSettings,
    e: EventView,
    t1: UtcTime,
    t2: UtcTime,
)
    requires
        s1.chat.peer_names == s2.chat.peer_names,
    ensures
        event_spec(s1, st, e, t1).state.chat.peer_names == event_spec(s2, st, e, t2).state.chat.peer_names,
{
}

/// Which peers are named after a batch does not depend on when it arrived.
proof fn lemma_events_names(s: SessionView, st: MessageSettings, es: Seq<EventView>, t1: UtcTime, t2: UtcTime)
    ensures
        events_spec(s, st, es, t1).state.chat.peer_names == events_spec(s, st, es, t2).state.chat.peer_names,
    decreases es.len(),
{
    if es.len() > 0 {
        lemma_events_names(s, st, es.drop_last(), t1, t2);
        lemma_event_names(
            events_spec(s, st, es.drop_last(), t1).state,
            events_spec(s, st, es.drop_last(), t2).state,
            st,
            es.last(),
            t1,
            t2,
        );
    }
}

/// Whether a batch can be handled does not depend on when it arrived.
proof fn lemma_events_ok_any_time(s: SessionView, st: MessageSettings, es: Seq<EventView>, t1: UtcTime, t2: UtcTime)
    ensures
        events_ok(s, st, es, t1) == events_ok(s, st, es, t2),
    decreases es.len(),
{
    if es.len() > 0 {
        lemma_events_ok_any_time(s, st, es.drop_last(), t1, t2);
        lemma_events_names(s, st, es.drop_last(), t1, t2);
    }
}

/// Whether `k` is one of the strings of `v`.
fn contains_string(v: &Vec<String>, k: &str) -> (r: bool)
    ensures
        r == strings_view(v@).contains(k@),
{
    let mut i: usize = 0;
    while i < v.len()
        invariant
            i <= v@.len(),
            forall|j: int| 0 <= j < i ==> v@[j]@ != k@,
        decreases v@.len() - i,
    {
        if crate::text::str_eq(v[i].as_str(), k) {
            assert(strings_view(v@)[i as int] == k@);
            return true;
        }
        i = i + 1;
    }
    assert forall|j: int| 0 <= j < strings_view(v@).len() implies strings_view(v@)[j] != k@ by {
        assert(strings_view(v@)[j] == v@[j]@);
    }
    false
}

impl ChatSession {
    /// Whether a batch of events can be handled: each text, and each image
    /// that is shown, comes from a peer that is named by then (an earlier
    /// announcement of the batch counts) or whose id can be cut after 8 bytes.
    pub fn can_handle_events(&self, settings: MessageSettings, events: &Vec<IncomingEvent>) -> (r: bool)
        ensures
            r == (forall|t: UtcTime| events_ok(self@, settings, events_view(events@), t)),
    {
        let ghost s = self@;
        let ghost es = events_view(events@);
        let ghost t0 = UtcTime { secs: 0, nanos: 0 };
        let mut announced: Vec<String> = Vec::new();
        let mut ok = true;
        let mut i: usize = 0;
        proof {
            assert(es.take(0) =~= Seq::<EventView>::empty());
            assert(strings_view(announced@) =~= Seq::<Seq<char>>::empty());
        }
        while i < events.len()
            invariant
                i <= events@.len(),
                es == events_view(events@),
                s == self@,
                ok == events_ok(s, settings, es.take(i as int), t0),
                forall|k: Seq<char>|
                    #[trigger] events_spec(s, settings, es.take(i as int), t0).state.chat.peer_names.contains_key(k)
                        <==> (s.chat.peer_names.contains_key(k) || strings_view(announced@).contains(k)),
            decreases events@.len() - i,
        {
            proof {
                lemma_events_step(s, settings, es, i as int, t0);
            }
            let ghost prev = events_spec(s, settings, es.take(i as int), t0).state;
            let ghost a0 = announced@;
            assert(events@[i as int]@ == es[i as int]);
            match &events[i] {
                IncomingEvent::Incoming { peer_id, message } => match message {
                    Some(ChatMessage::UserInfo(_)) => {
                        announced.push(peer_id.clone());
                        proof {
                            assert(strings_view(announced@) =~= strings_view(a0).push(peer_id@));
                        }
                    },
                    Some(ChatMessage::Text(_)) => {
                        if !self.chat.can_display_peer(peer_id.as_str()) && !contains_string(
                            &announced,
                            peer_id.as_str(),
                        ) {
                            ok = false;
                        }
                    },
                    Some(ChatMessage::Image(_)) => {
                        if settings.images_enabled && !self.chat.can_display_peer(peer_id.as_str())
                            && !contains_string(&announced, peer_id.as_str()) {
                            ok = false;
                        }
                    },
                    _ => {},
                },
                _ => {},
            }
            proof {
                let next = events_spec(s, settings, es.take(i + 1), t0).state;
                assert(next == event_spec(prev, settings, es[i as int], t0).state);
                let sa = strings_view(a0);
                let sb = strings_view(announced@);
                match es[i as int] {
                    EventView::Incoming { peer_id, message } => match message {
                        Some(MessageView::UserInfo(info)) => {
                            assert(next.chat.peer_names == prev.chat.peer_names.insert(peer_id, info.name));
                            assert(sb == sa.push(peer_id));
                            assert forall|k: Seq<char>|
                                #[trigger] next.chat.peer_names.contains_key(k) <==> (
                                s.chat.peer_names.contains_key(k) || sb.contains(k)) by {
                                assert(prev.chat.peer_names.contains_key(k) <==> (
                                s.chat.peer_names.contains_key(k) || sa.contains(k)));
                                if sa.contains(k) {
                                    let j = choose|j: int| 0 <= j < sa.len() && sa[j] == k;
                                    assert(sb[j] == k);
                                }
                                if k == peer_id {
                                    assert(sb[sa.len() as int] == k);
                                }
                                if sb.contains(k) && k != peer_id {
                                    let j = choose|j: int| 0 <= j < sb.len() && sb[j] == k;
                                    assert(sa[j] == k);
                                }
                            }
                        },
                        _ => {
                            assert(next.chat.peer_names == prev.chat.peer_names);
                            assert(sb == sa);
                        },
                    },
                    _ => {
                        assert(next.chat.peer_names == prev.chat.peer_names);
                        assert(sb == sa);
                    },
                }
            }
            i = i + 1;
        }
        proof {
            assert(es.take(es.len() as int) =~= es);
            assert forall|t: UtcTime| events_ok(s, settings, es, t) == ok by {
                lemma_events_ok_any_time(s, settings, es, t0, t);
            }
        }
        ok
    }
}

/// The peer id under which our own webcam frames are kept.
pub const LOCAL_WEBCAM_PEER_ID: &'static str = "__local_webcam__";

/// How long a peer's webcam stays up without a new frame.
pub const WEBCAM_FRAME_MAX_AGE_MS: u64 = 3000;

/// A stored message of ours.
pub open spec fn sent_message(text: Seq<char>, image: Option<Seq<u8>>, now: UtcTime) -> StoredMessageView {
    match image {
        Some(data) => StoredMessageView {
            is_self: true,
            content: Seq::empty(),
            timestamp: now,
            is_image: true,
            image_data: data,
        },
        None => StoredMessageView {
            is_self: true,
            content: text,
            timestamp: now,
            is_image: false,
            image_data: Seq::empty(),
        },
    }
}

/// One append per peer with a known UUID, in the order `keys`.
pub open spec fn append_to_peers(
    uuids: Map<Seq<char>, Seq<char>>,
    keys: Seq<Seq<char>>,
    msg: StoredMessageView,
) -> Seq<EffectView> {
    keys.map_values(|k: Seq<char>| EffectView::AppendMessage { peer_uuid: uuids[k], message: msg })
}

/// A stored conversation entry as it is shown in the live log: our own
/// messages under our name, the peer's under the stored peer name, stamped
/// with the whole seconds (instants before the epoch count as the epoch).
pub open spec fn history_entry(m: StoredMessageView, self_name: Seq<char>, peer_name: Seq<char>) -> EntryView {
    let sender = if m.is_self {
        self_name
    } else {
        peer_name
    };
    let ts = UtcTime {
        secs: if m.timestamp.secs < 0 {
            0
        } else {
            m.timestamp.secs
        },
        nanos: 0,
    };
    if m.is_image {
        EntryView::Image { sender, png_data: m.image_data, is_self: m.is_self, timestamp: ts }
    } else {
        EntryView::Text { sender, content: m.content, is_self: m.is_self, timestamp: ts }
    }
}

pub open spec fn past_messages_spec(
    c: ChatHistoryView,
    st: MessageSettings,
    conv: Option<ConversationView>,
    self_name: Seq<char>,
) -> ChatHistoryView {
    match conv {
        Some(cv) => if st.store_messages && cv.messages.len() > 0 {
            ChatHistoryView {
                entries: c.entries + cv.messages.map_values(
                    |m: StoredMessageView| history_entry(m, self_name, cv.peer.name),
                ),
                scroll_to_bottom: true,
                ..c
            }
        } else {
            c
        },
        None => c,
    }
}

pub open spec fn opt_conv_view(c: Option<ConversationHistory>) -> Option<ConversationView> {
    match c {
        Some(x) => Some(x@),
        None => None,
    }
}

/// What committing the profile editor asks the client to do.
pub enum ProfileEffect {
    SaveUsername(String),
    SaveAvatar(Vec<u8>),
    ClearAvatar,
    SaveNameColor([u8; 3]),
    SaveBio(String),
    StartConnecting,
    SaveConfig,
    SyncStartupRegistry,
}

pub enum ProfileEffectView {
    SaveUsername(Seq<char>),
    SaveAvatar(Seq<u8>),
    ClearAvatar,
    SaveNameColor([u8; 3]),
    SaveBio(Seq<char>),
    StartConnecting,
    SaveConfig,
    SyncStartupRegistry,
}

impl View for ProfileEffect {
    type V = ProfileEffectView;

    open spec fn view(&self) -> ProfileEffectView {
        match self {
            ProfileEffect::SaveUsername(s) => ProfileEffectView::SaveUsername(s@),
            ProfileEffect::SaveAvatar(b) => ProfileEffectView::SaveAvatar(b@),
            ProfileEffect::ClearAvatar => ProfileEffectView::ClearAvatar,
            ProfileEffect::SaveNameColor(c) => ProfileEffectView::SaveNameColor(*c),
            ProfileEffect::SaveBio(s) => ProfileEffectView::SaveBio(s@),
            ProfileEffect::StartConnecting => ProfileEffectView::StartConnecting,
            ProfileEffect::SaveConfig => ProfileEffectView::SaveConfig,
            ProfileEffect::SyncStartupRegistry => ProfileEffectView::SyncStartupRegistry,
        }
    }
}

/// The connection state that the status line reports.
#[derive(Clone, Copy, PartialEq, Eq, Structural)]
pub enum LinkState {
    Discovering,
    Discovered,
    Other,
}

pub open spec fn waiting_text(phase: u64) -> Seq<char> {
    "waiting for game"@ + Seq::new((phase % 3 + 1) as nat, |i: int| '.')
}

/// The status line under our name while no peer has joined.
pub open spec fn status_spec(
    joined: bool,
    has_session: bool,
    connecting: bool,
    state: Option<LinkState>,
    phase: u64,
) -> Option<Seq<char>> {
    if joined {
        None
    } else if !has_session {
        if connecting {
            Some(waiting_text(phase))
        } else {
            None
        }
    } else if state == Some(LinkState::Discovered) {
        Some("connecting..."@)
    } else {
        Some("searching for peer..."@)
    }
}

pub open spec fn layout_key_spec(s: SessionView, peer_id: Seq<char>) -> Seq<char> {
    if peer_id == LOCAL_WEBCAM_PEER_ID@ {
        "self:"@ + s.player_uuid
    } else if s.chat.peer_uuids.contains_key(peer_id) {
        "peer:"@ + s.chat.peer_uuids[peer_id]
    } else {
        "node:"@ + peer_id
    }
}

impl ChatSession {
    /// A connection to the session is up: start a fresh chat.
    pub fn session_established(&mut self)
        ensures
            final(self)@ == (SessionView {
                screen: AppScreen::InSession,
                info_announced: false,
                joined: false,
                reveal_on_peer_connect: false,
                replied_peers: Set::empty(),
                chat: empty_history(),
                ..old(self)@
            }),
    {
        self.screen = AppScreen::InSession;
        self.info_announced = false;
        self.joined = false;
        self.reveal_on_peer_connect = false;
        self.replied_peers = PeerMap::new();
        self.chat = ChatHistory::new();
        assert(self@.replied_peers =~= Set::<Seq<char>>::empty());
    }

    /// Announce ourselves once the peer has been discovered.
    pub fn announce_if_needed(&mut self, discovered: bool) -> (r: Option<UserInfo>)
        ensures
            if !old(self)@.info_announced && discovered {
                &&& final(self)@ == (SessionView {
                    reveal_on_peer_connect: true,
                    info_announced: true,
                    ..old(self)@
                })
                &&& r matches Some(info) && info@ == profile_view(old(self)@, false)
            } else {
                final(self)@ == old(self)@ && r is None
            },
    {
        if self.info_announced {
            return None;
        }
        if discovered {
            self.reveal_on_peer_connect = true;
            let info = self.user_info(false);
            self.info_announced = true;
            Some(info)
        } else {
            None
        }
    }

    /// Appends stored messages to the log after a peer's profile arrives.
    pub fn load_past_messages_for_peer(
        &mut self,
        settings: MessageSettings,
        conv: Option<ConversationHistory>,
    )
        ensures
            final(self)@ == (SessionView {
                chat: past_messages_spec(old(self)@.chat, settings, opt_conv_view(conv), old(self)@.username),
                ..old(self)@
            }),
            settings.store_messages && conv is Some ==> ({
                let cv = conv->0@;
                let before = old(self)@.chat.entries;
                let after = final(self)@.chat.entries;
                &&& after.len() == before.len() + cv.messages.len()
                &&& forall|i: int|
                    0 <= i < cv.messages.len() ==> (#[trigger] cv.messages[i]).is_self ==> entry_sender(
                        after[before.len() + i],
                    ) == old(self)@.username
                &&& forall|i: int|
                    0 <= i < cv.messages.len() ==> !(#[trigger] cv.messages[i]).is_self ==> entry_sender(
                        after[before.len() + i],
                    ) == cv.peer.name
            }),
    {
        proof {
            match &conv {
                Some(c) => if settings.store_messages {
                    lemma_past_messages_senders(self@.chat, settings, c@, self@.username);
                },
                None => {},
            }
        }
        if !settings.store_messages {
            return;
        }
        let conv = match conv {
            Some(c) => c,
            None => return,
        };
        if conv.messages.len() == 0 {
            return;
        }
        let ghost c0 = self@.chat;
        let ghost cv = conv@;
        let ghost self_name = self@.username;
        let mut i: usize = 0;
        proof {
            assert(cv.messages.take(0).map_values(
                |m: StoredMessageView| history_entry(m, self_name, cv.peer.name),
            ) =~= Seq::<EntryView>::empty());
            assert(c0.entries + Seq::<EntryView>::empty() =~= c0.entries);
        }
        while i < conv.messages.len()
            invariant
                i <= conv.messages@.len(),
                cv == conv@,
                self_name == self@.username,
                self@ == (SessionView { chat: self@.chat, ..old(self)@ }),
                self@.chat == (ChatHistoryView {
                    entries: c0.entries + cv.messages.take(i as int).map_values(
                        |m: StoredMessageView| history_entry(m, self_name, cv.peer.name),
                    ),
                    scroll_to_bottom: if i == 0 {
                        c0.scroll_to_bottom
                    } else {
                        true
                    },
                    ..c0
                }),
            decreases conv.messages@.len() - i,
        {
            let msg = &conv.messages[i];
            let secs: i64 = if msg.timestamp.secs < 0 { 0 } else { msg.timestamp.secs };
            let ts = UtcTime { secs, nanos: 0 };
            let ghost mv = cv.messages[i as int];
            assert(mv == msg@);
            if msg.is_image {
                let data = copy_bytes(&msg.image_data);
                if msg.is_self {
                    self.chat.add_image_with_time(self.username.as_str(), data, true, ts);
                } else {
                    self.chat.add_image_with_time(conv.peer.name.as_str(), data, false, ts);
                }
            } else {
                if msg.is_self {
                    self.chat.add_text_with_time(self.username.as_str(), msg.content.as_str(), true, ts);
                } else {
                    self.chat.add_text_with_time(conv.peer.name.as_str(), msg.content.as_str(), false, ts);
                }
            }
            proof {
                assert(cv.messages.take(i + 1).map_values(
                    |m: StoredMessageView| history_entry(m, self_name, cv.peer.name),
                ) =~= cv.messages.take(i as int).map_values(
                    |m: StoredMessageView| history_entry(m, self_name, cv.peer.name),
                ).push(history_entry(mv, self_name, cv.peer.name)));
                assert(self@.chat.entries =~= c0.entries + cv.messages.take(i + 1).map_values(
                    |m: StoredMessageView| history_entry(m, self_name, cv.peer.name),
                ));
            }
            i = i + 1;
        }
        proof {
            assert(cv.messages.take(i as int) =~= cv.messages);
        }
    }

    /// Sends the typed text, stamped with the current time.
    pub fn send_text(&mut self, settings: MessageSettings) -> (r: Vec<SessionEffect>)
        ensures
            exists|now: UtcTime| #[trigger] send_spec(*old(self), settings, None, now) == (final(self)@, effects_view(r@)),
    {
        let now = utc_now();
        self.send_text_at(settings, now)
    }

    /// Sends the typed text (trimmed); nothing happens when only whitespace
    /// was typed.
    pub fn send_text_at(&mut self, settings: MessageSettings, now: UtcTime) -> (r: Vec<SessionEffect>)
        ensures
            send_spec(*old(self), settings, None, now) == (final(self)@, effects_view(r@)),
            !settings.store_messages ==> effects_view(r@) == (if trim_spec(old(self)@.input_text).len() == 0 {
                Seq::<EffectView>::empty()
            } else {
                seq![EffectView::Send(encode_spec(MessageView::Text(trim_spec(old(self)@.input_text))))]
            }),
    {
        proof {
            lemma_send_text_effects(*self, settings, now);
        }
        let text = trim(self.input_text.as_str());
        if text.as_str().is_empty() {
            assert(effects_view(Seq::<SessionEffect>::empty()) =~= Seq::<EffectView>::empty());
            return Vec::new();
        }
        self.input_text = String::new();
        let msg: ChatMessage<Vec<u8>> = ChatMessage::Text(text.clone());
        let mut effects: Vec<SessionEffect> = Vec::new();
        effects.push(SessionEffect::Send(msg.to_bytes()));
        let ghost keys = self.chat.peer_uuids.key_seq();
        let ghost uuids = self@.chat.peer_uuids;
        if settings.store_messages {
            self.append_for_all_peers(&mut effects, text.as_str(), None, now);
        }
        self.chat.add_text_with_time(self.username.as_str(), text.as_str(), true, now);
        proof {
            assert(effects_view(effects@) =~= send_spec(*old(self), settings, None, now).1);
        }
        effects
    }

    /// Sends an image we picked, stamped with the current time.
    pub fn send_image(&mut self, settings: MessageSettings, png_data: Vec<u8>) -> (r: Vec<SessionEffect>)
        ensures
            exists|now: UtcTime| #[trigger] send_spec(*old(self), settings, Some(png_data@), now) == (final(self)@, effects_view(r@)),
    {
        let now = utc_now();
        self.send_image_at(settings, png_data, now)
    }

    pub fn send_image_at(&mut self, settings: MessageSettings, png_data: Vec<u8>, now: UtcTime) -> (r: Vec<SessionEffect>)
        ensures
            send_spec(*old(self), settings, Some(png_data@), now) == (final(self)@, effects_view(r@)),
    {
        let msg: ChatMessage<Vec<u8>> = ChatMessage::Image(copy_bytes(&png_data));
        let mut effects: Vec<SessionEffect> = Vec::new();
        effects.push(SessionEffect::Send(msg.to_bytes()));
        let ghost p = png_data@;
        if settings.store_messages {
            self.append_for_all_peers(&mut effects, "", Some(&png_data), now);
            proof {
                reveal_strlit("");
                assert(sent_message(""@, Some(p), now) == sent_message(Seq::empty(), Some(p), now));
            }
        }
        self.chat.add_image_with_time(self.username.as_str(), copy_bytes(&png_data), true, now);
        proof {
            assert(effects_view(effects@) =~= send_spec(*old(self), settings, Some(p), now).1);
        }
        effects
    }

    /// One `AppendMessage` per peer with a known UUID.
    fn append_for_all_peers(
        &self,
        effects: &mut Vec<SessionEffect>,
        text: &str,
        image: Option<&Vec<u8>>,
        now: UtcTime,
    )
        ensures
            effects_view(final(effects)@) == effects_view(old(effects)@) + append_to_peers(
                self@.chat.peer_uuids,
                self.chat.peer_uuids.key_seq(),
                sent_message(text@, match image { Some(b) => Some(b@), None => None }, now),
            ),
    {
        let ghost msgv = sent_message(text@, match image { Some(b) => Some(b@), None => None }, now);
        let ghost e0 = effects_view(effects@);
        let keys = self.chat.peer_uuids.keys();
        let ghost ks = self.chat.peer_uuids.key_seq();
        let ghost uuids = self@.chat.peer_uuids;
        let mut i: usize = 0;
        proof {
            assert(append_to_peers(uuids, ks.take(0), msgv) =~= Seq::<EffectView>::empty());
            assert(e0 + Seq::<EffectView>::empty() =~= e0);
        }
        while i < keys.len()
            invariant
                i <= keys@.len(),
                keys@.len() == ks.len(),
                forall|j: int| 0 <= j < keys@.len() ==> (#[trigger] keys@[j])@ == ks[j],
                forall|k: Seq<char>| #[trigger] uuids.contains_key(k) <==> ks.contains(k),
                uuids == self@.chat.peer_uuids,
                msgv == sent_message(text@, match image { Some(b) => Some(b@), None => None }, now),
                effects_view(effects@) == e0 + append_to_peers(uuids, ks.take(i as int), msgv),
            decreases keys@.len() - i,
        {
            assert(ks.contains(ks[i as int]));
            let uuid = self.chat.peer_uuids.get(keys[i].as_str()).unwrap().clone();
            let message = match image {
                Some(b) => StoredMessage {
                    is_self: true,
                    content: String::new(),
                    timestamp: now,
                    is_image: true,
                    image_data: copy_bytes(b),
                },
                None => StoredMessage {
                    is_self: true,
                    content: to_owned_string(text),
                    timestamp: now,
                    is_image: false,
                    image_data: Vec::new(),
                },
            };
            assert(message@.content =~= msgv.content);
            assert(message@.image_data =~= msgv.image_data);
            assert(message@ == msgv);
            assert(uuid@ == uuids[ks[i as int]]);
            let ghost before = effects@;
            let eff = SessionEffect::AppendMessage { peer_uuid: uuid, message };
            let ghost ev = eff@;
            effects.push(eff);
            proof {
                assert(effects_view(effects@) =~= effects_view(before).push(ev));
                assert(append_to_peers(uuids, ks.take(i + 1), msgv) =~= append_to_peers(uuids, ks.take(i as int), msgv).push(
                    EffectView::AppendMessage { peer_uuid: uuids[ks[i as int]], message: msgv },
                ));
                assert(effects_view(effects@) =~= e0 + append_to_peers(uuids, ks.take(i + 1), msgv));
            }
            i = i + 1;
        }
        proof {
            assert(ks.take(i as int) =~= ks);
        }
    }
}

/// Sending what we typed (`image` None) or an image: the frame to send, the
/// log entry under our name, and one stored copy per peer with a UUID.
pub open spec fn send_spec(
    s: ChatSession,
    st: MessageSettings,
    image: Option<Seq<u8>>,
    now: UtcTime,
) -> (SessionView, Seq<EffectView>) {
    let v = s@;
    let appends = |msg: StoredMessageView| if st.store_messages {
        append_to_peers(v.chat.peer_uuids, s.chat.peer_uuids.key_seq(), msg)
    } else {
        Seq::empty()
    };
    match image {
        None => {
            let text = trim_spec(v.input_text);
            if text.len() == 0 {
                (v, Seq::empty())
            } else {
                (
                    SessionView {
                        input_text: Seq::empty(),
                        chat: with_entry(
                            v.chat,
                            EntryView::Text { sender: v.username, content: text, is_self: true, timestamp: now },
                        ),
                        ..v
                    },
                    seq![EffectView::Send(encode_spec(MessageView::Text(text)))] + appends(sent_message(text, None, now)),
                )
            }
        },
        Some(png) => (
            SessionView {
                chat: with_entry(
                    v.chat,
                    EntryView::Image { sender: v.username, png_data: png, is_self: true, timestamp: now },
                ),
                ..v
            },
            seq![EffectView::Send(encode_spec(MessageView::Image(png)))] + appends(sent_message(Seq::empty(), Some(png), now)),
        ),
    }
}

/// What one client sends when its typed text is not blank is read by the
/// other as that text (trimmed), and the other's log ends with it, under the
/// sender's display name.
pub proof fn lemma_sent_text_is_received(
    sender: ChatSession,
    st: MessageSettings,
    now: UtcTime,
    receiver: SessionView,
    st2: MessageSettings,
    peer: Seq<char>,
    now2: UtcTime,
)
    requires
        trim_spec(sender@.input_text).len() > 0,
    ensures
        ({
            let text = trim_spec(sender@.input_text);
            let sent = send_spec(sender, st, None, now).1;
            let got = handle_spec(receiver, st2, peer, MessageView::Text(text), now2).state;
            &&& sent.len() > 0
            &&& sent[0] == EffectView::Send(encode_spec(MessageView::Text(text)))
            &&& decode_spec(encode_spec(MessageView::Text(text))) == Some(MessageView::<Seq<u8>>::Text(text))
            &&& got.chat.entries.last() == (EntryView::Text {
                sender: display_name(receiver.chat, peer),
                content: text,
                is_self: false,
                timestamp: now2,
            })
        }),
{
    let text = trim_spec(sender@.input_text);
    crate::protocol::lemma_decode_encode(MessageView::Text(text));
}

/// An image one client sends is read by the other as the same bytes, and
/// shown at the end of its log when it accepts images.
pub proof fn lemma_sent_image_is_received(
    sender: ChatSession,
    st: MessageSettings,
    png: Seq<u8>,
    now: UtcTime,
    receiver: SessionView,
    st2: MessageSettings,
    peer: Seq<char>,
    now2: UtcTime,
)
    requires
        st2.images_enabled,
    ensures
        ({
            let sent = send_spec(sender, st, Some(png), now).1;
            let got = handle_spec(receiver, st2, peer, MessageView::Image(png), now2).state;
            &&& sent.len() > 0
            &&& sent[0] == EffectView::Send(encode_spec(MessageView::Image(png)))
            &&& decode_spec(encode_spec(MessageView::Image(png))) == Some(MessageView::<Seq<u8>>::Image(png))
            &&& got.chat.entries.last() == (EntryView::Image {
                sender: display_name(receiver.chat, peer),
                png_data: png,
                is_self: false,
                timestamp: now2,
            })
        }),
{
    crate::protocol::lemma_decode_encode(MessageView::Image(png));
}

/// A voice packet one client sends is read by the other as the same packet,
/// which it plays when voice is on.
pub proof fn lemma_sent_voice_is_played(
    packet: Seq<u8>,
    receiver: SessionView,
    st2: MessageSettings,
    peer: Seq<char>,
    now2: UtcTime,
)
    requires
        st2.voice_enabled,
    ensures
        decode_spec(encode_spec(MessageView::Voice(packet))) == Some(MessageView::<Seq<u8>>::Voice(packet)),
        handle_spec(receiver, st2, peer, MessageView::Voice(packet), now2).effects == seq![
            EffectView::PlayVoice { peer_id: peer, data: packet },
        ],
{
    crate::protocol::lemma_decode_encode(MessageView::Voice(packet));
}

/// What committing the profile editor does: the trimmed name becomes the
/// username (nothing happens when it is empty), the edited avatar, color and
/// trimmed bio take effect, and each is saved.
pub open spec fn commit_spec(s: SessionView, connecting: bool) -> (SessionView, Seq<ProfileEffectView>) {
    let name = trim_spec(s.edit_username);
    if name.len() == 0 {
        (s, Seq::empty())
    } else {
        let bio = trim_spec(s.edit_bio);
        (
            SessionView {
                username: name,
                avatar_png: s.edit_avatar_png,
                name_color: s.edit_name_color,
                bio: bio,
                screen: AppScreen::InSession,
                info_announced: false,
                ..s
            },
            seq![
                ProfileEffectView::SaveUsername(name),
                match s.edit_avatar_png {
                    Some(a) => ProfileEffectView::SaveAvatar(a),
                    None => ProfileEffectView::ClearAvatar,
                },
                ProfileEffectView::SaveNameColor(s.edit_name_color),
                ProfileEffectView::SaveBio(bio),
            ] + (if connecting {
                Seq::empty()
            } else {
                seq![ProfileEffectView::StartConnecting]
            }) + seq![ProfileEffectView::SaveConfig, ProfileEffectView::SyncStartupRegistry],
        )
    }
}

pub open spec fn profile_effects_view(v: Seq<ProfileEffect>) -> Seq<ProfileEffectView> {
    v.map_values(|e: ProfileEffect| e@)
}

/// Our voice packets, each framed for sending.
pub open spec fn voice_sends(packets: Seq<Vec<u8>>) -> Seq<EffectView> {
    packets.map_values(|p: Vec<u8>| EffectView::Send(encode_spec(MessageView::Voice(p@))))
}

/// Our webcam stops: its frame leaves the log and peers get an empty frame.
pub open spec fn stop_webcam_spec(s: SessionView) -> (SessionView, Seq<EffectView>) {
    (
        SessionView {
            chat: ChatHistoryView {
                peer_video_frames: s.chat.peer_video_frames.remove(LOCAL_WEBCAM_PEER_ID@),
                peer_video_last_seen: s.chat.peer_video_last_seen.remove(LOCAL_WEBCAM_PEER_ID@),
                ..s.chat
            },
            ..s
        },
        seq![EffectView::Send(encode_spec(MessageView::VideoFrame(Seq::empty())))],
    )
}

/// One tick of our webcam: stop when webcams were switched off while
/// streaming; otherwise show and send a new frame, then drop the webcams
/// that went quiet.
pub open spec fn webcam_tick_spec(
    s: SessionView,
    st: MessageSettings,
    streaming: bool,
    frame: Option<Seq<u8>>,
    now: UtcTime,
) -> (bool, SessionView, Seq<EffectView>) {
    if !st.webcam_enabled && streaming {
        (true, stop_webcam_spec(s).0, stop_webcam_spec(s).1)
    } else {
        let c1 = match frame {
            Some(f) => with_video_frame(s.chat, LOCAL_WEBCAM_PEER_ID@, f, now),
            None => s.chat,
        };
        (
            false,
            SessionView {
                chat: crate::chat::without_video(
                    c1,
                    crate::chat::stale_peers(c1, now, WEBCAM_FRAME_MAX_AGE_MS),
                ),
                ..s
            },
            match frame {
                Some(f) => seq![EffectView::Send(encode_spec(MessageView::VideoFrame(f)))],
                None => Seq::empty(),
            },
        )
    }
}

/// `webcam_quality.clamp(1, 100)`.
pub fn webcam_quality(q: u8) -> (r: u8)
    ensures
        r == (if q < 1 {
            1
        } else if q > 100 {
            100
        } else {
            q
        }),
{
    if q < 1 {
        1
    } else if q > 100 {
        100
    } else {
        q
    }
}

/// Whether push-to-talk counts as held: the key when push-to-talk is on,
/// always in open-mic mode.
pub fn ptt_held(use_ptt: bool, key_down: bool) -> (r: bool)
    ensures
        r == (!use_ptt || key_down),
{
    if use_ptt {
        key_down
    } else {
        true
    }
}

fn string_of(lit: &str) -> (r: String)
    ensures
        r@ == lit@,
{
    to_owned_string(lit)
}

impl ChatSession {
    /// Opens the profile editor on the current profile.
    pub fn start_profile_edit(&mut self)
        ensures
            final(self)@ == (SessionView {
                edit_username: old(self)@.username,
                edit_avatar_png: old(self)@.avatar_png,
                edit_name_color: old(self)@.name_color,
                edit_bio: old(self)@.bio,
                screen: AppScreen::Editing,
                ..old(self)@
            }),
    {
        self.edit_username = self.username.clone();
        self.edit_avatar_png = copy_opt_bytes(&self.avatar_png);
        self.edit_name_color = self.name_color;
        self.edit_bio = self.bio.clone();
        self.screen = AppScreen::Editing;
    }

    /// Commits the profile editor; `connecting` says whether a connection is
    /// already being made or up.
    pub fn commit_profile_edit(&mut self, connecting: bool) -> (r: Vec<ProfileEffect>)
        ensures
            commit_spec(old(self)@, connecting) == (final(self)@, profile_effects_view(r@)),
            trim_spec(old(self)@.edit_username).len() > 0 ==> final(self)@.avatar_png == old(self)@.edit_avatar_png
                && final(self)@.username == trim_spec(old(self)@.edit_username) && final(self)@.name_color == old(
                self,
            )@.edit_name_color && final(self)@.bio == trim_spec(old(self)@.edit_bio),
            trim_spec(old(self)@.edit_username).len() == 0 ==> final(self)@ == old(self)@ && r@.len() == 0,
    {
        let name = trim(self.edit_username.as_str());
        if name.as_str().is_empty() {
            assert(profile_effects_view(Seq::<ProfileEffect>::empty()) =~= Seq::<ProfileEffectView>::empty());
            return Vec::new();
        }
        let mut effects: Vec<ProfileEffect> = Vec::new();
        self.username = name.clone();
        effects.push(ProfileEffect::SaveUsername(name));
        self.avatar_png = copy_opt_bytes(&self.edit_avatar_png);
        match &self.avatar_png {
            Some(data) => effects.push(ProfileEffect::SaveAvatar(copy_bytes(data))),
            None => effects.push(ProfileEffect::ClearAvatar),
        }
        self.name_color = self.edit_name_color;
        effects.push(ProfileEffect::SaveNameColor(self.name_color));
        self.bio = trim(self.edit_bio.as_str());
        effects.push(ProfileEffect::SaveBio(self.bio.clone()));
        self.screen = AppScreen::InSession;
        self.info_announced = false;
        if !connecting {
            effects.push(ProfileEffect::StartConnecting);
        }
        effects.push(ProfileEffect::SaveConfig);
        effects.push(ProfileEffect::SyncStartupRegistry);
        assert(profile_effects_view(effects@) =~= commit_spec(old(self)@, connecting).1);
        effects
    }

    /// Our encoded voice packets: counted and sent when voice is on, dropped
    /// otherwise.
    pub fn drain_voice_packets(&mut self, settings: MessageSettings, packets: Vec<Vec<u8>>) -> (r: Vec<SessionEffect>)
        ensures
            settings.voice_enabled ==> final(self)@ == (SessionView {
                voice_packets_sent: sat_add_u64(old(self)@.voice_packets_sent, packets@.len() as int),
                ..old(self)@
            }) && effects_view(r@) == voice_sends(packets@),
            !settings.voice_enabled ==> final(self)@ == old(self)@ && r@.len() == 0,
    {
        if !settings.voice_enabled {
            return Vec::new();
        }
        self.voice_packets_sent = self.voice_packets_sent.saturating_add(packets.len() as u64);
        let mut effects: Vec<SessionEffect> = Vec::new();
        let mut i: usize = 0;
        while i < packets.len()
            invariant
                i <= packets@.len(),
                effects_view(effects@) == voice_sends(packets@.take(i as int)),
            decreases packets@.len() - i,
        {
            let msg: ChatMessage<Vec<u8>> = ChatMessage::Voice(copy_bytes(&packets[i]));
            let ghost before = effects@;
            let eff = SessionEffect::Send(msg.to_bytes());
            let ghost ev = eff@;
            effects.push(eff);
            proof {
                assert(effects_view(effects@) =~= effects_view(before).push(ev));
                assert(voice_sends(packets@.take(i + 1)) =~= voice_sends(packets@.take(i as int)).push(ev));
            }
            i = i + 1;
        }
        proof {
            assert(packets@.take(i as int) =~= packets@);
        }
        effects
    }

    /// Stops our webcam stream.
    pub fn stop_webcam_stream(&mut self) -> (r: Vec<SessionEffect>)
        ensures
            (final(self)@, effects_view(r@)) == stop_webcam_spec(old(self)@),
    {
        self.chat.remove_peer_video_frame(LOCAL_WEBCAM_PEER_ID);
        let msg: ChatMessage<Vec<u8>> = ChatMessage::VideoFrame(Vec::new());
        let mut effects: Vec<SessionEffect> = Vec::new();
        effects.push(SessionEffect::Send(msg.to_bytes()));
        assert(msg@ == MessageView::<Seq<u8>>::VideoFrame(Seq::empty()));
        assert(effects_view(effects@) =~= stop_webcam_spec(old(self)@).1);
        effects
    }

    /// One tick of our webcam at the current time; the flag says whether the
    /// stream must stop.
    pub fn poll_webcam_stream(
        &mut self,
        settings: MessageSettings,
        streaming: bool,
        frame: Option<Vec<u8>>,
    ) -> (r: (bool, Vec<SessionEffect>))
        ensures
            exists|now: UtcTime| #[trigger] webcam_tick_spec(old(self)@, settings, streaming, opt_bytes_view(frame), now)
                == (r.0, final(self)@, effects_view(r.1@)),
    {
        let now = utc_now();
        self.poll_webcam_stream_at(settings, streaming, frame, now)
    }

    pub fn poll_webcam_stream_at(
        &mut self,
        settings: MessageSettings,
        streaming: bool,
        frame: Option<Vec<u8>>,
        now: UtcTime,
    ) -> (r: (bool, Vec<SessionEffect>))
        ensures
            webcam_tick_spec(old(self)@, settings, streaming, opt_bytes_view(frame), now) == (
                r.0,
                final(self)@,
                effects_view(r.1@),
            ),
    {
        if !settings.webcam_enabled && streaming {
            let effects = self.stop_webcam_stream();
            return (true, effects);
        }
        let mut effects: Vec<SessionEffect> = Vec::new();
        match frame {
            Some(f) => {
                self.chat.set_peer_video_frame_at(LOCAL_WEBCAM_PEER_ID, copy_bytes(&f), now);
                let msg: ChatMessage<Vec<u8>> = ChatMessage::VideoFrame(f);
                effects.push(SessionEffect::Send(msg.to_bytes()));
            },
            None => {},
        }
        self.chat.prune_stale_peer_video_frames_at(WEBCAM_FRAME_MAX_AGE_MS, now);
        assert(effects_view(effects@) =~= webcam_tick_spec(old(self)@, settings, streaming, opt_bytes_view(frame), now).2);
        (false, effects)
    }

    /// The key under which a webcam box layout is remembered.
    pub fn webcam_layout_key(&self, peer_id: &str) -> (r: String)
        ensures
            r@ == layout_key_spec(self@, peer_id@),
    {
        if crate::text::str_eq(peer_id, LOCAL_WEBCAM_PEER_ID) {
            let mut k = string_of("self:");
            crate::text::append_str(&mut k, self.player_uuid.as_str());
            k
        } else {
            match self.chat.peer_uuids.get(peer_id) {
                Some(uuid) => {
                    let mut k = string_of("peer:");
                    crate::text::append_str(&mut k, uuid.as_str());
                    k
                },
                None => {
                    let mut k = string_of("node:");
                    crate::text::append_str(&mut k, peer_id);
                    k
                },
            }
        }
    }

    /// The status line shown under our name; `phase` counts half-seconds of
    /// UI time and animates the dots.
    pub fn connection_status_text(
        &self,
        has_session: bool,
        connecting: bool,
        state: Option<LinkState>,
        phase: u64,
    ) -> (r: Option<String>)
        ensures
            match r {
                Some(t) => status_spec(self@.joined, has_session, connecting, state, phase) == Some(t@),
                None => status_spec(self@.joined, has_session, connecting, state, phase) is None,
            },
    {
        if self.joined {
            return None;
        }
        if !has_session {
            if connecting {
                let dots = phase % 3 + 1;
                let mut t = string_of("waiting for game");
                let mut i: u64 = 0;
                while i < dots
                    invariant
                        i <= dots,
                        dots == phase % 3 + 1,
                        t@ == "waiting for game"@ + Seq::new(i as nat, |j: int| '.'),
                    decreases dots - i,
                {
                    crate::text::push_char(&mut t, '.');
                    i = i + 1;
                    assert(t@ =~= "waiting for game"@ + Seq::new(i as nat, |j: int| '.'));
                }
                return Some(t);
            }
            return None;
        }
        match state {
            Some(LinkState::Discovered) => Some(string_of("connecting...")),
            _ => Some(string_of("searching for peer...")),
        }
    }
}

// ---------------------------------------------------------------------------
// What the session steps are for, stated over their inputs
// ---------------------------------------------------------------------------

/// A received image, when images are shown: it ends the log under the
/// sender's display name; when messages are stored and the sender's UUID is
/// known, exactly one append goes to that UUID's conversation, holding the
/// received bytes as the peer's image stamped with the receive time; else
/// nothing is stored.
pub proof fn lemma_received_image_is_stored(
    s: SessionView,
    st: MessageSettings,
    peer: Seq<char>,
    data: Seq<u8>,
    now: UtcTime,
)
    requires
        st.images_enabled,
    ensures
        ({
            let out = handle_spec(s, st, peer, MessageView::Image(data), now);
            &&& out.state.chat.entries == s.chat.entries.push(
                EntryView::Image { sender: display_name(s.chat, peer), png_data: data, is_self: false, timestamp: now },
            )
            &&& (st.store_messages && s.chat.peer_uuids.contains_key(peer)) ==> out.effects == seq![
                EffectView::AppendMessage {
                    peer_uuid: s.chat.peer_uuids[peer],
                    message: StoredMessageView {
                        is_self: false,
                        content: Seq::empty(),
                        timestamp: now,
                        is_image: true,
                        image_data: data,
                    },
                },
            ]
            &&& !(st.store_messages && s.chat.peer_uuids.contains_key(peer)) ==> out.effects.len() == 0
        }),
{
}

/// A received text: it ends the log under the sender's display name; when
/// messages are stored and the sender's UUID is known, exactly one append
/// goes to that UUID's conversation, holding the text as the peer's message
/// stamped with the receive time; else nothing is stored.
pub proof fn lemma_received_text_is_stored(
    s: SessionView,
    st: MessageSettings,
    peer: Seq<char>,
    text: Seq<char>,
    now: UtcTime,
)
    ensures
        ({
            let out = handle_spec(s, st, peer, MessageView::Text(text), now);
            &&& out.state.chat.entries == s.chat.entries.push(
                EntryView::Text { sender: display_name(s.chat, peer), content: text, is_self: false, timestamp: now },
            )
            &&& (st.store_messages && s.chat.peer_uuids.contains_key(peer)) ==> out.effects == seq![
                EffectView::AppendMessage {
                    peer_uuid: s.chat.peer_uuids[peer],
                    message: StoredMessageView {
                        is_self: false,
                        content: text,
                        timestamp: now,
                        is_image: false,
                        image_data: Seq::empty(),
                    },
                },
            ]
            &&& !(st.store_messages && s.chat.peer_uuids.contains_key(peer)) ==> out.effects.len() == 0
        }),
{
}

/// Incoming events never change our own profile.
proof fn lemma_events_keep_profile(s: SessionView, st: MessageSettings, es: Seq<EventView>, now: UtcTime)
    ensures
        events_spec(s, st, es, now).state.username == s.username,
        events_spec(s, st, es, now).state.player_uuid == s.player_uuid,
        events_spec(s, st, es, now).state.avatar_png == s.avatar_png,
        events_spec(s, st, es, now).state.name_color == s.name_color,
        events_spec(s, st, es, now).state.bio == s.bio,
    decreases es.len(),
{
    if es.len() > 0 {
        lemma_events_keep_profile(s, st, es.drop_last(), now);
    }
}

/// A batch of events leaves our profile as it was; when it asks for any
/// reply, its effects end with one announcement of exactly our profile (name,
/// UUID, avatar, name color, bio) marked as a reply, after the effects of
/// the events themselves; when it asks for none, nothing is announced.
pub proof fn lemma_poll_replies_with_our_profile(
    s: SessionView,
    st: MessageSettings,
    es: Seq<EventView>,
    now: UtcTime,
)
    ensures
        ({
            let out = poll_spec(s, st, es, now);
            let steps = events_spec(s, st, es, now);
            &&& out.state.username == s.username
            &&& out.state.player_uuid == s.player_uuid
            &&& out.state.avatar_png == s.avatar_png
            &&& out.state.name_color == s.name_color
            &&& out.state.bio == s.bio
            &&& out.replies.len() > 0 ==> out.effects == steps.effects.push(
                EffectView::SendUserInfo(
                    UserInfoView {
                        name: s.username,
                        uuid: s.player_uuid,
                        avatar: s.avatar_png,
                        name_color: s.name_color,
                        bio: s.bio,
                        is_reply: true,
                    },
                ),
            )
            &&& out.replies.len() == 0 ==> out.effects == steps.effects
        }),
{
    lemma_events_keep_profile(s, st, es, now);
}

/// Sending typed text that is not blank: the first effect sends the trimmed
/// text; with storing off that is the only effect, and with storing on every
/// further effect appends that text, as our message stamped with the send
/// time, to a peer's conversation. Blank text does nothing.
pub proof fn lemma_send_text_effects(s: ChatSession, st: MessageSettings, now: UtcTime)
    ensures
        ({
            let text = trim_spec(s@.input_text);
            let out = send_spec(s, st, None, now);
            &&& text.len() == 0 ==> out.0 == s@ && out.1.len() == 0
            &&& text.len() > 0 ==> out.1.len() >= 1 && out.1[0] == EffectView::Send(
                encode_spec(MessageView::Text(text)),
            )
            &&& text.len() > 0 && !st.store_messages ==> out.1 == seq![
                EffectView::Send(encode_spec(MessageView::Text(text))),
            ]
            &&& text.len() > 0 && st.store_messages ==> forall|i: int|
                1 <= i < out.1.len() ==> (#[trigger] out.1[i] matches EffectView::AppendMessage { message, .. }
                    && message == (StoredMessageView {
                    is_self: true,
                    content: text,
                    timestamp: now,
                    is_image: false,
                    image_data: Seq::empty(),
                }))
        }),
{
    let text = trim_spec(s@.input_text);
    let out = send_spec(s, st, None, now);
    if text.len() > 0 && st.store_messages {
        let msg = sent_message(text, None, now);
        let apps = append_to_peers(s@.chat.peer_uuids, s.chat.peer_uuids.key_seq(), msg);
        assert(out.1 == seq![EffectView::Send(encode_spec(MessageView::Text(text)))] + apps);
        assert forall|i: int| 1 <= i < out.1.len() implies (#[trigger] out.1[i] matches EffectView::AppendMessage {
            message,
            ..
        } && message == (StoredMessageView {
            is_self: true,
            content: text,
            timestamp: now,
            is_image: false,
            image_data: Seq::empty(),
        })) by {
            assert(out.1[i] == apps[i - 1]);
        }
    }
}

/// Sending an image: the first effect sends the image; with storing off
/// that is the only effect, and with storing on every further effect appends
/// the image, as ours and stamped with the send time, to a peer's
/// conversation.
pub proof fn lemma_send_image_effects(s: ChatSession, st: MessageSettings, png: Seq<u8>, now: UtcTime)
    ensures
        ({
            let out = send_spec(s, st, Some(png), now);
            &&& out.1.len() >= 1 && out.1[0] == EffectView::Send(encode_spec(MessageView::Image(png)))
            &&& !st.store_messages ==> out.1 == seq![EffectView::Send(encode_spec(MessageView::Image(png)))]
            &&& st.store_messages ==> forall|i: int|
                1 <= i < out.1.len() ==> (#[trigger] out.1[i] matches EffectView::AppendMessage { message, .. }
                    && message == (StoredMessageView {
                    is_self: true,
                    content: Seq::empty(),
                    timestamp: now,
                    is_image: true,
                    image_data: png,
                }))
        }),
{
    let out = send_spec(s, st, Some(png), now);
    if st.store_messages {
        let msg = sent_message(Seq::empty(), Some(png), now);
        let apps = append_to_peers(s@.chat.peer_uuids, s.chat.peer_uuids.key_seq(), msg);
        assert(out.1 == seq![EffectView::Send(encode_spec(MessageView::Image(png)))] + apps);
        assert forall|i: int| 1 <= i < out.1.len() implies (#[trigger] out.1[i] matches EffectView::AppendMessage {
            message,
            ..
        } && message == (StoredMessageView {
            is_self: true,
            content: Seq::empty(),
            timestamp: now,
            is_image: true,
            image_data: png,
        })) by {
            assert(out.1[i] == apps[i - 1]);
        }
    }
}

/// Who a log entry is shown under (a notice has no sender).
pub open spec fn entry_sender(e: EntryView) -> Seq<char> {
    match e {
        EntryView::Text { sender, .. } => sender,
        EntryView::Image { sender, .. } => sender,
        EntryView::System { .. } => Seq::empty(),
    }
}

/// Loading a stored conversation, with storing on, appends one log entry
/// per stored message, in order, after the entries already there: one of
/// ours under our username and one of the peer's under the stored peer
/// name, images and texts alike; an image entry holds the stored image, a
/// text entry the stored text, and each keeps whether it was ours.
pub proof fn lemma_past_messages_senders(
    c: ChatHistoryView,
    st: MessageSettings,
    cv: ConversationView,
    self_name: Seq<char>,
)
    requires
        st.store_messages,
    ensures
        ({
            let after = past_messages_spec(c, st, Some(cv), self_name);
            &&& after.entries.len() == c.entries.len() + cv.messages.len()
            &&& forall|i: int| 0 <= i < c.entries.len() ==> #[trigger] after.entries[i] == c.entries[i]
            &&& forall|i: int|
                0 <= i < cv.messages.len() ==> {
                    let m = #[trigger] cv.messages[i];
                    let e = after.entries[c.entries.len() + i];
                    &&& m.is_self ==> entry_sender(e) == self_name
                    &&& !m.is_self ==> entry_sender(e) == cv.peer.name
                    &&& m.is_image ==> (e matches EntryView::Image { png_data, is_self, .. } && png_data
                        == m.image_data && is_self == m.is_self)
                    &&& !m.is_image ==> (e matches EntryView::Text { content, is_self, .. } && content
                        == m.content && is_self == m.is_self)
                }
        }),
{
    let after = past_messages_spec(c, st, Some(cv), self_name);
    if cv.messages.len() == 0 {
        assert(after.entries == c.entries);
    } else {
        let added = cv.messages.map_values(|m: StoredMessageView| history_entry(m, self_name, cv.peer.name));
        assert(after.entries == c.entries + added);
        assert forall|i: int| 0 <= i < cv.messages.len() implies ({
            let m = #[trigger] cv.messages[i];
            let e = after.entries[c.entries.len() + i];
            &&& m.is_self ==> entry_sender(e) == self_name
            &&& !m.is_self ==> entry_sender(e) == cv.peer.name
            &&& m.is_image ==> (e matches EntryView::Image { png_data, is_self, .. } && png_data
                == m.image_data && is_self == m.is_self)
            &&& !m.is_image ==> (e matches EntryView::Text { content, is_self, .. } && content
                == m.content && is_self == m.is_self)
        }) by {
            assert(after.entries[c.entries.len() + i] == added[i]);
        }
    }
}

/// Committing the editor with a name that is not blank once trimmed: the
/// trimmed name, the edited avatar (a removed one included), the edited
/// name color and the trimmed bio become the profile, and the avatar effect
/// saves the edited avatar or clears the stored one when it was removed. A
/// blank name changes nothing.
pub proof fn lemma_commit_takes_edits(s: SessionView, connecting: bool)
    ensures
        ({
            let out = commit_spec(s, connecting);
            &&& trim_spec(s.edit_username).len() == 0 ==> out.0 == s && out.1.len() == 0
            &&& trim_spec(s.edit_username).len() > 0 ==> {
                &&& out.0.username == trim_spec(s.edit_username)
                &&& out.0.avatar_png == s.edit_avatar_png
                &&& out.0.name_color == s.edit_name_color
                &&& out.0.bio == trim_spec(s.edit_bio)
                &&& out.1.len() >= 2
                &&& out.1[0] == ProfileEffectView::SaveUsername(trim_spec(s.edit_username))
                &&& s.edit_avatar_png is None ==> out.1[1] == ProfileEffectView::ClearAvatar
                &&& s.edit_avatar_png matches Some(a) ==> out.1[1] == ProfileEffectView::SaveAvatar(a)
            }
        }),
{
}
} // verus!
