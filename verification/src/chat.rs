//! The chat log and what is known of each peer.

use vstd::prelude::*;
use vstd::utf8::*;
use vstd::string::StringSliceAdditionalSpecFns;
use crate::clock::{UtcTime, utc_now, older_than, is_older_than};
use crate::peer_map::PeerMap;
use crate::text::{to_owned_string, push_char};

verus! {

broadcast use {vstd::utf8::group_utf8_lib, vstd::string::group_string_axioms};

/// A single entry in the chat log.
pub enum ChatEntry {
    /// A text message from a peer.
    Text { sender: String, content: String, is_self: bool, timestamp: UtcTime },
    /// An image shared by a peer (PNG bytes).
    Image { sender: String, png_data: Vec<u8>, is_self: bool, timestamp: UtcTime },
    /// System/status message (peer joined, etc.)
    System { msg: String, timestamp: UtcTime },
}

pub enum EntryView {
    Text { sender: Seq<char>, content: Seq<char>, is_self: bool, timestamp: UtcTime },
    Image { sender: Seq<char>, png_data: Seq<u8>, is_self: bool, timestamp: UtcTime },
    System { msg: Seq<char>, timestamp: UtcTime },
}

impl View for ChatEntry {
    type V = EntryView;

    open spec fn view(&self) -> EntryView {
        match self {
            ChatEntry::Text { sender, content, is_self, timestamp } => EntryView::Text {
                sender: sender@,
                content: content@,
                is_self: *is_self,
                timestamp: *timestamp,
            },
            ChatEntry::Image { sender, png_data, is_self, timestamp } => EntryView::Image {
                sender: sender@,
                png_data: png_data@,
                is_self: *is_self,
                timestamp: *timestamp,
            },
            ChatEntry::System { msg, timestamp } => EntryView::System {
                msg: msg@,
                timestamp: *timestamp,
            },
        }
    }
}

/// Manages the chat history and what is known of each peer, by peer node id.
pub struct ChatHistory {
    pub entries: Vec<ChatEntry>,
    /// Display name of each peer.
    pub peer_names: PeerMap<String>,
    /// Avatar PNG bytes of each peer.
    pub peer_avatars: PeerMap<Vec<u8>>,
    /// Name color of each peer.
    pub peer_colors: PeerMap<[u8; 3]>,
    /// Biography of each peer.
    pub peer_bios: PeerMap<String>,
    /// Persistent UUID of each peer.
    pub peer_uuids: PeerMap<String>,
    /// Latest webcam frame from each peer (JPEG bytes).
    pub peer_video_frames: PeerMap<Vec<u8>>,
    /// Last time a webcam frame was seen for each peer.
    pub peer_video_last_seen: PeerMap<UtcTime>,
    /// Whether we should auto-scroll to bottom.
    pub scroll_to_bottom: bool,
}

pub struct ChatHistoryView {
    pub entries: Seq<EntryView>,
    pub peer_names: Map<Seq<char>, Seq<char>>,
    pub peer_avatars: Map<Seq<char>, Seq<u8>>,
    pub peer_colors: Map<Seq<char>, Seq<u8>>,
    pub peer_bios: Map<Seq<char>, Seq<char>>,
    pub peer_uuids: Map<Seq<char>, Seq<char>>,
    pub peer_video_frames: Map<Seq<char>, Seq<u8>>,
    pub peer_video_last_seen: Map<Seq<char>, UtcTime>,
    pub scroll_to_bottom: bool,
}

impl View for ChatHistory {
    type V = ChatHistoryView;

    open spec fn view(&self) -> ChatHistoryView {
        ChatHistoryView {
            entries: self.entries@.map_values(|e: ChatEntry| e@),
            peer_names: self.peer_names@,
            peer_avatars: self.peer_avatars@,
            peer_colors: self.peer_colors@,
            peer_bios: self.peer_bios@,
            peer_uuids: self.peer_uuids@,
            peer_video_frames: self.peer_video_frames@,
            peer_video_last_seen: self.peer_video_last_seen@,
            scroll_to_bottom: self.scroll_to_bottom,
        }
    }
}

/// The log after one more entry, which asks for a scroll to the bottom.
pub open spec fn with_entry(h: ChatHistoryView, e: EntryView) -> ChatHistoryView {
    ChatHistoryView { entries: h.entries.push(e), scroll_to_bottom: true, ..h }
}

pub open spec fn joined_text(name: Seq<char>) -> Seq<char> {
    name + seq![' ', 'j', 'o', 'i', 'n', 'e', 'd']
}

/// `set_peer_name`: records the name, and logs "<name> joined" unless the
/// peer already had exactly that name.
pub open spec fn with_peer_name(
    h: ChatHistoryView,
    peer_id: Seq<char>,
    name: Seq<char>,
    now: UtcTime,
) -> ChatHistoryView {
    let named = ChatHistoryView { peer_names: h.peer_names.insert(peer_id, name), ..h };
    if h.peer_names.contains_key(peer_id) && h.peer_names[peer_id] == name {
        named
    } else {
        with_entry(named, EntryView::System { msg: joined_text(name), timestamp: now })
    }
}

/// A peer id that `peer_display_name` can shorten: at most 8 bytes, or a
/// character boundary after the 8th byte.
pub open spec fn short_id_ok(id: Seq<char>) -> bool {
    encode_utf8(id).len() <= 8 || is_char_boundary(encode_utf8(id), 8)
}

/// The first 8 bytes of the id followed by `...`, or the id itself when it is
/// no longer than 8 bytes.
pub open spec fn short_id(id: Seq<char>) -> Seq<char> {
    if encode_utf8(id).len() > 8 {
        decode_utf8(encode_utf8(id).take(8)) + seq!['.', '.', '.']
    } else {
        id
    }
}

/// The name under which a peer is shown.
pub open spec fn display_name(h: ChatHistoryView, peer_id: Seq<char>) -> Seq<char> {
    if h.peer_names.contains_key(peer_id) {
        h.peer_names[peer_id]
    } else {
        short_id(peer_id)
    }
}

pub open spec fn can_display(h: ChatHistoryView, peer_id: Seq<char>) -> bool {
    h.peer_names.contains_key(peer_id) || short_id_ok(peer_id)
}

/// A peer's latest webcam frame, seen at `now`.
pub open spec fn with_video_frame(
    h: ChatHistoryView,
    peer_id: Seq<char>,
    jpeg: Seq<u8>,
    now: UtcTime,
) -> ChatHistoryView {
    ChatHistoryView {
        peer_video_frames: h.peer_video_frames.insert(peer_id, jpeg),
        peer_video_last_seen: h.peer_video_last_seen.insert(peer_id, now),
        ..h
    }
}

/// The peers whose last webcam frame is older than `max_age_ms`.
pub open spec fn stale_peers(h: ChatHistoryView, now: UtcTime, max_age_ms: u64) -> Set<Seq<char>> {
    h.peer_video_last_seen.dom().filter(
        |k: Seq<char>| older_than(now, h.peer_video_last_seen[k], max_age_ms),
    )
}

/// The webcam state of the peers in `gone` is forgotten.
pub open spec fn without_video(h: ChatHistoryView, gone: Set<Seq<char>>) -> ChatHistoryView {
    ChatHistoryView {
        peer_video_frames: h.peer_video_frames.remove_keys(gone),
        peer_video_last_seen: h.peer_video_last_seen.remove_keys(gone),
        ..h
    }
}

/// The history of a fresh chat: no entries, nothing known of any peer.
pub open spec fn empty_history() -> ChatHistoryView {
    ChatHistoryView {
        entries: Seq::empty(),
        peer_names: Map::empty(),
        peer_avatars: Map::empty(),
        peer_colors: Map::empty(),
        peer_bios: Map::empty(),
        peer_uuids: Map::empty(),
        peer_video_frames: Map::empty(),
        peer_video_last_seen: Map::empty(),
        scroll_to_bottom: false,
    }
}

impl ChatHistory {
    pub fn new() -> (r: Self)
        ensures
            r@.entries == Seq::<EntryView>::empty(),
            r@.peer_names == Map::<Seq<char>, Seq<char>>::empty(),
            r@.peer_avatars == Map::<Seq<char>, Seq<u8>>::empty(),
            r@.peer_colors == Map::<Seq<char>, Seq<u8>>::empty(),
            r@.peer_bios == Map::<Seq<char>, Seq<char>>::empty(),
            r@.peer_uuids == Map::<Seq<char>, Seq<char>>::empty(),
            r@.peer_video_frames == Map::<Seq<char>, Seq<u8>>::empty(),
            r@.peer_video_last_seen == Map::<Seq<char>, UtcTime>::empty(),
            !r@.scroll_to_bottom,
    {
        let r = ChatHistory {
            entries: Vec::new(),
            peer_names: PeerMap::new(),
            peer_avatars: PeerMap::new(),
            peer_colors: PeerMap::new(),
            peer_bios: PeerMap::new(),
            peer_uuids: PeerMap::new(),
            peer_video_frames: PeerMap::new(),
            peer_video_last_seen: PeerMap::new(),
            scroll_to_bottom: false,
        };
        assert(r@.entries =~= Seq::<EntryView>::empty());
        r
    }

    fn push_entry(&mut self, e: ChatEntry)
        ensures
            final(self)@ == with_entry(old(self)@, e@),
    {
        self.entries.push(e);
        self.scroll_to_bottom = true;
        assert(final(self)@.entries =~= old(self)@.entries.push(e@));
    }

    /// Logs a text message stamped with the current time.
    pub fn add_text(&mut self, sender: &str, content: &str, is_self: bool)
        ensures
            exists|t: UtcTime|
                final(self)@ == with_entry(
                    old(self)@,
                    EntryView::Text { sender: sender@, content: content@, is_self, timestamp: t },
                ),
    {
        let now = utc_now();
        self.add_text_with_time(sender, content, is_self, now);
    }

    pub fn add_text_with_time(&mut self, sender: &str, content: &str, is_self: bool, timestamp: UtcTime)
        ensures
            final(self)@ == with_entry(
                old(self)@,
                EntryView::Text { sender: sender@, content: content@, is_self, timestamp },
            ),
    {
        self.push_entry(
            ChatEntry::Text {
                sender: to_owned_string(sender),
                content: to_owned_string(content),
                is_self,
                timestamp,
            },
        );
    }

    /// Logs an image stamped with the current time.
    pub fn add_image(&mut self, sender: &str, png_data: Vec<u8>, is_self: bool)
        ensures
            exists|t: UtcTime|
                final(self)@ == with_entry(
                    old(self)@,
                    EntryView::Image { sender: sender@, png_data: png_data@, is_self, timestamp: t },
                ),
    {
        let now = utc_now();
        self.add_image_with_time(sender, png_data, is_self, now);
    }

    pub fn add_image_with_time(
        &mut self,
        sender: &str,
        png_data: Vec<u8>,
        is_self: bool,
        timestamp: UtcTime,
    )
        ensures
            final(self)@ == with_entry(
                old(self)@,
                EntryView::Image { sender: sender@, png_data: png_data@, is_self, timestamp },
            ),
    {
        self.push_entry(
            ChatEntry::Image { sender: to_owned_string(sender), png_data, is_self, timestamp },
        );
    }

    /// Logs a status line stamped with the current time.
    pub fn add_system(&mut self, msg: &str)
        ensures
            exists|t: UtcTime|
                final(self)@ == with_entry(old(self)@, EntryView::System { msg: msg@, timestamp: t }),
    {
        let now = utc_now();
        self.add_system_at(msg, now);
    }

    pub fn add_system_at(&mut self, msg: &str, timestamp: UtcTime)
        ensures
            final(self)@ == with_entry(old(self)@, EntryView::System { msg: msg@, timestamp }),
    {
        self.push_entry(ChatEntry::System { msg: to_owned_string(msg), timestamp });
    }

    /// Whether `peer_display_name` can name this peer: it has a name, or its
    /// id can be cut after 8 bytes.
    pub fn can_display_peer(&self, peer_id: &str) -> (r: bool)
        ensures
            r == can_display(self@, peer_id@),
    {
        self.peer_names.contains_key(peer_id) || peer_id.as_bytes().len() <= 8 || peer_id.is_char_boundary(8)
    }

    /// Resolve a peer ID to their display name, or a short fallback built
    /// from the id.
    pub fn peer_display_name(&self, peer_id: &str) -> (r: String)
        requires
            can_display(self@, peer_id@),
        ensures
            r@ == display_name(self@, peer_id@),
    {
        match self.peer_names.get(peer_id) {
            Some(name) => {
                let r = name.clone();
                assert(r@ == self@.peer_names[peer_id@]);
                assert(self@.peer_names.contains_key(peer_id@));
                assert(r@ == display_name(self@, peer_id@));
                r
            },
            None => {
                if peer_id.as_bytes().len() > 8 {
                    let (head, _) = peer_id.split_at(8);
                    proof {
                        encode_utf8_decode_utf8(head@);
                        assert(head.spec_bytes() =~= encode_utf8(peer_id@).take(8));
                        assert(head@ == decode_utf8(encode_utf8(peer_id@).take(8)));
                    }
                    let mut r = to_owned_string(head);
                    push_char(&mut r, '.');
                    push_char(&mut r, '.');
                    push_char(&mut r, '.');
                    assert(r@ =~= short_id(peer_id@));
                    assert(r@ == display_name(self@, peer_id@));
                    r
                } else {
                    let r = to_owned_string(peer_id);
                    assert(r@ == display_name(self@, peer_id@));
                    r
                }
            },
        }
    }

    /// Records a peer's name; a new or changed name is announced in the log.
    pub fn set_peer_name(&mut self, peer_id: &str, name: &str)
        ensures
            exists|t: UtcTime| final(self)@ == with_peer_name(old(self)@, peer_id@, name@, t),
    {
        let now = utc_now();
        self.set_peer_name_at(peer_id, name, now);
    }

    pub fn set_peer_name_at(&mut self, peer_id: &str, name: &str, now: UtcTime)
        ensures
            final(self)@ == with_peer_name(old(self)@, peer_id@, name@, now),
    {
        let same = match self.peer_names.get(peer_id) {
            Some(old_name) => crate::text::str_eq(old_name.as_str(), name),
            None => false,
        };
        self.peer_names.insert(to_owned_string(peer_id), to_owned_string(name));
        if !same {
            let mut msg = to_owned_string(name);
            crate::text::append_str(&mut msg, " joined");
            proof {
                reveal_strlit(" joined");
            }
            assert(msg@ =~= joined_text(name@));
            self.add_system_at(msg.as_str(), now);
        }
    }

    pub fn set_peer_avatar(&mut self, peer_id: &str, png_data: Vec<u8>)
        ensures
            final(self)@ == (ChatHistoryView {
                peer_avatars: old(self)@.peer_avatars.insert(peer_id@, png_data@),
                ..old(self)@
            }),
    {
        self.peer_avatars.insert(to_owned_string(peer_id), png_data);
    }

    pub fn set_peer_color(&mut self, peer_id: &str, color: [u8; 3])
        ensures
            final(self)@ == (ChatHistoryView {
                peer_colors: old(self)@.peer_colors.insert(peer_id@, color@),
                ..old(self)@
            }),
    {
        self.peer_colors.insert(to_owned_string(peer_id), color);
    }

    pub fn set_peer_bio(&mut self, peer_id: &str, bio: &str)
        ensures
            final(self)@ == (ChatHistoryView {
                peer_bios: old(self)@.peer_bios.insert(peer_id@, bio@),
                ..old(self)@
            }),
    {
        self.peer_bios.insert(to_owned_string(peer_id), to_owned_string(bio));
    }

    pub fn set_peer_uuid(&mut self, peer_id: &str, uuid: &str)
        ensures
            final(self)@ == (ChatHistoryView {
                peer_uuids: old(self)@.peer_uuids.insert(peer_id@, uuid@),
                ..old(self)@
            }),
    {
        self.peer_uuids.insert(to_owned_string(peer_id), to_owned_string(uuid));
    }

    /// Stores a peer's latest webcam frame, seen now.
    pub fn set_peer_video_frame(&mut self, peer_id: &str, jpeg_data: Vec<u8>)
        ensures
            exists|t: UtcTime|
                final(self)@ == #[trigger] with_video_frame(old(self)@, peer_id@, jpeg_data@, t),
    {
        let now = utc_now();
        self.set_peer_video_frame_at(peer_id, jpeg_data, now);
    }

    pub fn set_peer_video_frame_at(&mut self, peer_id: &str, jpeg_data: Vec<u8>, now: UtcTime)
        ensures
            final(self)@ == with_video_frame(old(self)@, peer_id@, jpeg_data@, now),
    {
        self.peer_video_frames.insert(to_owned_string(peer_id), jpeg_data);
        self.peer_video_last_seen.insert(to_owned_string(peer_id), now);
    }

    pub fn remove_peer_video_frame(&mut self, peer_id: &str)
        ensures
            final(self)@ == (ChatHistoryView {
                peer_video_frames: old(self)@.peer_video_frames.remove(peer_id@),
                peer_video_last_seen: old(self)@.peer_video_last_seen.remove(peer_id@),
                ..old(self)@
            }),
    {
        self.peer_video_frames.remove(peer_id);
        self.peer_video_last_seen.remove(peer_id);
    }

    /// Forgets the webcam of every peer whose last frame is older than
    /// `max_age_ms` milliseconds.
    pub fn prune_stale_peer_video_frames(&mut self, max_age_ms: u64)
        ensures
            exists|t: UtcTime| final(self)@ == without_video(old(self)@, stale_peers(old(self)@, t, max_age_ms)),
    {
        let now = utc_now();
        self.prune_stale_peer_video_frames_at(max_age_ms, now);
    }

    pub fn prune_stale_peer_video_frames_at(&mut self, max_age_ms: u64, now: UtcTime)
        ensures
            final(self)@ == without_video(old(self)@, stale_peers(old(self)@, now, max_age_ms)),
    {
        let ghost h0 = self@;
        let ghost gone = stale_peers(h0, now, max_age_ms);
        let keys = self.peer_video_last_seen.keys();
        let ghost ks = self.peer_video_last_seen.key_seq();
        let mut i: usize = 0;
        proof {
            let none = gone.filter(|k: Seq<char>| exists|j: int| 0 <= j < 0 && ks[j] == k);
            assert(none =~= Set::<Seq<char>>::empty());
            assert(h0.peer_video_frames.remove_keys(none) =~= h0.peer_video_frames);
            assert(h0.peer_video_last_seen.remove_keys(none) =~= h0.peer_video_last_seen);
        }
        while i < keys.len()
            invariant
                i <= keys@.len(),
                keys@.len() == ks.len(),
                forall|j: int| 0 <= j < keys@.len() ==> (#[trigger] keys@[j])@ == ks[j],
                ks.no_duplicates(),
                forall|k: Seq<char>| #[trigger] h0.peer_video_last_seen.contains_key(k) <==> ks.contains(k),
                gone == stale_peers(h0, now, max_age_ms),
                self@ == without_video(
                    h0,
                    gone.filter(|k: Seq<char>| exists|j: int| 0 <= j < i && ks[j] == k),
                ),
            decreases keys@.len() - i,
        {
            let ghost done = gone.filter(|k: Seq<char>| exists|j: int| 0 <= j < i && ks[j] == k);
            let ghost done2 = gone.filter(|k: Seq<char>| exists|j: int| 0 <= j < i + 1 && ks[j] == k);
            let k = &keys[i];
            assert(h0.peer_video_last_seen.contains_key(k@)) by {
                assert(ks[i as int] == k@);
            }
            assert(!done.contains(k@)) by {
                if done.contains(k@) {
                    let j = choose|j: int| 0 <= j < i && ks[j] == k@;
                    assert(ks[j] == ks[i as int]);
                }
            }
            assert(self@.peer_video_last_seen.contains_key(k@));
            let seen = *self.peer_video_last_seen.get(k.as_str()).unwrap();
            assert(seen == h0.peer_video_last_seen[k@]);
            if is_older_than(now, seen, max_age_ms) {
                assert(gone.contains(k@));
                self.remove_peer_video_frame(k.as_str());
                assert(done2 =~= done.insert(k@)) by {
                    assert forall|x: Seq<char>| done2.contains(x) implies done.insert(x).contains(x) || x == k@ by {
                    }
                    assert forall|x: Seq<char>| done.insert(k@).contains(x) implies #[trigger] done2.contains(x) by {
                        if x == k@ {
                            assert(ks[i as int] == k@);
                        } else {
                            let j = choose|j: int| 0 <= j < i && ks[j] == x;
                            assert(0 <= j < i + 1 && ks[j] == x);
                        }
                    }
                }
                assert(self@.peer_video_frames =~= h0.peer_video_frames.remove_keys(done2));
                assert(self@.peer_video_last_seen =~= h0.peer_video_last_seen.remove_keys(done2));
            } else {
                assert(!gone.contains(k@));
                assert(done2 =~= done) by {
                    assert forall|x: Seq<char>| #[trigger] done2.contains(x) implies done.contains(x) by {
                        let j = choose|j: int| 0 <= j < i + 1 && ks[j] == x;
                        if j == i {
                            assert(x == k@);
                        }
                    }
                }
            }
            i = i + 1;
        }
        assert(gone.filter(|k: Seq<char>| exists|j: int| 0 <= j < i && ks[j] == k) =~= gone) by {
            assert forall|x: Seq<char>| #[trigger] gone.contains(x) implies exists|j: int|
                0 <= j < i && ks[j] == x by {
                assert(ks.contains(x));
            }
        }
    }
}

} // verus!
