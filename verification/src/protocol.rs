//! The chat wire format: one tag byte followed by the payload.
//!
//! A profile announcement travels as the JSON text of a [`UserInfo`]; this
//! module frames and unframes those bytes, and the client turns them into a
//! `UserInfo` value.

use vstd::prelude::*;
use vstd::utf8::*;

verus! {

broadcast use {vstd::utf8::group_utf8_lib, vstd::string::group_string_axioms};

/// Tag bytes for message types on the wire.
pub const TAG_USER_INFO: u8 = 0x01;
pub const TAG_TEXT: u8 = 0x02;
pub const TAG_IMAGE: u8 = 0x03;
pub const TAG_VIDEO_FRAME: u8 = 0x04;
pub const TAG_VOICE: u8 = 0x05;

/// Profile/identity payload bundled into a single message.
pub struct UserInfo {
    pub name: String,
    /// Persistent player UUID (survives name/avatar changes).
    pub uuid: String,
    /// 128x128 PNG avatar bytes (optional).
    pub avatar: Option<Vec<u8>>,
    /// RGB name color.
    pub name_color: [u8; 3],
    /// Biography text (may be empty).
    pub bio: String,
    /// `true` = this is a reply to someone else's announcement (peer was already here).
    /// `false` = this is a fresh join announcement (new peer entering the session).
    pub is_reply: bool,
}

pub struct UserInfoView {
    pub name: Seq<char>,
    pub uuid: Seq<char>,
    pub avatar: Option<Seq<u8>>,
    pub name_color: [u8; 3],
    pub bio: Seq<char>,
    pub is_reply: bool,
}

pub open spec fn opt_bytes_view(o: Option<Vec<u8>>) -> Option<Seq<u8>> {
    match o {
        Some(v) => Some(v@),
        None => None,
    }
}

impl View for UserInfo {
    type V = UserInfoView;

    open spec fn view(&self) -> UserInfoView {
        UserInfoView {
            name: self.name@,
            uuid: self.uuid@,
            avatar: opt_bytes_view(self.avatar),
            name_color: self.name_color,
            bio: self.bio@,
            is_reply: self.is_reply,
        }
    }
}

/// Application-level chat message (after parsing the tag byte).
///
/// `U` is the form of the profile announcement: on the wire it is the JSON
/// text (`ChatMessage<Vec<u8>>`); once the client has decoded it, it is a
/// [`UserInfo`] (`ChatMessage<UserInfo>`).
pub enum ChatMessage<U> {
    /// Bundled user identity announcement / reply.
    UserInfo(U),
    Text(String),
    /// PNG bytes.
    Image(Vec<u8>),
    /// JPEG bytes; an empty payload means the stream stopped.
    VideoFrame(Vec<u8>),
    /// Opus packet.
    Voice(Vec<u8>),
}

/// A message as it travels, with the profile still in its JSON form.
pub type WireMessage = ChatMessage<Vec<u8>>;

pub enum MessageView<P> {
    UserInfo(P),
    Text(Seq<char>),
    Image(Seq<u8>),
    VideoFrame(Seq<u8>),
    Voice(Seq<u8>),
}

impl<U: View> View for ChatMessage<U> {
    type V = MessageView<U::V>;

    open spec fn view(&self) -> MessageView<U::V> {
        match self {
            ChatMessage::UserInfo(u) => MessageView::UserInfo(u@),
            ChatMessage::Text(s) => MessageView::Text(s@),
            ChatMessage::Image(b) => MessageView::Image(b@),
            ChatMessage::VideoFrame(b) => MessageView::VideoFrame(b@),
            ChatMessage::Voice(b) => MessageView::Voice(b@),
        }
    }
}

/// The tag byte of a message.
pub open spec fn tag_of<P>(m: MessageView<P>) -> u8 {
    match m {
        MessageView::UserInfo(_) => TAG_USER_INFO,
        MessageView::Text(_) => TAG_TEXT,
        MessageView::Image(_) => TAG_IMAGE,
        MessageView::VideoFrame(_) => TAG_VIDEO_FRAME,
        MessageView::Voice(_) => TAG_VOICE,
    }
}

/// The payload bytes of a message: text travels as UTF-8.
pub open spec fn payload_of(m: MessageView<Seq<u8>>) -> Seq<u8> {
    match m {
        MessageView::UserInfo(json) => json,
        MessageView::Text(s) => encode_utf8(s),
        MessageView::Image(b) => b,
        MessageView::VideoFrame(b) => b,
        MessageView::Voice(b) => b,
    }
}

/// Wire format: `[tag][payload]`.
pub open spec fn encode_spec(m: MessageView<Seq<u8>>) -> Seq<u8> {
    seq![tag_of(m)] + payload_of(m)
}

/// What a received frame decodes to: `None` for an empty frame, an unknown
/// tag, or a text payload that is not UTF-8.
pub open spec fn decode_spec(b: Seq<u8>) -> Option<MessageView<Seq<u8>>> {
    if b.len() == 0 {
        None
    } else {
        let payload = b.drop_first();
        if b[0] == TAG_USER_INFO {
            Some(MessageView::UserInfo(payload))
        } else if b[0] == TAG_TEXT {
            if valid_utf8(payload) {
                Some(MessageView::Text(decode_utf8(payload)))
            } else {
                None
            }
        } else if b[0] == TAG_IMAGE {
            Some(MessageView::Image(payload))
        } else if b[0] == TAG_VIDEO_FRAME {
            Some(MessageView::VideoFrame(payload))
        } else if b[0] == TAG_VOICE {
            Some(MessageView::Voice(payload))
        } else {
            None
        }
    }
}

/// Appends a copy of `src` to `out`.
pub fn extend_bytes(out: &mut Vec<u8>, src: &[u8])
    ensures
        final(out)@ == old(out)@ + src@,
{
    let mut i: usize = 0;
    while i < src.len()
        invariant
            i <= src@.len(),
            out@ == old(out)@ + src@.take(i as int),
        decreases src@.len() - i,
    {
        out.push(src[i]);
        i = i + 1;
        assert(src@.take(i as int) =~= src@.take(i - 1).push(src@[i - 1]));
    }
    assert(src@.take(src@.len() as int) =~= src@);
}

/// `[tag][payload]` as one buffer.
pub fn frame(tag: u8, payload: &[u8]) -> (r: Vec<u8>)
    ensures
        r@ == seq![tag] + payload@,
{
    let mut buf: Vec<u8> = Vec::new();
    buf.push(tag);
    extend_bytes(&mut buf, payload);
    assert(buf@ =~= seq![tag] + payload@);
    buf
}

/// `String::from_utf8`: the text that `bytes` encode, if they are UTF-8.
#[verifier::external_body]
fn string_from_utf8(bytes: &[u8]) -> (r: Option<String>)
    ensures
        r is Some <==> valid_utf8(bytes@),
        r matches Some(s) ==> s@ == decode_utf8(bytes@),
{
    String::from_utf8(bytes.to_vec()).ok()
}

/// The bytes after the tag.
fn payload_copy(bytes: &[u8]) -> (r: Vec<u8>)
    requires
        bytes@.len() >= 1,
    ensures
        r@ == bytes@.drop_first(),
{
    let mut out: Vec<u8> = Vec::new();
    let mut i: usize = 1;
    while i < bytes.len()
        invariant
            1 <= i <= bytes@.len(),
            out@ == bytes@.subrange(1, i as int),
        decreases bytes@.len() - i,
    {
        out.push(bytes[i]);
        i = i + 1;
        assert(out@ =~= bytes@.subrange(1, i as int));
    }
    assert(bytes@.subrange(1, bytes@.len() as int) =~= bytes@.drop_first());
    out
}

impl ChatMessage<Vec<u8>> {
    /// Serialize to wire format: [tag][payload]
    pub fn to_bytes(&self) -> (r: Vec<u8>)
        ensures
            r@ == encode_spec(self@),
    {
        match self {
            ChatMessage::UserInfo(json) => frame(TAG_USER_INFO, json.as_slice()),
            ChatMessage::Text(text) => frame(TAG_TEXT, text.as_str().as_bytes()),
            ChatMessage::Image(data) => frame(TAG_IMAGE, data.as_slice()),
            ChatMessage::VideoFrame(data) => frame(TAG_VIDEO_FRAME, data.as_slice()),
            ChatMessage::Voice(data) => frame(TAG_VOICE, data.as_slice()),
        }
    }

    /// Deserialize from wire format.
    pub fn from_bytes(bytes: &[u8]) -> (r: Option<Self>)
        ensures
            r is Some <==> decode_spec(bytes@) is Some,
            r matches Some(m) ==> decode_spec(bytes@) == Some(m@),
    {
        if bytes.len() == 0 {
            return None;
        }
        let tag = bytes[0];
        if tag == TAG_USER_INFO {
            Some(ChatMessage::UserInfo(payload_copy(bytes)))
        } else if tag == TAG_TEXT {
            let payload = payload_copy(bytes);
            match string_from_utf8(payload.as_slice()) {
                Some(s) => Some(ChatMessage::Text(s)),
                None => None,
            }
        } else if tag == TAG_IMAGE {
            Some(ChatMessage::Image(payload_copy(bytes)))
        } else if tag == TAG_VIDEO_FRAME {
            Some(ChatMessage::VideoFrame(payload_copy(bytes)))
        } else if tag == TAG_VOICE {
            Some(ChatMessage::Voice(payload_copy(bytes)))
        } else {
            None
        }
    }
}

/// Decoding a serialized message gives the message back.
pub proof fn lemma_decode_encode(m: MessageView<Seq<u8>>)
    ensures
        decode_spec(encode_spec(m)) == Some(m),
{
    let b = encode_spec(m);
    assert(b.drop_first() =~= payload_of(m));
    if let MessageView::Text(s) = m {
        encode_utf8_valid_utf8(s);
        encode_utf8_decode_utf8(s);
    }
}

/// Every frame that decodes is exactly the serialization of what it decodes to.
pub proof fn lemma_encode_decode(b: Seq<u8>)
    requires
        decode_spec(b) is Some,
    ensures
        encode_spec(decode_spec(b).unwrap()) == b,
{
    let m = decode_spec(b).unwrap();
    if let MessageView::Text(s) = m {
        decode_utf8_encode_utf8(b.drop_first());
    }
    assert(encode_spec(m) =~= b);
}

/// Distinct messages have distinct serializations.
pub proof fn lemma_encode_injective(m1: MessageView<Seq<u8>>, m2: MessageView<Seq<u8>>)
    requires
        encode_spec(m1) == encode_spec(m2),
    ensures
        m1 == m2,
{
    lemma_decode_encode(m1);
    lemma_decode_encode(m2);
}

} // verus!
