//! Profile data kept on disk: where each file lives, what a stored
//! conversation holds, and how the small text files are read and written.

use vstd::prelude::*;
use crate::clock::{UtcTime, later, is_later};
use crate::digits::{parse_u8, parse_unsigned_spec, dec_digits, push_decimal, lemma_dec_digits_correct, lemma_parse_dec_digits, all_dec_digits, is_dec_digit};
use crate::protocol::{opt_bytes_view, extend_bytes};
use crate::text::{trim, trim_spec, is_ws, chars_of, string_from_chars, push_char, to_owned_string, append_str};

verus! {

// ---------------------------------------------------------------------------
// Stored conversations
// ---------------------------------------------------------------------------

/// A stored message in conversation history.
pub struct StoredMessage {
    /// True if this message was sent by us (the local user).
    pub is_self: bool,
    pub content: String,
    pub timestamp: UtcTime,
    pub is_image: bool,
    pub image_data: Vec<u8>,
}

pub struct StoredMessageView {
    pub is_self: bool,
    pub content: Seq<char>,
    pub timestamp: UtcTime,
    pub is_image: bool,
    pub image_data: Seq<u8>,
}

impl View for StoredMessage {
    type V = StoredMessageView;

    open spec fn view(&self) -> StoredMessageView {
        StoredMessageView {
            is_self: self.is_self,
            content: self.content@,
            timestamp: self.timestamp,
            is_image: self.is_image,
            image_data: self.image_data@,
        }
    }
}

/// A stored peer profile snapshot.
pub struct StoredPeerProfile {
    pub uuid: String,
    pub name: String,
    pub avatar_png: Option<Vec<u8>>,
    pub name_color: [u8; 3],
    pub bio: String,
    pub last_seen: UtcTime,
}

pub struct StoredPeerProfileView {
    pub uuid: Seq<char>,
    pub name: Seq<char>,
    pub avatar_png: Option<Seq<u8>>,
    pub name_color: [u8; 3],
    pub bio: Seq<char>,
    pub last_seen: UtcTime,
}

impl View for StoredPeerProfile {
    type V = StoredPeerProfileView;

    open spec fn view(&self) -> StoredPeerProfileView {
        StoredPeerProfileView {
            uuid: self.uuid@,
            name: self.name@,
            avatar_png: opt_bytes_view(self.avatar_png),
            name_color: self.name_color,
            bio: self.bio@,
            last_seen: self.last_seen,
        }
    }
}

/// Conversation with a specific peer (identified by UUID).
pub struct ConversationHistory {
    pub peer: StoredPeerProfile,
    pub messages: Vec<StoredMessage>,
}

pub struct ConversationView {
    pub peer: StoredPeerProfileView,
    pub messages: Seq<StoredMessageView>,
}

impl View for ConversationHistory {
    type V = ConversationView;

    open spec fn view(&self) -> ConversationView {
        ConversationView {
            peer: self.peer@,
            messages: self.messages@.map_values(|m: StoredMessage| m@),
        }
    }
}

pub fn copy_bytes(b: &Vec<u8>) -> (r: Vec<u8>)
    ensures
        r@ == b@,
{
    let mut r: Vec<u8> = Vec::new();
    extend_bytes(&mut r, b.as_slice());
    assert(r@ =~= b@);
    r
}

pub fn copy_opt_bytes(b: &Option<Vec<u8>>) -> (r: Option<Vec<u8>>)
    ensures
        opt_bytes_view(r) == opt_bytes_view(*b),
{
    match b {
        Some(v) => Some(copy_bytes(v)),
        None => None,
    }
}

impl StoredPeerProfile {
    /// A copy with the same contents.
    pub fn duplicate(&self) -> (r: Self)
        ensures
            r@ == self@,
    {
        StoredPeerProfile {
            uuid: self.uuid.clone(),
            name: self.name.clone(),
            avatar_png: copy_opt_bytes(&self.avatar_png),
            name_color: self.name_color,
            bio: self.bio.clone(),
            last_seen: self.last_seen,
        }
    }
}

/// Update a peer's profile in conversation history (upsert): the stored
/// conversation keeps its messages and takes the new profile; without one, a
/// new empty conversation starts.
pub fn update_peer_profile(
    existing: Option<ConversationHistory>,
    profile: &StoredPeerProfile,
) -> (r: ConversationHistory)
    ensures
        r@.peer == profile@,
        r@.messages == (match existing {
            Some(c) => c@.messages,
            None => Seq::<StoredMessageView>::empty(),
        }),
{
    match existing {
        Some(mut conv) => {
            conv.peer = profile.duplicate();
            conv
        },
        None => {
            let r = ConversationHistory { peer: profile.duplicate(), messages: Vec::new() };
            assert(r@.messages =~= Seq::<StoredMessageView>::empty());
            r
        },
    }
}

/// Append a message to a peer's conversation history; there is nothing to
/// append to when no conversation is stored.
pub fn append_message(existing: Option<ConversationHistory>, msg: StoredMessage) -> (r: Option<
    ConversationHistory,
>)
    ensures
        r is Some <==> existing is Some,
        r matches Some(c) ==> c@.peer == existing.unwrap()@.peer && c@.messages
            == existing.unwrap()@.messages.push(msg@),
{
    match existing {
        Some(mut conv) => {
            let ghost before = conv@;
            conv.messages.push(msg);
            assert(conv@.messages =~= before.messages.push(msg@));
            Some(conv)
        },
        None => None,
    }
}

// ---------------------------------------------------------------------------
// Peer list for the history menu
// ---------------------------------------------------------------------------

/// No profile is seen later than one before it.
pub open spec fn recency_sorted(s: Seq<StoredPeerProfile>) -> bool {
    forall|i: int, j: int| 0 <= i < j < s.len() ==> !later(#[trigger] s[j].last_seen, #[trigger] s[i].last_seen)
}

/// `p` is a permutation of `0..n`.
pub open spec fn is_permutation(p: Seq<int>, n: int) -> bool {
    &&& p.len() == n
    &&& forall|i: int| 0 <= i < n ==> 0 <= #[trigger] p[i] < n
    &&& forall|i: int, j: int| 0 <= i < j < n ==> #[trigger] p[i] != #[trigger] p[j]
}

/// `out` holds the elements of `inp` in the order `p`, most recently seen
/// first, and profiles seen at the same instant keep their input order (a
/// stable sort).
pub open spec fn stable_recency_order(
    out: Seq<StoredPeerProfile>,
    inp: Seq<StoredPeerProfile>,
    p: Seq<int>,
) -> bool {
    &&& out.len() == inp.len()
    &&& is_permutation(p, inp.len() as int)
    &&& forall|j: int| 0 <= j < out.len() ==> #[trigger] out[j] == inp[p[j]]
    &&& recency_sorted(out)
    &&& forall|i: int, j: int|
        0 <= i < j < out.len() && out[i].last_seen == out[j].last_seen ==> #[trigger] p[i]
            < #[trigger] p[j]
}

/// Stable sort, most recently seen first.
pub fn sort_profiles_by_recency(profiles: Vec<StoredPeerProfile>) -> (r: Vec<StoredPeerProfile>)
    ensures
        exists|p: Seq<int>| #[trigger] stable_recency_order(r@, profiles@, p),
{
    let ghost inp = profiles@;
    let mut rest = profiles;
    let mut out: Vec<StoredPeerProfile> = Vec::new();
    let ghost mut p: Seq<int> = Seq::empty();
    while rest.len() > 0
        invariant
            rest@.len() <= inp.len(),
            rest@ == inp.subrange(inp.len() - rest@.len(), inp.len() as int),
            out@.len() == inp.len() - rest@.len(),
            p.len() == out@.len(),
            forall|i: int| 0 <= i < p.len() ==> 0 <= #[trigger] p[i] < out@.len(),
            forall|i: int, j: int| 0 <= i < j < p.len() ==> #[trigger] p[i] != #[trigger] p[j],
            forall|j: int| 0 <= j < out@.len() ==> #[trigger] out@[j] == inp[p[j]],
            recency_sorted(out@),
            forall|i: int, j: int|
                0 <= i < j < out@.len() && out@[i].last_seen == out@[j].last_seen ==> #[trigger] p[i]
                    < #[trigger] p[j],
        decreases rest@.len(),
    {
        let ghost k = out@.len() as int;
        let x = rest.remove(0);
        assert(x == inp[k]);
        // insert after every profile seen no earlier than x
        let mut pos: usize = 0;
        while pos < out.len() && !is_later(x.last_seen, out[pos].last_seen)
            invariant
                pos <= out@.len(),
                forall|j: int| 0 <= j < pos ==> !later(x.last_seen, #[trigger] out@[j].last_seen),
            decreases out@.len() - pos,
        {
            pos = pos + 1;
        }
        let ghost old_out = out@;
        let ghost old_p = p;
        out.insert(pos, x);
        proof {
            p = old_p.insert(pos as int, k);
            assert forall|j: int| 0 <= j < out@.len() implies #[trigger] out@[j] == inp[p[j]] by {
                if j < pos {
                    assert(out@[j] == old_out[j]);
                    assert(p[j] == old_p[j]);
                } else if j > pos {
                    assert(out@[j] == old_out[j - 1]);
                    assert(p[j] == old_p[j - 1]);
                }
            }
            assert forall|i: int| 0 <= i < p.len() implies 0 <= #[trigger] p[i] < out@.len() by {
                if i < pos {
                    assert(p[i] == old_p[i]);
                } else if i > pos {
                    assert(p[i] == old_p[i - 1]);
                }
            }
            assert forall|i: int, j: int| 0 <= i < j < p.len() implies #[trigger] p[i] != #[trigger] p[j] by {
                if i < pos {
                    assert(p[i] == old_p[i]);
                } else if i > pos {
                    assert(p[i] == old_p[i - 1]);
                }
                if j < pos {
                    assert(p[j] == old_p[j]);
                } else if j > pos {
                    assert(p[j] == old_p[j - 1]);
                }
            }
            assert forall|i: int, j: int| 0 <= i < j < out@.len() implies !later(
                #[trigger] out@[j].last_seen,
                #[trigger] out@[i].last_seen,
            ) by {
                if pos < old_out.len() {
                    assert(later(x.last_seen, old_out[pos as int].last_seen));
                }
                if i < pos && j == pos {
                    assert(out@[i] == old_out[i]);
                } else if i == pos && j > pos {
                    assert(out@[j] == old_out[j - 1]);
                    assert(!later(old_out[j - 1].last_seen, old_out[pos as int].last_seen));
                } else if i < pos && j > pos {
                    assert(out@[i] == old_out[i]);
                    assert(out@[j] == old_out[j - 1]);
                } else if j < pos {
                    assert(out@[i] == old_out[i]);
                    assert(out@[j] == old_out[j]);
                } else if i > pos {
                    assert(out@[i] == old_out[i - 1]);
                    assert(out@[j] == old_out[j - 1]);
                }
            }
            assert forall|i: int, j: int|
                0 <= i < j < out@.len() && out@[i].last_seen == out@[j].last_seen implies #[trigger] p[i]
                < #[trigger] p[j] by {
                if i < pos && j == pos {
                    assert(out@[i] == old_out[i]);
                    assert(p[i] == old_p[i]);
                } else if i == pos && j > pos {
                    assert(out@[j] == old_out[j - 1]);
                    assert(later(x.last_seen, old_out[pos as int].last_seen));
                    assert(!later(old_out[j - 1].last_seen, old_out[pos as int].last_seen));
                } else if i < pos && j > pos {
                    assert(out@[i] == old_out[i]);
                    assert(out@[j] == old_out[j - 1]);
                    assert(p[i] == old_p[i]);
                    assert(p[j] == old_p[j - 1]);
                } else if j < pos {
                    assert(p[i] == old_p[i]);
                    assert(p[j] == old_p[j]);
                    assert(out@[i] == old_out[i]);
                    assert(out@[j] == old_out[j]);
                } else if i > pos {
                    assert(p[i] == old_p[i - 1]);
                    assert(p[j] == old_p[j - 1]);
                    assert(out@[i] == old_out[i - 1]);
                    assert(out@[j] == old_out[j - 1]);
                }
            }
            assert(rest@ =~= inp.subrange(inp.len() - rest@.len(), inp.len() as int));
        }
    }
    assert(stable_recency_order(out@, inp, p));
    out
}

/// The peer of each conversation.
pub open spec fn conversation_peers(s: Seq<ConversationHistory>) -> Seq<StoredPeerProfile> {
    s.map_values(|c: ConversationHistory| c.peer)
}

/// The peers of the stored conversations, most recently seen first (the
/// conversations are those that were read and parsed, in directory order).
pub fn load_all_peer_profiles(conversations: Vec<ConversationHistory>) -> (r: Vec<StoredPeerProfile>)
    ensures
        exists|p: Seq<int>|
            #[trigger] stable_recency_order(r@, conversation_peers(conversations@), p),
{
    let mut profiles: Vec<StoredPeerProfile> = Vec::new();
    let mut rest = conversations;
    let ghost all = rest@;
    while rest.len() > 0
        invariant
            rest@.len() <= all.len(),
            rest@ == all.subrange(all.len() - rest@.len(), all.len() as int),
            profiles@ == all.take(all.len() - rest@.len()).map_values(|c: ConversationHistory| c.peer),
        decreases rest@.len(),
    {
        let ghost k = all.len() - rest@.len();
        let c = rest.remove(0);
        profiles.push(c.peer);
        assert(profiles@ =~= all.take(k + 1).map_values(|c: ConversationHistory| c.peer));
        assert(rest@ =~= all.subrange(all.len() - rest@.len(), all.len() as int));
    }
    assert(all.take(all.len() as int) =~= all);
    assert(profiles@ == conversation_peers(all));
    sort_profiles_by_recency(profiles)
}

// ---------------------------------------------------------------------------
// Small text files
// ---------------------------------------------------------------------------

/// The trimmed text, unless nothing is left.
pub open spec fn nonempty_trimmed(s: Seq<char>) -> Option<Seq<char>> {
    if trim_spec(s).len() == 0 {
        None
    } else {
        Some(trim_spec(s))
    }
}

fn trimmed_nonempty(s: &str) -> (r: Option<String>)
    ensures
        r is Some <==> nonempty_trimmed(s@) is Some,
        r matches Some(t) ==> Some(t@) == nonempty_trimmed(s@),
{
    let t = trim(s);
    if t.as_str().is_empty() {
        None
    } else {
        Some(t)
    }
}

/// The persisted username from the contents of its file, or `None` if not
/// yet set (only whitespace).
pub fn load_username(contents: &str) -> (r: Option<String>)
    ensures
        r is Some <==> nonempty_trimmed(contents@) is Some,
        r matches Some(t) ==> Some(t@) == nonempty_trimmed(contents@),
{
    trimmed_nonempty(contents)
}

/// The persisted bio from the contents of its file, or `None`.
pub fn load_bio(contents: &str) -> (r: Option<String>)
    ensures
        r is Some <==> nonempty_trimmed(contents@) is Some,
        r matches Some(t) ==> Some(t@) == nonempty_trimmed(contents@),
{
    trimmed_nonempty(contents)
}

/// The text that the username file takes: the name without surrounding
/// whitespace.
pub fn save_username(name: &str) -> (r: String)
    ensures
        r@ == trim_spec(name@),
{
    trim(name)
}

/// The text that the bio file takes: the bio without surrounding whitespace.
pub fn save_bio(bio: &str) -> (r: String)
    ensures
        r@ == trim_spec(bio@),
{
    trim(bio)
}

/// A name or bio written to its file reads back as the written text without
/// surrounding whitespace, or as nothing when only whitespace was written.
pub proof fn lemma_text_file_roundtrip(s: Seq<char>)
    ensures
        nonempty_trimmed(trim_spec(s)) == nonempty_trimmed(s),
{
    crate::text::lemma_trim_idempotent(s);
}

/// The hyphenated lower-case text of a UUID: 32 hex digits in groups of
/// 8-4-4-4-12.
pub open spec fn is_uuid_text(s: Seq<char>) -> bool {
    &&& s.len() == 36
    &&& forall|i: int|
        0 <= i < 36 ==> (#[trigger] s[i] == '-' <==> (i == 8 || i == 13 || i == 18 || i == 23))
    &&& forall|i: int| 0 <= i < 36 && s[i] != '-' ==> is_dec_digit(#[trigger] s[i]) || ('a' <= s[i] && s[i] <= 'f')
}

/// The 16 bytes of a random UUID once version 4 is stamped on the high
/// nibble of byte 6 and the RFC 4122 variant (`10`) on the top bits of byte 8.
pub open spec fn v4_stamped(b: Seq<u8>) -> Seq<u8> {
    b.update(6, (b[6] % 16 + 0x40) as u8).update(8, (b[8] % 64 + 0x80) as u8)
}

/// The lower-case hex digit of a value below 16.
pub open spec fn lower_hex_digit(n: int) -> char {
    if n < 10 {
        (n + 48) as char
    } else {
        (n + 87) as char
    }
}

/// The `k`-th of the 32 hex digits of 16 bytes, each byte high nibble first.
pub open spec fn uuid_hex_digit(b: Seq<u8>, k: int) -> char {
    let x: int = b[k / 2] as int;
    lower_hex_digit(if k % 2 == 0 { x / 16 } else { x % 16 })
}

/// Which hex digit stands at position `i` of the hyphenated text.
pub open spec fn uuid_digit_index(i: int) -> int {
    if i < 8 {
        i
    } else if i < 13 {
        i - 1
    } else if i < 18 {
        i - 2
    } else if i < 23 {
        i - 3
    } else {
        i - 4
    }
}

/// 16 bytes written as hyphenated lower-case hex, in groups of 8-4-4-4-12.
pub open spec fn uuid_text_spec(b: Seq<u8>) -> Seq<char> {
    Seq::new(
        36,
        |i: int|
            if i == 8 || i == 13 || i == 18 || i == 23 {
                '-'
            } else {
                uuid_hex_digit(b, uuid_digit_index(i))
            },
    )
}

/// `getrandom::fill` on 16 bytes: random bytes from the operating system's
/// source, or `None` where that source failed. The bytes are chance, so
/// nothing is said of them.
#[verifier::external_body]
fn random_bytes() -> (r: Option<[u8; 16]>) {
    let mut bytes = [0u8; 16];
    match getrandom::fill(&mut bytes) {
        Ok(()) => Some(bytes),
        Err(_) => None,
    }
}

/// `uuid::Builder::from_random_bytes(bytes).into_uuid().to_string()`: the
/// bytes with version 4 and the RFC 4122 variant stamped on them, written as
/// hyphenated lower-case hex.
#[verifier::external_body]
fn uuid_v4_text(bytes: [u8; 16]) -> (r: String)
    ensures
        r@ == uuid_text_spec(v4_stamped(bytes@)),
{
    uuid::Builder::from_random_bytes(bytes).into_uuid().to_string()
}

/// Hyphenated lower-case hex of any 16 bytes is UUID text.
proof fn lemma_uuid_text_shape(b: Seq<u8>)
    requires
        b.len() == 16,
    ensures
        is_uuid_text(uuid_text_spec(b)),
{
    let t = uuid_text_spec(b);
    assert forall|i: int| 0 <= i < 36 && t[i] != '-' implies is_dec_digit(#[trigger] t[i]) || (
    'a' <= t[i] && t[i] <= 'f') by {
        let k = uuid_digit_index(i);
        assert(0 <= k < 32);
        let x: int = b[k / 2] as int;
        let n: int = if k % 2 == 0 { x / 16 } else { x % 16 };
        assert(0 <= n < 16);
    }
}

/// Whatever the random bytes, the text of the UUID made from them marks
/// version 4 (its 15th character is `4`) and the RFC 4122 variant (its 20th
/// is one of `8`, `9`, `a`, `b`).
pub proof fn lemma_v4_marks(b: Seq<u8>)
    requires
        b.len() == 16,
    ensures
        uuid_text_spec(v4_stamped(b))[14] == '4',
        uuid_text_spec(v4_stamped(b))[19] == '8' || uuid_text_spec(v4_stamped(b))[19] == '9'
            || uuid_text_spec(v4_stamped(b))[19] == 'a' || uuid_text_spec(v4_stamped(b))[19] == 'b',
{
    let s = v4_stamped(b);
    assert(s[6] / 16 == 4);
    assert(8 <= s[8] / 16 < 12);
}

/// A version-4 UUID made from 16 random bytes, as hyphenated lower-case
/// text; `None` where no random bytes were had.
pub fn uuid_from_random(bytes: Option<[u8; 16]>) -> (r: Option<String>)
    ensures
        match bytes {
            Some(b) => r is Some && r->0@ == uuid_text_spec(v4_stamped(b@)),
            None => r is None,
        },
        r matches Some(u) ==> is_uuid_text(u@),
{
    match bytes {
        Some(b) => {
            let u = uuid_v4_text(b);
            proof {
                lemma_uuid_text_shape(v4_stamped(b@));
            }
            Some(u)
        },
        None => None,
    }
}

/// The persistent player UUID: the stored one (trimmed) if the file held
/// one, else a fresh random one, flagged as new so that it is written back.
/// `None` only where nothing was stored and the operating system gave no
/// random bytes.
pub fn load_or_create_uuid(stored: Option<&str>) -> (r: Option<(String, bool)>)
    ensures
        match stored {
            Some(s) if nonempty_trimmed(s@) is Some => r matches Some((u, is_new)) && u@ == trim_spec(
                s@,
            ) && !is_new,
            _ => r matches Some((u, is_new)) ==> is_new && is_uuid_text(u@),
        },
{
    if let Some(s) = stored {
        if let Some(t) = trimmed_nonempty(s) {
            return Some((t, false));
        }
    }
    match uuid_from_random(random_bytes()) {
        Some(u) => Some((u, true)),
        None => None,
    }
}

/// A fresh UUID written to the UUID file is read back unchanged, so the
/// player keeps one identity across runs.
pub proof fn lemma_fresh_uuid_persists(u: Seq<char>)
    requires
        is_uuid_text(u),
    ensures
        nonempty_trimmed(u) == Some(u),
{
    assert(u[0] != '-');
    assert(u[35] != '-');
    assert(!is_ws(u[0]));
    assert(!is_ws(u.last()));
    crate::theme::lemma_trim_noop(u);
}

/// Where `s` has its commas: the pieces between them, in order
/// (`str::split(',')`).
pub open spec fn split_commas(s: Seq<char>) -> Seq<Seq<char>>
    decreases s.len(),
{
    if s.len() == 0 {
        seq![Seq::<char>::empty()]
    } else {
        let rest = split_commas(s.drop_last());
        if s.last() == ',' {
            rest.push(Seq::<char>::empty())
        } else {
            rest.update(rest.len() - 1, rest.last().push(s.last()))
        }
    }
}

proof fn lemma_split_commas_nonempty(s: Seq<char>)
    ensures
        split_commas(s).len() >= 1,
    decreases s.len(),
{
    if s.len() > 0 {
        lemma_split_commas_nonempty(s.drop_last());
    }
}

/// The color `r,g,b` that the name-color file holds.
pub open spec fn name_color_spec(s: Seq<char>) -> Option<[u8; 3]> {
    let parts = split_commas(trim_spec(s));
    if parts.len() != 3 {
        None
    } else {
        match (
            parse_unsigned_spec(parts[0], 255),
            parse_unsigned_spec(parts[1], 255),
            parse_unsigned_spec(parts[2], 255),
        ) {
            (Some(r), Some(g), Some(b)) => Some([r as u8, g as u8, b as u8]),
            _ => None,
        }
    }
}

/// The pieces of `v` between commas.
fn split_on_commas(v: &Vec<char>) -> (r: Vec<String>)
    ensures
        r@.len() == split_commas(v@).len(),
        forall|i: int| 0 <= i < r@.len() ==> (#[trigger] r@[i])@ == split_commas(v@)[i],
{
    let mut parts: Vec<String> = Vec::new();
    let mut start: usize = 0;
    let mut i: usize = 0;
    while i < v.len()
        invariant
            start <= i <= v@.len(),
            parts@.len() + 1 == split_commas(v@.take(i as int)).len(),
            forall|j: int| 0 <= j < parts@.len() ==> (#[trigger] parts@[j])@ == split_commas(v@.take(i as int))[j],
            split_commas(v@.take(i as int)).last() == v@.subrange(start as int, i as int),
        decreases v@.len() - i,
    {
        proof {
            lemma_split_commas_nonempty(v@.take(i as int));
            assert(v@.take(i + 1).drop_last() =~= v@.take(i as int));
        }
        if v[i] == ',' {
            let piece = string_from_chars(v, start, i);
            parts.push(piece);
            start = i + 1;
            proof {
                assert(v@.subrange(start as int, i + 1) =~= Seq::<char>::empty());
            }
        } else {
            proof {
                assert(v@.subrange(start as int, i + 1) =~= v@.subrange(start as int, i as int).push(v@[i as int]));
            }
        }
        i = i + 1;
    }
    proof {
        lemma_split_commas_nonempty(v@.take(i as int));
        assert(v@.take(i as int) =~= v@);
    }
    let last = string_from_chars(v, start, i);
    parts.push(last);
    parts
}

/// The persisted name color from the contents of its file (`r,g,b`).
pub fn load_name_color(contents: &str) -> (r: Option<[u8; 3]>)
    ensures
        r == name_color_spec(contents@),
{
    let t = trim(contents);
    let v = chars_of(t.as_str());
    let parts = split_on_commas(&v);
    if parts.len() != 3 {
        return None;
    }
    let r = match parse_u8(parts[0].as_str()) {
        Some(x) => x,
        None => return None,
    };
    let g = match parse_u8(parts[1].as_str()) {
        Some(x) => x,
        None => return None,
    };
    let b = match parse_u8(parts[2].as_str()) {
        Some(x) => x,
        None => return None,
    };
    Some([r, g, b])
}

/// `format!("{},{},{}", r, g, b)`.
pub open spec fn name_color_text(rgb: [u8; 3]) -> Seq<char> {
    dec_digits(rgb[0] as nat) + seq![','] + dec_digits(rgb[1] as nat) + seq![','] + dec_digits(
        rgb[2] as nat,
    )
}

/// The text that the name-color file holds for a color.
pub fn save_name_color(rgb: &[u8; 3]) -> (r: String)
    ensures
        r@ == name_color_text(*rgb),
{
    let mut s = String::new();
    push_decimal(&mut s, rgb[0] as u32);
    push_char(&mut s, ',');
    push_decimal(&mut s, rgb[1] as u32);
    push_char(&mut s, ',');
    push_decimal(&mut s, rgb[2] as u32);
    assert(s@ =~= name_color_text(*rgb));
    s
}

proof fn lemma_split_commas_append_digits(s: Seq<char>, d: Seq<char>)
    requires
        forall|i: int| 0 <= i < d.len() ==> #[trigger] d[i] != ',',
    ensures
        split_commas(s + d).len() == split_commas(s).len(),
        split_commas(s + d).last() == split_commas(s).last() + d,
        forall|i: int| 0 <= i < split_commas(s).len() - 1 ==> #[trigger] split_commas(s + d)[i] == split_commas(s)[i],
    decreases d.len(),
{
    lemma_split_commas_nonempty(s);
    if d.len() == 0 {
        assert(s + d =~= s);
    } else {
        let d0 = d.drop_last();
        assert forall|i: int| 0 <= i < d0.len() implies #[trigger] d0[i] != ',' by {
            assert(d0[i] == d[i]);
        }
        lemma_split_commas_append_digits(s, d0);
        assert((s + d).drop_last() =~= s + d0);
        assert((s + d).last() == d.last());
        lemma_split_commas_nonempty(s + d0);
        assert(split_commas(s).last() + d =~= (split_commas(s).last() + d0).push(d.last()));
    }
}

proof fn lemma_split_commas_comma(s: Seq<char>)
    ensures
        split_commas(s.push(',')) == split_commas(s).push(Seq::<char>::empty()),
{
    assert(s.push(',').drop_last() =~= s);
}

proof fn lemma_digits_no_comma(n: nat)
    ensures
        forall|i: int| 0 <= i < dec_digits(n).len() ==> #[trigger] dec_digits(n)[i] != ',',
        !is_ws(dec_digits(n)[0]),
        !is_ws(dec_digits(n).last()),
{
    lemma_dec_digits_correct(n);
    assert forall|i: int| 0 <= i < dec_digits(n).len() implies #[trigger] dec_digits(n)[i] != ',' by {
        assert(is_dec_digit(dec_digits(n)[i]));
    }
    assert(is_dec_digit(dec_digits(n)[0]));
    assert(is_dec_digit(dec_digits(n)[dec_digits(n).len() - 1]));
}

/// A color written to the name-color file reads back as the same color.
pub proof fn lemma_name_color_roundtrip(rgb: [u8; 3])
    ensures
        name_color_spec(name_color_text(rgb)) == Some(rgb),
{
    let a = dec_digits(rgb[0] as nat);
    let b = dec_digits(rgb[1] as nat);
    let c = dec_digits(rgb[2] as nat);
    lemma_digits_no_comma(rgb[0] as nat);
    lemma_digits_no_comma(rgb[1] as nat);
    lemma_digits_no_comma(rgb[2] as nat);
    let s = name_color_text(rgb);
    assert(s[0] == a[0]);
    assert(s.last() == c.last());
    crate::theme::lemma_trim_noop(s);
    let e = Seq::<char>::empty();
    lemma_split_commas_append_digits(e, a);
    assert(e + a =~= a);
    assert(split_commas(e) == seq![e]);
    lemma_split_commas_comma(a);
    lemma_split_commas_append_digits(a.push(','), b);
    let ab = a.push(',') + b;
    lemma_split_commas_comma(ab);
    lemma_split_commas_append_digits(ab.push(','), c);
    assert(s =~= ab.push(',') + c);
    let parts = split_commas(s);
    assert(parts.len() == 3);
    assert(parts[0] =~= a);
    assert(parts[1] =~= b);
    assert(parts[2] =~= c);
    lemma_parse_dec_digits(rgb[0] as nat, 255);
    lemma_parse_dec_digits(rgb[1] as nat, 255);
    lemma_parse_dec_digits(rgb[2] as nat, 255);
    assert(name_color_spec(s) =~= Some(rgb));
}

// ---------------------------------------------------------------------------
// Defaults used when a stored file lacks a field
// ---------------------------------------------------------------------------

pub fn default_text_panel_color() -> (r: [u8; 3])
    ensures
        r == [30u8, 31u8, 35u8],
{
    [30, 31, 35]
}

pub fn default_side_panel_color() -> (r: [u8; 3])
    ensures
        r == [25u8, 25u8, 28u8],
{
    [25, 25, 28]
}

pub fn default_separator_color() -> (r: [u8; 3])
    ensures
        r == [48u8, 50u8, 55u8],
{
    [48, 50, 55]
}

pub fn default_text_color() -> (r: [u8; 3])
    ensures
        r == [220u8, 222u8, 226u8],
{
    [220, 222, 226]
}

pub fn default_overlay_distance() -> (r: i32)
    ensures
        r == 8,
{
    8
}

pub fn default_overlay_text_size() -> (r: i32)
    ensures
        r == 16,
{
    16
}

pub fn default_overlay_window_w() -> (r: i32)
    ensures
        r == 500,
{
    500
}

pub fn default_overlay_window_h() -> (r: i32)
    ensures
        r == 280,
{
    280
}

pub fn default_overlay_outline_thickness() -> (r: i32)
    ensures
        r == 1,
{
    1
}

pub fn default_talking_border_color() -> (r: [u8; 3])
    ensures
        r == [59u8, 165u8, 93u8],
{
    [59, 165, 93]
}

pub fn default_true() -> (r: bool)
    ensures
        r,
{
    true
}

pub fn default_webcam_quality() -> (r: u8)
    ensures
        r == 60,
{
    60
}

pub fn default_ptt_key() -> (r: String)
    ensures
        r@ == seq!['V'],
{
    let mut s = String::new();
    push_char(&mut s, 'V');
    assert(s@ =~= seq!['V']);
    s
}

pub fn default_name_color() -> (r: [u8; 3])
    ensures
        r == [87u8, 203u8, 222u8],
{
    [87, 203, 222]
}

} // verus!
