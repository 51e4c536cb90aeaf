//! Where the profile files live: `<config dir>/slp_chat/...`.

use vstd::prelude::*;
use crate::text::{to_owned_string, append_str, push_char, chars_of};

verus! {

/// `PathBuf::push` of a relative `name` onto `base`, with `/` between.
pub open spec fn join_spec(base: Seq<char>, name: Seq<char>) -> Seq<char> {
    if base.len() == 0 {
        name
    } else if base.last() == '/' {
        base + name
    } else {
        base.push('/') + name
    }
}

pub fn join(base: &str, name: &str) -> (r: String)
    ensures
        r@ == join_spec(base@, name@),
{
    let v = chars_of(base);
    let mut r = to_owned_string(base);
    if v.len() > 0 && v[v.len() - 1] != '/' {
        push_char(&mut r, '/');
    }
    append_str(&mut r, name);
    r
}

/// The profile directory under a given configuration directory, `.` when
/// there is none.
pub open spec fn profile_dir_spec(config_dir: Option<Seq<char>>) -> Seq<char> {
    match config_dir {
        Some(d) => join_spec(d, "slp_chat"@),
        None => join_spec("."@, "slp_chat"@),
    }
}

pub fn profile_dir_in(config_dir: Option<&str>) -> (r: String)
    ensures
        r@ == profile_dir_spec(match config_dir {
            Some(d) => Some(d@),
            None => None,
        }),
{
    match config_dir {
        Some(d) => join(d, "slp_chat"),
        None => join(".", "slp_chat"),
    }
}

/// `dirs::config_dir()`: the user's configuration directory, if the platform
/// has one and its path is valid UTF-8. A directory whose path is not UTF-8
/// cannot be held in a `String`; it comes back as `None`, so the profile
/// directory is then `./slp_chat`.
#[verifier::external_body]
pub(crate) fn config_dir() -> (r: Option<String>) {
    dirs::config_dir().and_then(|p| p.to_str().map(|s| s.to_string()))
}

/// Returns the directory where profile data is stored.
pub fn profile_dir() -> (r: String)
    ensures
        exists|d: Option<Seq<char>>| r@ == #[trigger] profile_dir_spec(d),
{
    let d = config_dir();
    match &d {
        Some(s) => profile_dir_in(Some(s.as_str())),
        None => profile_dir_in(None),
    }
}

/// A file of the profile directory.
pub open spec fn profile_file_spec(d: Option<Seq<char>>, name: Seq<char>) -> Seq<char> {
    join_spec(profile_dir_spec(d), name)
}

fn profile_file(name: &str) -> (r: String)
    ensures
        exists|d: Option<Seq<char>>| r@ == #[trigger] profile_file_spec(d, name@),
{
    let dir = profile_dir();
    let ghost d = choose|d: Option<Seq<char>>| dir@ == #[trigger] profile_dir_spec(d);
    let r = join(dir.as_str(), name);
    assert(r@ == profile_file_spec(d, name@));
    r
}

pub fn instance_pid_path() -> (r: String)
    ensures
        exists|d: Option<Seq<char>>| r@ == #[trigger] profile_file_spec(d, "instance.pid"@),
{
    profile_file("instance.pid")
}

pub fn show_signal_path() -> (r: String)
    ensures
        exists|d: Option<Seq<char>>| r@ == #[trigger] profile_file_spec(d, "show_signal"@),
{
    profile_file("show_signal")
}

/// Returns the directory where conversation history is stored.
pub fn history_dir() -> (r: String)
    ensures
        exists|d: Option<Seq<char>>| r@ == #[trigger] profile_file_spec(d, "history"@),
{
    profile_file("history")
}

pub fn username_path() -> (r: String)
    ensures
        exists|d: Option<Seq<char>>| r@ == #[trigger] profile_file_spec(d, "username.txt"@),
{
    profile_file("username.txt")
}

pub fn avatar_path() -> (r: String)
    ensures
        exists|d: Option<Seq<char>>| r@ == #[trigger] profile_file_spec(d, "avatar.png"@),
{
    profile_file("avatar.png")
}

pub fn uuid_path() -> (r: String)
    ensures
        exists|d: Option<Seq<char>>| r@ == #[trigger] profile_file_spec(d, "uuid.txt"@),
{
    profile_file("uuid.txt")
}

pub fn theme_path() -> (r: String)
    ensures
        exists|d: Option<Seq<char>>| r@ == #[trigger] profile_file_spec(d, "theme.json"@),
{
    profile_file("theme.json")
}

pub fn config_path() -> (r: String)
    ensures
        exists|d: Option<Seq<char>>| r@ == #[trigger] profile_file_spec(d, "config.json"@),
{
    profile_file("config.json")
}

pub fn name_color_path() -> (r: String)
    ensures
        exists|d: Option<Seq<char>>| r@ == #[trigger] profile_file_spec(d, "name_color.txt"@),
{
    profile_file("name_color.txt")
}

pub fn bio_path() -> (r: String)
    ensures
        exists|d: Option<Seq<char>>| r@ == #[trigger] profile_file_spec(d, "bio.txt"@),
{
    profile_file("bio.txt")
}

/// `std::path::is_separator('\\')`: whether `\` separates path components
/// on this platform (it does on Windows). That depends on the platform, so
/// nothing is said of it.
#[verifier::external_body]
fn backslash_separates() -> (r: bool) {
    std::path::is_separator('\\')
}

/// A character that separates no path components: not `/`, and not `\`
/// where `backslash` says that `\` separates.
pub open spec fn is_name_char(c: char, backslash: bool) -> bool {
    c != '/' && !(backslash && c == '\\')
}

/// A peer UUID that can name a file of the history directory: no path
/// separator in it, that is no `/` (a separator on every platform) and no
/// `\` where `backslash` says that `\` separates too (on Windows). (`..`
/// needs no check: `<uuid>.json` is never `..`.)
pub open spec fn is_file_stem(u: Seq<char>, backslash: bool) -> bool {
    forall|i: int| 0 <= i < u.len() ==> #[trigger] is_name_char(u[i], backslash)
}

/// A file name without a path separator: joined to a directory, it names a
/// file directly inside that directory.
pub open spec fn is_plain_file_name(n: Seq<char>, backslash: bool) -> bool {
    forall|i: int| 0 <= i < n.len() ==> #[trigger] is_name_char(n[i], backslash)
}

/// Whether a peer UUID can name a file of the history directory, with `\`
/// a separator or not.
pub fn file_stem_ok(u: &str, backslash: bool) -> (r: bool)
    ensures
        r == is_file_stem(u@, backslash),
{
    let v = chars_of(u);
    let mut i: usize = 0;
    while i < v.len()
        invariant
            v@ == u@,
            i <= v@.len(),
            forall|j: int| 0 <= j < i ==> #[trigger] is_name_char(v@[j], backslash),
        decreases v@.len() - i,
    {
        if v[i] == '/' || (backslash && v[i] == '\\') {
            assert(!is_name_char(u@[i as int], backslash));
            return false;
        }
        i = i + 1;
    }
    true
}

/// `<uuid>.json` inside a history directory, with `\` a separator or not;
/// `None` for a UUID that would name a file elsewhere.
pub fn conversation_file_in(history_dir: &str, peer_uuid: &str, backslash: bool) -> (r: Option<String>)
    ensures
        r is Some <==> is_file_stem(peer_uuid@, backslash),
        r matches Some(p) ==> p@ == join_spec(history_dir@, peer_uuid@ + ".json"@) && is_plain_file_name(
            peer_uuid@ + ".json"@,
            backslash,
        ),
{
    if !file_stem_ok(peer_uuid, backslash) {
        return None;
    }
    let mut name = to_owned_string(peer_uuid);
    append_str(&mut name, ".json");
    proof {
        reveal_strlit(".json");
        let n = peer_uuid@ + ".json"@;
        assert forall|i: int| 0 <= i < n.len() implies #[trigger] is_name_char(n[i], backslash) by {
            if i < peer_uuid@.len() {
                assert(n[i] == peer_uuid@[i]);
            } else {
                assert(n[i] == ".json"@[i - peer_uuid@.len()]);
            }
        }
    }
    Some(join(history_dir, name.as_str()))
}

/// A UUID free of every separator of one platform is free of those of a
/// platform with fewer.
proof fn lemma_fewer_separators(u: Seq<char>, more: bool, fewer: bool)
    requires
        is_file_stem(u, more),
        fewer ==> more,
    ensures
        is_file_stem(u, fewer),
{
    assert forall|i: int| 0 <= i < u.len() implies #[trigger] is_name_char(u[i], fewer) by {
        assert(is_name_char(u[i], more));
    }
}

/// The file that holds the conversation with a peer: `<uuid>.json` directly
/// inside the history directory, `None` for a UUID that would name a file
/// elsewhere: one with `/` in it on every platform, and one with `\` in it
/// where `\` separates path components too. A UUID with neither is always
/// taken.
pub fn conversation_path(peer_uuid: &str) -> (r: Option<String>)
    ensures
        exists|backslash: bool, d: Option<Seq<char>>|
            #![trigger is_file_stem(peer_uuid@, backslash), profile_file_spec(d, "history"@)]
            (r is Some <==> is_file_stem(peer_uuid@, backslash)) && (r matches Some(p) ==> p@ == join_spec(
                profile_file_spec(d, "history"@),
                peer_uuid@ + ".json"@,
            ) && is_plain_file_name(peer_uuid@ + ".json"@, backslash)),
        r matches Some(p) ==> is_file_stem(peer_uuid@, false),
        is_file_stem(peer_uuid@, true) ==> r is Some,
{
    let dir = history_dir();
    let backslash = backslash_separates();
    let ghost d = choose|d: Option<Seq<char>>| dir@ == #[trigger] profile_file_spec(d, "history"@);
    let r = conversation_file_in(dir.as_str(), peer_uuid, backslash);
    proof {
        assert(r matches Some(p) ==> p@ == join_spec(profile_file_spec(d, "history"@), peer_uuid@ + ".json"@));
        if is_file_stem(peer_uuid@, backslash) {
            lemma_fewer_separators(peer_uuid@, backslash, false);
        }
        if is_file_stem(peer_uuid@, true) {
            lemma_fewer_separators(peer_uuid@, true, backslash);
        }
        assert((r is Some <==> is_file_stem(peer_uuid@, backslash)) && (r matches Some(p) ==> p@ == join_spec(
            profile_file_spec(d, "history"@),
            peer_uuid@ + ".json"@,
        ) && is_plain_file_name(peer_uuid@ + ".json"@, backslash)));
    }
    r
}

} // verus!
