//! Handshake timing profiles, and the push-to-talk key names.

use vstd::prelude::*;

verus! {

/// Rollover and offset ranges, each as (minimum, preferred, maximum).
pub type HandshakeProfile = ((u64, u64, u64), (u64, u64, u64));

/// The lower-case form of a string (`str::to_lowercase`).
pub uninterp spec fn spec_to_lowercase(s: Seq<char>) -> Seq<char>;

/// `str::to_lowercase`: Unicode lower-casing.
#[verifier::external_body]
fn to_lowercase(s: &str) -> (r: String)
    ensures
        r@ == spec_to_lowercase(s@),
{
    s.to_lowercase()
}

/// The upper-case form of a string (`str::to_uppercase`).
pub uninterp spec fn spec_to_uppercase(s: Seq<char>) -> Seq<char>;

/// `str::to_uppercase`: Unicode upper-casing.
#[verifier::external_body]
fn to_uppercase(s: &str) -> (r: String)
    ensures
        r@ == spec_to_uppercase(s@),
{
    s.to_uppercase()
}

pub open spec fn profile_for_spec(lower: Option<Seq<char>>) -> HandshakeProfile {
    match lower {
        Some(p) => if p == "tight"@ {
            ((30, 60, 90), (15, 30, 60))
        } else if p == "wide"@ {
            ((60, 240, 480), (30, 120, 240))
        } else if p == "mismatch"@ {
            ((500, 600, 700), (250, 300, 350))
        } else {
            ((60, 120, 240), (30, 60, 120))
        },
        None => ((60, 120, 240), (30, 60, 120)),
    }
}

/// The profile for an already lower-cased profile name (`None`: no name).
pub fn handshake_profile_for(lower: Option<&str>) -> (r: HandshakeProfile)
    ensures
        r == profile_for_spec(match lower {
            Some(p) => Some(p@),
            None => None,
        }),
{
    match lower {
        Some(p) => {
            if crate::text::str_eq(p, "tight") {
                ((30, 60, 90), (15, 30, 60))
            } else if crate::text::str_eq(p, "wide") {
                ((60, 240, 480), (30, 120, 240))
            } else if crate::text::str_eq(p, "mismatch") {
                ((500, 600, 700), (250, 300, 350))
            } else {
                ((60, 120, 240), (30, 60, 120))
            }
        },
        None => ((60, 120, 240), (30, 60, 120)),
    }
}

/// The handshake ranges for the profile named by `SLPAUTH_PROFILE`
/// (`tight`, `wide` or `mismatch`, in any case); the default otherwise.
pub fn handshake_profile(profile_name: Option<&str>) -> (r: HandshakeProfile)
    ensures
        r == profile_for_spec(match profile_name {
            Some(p) => Some(spec_to_lowercase(p@)),
            None => None,
        }),
{
    match profile_name {
        Some(p) => {
            let lower = to_lowercase(p);
            handshake_profile_for(Some(lower.as_str()))
        },
        None => handshake_profile_for(None),
    }
}

/// The key that push-to-talk listens to.
#[derive(Clone, Copy, PartialEq, Eq, Structural, Debug)]
pub enum PttKey {
    /// A letter key, `A` to `Z`.
    Letter(char),
    Space,
}

pub open spec fn ptt_key_for_spec(upper: Seq<char>) -> PttKey {
    if upper.len() == 1 && 'A' <= upper[0] <= 'Z' {
        PttKey::Letter(upper[0])
    } else if upper == "SPACE"@ {
        PttKey::Space
    } else {
        PttKey::Letter('V')
    }
}

/// The key for an upper-cased key name; `V` when the name is not a letter
/// or `SPACE`.
pub fn ptt_key_for(upper: &str) -> (r: PttKey)
    ensures
        r == ptt_key_for_spec(upper@),
{
    let v = crate::text::chars_of(upper);
    if v.len() == 1 && 'A' <= v[0] && v[0] <= 'Z' {
        PttKey::Letter(v[0])
    } else if crate::text::str_eq(upper, "SPACE") {
        PttKey::Space
    } else {
        PttKey::Letter('V')
    }
}

/// Parse a key name (any case) into the push-to-talk key.
pub fn ptt_key(name: &str) -> (r: PttKey)
    ensures
        r == ptt_key_for_spec(spec_to_uppercase(name@)),
{
    let upper = to_uppercase(name);
    ptt_key_for(upper.as_str())
}

/// The key name as the options window shows it.
pub fn ptt_key_label(name: &str) -> (r: String)
    ensures
        r@ == spec_to_uppercase(name@),
{
    to_uppercase(name)
}

} // verus!
