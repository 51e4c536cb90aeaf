//! Theme colors as `RRGGBB` hex text, and back.

use vstd::prelude::*;
use vstd::utf8::*;
use crate::digits::{hex_upper, is_hex_byte, hex_byte_value, hex_pair_spec, parse_hex_pair, push_hex_byte};
use crate::text::{is_ws, trim_spec, trim, chars_of, string_from_chars};

verus! {

broadcast use {vstd::utf8::group_utf8_lib, vstd::string::group_string_axioms};

/// Name color used until the user picks one.
pub const DEFAULT_NAME_COLOR: [u8; 3] = [87, 203, 222];

/// The color fields of a theme that the editor shows as hex text.
pub struct ThemeColors {
    pub text_panel_color: [u8; 3],
    pub side_panel_color: [u8; 3],
    pub separator_color: [u8; 3],
    pub button_color: [u8; 3],
    pub text_color: [u8; 3],
    pub overlay_outline_color: [u8; 3],
}

/// The hex text of each editable theme color.
pub struct ThemeHexFields {
    pub text_panel_color: String,
    pub side_panel_color: String,
    pub separator_color: String,
    pub button_color: String,
    pub text_color: String,
    pub overlay_outline_color: String,
}

/// `format!("{:02X}{:02X}{:02X}", r, g, b)`.
pub open spec fn hex_string(rgb: [u8; 3]) -> Seq<char> {
    seq![
        hex_upper((rgb[0] / 16) as nat),
        hex_upper((rgb[0] % 16) as nat),
        hex_upper((rgb[1] / 16) as nat),
        hex_upper((rgb[1] % 16) as nat),
        hex_upper((rgb[2] / 16) as nat),
        hex_upper((rgb[2] % 16) as nat),
    ]
}

/// `s` without its leading `#` characters (`trim_start_matches('#')`).
pub open spec fn strip_hashes(s: Seq<char>) -> Seq<char>
    decreases s.len(),
{
    if s.len() > 0 && s[0] == '#' {
        strip_hashes(s.drop_first())
    } else {
        s
    }
}

/// The bytes that `parse_hex_color` reads: trimmed, then leading `#`s dropped.
pub open spec fn hex_color_bytes(s: Seq<char>) -> Seq<u8> {
    encode_utf8(strip_hashes(trim_spec(s)))
}

/// Inputs on which slicing the six bytes into pairs would cut a character:
/// the first cut at byte 2 always happens, the second at byte 4 only once the
/// first pair has parsed.
pub open spec fn hex_color_cuts_char(s: Seq<char>) -> bool {
    let b = hex_color_bytes(s);
    &&& b.len() == 6
    &&& (!is_char_boundary(b, 2) || (hex_pair_spec(b[0], b[1]) is Some && !is_char_boundary(b, 4)))
}

/// The color that `RRGGBB` text denotes (surrounding whitespace and leading
/// `#` allowed).
pub open spec fn parse_hex_color_spec(s: Seq<char>) -> Option<[u8; 3]> {
    let b = hex_color_bytes(s);
    if b.len() != 6 {
        None
    } else {
        match (hex_pair_spec(b[0], b[1]), hex_pair_spec(b[2], b[3]), hex_pair_spec(b[4], b[5])) {
            (Some(r), Some(g), Some(bl)) => Some([r, g, bl]),
            _ => None,
        }
    }
}

/// Six upper-case hex digits for a color.
pub fn rgb_to_hex(rgb: &[u8; 3]) -> (r: String)
    ensures
        r@ == hex_string(*rgb),
{
    let mut s = String::new();
    push_hex_byte(&mut s, rgb[0]);
    push_hex_byte(&mut s, rgb[1]);
    push_hex_byte(&mut s, rgb[2]);
    assert(s@ =~= hex_string(*rgb));
    s
}

proof fn lemma_strip_hashes_skip(s: Seq<char>, k: int)
    requires
        0 <= k <= s.len(),
        forall|j: int| 0 <= j < k ==> #[trigger] s[j] == '#',
        k == s.len() || s[k] != '#',
    ensures
        strip_hashes(s) == s.subrange(k, s.len() as int),
    decreases k,
{
    if k == 0 {
        assert(s.subrange(0, s.len() as int) =~= s);
    } else {
        let t = s.drop_first();
        assert forall|j: int| 0 <= j < k - 1 implies #[trigger] t[j] == '#' by {
            assert(t[j] == s[j + 1]);
        }
        if k - 1 < t.len() {
            assert(t[k - 1] == s[k]);
        }
        lemma_strip_hashes_skip(t, k - 1);
        assert(t.subrange(k - 1, t.len() as int) =~= s.subrange(k, s.len() as int));
    }
}

/// The text after trimming and dropping leading `#`s.
fn hex_color_text(hex: &str) -> (r: String)
    ensures
        r@ == strip_hashes(trim_spec(hex@)),
{
    let trimmed = trim(hex);
    let v = chars_of(trimmed.as_str());
    let mut k: usize = 0;
    while k < v.len() && v[k] == '#'
        invariant
            k <= v.len(),
            forall|j: int| 0 <= j < k ==> #[trigger] v@[j] == '#',
        decreases v.len() - k,
    {
        k = k + 1;
    }
    proof {
        lemma_strip_hashes_skip(v@, k as int);
    }
    string_from_chars(&v, k, v.len())
}

/// Whether `parse_hex_color` would cut a character in two on this text (it
/// panics there).
pub fn hex_color_cuts(hex: &str) -> (r: bool)
    ensures
        r == hex_color_cuts_char(hex@),
{
    let rest = hex_color_text(hex);
    let t = rest.as_str();
    let b = t.as_bytes();
    assert(b@ == hex_color_bytes(hex@));
    if b.len() != 6 {
        return false;
    }
    if !t.is_char_boundary(2) {
        return true;
    }
    match parse_hex_pair(b[0], b[1]) {
        Some(_) => !t.is_char_boundary(4),
        None => false,
    }
}

/// Parses `RRGGBB` (optionally `#RRGGBB`, surrounding whitespace ignored).
pub fn parse_hex_color(hex: &str) -> (r: Option<[u8; 3]>)
    requires
        !hex_color_cuts_char(hex@),
    ensures
        r == parse_hex_color_spec(hex@),
{
    let rest = hex_color_text(hex);
    let b = rest.as_str().as_bytes();
    assert(b@ == hex_color_bytes(hex@));
    if b.len() != 6 {
        return None;
    }
    let r = match parse_hex_pair(b[0], b[1]) {
        Some(x) => x,
        None => return None,
    };
    let g = match parse_hex_pair(b[2], b[3]) {
        Some(x) => x,
        None => return None,
    };
    let bl = match parse_hex_pair(b[4], b[5]) {
        Some(x) => x,
        None => return None,
    };
    Some([r, g, bl])
}

impl ThemeHexFields {
    pub fn from_theme(theme: &ThemeColors) -> (r: Self)
        ensures
            r.text_panel_color@ == hex_string(theme.text_panel_color),
            r.side_panel_color@ == hex_string(theme.side_panel_color),
            r.separator_color@ == hex_string(theme.separator_color),
            r.button_color@ == hex_string(theme.button_color),
            r.text_color@ == hex_string(theme.text_color),
            r.overlay_outline_color@ == hex_string(theme.overlay_outline_color),
    {
        ThemeHexFields {
            text_panel_color: rgb_to_hex(&theme.text_panel_color),
            side_panel_color: rgb_to_hex(&theme.side_panel_color),
            separator_color: rgb_to_hex(&theme.separator_color),
            button_color: rgb_to_hex(&theme.button_color),
            text_color: rgb_to_hex(&theme.text_color),
            overlay_outline_color: rgb_to_hex(&theme.overlay_outline_color),
        }
    }
}

proof fn lemma_hex_upper_props(d: nat)
    requires
        d < 16,
    ensures
        !is_ws(hex_upper(d)),
        hex_upper(d) != '#',
        '\0' <= hex_upper(d) <= '\u{7f}',
        is_hex_byte(hex_upper(d) as u8),
        hex_byte_value(hex_upper(d) as u8) == d,
        hex_upper(d) as u8 != 0x2B,
{
}

/// Trimming leaves a string whose ends are not whitespace unchanged.
pub proof fn lemma_trim_noop(s: Seq<char>)
    requires
        s.len() > 0,
        !is_ws(s[0]),
        !is_ws(s.last()),
    ensures
        trim_spec(s) == s,
{
}

/// A color written as hex text parses back to the same color.
pub proof fn lemma_parse_rgb_to_hex(rgb: [u8; 3])
    ensures
        !hex_color_cuts_char(hex_string(rgb)),
        parse_hex_color_spec(hex_string(rgb)) == Some(rgb),
{
    let s = hex_string(rgb);
    lemma_hex_upper_props((rgb[0] / 16) as nat);
    lemma_hex_upper_props((rgb[0] % 16) as nat);
    lemma_hex_upper_props((rgb[1] / 16) as nat);
    lemma_hex_upper_props((rgb[1] % 16) as nat);
    lemma_hex_upper_props((rgb[2] / 16) as nat);
    lemma_hex_upper_props((rgb[2] % 16) as nat);
    lemma_trim_noop(s);
    assert(strip_hashes(s) == s);
    assert(is_ascii_chars(s));
    is_ascii_chars_encode_utf8(s);
    let b = encode_utf8(s);
    assert(b.len() == 6);
    assert(b[0] == s[0] as u8);
    assert(b[1] == s[1] as u8);
    assert(b[2] == s[2] as u8);
    assert(b[3] == s[3] as u8);
    assert(b[4] == s[4] as u8);
    assert(b[5] == s[5] as u8);
    is_char_boundary_iff_not_is_continuation_byte(b, 2);
    is_char_boundary_iff_not_is_continuation_byte(b, 4);
    assert((rgb[0] / 16) * 16 + rgb[0] % 16 == rgb[0]);
    assert((rgb[1] / 16) * 16 + rgb[1] % 16 == rgb[1]);
    assert((rgb[2] / 16) * 16 + rgb[2] % 16 == rgb[2]);
    assert(parse_hex_color_spec(s) =~= Some(rgb));
}


/// An ASCII hex digit, in either case.
pub open spec fn is_hex_char(c: char) -> bool {
    ('0' <= c && c <= '9') || ('A' <= c && c <= 'F') || ('a' <= c && c <= 'f')
}

/// Six hex digits, as the theme editor's text fields hold them.
pub open spec fn is_hex_text(s: Seq<char>) -> bool {
    s.len() == 6 && forall|i: int| 0 <= i < 6 ==> is_hex_char(#[trigger] s[i])
}

/// `char::to_ascii_uppercase` on a hex digit.
pub open spec fn upper_hex_char(c: char) -> char {
    if 'a' <= c && c <= 'f' {
        ((c as u32) - 32) as char
    } else {
        c
    }
}

/// `str::to_ascii_uppercase` on hex text.
pub open spec fn upper_hex_text(s: Seq<char>) -> Seq<char> {
    Seq::new(s.len(), |i: int| upper_hex_char(s[i]))
}

proof fn lemma_hex_char_props(c: char)
    requires
        is_hex_char(c),
    ensures
        !is_ws(c),
        c != '#',
        '\0' <= c <= '\u{7f}',
        is_hex_byte(c as u8),
        c as u8 != 0x2B,
        hex_byte_value(c as u8) < 16,
        hex_upper(hex_byte_value(c as u8)) == upper_hex_char(c),
{
}

/// Six hex digits parse to a color whose hex text is those digits in upper
/// case.
pub proof fn lemma_hex_text_reprints(s: Seq<char>)
    requires
        is_hex_text(s),
    ensures
        !hex_color_cuts_char(s),
        parse_hex_color_spec(s) is Some,
        hex_string(parse_hex_color_spec(s).unwrap()) == upper_hex_text(s),
{
    lemma_hex_char_props(s[0]);
    lemma_hex_char_props(s[1]);
    lemma_hex_char_props(s[2]);
    lemma_hex_char_props(s[3]);
    lemma_hex_char_props(s[4]);
    lemma_hex_char_props(s[5]);
    lemma_trim_noop(s);
    assert(strip_hashes(s) == s);
    assert(is_ascii_chars(s));
    is_ascii_chars_encode_utf8(s);
    let b = encode_utf8(s);
    assert(b.len() == 6);
    assert(b[0] == s[0] as u8);
    assert(b[1] == s[1] as u8);
    assert(b[2] == s[2] as u8);
    assert(b[3] == s[3] as u8);
    assert(b[4] == s[4] as u8);
    assert(b[5] == s[5] as u8);
    is_char_boundary_iff_not_is_continuation_byte(b, 2);
    is_char_boundary_iff_not_is_continuation_byte(b, 4);
    let v = |i: int| hex_byte_value(s[i] as u8);
    let c = parse_hex_color_spec(s).unwrap();
    assert(c[0] == v(0) * 16 + v(1));
    assert(c[1] == v(2) * 16 + v(3));
    assert(c[2] == v(4) * 16 + v(5));
    assert(c[0] / 16 == v(0) && c[0] % 16 == v(1));
    assert(c[1] / 16 == v(2) && c[1] % 16 == v(3));
    assert(c[2] / 16 == v(4) && c[2] % 16 == v(5));
    assert(hex_string(c) =~= upper_hex_text(s));
}

} // verus!
