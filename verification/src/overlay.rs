//! Sizes and labels of the in-game overlay.

use vstd::prelude::*;
use crate::text::{chars_of, string_from_chars, push_char, to_owned_string};

verus! {

/// Names longer than this are cut in the overlay.
pub const SHORT_NAME_MAX: usize = 12;

pub open spec fn short_name_spec(name: Seq<char>) -> Seq<char> {
    if name.len() > SHORT_NAME_MAX {
        name.take(SHORT_NAME_MAX as int).push('\u{2026}')
    } else {
        name
    }
}

/// A name cut to 12 characters, with an ellipsis when it was longer.
pub fn short_name(name: &str) -> (r: String)
    ensures
        r@ == short_name_spec(name@),
{
    let v = chars_of(name);
    if v.len() > SHORT_NAME_MAX {
        let mut r = string_from_chars(&v, 0, SHORT_NAME_MAX);
        push_char(&mut r, '\u{2026}');
        r
    } else {
        to_owned_string(name)
    }
}

pub open spec fn clamp_spec(x: int, lo: int, hi: int) -> int {
    if x < lo {
        lo
    } else if x > hi {
        hi
    } else {
        x
    }
}

fn clamp_i32(x: i32, lo: i32, hi: i32) -> (r: i32)
    requires
        lo <= hi,
    ensures
        r == clamp_spec(x as int, lo as int, hi as int),
{
    if x < lo {
        lo
    } else if x > hi {
        hi
    } else {
        x
    }
}

/// The overlay's text box size in pixels: width within 180..=1400, height
/// within 120..=900.
pub fn overlay_text_box(w: i32, h: i32) -> (r: (i32, i32))
    ensures
        r.0 == clamp_spec(w as int, 180, 1400),
        r.1 == clamp_spec(h as int, 120, 900),
{
    (clamp_i32(w, 180, 1400), clamp_i32(h, 120, 900))
}

/// The configured overlay text size, within 8..=48 pixels.
pub fn overlay_text_size(size: i32) -> (r: i32)
    ensures
        r == clamp_spec(size as int, 8, 48),
{
    clamp_i32(size, 8, 48)
}

/// An overlay offset from its corner; negative offsets count as zero.
pub fn overlay_offset(d: i32) -> (r: i32)
    ensures
        r == (if d < 0 {
            0
        } else {
            d
        }),
{
    if d < 0 {
        0
    } else {
        d
    }
}

/// Which corner the overlay sits in.
#[derive(Clone, Copy, PartialEq, Eq, Structural, Debug)]
pub enum Corner {
    TopLeft,
    TopRight,
    BottomLeft,
    BottomRight,
}

/// Position code 1 is top right, 2 bottom left, 3 bottom right; any other
/// code is top left.
pub fn overlay_corner(position: u8) -> (r: Corner)
    ensures
        r == (if position == 1 {
            Corner::TopRight
        } else if position == 2 {
            Corner::BottomLeft
        } else if position == 3 {
            Corner::BottomRight
        } else {
            Corner::TopLeft
        }),
{
    if position == 1 {
        Corner::TopRight
    } else if position == 2 {
        Corner::BottomLeft
    } else if position == 3 {
        Corner::BottomRight
    } else {
        Corner::TopLeft
    }
}

/// The avatar/webcam column stands left of the text for positions 0 and 2.
pub fn overlay_media_left(position: u8) -> (r: bool)
    ensures
        r == (position == 0 || position == 2),
{
    position == 0 || position == 2
}

/// The name of an overlay position in the theme editor.
pub fn overlay_position_label(position: u8) -> (r: &'static str)
    ensures
        r@ == (if position == 1 {
            "Top right"@
        } else if position == 2 {
            "Bottom left"@
        } else if position == 3 {
            "Bottom right"@
        } else {
            "Top left"@
        }),
{
    if position == 1 {
        "Top right"
    } else if position == 2 {
        "Bottom left"
    } else if position == 3 {
        "Bottom right"
    } else {
        "Top left"
    }
}

/// Only the 60 most recent log entries show in the overlay: the index of the
/// first one shown.
pub fn overlay_first_entry(len: usize) -> (r: usize)
    ensures
        r == (if len > 60 {
            len - 60
        } else {
            0
        }),
{
    if len > 60 {
        len - 60
    } else {
        0
    }
}

} // verus!
