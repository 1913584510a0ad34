//! Colours: 24-bit RGB triplets, the `#RRGGBB` notation that Twitch uses,
//! and the palette that unnamed channels draw their colour from.

use std::str::FromStr;
use twitchchat::twitch::color::Color;
use vstd::prelude::*;
use vstd::string::{StrSliceExecFns, StringSliceAdditionalSpecFns};
use vstd::utf8::{
    encode_utf8, encode_utf8_valid_utf8, is_ascii_chars, is_ascii_chars_encode_utf8, is_char_boundary,
    is_char_boundary_iff_is_leading_byte,
};

verus! {

/// A 24-bit colour.
#[derive(Clone, Copy, Debug, PartialEq, Eq, Structural)]
pub struct Rgb {
    pub r: u8,
    pub g: u8,
    pub b: u8,
}

/// The triplet as a tuple, the form in which outside results are named.
pub open spec fn rgb_of(t: (u8, u8, u8)) -> Rgb {
    Rgb { r: t.0, g: t.1, b: t.2 }
}

/// White, the colour that stands in wherever none is known.
pub open spec fn white() -> Rgb {
    Rgb { r: 255, g: 255, b: 255 }
}

/// The value of a hexadecimal digit (either case), or -1 for any other char.
pub open spec fn hex_digit_value(c: char) -> int {
    if '0' <= c && c <= '9' {
        c as int - '0' as int
    } else if 'a' <= c && c <= 'f' {
        c as int - 'a' as int + 10
    } else if 'A' <= c && c <= 'F' {
        c as int - 'A' as int + 10
    } else {
        -1
    }
}

/// `s` is `#` followed by exactly six hexadecimal digits.
pub open spec fn is_hash_hex(s: Seq<char>) -> bool {
    &&& s.len() == 7
    &&& s[0] == '#'
    &&& forall|i: int| 1 <= i < 7 ==> hex_digit_value(#[trigger] s[i]) >= 0
}

/// The byte written by the two hex digits at `i` and `i + 1`.
pub open spec fn hex_byte(s: Seq<char>, i: int) -> u8 {
    (16 * hex_digit_value(s[i]) + hex_digit_value(s[i + 1])) as u8
}

/// The colour that a `#RRGGBB` string denotes.
pub open spec fn hash_hex_rgb(s: Seq<char>) -> Rgb {
    Rgb { r: hex_byte(s, 1), g: hex_byte(s, 3), b: hex_byte(s, 5) }
}

/// An ASCII capital letter.
pub open spec fn is_ascii_capital(c: char) -> bool {
    'A' <= c && c <= 'Z'
}

/// `k` is the position of the first ASCII capital after the first character
/// of `s`: where twitchchat's `Color::from_str` inserts a `_` into a name
/// written without spaces or underscores.
pub open spec fn first_inner_capital(s: Seq<char>, k: int) -> bool {
    &&& 1 <= k < s.len()
    &&& is_ascii_capital(s[k])
    &&& forall|j: int| 1 <= j < k ==> !is_ascii_capital(#[trigger] s[j])
}

/// `Color::from_str` parses `s` without panicking. It inserts its `_` at the
/// character position of `first_inner_capital`, used as a byte offset, and
/// `String::insert` panics unless that offset starts a character.
pub open spec fn color_parse_safe(s: Seq<char>) -> bool {
    ||| s.contains(' ')
    ||| s.contains('_')
    ||| forall|k: int| first_inner_capital(s, k) ==> is_char_boundary(encode_utf8(s), k)
}

/// Text in ASCII is always safe to parse.
pub proof fn ascii_color_parse_safe(s: Seq<char>)
    requires
        is_ascii_chars(s),
    ensures
        color_parse_safe(s),
{
    assert forall|k: int| first_inner_capital(s, k) implies is_char_boundary(encode_utf8(s), k) by {
        is_ascii_chars_encode_utf8(s);
        encode_utf8_valid_utf8(s);
        is_char_boundary_iff_is_leading_byte(encode_utf8(s), k);
        assert(s[k] as u8 == encode_utf8(s)[k]);
    }
}

/// A `#RRGGBB` string is ASCII.
pub proof fn hash_hex_is_ascii(s: Seq<char>)
    requires
        is_hash_hex(s),
    ensures
        is_ascii_chars(s),
{
    assert forall|i: int| 0 <= i < s.len() implies '\0' <= #[trigger] s[i] <= '\u{7f}' by {
        if i > 0 {
            assert(hex_digit_value(s[i]) >= 0);
        }
    }
}

/// Whether twitchchat can parse `s` as a colour without panicking (see
/// `color_parse_safe`).
pub fn color_parse_is_safe(s: &str) -> (ok: bool)
    ensures
        ok == color_parse_safe(s@),
{
    let n = s.unicode_len();
    let mut i: usize = 0;
    while i < n
        invariant
            n == s@.len(),
            i <= n,
            forall|j: int| 0 <= j < i ==> s@[j] != ' ' && s@[j] != '_',
        decreases n - i,
    {
        let c = s.get_char(i);
        if c == ' ' || c == '_' {
            assert(s@.contains(c));
            return true;
        }
        i = i + 1;
    }
    assert(!s@.contains(' ') && !s@.contains('_'));
    let mut k: usize = 1;
    while k < n
        invariant
            n == s@.len(),
            1 <= k,
            !s@.contains(' ') && !s@.contains('_'),
            forall|j: int| 1 <= j < k && j < n ==> !is_ascii_capital(#[trigger] s@[j]),
        decreases n - k,
    {
        let c = s.get_char(k);
        if 'A' <= c && c <= 'Z' {
            assert(first_inner_capital(s@, k as int));
            assert forall|m: int| first_inner_capital(s@, m) implies m == k by {
                if m < k {
                    assert(!is_ascii_capital(s@[m]));
                } else if m > k {
                    assert(!is_ascii_capital(s@[k as int]));
                }
            }
            assert(s.spec_bytes() == encode_utf8(s@));
            return s.is_char_boundary(k);
        }
        k = k + 1;
    }
    assert forall|m: int| !first_inner_capital(s@, m) by {
        if 1 <= m < s@.len() {
            assert(!is_ascii_capital(s@[m]));
        }
    }
    true
}

/// An optional triplet as an optional colour.
pub open spec fn rgb_option(o: Option<(u8, u8, u8)>) -> Option<Rgb> {
    match o {
        Some(t) => Some(rgb_of(t)),
        None => None,
    }
}

/// What twitchchat's `Color::from_str` gives for a string, as an RGB triplet
/// (`None` where it returns an error).
pub uninterp spec fn twitch_color_rgb(s: Seq<char>) -> Option<(u8, u8, u8)>;

/// Parses a colour with twitchchat's `Color::from_str`, keeping its RGB part.
///
/// Trusted: the result is what `twitch_color_rgb` names. From the crate's
/// source: a string that starts with `#` is never one of the colour names, so
/// it goes to `RGB::from_str`, which reads `#` and six hex digits as the
/// triplet; and the Pascal-case name `Blue` gives `#0000FF`. The `requires`
/// leaves out the strings on which it panics (see `color_parse_safe`).
#[verifier::external_body]
pub(crate) fn parse_twitch_color(s: &str) -> (r: Option<Rgb>)
    requires
        color_parse_safe(s@),
    ensures
        r == rgb_option(twitch_color_rgb(s@)),
        is_hash_hex(s@) ==> r == Some(hash_hex_rgb(s@)),
        s@ == seq!['B', 'l', 'u', 'e'] ==> r == Some(Rgb { r: 0, g: 0, b: 255 }),
{
    Color::from_str(s).ok().map(|c| Rgb { r: c.rgb.0, g: c.rgb.1, b: c.rgb.2 })
}


/// The colours that a channel without one of its own draws from, in order.
pub open spec fn palette_color(i: int) -> Rgb {
    if i == 0 {
        Rgb { r: 0, g: 0, b: 255 }
    } else if i == 1 {
        Rgb { r: 138, g: 43, b: 226 }
    } else if i == 2 {
        Rgb { r: 95, g: 158, b: 160 }
    } else if i == 3 {
        Rgb { r: 210, g: 105, b: 30 }
    } else if i == 4 {
        Rgb { r: 255, g: 127, b: 80 }
    } else if i == 5 {
        Rgb { r: 30, g: 144, b: 255 }
    } else if i == 6 {
        Rgb { r: 178, g: 34, b: 34 }
    } else if i == 7 {
        Rgb { r: 218, g: 165, b: 32 }
    } else if i == 8 {
        Rgb { r: 0, g: 128, b: 0 }
    } else if i == 9 {
        Rgb { r: 255, g: 105, b: 180 }
    } else if i == 10 {
        Rgb { r: 255, g: 69, b: 0 }
    } else if i == 11 {
        Rgb { r: 255, g: 0, b: 0 }
    } else if i == 12 {
        Rgb { r: 46, g: 139, b: 87 }
    } else if i == 13 {
        Rgb { r: 0, g: 255, b: 127 }
    } else {
        Rgb { r: 173, g: 255, b: 47 }
    }
}

/// Number of colours in the palette.
pub open spec fn palette_len() -> int {
    15
}

/// The palette written out the way Twitch writes colours, `#RRGGBB`.
pub(crate) fn palette_strings() -> (v: Vec<&'static str>)
    ensures
        v@.len() == palette_len(),
        forall|i: int|
            0 <= i < palette_len() ==> is_hash_hex(#[trigger] v@[i]@) && hash_hex_rgb(v@[i]@)
                == palette_color(i),
{
    proof {
        reveal_strlit("#0000FF");
        reveal_strlit("#8A2BE2");
        reveal_strlit("#5F9EA0");
        reveal_strlit("#D2691E");
        reveal_strlit("#FF7F50");
        reveal_strlit("#1E90FF");
        reveal_strlit("#B22222");
        reveal_strlit("#DAA520");
        reveal_strlit("#008000");
        reveal_strlit("#FF69B4");
        reveal_strlit("#FF4500");
        reveal_strlit("#FF0000");
        reveal_strlit("#2E8B57");
        reveal_strlit("#00FF7F");
        reveal_strlit("#ADFF2F");
    }
    let v: Vec<&'static str> = vec!["#0000FF", "#8A2BE2", "#5F9EA0", "#D2691E", "#FF7F50", "#1E90FF", "#B22222", "#DAA520", "#008000", "#FF69B4", "#FF4500", "#FF0000", "#2E8B57", "#00FF7F", "#ADFF2F"];
    assert(is_hash_hex(v@[0]@) && hash_hex_rgb(v@[0]@) == palette_color(0));
    assert(is_hash_hex(v@[1]@) && hash_hex_rgb(v@[1]@) == palette_color(1));
    assert(is_hash_hex(v@[2]@) && hash_hex_rgb(v@[2]@) == palette_color(2));
    assert(is_hash_hex(v@[3]@) && hash_hex_rgb(v@[3]@) == palette_color(3));
    assert(is_hash_hex(v@[4]@) && hash_hex_rgb(v@[4]@) == palette_color(4));
    assert(is_hash_hex(v@[5]@) && hash_hex_rgb(v@[5]@) == palette_color(5));
    assert(is_hash_hex(v@[6]@) && hash_hex_rgb(v@[6]@) == palette_color(6));
    assert(is_hash_hex(v@[7]@) && hash_hex_rgb(v@[7]@) == palette_color(7));
    assert(is_hash_hex(v@[8]@) && hash_hex_rgb(v@[8]@) == palette_color(8));
    assert(is_hash_hex(v@[9]@) && hash_hex_rgb(v@[9]@) == palette_color(9));
    assert(is_hash_hex(v@[10]@) && hash_hex_rgb(v@[10]@) == palette_color(10));
    assert(is_hash_hex(v@[11]@) && hash_hex_rgb(v@[11]@) == palette_color(11));
    assert(is_hash_hex(v@[12]@) && hash_hex_rgb(v@[12]@) == palette_color(12));
    assert(is_hash_hex(v@[13]@) && hash_hex_rgb(v@[13]@) == palette_color(13));
    assert(is_hash_hex(v@[14]@) && hash_hex_rgb(v@[14]@) == palette_color(14));
    v
}

} // verus!
