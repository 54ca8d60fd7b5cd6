//! Colours written as hexadecimal text: `#rgb` and `#rrggbb` read into bytes,
//! and the constructor text that the theme table is generated with.
use crate::gap_buffer::{chars_of, string_of};
use vstd::prelude::*;
use vstd::string::StringSliceAdditionalSpecFns;

verus! {

/// A colour as four bytes: red, green, blue and opacity.
#[derive(Clone, Copy, Debug, PartialEq, Eq, Structural)]
pub struct Rgba {
    pub r: u8,
    pub g: u8,
    pub b: u8,
    pub a: u8,
}

/// Opaque white: what text that is not a colour stands for.
pub open spec fn white() -> Rgba {
    Rgba { r: 255, g: 255, b: 255, a: 255 }
}

/// The value of one hexadecimal digit, of either case.
pub open spec fn hex_digit(c: u8) -> Option<u8> {
    if 48 <= c <= 57 {
        Some((c - 48) as u8)
    } else if 97 <= c <= 102 {
        Some((c - 87) as u8)
    } else if 65 <= c <= 70 {
        Some((c - 55) as u8)
    } else {
        None
    }
}

/// A byte read from two hexadecimal digits; a leading `+` stands for no digit,
/// as in `u8::from_str_radix(_, 16)`.
pub open spec fn hex_pair(hi: u8, lo: u8) -> Option<u8> {
    if hi == 43 {
        hex_digit(lo)
    } else {
        match (hex_digit(hi), hex_digit(lo)) {
            (Some(h), Some(l)) => Some((16 * h + l) as u8),
            _ => None,
        }
    }
}

/// A byte read from two digits, or 255 where they are no hexadecimal number.
pub open spec fn channel(hi: u8, lo: u8) -> u8 {
    match hex_pair(hi, lo) {
        Some(v) => v,
        None => 255,
    }
}

/// `s` without the `#` characters at its start.
pub open spec fn trim_hashes(s: Seq<u8>) -> Seq<u8>
    decreases s.len(),
{
    if s.len() > 0 && s[0] == 35 {
        trim_hashes(s.drop_first())
    } else {
        s
    }
}

/// The colour that hexadecimal text stands for: three digits, each doubled,
/// or six digits, two per channel; white for any other length. A channel
/// whose digits are not hexadecimal is 255.
pub open spec fn color_of_hex(text: Seq<u8>) -> Rgba {
    let h = trim_hashes(text);
    if h.len() == 3 {
        Rgba { r: channel(h[0], h[0]), g: channel(h[1], h[1]), b: channel(h[2], h[2]), a: 255 }
    } else if h.len() == 6 {
        Rgba { r: channel(h[0], h[1]), g: channel(h[2], h[3]), b: channel(h[4], h[5]), a: 255 }
    } else {
        white()
    }
}

fn digit_value(c: u8) -> (r: Option<u8>)
    ensures
        r == hex_digit(c),
{
    if 48 <= c && c <= 57 {
        Some(c - 48)
    } else if 97 <= c && c <= 102 {
        Some(c - 87)
    } else if 65 <= c && c <= 70 {
        Some(c - 55)
    } else {
        None
    }
}

fn pair_value(hi: u8, lo: u8) -> (r: Option<u8>)
    ensures
        r == hex_pair(hi, lo),
{
    if hi == 43 {
        return digit_value(lo);
    }
    match (digit_value(hi), digit_value(lo)) {
        (Some(h), Some(l)) => Some(16 * h + l),
        _ => None,
    }
}

fn channel_value(hi: u8, lo: u8) -> (r: u8)
    ensures
        r == channel(hi, lo),
{
    match pair_value(hi, lo) {
        Some(v) => v,
        None => 255,
    }
}

/// The colour that `hex` stands for, leading `#` characters skipped.
pub fn hex_to_color(hex: &str) -> (r: Rgba)
    ensures
        r == color_of_hex(hex.spec_bytes()),
{
    let b = hex.as_bytes();
    let mut i: usize = 0;
    assert(b@.subrange(0, b@.len() as int) =~= b@);
    while i < b.len() && b[i] == 35
        invariant
            i <= b@.len(),
            trim_hashes(b@) == trim_hashes(b@.subrange(i as int, b@.len() as int)),
        decreases b@.len() - i,
    {
        proof {
            let rest = b@.subrange(i as int, b@.len() as int);
            assert(rest.drop_first() =~= b@.subrange(i + 1, b@.len() as int));
        }
        i = i + 1;
    }
    let ghost h = b@.subrange(i as int, b@.len() as int);
    proof {
        assert(trim_hashes(h) == h);
    }
    let n = b.len() - i;
    if n == 3 {
        Rgba {
            r: channel_value(b[i], b[i]),
            g: channel_value(b[i + 1], b[i + 1]),
            b: channel_value(b[i + 2], b[i + 2]),
            a: 255,
        }
    } else if n == 6 {
        Rgba {
            r: channel_value(b[i], b[i + 1]),
            g: channel_value(b[i + 2], b[i + 3]),
            b: channel_value(b[i + 4], b[i + 5]),
            a: 255,
        }
    } else {
        Rgba { r: 255, g: 255, b: 255, a: 255 }
    }
}

/// Digits per channel in constructor input: two for six bytes, else one.
pub open spec fn digits_per_channel(text: Seq<u8>) -> int {
    if text.len() == 6 {
        2
    } else {
        1
    }
}

/// A channel of constructor input: a number of one or two hexadecimal digits.
pub open spec fn chunk_value(text: Seq<u8>, i: int) -> Option<u8> {
    let k = digits_per_channel(text);
    if k == 2 {
        hex_pair(text[2 * i], text[2 * i + 1])
    } else {
        hex_digit(text[i])
    }
}

/// Text that the theme table can be generated from: each of the three
/// channels is a hexadecimal number.
pub open spec fn valid_constructor_input(text: Seq<u8>) -> bool {
    &&& text.len() >= 3 * digits_per_channel(text)
    &&& chunk_value(text, 0) is Some
    &&& chunk_value(text, 1) is Some
    &&& chunk_value(text, 2) is Some
}

/// Whether `hex` is input that `hex_to_color_constructor` accepts.
pub fn is_constructor_input(hex: &str) -> (r: bool)
    ensures
        r == valid_constructor_input(hex.spec_bytes()),
{
    let b = hex.as_bytes();
    if b.len() == 6 {
        pair_value(b[0], b[1]).is_some() && pair_value(b[2], b[3]).is_some() && pair_value(
            b[4],
            b[5],
        ).is_some()
    } else {
        b.len() >= 3 && digit_value(b[0]).is_some() && digit_value(b[1]).is_some() && digit_value(
            b[2],
        ).is_some()
    }
}

/// The decimal digits of `n`, without leading zeros.
pub open spec fn decimal(n: nat) -> Seq<char>
    decreases n,
{
    if n < 10 {
        seq![(48 + n) as char]
    } else {
        decimal(n / 10).push(((48 + n % 10) as char))
    }
}

fn decimal_of(n: u8) -> (r: Vec<char>)
    ensures
        r@ == decimal(n as nat),
{
    let mut v: Vec<char> = Vec::new();
    if n >= 100 {
        v.push(((48 + n / 100) as u8) as char);
    }
    if n >= 10 {
        v.push(((48 + (n / 10) % 10) as u8) as char);
    }
    v.push(((48 + n % 10) as u8) as char);
    proof {
        if n >= 100 {
            assert(decimal((n / 100) as nat) == seq![((48 + n / 100) as char)]);
            assert(decimal((n / 10) as nat) =~= seq![((48 + n / 100) as char), ((48 + (n / 10) % 10) as char)]);
        } else if n >= 10 {
            assert(decimal((n / 10) as nat) == seq![((48 + n / 10) as char)]);
        }
        assert(v@ =~= decimal(n as nat));
    }
    v
}

pub(crate) fn append(v: &mut Vec<char>, tail: &Vec<char>)
    ensures
        final(v)@ == old(v)@ + tail@,
{
    let mut i: usize = 0;
    while i < tail.len()
        invariant
            i <= tail@.len(),
            v@ == old(v)@ + tail@.subrange(0, i as int),
        decreases tail@.len() - i,
    {
        v.push(tail[i]);
        i = i + 1;
        assert(v@ =~= old(v)@ + tail@.subrange(0, i as int));
    }
    assert(tail@.subrange(0, i as int) =~= tail@);
}

/// The constructor call for the colour of constructor input `text`.
pub open spec fn constructor_text(text: Seq<u8>) -> Seq<char> {
    "color_u8!("@ + decimal(chunk_value(text, 0)->0 as nat) + ", "@ + decimal(
        chunk_value(text, 1)->0 as nat,
    ) + ", "@ + decimal(chunk_value(text, 2)->0 as nat) + ", 255)"@
}

/// The text of the constructor call for a colour read from `hex`: two digits
/// per channel for six bytes of input, one otherwise (not doubled).
pub fn hex_to_color_constructor(hex: &str) -> (r: String)
    requires
        valid_constructor_input(hex.spec_bytes()),
    ensures
        r@ == constructor_text(hex.spec_bytes()),
{
    let b = hex.as_bytes();
    let two = b.len() == 6;
    let red: u8;
    let green: u8;
    let blue: u8;
    if two {
        red = unwrap_value(pair_value(b[0], b[1]));
        green = unwrap_value(pair_value(b[2], b[3]));
        blue = unwrap_value(pair_value(b[4], b[5]));
    } else {
        red = unwrap_value(digit_value(b[0]));
        green = unwrap_value(digit_value(b[1]));
        blue = unwrap_value(digit_value(b[2]));
    }
    let sep = chars_of(", ");
    let mut out = chars_of("color_u8!(");
    append(&mut out, &decimal_of(red));
    append(&mut out, &sep);
    append(&mut out, &decimal_of(green));
    append(&mut out, &sep);
    append(&mut out, &decimal_of(blue));
    append(&mut out, &chars_of(", 255)"));
    string_of(&out)
}

fn unwrap_value(v: Option<u8>) -> (r: u8)
    requires
        v is Some,
    ensures
        r == v->0,
{
    match v {
        Some(x) => x,
        None => 0,
    }
}

} // verus!
