//! Colours: by name, as hexadecimal digits, or as `rgb(..)` and `rgba(..)`.

use vstd::prelude::*;
use vstd::slice::slice_subrange;
use vstd::arithmetic::div_mod::{lemma_fundamental_div_mod, lemma_mod_bound};
use crate::lists::{text_list_items, TextList};
use crate::number::{
    lemma_pow10_positive, number_of, parse_number, pow10, read_unsigned, u8_of, Decimal,
};
use crate::text::{
    begins_with, chars_of, has_prefix, index_of, lemma_scan, scan_to, split, split_on,
    substring, texts, trim, trimmed, CharClass,
};

verus! {

/// A colour: red, green, blue and opacity, each from 0 to 255.
#[derive(Clone, Copy, Debug, PartialEq, Eq, Structural)]
pub struct Color {
    pub r: u8,
    pub g: u8,
    pub b: u8,
    pub a: u8,
}

impl Color {
    /// Black, fully opaque.
    pub open spec fn black() -> Color {
        Color { r: 0, g: 0, b: 0, a: 255 }
    }
}

/// What `peniko::Color::parse` makes of a text: its red, green, blue and
/// opacity, if it is the name of a colour or `#` and hexadecimal digits.
pub uninterp spec fn named_color(s: Seq<char>) -> Option<(u8, u8, u8, u8)>;

/// `peniko::Color::parse`: the colour that a name or a hexadecimal form
/// writes, by its four fields. The result depends on the text alone.
#[verifier::external_body]
fn color_by_name(s: &str) -> (r: Option<(u8, u8, u8, u8)>)
    ensures
        r == named_color(s@),
{
    peniko::Color::parse(s).map(|c| (c.r, c.g, c.b, c.a))
}

/// The colour that a name or a hexadecimal form writes.
pub open spec fn color_named(s: Seq<char>) -> Option<Color> {
    match named_color(s) {
        Some((r, g, b, a)) => Some(Color { r, g, b, a }),
        None => None,
    }
}

/// The opacity that a number stands for: 255 times the number, rounded down,
/// after the number was brought into the range from 0 to 1.
pub open spec fn alpha_of(d: Decimal) -> u8 {
    if d.negative {
        0
    } else if d.times_floor(255) >= 255 {
        255
    } else {
        d.times_floor(255) as u8
    }
}

/// The opacity is rounded down, never up: of a number from 0 up to 1 it is
/// the largest whole number that is at most 255 times the number.
pub proof fn lemma_alpha_rounds_down(d: Decimal)
    requires
        !d.negative,
        d.times_floor(255) < 255,
    ensures
        alpha_of(d) * pow10(d.scale as nat) <= 255 * d.mantissa,
        255 * d.mantissa < (alpha_of(d) + 1) * pow10(d.scale as nat),
{
    let p = pow10(d.scale as nat) as int;
    let x = (255 * d.mantissa) as int;
    lemma_pow10_positive(d.scale as nat);
    lemma_fundamental_div_mod(x, p);
    lemma_mod_bound(x, p);
    assert(x / p >= 0) by (nonlinear_arith)
        requires
            x >= 0,
            p > 0,
    ;
    assert((x / p + 1) * p == p * (x / p) + p) by (nonlinear_arith);
    assert((x / p) * p == p * (x / p)) by (nonlinear_arith);
}

/// The opacity that `s` writes.
pub open spec fn rgb_alpha_of(s: Seq<char>) -> Option<u8> {
    match number_of(s) {
        Some(d) => Some(alpha_of(d)),
        None => None,
    }
}

/// The opacity that a number stands for.
pub fn alpha(d: Decimal) -> (r: u8)
    ensures
        r == alpha_of(d),
{
    if d.negative {
        return 0;
    }
    let scaled = d.scaled(255);
    if scaled >= 255 {
        255
    } else {
        scaled as u8
    }
}

/// Reads a red, green or blue channel: a whole number from 0 to 255.
pub fn parse_rgb_value(s: &str) -> (r: Option<u8>)
    ensures
        r == u8_of(s@),
{
    let chars = chars_of(s);
    match read_unsigned(chars.as_slice(), 255) {
        Some(n) => Some(n as u8),
        None => None,
    }
}

/// Reads an opacity: a number, of which 0 is clear and 1 or more is opaque.
pub fn parse_rgb_alpha(s: &str) -> (r: Option<u8>)
    ensures
        r == rgb_alpha_of(s@),
{
    match parse_number(s) {
        Some(d) => Some(alpha(d)),
        None => None,
    }
}

/// The channel that piece `i` of a channel list writes.
pub open spec fn channel_at(pieces: Seq<Seq<char>>, i: int) -> Option<u8> {
    u8_of(trimmed(pieces[i]))
}

/// The colour that three channels write, cut at commas: red, green, blue.
pub open spec fn rgb_of(s: Seq<char>) -> Option<Color> {
    let p = split(s, ',');
    if p.len() == 3 && channel_at(p, 0) is Some && channel_at(p, 1) is Some && channel_at(p, 2)
        is Some {
        Some(
            Color { r: channel_at(p, 0)->0, g: channel_at(p, 1)->0, b: channel_at(p, 2)->0, a: 255 },
        )
    } else {
        None
    }
}

/// The colour that three channels and an opacity write, cut at commas.
pub open spec fn rgba_of(s: Seq<char>) -> Option<Color> {
    let p = split(s, ',');
    if p.len() == 4 && channel_at(p, 0) is Some && channel_at(p, 1) is Some && channel_at(p, 2)
        is Some && rgb_alpha_of(trimmed(p[3])) is Some {
        Some(
            Color {
                r: channel_at(p, 0)->0,
                g: channel_at(p, 1)->0,
                b: channel_at(p, 2)->0,
                a: rgb_alpha_of(trimmed(p[3]))->0,
            },
        )
    } else {
        None
    }
}

/// The pieces of a channel list, each without the white space around it.
pub open spec fn channel_texts(s: Seq<char>) -> Seq<Seq<char>> {
    split(s, ',').map_values(|piece: Seq<char>| trimmed(piece))
}

/// Cuts a channel list at its commas and trims the pieces.
fn channels(s: &str) -> (list: TextList)
    ensures
        text_list_items(list) == channel_texts(s@),
{
    let pieces = split_on(s, ',');
    let mut list = TextList::new();
    let mut i: usize = 0;
    while i < pieces.len()
        invariant
            i <= pieces@.len(),
            texts(pieces@) == split(s@, ','),
            text_list_items(list) == channel_texts(s@).take(i as int),
        decreases pieces@.len() - i,
    {
        let piece = trim(pieces[i].as_str());
        assert(texts(pieces@)[i as int] == pieces@[i as int]@);
        assert(channel_texts(s@).take(i + 1) =~= text_list_items(list).push(piece@));
        list.push(piece);
        i = i + 1;
    }
    assert(channel_texts(s@).take(i as int) =~= channel_texts(s@));
    list
}

/// Reads the channel that piece `i` writes.
fn channel(list: &TextList, i: usize) -> (r: Option<u8>)
    requires
        i < text_list_items(*list).len(),
    ensures
        r == u8_of(text_list_items(*list)[i as int]),
{
    parse_rgb_value(list.get(i).as_str())
}

/// Reads what stands between the parentheses of `rgb(..)`.
pub fn parse_rgb(s: &str) -> (r: Option<Color>)
    ensures
        r == rgb_of(s@),
{
    let pieces = channels(s);
    if pieces.len() != 3 {
        return None;
    }
    match (channel(&pieces, 0), channel(&pieces, 1), channel(&pieces, 2)) {
        (Some(r), Some(g), Some(b)) => Some(Color { r, g, b, a: 255 }),
        _ => None,
    }
}

/// Reads what stands between the parentheses of `rgba(..)`.
pub fn parse_rgba(s: &str) -> (r: Option<Color>)
    ensures
        r == rgba_of(s@),
{
    let pieces = channels(s);
    if pieces.len() != 4 {
        return None;
    }
    match (
        channel(&pieces, 0),
        channel(&pieces, 1),
        channel(&pieces, 2),
        parse_rgb_alpha(pieces.get(3).as_str()),
    ) {
        (Some(r), Some(g), Some(b), Some(a)) => Some(Color { r, g, b, a }),
        _ => None,
    }
}

/// Where the channels of a colour function stand: the index just after the
/// first `(`, and one more than the distance from that `(` to the first `)`
/// after it. Without a `(` the text counts from its start. There is a result
/// when the distance is larger than the index of the `(`.
pub open spec fn rgb_span(s: Seq<char>) -> Option<(int, int)> {
    let start = match index_of(s, '(') {
        Some(i) => i,
        None => 0,
    };
    let end = match index_of(s.skip(start), ')') {
        Some(i) => i,
        None => 0,
    };
    if end > start {
        Some((start + 1, end + 1))
    } else {
        None
    }
}

/// The channels of a colour function: what stands between its parentheses.
pub open spec fn rgb_inner(s: Seq<char>) -> Option<Seq<char>> {
    match rgb_span(s) {
        Some((from, span)) => Some(s.subrange(from, from + span - 2)),
        None => None,
    }
}

/// The span lies within the text.
pub proof fn lemma_rgb_span(s: Seq<char>)
    ensures
        rgb_span(s) matches Some((from, span)) ==> 1 <= from <= from + span - 2 < s.len(),
{
    lemma_scan(s, 0, CharClass::Is('('));
    let start = match index_of(s, '(') {
        Some(i) => i,
        None => 0,
    };
    lemma_scan(s.skip(start), 0, CharClass::Is(')'));
}

/// Finds the channels of a colour function.
pub fn get_rgb_value(s: &str) -> (r: Option<(usize, usize)>)
    ensures
        r is Some <==> rgb_span(s@) is Some,
        r matches Some((from, span)) ==> rgb_span(s@) == Some((from as int, span as int)),
{
    let chars = chars_of(s);
    let n = chars.len();
    let open = scan_to(chars.as_slice(), 0, CharClass::Is('('));
    let start: usize = if open < n {
        open
    } else {
        0
    };
    let rest = slice_subrange(chars.as_slice(), start, n);
    let close = scan_to(rest, 0, CharClass::Is(')'));
    let end: usize = if close < rest.len() {
        close
    } else {
        0
    };
    if end > start {
        Some((start + 1, end + 1))
    } else {
        None
    }
}

/// The colour that `s` writes.
///
/// - After `#` come hexadecimal digits.
/// - `rgba(..)` and `rgb(..)` hold channels between their parentheses.
/// - `hsl` and `hwb` forms are not read.
/// - Anything else is a colour's name.
pub open spec fn color_of(s: Seq<char>) -> Option<Color> {
    if begins_with(s, "#"@) {
        color_named(s)
    } else if begins_with(s, "rgba"@) {
        match rgb_inner(s) {
            Some(inner) => rgba_of(inner),
            None => None,
        }
    } else if begins_with(s, "rgb"@) {
        match rgb_inner(s) {
            Some(inner) => rgb_of(inner),
            None => None,
        }
    } else if begins_with(s, "hsl"@) || begins_with(s, "hwb"@) {
        None
    } else {
        color_named(s)
    }
}

/// The text between the parentheses of a colour function.
fn inner_text(s: &str) -> (r: Option<String>)
    ensures
        match r {
            Some(t) => Some(t@),
            None => None,
        } == rgb_inner(s@),
{
    proof {
        lemma_rgb_span(s@);
    }
    match get_rgb_value(s) {
        Some((from, span)) => {
            let chars = chars_of(s);
            Some(substring(chars.as_slice(), from, from + (span - 2)))
        },
        None => None,
    }
}

/// The colour with the four fields that a name or a hexadecimal form gave.
pub fn color_from_fields(fields: Option<(u8, u8, u8, u8)>) -> (r: Option<Color>)
    ensures
        r == match fields {
            Some((r, g, b, a)) => Some(Color { r, g, b, a }),
            None => None,
        },
{
    match fields {
        Some((r, g, b, a)) => Some(Color { r, g, b, a }),
        None => None,
    }
}

/// Reads a colour.
pub fn parse_color(s: &str) -> (r: Option<Color>)
    ensures
        r == color_of(s@),
{
    let chars = chars_of(s);
    let c = chars.as_slice();
    if has_prefix(c, "#") {
        return color_from_fields(color_by_name(s));
    }
    if has_prefix(c, "rgba") {
        return match inner_text(s) {
            Some(inner) => parse_rgba(inner.as_str()),
            None => None,
        };
    }
    if has_prefix(c, "rgb") {
        return match inner_text(s) {
            Some(inner) => parse_rgb(inner.as_str()),
            None => None,
        };
    }
    if has_prefix(c, "hsl") || has_prefix(c, "hwb") {
        return None;
    }
    color_from_fields(color_by_name(s))
}

} // verus!
