//! The shorthands that take their parts in more than one order: `box-shadow`
//! and `border`.

use vstd::prelude::*;
use crate::color::{color_of, parse_color, Color};
use crate::length::{parse_px, parse_px_pct, px_of, px_pct_of, Px, PxPct};
use crate::lists::{text_list_items, TextList};
use crate::number::Decimal;
use crate::text::{
    chars_of, is_space, is_whitespace, is_word, split_words, substring, words,
};

verus! {

/// A box shadow.
#[derive(Clone, Copy, Debug, PartialEq, Eq, Structural)]
pub struct BoxShadow {
    pub blur_radius: PxPct,
    pub color: Color,
    pub spread: PxPct,
    pub h_offset: PxPct,
    pub v_offset: PxPct,
}

/// No pixels.
pub open spec fn zero_px() -> PxPct {
    PxPct::Px(Decimal::whole(0))
}

impl BoxShadow {
    /// The shadow that `none` writes and that every other shadow starts
    /// from: black, with no offset, blur or spread.
    pub open spec fn plain() -> BoxShadow {
        BoxShadow {
            blur_radius: zero_px(),
            color: Color::black(),
            spread: zero_px(),
            h_offset: zero_px(),
            v_offset: zero_px(),
        }
    }
}

impl Default for BoxShadow {
    fn default() -> (r: BoxShadow)
        ensures
            r == BoxShadow::plain(),
    {
        let zero = PxPct::Px(Decimal { negative: false, mantissa: 0, scale: 0 });
        BoxShadow {
            blur_radius: zero,
            color: Color { r: 0, g: 0, b: 0, a: 255 },
            spread: zero,
            h_offset: zero,
            v_offset: zero,
        }
    }
}

/// One part of a shadow, read both ways: as a length and as a colour.
#[derive(Clone, Copy, Debug, PartialEq, Eq, Structural)]
pub struct Reading {
    pub length: Option<PxPct>,
    pub color: Option<Color>,
}

/// What the text `s` is as a length and as a colour.
pub open spec fn reading_of(s: Seq<char>) -> Reading {
    Reading { length: px_pct_of(s), color: color_of(s) }
}

/// Reads one part of a shadow both ways.
pub fn read_part(s: &str) -> (r: Reading)
    ensures
        r == reading_of(s@),
{
    Reading { length: parse_px_pct(s), color: parse_color(s) }
}

/// Whether the parts from `from` up to `to` are all lengths.
pub open spec fn lengths_in(parts: Seq<Reading>, from: int, to: int) -> bool {
    forall|i: int| from <= i < to ==> (#[trigger] parts[i]).length is Some
}

/// The shadow whose lengths are the parts from index `from` on, in the order
/// horizontal offset, vertical offset, blur, spread, as far as there are
/// `count` of them; the others are those of the plain shadow.
pub open spec fn shadow_with(parts: Seq<Reading>, from: int, count: int, color: Color) -> BoxShadow {
    BoxShadow {
        h_offset: parts[from].length->0,
        v_offset: parts[from + 1].length->0,
        blur_radius: if count >= 3 {
            parts[from + 2].length->0
        } else {
            zero_px()
        },
        spread: if count >= 4 {
            parts[from + 3].length->0
        } else {
            zero_px()
        },
        color,
    }
}

/// The shadow that two to five parts write. The layouts are tried in this
/// order, and the first that fits is taken:
///
/// 1. lengths, then a colour (three parts or more);
/// 2. a colour, then lengths (three parts or more);
/// 3. lengths only (up to four parts).
///
/// The lengths are the two offsets, then the blur, then the spread.
pub open spec fn shadow_of(parts: Seq<Reading>) -> Option<BoxShadow> {
    let n = parts.len() as int;
    if n < 2 || n > 5 {
        None
    } else if n >= 3 && lengths_in(parts, 0, n - 1) && parts[n - 1].color is Some {
        Some(shadow_with(parts, 0, n - 1, parts[n - 1].color->0))
    } else if n >= 3 && parts[0].color is Some && lengths_in(parts, 1, n) {
        Some(shadow_with(parts, 1, n - 1, parts[0].color->0))
    } else if n <= 4 && lengths_in(parts, 0, n) {
        Some(shadow_with(parts, 0, n, Color::black()))
    } else {
        None
    }
}

/// A part that is a length and no colour.
pub open spec fn only_length(length: PxPct) -> Reading {
    Reading { length: Some(length), color: None }
}

/// A part that is a colour and no length.
pub open spec fn only_color(color: Color) -> Reading {
    Reading { length: None, color: Some(color) }
}

/// The colour may stand first or last: with the two offsets, the blur and
/// the spread in the same order, both layouts write the same shadow.
pub proof fn lemma_colour_first_or_last(h: PxPct, v: PxPct, blur: PxPct, spread: PxPct, color: Color)
    ensures
        shadow_of(
            seq![
                only_length(h),
                only_length(v),
                only_length(blur),
                only_length(spread),
                only_color(color),
            ],
        ) == Some(BoxShadow { h_offset: h, v_offset: v, blur_radius: blur, spread, color }),
        shadow_of(
            seq![
                only_color(color),
                only_length(h),
                only_length(v),
                only_length(blur),
                only_length(spread),
            ],
        ) == Some(BoxShadow { h_offset: h, v_offset: v, blur_radius: blur, spread, color }),
{
}

/// Whether the parts from `from` up to `to` are all lengths.
fn all_lengths(parts: &[Reading], from: usize, to: usize) -> (r: bool)
    requires
        from <= to <= parts@.len(),
    ensures
        r == lengths_in(parts@, from as int, to as int),
{
    let mut i: usize = from;
    while i < to
        invariant
            from <= i <= to <= parts@.len(),
            lengths_in(parts@, from as int, i as int),
        decreases to - i,
    {
        if parts[i].length.is_none() {
            return false;
        }
        i = i + 1;
    }
    true
}

/// Builds the shadow whose lengths are `count` parts from index `from` on.
fn build_shadow(parts: &[Reading], from: usize, count: usize, color: Color) -> (r: BoxShadow)
    requires
        2 <= count <= 4,
        from + count <= parts@.len(),
        lengths_in(parts@, from as int, from + count),
    ensures
        r == shadow_with(parts@, from as int, count as int, color),
{
    let zero = PxPct::Px(Decimal { negative: false, mantissa: 0, scale: 0 });
    BoxShadow {
        h_offset: parts[from].length.unwrap(),
        v_offset: parts[from + 1].length.unwrap(),
        blur_radius: if count >= 3 {
            parts[from + 2].length.unwrap()
        } else {
            zero
        },
        spread: if count >= 4 {
            parts[from + 3].length.unwrap()
        } else {
            zero
        },
        color,
    }
}

/// The shadow that the parts write, each part given as it reads.
pub fn shadow_from_readings(parts: &[Reading]) -> (r: Option<BoxShadow>)
    ensures
        r == shadow_of(parts@),
{
    let n = parts.len();
    if n < 2 || n > 5 {
        return None;
    }
    if n >= 3 && all_lengths(parts, 0, n - 1) {
        if let Some(color) = parts[n - 1].color {
            return Some(build_shadow(parts, 0, n - 1, color));
        }
    }
    if n >= 3 && all_lengths(parts, 1, n) {
        if let Some(color) = parts[0].color {
            return Some(build_shadow(parts, 1, n - 1, color));
        }
    }
    if n <= 4 && all_lengths(parts, 0, n) {
        return Some(build_shadow(parts, 0, n, Color { r: 0, g: 0, b: 0, a: 255 }));
    }
    None
}

/// The readings of the parts.
pub open spec fn readings_of(parts: Seq<Seq<char>>) -> Seq<Reading> {
    parts.map_values(|p: Seq<char>| reading_of(p))
}

/// The shadow that two parts write: the two offsets.
pub fn parse_box_shadow_2(parts: [&str; 2]) -> (r: Option<BoxShadow>)
    ensures
        r == shadow_of(readings_of(seq![parts[0]@, parts[1]@])),
{
    let readings = [read_part(parts[0]), read_part(parts[1])];
    shadow_from_readings(readings.as_slice())
}

/// The shadow that three parts write: offsets and a colour, a colour and
/// offsets, or offsets and blur.
pub fn parse_box_shadow_3(parts: [&str; 3]) -> (r: Option<BoxShadow>)
    ensures
        r == shadow_of(readings_of(seq![parts[0]@, parts[1]@, parts[2]@])),
{
    let readings = [read_part(parts[0]), read_part(parts[1]), read_part(parts[2])];
    assert(readings@ =~= readings_of(seq![parts[0]@, parts[1]@, parts[2]@]));
    shadow_from_readings(readings.as_slice())
}

/// The shadow that four parts write: offsets, blur and a colour, a colour
/// and then those, or offsets, blur and spread.
pub fn parse_box_shadow_4(parts: [&str; 4]) -> (r: Option<BoxShadow>)
    ensures
        r == shadow_of(readings_of(seq![parts[0]@, parts[1]@, parts[2]@, parts[3]@])),
{
    let readings = [read_part(parts[0]), read_part(parts[1]), read_part(parts[2]), read_part(parts[3])];
    assert(readings@ =~= readings_of(seq![parts[0]@, parts[1]@, parts[2]@, parts[3]@]));
    shadow_from_readings(readings.as_slice())
}

/// The shadow that five parts write: offsets, blur, spread and a colour, or
/// a colour and then those.
pub fn parse_box_shadow_5(parts: [&str; 5]) -> (r: Option<BoxShadow>)
    ensures
        r == shadow_of(readings_of(seq![parts[0]@, parts[1]@, parts[2]@, parts[3]@, parts[4]@])),
{
    let readings = [read_part(parts[0]), read_part(parts[1]), read_part(parts[2]), read_part(parts[3]), read_part(parts[4])];
    assert(readings@ =~= readings_of(seq![parts[0]@, parts[1]@, parts[2]@, parts[3]@, parts[4]@]));
    shadow_from_readings(readings.as_slice())
}

/// Whether `char::is_alphabetic` holds of a character: whether Unicode
/// counts it as a letter.
pub uninterp spec fn alphabetic(c: char) -> bool;

/// `char::is_alphabetic`: whether Unicode counts `c` as a letter.
#[verifier::external_body]
fn is_alphabetic(c: char) -> (r: bool)
    ensures
        r == alphabetic(c),
{
    c.is_alphabetic()
}

/// Which characters of `s` are letters.
pub open spec fn letters_of(s: Seq<char>) -> Seq<bool> {
    s.map_values(|c: char| alphabetic(c))
}

/// Whether the character at `pos` counts as a letter.
pub open spec fn letter_at(letters: Seq<bool>, pos: int) -> bool {
    0 <= pos < letters.len() && letters[pos]
}

/// The parts of `s` from index `pos` on, the current part having begun at
/// `start`, `after_space` telling whether the character before `pos` was
/// white space. Every white space character ends a part. A letter right
/// after white space begins the last part, which runs to the end of `s`, so
/// that a colour may hold white space.
pub open spec fn cut_from(
    s: Seq<char>,
    letters: Seq<bool>,
    pos: int,
    start: int,
    after_space: bool,
) -> Seq<Seq<char>>
    decreases s.len() - pos,
{
    if pos < 0 || pos >= s.len() {
        seq![s.subrange(start, s.len() as int)]
    } else if is_space(s[pos]) {
        seq![s.subrange(start, pos)] + cut_from(s, letters, pos + 1, pos + 1, true)
    } else if after_space && letter_at(letters, pos) {
        seq![s.subrange(start, s.len() as int)]
    } else {
        cut_from(s, letters, pos + 1, start, false)
    }
}

/// The parts of a shadow.
pub open spec fn shadow_parts(s: Seq<char>) -> Seq<Seq<char>> {
    cut_from(s, letters_of(s), 0, 0, false)
}

/// Cuts a shadow into its parts, `letters` telling which characters count as
/// letters.
pub fn cut_shadow_parts(chars: &[char], letters: &[bool]) -> (parts: TextList)
    ensures
        text_list_items(parts) == cut_from(chars@, letters@, 0, 0, false),
{
    let mut parts = TextList::new();
    let mut start: usize = 0;
    let mut after_space = false;
    let mut pos: usize = 0;
    let mut done = false;
    let ghost whole = cut_from(chars@, letters@, 0, 0, false);
    while pos < chars.len() && !done
        invariant
            start <= pos <= chars@.len(),
            whole == cut_from(chars@, letters@, 0, 0, false),
            whole == text_list_items(parts) + cut_from(
                chars@,
                letters@,
                pos as int,
                start as int,
                after_space,
            ),
            done ==> pos < chars@.len() && !is_space(chars@[pos as int]) && after_space
                && letter_at(letters@, pos as int),
        decreases chars@.len() - pos + if done { 0int } else { 1int },
    {
        let c = chars[pos];
        if is_whitespace(c) {
            let piece = substring(chars, start, pos);
            assert(whole =~= text_list_items(parts).push(piece@) + cut_from(
                chars@,
                letters@,
                pos + 1,
                pos + 1,
                true,
            ));
            parts.push(piece);
            after_space = true;
            start = pos + 1;
            pos = pos + 1;
        } else if after_space && pos < letters.len() && letters[pos] {
            done = true;
        } else {
            after_space = false;
            pos = pos + 1;
        }
    }
    let piece = substring(chars, start, chars.len());
    assert(whole =~= text_list_items(parts).push(piece@));
    parts.push(piece);
    parts
}

/// Cuts a shadow into its parts.
pub fn split_shadow(s: &str) -> (parts: TextList)
    ensures
        text_list_items(parts) == shadow_parts(s@),
{
    let chars = chars_of(s);
    let mut letters: Vec<bool> = Vec::new();
    let mut i: usize = 0;
    while i < chars.len()
        invariant
            i <= chars@.len(),
            chars@ == s@,
            letters@ == letters_of(s@.take(i as int)),
        decreases chars@.len() - i,
    {
        let flag = is_alphabetic(chars[i]);
        letters.push(flag);
        i = i + 1;
    }
    assert(s@.take(i as int) =~= s@);
    cut_shadow_parts(chars.as_slice(), letters.as_slice())
}

/// The shadow that `s` writes: `none` is the plain shadow; otherwise `s` has
/// two to five parts, which are read as `shadow_of` says.
pub open spec fn box_shadow_of(s: Seq<char>) -> Option<BoxShadow> {
    let p = shadow_parts(s);
    if p.len() == 1 {
        if p[0] == "none"@ {
            Some(BoxShadow::plain())
        } else {
            None
        }
    } else {
        shadow_of(readings_of(p))
    }
}

/// The text of part `i`.
fn part(parts: &TextList, i: usize) -> (r: &str)
    requires
        i < text_list_items(*parts).len(),
    ensures
        r@ == text_list_items(*parts)[i as int],
{
    parts.get(i).as_str()
}

/// The shadow that the two parts write.
fn shadow_from_2(parts: &TextList) -> (r: Option<BoxShadow>)
    requires
        text_list_items(*parts).len() == 2,
    ensures
        r == shadow_of(readings_of(text_list_items(*parts))),
{
    let a = part(parts, 0);
    let b = part(parts, 1);
    assert(text_list_items(*parts) =~= seq![a@, b@]);
    parse_box_shadow_2([a, b])
}

/// The shadow that the three parts write.
fn shadow_from_3(parts: &TextList) -> (r: Option<BoxShadow>)
    requires
        text_list_items(*parts).len() == 3,
    ensures
        r == shadow_of(readings_of(text_list_items(*parts))),
{
    let a = part(parts, 0);
    let b = part(parts, 1);
    let c = part(parts, 2);
    assert(text_list_items(*parts) =~= seq![a@, b@, c@]);
    parse_box_shadow_3([a, b, c])
}

/// The shadow that the four parts write.
fn shadow_from_4(parts: &TextList) -> (r: Option<BoxShadow>)
    requires
        text_list_items(*parts).len() == 4,
    ensures
        r == shadow_of(readings_of(text_list_items(*parts))),
{
    let a = part(parts, 0);
    let b = part(parts, 1);
    let c = part(parts, 2);
    let d = part(parts, 3);
    assert(text_list_items(*parts) =~= seq![a@, b@, c@, d@]);
    parse_box_shadow_4([a, b, c, d])
}

/// The shadow that the five parts write.
fn shadow_from_5(parts: &TextList) -> (r: Option<BoxShadow>)
    requires
        text_list_items(*parts).len() == 5,
    ensures
        r == shadow_of(readings_of(text_list_items(*parts))),
{
    let a = part(parts, 0);
    let b = part(parts, 1);
    let c = part(parts, 2);
    let d = part(parts, 3);
    let e = part(parts, 4);
    assert(text_list_items(*parts) =~= seq![a@, b@, c@, d@, e@]);
    parse_box_shadow_5([a, b, c, d, e])
}

/// The shadow that the parts write, of which there are two to five.
fn shadow_from_parts(parts: &TextList) -> (r: Option<BoxShadow>)
    requires
        2 <= text_list_items(*parts).len() <= 5,
    ensures
        r == shadow_of(readings_of(text_list_items(*parts))),
{
    let n = parts.len();
    if n == 2 {
        shadow_from_2(parts)
    } else if n == 3 {
        shadow_from_3(parts)
    } else if n == 4 {
        shadow_from_4(parts)
    } else {
        shadow_from_5(parts)
    }
}

/// More than five parts write no shadow, and neither do none.
proof fn lemma_too_many_parts(parts: Seq<Reading>)
    requires
        parts.len() > 5 || parts.len() < 2,
    ensures
        shadow_of(parts) is None,
{
}

/// Reads a value of `box-shadow`.
pub fn parse_box_shadow(s: &str) -> (r: Option<BoxShadow>)
    ensures
        r == box_shadow_of(s@),
{
    let parts = split_shadow(s);
    let n = parts.len();
    if n == 1 {
        let only = chars_of(part(&parts, 0));
        if is_word(only.as_slice(), "none") {
            Some(BoxShadow::default())
        } else {
            None
        }
    } else if 2 <= n && n <= 5 {
        shadow_from_parts(&parts)
    } else {
        proof {
            lemma_too_many_parts(readings_of(text_list_items(parts)));
        }
        None
    }
}

/// A border: its width, its colour, or both.
#[derive(Clone, Copy, Debug, PartialEq, Eq, Structural)]
pub struct BorderDef {
    pub width: Option<Px>,
    pub color: Option<Color>,
}

/// `def` with what one more word gives it. A word that is pixels sets the
/// width; one that is not, and is a colour, sets the colour; any other word
/// spoils the border.
pub open spec fn border_with(def: BorderDef, width: Option<Px>, color: Option<Color>) -> Option<
    BorderDef,
> {
    if width is Some {
        Some(BorderDef { width, color: def.color })
    } else if color is Some {
        Some(BorderDef { width: def.width, color })
    } else {
        None
    }
}

/// The border that `s` writes: its first word and, if there is one, its
/// second, each a width or a colour. Further words are not looked at.
pub open spec fn border_of(s: Seq<char>) -> Option<BorderDef> {
    let w = words(s);
    let none = BorderDef { width: None, color: None };
    if w.len() == 0 {
        None
    } else {
        match border_with(none, px_of(w[0]), color_of(w[0])) {
            Some(def) => if w.len() == 1 {
                Some(def)
            } else {
                border_with(def, px_of(w[1]), color_of(w[1]))
            },
            None => None,
        }
    }
}

/// `def` with what one more word gives it, the word given as it reads.
pub fn border_step(def: BorderDef, width: Option<Px>, color: Option<Color>) -> (r: Option<
    BorderDef,
>)
    ensures
        r == border_with(def, width, color),
{
    if width.is_some() {
        Some(BorderDef { width, color: def.color })
    } else if color.is_some() {
        Some(BorderDef { width: def.width, color })
    } else {
        None
    }
}

/// Reads a value of `border`.
pub fn parse_border(s: &str) -> (r: Option<BorderDef>)
    ensures
        r == border_of(s@),
{
    let parts = split_words(s);
    if parts.len() == 0 {
        return None;
    }
    let none = BorderDef { width: None, color: None };
    let first = parts[0].as_str();
    let def = match border_step(none, parse_px(first), parse_color(first)) {
        Some(def) => def,
        None => {
            return None;
        },
    };
    if parts.len() == 1 {
        return Some(def);
    }
    let second = parts[1].as_str();
    border_step(def, parse_px(second), parse_color(second))
}

} // verus!
