//! Lengths: pixels, percentages and `auto`.

use vstd::prelude::*;
use vstd::slice::slice_subrange;
use crate::number::{
    exponent_at, frac_digits, int_digits, is_number, number_of, read_number, sign_len, Decimal,
};
use crate::text::{
    chars_of, ends_with, has_suffix, is_space, is_word, lemma_scan, scan, scan_back,
    split_words, texts, trimmed_end, words, CharClass,
};

verus! {

/// A length in pixels.
#[derive(Clone, Copy, Debug, PartialEq, Eq, Structural)]
pub struct Px(pub Decimal);

/// A length as a percentage.
#[derive(Clone, Copy, Debug, PartialEq, Eq, Structural)]
pub struct Pct(pub Decimal);

/// A length in pixels or as a percentage.
#[derive(Clone, Copy, Debug, PartialEq, Eq, Structural)]
pub enum PxPct {
    Px(Decimal),
    Pct(Decimal),
}

/// A length in pixels or as a percentage, or `auto`.
#[derive(Clone, Copy, Debug, PartialEq, Eq, Structural)]
pub enum PxPctAuto {
    Px(Decimal),
    Pct(Decimal),
    Auto,
}

/// The number that stands before a unit: `s` without its last `unit`
/// characters and without white space at its end.
pub open spec fn number_before(s: Seq<char>, unit: int) -> Option<Decimal> {
    number_of(trimmed_end(s.take(s.len() - unit)))
}

/// The pixels that `s` writes: a number, then `px`.
pub open spec fn px_of(s: Seq<char>) -> Option<Px> {
    if ends_with(s, "px"@) {
        match number_before(s, 2) {
            Some(n) => Some(Px(n)),
            None => None,
        }
    } else {
        None
    }
}

/// The percentage that `s` writes: a number, then `%`.
pub open spec fn pct_of(s: Seq<char>) -> Option<Pct> {
    if ends_with(s, "%"@) {
        match number_before(s, 1) {
            Some(n) => Some(Pct(n)),
            None => None,
        }
    } else {
        None
    }
}

/// The length that `s` writes, in pixels or as a percentage.
pub open spec fn px_pct_of(s: Seq<char>) -> Option<PxPct> {
    match px_of(s) {
        Some(px) => Some(PxPct::Px(px.0)),
        None => match pct_of(s) {
            Some(pct) => Some(PxPct::Pct(pct.0)),
            None => None,
        },
    }
}

/// The length that `s` writes: `auto`, pixels or a percentage.
pub open spec fn px_pct_auto_of(s: Seq<char>) -> Option<PxPctAuto> {
    if s == "auto"@ {
        Some(PxPctAuto::Auto)
    } else {
        match px_pct_of(s) {
            Some(PxPct::Px(px)) => Some(PxPctAuto::Px(px)),
            Some(PxPct::Pct(pct)) => Some(PxPctAuto::Pct(pct)),
            None => None,
        }
    }
}

/// Reads the number that stands before a unit of `unit` characters.
fn read_before(chars: &[char], unit: usize) -> (r: Option<Decimal>)
    requires
        unit <= chars@.len(),
    ensures
        r == number_before(chars@, unit as int),
{
    let head = slice_subrange(chars, 0, chars.len() - unit);
    let e = scan_back(head, head.len(), CharClass::NotSpace);
    let digits = slice_subrange(head, 0, e);
    read_number(digits)
}

/// Reads a length in pixels.
pub fn parse_px(s: &str) -> (r: Option<Px>)
    ensures
        r == px_of(s@),
{
    let chars = chars_of(s);
    if !has_suffix(chars.as_slice(), "px") {
        return None;
    }
    proof {
        reveal_strlit("px");
    }
    match read_before(chars.as_slice(), 2) {
        Some(n) => Some(Px(n)),
        None => None,
    }
}

/// Reads a percentage.
pub fn parse_pct(s: &str) -> (r: Option<Pct>)
    ensures
        r == pct_of(s@),
{
    let chars = chars_of(s);
    if !has_suffix(chars.as_slice(), "%") {
        return None;
    }
    proof {
        reveal_strlit("%");
    }
    match read_before(chars.as_slice(), 1) {
        Some(n) => Some(Pct(n)),
        None => None,
    }
}

/// Reads a length in pixels or as a percentage.
pub fn parse_px_pct(s: &str) -> (r: Option<PxPct>)
    ensures
        r == px_pct_of(s@),
{
    if let Some(px) = parse_px(s) {
        return Some(PxPct::Px(px.0));
    }
    if let Some(pct) = parse_pct(s) {
        return Some(PxPct::Pct(pct.0));
    }
    None
}

/// Reads a length: `auto`, pixels or a percentage.
pub fn parse_pxpctauto(s: &str) -> (r: Option<PxPctAuto>)
    ensures
        r == px_pct_auto_of(s@),
{
    let chars = chars_of(s);
    if is_word(chars.as_slice(), "auto") {
        return Some(PxPctAuto::Auto);
    }
    match parse_px_pct(s) {
        Some(PxPct::Px(px)) => Some(PxPctAuto::Px(px)),
        Some(PxPct::Pct(pct)) => Some(PxPctAuto::Pct(pct)),
        None => None,
    }
}

/// The gaps that `s` writes: the first word is the gap between rows and has
/// to be a length; the second word, if there is one and it is a length, is
/// the gap between columns. Further words are not looked at.
pub open spec fn gap_of(s: Seq<char>) -> Option<(PxPct, Option<PxPct>)> {
    let w = words(s);
    if w.len() >= 1 && px_pct_of(w[0]) is Some {
        Some(
            (
                px_pct_of(w[0])->0,
                if w.len() >= 2 {
                    px_pct_of(w[1])
                } else {
                    None
                },
            ),
        )
    } else {
        None
    }
}

/// Reads a value of `gap`.
pub fn parse_gap(s: &str) -> (r: Option<(PxPct, Option<PxPct>)>)
    ensures
        r == gap_of(s@),
{
    let parts = split_words(s);
    if parts.len() < 1 {
        return None;
    }
    assert(texts(parts@)[0] == parts@[0]@);
    let row = match parse_px_pct(parts[0].as_str()) {
        Some(v) => v,
        None => {
            return None;
        },
    };
    if parts.len() < 2 {
        return Some((row, None));
    }
    assert(texts(parts@)[1] == parts@[1]@);
    let col = parse_px_pct(parts[1].as_str());
    Some((row, col))
}

/// A number ends with a digit or with its point, never with white space.
pub proof fn lemma_number_end(n: Seq<char>)
    requires
        is_number(n),
    ensures
        n.len() > 0,
        !is_space(n.last()),
        trimmed_end(n) == n,
{
    let body = n.skip(sign_len(n));
    let dot = scan(body, 0, CharClass::Is('.'));
    lemma_scan(body, 0, CharClass::Is('.'));
    let whole = int_digits(n);
    let frac = frac_digits(n);
    if dot < body.len() {
        if frac.len() > 0 {
            assert(crate::number::is_digit(frac[frac.len() - 1]));
        }
    } else {
        assert(crate::number::is_digit(whole[whole.len() - 1]));
    }
}

/// A number, with or without an exponent, ends with a digit or with its
/// point, never with white space.
pub proof fn lemma_number_text_end(n: Seq<char>)
    requires
        number_of(n) is Some,
    ensures
        n.len() > 0,
        !is_space(n.last()),
        trimmed_end(n) == n,
{
    let k = exponent_at(n);
    lemma_scan(n, 0, CharClass::Is('e'));
    lemma_scan(n, 0, CharClass::Is('E'));
    if k >= n.len() {
        lemma_number_end(n);
    } else {
        let tail = n.skip(k + 1);
        let body = tail.skip(sign_len(tail));
        assert(body.len() > 0);
        assert(n.last() == body.last());
        assert(crate::number::is_digit(body[body.len() - 1]));
        assert(CharClass::NotSpace.has(n[n.len() - 1]));
        assert(n.take(n.len() as int) =~= n);
    }
}

/// A number and its unit are read back as that number with that unit: for
/// every text `n` that writes a number, `n` followed by `px` is that many
/// pixels and `n` followed by `%` is that percentage. `auto` is `auto`.
pub proof fn lemma_length_round_trip(n: Seq<char>)
    requires
        number_of(n) is Some,
    ensures
        px_pct_auto_of(n + "px"@) == Some(PxPctAuto::Px(number_of(n)->0)),
        px_pct_auto_of(n + "%"@) == Some(PxPctAuto::Pct(number_of(n)->0)),
        px_pct_of(n + "px"@) == Some(PxPct::Px(number_of(n)->0)),
        px_pct_of(n + "%"@) == Some(PxPct::Pct(number_of(n)->0)),
        px_pct_auto_of("auto"@) == Some(PxPctAuto::Auto),
{
    reveal_strlit("px");
    reveal_strlit("%");
    reveal_strlit("auto");
    lemma_number_text_end(n);
    let a = n + "px"@;
    assert(a.skip(a.len() - 2) =~= "px"@);
    assert(a.take(a.len() - 2) =~= n);
    let b = n + "%"@;
    assert(b.skip(b.len() - 1) =~= "%"@);
    assert(b.take(b.len() - 1) =~= n);
    assert(b.last() == '%');
    if ends_with(b, "px"@) {
        assert(b.skip(b.len() - 2).last() == b.last());
    }
}

} // verus!
