//! Durations and transitions.

use vstd::prelude::*;
use vstd::slice::slice_subrange;
use std::time::Duration;
use crate::blocks::{StyleError, StyleErrorView};
use crate::number::{number_of, read_number, read_unsigned, u64_of, Decimal};
use crate::text::{chars_of, ends_with, has_suffix, split_words, words};

verus! {

/// How long a property takes to change, in milliseconds. The change is
/// linear.
#[derive(Clone, Copy, Debug, PartialEq, Eq, Structural)]
pub struct Transition {
    pub millis: u64,
}

/// The milliseconds that a positive number of seconds lasts, rounded down,
/// and at most the largest 64-bit number.
pub open spec fn seconds_to_millis(d: Decimal) -> u64 {
    if d.times_floor(1000) >= u64::MAX {
        u64::MAX
    } else {
        d.times_floor(1000) as u64
    }
}

/// The milliseconds that `s` writes: a whole number and `ms`, or a number and
/// `s`. The duration has to be above zero: a number that is negative, or
/// that comes to no whole millisecond, writes none.
pub open spec fn millis_of(s: Seq<char>) -> Option<u64> {
    let whole = u64_of(s.take(s.len() - 2));
    let seconds = number_of(s.take(s.len() - 1));
    if ends_with(s, "ms"@) && whole is Some && whole->0 > 0 {
        whole
    } else if ends_with(s, "s"@) && seconds is Some && !seconds->0.negative && seconds_to_millis(
        seconds->0,
    ) > 0 {
        Some(seconds_to_millis(seconds->0))
    } else {
        None
    }
}

/// A duration that is read is above zero.
pub proof fn lemma_millis_positive(s: Seq<char>)
    ensures
        millis_of(s) matches Some(ms) ==> ms > 0,
{
}

/// Reads a duration in milliseconds.
pub fn parse_millis(s: &str) -> (r: Option<u64>)
    ensures
        r == millis_of(s@),
{
    let chars = chars_of(s);
    let c = chars.as_slice();
    let n = c.len();
    proof {
        reveal_strlit("ms");
        reveal_strlit("s");
    }
    if has_suffix(c, "ms") {
        let head = slice_subrange(c, 0, n - 2);
        if let Some(ms) = read_unsigned(head, u64::MAX) {
            if ms > 0 {
                return Some(ms);
            }
        }
    }
    if has_suffix(c, "s") {
        let head = slice_subrange(c, 0, n - 1);
        if let Some(d) = read_number(head) {
            if !d.negative {
                let scaled = d.scaled(1000);
                let ms: u64 = if scaled >= u64::MAX as u128 {
                    u64::MAX
                } else {
                    scaled as u64
                };
                if ms > 0 {
                    return Some(ms);
                }
            }
        }
    }
    None
}

/// The seconds that `s` writes: a number, then `s`.
pub open spec fn seconds_of(s: Seq<char>) -> Option<Decimal> {
    if ends_with(s, "s"@) {
        number_of(s.take(s.len() - 1))
    } else {
        None
    }
}

/// Reads a number of seconds; says what is wrong if there is none: the text
/// does not end with `s`, or what stands before the `s` is no number.
pub fn parse_seconds(s: &str) -> (r: Result<Decimal, StyleError>)
    ensures
        match r {
            Ok(d) => seconds_of(s@) == Some(d),
            Err(e) => seconds_of(s@) is None && e@ == (StyleErrorView {
                error: if ends_with(s@, "s"@) {
                    "Cannot parse number"@
                } else {
                    "Duration must be given as seconds i.e. 1s or 0.1s"@
                },
                value: s@,
            }),
        },
{
    let chars = chars_of(s);
    let c = chars.as_slice();
    proof {
        reveal_strlit("s");
    }
    if !has_suffix(c, "s") {
        return Err(StyleError::new("Duration must be given as seconds i.e. 1s or 0.1s", s));
    }
    let head = slice_subrange(c, 0, c.len() - 1);
    match read_number(head) {
        Some(d) => Ok(d),
        None => Err(StyleError::new("Cannot parse number", s)),
    }
}

/// The `Duration` that `Duration::from_millis` makes of a number of
/// milliseconds.
pub uninterp spec fn duration_of_millis(millis: u64) -> Duration;

/// `Duration::from_millis`: the duration of that many milliseconds.
#[verifier::external_body]
fn duration_from_millis(millis: u64) -> (d: Duration)
    ensures
        d == duration_of_millis(millis),
{
    Duration::from_millis(millis)
}

/// Reads a duration.
pub fn parse_duration(s: &str) -> (r: Option<Duration>)
    ensures
        r == match millis_of(s@) {
            Some(ms) => Some(duration_of_millis(ms)),
            None => None,
        },
{
    match parse_millis(s) {
        Some(ms) => Some(duration_from_millis(ms)),
        None => None,
    }
}

/// The transition that `s` writes: the first word names a property, the
/// second is how long its changes take. Further words are not looked at.
pub open spec fn transition_of(s: Seq<char>) -> Option<(Seq<char>, Transition)> {
    let w = words(s);
    if w.len() >= 2 && millis_of(w[1]) is Some {
        Some((w[0], Transition { millis: millis_of(w[1])->0 }))
    } else {
        None
    }
}

/// Reads a value of `transition`.
pub fn parse_transition(s: &str) -> (r: Option<(String, Transition)>)
    ensures
        match r {
            Some((key, t)) => Some((key@, t)),
            None => None,
        } == transition_of(s@),
{
    let parts = split_words(s);
    if parts.len() < 2 {
        return None;
    }
    match parse_millis(parts[1].as_str()) {
        Some(millis) => Some((parts[0].clone(), Transition { millis })),
        None => None,
    }
}

} // verus!
