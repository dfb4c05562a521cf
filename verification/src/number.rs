//! Numbers as the stylesheet writes them: whole numbers of the integer types,
//! and decimal numbers kept exactly as an integer and a power of ten.

use vstd::prelude::*;
use vstd::arithmetic::div_mod::lemma_div_denominator;
use vstd::slice::slice_subrange;
use crate::text::{chars_of, scan, scan_to, CharClass};

verus! {

/// Whether `c` is one of the ten decimal digits.
pub open spec fn is_digit(c: char) -> bool {
    '0' <= c <= '9'
}

/// The value of a decimal digit; 0 for any other character.
pub open spec fn digit_value(c: char) -> nat {
    if is_digit(c) {
        (c as u32 - '0' as u32) as nat
    } else {
        0
    }
}

/// Whether `s` holds decimal digits only.
pub open spec fn all_digits(s: Seq<char>) -> bool {
    forall|i: int| 0 <= i < s.len() ==> is_digit(#[trigger] s[i])
}

/// The number whose decimal digits are those of `acc` followed by `s`.
pub open spec fn append_digits(acc: nat, s: Seq<char>) -> nat
    decreases s.len(),
{
    if s.len() == 0 {
        acc
    } else {
        append_digits(acc, s.drop_last()) * 10 + digit_value(s.last())
    }
}

/// The number that the decimal digits `s` write.
pub open spec fn digits_value(s: Seq<char>) -> nat {
    append_digits(0, s)
}

/// More digits never write a smaller number.
pub proof fn lemma_append_digits_grows(acc: nat, s: Seq<char>, i: int)
    requires
        0 <= i <= s.len(),
    ensures
        append_digits(acc, s.take(i)) <= append_digits(acc, s),
    decreases s.len(),
{
    if i < s.len() {
        assert(s.drop_last().take(i) =~= s.take(i));
        lemma_append_digits_grows(acc, s.drop_last(), i);
    } else {
        assert(s.take(i) =~= s);
    }
}

/// Ten to the power `n`.
pub open spec fn pow10(n: nat) -> nat
    decreases n,
{
    if n == 0 {
        1
    } else {
        10 * pow10((n - 1) as nat)
    }
}

/// A power of ten is above zero.
pub proof fn lemma_pow10_positive(n: nat)
    ensures
        pow10(n) > 0,
    decreases n,
{
    if n > 0 {
        lemma_pow10_positive((n - 1) as nat);
    }
}

/// The value of the digit `c`.
pub fn digit_of(c: char) -> (r: Option<u8>)
    ensures
        r is Some <==> is_digit(c),
        r matches Some(d) ==> d == digit_value(c) && d <= 9,
{
    if '0' <= c && c <= '9' {
        Some(((c as u32) - ('0' as u32)) as u8)
    } else {
        None
    }
}

/// Reads `chars` as digits that follow those of `acc`. There is a result when
/// every character is a digit and the number fits 64 bits.
pub fn read_digits(chars: &[char], acc: u64) -> (r: Option<u64>)
    ensures
        r == if all_digits(chars@) && append_digits(acc as nat, chars@) <= u64::MAX {
            Some(append_digits(acc as nat, chars@) as u64)
        } else {
            None
        },
{
    let mut value: u64 = acc;
    let mut i: usize = 0;
    while i < chars.len()
        invariant
            i <= chars@.len(),
            all_digits(chars@.take(i as int)),
            value == append_digits(acc as nat, chars@.take(i as int)),
        decreases chars@.len() - i,
    {
        let d = match digit_of(chars[i]) {
            Some(d) => d,
            None => {
                return None;
            },
        };
        let ghost longer = chars@.take(i + 1);
        proof {
            assert(longer.drop_last() =~= chars@.take(i as int));
            assert forall|j: int| 0 <= j < longer.len() implies is_digit(#[trigger] longer[j]) by {}
        }
        let wide: u128 = (value as u128) * 10 + (d as u128);
        if wide > u64::MAX as u128 {
            proof {
                lemma_append_digits_grows(acc as nat, chars@, i + 1);
            }
            return None;
        }
        value = wide as u64;
        i = i + 1;
    }
    assert(chars@.take(i as int) =~= chars@);
    Some(value)
}

/// The whole number that `s` writes without a minus sign: an optional `+`,
/// then one digit or more.
pub open spec fn unsigned_of(s: Seq<char>) -> Option<nat> {
    let body = if s.len() > 0 && s[0] == '+' {
        s.skip(1)
    } else {
        s
    };
    if body.len() > 0 && all_digits(body) {
        Some(digits_value(body))
    } else {
        None
    }
}

/// The whole number that `s` writes, if it is at most `limit`.
pub open spec fn bounded_of(s: Seq<char>, limit: nat) -> Option<nat> {
    match unsigned_of(s) {
        Some(n) => if n <= limit {
            Some(n)
        } else {
            None
        },
        None => None,
    }
}

/// Reads `chars` as a whole number without a minus sign, of at most `limit`.
pub fn read_unsigned(chars: &[char], limit: u64) -> (r: Option<u64>)
    ensures
        r is Some <==> bounded_of(chars@, limit as nat) is Some,
        r matches Some(n) ==> bounded_of(chars@, limit as nat) == Some(n as nat),
{
    let start: usize = if chars.len() > 0 && chars[0] == '+' {
        1
    } else {
        0
    };
    let body = slice_subrange(chars, start, chars.len());
    assert(chars@.skip(0) =~= chars@);
    if body.len() == 0 {
        return None;
    }
    match read_digits(body, 0) {
        Some(n) => if n <= limit {
            Some(n)
        } else {
            None
        },
        None => None,
    }
}

/// The 8-bit number that `s` writes: an optional `+` and digits, at most 255.
pub open spec fn u8_of(s: Seq<char>) -> Option<u8> {
    match bounded_of(s, 255) {
        Some(n) => Some(n as u8),
        None => None,
    }
}

/// The 64-bit number that `s` writes: an optional `+` and digits.
pub open spec fn u64_of(s: Seq<char>) -> Option<u64> {
    match bounded_of(s, u64::MAX as nat) {
        Some(n) => Some(n as u64),
        None => None,
    }
}

/// The 32-bit signed number that `s` writes: an optional sign and digits.
pub open spec fn i32_of(s: Seq<char>) -> Option<i32> {
    if s.len() > 0 && s[0] == '-' {
        let body = s.skip(1);
        if body.len() > 0 && all_digits(body) && digits_value(body) <= 0x8000_0000 {
            Some((-(digits_value(body) as int)) as i32)
        } else {
            None
        }
    } else {
        match bounded_of(s, 0x7fff_ffff) {
            Some(n) => Some(n as i32),
            None => None,
        }
    }
}

/// Reads `s` as a 32-bit signed number.
pub fn parse_i32(s: &str) -> (r: Option<i32>)
    ensures
        r == i32_of(s@),
{
    let chars = chars_of(s);
    if chars.len() > 0 && chars[0] == '-' {
        let body = slice_subrange(chars.as_slice(), 1, chars.len());
        if body.len() == 0 {
            return None;
        }
        match read_digits(body, 0) {
            Some(n) => if n <= 0x8000_0000 {
                let v: i64 = -(n as i64);
                Some(v as i32)
            } else {
                None
            },
            None => None,
        }
    } else {
        match read_unsigned(chars.as_slice(), 0x7fff_ffff) {
            Some(n) => Some(n as i32),
            None => None,
        }
    }
}

/// The character that writes the digit `d`.
pub open spec fn digit_char(d: nat) -> char {
    if d < 10 {
        ((d + 48) as u8) as char
    } else {
        '0'
    }
}

/// How a whole number is written: in decimal digits, without leading zeros.
pub open spec fn decimal_text(n: nat) -> Seq<char>
    decreases n,
{
    if n < 10 {
        seq![digit_char(n)]
    } else {
        decimal_text(n / 10).push(digit_char(n % 10))
    }
}

/// The character of a digit is a digit and has the digit's value.
pub proof fn lemma_digit_char(d: nat)
    requires
        d < 10,
    ensures
        is_digit(digit_char(d)),
        digit_value(digit_char(d)) == d,
{
    let c = digit_char(d);
    assert(c as u32 == d + 48);
}

/// What is written is read back: the digits of a number write that number.
pub proof fn lemma_decimal_text_round_trip(n: nat)
    ensures
        all_digits(decimal_text(n)),
        digits_value(decimal_text(n)) == n,
        decimal_text(n).len() >= 1,
    decreases n,
{
    let all = decimal_text(n);
    lemma_digit_char(n % 10);
    if n >= 10 {
        lemma_decimal_text_round_trip(n / 10);
        let head = decimal_text(n / 10);
        assert(all.drop_last() =~= head);
        assert(all.last() == digit_char(n % 10));
        assert forall|i: int| 0 <= i < all.len() implies is_digit(#[trigger] all[i]) by {
            if i < head.len() {
                assert(all[i] == head[i]);
            }
        }
    } else {
        assert(all.drop_last() =~= Seq::<char>::empty());
        assert(all.last() == digit_char(n));
        assert(append_digits(0, all.drop_last()) == 0);
    }
}

/// Writes `n` in decimal digits behind what `out` holds.
pub fn push_decimal(n: usize, out: &mut Vec<char>)
    ensures
        final(out)@ == old(out)@ + decimal_text(n as nat),
    decreases n,
{
    if n >= 10 {
        push_decimal(n / 10, out);
    }
    let d: u8 = (n % 10) as u8;
    let c: char = (48u8 + d) as char;
    out.push(c);
    assert(out@ =~= old(out)@ + decimal_text(n as nat));
}

/// A decimal number, kept exactly: `mantissa / 10^scale`, negated when
/// `negative`.
#[derive(Clone, Copy, Debug, PartialEq, Eq, Structural)]
pub struct Decimal {
    pub negative: bool,
    pub mantissa: u64,
    pub scale: u8,
}

/// The length of the sign that `s` begins with.
pub open spec fn sign_len(s: Seq<char>) -> int {
    if s.len() > 0 && (s[0] == '+' || s[0] == '-') {
        1
    } else {
        0
    }
}

/// The digits of `s` before the decimal point.
pub open spec fn int_digits(s: Seq<char>) -> Seq<char> {
    let body = s.skip(sign_len(s));
    body.take(scan(body, 0, CharClass::Is('.')))
}

/// The digits of `s` after the decimal point.
pub open spec fn frac_digits(s: Seq<char>) -> Seq<char> {
    let body = s.skip(sign_len(s));
    let dot = scan(body, 0, CharClass::Is('.'));
    if dot < body.len() {
        body.skip(dot + 1)
    } else {
        Seq::<char>::empty()
    }
}

/// Whether `s` writes a decimal number without an exponent: an optional
/// sign, digits, and optionally a point and more digits, with a digit on at
/// least one side.
pub open spec fn is_number(s: Seq<char>) -> bool {
    &&& all_digits(int_digits(s))
    &&& all_digits(frac_digits(s))
    &&& int_digits(s).len() + frac_digits(s).len() > 0
}

/// All the digits of `s` read as one whole number.
pub open spec fn unscaled(s: Seq<char>) -> nat {
    append_digits(digits_value(int_digits(s)), frac_digits(s))
}

/// The decimal number that `s` writes without an exponent. There is one when
/// `s` is a number whose digits, read as one whole number, fit 64 bits, with
/// at most 255 of them after the point.
pub open spec fn plain_number_of(s: Seq<char>) -> Option<Decimal> {
    if is_number(s) && unscaled(s) <= u64::MAX && frac_digits(s).len() <= 255 {
        Some(
            Decimal {
                negative: s[0] == '-',
                mantissa: unscaled(s) as u64,
                scale: frac_digits(s).len() as u8,
            },
        )
    } else {
        None
    }
}

/// Reads `chars` as a decimal number without an exponent.
pub fn read_plain_number(chars: &[char]) -> (r: Option<Decimal>)
    ensures
        r == plain_number_of(chars@),
{
    let n = chars.len();
    let sign: usize = if n > 0 && (chars[0] == '+' || chars[0] == '-') {
        1
    } else {
        0
    };
    let negative = n > 0 && chars[0] == '-';
    let body = slice_subrange(chars, sign, n);
    let dot = scan_to(body, 0, CharClass::Is('.'));
    let whole = slice_subrange(body, 0, dot);
    let frac = if dot < body.len() {
        slice_subrange(body, dot + 1, body.len())
    } else {
        slice_subrange(body, body.len(), body.len())
    };
    if whole.len() == 0 && frac.len() == 0 {
        return None;
    }
    if frac.len() > 255 {
        return None;
    }
    let high = match read_digits(whole, 0) {
        Some(v) => v,
        None => {
            proof {
                if all_digits(whole@) {
                    lemma_append_digits_from(digits_value(whole@), frac@);
                }
            }
            return None;
        },
    };
    match read_digits(frac, high) {
        Some(mantissa) => Some(Decimal { negative, mantissa, scale: frac.len() as u8 }),
        None => None,
    }
}

/// Where the exponent of a number begins: the index of its first `e` or `E`,
/// or the length of `s` if it has none.
pub open spec fn exponent_at(s: Seq<char>) -> int {
    let lower = scan(s, 0, CharClass::Is('e'));
    let upper = scan(s, 0, CharClass::Is('E'));
    if lower <= upper {
        lower
    } else {
        upper
    }
}

/// The exponent that `t` writes: an optional sign, then digits that fit 64
/// bits.
pub open spec fn exponent_of(t: Seq<char>) -> Option<int> {
    let body = t.skip(sign_len(t));
    if body.len() > 0 && all_digits(body) && digits_value(body) <= u64::MAX {
        Some(
            if t[0] == '-' {
                -(digits_value(body) as int)
            } else {
                digits_value(body) as int
            },
        )
    } else {
        None
    }
}

/// `d` times ten to the power `e`, kept exactly. There is a result when it
/// fits: at most 255 digits after the point, and a mantissa of 64 bits.
pub open spec fn shifted(d: Decimal, e: int) -> Option<Decimal> {
    if e <= d.scale {
        if d.scale - e <= 255 {
            Some(Decimal { negative: d.negative, mantissa: d.mantissa, scale: (d.scale - e) as u8 })
        } else {
            None
        }
    } else if d.mantissa * pow10((e - d.scale) as nat) <= u64::MAX {
        Some(
            Decimal {
                negative: d.negative,
                mantissa: (d.mantissa * pow10((e - d.scale) as nat)) as u64,
                scale: 0,
            },
        )
    } else {
        None
    }
}

/// The decimal number that `s` writes: a number as `plain_number_of` reads
/// it and, optionally, `e` or `E` and an exponent of ten. There is a result
/// when the number is held exactly, see `shifted`.
pub open spec fn number_of(s: Seq<char>) -> Option<Decimal> {
    let k = exponent_at(s);
    if k >= s.len() {
        plain_number_of(s)
    } else {
        match (plain_number_of(s.take(k)), exponent_of(s.skip(k + 1))) {
            (Some(d), Some(e)) => shifted(d, e),
            _ => None,
        }
    }
}

/// A larger power of ten is no smaller.
pub proof fn lemma_pow10_grows(i: nat, j: nat)
    requires
        i <= j,
    ensures
        pow10(i) <= pow10(j),
        pow10(i) >= 1,
    decreases j - i,
{
    lemma_pow10_positive(i);
    if i < j {
        lemma_pow10_grows(i, (j - 1) as nat);
    }
}

/// `d` times ten to the power of the exponent with the given sign and size.
pub fn shift(d: Decimal, down: bool, size: u64) -> (r: Option<Decimal>)
    ensures
        r == shifted(
            d,
            if down {
                -(size as int)
            } else {
                size as int
            },
        ),
{
    if down {
        if size > 255 - d.scale as u64 {
            return None;
        }
        return Some(
            Decimal { negative: d.negative, mantissa: d.mantissa, scale: d.scale + size as u8 },
        );
    }
    if size <= d.scale as u64 {
        return Some(
            Decimal { negative: d.negative, mantissa: d.mantissa, scale: d.scale - size as u8 },
        );
    }
    let up: u64 = size - d.scale as u64;
    if d.mantissa == 0 {
        assert(d.mantissa * pow10(up as nat) == 0) by (nonlinear_arith)
            requires
                d.mantissa == 0,
        ;
        return Some(Decimal { negative: d.negative, mantissa: 0, scale: 0 });
    }
    if up > 19 {
        proof {
            reveal_with_fuel(pow10, 21);
            assert(pow10(20) == 100000000000000000000);
            lemma_pow10_grows(20, up as nat);
            assert(d.mantissa * pow10(up as nat) >= pow10(up as nat)) by (nonlinear_arith)
                requires
                    d.mantissa >= 1,
                    pow10(up as nat) >= 1,
            ;
        }
        return None;
    }
    let mut value: u64 = d.mantissa;
    let mut i: u64 = 0;
    assert(pow10(0) == 1);
    while i < up
        invariant
            i <= up,
            !down,
            size > d.scale,
            up == size - d.scale,
            value == d.mantissa * pow10(i as nat),
        decreases up - i,
    {
        let wide: u128 = (value as u128) * 10;
        proof {
            assert(pow10((i + 1) as nat) == 10 * pow10(i as nat));
            assert(d.mantissa * pow10((i + 1) as nat) == 10 * (d.mantissa * pow10(i as nat)))
                by (nonlinear_arith)
                requires
                    pow10((i + 1) as nat) == 10 * pow10(i as nat),
            ;
        }
        if wide > u64::MAX as u128 {
            proof {
                lemma_pow10_grows((i + 1) as nat, up as nat);
                assert(d.mantissa * pow10(up as nat) >= d.mantissa * pow10((i + 1) as nat))
                    by (nonlinear_arith)
                    requires
                        d.mantissa >= 0,
                        pow10((i + 1) as nat) <= pow10(up as nat),
                ;
                assert(wide == d.mantissa * pow10((i + 1) as nat));
            }
            return None;
        }
        value = wide as u64;
        i = i + 1;
    }
    Some(Decimal { negative: d.negative, mantissa: value, scale: 0 })
}

/// Reads `chars` as a decimal number.
pub fn read_number(chars: &[char]) -> (r: Option<Decimal>)
    ensures
        r == number_of(chars@),
{
    let n = chars.len();
    let lower = scan_to(chars, 0, CharClass::Is('e'));
    let upper = scan_to(chars, 0, CharClass::Is('E'));
    let k = if lower <= upper {
        lower
    } else {
        upper
    };
    if k >= n {
        return read_plain_number(chars);
    }
    let base = slice_subrange(chars, 0, k);
    let tail = slice_subrange(chars, k + 1, n);
    assert(base@ =~= chars@.take(k as int));
    assert(tail@ =~= chars@.skip(k + 1));
    let d = match read_plain_number(base) {
        Some(d) => d,
        None => {
            return None;
        },
    };
    let m = tail.len();
    let sign: usize = if m > 0 && (tail[0] == '+' || tail[0] == '-') {
        1
    } else {
        0
    };
    let down = m > 0 && tail[0] == '-';
    let body = slice_subrange(tail, sign, m);
    assert(body@ =~= tail@.skip(sign_len(tail@)));
    if body.len() == 0 {
        return None;
    }
    match read_digits(body, 0) {
        Some(size) => shift(d, down, size),
        None => None,
    }
}

/// Digits after a number never make it smaller.
pub proof fn lemma_append_digits_from(acc: nat, s: Seq<char>)
    ensures
        acc <= append_digits(acc, s),
{
    lemma_append_digits_grows(acc, s, 0);
}

/// Reads `s` as a decimal number.
pub fn parse_number(s: &str) -> (r: Option<Decimal>)
    ensures
        r == number_of(s@),
{
    let chars = chars_of(s);
    read_number(chars.as_slice())
}

impl Decimal {
    /// The whole number `n`.
    pub open spec fn whole(n: u64) -> Decimal {
        Decimal { negative: false, mantissa: n, scale: 0 }
    }

    /// `k` times the number's absolute value, rounded down.
    pub open spec fn times_floor(self, k: nat) -> int {
        (k * self.mantissa) as int / pow10(self.scale as nat) as int
    }

    /// `k` times the number's absolute value, rounded down.
    pub fn scaled(&self, k: u32) -> (r: u128)
        ensures
            r == self.times_floor(k as nat),
    {
        assert((k as u128) * (self.mantissa as u128) <= 0xffff_ffff * 0xffff_ffff_ffff_ffff)
            by (nonlinear_arith)
            requires
                k <= 0xffff_ffff,
                self.mantissa <= 0xffff_ffff_ffff_ffff,
        ;
        let product: u128 = (k as u128) * (self.mantissa as u128);
        let mut q: u128 = product;
        let mut i: u8 = 0;
        assert(pow10(0) == 1);
        while i < self.scale
            invariant
                i <= self.scale,
                product == (k as nat) * (self.mantissa as nat),
                q as int == (product as int) / (pow10(i as nat) as int),
            decreases self.scale - i,
        {
            proof {
                lemma_pow10_positive(i as nat);
                lemma_div_denominator(product as int, pow10(i as nat) as int, 10);
            }
            q = q / 10;
            i = i + 1;
        }
        q
    }
}

} // verus!
