//! Character-level building blocks shared by the tokenizer, the rule parser and
//! the value parsers: character classes, scanning, trimming, splitting and
//! searching, each with a mathematical definition over `Seq<char>`.

use vstd::prelude::*;
use vstd::slice::slice_subrange;

verus! {

/// The code points with the Unicode `White_Space` property.
pub open spec fn is_space(c: char) -> bool {
    let n = c as u32;
    (0x09 <= n <= 0x0D) || n == 0x20 || n == 0x85 || n == 0xA0 || n == 0x1680 || (0x2000 <= n
        <= 0x200A) || n == 0x2028 || n == 0x2029 || n == 0x202F || n == 0x205F || n == 0x3000
}

/// Whether `c` is white space.
pub fn is_whitespace(c: char) -> (r: bool)
    ensures
        r == is_space(c),
{
    let n: u32 = c as u32;
    (0x09 <= n && n <= 0x0D) || n == 0x20 || n == 0x85 || n == 0xA0 || n == 0x1680 || (0x2000 <= n
        && n <= 0x200A) || n == 0x2028 || n == 0x2029 || n == 0x202F || n == 0x205F || n == 0x3000
}

/// A set of characters that a scan can look for.
#[derive(Clone, Copy, Debug)]
pub enum CharClass {
    /// Exactly the given character.
    Is(char),
    /// Any white space.
    Space,
    /// Anything but white space.
    NotSpace,
    /// `:`, `;` or a newline: what ends a word inside a block.
    LineStop,
    /// `{` or a newline: what ends selector text.
    SelectorStop,
}

impl CharClass {
    /// Whether `c` is in the class.
    pub open spec fn has(self, c: char) -> bool {
        match self {
            CharClass::Is(x) => c == x,
            CharClass::Space => is_space(c),
            CharClass::NotSpace => !is_space(c),
            CharClass::LineStop => c == ':' || c == ';' || c == '\n',
            CharClass::SelectorStop => c == '{' || c == '\n',
        }
    }

    /// Whether `c` is in the class.
    pub fn contains(&self, c: char) -> (r: bool)
        ensures
            r == self.has(c),
    {
        match self {
            CharClass::Is(x) => c == *x,
            CharClass::Space => is_whitespace(c),
            CharClass::NotSpace => !is_whitespace(c),
            CharClass::LineStop => c == ':' || c == ';' || c == '\n',
            CharClass::SelectorStop => c == '{' || c == '\n',
        }
    }
}

/// The least index at or after `from` whose character is in `class`, or the
/// length of `s` when there is none.
pub open spec fn scan(s: Seq<char>, from: int, class: CharClass) -> int
    decreases s.len() - from,
{
    if from < 0 || from >= s.len() {
        s.len() as int
    } else if class.has(s[from]) {
        from
    } else {
        scan(s, from + 1, class)
    }
}

/// What `scan` finds: nothing of the class lies before it, and it stops on the
/// class or at the end.
pub proof fn lemma_scan(s: Seq<char>, from: int, class: CharClass)
    requires
        0 <= from <= s.len(),
    ensures
        from <= scan(s, from, class) <= s.len(),
        forall|i: int| from <= i < scan(s, from, class) ==> !class.has(#[trigger] s[i]),
        scan(s, from, class) < s.len() ==> class.has(s[scan(s, from, class)]),
    decreases s.len() - from,
{
    if from < s.len() && !class.has(s[from]) {
        lemma_scan(s, from + 1, class);
    }
}

/// The least index `e <= to` such that no character of `s` in `e..to` is in
/// `class`.
pub open spec fn rscan(s: Seq<char>, to: int, class: CharClass) -> int
    decreases to,
{
    if to <= 0 || to > s.len() {
        0
    } else if class.has(s[to - 1]) {
        to
    } else {
        rscan(s, to - 1, class)
    }
}

/// `s` without the white space at its end.
pub open spec fn trimmed_end(s: Seq<char>) -> Seq<char> {
    s.take(rscan(s, s.len() as int, CharClass::NotSpace))
}

/// `s` without the white space at its start and at its end.
pub open spec fn trimmed(s: Seq<char>) -> Seq<char> {
    let t = trimmed_end(s);
    t.skip(scan(t, 0, CharClass::NotSpace))
}

/// Whether `p` is how `s` begins.
pub open spec fn begins_with(s: Seq<char>, p: Seq<char>) -> bool {
    p.len() <= s.len() && s.take(p.len() as int) == p
}

/// Whether `p` is how `s` ends.
pub open spec fn ends_with(s: Seq<char>, p: Seq<char>) -> bool {
    p.len() <= s.len() && s.skip(s.len() - p.len()) == p
}

/// The index of the first `c` in `s`, if there is one.
pub open spec fn index_of(s: Seq<char>, c: char) -> Option<int> {
    let i = scan(s, 0, CharClass::Is(c));
    if i < s.len() {
        Some(i)
    } else {
        None
    }
}

/// The pieces of `s` between the occurrences of `sep`, from index `from` on.
/// A text with `n` separators has `n + 1` pieces; a piece may be empty.
pub open spec fn split_from(s: Seq<char>, sep: char, from: int) -> Seq<Seq<char>>
    decreases s.len() - from,
{
    let e = scan(s, from, CharClass::Is(sep));
    if from < 0 || e >= s.len() || e < from {
        seq![s.subrange(from, s.len() as int)]
    } else {
        seq![s.subrange(from, e)] + split_from(s, sep, e + 1)
    }
}

/// The pieces of `s` between the occurrences of `sep`.
pub open spec fn split(s: Seq<char>, sep: char) -> Seq<Seq<char>> {
    split_from(s, sep, 0)
}

/// The words of `s` from index `from` on: the maximal runs without white
/// space, in order.
pub open spec fn words_from(s: Seq<char>, from: int) -> Seq<Seq<char>>
    decreases s.len() - from,
{
    let b = scan(s, from, CharClass::NotSpace);
    let e = scan(s, b, CharClass::Space);
    if from < 0 || b >= s.len() || e <= b || b < from || e > s.len() {
        Seq::<Seq<char>>::empty()
    } else {
        seq![s.subrange(b, e)] + words_from(s, e)
    }
}

/// The words of `s`: the maximal runs without white space, in order.
pub open spec fn words(s: Seq<char>) -> Seq<Seq<char>> {
    words_from(s, 0)
}

/// Whether `needle` stands in `hay` at index `i`.
pub open spec fn occurs_at(hay: Seq<char>, needle: Seq<char>, i: int) -> bool {
    0 <= i && i + needle.len() <= hay.len() && hay.subrange(i, i + needle.len()) == needle
}

/// The least index at or after `from` at which `needle` stands in `hay`, if
/// there is one.
pub open spec fn find_sub_from(hay: Seq<char>, needle: Seq<char>, from: int) -> Option<int>
    decreases hay.len() + 1 - from,
{
    if from < 0 || from + needle.len() > hay.len() {
        None
    } else if occurs_at(hay, needle, from) {
        Some(from)
    } else {
        find_sub_from(hay, needle, from + 1)
    }
}

/// The index of the first occurrence of `needle` in `hay`, if there is one.
pub open spec fn find_sub(hay: Seq<char>, needle: Seq<char>) -> Option<int> {
    find_sub_from(hay, needle, 0)
}

/// The number of bytes that a character takes in UTF-8.
pub open spec fn utf8_len(c: char) -> nat {
    let n = c as u32;
    if n < 0x80 {
        1
    } else if n < 0x800 {
        2
    } else if n < 0x10000 {
        3
    } else {
        4
    }
}

/// The number of bytes that a text takes in UTF-8.
pub open spec fn byte_len(s: Seq<char>) -> nat
    decreases s.len(),
{
    if s.len() == 0 {
        0
    } else {
        byte_len(s.drop_last()) + utf8_len(s.last())
    }
}

/// Where the character at index `i` of `s` begins, counted in bytes of
/// UTF-8: the bytes that the characters before it take. The count stops at
/// the largest `usize`.
pub open spec fn byte_offset(s: Seq<char>, i: int) -> usize {
    if byte_len(s.take(i)) <= usize::MAX {
        byte_len(s.take(i)) as usize
    } else {
        usize::MAX
    }
}

/// One line of text without its ending: a trailing carriage return goes with
/// the newline that followed it.
pub open spec fn without_cr(line: Seq<char>) -> Seq<char> {
    if line.len() > 0 && line.last() == '\r' {
        line.drop_last()
    } else {
        line
    }
}

/// The lines of `s` from index `from` on. A line ends at a newline, or at a
/// carriage return that a newline follows; the ending is no part of the line,
/// and a text that ends in a newline has no empty last line.
pub open spec fn lines_from(s: Seq<char>, from: int) -> Seq<Seq<char>>
    decreases s.len() - from,
{
    let e = scan(s, from, CharClass::Is('\n'));
    if from < 0 || from >= s.len() || e < from {
        Seq::<Seq<char>>::empty()
    } else if e >= s.len() {
        seq![s.subrange(from, s.len() as int)]
    } else {
        seq![without_cr(s.subrange(from, e))] + lines_from(s, e + 1)
    }
}

/// The lines of `s`.
pub open spec fn lines(s: Seq<char>) -> Seq<Seq<char>> {
    lines_from(s, 0)
}

/// The texts that a sequence of strings holds.
pub open spec fn texts(v: Seq<String>) -> Seq<Seq<char>> {
    v.map_values(|x: String| x@)
}

/// The texts of a sequence with one more string are its texts with one more
/// text.
pub proof fn lemma_texts_push(v: Seq<String>, x: String)
    ensures
        texts(v.push(x)) == texts(v).push(x@),
{
}

/// The characters of `s`, one by one.
pub fn chars_of(s: &str) -> (v: Vec<char>)
    ensures
        v@ == s@,
{
    let mut v: Vec<char> = Vec::new();
    for c in it: s.chars()
        invariant
            v@ == it.history(),
    {
        v.push(c);
    }
    v
}

/// `String::from_iter` on a slice of characters: the string that holds exactly
/// these characters, in this order.
#[verifier::external_body]
pub(crate) fn string_of(chars: &[char]) -> (s: String)
    ensures
        s@ == chars@,
{
    String::from_iter(chars)
}

/// The text of `chars` between two indices.
pub fn substring(chars: &[char], from: usize, to: usize) -> (s: String)
    requires
        from <= to <= chars@.len(),
    ensures
        s@ == chars@.subrange(from as int, to as int),
{
    string_of(slice_subrange(chars, from, to))
}

/// The first index at or after `from` whose character is in `class`, or the
/// length of `chars`.
pub fn scan_to(chars: &[char], from: usize, class: CharClass) -> (r: usize)
    requires
        from <= chars@.len(),
    ensures
        r == scan(chars@, from as int, class),
        from <= r <= chars@.len(),
{
    let mut i: usize = from;
    while i < chars.len() && !class.contains(chars[i])
        invariant
            from <= i <= chars@.len(),
            scan(chars@, from as int, class) == scan(chars@, i as int, class),
        decreases chars@.len() - i,
    {
        i = i + 1;
    }
    i
}

/// The least index `e <= to` with nothing of `class` in `e..to`.
pub fn scan_back(chars: &[char], to: usize, class: CharClass) -> (r: usize)
    requires
        to <= chars@.len(),
    ensures
        r == rscan(chars@, to as int, class),
        r <= to,
{
    let mut i: usize = to;
    while i > 0 && !class.contains(chars[i - 1])
        invariant
            i <= to <= chars@.len(),
            rscan(chars@, to as int, class) == rscan(chars@, i as int, class),
        decreases i,
    {
        i = i - 1;
    }
    i
}

/// Where the character at index `i` of `chars` begins, counted in bytes.
pub fn byte_offset_of(chars: &[char], i: usize) -> (r: usize)
    requires
        i <= chars@.len(),
    ensures
        r == byte_offset(chars@, i as int),
{
    let mut bytes: usize = 0;
    let mut k: usize = 0;
    assert(chars@.take(0) =~= Seq::<char>::empty());
    while k < i
        invariant
            k <= i <= chars@.len(),
            bytes == byte_offset(chars@, k as int),
        decreases i - k,
    {
        let n: u32 = chars[k] as u32;
        let width: usize = if n < 0x80 {
            1
        } else if n < 0x800 {
            2
        } else if n < 0x10000 {
            3
        } else {
            4
        };
        assert(chars@.take(k + 1).drop_last() =~= chars@.take(k as int));
        bytes = if bytes > usize::MAX - width {
            usize::MAX
        } else {
            bytes + width
        };
        k = k + 1;
    }
    bytes
}

/// Puts the characters of `text` behind what `out` holds.
pub fn push_text(out: &mut Vec<char>, text: &str)
    ensures
        final(out)@ == old(out)@ + text@,
{
    let chars = chars_of(text);
    let ghost start = out@;
    let mut i: usize = 0;
    while i < chars.len()
        invariant
            i <= chars@.len(),
            chars@ == text@,
            out@ == start + chars@.take(i as int),
        decreases chars@.len() - i,
    {
        out.push(chars[i]);
        assert(chars@.take(i + 1) =~= chars@.take(i as int).push(chars@[i as int]));
        i = i + 1;
    }
    assert(chars@.take(i as int) =~= chars@);
}

/// The bounds of `chars` without the white space at both ends.
pub fn trim_bounds(chars: &[char]) -> (r: (usize, usize))
    ensures
        r.0 <= r.1 <= chars@.len(),
        chars@.subrange(r.0 as int, r.1 as int) == trimmed(chars@),
{
    let e = scan_back(chars, chars.len(), CharClass::NotSpace);
    let head = slice_subrange(chars, 0, e);
    let b = scan_to(head, 0, CharClass::NotSpace);
    (b, e)
}

/// `s` without the white space at both ends.
pub fn trim(s: &str) -> (r: String)
    ensures
        r@ == trimmed(s@),
{
    let chars = chars_of(s);
    let (b, e) = trim_bounds(chars.as_slice());
    substring(chars.as_slice(), b, e)
}

/// Whether `chars` and `other` hold the same characters.
pub fn same_chars(chars: &[char], other: &[char]) -> (r: bool)
    ensures
        r == (chars@ == other@),
{
    if chars.len() != other.len() {
        return false;
    }
    let mut i: usize = 0;
    while i < chars.len()
        invariant
            i <= chars@.len(),
            chars@.len() == other@.len(),
            chars@.take(i as int) == other@.take(i as int),
        decreases chars@.len() - i,
    {
        if chars[i] != other[i] {
            return false;
        }
        i = i + 1;
    }
    assert(chars@.take(chars@.len() as int) =~= chars@);
    assert(other@.take(other@.len() as int) =~= other@);
    true
}

/// Whether `chars` is exactly the text `word`.
pub fn is_word(chars: &[char], word: &str) -> (r: bool)
    ensures
        r == (chars@ == word@),
{
    let w = chars_of(word);
    same_chars(chars, w.as_slice())
}

/// Whether two texts are the same.
pub fn same_text(a: &str, b: &str) -> (r: bool)
    ensures
        r == (a@ == b@),
{
    let x = chars_of(a);
    let y = chars_of(b);
    same_chars(x.as_slice(), y.as_slice())
}

/// Whether `chars` begins with the text `word`.
pub fn has_prefix(chars: &[char], word: &str) -> (r: bool)
    ensures
        r == begins_with(chars@, word@),
{
    let w = chars_of(word);
    if w.len() > chars.len() {
        return false;
    }
    same_chars(slice_subrange(chars, 0, w.len()), w.as_slice())
}

/// Whether `chars` ends with the text `word`.
pub fn has_suffix(chars: &[char], word: &str) -> (r: bool)
    ensures
        r == ends_with(chars@, word@),
{
    let w = chars_of(word);
    if w.len() > chars.len() {
        return false;
    }
    let n = chars.len();
    same_chars(slice_subrange(chars, n - w.len(), n), w.as_slice())
}

/// The pieces of `s` between the occurrences of `sep`.
pub fn split_on(s: &str, sep: char) -> (parts: Vec<String>)
    ensures
        texts(parts@) == split(s@, sep),
{
    let chars = chars_of(s);
    let mut parts: Vec<String> = Vec::new();
    let mut start: usize = 0;
    loop
        invariant_except_break
            split(s@, sep) == texts(parts@) + split_from(s@, sep, start as int),
        invariant
            start <= chars@.len(),
            chars@ == s@,
        ensures
            texts(parts@) == split(s@, sep),
        decreases chars@.len() - start,
    {
        let e = scan_to(chars.as_slice(), start, CharClass::Is(sep));
        let piece = substring(chars.as_slice(), start, e);
        proof {
            lemma_texts_push(parts@, piece);
        }
        parts.push(piece);
        if e >= chars.len() {
            break;
        }
        start = e + 1;
    }
    parts
}

/// The words of `s`.
pub fn split_words(s: &str) -> (parts: Vec<String>)
    ensures
        texts(parts@) == words(s@),
{
    let chars = chars_of(s);
    let mut parts: Vec<String> = Vec::new();
    let mut start: usize = 0;
    loop
        invariant
            start <= chars@.len(),
            chars@ == s@,
            words(s@) == texts(parts@) + words_from(s@, start as int),
        ensures
            texts(parts@) == words(s@),
        decreases chars@.len() - start,
    {
        let b = scan_to(chars.as_slice(), start, CharClass::NotSpace);
        if b >= chars.len() {
            break;
        }
        let e = scan_to(chars.as_slice(), b, CharClass::Space);
        proof {
            lemma_scan(s@, start as int, CharClass::NotSpace);
            lemma_scan(s@, b as int, CharClass::Space);
        }
        let piece = substring(chars.as_slice(), b, e);
        proof {
            lemma_texts_push(parts@, piece);
        }
        parts.push(piece);
        start = e;
    }
    parts
}

/// The index of the first occurrence of `needle` in `hay`.
pub fn find_text(hay: &[char], needle: &[char]) -> (r: Option<usize>)
    ensures
        r is Some <==> find_sub(hay@, needle@) is Some,
        r matches Some(i) ==> find_sub(hay@, needle@) == Some(i as int) && i <= hay@.len(),
{
    if needle.len() > hay.len() {
        return None;
    }
    let last: usize = hay.len() - needle.len();
    let mut i: usize = 0;
    loop
        invariant
            i <= last,
            last == hay@.len() - needle@.len(),
            hay@.len() <= usize::MAX,
            find_sub(hay@, needle@) == find_sub_from(hay@, needle@, i as int),
        decreases last - i,
    {
        if same_chars(slice_subrange(hay, i, i + needle.len()), needle) {
            return Some(i);
        }
        if i == last {
            return None;
        }
        i = i + 1;
    }
}

/// The lines of `s`.
pub fn split_lines(s: &str) -> (parts: Vec<String>)
    ensures
        texts(parts@) == lines(s@),
{
    let chars = chars_of(s);
    let mut parts: Vec<String> = Vec::new();
    let mut start: usize = 0;
    while start < chars.len()
        invariant
            start <= chars@.len(),
            chars@ == s@,
            lines(s@) == texts(parts@) + lines_from(s@, start as int),
        decreases chars@.len() - start,
    {
        let e = scan_to(chars.as_slice(), start, CharClass::Is('\n'));
        if e >= chars.len() {
            let piece = substring(chars.as_slice(), start, e);
            proof {
                lemma_texts_push(parts@, piece);
            }
            parts.push(piece);
            start = e;
        } else {
            let stop: usize = if e > start && chars[e - 1] == '\r' {
                e - 1
            } else {
                e
            };
            let piece = substring(chars.as_slice(), start, stop);
            proof {
                let whole = s@.subrange(start as int, e as int);
                assert(piece@ =~= without_cr(whole));
                lemma_texts_push(parts@, piece);
            }
            parts.push(piece);
            start = e + 1;
        }
    }
    parts
}

} // verus!
