//! A second reader of stylesheets, which goes block by block: it cuts the
//! text at the closing braces, reads the class selectors before each opening
//! brace and the `key: value` pairs after it, and keeps what it could not read
//! as errors beside the block.

use vstd::prelude::*;
use vstd::slice::slice_subrange;
use vstd::seq_lib::to_multiset_insert;
use crate::text::{
    chars_of, find_sub, find_text, index_of, lemma_texts_push, same_chars,
    scan, scan_to, split, split_on, string_of, substring, texts, trim, trim_bounds, trimmed,
    CharClass,
};

verus! {

/// What could not be read, and why.
#[derive(Debug, PartialEq, Eq)]
pub struct StyleError {
    pub error: String,
    pub value: String,
}

/// An error as a mathematical value.
pub ghost struct StyleErrorView {
    pub error: Seq<char>,
    pub value: Seq<char>,
}

impl View for StyleError {
    type V = StyleErrorView;

    open spec fn view(&self) -> StyleErrorView {
        StyleErrorView { error: self.error@, value: self.value@ }
    }
}

impl StyleError {
    /// An error with this message about this text.
    pub fn new(error: &str, value: &str) -> (e: StyleError)
        ensures
            e@ == (StyleErrorView { error: error@, value: value@ }),
    {
        StyleError { error: error.to_owned(), value: value.to_owned() }
    }
}

/// The state that a class selector is for.
#[derive(Debug, Clone, Copy, PartialEq, Eq, Structural)]
pub enum Selector {
    Active,
    ActiveHover,
    Focus,
    FocusHover,
    Hover,
    Disabled,
    DisabledHover,
    Placeholder,
}

/// The state that `s` names, written without a colon before it.
pub open spec fn state_of(s: Seq<char>) -> Option<Selector> {
    if s == "active"@ {
        Some(Selector::Active)
    } else if s == "active:hover"@ {
        Some(Selector::ActiveHover)
    } else if s == "focus"@ {
        Some(Selector::Focus)
    } else if s == "focus:hover"@ {
        Some(Selector::FocusHover)
    } else if s == "hover"@ {
        Some(Selector::Hover)
    } else if s == "disabled"@ {
        Some(Selector::Disabled)
    } else if s == "disabled:hover"@ {
        Some(Selector::DisabledHover)
    } else if s == "placeholder"@ {
        Some(Selector::Placeholder)
    } else {
        None
    }
}

impl Selector {
    /// The place of the state in the order of the states.
    pub open spec fn rank(self) -> nat {
        match self {
            Selector::Active => 1,
            Selector::ActiveHover => 2,
            Selector::Focus => 3,
            Selector::FocusHover => 4,
            Selector::Hover => 5,
            Selector::Disabled => 6,
            Selector::DisabledHover => 7,
            Selector::Placeholder => 8,
        }
    }

    /// The place of the state in the order of the states.
    pub fn order(&self) -> (r: u8)
        ensures
            r == self.rank(),
    {
        match self {
            Selector::Active => 1,
            Selector::ActiveHover => 2,
            Selector::Focus => 3,
            Selector::FocusHover => 4,
            Selector::Hover => 5,
            Selector::Disabled => 6,
            Selector::DisabledHover => 7,
            Selector::Placeholder => 8,
        }
    }

    /// The state that `s` names; any other text is an `unsupported selector`.
    pub fn from_str(s: &str) -> (r: Result<Selector, StyleError>)
        ensures
            match r {
                Ok(state) => state_of(s@) == Some(state),
                Err(e) => state_of(s@) is None && e@ == (StyleErrorView {
                    error: "unsupported selector"@,
                    value: s@,
                }),
            },
    {
        let chars = chars_of(s);
        let c = chars.as_slice();
        if crate::text::is_word(c, "active") {
            Ok(Selector::Active)
        } else if crate::text::is_word(c, "active:hover") {
            Ok(Selector::ActiveHover)
        } else if crate::text::is_word(c, "focus") {
            Ok(Selector::Focus)
        } else if crate::text::is_word(c, "focus:hover") {
            Ok(Selector::FocusHover)
        } else if crate::text::is_word(c, "hover") {
            Ok(Selector::Hover)
        } else if crate::text::is_word(c, "disabled") {
            Ok(Selector::Disabled)
        } else if crate::text::is_word(c, "disabled:hover") {
            Ok(Selector::DisabledHover)
        } else if crate::text::is_word(c, "placeholder") {
            Ok(Selector::Placeholder)
        } else {
            Err(StyleError::new("unsupported selector", s))
        }
    }
}

/// A class and, optionally, the state that a block is for.
#[derive(Debug, PartialEq, Eq)]
pub struct ClassSelector {
    pub class: String,
    pub selector: Option<Selector>,
}

/// A class selector as a mathematical value.
pub ghost struct ClassSelectorView {
    pub class: Seq<char>,
    pub selector: Option<Selector>,
}

impl View for ClassSelector {
    type V = ClassSelectorView;

    open spec fn view(&self) -> ClassSelectorView {
        ClassSelectorView { class: self.class@, selector: self.selector }
    }
}

/// The class selectors of a sequence, as mathematical values.
pub open spec fn class_selector_views(v: Seq<ClassSelector>) -> Seq<ClassSelectorView> {
    v.map_values(|c: ClassSelector| c@)
}

/// What reading a class selector gives: the selector, or the error and the
/// text that it is about.
pub ghost enum Read<T> {
    Done(T),
    Failed(StyleErrorView),
}

/// The class selector that `s` writes.
///
/// - An empty text is an `empty class selector`.
/// - A text without a colon is a class.
/// - Any other text is cut at its first colon; the class before it and the
///   state after it are taken without the white space around them. If one of
///   them is empty this is an `invalid class selector`; if the state is none
///   of the known ones, an `unsupported selector`.
pub open spec fn class_selector_of(s: Seq<char>) -> Read<ClassSelectorView> {
    if s.len() == 0 {
        Read::Failed(StyleErrorView { error: "empty class selector"@, value: s })
    } else {
        match index_of(s, ':') {
            None => Read::Done(ClassSelectorView { class: s, selector: None }),
            Some(i) => {
                let class = trimmed(s.take(i));
                let state = trimmed(s.skip(i + 1));
                if class.len() == 0 || state.len() == 0 {
                    Read::Failed(StyleErrorView { error: "invalid class selector"@, value: class })
                } else {
                    match state_of(state) {
                        Some(found) => Read::Done(
                            ClassSelectorView { class, selector: Some(found) },
                        ),
                        None => Read::Failed(
                            StyleErrorView { error: "unsupported selector"@, value: state },
                        ),
                    }
                }
            },
        }
    }
}

impl ClassSelector {
    /// Reads a class selector.
    pub fn from_str(value: &str) -> (r: Result<ClassSelector, StyleError>)
        ensures
            match r {
                Ok(c) => class_selector_of(value@) == Read::Done(c@),
                Err(e) => class_selector_of(value@) == Read::<ClassSelectorView>::Failed(e@),
            },
    {
        let chars = chars_of(value);
        let c = chars.as_slice();
        if c.len() == 0 {
            return Err(StyleError::new("empty class selector", value));
        }
        let i = scan_to(c, 0, CharClass::Is(':'));
        if i >= c.len() {
            return Ok(ClassSelector { class: string_of(c), selector: None });
        }
        let head = slice_subrange(c, 0, i);
        let tail = slice_subrange(c, i + 1, c.len());
        let (a, b) = trim_bounds(head);
        let class = substring(head, a, b);
        let (x, y) = trim_bounds(tail);
        let state = substring(tail, x, y);
        if a == b || x == y {
            return Err(StyleError::new("invalid class selector", class.as_str()));
        }
        match Selector::from_str(state.as_str()) {
            Ok(found) => Ok(ClassSelector { class, selector: Some(found) }),
            Err(e) => Err(e),
        }
    }

    /// A copy of this class selector.
    pub fn duplicate(&self) -> (r: ClassSelector)
        ensures
            r@ == self@,
    {
        ClassSelector { class: self.class.clone(), selector: self.selector }
    }
}

/// Whether `a` comes before `b` in the order of texts, looking from index
/// `from` on: at the first place where they differ `a` has the smaller
/// character, or `a` ends there and `b` goes on.
pub open spec fn text_before_from(a: Seq<char>, b: Seq<char>, from: int) -> bool
    decreases a.len() - from,
{
    if from < 0 || from >= b.len() {
        false
    } else if from >= a.len() {
        true
    } else if a[from] != b[from] {
        (a[from] as u32) < (b[from] as u32)
    } else {
        text_before_from(a, b, from + 1)
    }
}

/// Whether `a` comes before `b` in the order of texts.
pub open spec fn text_before(a: Seq<char>, b: Seq<char>) -> bool {
    text_before_from(a, b, 0)
}

/// The place of an optional state in the order: no state comes first.
pub open spec fn state_rank(state: Option<Selector>) -> nat {
    match state {
        None => 0,
        Some(s) => s.rank(),
    }
}

/// Whether `a` comes before `b`: by class, and with the same class by state.
pub open spec fn selector_before(a: ClassSelectorView, b: ClassSelectorView) -> bool {
    text_before(a.class, b.class) || (a.class == b.class && state_rank(a.selector) < state_rank(
        b.selector,
    ))
}

/// Whether no item of `s` comes before an earlier one.
pub open spec fn in_order(s: Seq<ClassSelectorView>) -> bool {
    forall|i: int, j: int| 0 <= i < j < s.len() ==> !selector_before(s[j], s[i])
}

/// Where `x` goes into `s`: before the first item at or after `from` that
/// `x` comes before, or at the end.
pub open spec fn insert_point(s: Seq<ClassSelectorView>, x: ClassSelectorView, from: int) -> int
    decreases s.len() - from,
{
    if from < 0 || from >= s.len() {
        s.len() as int
    } else if selector_before(x, s[from]) {
        from
    } else {
        insert_point(s, x, from + 1)
    }
}

/// `s` with `x` put in at its place.
pub open spec fn inserted(s: Seq<ClassSelectorView>, x: ClassSelectorView) -> Seq<
    ClassSelectorView,
> {
    s.insert(insert_point(s, x, 0), x)
}

/// The first `n` items of `s`, sorted.
pub open spec fn sorted_upto(s: Seq<ClassSelectorView>, n: int) -> Seq<ClassSelectorView>
    decreases n,
{
    if n <= 0 || n > s.len() {
        Seq::<ClassSelectorView>::empty()
    } else {
        inserted(sorted_upto(s, n - 1), s[n - 1])
    }
}

/// The items of `s`, sorted.
pub open spec fn sorted(s: Seq<ClassSelectorView>) -> Seq<ClassSelectorView> {
    sorted_upto(s, s.len() as int)
}

proof fn lemma_insert_point(s: Seq<ClassSelectorView>, x: ClassSelectorView, from: int)
    requires
        0 <= from <= s.len(),
    ensures
        from <= insert_point(s, x, from) <= s.len(),
        forall|i: int| from <= i < insert_point(s, x, from) ==> !selector_before(x, #[trigger] s[i]),
        insert_point(s, x, from) < s.len() ==> selector_before(x, s[insert_point(s, x, from)]),
    decreases s.len() - from,
{
    if from < s.len() && !selector_before(x, s[from]) {
        lemma_insert_point(s, x, from + 1);
    }
}

/// Texts that agree up to `from` and of which the first comes before the
/// second, which comes before the third: the first comes before the third.
proof fn lemma_text_before_chain(a: Seq<char>, b: Seq<char>, c: Seq<char>, from: int)
    requires
        0 <= from,
        text_before_from(a, b, from),
        text_before_from(b, c, from),
    ensures
        text_before_from(a, c, from),
    decreases a.len() - from,
{
    if from < a.len() && from < b.len() && from < c.len() {
        if a[from] == b[from] && b[from] == c[from] {
            lemma_text_before_chain(a, b, c, from + 1);
        }
    }
}

/// No text comes before itself.
proof fn lemma_text_not_before_itself(a: Seq<char>, from: int)
    requires
        0 <= from,
    ensures
        !text_before_from(a, a, from),
    decreases a.len() - from,
{
    if from < a.len() {
        lemma_text_not_before_itself(a, from + 1);
    }
}

/// Coming before is passed on: if `a` comes before `b` and `b` before `c`,
/// then `a` comes before `c`.
pub proof fn lemma_selector_before_chain(
    a: ClassSelectorView,
    b: ClassSelectorView,
    c: ClassSelectorView,
)
    requires
        selector_before(a, b),
        selector_before(b, c),
    ensures
        selector_before(a, c),
{
    if text_before(a.class, b.class) && text_before(b.class, c.class) {
        lemma_text_before_chain(a.class, b.class, c.class, 0);
    }
}

proof fn lemma_inserted_in_order(s: Seq<ClassSelectorView>, x: ClassSelectorView)
    requires
        in_order(s),
    ensures
        in_order(inserted(s, x)),
        inserted(s, x).to_multiset() == s.to_multiset().insert(x),
{
    let p = insert_point(s, x, 0);
    lemma_insert_point(s, x, 0);
    let t = inserted(s, x);
    to_multiset_insert(s, p, x);
    assert forall|i: int, j: int| 0 <= i < j < t.len() implies !selector_before(t[j], t[i]) by {
        if i == p && selector_before(s[j - 1], x) {
            lemma_selector_before_chain(s[j - 1], x, s[p]);
            if j - 1 == p {
                lemma_text_not_before_itself(s[p].class, 0);
            }
        }
    }
}

proof fn lemma_sorted_upto(s: Seq<ClassSelectorView>, n: int)
    requires
        0 <= n <= s.len(),
    ensures
        in_order(sorted_upto(s, n)),
        sorted_upto(s, n).to_multiset() == s.take(n).to_multiset(),
    decreases n,
{
    broadcast use vstd::seq_lib::group_to_multiset_ensures;

    if n > 0 {
        lemma_sorted_upto(s, n - 1);
        lemma_inserted_in_order(sorted_upto(s, n - 1), s[n - 1]);
        assert(s.take(n) =~= s.take(n - 1).push(s[n - 1]));
    }
}

/// Sorting puts the items in order and neither adds nor loses one.
pub proof fn lemma_sorted(s: Seq<ClassSelectorView>)
    ensures
        in_order(sorted(s)),
        sorted(s).to_multiset() == s.to_multiset(),
{
    lemma_sorted_upto(s, s.len() as int);
    assert(s.take(s.len() as int) =~= s);
}

/// Whether `a` comes before `b` in the order of texts.
fn before_text(a: &[char], b: &[char]) -> (r: bool)
    ensures
        r == text_before(a@, b@),
{
    let mut i: usize = 0;
    loop
        invariant
            i <= a@.len(),
            i <= b@.len(),
            text_before(a@, b@) == text_before_from(a@, b@, i as int),
        decreases a@.len() - i,
    {
        if i >= b.len() {
            return false;
        }
        if i >= a.len() {
            return true;
        }
        if a[i] != b[i] {
            return (a[i] as u32) < (b[i] as u32);
        }
        i = i + 1;
    }
}

/// The place of an optional state in the order.
fn rank_of(state: &Option<Selector>) -> (r: u8)
    ensures
        r == state_rank(*state),
{
    match state {
        None => 0,
        Some(s) => s.order(),
    }
}

/// Whether `a` comes before `b`.
pub fn comes_before(a: &ClassSelector, b: &ClassSelector) -> (r: bool)
    ensures
        r == selector_before(a@, b@),
{
    let x = chars_of(a.class.as_str());
    let y = chars_of(b.class.as_str());
    if before_text(x.as_slice(), y.as_slice()) {
        return true;
    }
    same_chars(x.as_slice(), y.as_slice()) && rank_of(&a.selector) < rank_of(&b.selector)
}

/// Puts `x` into the sorted list at its place.
pub fn insert_sorted(list: &mut Vec<ClassSelector>, x: ClassSelector)
    ensures
        class_selector_views(final(list)@) == inserted(class_selector_views(old(list)@), x@),
{
    let ghost views = class_selector_views(list@);
    let mut p: usize = 0;
    while p < list.len() && !comes_before(&x, &list[p])
        invariant
            p <= list@.len(),
            views == class_selector_views(list@),
            insert_point(views, x@, 0) == insert_point(views, x@, p as int),
        decreases list@.len() - p,
    {
        p = p + 1;
    }
    list.insert(p, x);
}

/// One `key: value` pair of a block.
#[derive(Debug, PartialEq, Eq)]
pub struct StyleProperty {
    pub key: String,
    pub value: String,
}

/// A pair as a mathematical value.
pub ghost struct StylePropertyView {
    pub key: Seq<char>,
    pub value: Seq<char>,
}

impl View for StyleProperty {
    type V = StylePropertyView;

    open spec fn view(&self) -> StylePropertyView {
        StylePropertyView { key: self.key@, value: self.value@ }
    }
}

/// The pairs of a sequence, as mathematical values.
pub open spec fn property_views(v: Seq<StyleProperty>) -> Seq<StylePropertyView> {
    v.map_values(|p: StyleProperty| p@)
}

/// The errors of a sequence, as mathematical values.
pub open spec fn style_error_views(v: Seq<StyleError>) -> Seq<StyleErrorView> {
    v.map_values(|e: StyleError| e@)
}

/// The pair that `s` writes: `s` without the white space around it is cut
/// at its first colon, and key and value are taken without the white space
/// around them. Without a colon there is no pair.
pub open spec fn property_of(s: Seq<char>) -> Read<StylePropertyView> {
    let t = trimmed(s);
    match index_of(t, ':') {
        Some(i) => Read::Done(
            StylePropertyView { key: trimmed(t.take(i)), value: trimmed(t.skip(i + 1)) },
        ),
        None => Read::Failed(
            StyleErrorView { error: "Expecting key value pair with :"@, value: s },
        ),
    }
}

/// The key and the value of a text that is cut at its first colon.
fn cut_pair(t: &[char]) -> (r: Option<(String, String)>)
    ensures
        match r {
            Some((key, value)) => index_of(t@, ':') matches Some(i) && key@ == trimmed(
                t@.take(i),
            ) && value@ == trimmed(t@.skip(i + 1)),
            None => index_of(t@, ':') is None,
        },
{
    let i = scan_to(t, 0, CharClass::Is(':'));
    if i >= t.len() {
        return None;
    }
    let head = slice_subrange(t, 0, i);
    let tail = slice_subrange(t, i + 1, t.len());
    let (a, b) = trim_bounds(head);
    let (x, y) = trim_bounds(tail);
    Some((substring(head, a, b), substring(tail, x, y)))
}

impl StyleProperty {
    /// Reads a `key: value` pair.
    pub fn from_str(s: &str) -> (r: Result<StyleProperty, StyleError>)
        ensures
            match r {
                Ok(p) => property_of(s@) == Read::Done(p@),
                Err(e) => property_of(s@) == Read::<StylePropertyView>::Failed(e@),
            },
    {
        let chars = chars_of(s);
        let (a, b) = trim_bounds(chars.as_slice());
        let t = slice_subrange(chars.as_slice(), a, b);
        match cut_pair(t) {
            Some((key, value)) => Ok(StyleProperty { key, value }),
            None => Err(StyleError::new("Expecting key value pair with :", s)),
        }
    }
}

/// The pieces of `s` from index `from` on, each running up to and including
/// the next `sep`; what follows the last `sep` is a piece too if it is not
/// empty.
pub open spec fn pieces_from(s: Seq<char>, sep: char, from: int) -> Seq<Seq<char>>
    decreases s.len() - from,
{
    let e = scan(s, from, CharClass::Is(sep));
    if from < 0 || from >= s.len() || e < from {
        Seq::<Seq<char>>::empty()
    } else if e >= s.len() {
        seq![s.subrange(from, s.len() as int)]
    } else {
        seq![s.subrange(from, e + 1)] + pieces_from(s, sep, e + 1)
    }
}

/// The pieces of `s`, each running up to and including the next `sep`.
pub open spec fn pieces(s: Seq<char>, sep: char) -> Seq<Seq<char>> {
    pieces_from(s, sep, 0)
}

/// Cuts `chars` behind every `sep`.
pub fn split_after(chars: &[char], sep: char) -> (parts: Vec<String>)
    ensures
        texts(parts@) == pieces(chars@, sep),
{
    let mut parts: Vec<String> = Vec::new();
    let mut start: usize = 0;
    while start < chars.len()
        invariant
            start <= chars@.len(),
            pieces(chars@, sep) == texts(parts@) + pieces_from(chars@, sep, start as int),
        decreases chars@.len() - start,
    {
        let e = scan_to(chars, start, CharClass::Is(sep));
        let stop: usize = if e >= chars.len() {
            e
        } else {
            e + 1
        };
        let piece = substring(chars, start, stop);
        proof {
            lemma_texts_push(parts@, piece);
            assert(pieces(chars@, sep) =~= texts(parts@.push(piece)) + pieces_from(
                chars@,
                sep,
                stop as int,
            ));
        }
        parts.push(piece);
        start = stop;
    }
    parts
}

/// Whether `c` is one of the marks that are taken out of a pair: `;`, `{`
/// and `}`.
pub open spec fn is_mark(c: char) -> bool {
    c == ';' || c == '{' || c == '}'
}

/// The first `n` characters of `s` without the marks among them.
pub open spec fn unmarked_upto(s: Seq<char>, n: int) -> Seq<char>
    decreases n,
{
    if n <= 0 || n > s.len() {
        Seq::<char>::empty()
    } else if is_mark(s[n - 1]) {
        unmarked_upto(s, n - 1)
    } else {
        unmarked_upto(s, n - 1).push(s[n - 1])
    }
}

/// `s` without `;`, `{` and `}`.
pub open spec fn unmarked(s: Seq<char>) -> Seq<char> {
    unmarked_upto(s, s.len() as int)
}

/// `chars` without `;`, `{` and `}`.
fn remove_marks(chars: &[char]) -> (r: Vec<char>)
    ensures
        r@ == unmarked(chars@),
{
    let mut r: Vec<char> = Vec::new();
    let mut i: usize = 0;
    while i < chars.len()
        invariant
            i <= chars@.len(),
            r@ == unmarked_upto(chars@, i as int),
        decreases chars@.len() - i,
    {
        let c = chars[i];
        if !(c == ';' || c == '{' || c == '}') {
            r.push(c);
        }
        i = i + 1;
    }
    r
}

/// What one piece of a block's body holds: the piece without the white space
/// around it and without marks.
pub open spec fn cleaned(piece: Seq<char>) -> Seq<char> {
    unmarked(trimmed(piece))
}

/// One block: its class selectors in order, its pairs, and what could not be
/// read as a pair.
#[derive(Debug, PartialEq, Eq)]
pub struct StyleBlock {
    pub selectors: Vec<ClassSelector>,
    pub props: Vec<StyleProperty>,
    pub errors: Vec<StyleError>,
}

/// A block as a mathematical value.
pub ghost struct StyleBlockView {
    pub selectors: Seq<ClassSelectorView>,
    pub props: Seq<StylePropertyView>,
    pub errors: Seq<StyleErrorView>,
}

impl View for StyleBlock {
    type V = StyleBlockView;

    open spec fn view(&self) -> StyleBlockView {
        StyleBlockView {
            selectors: class_selector_views(self.selectors@),
            props: property_views(self.props@),
            errors: style_error_views(self.errors@),
        }
    }
}

/// The class selectors that the first `n` pieces write; a piece that writes
/// none is left out.
pub open spec fn selectors_upto(parts: Seq<Seq<char>>, n: int) -> Seq<ClassSelectorView>
    decreases n,
{
    if n <= 0 || n > parts.len() {
        Seq::<ClassSelectorView>::empty()
    } else {
        match class_selector_of(trimmed(parts[n - 1])) {
            Read::Done(c) => selectors_upto(parts, n - 1).push(c),
            Read::Failed(_) => selectors_upto(parts, n - 1),
        }
    }
}

/// The sorted class selectors that the first `n` pieces write.
pub open spec fn sorted_selectors_upto(parts: Seq<Seq<char>>, n: int) -> Seq<ClassSelectorView>
    decreases n,
{
    if n <= 0 || n > parts.len() {
        Seq::<ClassSelectorView>::empty()
    } else {
        match class_selector_of(trimmed(parts[n - 1])) {
            Read::Done(c) => inserted(sorted_selectors_upto(parts, n - 1), c),
            Read::Failed(_) => sorted_selectors_upto(parts, n - 1),
        }
    }
}

/// The class selectors of a block: the text before the brace is cut at its
/// commas, each piece is read without the white space around it, and what was
/// read is sorted.
pub open spec fn block_selectors(class: Seq<char>) -> Seq<ClassSelectorView> {
    sorted_selectors_upto(split(class, ','), split(class, ',').len() as int)
}

/// Reading piece by piece and sorting as one goes gives the sorted list of
/// what all the pieces write.
pub proof fn lemma_block_selectors_sorted(parts: Seq<Seq<char>>, n: int)
    requires
        0 <= n <= parts.len(),
    ensures
        sorted_selectors_upto(parts, n) == sorted(selectors_upto(parts, n)),
    decreases n,
{
    if n > 0 {
        lemma_block_selectors_sorted(parts, n - 1);
        let before = selectors_upto(parts, n - 1);
        match class_selector_of(trimmed(parts[n - 1])) {
            Read::Done(c) => {
                let all = before.push(c);
                lemma_sorted_prefix(all, before.len() as int);
                assert(all.take(before.len() as int) =~= before);
            },
            Read::Failed(_) => {},
        }
    }
}

/// Sorting the first `n` items looks at no other item.
proof fn lemma_sorted_prefix(s: Seq<ClassSelectorView>, n: int)
    requires
        0 <= n <= s.len(),
    ensures
        sorted_upto(s, n) == sorted_upto(s.take(n), n),
    decreases n,
{
    if n > 0 {
        lemma_sorted_prefix(s, n - 1);
        lemma_sorted_prefix(s.take(n), n - 1);
        assert(s.take(n).take(n - 1) =~= s.take(n - 1));
    }
}

/// The pairs among the first `n` pieces of a block's body. A piece that
/// holds nothing is passed over.
pub open spec fn props_upto(parts: Seq<Seq<char>>, n: int) -> Seq<StylePropertyView>
    decreases n,
{
    if n <= 0 || n > parts.len() {
        Seq::<StylePropertyView>::empty()
    } else if cleaned(parts[n - 1]).len() == 0 {
        props_upto(parts, n - 1)
    } else {
        match property_of(cleaned(parts[n - 1])) {
            Read::Done(p) => props_upto(parts, n - 1).push(p),
            Read::Failed(_) => props_upto(parts, n - 1),
        }
    }
}

/// What could not be read as a pair among the first `n` pieces of a block's
/// body.
pub open spec fn errors_upto(parts: Seq<Seq<char>>, n: int) -> Seq<StyleErrorView>
    decreases n,
{
    if n <= 0 || n > parts.len() {
        Seq::<StyleErrorView>::empty()
    } else if cleaned(parts[n - 1]).len() == 0 {
        errors_upto(parts, n - 1)
    } else {
        match property_of(cleaned(parts[n - 1])) {
            Read::Done(_) => errors_upto(parts, n - 1),
            Read::Failed(e) => errors_upto(parts, n - 1).push(e),
        }
    }
}

/// The block that `s` writes.
///
/// - Without `{` the `Missing opening token {` is reported; with nothing
///   before it, that the `Class must contain value`.
/// - Before the first `{` stand the class selectors, see `block_selectors`.
/// - What follows is cut behind every `;`; each piece, cleaned, is a
///   `key: value` pair or an error.
pub open spec fn block_of(s: Seq<char>) -> Read<StyleBlockView> {
    match index_of(s, '{') {
        None => Read::Failed(StyleErrorView { error: "Missing opening token {"@, value: s }),
        Some(i) => if i == 0 {
            Read::Failed(StyleErrorView { error: "Class must contain value"@, value: s })
        } else {
            let body = pieces(s.skip(i + 1), ';');
            Read::Done(
                StyleBlockView {
                    selectors: block_selectors(s.take(i)),
                    props: props_upto(body, body.len() as int),
                    errors: errors_upto(body, body.len() as int),
                },
            )
        },
    }
}

/// Reads the class selectors that stand before a block's brace.
fn read_selectors(class: &str) -> (list: Vec<ClassSelector>)
    ensures
        class_selector_views(list@) == block_selectors(class@),
{
    let parts = split_on(class, ',');
    let mut list: Vec<ClassSelector> = Vec::new();
    let mut j: usize = 0;
    while j < parts.len()
        invariant
            j <= parts@.len(),
            texts(parts@) == split(class@, ','),
            class_selector_views(list@) == sorted_selectors_upto(texts(parts@), j as int),
        decreases parts@.len() - j,
    {
        let piece = trim(parts[j].as_str());
        if let Ok(c) = ClassSelector::from_str(piece.as_str()) {
            insert_sorted(&mut list, c);
        }
        j = j + 1;
    }
    list
}

impl StyleBlock {
    /// Reads a block; says what is wrong if there is none.
    pub fn from_str(s: &str) -> (r: Result<StyleBlock, StyleError>)
        ensures
            match r {
                Ok(b) => block_of(s@) == Read::Done(b@),
                Err(e) => block_of(s@) == Read::<StyleBlockView>::Failed(e@),
            },
    {
        let chars = chars_of(s);
        let c = chars.as_slice();
        let i = scan_to(c, 0, CharClass::Is('{'));
        if i >= c.len() {
            return Err(StyleError::new("Missing opening token {", s));
        }
        if i == 0 {
            return Err(StyleError::new("Class must contain value", s));
        }
        let class = substring(c, 0, i);
        let selectors = read_selectors(class.as_str());
        let rest = slice_subrange(c, i + 1, c.len());
        let parts = split_after(rest, ';');
        let ghost body = texts(parts@);
        let mut props: Vec<StyleProperty> = Vec::new();
        let mut errors: Vec<StyleError> = Vec::new();
        let mut j: usize = 0;
        while j < parts.len()
            invariant
                j <= parts@.len(),
                body == texts(parts@),
                property_views(props@) == props_upto(body, j as int),
                style_error_views(errors@) == errors_upto(body, j as int),
            decreases parts@.len() - j,
        {
            let piece = chars_of(parts[j].as_str());
            let (a, b) = trim_bounds(piece.as_slice());
            let clean = remove_marks(slice_subrange(piece.as_slice(), a, b));
            if clean.len() > 0 {
                let text = string_of(clean.as_slice());
                match StyleProperty::from_str(text.as_str()) {
                    Ok(p) => {
                        props.push(p);
                    },
                    Err(e) => {
                        errors.push(e);
                    },
                }
            }
            j = j + 1;
        }
        Ok(StyleBlock { selectors, props, errors })
    }

    /// Reads a block, if `input` writes one.
    pub fn parse_str(input: &str) -> (r: Option<StyleBlock>)
        ensures
            match r {
                Some(b) => block_of(input@) == Read::Done(b@),
                None => block_of(input@) is Failed,
            },
    {
        match StyleBlock::from_str(input) {
            Ok(b) => Some(b),
            Err(_) => None,
        }
    }
}

/// The blocks of a sequence, as mathematical values.
pub open spec fn block_views(v: Seq<StyleBlock>) -> Seq<StyleBlockView> {
    v.map_values(|b: StyleBlock| b@)
}

/// Whether a text holds `:root`.
pub open spec fn names_root(s: Seq<char>) -> bool {
    find_sub(s, ":root"@) is Some
}

/// The blocks among the first `n` chunks: a chunk that holds `:root` or
/// writes no block is passed over.
pub open spec fn blocks_upto(chunks: Seq<Seq<char>>, n: int) -> Seq<StyleBlockView>
    decreases n,
{
    if n <= 0 || n > chunks.len() {
        Seq::<StyleBlockView>::empty()
    } else if names_root(chunks[n - 1]) {
        blocks_upto(chunks, n - 1)
    } else {
        match block_of(chunks[n - 1]) {
            Read::Done(b) => blocks_upto(chunks, n - 1).push(b),
            Read::Failed(_) => blocks_upto(chunks, n - 1),
        }
    }
}

/// The blocks of a text: the text is cut behind every `}`, and each chunk
/// that does not hold `:root` is read as a block.
pub open spec fn blocks_of(buf: Seq<char>) -> Seq<StyleBlockView> {
    blocks_upto(pieces(buf, '}'), pieces(buf, '}').len() as int)
}

/// Whether `text` holds `:root`.
fn holds_root(text: &str) -> (r: bool)
    ensures
        r == names_root(text@),
{
    let hay = chars_of(text);
    let needle = chars_of(":root");
    find_text(hay.as_slice(), needle.as_slice()).is_some()
}

/// Reads the blocks of a text, but for the one of `:root`.
pub fn parse_blocks(buf: &str) -> (blocks: Vec<StyleBlock>)
    ensures
        block_views(blocks@) == blocks_of(buf@),
{
    let chars = chars_of(buf);
    let chunks = split_after(chars.as_slice(), '}');
    let mut blocks: Vec<StyleBlock> = Vec::new();
    let mut i: usize = 0;
    while i < chunks.len()
        invariant
            i <= chunks@.len(),
            texts(chunks@) == pieces(buf@, '}'),
            block_views(blocks@) == blocks_upto(texts(chunks@), i as int),
        decreases chunks@.len() - i,
    {
        let chunk = chunks[i].as_str();
        if !holds_root(chunk) {
            if let Some(b) = StyleBlock::parse_str(chunk) {
                blocks.push(b);
            }
        }
        i = i + 1;
    }
    blocks
}

} // verus!
