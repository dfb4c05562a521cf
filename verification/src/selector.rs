//! Selectors: a base name and, optionally, the state or the part of the
//! target that a rule is for.

use vstd::prelude::*;
use vstd::slice::slice_subrange;
use crate::text::{begins_with, chars_of, has_prefix, is_word, scan, scan_to, string_of, CharClass};

verus! {

/// The state or the part of the target that a rule is for.
#[derive(Clone, Copy, Debug, PartialEq, Eq, Structural)]
pub enum PseudoClass {
    Hover,
    Active,
    ActiveHover,
    Disabled,
    DisabledHover,
    Focus,
    FocusHover,
    Placeholder,
    Selection,
}

/// The pseudo-class that the suffix `s` of a selector names, colons included.
pub open spec fn pseudo_class_of(s: Seq<char>) -> Option<PseudoClass> {
    if s == ":hover"@ {
        Some(PseudoClass::Hover)
    } else if s == ":focus"@ {
        Some(PseudoClass::Focus)
    } else if s == ":focus:hover"@ {
        Some(PseudoClass::FocusHover)
    } else if s == ":active"@ {
        Some(PseudoClass::Active)
    } else if s == ":active:hover"@ {
        Some(PseudoClass::ActiveHover)
    } else if s == ":disabled"@ {
        Some(PseudoClass::Disabled)
    } else if s == ":disabled:hover"@ {
        Some(PseudoClass::DisabledHover)
    } else if s == "::placeholder"@ {
        Some(PseudoClass::Placeholder)
    } else if s == "::selection"@ {
        Some(PseudoClass::Selection)
    } else {
        None
    }
}

/// The pseudo-class that `chars` names.
fn pseudo_class_from(chars: &[char]) -> (r: Option<PseudoClass>)
    ensures
        r == pseudo_class_of(chars@),
{
    if is_word(chars, ":hover") {
        Some(PseudoClass::Hover)
    } else if is_word(chars, ":focus") {
        Some(PseudoClass::Focus)
    } else if is_word(chars, ":focus:hover") {
        Some(PseudoClass::FocusHover)
    } else if is_word(chars, ":active") {
        Some(PseudoClass::Active)
    } else if is_word(chars, ":active:hover") {
        Some(PseudoClass::ActiveHover)
    } else if is_word(chars, ":disabled") {
        Some(PseudoClass::Disabled)
    } else if is_word(chars, ":disabled:hover") {
        Some(PseudoClass::DisabledHover)
    } else if is_word(chars, "::placeholder") {
        Some(PseudoClass::Placeholder)
    } else if is_word(chars, "::selection") {
        Some(PseudoClass::Selection)
    } else {
        None
    }
}

impl PseudoClass {
    /// The pseudo-class that `s` names, colons included: `:hover`,
    /// `::placeholder` and so on.
    pub fn parse_str(s: &str) -> (r: Option<PseudoClass>)
        ensures
            r == pseudo_class_of(s@),
    {
        let chars = chars_of(s);
        pseudo_class_from(chars.as_slice())
    }
}

/// One selector of a rule.
#[derive(Debug, PartialEq, Eq)]
pub struct Selector {
    /// The base name, under which the rule's style is filed.
    pub selector: String,
    pub pseudo_class: Option<PseudoClass>,
}

/// A selector as a mathematical value.
pub ghost struct SelectorView {
    pub selector: Seq<char>,
    pub pseudo_class: Option<PseudoClass>,
}

impl View for Selector {
    type V = SelectorView;

    open spec fn view(&self) -> SelectorView {
        SelectorView { selector: self.selector@, pseudo_class: self.pseudo_class }
    }
}

/// `s` cut at its first colon at or after index `from`: the base name before
/// it, the pseudo-class from it on. Without such a colon all of `s` is the
/// base name.
pub open spec fn split_at_colon(s: Seq<char>, from: int) -> SelectorView {
    let i = scan(s, from, CharClass::Is(':'));
    if 0 <= from <= i < s.len() {
        SelectorView { selector: s.take(i), pseudo_class: pseudo_class_of(s.skip(i)) }
    } else {
        SelectorView { selector: s, pseudo_class: None }
    }
}

/// The selector that the text `s` writes. `:root` is never cut; a text that
/// begins with `::` is cut at the first colon after those two; any other text
/// at its first colon.
pub open spec fn selector_of(s: Seq<char>) -> SelectorView {
    if s == ":root"@ {
        SelectorView { selector: s, pseudo_class: None }
    } else if begins_with(s, "::"@) {
        split_at_colon(s, 2)
    } else {
        split_at_colon(s, 0)
    }
}

/// Cuts `chars` at its first colon at or after `from`.
fn cut_at_colon(chars: &[char], from: usize) -> (r: Selector)
    requires
        from <= chars@.len(),
    ensures
        r@ == split_at_colon(chars@, from as int),
{
    let i = scan_to(chars, from, CharClass::Is(':'));
    if i < chars.len() {
        let base = slice_subrange(chars, 0, i);
        let rest = slice_subrange(chars, i, chars.len());
        Selector { selector: string_of(base), pseudo_class: pseudo_class_from(rest) }
    } else {
        Selector { selector: string_of(chars), pseudo_class: None }
    }
}

/// Cuts a selector at its first colon.
pub fn split_value(value: &str) -> (r: Selector)
    ensures
        r@ == split_at_colon(value@, 0),
{
    let chars = chars_of(value);
    cut_at_colon(chars.as_slice(), 0)
}

/// Cuts a selector that begins with `::` at the first colon after those two.
pub fn split_double_colon(value: &str) -> (r: Selector)
    requires
        value@.len() >= 2,
    ensures
        r@ == split_at_colon(value@, 2),
{
    let chars = chars_of(value);
    cut_at_colon(chars.as_slice(), 2)
}

impl Selector {
    /// The selector that `value` writes.
    pub fn from(value: &str) -> (r: Selector)
        ensures
            r@ == selector_of(value@),
    {
        let chars = chars_of(value);
        if is_word(chars.as_slice(), ":root") {
            return Selector { selector: string_of(chars.as_slice()), pseudo_class: None };
        }
        if has_prefix(chars.as_slice(), "::") {
            proof {
                reveal_strlit("::");
            }
            return split_double_colon(value);
        }
        split_value(value)
    }

    /// A copy of this selector.
    pub fn duplicate(&self) -> (r: Selector)
        ensures
            r@ == self@,
    {
        Selector { selector: self.selector.clone(), pseudo_class: self.pseudo_class }
    }
}

} // verus!
