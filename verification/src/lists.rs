//! The small inline vectors that rules and style tables are kept in.

use vstd::prelude::*;
use smallvec::SmallVec;
use crate::selector::{Selector, SelectorView};
use crate::style::{Style, StyleView};
use crate::text::{lemma_texts_push, texts};

verus! {

/// A list of texts, held in a `SmallVec` that keeps up to four of them inline.
#[verifier::external_body]
pub struct TextList {
    items: SmallVec<[String; 4]>,
}

/// The texts that a list holds, in order.
pub uninterp spec fn text_list_items(list: TextList) -> Seq<Seq<char>>;

impl TextList {
    /// `SmallVec::new_const`: a list that holds nothing.
    #[verifier::external_body]
    pub(crate) fn new() -> (list: TextList)
        ensures
            text_list_items(list) == Seq::<Seq<char>>::empty(),
    {
        TextList { items: SmallVec::new_const() }
    }

    /// `SmallVec::len`: the number of texts held.
    #[verifier::external_body]
    pub(crate) fn len(&self) -> (n: usize)
        ensures
            n == text_list_items(*self).len(),
    {
        self.items.len()
    }

    /// `SmallVec::push`: the list gains `text` as its last item.
    #[verifier::external_body]
    pub(crate) fn push(&mut self, text: String)
        ensures
            text_list_items(*final(self)) == text_list_items(*old(self)).push(text@),
    {
        self.items.push(text)
    }

    /// Indexing a `SmallVec`: the item at `index`, which must be in bounds.
    #[verifier::external_body]
    pub(crate) fn get(&self, index: usize) -> (text: &String)
        requires
            index < text_list_items(*self).len(),
        ensures
            text@ == text_list_items(*self)[index as int],
    {
        &self.items[index]
    }

    /// Assigning through an index of a `SmallVec`: the item at `index`, which
    /// must be in bounds, becomes `text`; the others stay.
    #[verifier::external_body]
    pub(crate) fn set(&mut self, index: usize, text: String)
        requires
            index < text_list_items(*old(self)).len(),
        ensures
            text_list_items(*final(self)) == text_list_items(*old(self)).update(
                index as int,
                text@,
            ),
    {
        self.items[index] = text;
    }

    /// `SmallVec::remove`: the item at `index`, which must be in bounds,
    /// leaves the list and is returned; the items after it move up.
    #[verifier::external_body]
    pub(crate) fn remove(&mut self, index: usize) -> (text: String)
        requires
            index < text_list_items(*old(self)).len(),
        ensures
            text@ == text_list_items(*old(self))[index as int],
            text_list_items(*final(self)) == text_list_items(*old(self)).remove(index as int),
    {
        self.items.remove(index)
    }
}

/// The texts of a list, copied into a vector.
pub fn to_texts(list: &TextList) -> (v: Vec<String>)
    ensures
        texts(v@) == text_list_items(*list),
{
    let mut v: Vec<String> = Vec::new();
    let n = list.len();
    let mut i: usize = 0;
    while i < n
        invariant
            i <= n,
            n == text_list_items(*list).len(),
            texts(v@) == text_list_items(*list).take(i as int),
        decreases n - i,
    {
        let text = list.get(i).clone();
        proof {
            lemma_texts_push(v@, text);
            assert(text_list_items(*list).take(i + 1) =~= text_list_items(*list).take(
                i as int,
            ).push(text@));
        }
        v.push(text);
        i = i + 1;
    }
    assert(text_list_items(*list).take(n as int) =~= text_list_items(*list));
    v
}

/// A list of selectors, held in a `SmallVec` that keeps up to four of them
/// inline.
#[verifier::external_body]
pub struct SelectorList {
    items: SmallVec<[Selector; 4]>,
}

/// The selectors that a list holds, in order.
pub uninterp spec fn selector_list_items(list: SelectorList) -> Seq<SelectorView>;

impl SelectorList {
    /// `SmallVec::new_const`: a list that holds nothing.
    #[verifier::external_body]
    pub(crate) fn new() -> (list: SelectorList)
        ensures
            selector_list_items(list) == Seq::<SelectorView>::empty(),
    {
        SelectorList { items: SmallVec::new_const() }
    }

    /// `SmallVec::len`: the number of selectors held.
    #[verifier::external_body]
    pub(crate) fn len(&self) -> (n: usize)
        ensures
            n == selector_list_items(*self).len(),
    {
        self.items.len()
    }

    /// `SmallVec::push`: the list gains `selector` as its last item.
    #[verifier::external_body]
    pub(crate) fn push(&mut self, selector: Selector)
        ensures
            selector_list_items(*final(self)) == selector_list_items(*old(self)).push(selector@),
    {
        self.items.push(selector)
    }

    /// Indexing a `SmallVec`: the item at `index`, which must be in bounds.
    #[verifier::external_body]
    pub(crate) fn get(&self, index: usize) -> (selector: &Selector)
        requires
            index < selector_list_items(*self).len(),
        ensures
            selector@ == selector_list_items(*self)[index as int],
    {
        &self.items[index]
    }
}

/// A list of composed styles, held in a `SmallVec` that keeps up to
/// thirty-two of them inline.
#[verifier::external_body]
pub struct StyleList {
    items: SmallVec<[Style; 32]>,
}

/// The styles that a list holds, in order.
pub uninterp spec fn style_list_items(list: StyleList) -> Seq<StyleView>;

impl StyleList {
    /// `SmallVec::new_const`: a list that holds nothing.
    #[verifier::external_body]
    pub(crate) fn new() -> (list: StyleList)
        ensures
            style_list_items(list) == Seq::<StyleView>::empty(),
    {
        StyleList { items: SmallVec::new_const() }
    }

    /// `SmallVec::len`: the number of styles held.
    #[verifier::external_body]
    pub(crate) fn len(&self) -> (n: usize)
        ensures
            n == style_list_items(*self).len(),
    {
        self.items.len()
    }

    /// `SmallVec::push`: the list gains `style` as its last item.
    #[verifier::external_body]
    pub(crate) fn push(&mut self, style: Style)
        ensures
            style_list_items(*final(self)) == style_list_items(*old(self)).push(style@),
    {
        self.items.push(style)
    }

    /// Indexing a `SmallVec`: the item at `index`, which must be in bounds.
    #[verifier::external_body]
    pub(crate) fn get(&self, index: usize) -> (style: &Style)
        requires
            index < style_list_items(*self).len(),
        ensures
            style@ == style_list_items(*self)[index as int],
    {
        &self.items[index]
    }

    /// `SmallVec::remove`: the item at `index`, which must be in bounds,
    /// leaves the list and is returned; the items after it move up.
    #[verifier::external_body]
    pub(crate) fn remove(&mut self, index: usize) -> (style: Style)
        requires
            index < style_list_items(*old(self)).len(),
        ensures
            style@ == style_list_items(*old(self))[index as int],
            style_list_items(*final(self)) == style_list_items(*old(self)).remove(index as int),
    {
        self.items.remove(index)
    }
}

} // verus!
